//! `.index2` files: a flat table from the hash of an inner file path to its location.
use vstd::prelude::*;
use std::collections::HashMap;
use vstd::string::StringSliceAdditionalSpecFns;
use crate::bytes::{fits, le_u32, read_u32_le};
use crate::error::XivError;

verus! {

broadcast use vstd::std_specs::hash::group_hash_axioms;

/// Where an inner file lies: which data file, and at what offset in it.
#[derive(Clone, Copy, PartialEq, Eq, Structural, Debug)]
pub struct IndexEntry {
    pub datnum: u8,
    pub offset: u64,
}

/// The entry for a packed location: `datnum = (loc & 0x7) >> 1`, `offset = (loc & !0x7) << 3`.
pub open spec fn entry_of_location(loc: u32) -> IndexEntry {
    IndexEntry {
        datnum: ((loc % 8) / 2) as u8,
        offset: ((loc - loc % 8) * 8) as u64,
    }
}

impl IndexEntry {
    /// Unpacks a location word of an `.index2` entry.
    pub fn from_location(loc: u32) -> (r: Self)
        ensures
            r == entry_of_location(loc),
    {
        IndexEntry { datnum: ((loc % 8) / 2) as u8, offset: ((loc - loc % 8) as u64) * 8 }
    }
}

/// The offset of an entry is a multiple of 64, and of 128 when bit 3 of its location is clear.
pub proof fn lemma_entry_offset_aligned(loc: u32)
    ensures
        entry_of_location(loc).offset % 64 == 0,
        entry_of_location(loc).datnum < 4,
        loc % 16 < 8 ==> entry_of_location(loc).offset % 128 == 0,
{
    let q = loc / 16;
    let r = loc % 16;
    assert(loc == 16 * q + r);
    assert(loc % 8 == r % 8);
    if r < 8 {
        assert(loc - loc % 8 == 16 * q);
        assert((16 * q) * 8 == 128 * q) by (nonlinear_arith);
    } else {
        assert(loc - loc % 8 == 16 * q + 8);
        assert((16 * q + 8) * 8 == 128 * q + 64) by (nonlinear_arith);
    }
}

/// The magic that opens every SqPack file.
pub open spec fn is_sqpack_magic(s: Seq<u8>) -> bool {
    fits(s, 0, 8) && s.subrange(0, 8) == seq![
        0x53u8,
        0x71u8,
        0x50u8,
        0x61u8,
        0x63u8,
        0x6bu8,
        0x00u8,
        0x00u8,
    ]
}

/// Where the index header starts.
pub open spec fn header_offset(s: Seq<u8>) -> int {
    le_u32(s, 0x0C) as int
}

/// Where the entry table starts.
pub open spec fn entries_offset(s: Seq<u8>) -> int {
    le_u32(s, header_offset(s) + 8) as int
}

/// How many entries the table holds.
pub open spec fn entries_count(s: Seq<u8>) -> int {
    le_u32(s, header_offset(s) + 12) as int / 8
}

/// The map built from the first `n` entries of the table at `off`; a later entry for the same
/// hash replaces an earlier one.
pub open spec fn entries_map(s: Seq<u8>, off: int, n: nat) -> Map<u32, IndexEntry>
    decreases n,
{
    if n == 0 {
        Map::empty()
    } else {
        let at = off + 8 * (n - 1);
        entries_map(s, off, (n - 1) as nat).insert(le_u32(s, at), entry_of_location(le_u32(s, at + 4)))
    }
}

/// The entries of an `.index2` file.
pub open spec fn index_file(s: Seq<u8>) -> Result<Map<u32, IndexEntry>, XivError> {
    if !is_sqpack_magic(s) || !fits(s, 0x0C, 4) || !fits(s, header_offset(s) + 8, 8) {
        Err(XivError::Index2Header)
    } else if !fits(s, entries_offset(s), 8 * entries_count(s)) {
        Err(XivError::Index2Entry)
    } else {
        Ok(entries_map(s, entries_offset(s), entries_count(s) as nat))
    }
}

/// The hash of an inner file path: CRC-32/JAMCRC of its bytes.
pub uninterp spec fn jamcrc(bytes: Seq<u8>) -> u32;

/// Relies on `crc::Crc::<u32>::checksum` with the `CRC_32_JAMCRC` algorithm.
#[verifier::external_body]
fn jamcrc_of(bytes: &[u8]) -> (r: u32)
    ensures
        r == jamcrc(bytes@),
{
    crc::Crc::<u32>::new(&crc::CRC_32_JAMCRC).checksum(bytes)
}

/// A loaded `.index2` file.
#[derive(Debug)]
pub struct Index2 {
    entries: HashMap<u32, IndexEntry>,
}

impl View for Index2 {
    type V = Map<u32, IndexEntry>;

    closed spec fn view(&self) -> Map<u32, IndexEntry> {
        self.entries@
    }
}

impl Index2 {
    /// Every entry points at a 64-byte aligned offset of one of four data files.
    #[verifier::type_invariant]
    spec fn entries_aligned(&self) -> bool {
        forall|k: u32|
            self.entries@.contains_key(k) ==> #[trigger] self.entries@[k].offset % 64 == 0
                && self.entries@[k].datnum < 4
    }

    /// Parses the bytes of an `.index2` file.
    pub fn from_bytes(data: &[u8]) -> (r: Result<Self, XivError>)
        ensures
            match index_file(data@) {
                Ok(m) => r matches Ok(idx) && idx@ == m,
                Err(e) => r == Err::<Self, XivError>(e),
            },
    {
        let magic: [u8; 8] = [0x53, 0x71, 0x50, 0x61, 0x63, 0x6b, 0x00, 0x00];
        if data.len() < 8 {
            return Err(XivError::Index2Header);
        }
        let mut k: usize = 0;
        while k < 8
            invariant
                k <= 8,
                data@.len() >= 8,
                magic@ == seq![0x53u8, 0x71u8, 0x50u8, 0x61u8, 0x63u8, 0x6bu8, 0x00u8, 0x00u8],
                forall|j: int| 0 <= j < k ==> data@[j] == magic@[j],
            decreases 8 - k,
        {
            if data[k] != magic[k] {
                assert(data@.subrange(0, 8)[k as int] != magic@[k as int]);
                return Err(XivError::Index2Header);
            }
            k = k + 1;
        }
        assert(data@.subrange(0, 8) =~= magic@);
        let header = match read_u32_le(data, 0x0C) {
            Some(v) => v as u64,
            None => return Err(XivError::Index2Header),
        };
        let (offset, total) = match (read_u32_le(data, header + 8), read_u32_le(data, header + 12)) {
            (Some(o), Some(t)) => (o as u64, t as u64),
            _ => return Err(XivError::Index2Header),
        };
        let count = total / 8;
        let len = data.len() as u64;
        if !(offset <= len && len - offset >= 8 * count) {
            return Err(XivError::Index2Entry);
        }
        let mut entries: HashMap<u32, IndexEntry> = HashMap::new();
        let mut i: u64 = 0;
        while i < count
            invariant
                i <= count,
                count as int == entries_count(data@),
                offset as int == entries_offset(data@),
                fits(data@, offset as int, 8 * count),
                entries@ == entries_map(data@, offset as int, i as nat),
                forall|k: u32|
                    entries@.contains_key(k) ==> #[trigger] entries@[k].offset % 64 == 0
                        && entries@[k].datnum < 4,
            decreases count - i,
        {
            let at = offset + 8 * i;
            let hash = read_u32_le(data, at).unwrap();
            let loc = read_u32_le(data, at + 4).unwrap();
            proof {
                lemma_entry_offset_aligned(loc);
            }
            entries.insert(hash, IndexEntry::from_location(loc));
            i = i + 1;
        }
        Ok(Index2 { entries })
    }

    /// The location of the inner file at `path`, looked up by the hash of its bytes.
    pub fn find(&self, path: &str) -> (r: Option<IndexEntry>)
        ensures
            r == self@.get(jamcrc(path.spec_bytes())),
            r is Some ==> r->Some_0.offset % 64 == 0 && r->Some_0.datnum < 4,
    {
        proof {
            use_type_invariant(self);
        }
        let hash = jamcrc_of(path.as_bytes());
        self.find_hash(hash)
    }

    /// The entry stored under the path hash `hash`.
    pub fn find_hash(&self, hash: u32) -> (r: Option<IndexEntry>)
        ensures
            r == self@.get(hash),
            r is Some ==> r->Some_0.offset % 64 == 0 && r->Some_0.datnum < 4,
    {
        proof {
            use_type_invariant(self);
        }
        match self.entries.get(&hash) {
            Some(e) => Some(*e),
            None => None,
        }
    }

    /// The number of entries.
    pub fn len(&self) -> (r: usize)
        ensures
            r == self@.len(),
    {
        self.entries.len()
    }
}

} // verus!
