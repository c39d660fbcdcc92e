//! Identity of a pack: the `(category, expansion, patch)` triple that names a pair of
//! `.index2` / `.dat` files, computed from an inner file path or from a repository file name.
use vstd::prelude::*;
use crate::error::XivError;
use crate::text::{
    chars_of, decimal, find_slash, find_slash_in, hex_byte, hex_pair, hex_value, hex_value_of,
    is_digit, lemma_hex_digit_value, is_lower_hex, lemma_find_slash_bounds, push_char, push_decimal, push_hex_byte,
    range_eq_lit,
};

verus! {

/// The pack that holds an inner file.
#[derive(Clone, Copy, PartialEq, Eq, Structural, Hash, Debug)]
pub struct PackId {
    pub category: u8,
    pub expansion: u8,
    pub patch: u8,
}

/// The category id for the first segment of an inner file path.
pub open spec fn category_id(name: Seq<char>) -> Option<u8> {
    if name == "common"@ { Some(0x00u8) }
    else if name == "bgcommon"@ { Some(0x01u8) }
    else if name == "bg"@ { Some(0x02u8) }
    else if name == "cut"@ { Some(0x03u8) }
    else if name == "chara"@ { Some(0x04u8) }
    else if name == "shader"@ { Some(0x05u8) }
    else if name == "ui"@ { Some(0x06u8) }
    else if name == "sound"@ { Some(0x07u8) }
    else if name == "vfx"@ { Some(0x08u8) }
    else if name == "ui_script"@ { Some(0x09u8) }
    else if name == "exd"@ { Some(0x0au8) }
    else if name == "game_script"@ { Some(0x0bu8) }
    else if name == "music"@ { Some(0x0cu8) }
    else if name == "_sqpack_test"@ { Some(0x12u8) }
    else if name == "_debug"@ { Some(0x13u8) }
    else { None }
}

/// A segment of the form `ex<d>` with `d` in `1..=9`.
pub open spec fn is_expansion_segment(seg: Seq<char>) -> bool {
    seg.len() == 3 && seg[0] == 'e' && seg[1] == 'x' && '1' <= seg[2] && seg[2] <= '9'
}

/// A segment that starts with two lower-case hex digits and `_`.
pub open spec fn has_patch_prefix(seg: Seq<char>) -> bool {
    seg.len() >= 3 && is_lower_hex(seg[0]) && is_lower_hex(seg[1]) && seg[2] == '_'
}

/// The segment of `p` that starts at `start`.
pub open spec fn segment(p: Seq<char>, start: int) -> Seq<char> {
    p.subrange(start, find_slash(p, start))
}

/// The pack of an inner file path: the first segment names the category; a second segment
/// `ex<N>` names the expansion, and then a third segment starting with `<hh>_` names the patch.
/// Missing parts are zero.
pub open spec fn inner_path_pack_id(p: Seq<char>) -> Result<PackId, XivError> {
    let e0 = find_slash(p, 0);
    match category_id(p.subrange(0, e0)) {
        None => Err(XivError::PackIdCategory),
        Some(category) => {
            if e0 >= p.len() {
                Ok(PackId { category, expansion: 0, patch: 0 })
            } else {
                let seg1 = segment(p, e0 + 1);
                if !is_expansion_segment(seg1) {
                    Ok(PackId { category, expansion: 0, patch: 0 })
                } else {
                    let expansion = hex_value(seg1[2]) as u8;
                    let e1 = find_slash(p, e0 + 1);
                    if e1 < p.len() && has_patch_prefix(segment(p, e1 + 1)) {
                        let seg2 = segment(p, e1 + 1);
                        Ok(PackId { category, expansion, patch: hex_pair(seg2[0], seg2[1]) as u8 })
                    } else {
                        Ok(PackId { category, expansion, patch: 0 })
                    }
                }
            }
        },
    }
}

/// Index just past the last `/` of `p`, or 0 when there is none.
pub open spec fn file_name_start(p: Seq<char>) -> int
    decreases p.len(),
{
    if p.len() == 0 {
        0
    } else if p.last() == '/' {
        p.len() as int
    } else {
        file_name_start(p.drop_last())
    }
}

/// What follows the six hex digits of a repository file name.
pub open spec fn is_repo_file_suffix(t: Seq<char>) -> bool {
    t == ".win32.index"@ || t == ".win32.index2"@ || (t.len() == 11 && t.subrange(0, 10)
        == ".win32.dat"@ && is_digit(t[10]))
}

/// The pack named by a repository file name `<cc><ee><pp>.win32.(dat<d>|index|index2)`.
pub open spec fn repo_file_pack_id(name: Seq<char>) -> Result<PackId, XivError> {
    if name.len() >= 6 && is_lower_hex(name[0]) && is_lower_hex(name[1]) && is_lower_hex(name[2])
        && is_lower_hex(name[3]) && is_lower_hex(name[4]) && is_lower_hex(name[5])
        && is_repo_file_suffix(name.subrange(6, name.len() as int)) {
        Ok(
            PackId {
                category: hex_pair(name[0], name[1]) as u8,
                expansion: hex_pair(name[2], name[3]) as u8,
                patch: hex_pair(name[4], name[5]) as u8,
            },
        )
    } else {
        Err(XivError::PackIdRepoFile)
    }
}

/// The directory of a pack: `ffxiv` for the base game, `ex<N>` for an expansion.
pub open spec fn pack_dir(expansion: u8) -> Seq<char> {
    if expansion == 0 {
        "ffxiv"@
    } else {
        "ex"@ + decimal(expansion as nat)
    }
}

/// The six hex digits that name a pack.
pub open spec fn pack_stem(q: PackId) -> Seq<char> {
    hex_byte(q.category) + hex_byte(q.expansion) + hex_byte(q.patch)
}

/// `<dir>/<stem>`, relative to the repository's base directory.
pub open spec fn repo_path(q: PackId) -> Seq<char> {
    pack_dir(q.expansion) + "/"@ + pack_stem(q)
}

/// Relative path of the pack's `.index2` file.
pub open spec fn index2_path(q: PackId) -> Seq<char> {
    repo_path(q) + ".win32.index2"@
}

/// Relative path of the pack's data file number `num`.
pub open spec fn dat_path(q: PackId, num: u8) -> Seq<char> {
    repo_path(q) + ".win32.dat"@ + decimal(num as nat)
}

proof fn lemma_file_name_start(p: Seq<char>, k: int)
    requires
        0 < k <= p.len(),
        p[k - 1] == '/',
        forall|i: int| k <= i < p.len() ==> p[i] != '/',
    ensures
        file_name_start(p) == k,
    decreases p.len(),
{
    if p.len() > k {
        lemma_file_name_start(p.drop_last(), k);
    }
}

/// The file name of a pack's `.index2` path names that pack again.
pub proof fn lemma_index2_file_name_round_trip(q: PackId)
    ensures
        repo_file_pack_id(
            index2_path(q).subrange(file_name_start(index2_path(q)), index2_path(q).len() as int),
        ) == Ok::<PackId, XivError>(q),
{
    let p = index2_path(q);
    let k: int = pack_dir(q.expansion).len() as int + 1;
    reveal_strlit("/");
    reveal_strlit(".win32.index2");
    reveal_strlit("ffxiv");
    reveal_strlit("ex");
    lemma_hex_digit_value(q.category as int / 16);
    lemma_hex_digit_value(q.category as int % 16);
    lemma_hex_digit_value(q.expansion as int / 16);
    lemma_hex_digit_value(q.expansion as int % 16);
    lemma_hex_digit_value(q.patch as int / 16);
    lemma_hex_digit_value(q.patch as int % 16);
    assert(p[k - 1] == '/');
    assert(p.subrange(k, p.len() as int) =~= pack_stem(q) + ".win32.index2"@);
    lemma_file_name_start(p, k);
    let name = p.subrange(k, p.len() as int);
    assert(name.subrange(6, name.len() as int) =~= ".win32.index2"@);
}

/// The category id named by `p[start..end]`.
fn category_of(p: &Vec<char>, start: usize, end: usize) -> (r: Option<u8>)
    requires
        start <= end <= p@.len(),
    ensures
        r == category_id(p@.subrange(start as int, end as int)),
{
    if range_eq_lit(p, start, end, "common") { Some(0x00) }
    else if range_eq_lit(p, start, end, "bgcommon") { Some(0x01) }
    else if range_eq_lit(p, start, end, "bg") { Some(0x02) }
    else if range_eq_lit(p, start, end, "cut") { Some(0x03) }
    else if range_eq_lit(p, start, end, "chara") { Some(0x04) }
    else if range_eq_lit(p, start, end, "shader") { Some(0x05) }
    else if range_eq_lit(p, start, end, "ui") { Some(0x06) }
    else if range_eq_lit(p, start, end, "sound") { Some(0x07) }
    else if range_eq_lit(p, start, end, "vfx") { Some(0x08) }
    else if range_eq_lit(p, start, end, "ui_script") { Some(0x09) }
    else if range_eq_lit(p, start, end, "exd") { Some(0x0a) }
    else if range_eq_lit(p, start, end, "game_script") { Some(0x0b) }
    else if range_eq_lit(p, start, end, "music") { Some(0x0c) }
    else if range_eq_lit(p, start, end, "_sqpack_test") { Some(0x12) }
    else if range_eq_lit(p, start, end, "_debug") { Some(0x13) }
    else { None }
}

/// The value of two hex digits at `p[at]`, `p[at + 1]`, if both are lower-case hex.
fn hex_pair_at(p: &Vec<char>, at: usize) -> (r: Option<u8>)
    requires
        at + 2 <= p@.len(),
    ensures
        r is Some <==> (is_lower_hex(p@[at as int]) && is_lower_hex(p@[at + 1])),
        r is Some ==> r->Some_0 as int == hex_pair(p@[at as int], p@[at + 1]),
{
    let n = p.len();
    assert(at + 1 < n);
    match (hex_value_of(p[at]), hex_value_of(p[at + 1])) {
        (Some(hi), Some(lo)) => Some(hi * 16 + lo),
        _ => None,
    }
}

impl PackId {
    pub fn new(category: u8, expansion: u8, patch: u8) -> (r: Self)
        ensures
            r == (PackId { category, expansion, patch }),
    {
        Self { category, expansion, patch }
    }

    /// The pack that holds the inner file at `path` (e.g. `exd/root.exl`).
    pub fn from_inner_path(path: &str) -> (r: Result<Self, XivError>)
        ensures
            r == inner_path_pack_id(path@),
    {
        let p = chars_of(path);
        proof { lemma_find_slash_bounds(p@, 0); }
        let e0 = find_slash_in(&p, 0);
        let category = match category_of(&p, 0, e0) {
            Some(c) => c,
            None => return Err(XivError::PackIdCategory),
        };
        if e0 >= p.len() {
            return Ok(Self::new(category, 0, 0));
        }
        proof { lemma_find_slash_bounds(p@, e0 + 1); }
        let e1 = find_slash_in(&p, e0 + 1);
        let is_exp = e1 - (e0 + 1) == 3 && p[e0 + 1] == 'e' && p[e0 + 2] == 'x' && '1' <= p[e0
            + 3] && p[e0 + 3] <= '9';
        assert(is_exp == is_expansion_segment(segment(p@, e0 + 1)));
        if !is_exp {
            return Ok(Self::new(category, 0, 0));
        }
        let expansion = match hex_value_of(p[e0 + 3]) {
            Some(v) => v,
            None => return Err(XivError::PackIdExpansion),
        };
        if e1 >= p.len() {
            return Ok(Self::new(category, expansion, 0));
        }
        proof { lemma_find_slash_bounds(p@, e1 + 1); }
        let e2 = find_slash_in(&p, e1 + 1);
        if e2 - (e1 + 1) >= 3 && p[e1 + 3] == '_' {
            if let Some(patch) = hex_pair_at(&p, e1 + 1) {
                return Ok(Self::new(category, expansion, patch));
            }
        }
        Ok(Self::new(category, expansion, 0))
    }

    /// The pack named by the file name part of `path`
    /// (`<cc><ee><pp>.win32.dat<d>`, `.index` or `.index2`).
    pub fn from_repo_path(path: &str) -> (r: Result<Self, XivError>)
        ensures
            r == repo_file_pack_id(path@.subrange(file_name_start(path@), path@.len() as int)),
    {
        let p = chars_of(path);
        let mut start = p.len();
        assert(p@.subrange(0, start as int) =~= p@);
        while start > 0 && p[start - 1] != '/'
            invariant
                start <= p@.len(),
                file_name_start(p@) == file_name_start(p@.subrange(0, start as int)),
            decreases start,
        {
            assert(p@.subrange(0, start as int).drop_last() =~= p@.subrange(0, start - 1));
            start = start - 1;
        }
        proof {
            let s = p@.subrange(0, start as int);
            if start > 0 {
                assert(s.last() == '/');
            }
            assert(file_name_start(p@) == start);
        }
        let n = p.len();
        if n - start < 6 {
            return Err(XivError::PackIdRepoFile);
        }
        let category = hex_pair_at(&p, start);
        let expansion = hex_pair_at(&p, start + 2);
        let patch = hex_pair_at(&p, start + 4);
        let suffix_ok = range_eq_lit(&p, start + 6, n, ".win32.index") || range_eq_lit(
            &p,
            start + 6,
            n,
            ".win32.index2",
        ) || (n - start == 17 && range_eq_lit(&p, start + 6, n - 1, ".win32.dat") && '0' <= p[n
            - 1] && p[n - 1] <= '9');
        proof {
            let name = p@.subrange(start as int, n as int);
            let t = name.subrange(6, name.len() as int);
            assert(t =~= p@.subrange(start + 6, n as int));
            if t.len() == 11 {
                assert(t.subrange(0, 10) =~= p@.subrange(start + 6, n - 1));
            }
            assert(name[0] == p@[start as int]);
        }
        match (category, expansion, patch) {
            (Some(c), Some(e), Some(pt)) => {
                if suffix_ok {
                    Ok(Self::new(c, e, pt))
                } else {
                    Err(XivError::PackIdRepoFile)
                }
            },
            _ => Err(XivError::PackIdRepoFile),
        }
    }

    fn into_repo_path(&self) -> (r: String)
        ensures
            r@ == repo_path(*self),
    {
        let mut path = if self.expansion == 0 {
            String::from_str("ffxiv")
        } else {
            let mut dir = String::from_str("ex");
            push_decimal(&mut dir, self.expansion as u32);
            dir
        };
        push_char(&mut path, '/');
        push_hex_byte(&mut path, self.category);
        push_hex_byte(&mut path, self.expansion);
        push_hex_byte(&mut path, self.patch);
        proof {
            reveal_strlit("/");
        }
        assert(path@ =~= repo_path(*self));
        path
    }

    /// Path of the pack's `.index2` file, relative to the repository's base directory.
    pub fn into_index2_path(&self) -> (r: String)
        ensures
            r@ == index2_path(*self),
    {
        let mut path = self.into_repo_path();
        path.append(".win32.index2");
        path
    }

    /// Path of the pack's data file number `num`, relative to the repository's base directory.
    pub fn into_dat_path(&self, num: u8) -> (r: String)
        ensures
            r@ == dat_path(*self, num),
    {
        let mut path = self.into_repo_path();
        path.append(".win32.dat");
        push_decimal(&mut path, num as u32);
        assert(path@ =~= dat_path(*self, num));
        path
    }
}

} // verus!
