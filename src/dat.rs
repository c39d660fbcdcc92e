//! Inner files of `.dat` files: the common header, the block codec, and the three
//! chunk layouts (plain, image, model).
use vstd::prelude::*;
use std::io::Read;
use crate::bytes::{fits, le_u16, le_u32, read_u16_le, read_u32_le};
use crate::error::XivError;

verus! {

/// Magic number that opens every block header.
pub const BLOCK_MAGIC: u32 = 0x10;

/// Length of a block header.
pub const BLOCK_HEADER_LEN: u64 = 16;

/// Blocks are padded to a multiple of this length.
pub const BLOCK_ALIGN: u64 = 128;

/// A block whose compressed size is below this holds raw deflate data.
pub const COMPRESSION_THRESHOLD: u32 = 32000;

/// Number of chunks in a model file.
pub const MODEL_CHUNKS_NUM: u64 = 11;

/// What raw deflate decoding makes of `data`: `None` where the stream is invalid.
pub uninterp spec fn inflated(data: Seq<u8>) -> Option<Seq<u8>>;

/// Relies on `flate2::read::DeflateDecoder`: decodes the raw deflate stream in `data`
/// (the result depends on the bytes alone).
#[verifier::external_body]
fn inflate(data: &[u8]) -> (r: Option<Vec<u8>>)
    ensures
        r is Some <==> inflated(data@) is Some,
        r is Some ==> r->Some_0@ == inflated(data@)->Some_0,
{
    let mut out = Vec::new();
    match flate2::read::DeflateDecoder::new(data).read_to_end(&mut out) {
        Ok(_) => Some(out),
        Err(_) => None,
    }
}

/// Header length plus payload length, rounded up to the block alignment.
pub open spec fn padded_len(payload: int) -> int {
    ((BLOCK_HEADER_LEN + payload + BLOCK_ALIGN - 1) / BLOCK_ALIGN as int) * BLOCK_ALIGN
}

/// Is the block with this compressed size stored as deflate data?
pub open spec fn is_compressed(size_compressed: u32) -> bool {
    size_compressed < COMPRESSION_THRESHOLD
}

/// How many payload bytes follow a block header.
pub open spec fn payload_len(size_compressed: u32, size_uncompressed: u32) -> int {
    if is_compressed(size_compressed) {
        size_compressed as int
    } else {
        size_uncompressed as int
    }
}

/// Decodes the block at `pos`: its bytes, and the position just past its padding.
#[verifier::opaque]
pub open spec fn decode_block(s: Seq<u8>, pos: int) -> Result<(Seq<u8>, int), XivError> {
    if !fits(s, pos, BLOCK_HEADER_LEN as int) || le_u32(s, pos) != BLOCK_MAGIC {
        Err(XivError::DatBlockHeader)
    } else {
        let sc = le_u32(s, pos + 8);
        let su = le_u32(s, pos + 12);
        let n = payload_len(sc, su);
        let start = pos + BLOCK_HEADER_LEN;
        let next = pos + padded_len(n);
        if !fits(s, start, n) {
            Err(XivError::DatBlockDecoding)
        } else if next > u64::MAX {
            Err(XivError::DatSeek)
        } else if is_compressed(sc) {
            match inflated(s.subrange(start, start + n)) {
                None => Err(XivError::DatBlockDecoding),
                Some(out) => Ok((out, next)),
            }
        } else {
            Ok((s.subrange(start, start + n), next))
        }
    }
}

/// Decodes `count` consecutive blocks from `pos`: their bytes, and the position after them.
pub open spec fn decode_blocks(s: Seq<u8>, pos: int, count: nat) -> Result<(Seq<u8>, int), XivError>
    decreases count,
{
    if count == 0 {
        Ok((Seq::empty(), pos))
    } else {
        match decode_blocks(s, pos, (count - 1) as nat) {
            Err(e) => Err(e),
            Ok((prev, p)) => match decode_block(s, p) {
                Err(e) => Err(e),
                Ok((out, next)) => Ok((prev + out, next)),
            },
        }
    }
}

proof fn lemma_decode_blocks_err(s: Seq<u8>, pos: int, i: nat, n: nat)
    requires
        i <= n,
        decode_blocks(s, pos, i) is Err,
    ensures
        decode_blocks(s, pos, n) == decode_blocks(s, pos, i),
    decreases n - i,
{
    if i < n {
        lemma_decode_blocks_err(s, pos, i, (n - 1) as nat);
    }
}

/// Does the block at `p` hold its stated uncompressed size: a stored block always, a
/// deflate block when its stream inflates to that many bytes?
pub open spec fn block_size_holds(s: Seq<u8>, p: int) -> bool {
    let sc = le_u32(s, p + 8);
    is_compressed(sc) ==> (inflated(
        s.subrange(p + BLOCK_HEADER_LEN, p + BLOCK_HEADER_LEN + sc),
    ) matches Some(out) && out.len() == le_u32(s, p + 12))
}

/// A block decodes to exactly its stated uncompressed size: a stored block always, a deflate
/// block whenever its stream inflates to that size.
pub proof fn lemma_block_len(s: Seq<u8>, pos: int)
    requires
        decode_block(s, pos) is Ok,
        block_size_holds(s, pos),
    ensures
        decode_block(s, pos)->Ok_0.0.len() == le_u32(s, pos + 12),
{
    reveal(decode_block);
}

/// The sum of the stated uncompressed sizes of `count` consecutive blocks from `pos`.
pub open spec fn blocks_uncompressed(s: Seq<u8>, pos: int, count: nat) -> int
    decreases count,
{
    if count == 0 {
        0
    } else {
        let p = decode_blocks(s, pos, (count - 1) as nat)->Ok_0.1;
        blocks_uncompressed(s, pos, (count - 1) as nat) + le_u32(s, p + 12)
    }
}

/// Does every block of the run of `count` blocks from `pos` hold its stated size?
pub open spec fn blocks_sizes_hold(s: Seq<u8>, pos: int, count: nat) -> bool
    decreases count,
{
    count == 0 || (blocks_sizes_hold(s, pos, (count - 1) as nat) && block_size_holds(
        s,
        decode_blocks(s, pos, (count - 1) as nat)->Ok_0.1,
    ))
}

/// A run of blocks decodes to the sum of its blocks' uncompressed sizes.
pub proof fn lemma_blocks_len(s: Seq<u8>, pos: int, count: nat)
    requires
        decode_blocks(s, pos, count) is Ok,
        blocks_sizes_hold(s, pos, count),
    ensures
        decode_blocks(s, pos, count)->Ok_0.0.len() == blocks_uncompressed(s, pos, count),
    decreases count,
{
    if count > 0 {
        let prev = decode_blocks(s, pos, (count - 1) as nat);
        assert(prev is Ok);
        lemma_blocks_len(s, pos, (count - 1) as nat);
        lemma_block_len(s, prev->Ok_0.1);
    }
}

/// Appends `src` to `out`.
fn append_bytes(out: &mut Vec<u8>, src: &[u8])
    ensures
        final(out)@ == old(out)@ + src@,
{
    let mut i: usize = 0;
    while i < src.len()
        invariant
            i <= src@.len(),
            out@ == old(out)@ + src@.subrange(0, i as int),
        decreases src@.len() - i,
    {
        out.push(src[i]);
        i = i + 1;
        assert(out@ =~= old(out)@ + src@.subrange(0, i as int));
    }
    assert(src@.subrange(0, i as int) =~= src@);
}

/// Decodes the block at `pos` onto `out`; returns the position past its padding.
fn read_block(data: &[u8], pos: u64, out: &mut Vec<u8>) -> (r: Result<u64, XivError>)
    ensures
        match decode_block(data@, pos as int) {
            Ok((bytes, next)) => r matches Ok(p) && p as int == next && final(out)@ == old(out)@
                + bytes,
            Err(e) => r == Err::<u64, XivError>(e),
        },
{
    reveal(decode_block);
    let len = data.len() as u64;
    if !(pos <= len && len - pos >= BLOCK_HEADER_LEN) {
        return Err(XivError::DatBlockHeader);
    }
    let magic = read_u32_le(data, pos).unwrap();
    if magic != BLOCK_MAGIC {
        return Err(XivError::DatBlockHeader);
    }
    let sc = read_u32_le(data, pos + 8).unwrap();
    let su = read_u32_le(data, pos + 12).unwrap();
    let compressed = sc < COMPRESSION_THRESHOLD;
    let n: u64 = if compressed { sc as u64 } else { su as u64 };
    let start = pos + BLOCK_HEADER_LEN;
    if !(len - start >= n) {
        return Err(XivError::DatBlockDecoding);
    }
    let padded = ((BLOCK_HEADER_LEN + n + BLOCK_ALIGN - 1) / BLOCK_ALIGN) * BLOCK_ALIGN;
    if pos > u64::MAX - padded {
        return Err(XivError::DatSeek);
    }
    let next = pos + padded;
    let payload = vstd::slice::slice_subrange(data, start as usize, (start + n) as usize);
    if compressed {
        match inflate(payload) {
            None => Err(XivError::DatBlockDecoding),
            Some(bytes) => {
                append_bytes(out, bytes.as_slice());
                Ok(next)
            },
        }
    } else {
        append_bytes(out, payload);
        Ok(next)
    }
}

/// Decodes `count` consecutive blocks from `pos` onto `out`; returns the position after them.
fn read_blocks(data: &[u8], pos: u64, count: u32, out: &mut Vec<u8>) -> (r: Result<u64, XivError>)
    ensures
        match decode_blocks(data@, pos as int, count as nat) {
            Ok((bytes, end)) => r matches Ok(p) && p as int == end && final(out)@ == old(out)@
                + bytes,
            Err(e) => r == Err::<u64, XivError>(e),
        },
{
    let mut p = pos;
    let mut i: u32 = 0;
    while i < count
        invariant
            i <= count,
            decode_blocks(data@, pos as int, i as nat) is Ok,
            decode_blocks(data@, pos as int, i as nat)->Ok_0.1 == p,
            out@ == old(out)@ + decode_blocks(data@, pos as int, i as nat)->Ok_0.0,
        decreases count - i,
    {
        let ghost before = out@;
        match read_block(data, p, out) {
            Err(e) => {
                proof {
                    lemma_decode_blocks_err(data@, pos as int, (i + 1) as nat, count as nat);
                }
                return Err(e);
            },
            Ok(next) => {
                proof {
                    let prev = decode_blocks(data@, pos as int, i as nat)->Ok_0.0;
                    let blk = decode_block(data@, p as int)->Ok_0;
                    assert(decode_blocks(data@, pos as int, (i + 1) as nat) == Ok::<
                        (Seq<u8>, int),
                        XivError,
                    >((prev + blk.0, blk.1)));
                    assert(out@ =~= old(out)@ + (prev + blk.0));
                }
                p = next;
            },
        }
        i = i + 1;
    }
    Ok(p)
}

/// Is `t` the tag of a known inner file type (empty, plain, model, image)?
pub open spec fn is_file_type(t: u32) -> bool {
    1 <= t <= 4
}

/// The fixed prefix common to all inner files: header length, type, sizes, chunk count.
pub open spec fn has_common_header(s: Seq<u8>) -> bool {
    fits(s, 0, 24) && is_file_type(le_u32(s, 4))
}

/// The header length of an inner file.
pub open spec fn header_len(s: Seq<u8>) -> int {
    le_u32(s, 0) as int
}

/// The number of chunks that the header of an inner file announces.
pub open spec fn chunks_num(s: Seq<u8>) -> int {
    le_u32(s, 20) as int
}

/// Where chunk `i` of a plain file starts.
pub open spec fn plain_chunk_pos(s: Seq<u8>, i: int) -> int {
    header_len(s) + le_u32(s, 24 + 8 * i) as int
}

/// The bytes of the first `n` chunks of a plain file, one block each.
pub open spec fn plain_chunks(s: Seq<u8>, n: nat) -> Result<Seq<u8>, XivError>
    decreases n,
{
    if n == 0 {
        Ok(Seq::empty())
    } else {
        match plain_chunks(s, (n - 1) as nat) {
            Err(e) => Err(e),
            Ok(prev) => match decode_block(s, plain_chunk_pos(s, n - 1)) {
                Err(e) => Err(e),
                Ok((out, _)) => Ok(prev + out),
            },
        }
    }
}

/// The contents of a plain inner file whose bytes start at `s[0]`.
pub open spec fn plain_file(s: Seq<u8>) -> Result<Seq<u8>, XivError> {
    if !has_common_header(s) || !fits(s, 24, 8 * chunks_num(s)) {
        Err(XivError::DatFileHeader)
    } else {
        plain_chunks(s, chunks_num(s) as nat)
    }
}

/// The sum of the stated uncompressed sizes of the first `n` chunks of a plain file.
pub open spec fn plain_sizes(s: Seq<u8>, n: nat) -> int
    decreases n,
{
    if n == 0 {
        0
    } else {
        plain_sizes(s, (n - 1) as nat) + le_u32(s, plain_chunk_pos(s, n - 1) + 12)
    }
}

proof fn lemma_plain_chunks_len(s: Seq<u8>, n: nat)
    requires
        plain_chunks(s, n) is Ok,
        forall|i: int| 0 <= i < n ==> block_size_holds(s, #[trigger] plain_chunk_pos(s, i)),
    ensures
        plain_chunks(s, n)->Ok_0.len() == plain_sizes(s, n),
    decreases n,
{
    if n > 0 {
        assert(plain_chunks(s, (n - 1) as nat) is Ok);
        lemma_plain_chunks_len(s, (n - 1) as nat);
        assert(block_size_holds(s, plain_chunk_pos(s, n - 1)));
        lemma_block_len(s, plain_chunk_pos(s, n - 1));
    }
}

/// A plain file whose blocks hold their stated sizes, and whose header's uncompressed size is
/// their sum, decodes to exactly that many bytes.
pub proof fn lemma_plain_file_len(s: Seq<u8>)
    requires
        plain_file(s) is Ok,
        forall|i: int| 0 <= i < chunks_num(s) ==> block_size_holds(s, #[trigger] plain_chunk_pos(s, i)),
        plain_sizes(s, chunks_num(s) as nat) == le_u32(s, 8),
    ensures
        plain_file(s)->Ok_0.len() == le_u32(s, 8),
{
    lemma_plain_chunks_len(s, chunks_num(s) as nat);
}

proof fn lemma_plain_chunks_err(s: Seq<u8>, i: nat, n: nat)
    requires
        i <= n,
        plain_chunks(s, i) is Err,
    ensures
        plain_chunks(s, n) == plain_chunks(s, i),
    decreases n - i,
{
    if i < n {
        lemma_plain_chunks_err(s, i, (n - 1) as nat);
    }
}

/// Checks the common header and returns `(header length, chunk count)`.
fn read_common_header(data: &[u8]) -> (r: Result<(u32, u32), XivError>)
    ensures
        r is Ok <==> has_common_header(data@),
        r is Ok ==> r->Ok_0.0 as int == header_len(data@) && r->Ok_0.1 as int == chunks_num(
            data@,
        ),
        r is Err ==> r == Err::<(u32, u32), XivError>(XivError::DatFileHeader),
{
    match (read_u32_le(data, 0), read_u32_le(data, 4), read_u32_le(data, 20)) {
        (Some(len), Some(file_type), Some(n)) => {
            if 1 <= file_type && file_type <= 4 {
                Ok((len, n))
            } else {
                Err(XivError::DatFileHeader)
            }
        },
        _ => Err(XivError::DatFileHeader),
    }
}

/// Reads a plain inner file whose bytes start at `data[0]`: each chunk is one block.
pub fn read_plain_file(data: &[u8]) -> (r: Result<Vec<u8>, XivError>)
    ensures
        match plain_file(data@) {
            Ok(bytes) => r matches Ok(v) && v@ == bytes,
            Err(e) => r == Err::<Vec<u8>, XivError>(e),
        },
{
    let (len, n) = read_common_header(data)?;
    let table_len = 8 * (n as u64);
    if !(data.len() as u64 >= 24 && data.len() as u64 - 24 >= table_len) {
        return Err(XivError::DatFileHeader);
    }
    let mut out: Vec<u8> = Vec::new();
    let mut i: u32 = 0;
    while i < n
        invariant
            i <= n,
            n as int == chunks_num(data@),
            len as int == header_len(data@),
            has_common_header(data@),
            fits(data@, 24, 8 * chunks_num(data@)),
            plain_chunks(data@, i as nat) is Ok,
            out@ == plain_chunks(data@, i as nat)->Ok_0,
        decreases n - i,
    {
        let chunk_offset = read_u32_le(data, 24 + 8 * (i as u64)).unwrap();
        let pos = len as u64 + chunk_offset as u64;
        assert(pos as int == plain_chunk_pos(data@, i as int));
        match read_block(data, pos, &mut out) {
            Err(e) => {
                proof {
                    assert(plain_chunks(data@, (i + 1) as nat) == Err::<Seq<u8>, XivError>(e));
                    lemma_plain_chunks_err(data@, (i + 1) as nat, n as nat);
                }
                return Err(e);
            },
            Ok(_) => {
                proof {
                    let prev = plain_chunks(data@, i as nat)->Ok_0;
                    let blk = decode_block(data@, pos as int)->Ok_0;
                    assert(plain_chunks(data@, (i + 1) as nat) == Ok::<Seq<u8>, XivError>(
                        prev + blk.0,
                    ));
                }
            },
        }
        i = i + 1;
    }
    Ok(out)
}

/// Where mipmap `i` of an image file starts.
pub open spec fn mipmap_pos(s: Seq<u8>, i: int) -> int {
    header_len(s) + le_u32(s, 24 + 20 * i) as int
}

/// How many blocks mipmap `i` of an image file spans.
pub open spec fn mipmap_blocks(s: Seq<u8>, i: int) -> nat {
    le_u32(s, 24 + 20 * i + 16) as nat
}

/// The bytes of the first `n` mipmaps of an image file.
pub open spec fn image_mipmaps(s: Seq<u8>, n: nat) -> Result<Seq<Seq<u8>>, XivError>
    decreases n,
{
    if n == 0 {
        Ok(Seq::empty())
    } else {
        match image_mipmaps(s, (n - 1) as nat) {
            Err(e) => Err(e),
            Ok(prev) => match decode_blocks(s, mipmap_pos(s, n - 1), mipmap_blocks(s, n - 1)) {
                Err(e) => Err(e),
                Ok((out, _)) => Ok(prev.push(out)),
            },
        }
    }
}

proof fn lemma_image_mipmaps_err(s: Seq<u8>, i: nat, n: nat)
    requires
        i <= n,
        image_mipmaps(s, i) is Err,
    ensures
        image_mipmaps(s, n) == image_mipmaps(s, i),
    decreases n - i,
{
    if i < n {
        lemma_image_mipmaps_err(s, i, (n - 1) as nat);
    }
}

/// Does an image file hold its mipmap table and, at the header's end, the image header?
pub open spec fn image_header_ok(s: Seq<u8>) -> bool {
    has_common_header(s) && fits(s, 24, 20 * chunks_num(s)) && fits(s, header_len(s), 16)
}

/// The mipmaps of an image inner file whose bytes start at `s[0]`.
pub open spec fn image_file(s: Seq<u8>) -> Result<Seq<Seq<u8>>, XivError> {
    if !image_header_ok(s) {
        Err(XivError::DatFileHeader)
    } else {
        image_mipmaps(s, chunks_num(s) as nat)
    }
}

/// A decoded texture: the image header's fields and one byte buffer per mipmap.
#[derive(Debug)]
pub struct Image {
    pub format: u32,
    pub width: u16,
    pub height: u16,
    pub layers: u16,
    pub count: u16,
    pub mipmaps: Vec<Vec<u8>>,
}

impl Image {
    /// The bytes of each mipmap.
    pub open spec fn mipmaps_view(&self) -> Seq<Seq<u8>> {
        self.mipmaps@.map_values(|m: Vec<u8>| m@)
    }

    /// Do the header fields equal those stored at the end of the file header in `s`?
    pub open spec fn header_from(&self, s: Seq<u8>) -> bool {
        let h = header_len(s);
        &&& self.format == le_u32(s, h + 4)
        &&& self.width == le_u16(s, h + 8)
        &&& self.height == le_u16(s, h + 10)
        &&& self.layers == le_u16(s, h + 12)
        &&& self.count == le_u16(s, h + 14)
    }
}

/// Reads an image inner file whose bytes start at `data[0]`: the image header, then each
/// mipmap as a run of consecutive blocks.
pub fn read_image_file(data: &[u8]) -> (r: Result<Image, XivError>)
    ensures
        match image_file(data@) {
            Ok(mips) => r matches Ok(img) && img.mipmaps_view() == mips && img.header_from(data@),
            Err(e) => r == Err::<Image, XivError>(e),
        },
{
    let (len, n) = read_common_header(data)?;
    let dlen = data.len() as u64;
    let table_len = 20 * (n as u64);
    if !(dlen >= 24 && dlen - 24 >= table_len) {
        return Err(XivError::DatFileHeader);
    }
    let h = len as u64;
    if !(h <= dlen && dlen - h >= 16) {
        return Err(XivError::DatFileHeader);
    }
    let format = read_u32_le(data, h + 4).unwrap();
    let width = read_u16_le(data, h + 8).unwrap();
    let height = read_u16_le(data, h + 10).unwrap();
    let layers = read_u16_le(data, h + 12).unwrap();
    let count = read_u16_le(data, h + 14).unwrap();
    let mut mipmaps: Vec<Vec<u8>> = Vec::new();
    let mut i: u32 = 0;
    while i < n
        invariant
            i <= n,
            n as int == chunks_num(data@),
            len as int == header_len(data@),
            image_header_ok(data@),
            h == len as u64,
            image_mipmaps(data@, i as nat) is Ok,
            mipmaps@.map_values(|m: Vec<u8>| m@) == image_mipmaps(data@, i as nat)->Ok_0,
        decreases n - i,
    {
        let entry = 24 + 20 * (i as u64);
        let offset = read_u32_le(data, entry).unwrap();
        let blocks = read_u32_le(data, entry + 16).unwrap();
        let pos = h + offset as u64;
        assert(pos as int == mipmap_pos(data@, i as int));
        let mut mip: Vec<u8> = Vec::new();
        match read_blocks(data, pos, blocks, &mut mip) {
            Err(e) => {
                proof {
                    assert(image_mipmaps(data@, (i + 1) as nat) == Err::<Seq<Seq<u8>>, XivError>(e));
                    lemma_image_mipmaps_err(data@, (i + 1) as nat, n as nat);
                }
                return Err(e);
            },
            Ok(_) => {},
        }
        let ghost prev = mipmaps@;
        mipmaps.push(mip);
        proof {
            let before = image_mipmaps(data@, i as nat)->Ok_0;
            assert(image_mipmaps(data@, (i + 1) as nat) == Ok::<Seq<Seq<u8>>, XivError>(
                before.push(mip@),
            ));
            assert(mipmaps@.map_values(|m: Vec<u8>| m@) =~= prev.map_values(|m: Vec<u8>| m@).push(
                mip@,
            ));
        }
        i = i + 1;
    }
    Ok(Image { format, width, height, layers, count, mipmaps })
}

/// Where chunk `i` of a model file starts.
pub open spec fn model_chunk_pos(s: Seq<u8>, i: int) -> int {
    header_len(s) + le_u32(s, 112 + 4 * i) as int
}

/// How many blocks chunk `i` of a model file spans.
pub open spec fn model_chunk_blocks(s: Seq<u8>, i: int) -> nat {
    le_u16(s, 178 + 2 * i) as nat
}

/// The number of blocks in the first `n` chunks of a model file.
pub open spec fn model_block_total(s: Seq<u8>, n: nat) -> nat
    decreases n,
{
    if n == 0 {
        0
    } else {
        model_block_total(s, (n - 1) as nat) + model_chunk_blocks(s, n - 1)
    }
}

/// The bytes of the first `n` chunks of a model file, in chunk order.
pub open spec fn model_chunks(s: Seq<u8>, n: nat) -> Result<Seq<u8>, XivError>
    decreases n,
{
    if n == 0 {
        Ok(Seq::empty())
    } else {
        match model_chunks(s, (n - 1) as nat) {
            Err(e) => Err(e),
            Ok(prev) => match decode_blocks(s, model_chunk_pos(s, n - 1), model_chunk_blocks(s, n - 1)) {
                Err(e) => Err(e),
                Ok((out, _)) => Ok(prev + out),
            },
        }
    }
}

proof fn lemma_model_chunks_err(s: Seq<u8>, i: nat, n: nat)
    requires
        i <= n,
        model_chunks(s, i) is Err,
    ensures
        model_chunks(s, n) == model_chunks(s, i),
    decreases n - i,
{
    if i < n {
        lemma_model_chunks_err(s, i, (n - 1) as nat);
    }
}

/// Does a model file hold its fixed header and its table of block lengths?
pub open spec fn model_header_ok(s: Seq<u8>) -> bool {
    has_common_header(s) && fits(s, 0, 208) && fits(
        s,
        208,
        2 * model_block_total(s, MODEL_CHUNKS_NUM as nat) as int,
    )
}

/// The contents of a model inner file whose bytes start at `s[0]`: its chunks in order.
pub open spec fn model_file(s: Seq<u8>) -> Result<Seq<u8>, XivError> {
    if !model_header_ok(s) {
        Err(XivError::DatFileHeader)
    } else {
        model_chunks(s, MODEL_CHUNKS_NUM as nat)
    }
}

/// Reads a model inner file whose bytes start at `data[0]`: the eleven chunks, each a run of
/// consecutive blocks, concatenated in chunk order.
pub fn read_model_file(data: &[u8]) -> (r: Result<Vec<u8>, XivError>)
    ensures
        match model_file(data@) {
            Ok(bytes) => r matches Ok(v) && v@ == bytes,
            Err(e) => r == Err::<Vec<u8>, XivError>(e),
        },
{
    let (len, _) = read_common_header(data)?;
    let dlen = data.len() as u64;
    if dlen < 208 {
        return Err(XivError::DatFileHeader);
    }
    let mut total: u64 = 0;
    let mut k: u64 = 0;
    while k < MODEL_CHUNKS_NUM
        invariant
            k <= MODEL_CHUNKS_NUM,
            dlen == data@.len(),
            dlen >= 208,
            total == model_block_total(data@, k as nat),
            total <= k * 0xffff,
        decreases MODEL_CHUNKS_NUM - k,
    {
        total = total + read_u16_le(data, 178 + 2 * k).unwrap() as u64;
        k = k + 1;
    }
    if dlen - 208 < 2 * total {
        return Err(XivError::DatFileHeader);
    }
    let h = len as u64;
    let mut out: Vec<u8> = Vec::new();
    let mut i: u64 = 0;
    while i < MODEL_CHUNKS_NUM
        invariant
            i <= MODEL_CHUNKS_NUM,
            len as int == header_len(data@),
            h == len,
            dlen == data@.len(),
            model_header_ok(data@),
            model_chunks(data@, i as nat) is Ok,
            out@ == model_chunks(data@, i as nat)->Ok_0,
        decreases MODEL_CHUNKS_NUM - i,
    {
        let offset = read_u32_le(data, 112 + 4 * i).unwrap();
        let blocks = read_u16_le(data, 178 + 2 * i).unwrap();
        let pos = h + offset as u64;
        assert(pos as int == model_chunk_pos(data@, i as int));
        match read_blocks(data, pos, blocks as u32, &mut out) {
            Err(e) => {
                proof {
                    assert(model_chunks(data@, (i + 1) as nat) == Err::<Seq<u8>, XivError>(e));
                    lemma_model_chunks_err(data@, (i + 1) as nat, MODEL_CHUNKS_NUM as nat);
                }
                return Err(e);
            },
            Ok(_) => {
                proof {
                    let prev = model_chunks(data@, i as nat)->Ok_0;
                    let blk = decode_blocks(data@, pos as int, blocks as nat)->Ok_0;
                    assert(model_chunks(data@, (i + 1) as nat) == Ok::<Seq<u8>, XivError>(
                        prev + blk.0,
                    ));
                }
            },
        }
        i = i + 1;
    }
    Ok(out)
}

/// Tag of an empty inner file.
pub const FILE_TYPE_EMPTY: u32 = 1;
/// Tag of a plain inner file.
pub const FILE_TYPE_PLAIN: u32 = 2;
/// Tag of a model inner file.
pub const FILE_TYPE_MODEL: u32 = 3;
/// Tag of an image inner file.
pub const FILE_TYPE_IMAGE: u32 = 4;

/// A decoded inner file, by the shape its header announces.
#[derive(Debug)]
pub enum InnerFile {
    Empty,
    Plain(Vec<u8>),
    Model(Vec<u8>),
    Image(Image),
}

/// Is `r` what reading the inner file whose bytes are `s` gives, by its header's type tag?
pub open spec fn is_inner_file_read(s: Seq<u8>, r: Result<InnerFile, XivError>) -> bool {
    if !has_common_header(s) {
        r == Err::<InnerFile, XivError>(XivError::DatFileHeader)
    } else if le_u32(s, 4) == FILE_TYPE_EMPTY {
        r matches Ok(InnerFile::Empty)
    } else if le_u32(s, 4) == FILE_TYPE_PLAIN {
        match plain_file(s) {
            Ok(bytes) => r matches Ok(InnerFile::Plain(v)) && v@ == bytes,
            Err(e) => r == Err::<InnerFile, XivError>(e),
        }
    } else if le_u32(s, 4) == FILE_TYPE_MODEL {
        match model_file(s) {
            Ok(bytes) => r matches Ok(InnerFile::Model(v)) && v@ == bytes,
            Err(e) => r == Err::<InnerFile, XivError>(e),
        }
    } else {
        match image_file(s) {
            Ok(mips) => r matches Ok(InnerFile::Image(img)) && img.mipmaps_view() == mips
                && img.header_from(s),
            Err(e) => r == Err::<InnerFile, XivError>(e),
        }
    }
}

/// Reads an inner file whose bytes start at `data[0]`, by the type tag of its header.
pub fn read_inner_file(data: &[u8]) -> (r: Result<InnerFile, XivError>)
    ensures
        is_inner_file_read(data@, r),
{
    read_common_header(data)?;
    let file_type = read_u32_le(data, 4).unwrap();
    if file_type == FILE_TYPE_EMPTY {
        Ok(InnerFile::Empty)
    } else if file_type == FILE_TYPE_PLAIN {
        Ok(InnerFile::Plain(read_plain_file(data)?))
    } else if file_type == FILE_TYPE_MODEL {
        Ok(InnerFile::Model(read_model_file(data)?))
    } else {
        Ok(InnerFile::Image(read_image_file(data)?))
    }
}

/// Where an inner file lives: a data file of the repository and the offset of its first byte.
#[derive(Debug, Clone)]
pub struct InnerFilePtr {
    /// Path of the `.dat` file.
    pub path: String,
    /// Offset of the inner file within it.
    pub offset: u64,
}

impl InnerFilePtr {
    /// Reads the inner file by the shape its header announces; `data` holds the bytes of the
    /// `.dat` file from `self.offset` on.
    pub fn read(&self, data: &[u8]) -> (r: Result<InnerFile, XivError>)
        ensures
            is_inner_file_read(data@, r),
    {
        read_inner_file(data)
    }

    /// Reads the inner file as plain data; `data` holds the bytes of the `.dat` file from
    /// `self.offset` on (enough of them to cover the inner file).
    pub fn read_plain(&self, data: &[u8]) -> (r: Result<Vec<u8>, XivError>)
        ensures
            match plain_file(data@) {
                Ok(bytes) => r matches Ok(v) && v@ == bytes,
                Err(e) => r == Err::<Vec<u8>, XivError>(e),
            },
    {
        read_plain_file(data)
    }

    /// Reads the inner file as a model; `data` holds the bytes of the `.dat` file from
    /// `self.offset` on.
    pub fn read_model(&self, data: &[u8]) -> (r: Result<Vec<u8>, XivError>)
        ensures
            match model_file(data@) {
                Ok(bytes) => r matches Ok(v) && v@ == bytes,
                Err(e) => r == Err::<Vec<u8>, XivError>(e),
            },
    {
        read_model_file(data)
    }

    /// Reads the inner file as an image; `data` holds the bytes of the `.dat` file from
    /// `self.offset` on.
    pub fn read_image(&self, data: &[u8]) -> (r: Result<Image, XivError>)
        ensures
            match image_file(data@) {
                Ok(mips) => r matches Ok(img) && img.mipmaps_view() == mips && img.header_from(
                    data@,
                ),
                Err(e) => r == Err::<Image, XivError>(e),
            },
    {
        read_image_file(data)
    }
}

} // verus!
