//! Fixed-width integers read from byte buffers, in either byte order.
use vstd::prelude::*;

verus! {

/// Little-endian `u16` at `s[i..i + 2]`.
pub open spec fn le_u16(s: Seq<u8>, i: int) -> u16 {
    (s[i] as int + s[i + 1] as int * 0x100) as u16
}

/// Little-endian `u32` at `s[i..i + 4]`.
pub open spec fn le_u32(s: Seq<u8>, i: int) -> u32 {
    (s[i] as int + s[i + 1] as int * 0x100 + s[i + 2] as int * 0x10000 + s[i + 3] as int
        * 0x1000000) as u32
}

/// Big-endian `u16` at `s[i..i + 2]`.
pub open spec fn be_u16(s: Seq<u8>, i: int) -> u16 {
    (s[i] as int * 0x100 + s[i + 1] as int) as u16
}

/// Big-endian `u32` at `s[i..i + 4]`.
pub open spec fn be_u32(s: Seq<u8>, i: int) -> u32 {
    (s[i] as int * 0x1000000 + s[i + 1] as int * 0x10000 + s[i + 2] as int * 0x100 + s[i
        + 3] as int) as u32
}

/// Big-endian `u64` at `s[i..i + 8]`.
pub open spec fn be_u64(s: Seq<u8>, i: int) -> u64 {
    (be_u32(s, i) as int * 0x1_0000_0000 + be_u32(s, i + 4) as int) as u64
}

/// Do `n` bytes starting at `pos` lie inside `s`?
pub open spec fn fits(s: Seq<u8>, pos: int, n: int) -> bool {
    0 <= pos && pos + n <= s.len()
}

/// Do `n` bytes starting at `pos` lie inside `data`?
pub fn fits_in(data: &[u8], pos: u64, n: u64) -> (r: bool)
    requires
        n <= 16,
    ensures
        r == fits(data@, pos as int, n as int),
{
    let len = data.len() as u64;
    pos <= len && len - pos >= n
}

/// The little-endian `u16` at `pos`, if two bytes are there.
pub fn read_u16_le(data: &[u8], pos: u64) -> (r: Option<u16>)
    ensures
        r is Some <==> fits(data@, pos as int, 2),
        r is Some ==> r->Some_0 == le_u16(data@, pos as int),
{
    if !fits_in(data, pos, 2) {
        return None;
    }
    let p = pos as usize;
    Some(data[p] as u16 + (data[p + 1] as u16) * 0x100)
}

/// The little-endian `u32` at `pos`, if four bytes are there.
pub fn read_u32_le(data: &[u8], pos: u64) -> (r: Option<u32>)
    ensures
        r is Some <==> fits(data@, pos as int, 4),
        r is Some ==> r->Some_0 == le_u32(data@, pos as int),
{
    if !fits_in(data, pos, 4) {
        return None;
    }
    let p = pos as usize;
    Some(
        data[p] as u32 + (data[p + 1] as u32) * 0x100 + (data[p + 2] as u32) * 0x10000 + (data[p
            + 3] as u32) * 0x1000000,
    )
}

/// The big-endian `u16` at `pos`, if two bytes are there.
pub fn read_u16_be(data: &[u8], pos: u64) -> (r: Option<u16>)
    ensures
        r is Some <==> fits(data@, pos as int, 2),
        r is Some ==> r->Some_0 == be_u16(data@, pos as int),
{
    if !fits_in(data, pos, 2) {
        return None;
    }
    let p = pos as usize;
    Some((data[p] as u16) * 0x100 + data[p + 1] as u16)
}

/// The big-endian `u32` at `pos`, if four bytes are there.
pub fn read_u32_be(data: &[u8], pos: u64) -> (r: Option<u32>)
    ensures
        r is Some <==> fits(data@, pos as int, 4),
        r is Some ==> r->Some_0 == be_u32(data@, pos as int),
{
    if !fits_in(data, pos, 4) {
        return None;
    }
    let p = pos as usize;
    Some(
        (data[p] as u32) * 0x1000000 + (data[p + 1] as u32) * 0x10000 + (data[p + 2] as u32)
            * 0x100 + data[p + 3] as u32,
    )
}

/// The big-endian `u64` at `pos`, if eight bytes are there.
pub fn read_u64_be(data: &[u8], pos: u64) -> (r: Option<u64>)
    ensures
        r is Some <==> fits(data@, pos as int, 8),
        r is Some ==> r->Some_0 == be_u64(data@, pos as int),
{
    if !fits_in(data, pos, 8) {
        return None;
    }
    let len = data.len();
    assert(pos + 8 <= len);
    let hi = read_u32_be(data, pos).unwrap();
    let lo = read_u32_be(data, pos + 4).unwrap();
    Some((hi as u64) * 0x1_0000_0000 + lo as u64)
}

} // verus!
