//! Conversion of decoded textures to 8-bit pixel buffers.
use vstd::prelude::*;
use crate::bytes::{le_u16, read_u16_le};
use crate::dat::Image;
use crate::error::XivError;

verus! {

/// 8-bit luminance.
pub const L8: u32 = 4400;
/// 8-bit alpha.
pub const A8: u32 = 4401;
/// 16-bit pixels: 5 bits each of blue, green and red, then 1 bit of alpha.
pub const B5G5R5A1: u32 = 5185;
/// 32-bit pixels: one byte each of red, green, blue and alpha.
pub const R8G8B8A8: u32 = 5200;
/// BC1 block compression.
pub const DXT1: u32 = 13344;
/// BC2 block compression.
pub const DXT3: u32 = 13360;
/// BC3 block compression.
pub const DXT5: u32 = 13361;

/// The channel layout of a pixel buffer.
#[derive(Debug, Clone, Copy, PartialEq, Eq, Structural)]
pub enum PixelKind {
    /// One byte per pixel.
    Luma8,
    /// Four bytes per pixel: red, green, blue, alpha.
    Rgba8,
}

/// An image as rows of 8-bit pixels, top row first.
pub struct Pixels {
    pub kind: PixelKind,
    pub width: u16,
    pub height: u16,
    pub data: Vec<u8>,
}

/// Byte `j` of the RGBA expansion of 16-bit `B5G5R5A1` pixels stored in `s`.
pub open spec fn b5g5r5a1_byte(s: Seq<u8>, j: int) -> u8 {
    let p = le_u16(s, 2 * (j / 4)) as int;
    let c = j % 4;
    (if c == 0 {
        (p / 1024) % 32 * 8
    } else if c == 1 {
        (p / 32) % 32 * 8
    } else if c == 2 {
        p % 32 * 8
    } else {
        (p / 32768) * 255
    }) as u8
}

/// The BCn code of a block-compressed format: 1, 2 or 3.
pub open spec fn bc_code(format: u32) -> u8 {
    if format == DXT1 {
        1
    } else if format == DXT3 {
        2
    } else {
        3
    }
}

/// How many bytes a BCn image of the given size takes: one block per 4x4 pixels.
pub open spec fn bc_size(code: u8, width: u16, height: u16) -> int {
    ((width as int + 3) / 4) * ((height as int + 3) / 4) * (if code == 1 { 8int } else { 16 })
}

/// The RGBA pixels that BCn decoding makes of `data`.
pub uninterp spec fn bc_decompressed(code: u8, data: Seq<u8>, width: u16, height: u16) -> Seq<u8>;

/// Relies on `texpresso::Format::decompress`: decodes BC1 (code 1), BC2 (2) or BC3 (3)
/// blocks into a buffer of four bytes per pixel.
#[verifier::external_body]
fn bc_decompress(code: u8, data: &[u8], width: u16, height: u16) -> (r: Vec<u8>)
    requires
        1 <= code <= 3,
        width > 0,
        data@.len() >= bc_size(code, width, height),
    ensures
        r@ == bc_decompressed(code, data@, width, height),
        r@.len() == width * height * 4,
{
    let format = match code {
        1 => texpresso::Format::Bc1,
        2 => texpresso::Format::Bc2,
        _ => texpresso::Format::Bc3,
    };
    let mut out = vec![0u8; width as usize * height as usize * 4];
    format.decompress(data, width as usize, height as usize, &mut out);
    out
}

/// The pixels of the first mipmap `mip` of an image with the given format and size.
pub open spec fn exported(format: u32, width: u16, height: u16, mip: Seq<u8>) -> Result<
    (PixelKind, Seq<u8>),
    XivError,
> {
    let n = width * height;
    if format == L8 || format == A8 {
        if mip.len() >= n {
            Ok((PixelKind::Luma8, mip.subrange(0, n)))
        } else {
            Err(XivError::TexData)
        }
    } else if format == B5G5R5A1 {
        if mip.len() >= 2 * n {
            Ok((PixelKind::Rgba8, Seq::new((4 * n) as nat, |j: int| b5g5r5a1_byte(mip, j))))
        } else {
            Err(XivError::TexData)
        }
    } else if format == R8G8B8A8 {
        if mip.len() >= 4 * n {
            Ok((PixelKind::Rgba8, mip.subrange(0, 4 * n)))
        } else {
            Err(XivError::TexData)
        }
    } else if format == DXT1 || format == DXT3 || format == DXT5 {
        if n == 0 {
            Ok((PixelKind::Rgba8, Seq::empty()))
        } else if mip.len() >= bc_size(bc_code(format), width, height) {
            Ok((PixelKind::Rgba8, bc_decompressed(bc_code(format), mip, width, height)))
        } else {
            Err(XivError::TexData)
        }
    } else {
        Err(XivError::TexFormat(format))
    }
}

/// The first `n` bytes of `data`, if it has that many.
fn prefix(data: &[u8], n: u64) -> (r: Result<Vec<u8>, XivError>)
    ensures
        n <= data@.len() ==> (r matches Ok(v) && v@ == data@.subrange(0, n as int)),
        n > data@.len() ==> r == Err::<Vec<u8>, XivError>(XivError::TexData),
{
    if n > data.len() as u64 {
        return Err(XivError::TexData);
    }
    Ok(vstd::slice::slice_to_vec(vstd::slice::slice_subrange(data, 0, n as usize)))
}

/// Expands `n` 16-bit `B5G5R5A1` pixels to RGBA.
fn expand_b5g5r5a1(data: &[u8], n: u64) -> (r: Result<Vec<u8>, XivError>)
    requires
        n <= 0xffff * 0xffff,
    ensures
        2 * n <= data@.len() ==> (r matches Ok(v) && v@ == Seq::new(
            (4 * n) as nat,
            |j: int| b5g5r5a1_byte(data@, j),
        )),
        2 * n > data@.len() ==> r == Err::<Vec<u8>, XivError>(XivError::TexData),
{
    if 2 * n > data.len() as u64 {
        return Err(XivError::TexData);
    }
    let mut out: Vec<u8> = Vec::new();
    let mut i: u64 = 0;
    while i < n
        invariant
            i <= n,
            n <= 0xffff * 0xffff,
            2 * n <= data@.len(),
            out@ == Seq::new((4 * i) as nat, |j: int| b5g5r5a1_byte(data@, j)),
        decreases n - i,
    {
        let p = read_u16_le(data, 2 * i).unwrap();
        out.push((((p / 1024) % 32) * 8) as u8);
        out.push((((p / 32) % 32) * 8) as u8);
        out.push(((p % 32) * 8) as u8);
        out.push(((p / 32768) * 255) as u8);
        proof {
            assert forall|j: int| 4 * i <= j < 4 * i + 4 implies (j / 4 == i && #[trigger] (j % 4)
                == j - 4 * i) by {}
        }
        i = i + 1;
        assert(out@ =~= Seq::new((4 * i) as nat, |j: int| b5g5r5a1_byte(data@, j)));
    }
    Ok(out)
}

impl Image {
    /// Converts the first mipmap to 8-bit pixels, by the image's format.
    pub fn export(&self) -> (r: Result<Pixels, XivError>)
        ensures
            self.mipmaps@.len() == 0 ==> r == Err::<Pixels, XivError>(XivError::TexData),
            self.mipmaps@.len() > 0 ==> match exported(
                self.format,
                self.width,
                self.height,
                self.mipmaps@[0]@,
            ) {
                Ok((kind, px)) => r matches Ok(p) && p.kind == kind && p.width == self.width
                    && p.height == self.height && p.data@ == px,
                Err(e) => r == Err::<Pixels, XivError>(e),
            },
    {
        if self.mipmaps.len() == 0 {
            return Err(XivError::TexData);
        }
        let mip = self.mipmaps[0].as_slice();
        let w = self.width;
        let h = self.height;
        let wu = w as u64;
        let hu = h as u64;
        assert(wu * hu <= 0xffff * 0xffff) by (nonlinear_arith)
            requires
                wu <= 0xffff,
                hu <= 0xffff,
        ;
        let n = wu * hu;
        let format = self.format;
        let (kind, data) = if format == L8 || format == A8 {
            (PixelKind::Luma8, prefix(mip, n)?)
        } else if format == B5G5R5A1 {
            (PixelKind::Rgba8, expand_b5g5r5a1(mip, n)?)
        } else if format == R8G8B8A8 {
            (PixelKind::Rgba8, prefix(mip, 4 * n)?)
        } else if format == DXT1 || format == DXT3 || format == DXT5 {
            let code: u8 = if format == DXT1 {
                1
            } else if format == DXT3 {
                2
            } else {
                3
            };
            if n == 0 {
                (PixelKind::Rgba8, Vec::new())
            } else {
                let bw = (w as u64 + 3) / 4;
                let bh = (h as u64 + 3) / 4;
                let block: u64 = if code == 1 { 8 } else { 16 };
                assert(bw * bh <= 0x4000 * 0x4000) by (nonlinear_arith)
                    requires
                        bw <= 0x4000,
                        bh <= 0x4000,
                ;
                let size = bw * bh * block;
                assert(size == bc_size(code, w, h));
                if size > mip.len() as u64 {
                    return Err(XivError::TexData);
                }
                (PixelKind::Rgba8, bc_decompress(code, mip, w, h))
            }
        } else {
            return Err(XivError::TexFormat(format));
        };
        Ok(Pixels { kind, width: w, height: h, data })
    }
}

} // verus!
