use xiv::dat::Image;
use xiv::error::XivError;
use xiv::tex::{PixelKind, B5G5R5A1, DXT1, DXT5, L8, R8G8B8A8};

fn image(format: u32, width: u16, height: u16, mip0: Vec<u8>) -> Image {
    Image { format, width, height, layers: 1, count: 1, mipmaps: vec![mip0] }
}

#[test]
fn white_rgba_texture_is_white() {
    let px = image(R8G8B8A8, 2, 2, vec![255; 16]).export().unwrap();
    assert_eq!(px.kind, PixelKind::Rgba8);
    assert!(px.data.chunks(4).all(|c| c == [255, 255, 255, 255]));
    assert_eq!(px.data.len(), 16);
}

#[test]
fn black_5551_texture_is_opaque_black() {
    let px = image(B5G5R5A1, 3, 1, [0x00u8, 0x80].repeat(3)).export().unwrap();
    assert_eq!(px.data, [0, 0, 0, 255].repeat(3));
}

#[test]
fn b5g5r5a1_channels_expand() {
    // red 31, green 1, blue 2, alpha 0
    let p: u16 = (31 << 10) | (1 << 5) | 2;
    let px = image(B5G5R5A1, 1, 1, p.to_le_bytes().to_vec()).export().unwrap();
    assert_eq!(px.data, vec![248, 8, 16, 0]);
}

#[test]
fn dxt1_white_block_decodes_to_white() {
    let block = [0xff, 0xff, 0xff, 0xff, 0, 0, 0, 0];
    let px = image(DXT1, 4, 4, block.to_vec()).export().unwrap();
    assert_eq!(px.data.len(), 64);
    assert!(px.data.chunks(4).all(|c| c == [255, 255, 255, 255]));
    let px = image(DXT1, 2, 3, block.to_vec()).export().unwrap();
    assert_eq!(px.data.len(), 24);
}

#[test]
fn dxt1_black_block_decodes_to_opaque_black() {
    let block = [0, 0, 0, 0, 0, 0, 0, 0];
    let px = image(DXT1, 4, 4, block.to_vec()).export().unwrap();
    assert!(px.data.chunks(4).all(|c| c == [0, 0, 0, 255]));
}

#[test]
fn luminance_keeps_one_byte_per_pixel() {
    let px = image(L8, 2, 2, vec![1, 2, 3, 4, 5]).export().unwrap();
    assert_eq!(px.kind, PixelKind::Luma8);
    assert_eq!(px.data, vec![1, 2, 3, 4]);
}

#[test]
fn export_errors() {
    assert_eq!(image(R8G8B8A8, 2, 2, vec![0; 15]).export().err(), Some(XivError::TexData));
    assert_eq!(image(DXT5, 8, 4, vec![0; 16]).export().err(), Some(XivError::TexData));
    assert_eq!(image(9999, 1, 1, vec![0; 4]).export().err(), Some(XivError::TexFormat(9999)));
    let mut none = image(L8, 1, 1, vec![]);
    none.mipmaps.clear();
    assert_eq!(none.export().err(), Some(XivError::TexData));
}
