use std::io::Write;
use xiv::dat::{read_image_file, read_inner_file, read_model_file, read_plain_file, InnerFile, InnerFilePtr};
use xiv::error::XivError;

fn deflate(bytes: &[u8]) -> Vec<u8> {
    let mut e = flate2::write::DeflateEncoder::new(Vec::new(), flate2::Compression::default());
    e.write_all(bytes).unwrap();
    e.finish().unwrap()
}

/// A block holding `payload` as deflate data, padded to 128 bytes.
fn compressed_block(payload: &[u8]) -> Vec<u8> {
    let packed = deflate(payload);
    block(&packed, packed.len() as u32, payload.len() as u32)
}

/// A block holding `payload` verbatim, padded to 128 bytes.
fn stored_block(payload: &[u8]) -> Vec<u8> {
    block(payload, 32000, payload.len() as u32)
}

fn block(body: &[u8], size_compressed: u32, size_uncompressed: u32) -> Vec<u8> {
    let mut b = Vec::new();
    b.extend_from_slice(&0x10u32.to_le_bytes());
    b.extend_from_slice(&0u32.to_le_bytes());
    b.extend_from_slice(&size_compressed.to_le_bytes());
    b.extend_from_slice(&size_uncompressed.to_le_bytes());
    b.extend_from_slice(body);
    while b.len() % 128 != 0 {
        b.push(0);
    }
    b
}

fn u32s(out: &mut Vec<u8>, values: &[u32]) {
    for v in values {
        out.extend_from_slice(&v.to_le_bytes());
    }
}

/// A plain inner file whose chunks are the given blocks, in order.
fn plain_file(blocks: &[Vec<u8>]) -> Vec<u8> {
    let header_len = 128u32;
    let total: usize = blocks.iter().map(|b| b.len()).sum();
    let mut f = Vec::new();
    u32s(&mut f, &[header_len, 2, total as u32, 0, 0, blocks.len() as u32]);
    let mut at = 0u32;
    for b in blocks {
        u32s(&mut f, &[at, 0]);
        at += b.len() as u32;
    }
    f.resize(header_len as usize, 0);
    for b in blocks {
        f.extend_from_slice(b);
    }
    f
}

#[test]
fn plain_file_concatenates_its_chunks() {
    let text = b"Race,0\nModelChara,1\nItems,2\nAction,3\n".repeat(20);
    let f = plain_file(&[compressed_block(&text), stored_block(b"tail")]);
    let out = read_plain_file(&f).unwrap();
    let mut expected = text.clone();
    expected.extend_from_slice(b"tail");
    assert_eq!(out, expected);
    let ptr = InnerFilePtr { path: "ffxiv/0a0000.win32.dat0".to_string(), offset: 0 };
    assert_eq!(ptr.read_plain(&f).unwrap(), expected);
}

#[test]
fn decoded_block_lengths_match_their_headers() {
    let payload = vec![7u8; 5000];
    let f = plain_file(&[compressed_block(&payload)]);
    assert_eq!(read_plain_file(&f).unwrap().len(), 5000);
    let f = plain_file(&[stored_block(&payload)]);
    assert_eq!(read_plain_file(&f).unwrap().len(), 5000);
}

#[test]
fn empty_plain_file_has_no_bytes() {
    let mut f = Vec::new();
    u32s(&mut f, &[24, 1, 0, 0, 0, 0]);
    assert_eq!(read_plain_file(&f).unwrap(), Vec::<u8>::new());
}

#[test]
fn block_errors_are_reported() {
    let mut bad_magic = plain_file(&[stored_block(b"abc")]);
    bad_magic[128] = 0x11;
    assert_eq!(read_plain_file(&bad_magic), Err(XivError::DatBlockHeader));

    let truncated = plain_file(&[stored_block(&[1u8; 200])]);
    assert_eq!(read_plain_file(&truncated[..128 + 16 + 100]), Err(XivError::DatBlockDecoding));

    let garbage = plain_file(&[block(&[0xff; 10], 10, 10)]);
    assert_eq!(read_plain_file(&garbage), Err(XivError::DatBlockDecoding));

    assert_eq!(read_plain_file(&[1, 2, 3]), Err(XivError::DatFileHeader));
    let mut bad_type = plain_file(&[]);
    bad_type[4] = 9;
    assert_eq!(read_plain_file(&bad_type), Err(XivError::DatFileHeader));
}

#[test]
fn image_file_yields_one_buffer_per_mipmap() {
    let mip0 = [0xffu8; 4 * 4 * 4];
    let mip1a = [1u8; 8];
    let mip1b = [2u8; 8];
    let blocks0 = compressed_block(&mip0);
    let blocks1 = [stored_block(&mip1a), compressed_block(&mip1b)].concat();
    let header_len = 128u32;
    let mut f = Vec::new();
    u32s(&mut f, &[header_len, 4, 0, 0, 0, 2]);
    u32s(&mut f, &[16, blocks0.len() as u32, 64, 0, 1]);
    u32s(&mut f, &[16 + blocks0.len() as u32, blocks1.len() as u32, 16, 1, 2]);
    f.resize(header_len as usize, 0);
    u32s(&mut f, &[0, 5200]);
    f.extend_from_slice(&4u16.to_le_bytes());
    f.extend_from_slice(&4u16.to_le_bytes());
    f.extend_from_slice(&1u16.to_le_bytes());
    f.extend_from_slice(&2u16.to_le_bytes());
    f.extend_from_slice(&blocks0);
    f.extend_from_slice(&blocks1);
    let img = read_image_file(&f).unwrap();
    assert_eq!((img.format, img.width, img.height, img.layers, img.count), (5200, 4, 4, 1, 2));
    assert_eq!(img.mipmaps.len(), 2);
    assert_eq!(img.mipmaps[0], mip0.to_vec());
    assert_eq!(img.mipmaps[1], [mip1a, mip1b].concat());
    let ptr = InnerFilePtr { path: String::new(), offset: 0 };
    assert_eq!(ptr.read_image(&f).unwrap().mipmaps.len(), 2);
    assert_eq!(read_image_file(&f[..130]).err(), Some(XivError::DatFileHeader));
}

#[test]
fn model_file_concatenates_its_chunks() {
    let a = stored_block(b"vertex");
    let b = compressed_block(b"index data");
    let header_len = 256u32;
    let mut f = Vec::new();
    u32s(&mut f, &[header_len, 3, 0, 0, 0, 0]);
    u32s(&mut f, &[0; 11]);
    u32s(&mut f, &[0; 11]);
    let mut offsets = [0u32; 11];
    offsets[0] = 0;
    offsets[3] = a.len() as u32;
    u32s(&mut f, &offsets);
    for _ in 0..11 {
        f.extend_from_slice(&0u16.to_le_bytes());
    }
    let mut counts = [0u16; 11];
    counts[0] = 1;
    counts[3] = 1;
    for c in counts {
        f.extend_from_slice(&c.to_le_bytes());
    }
    f.extend_from_slice(&[0u8; 8]);
    f.extend_from_slice(&[0u8; 4]);
    assert_eq!(f.len(), 212);
    f.resize(header_len as usize, 0);
    f.extend_from_slice(&a);
    f.extend_from_slice(&b);
    let out = read_model_file(&f).unwrap();
    assert_eq!(out, b"vertexindex data".to_vec());
    let ptr = InnerFilePtr { path: String::new(), offset: 0 };
    assert_eq!(ptr.read_model(&f).unwrap(), out);
    assert_eq!(read_model_file(&f[..200]), Err(XivError::DatFileHeader));
}

#[test]
fn inner_files_dispatch_on_their_type() {
    let mut empty = Vec::new();
    u32s(&mut empty, &[24, 1, 0, 0, 0, 0]);
    assert!(matches!(read_inner_file(&empty), Ok(InnerFile::Empty)));
    let plain = plain_file(&[stored_block(b"abc")]);
    match read_inner_file(&plain) {
        Ok(InnerFile::Plain(bytes)) => assert_eq!(bytes, b"abc".to_vec()),
        other => panic!("unexpected {:?}", other),
    }
    let ptr = InnerFilePtr { path: String::new(), offset: 0 };
    assert!(matches!(ptr.read(&plain), Ok(InnerFile::Plain(_))));
    let mut model = plain.clone();
    model[4] = 3;
    assert!(matches!(read_inner_file(&model), Ok(InnerFile::Model(b)) if b.is_empty()));
    assert_eq!(read_inner_file(&model[..100]).err(), Some(XivError::DatFileHeader));
    let mut unknown = plain.clone();
    unknown[4] = 5;
    assert_eq!(read_inner_file(&unknown).err(), Some(XivError::DatFileHeader));
}
