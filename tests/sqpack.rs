use xiv::error::XivError;
use xiv::index2::{Index2, IndexEntry};
use xiv::packid::PackId;
use xiv::sqpack::{index2_pack_id, join, resolve};

fn jamcrc(path: &str) -> u32 {
    crc::Crc::<u32>::new(&crc::CRC_32_JAMCRC).checksum(path.as_bytes())
}

/// An `.index2` file whose header lies at 0x400 and whose entries lie at 0x800.
fn index_file(entries: &[(u32, u32)]) -> Vec<u8> {
    let mut f = vec![0u8; 0x800];
    f[..8].copy_from_slice(b"SqPack\0\0");
    f[0x0c..0x10].copy_from_slice(&0x400u32.to_le_bytes());
    f[0x408..0x40c].copy_from_slice(&0x800u32.to_le_bytes());
    f[0x40c..0x410].copy_from_slice(&((entries.len() * 8) as u32).to_le_bytes());
    for (hash, loc) in entries {
        f.extend_from_slice(&hash.to_le_bytes());
        f.extend_from_slice(&loc.to_le_bytes());
    }
    f
}

#[test]
fn location_words_unpack() {
    assert_eq!(IndexEntry::from_location(0x105), IndexEntry { datnum: 2, offset: 0x800 });
    assert_eq!(IndexEntry::from_location(0x7), IndexEntry { datnum: 3, offset: 0 });
    assert_eq!(IndexEntry::from_location(0x8), IndexEntry { datnum: 0, offset: 64 });
    assert_eq!(
        IndexEntry::from_location(0xFFFF_FFF8),
        IndexEntry { datnum: 0, offset: 0x7_FFFF_FFC0 }
    );
    for loc in [0u32, 0x10, 0x1234_5670, 0xFFFF_FFF0] {
        assert_eq!(IndexEntry::from_location(loc).offset % 128, 0);
    }
}

#[test]
fn index_finds_entries_by_path_hash() {
    let data = index_file(&[(jamcrc("exd/root.exl"), 0x0000_1002), (jamcrc("exd/race.exh"), 0x30)]);
    let idx = Index2::from_bytes(&data).unwrap();
    assert_eq!(idx.len(), 2);
    assert_eq!(idx.find("exd/root.exl"), Some(IndexEntry { datnum: 1, offset: 0x8000 }));
    assert_eq!(idx.find("exd/race.exh"), Some(IndexEntry { datnum: 0, offset: 0x180 }));
    assert_eq!(idx.find("exd/missing.exh"), None);
    assert_eq!(idx.find_hash(jamcrc("exd/root.exl")), Some(IndexEntry { datnum: 1, offset: 0x8000 }));
    assert_eq!(idx.find_hash(0x1234), None);
}

#[test]
fn later_entry_replaces_earlier_one() {
    let h = jamcrc("a/b");
    let idx = Index2::from_bytes(&index_file(&[(h, 0x10), (h, 0x20)])).unwrap();
    assert_eq!(idx.len(), 1);
    assert_eq!(idx.find("a/b"), Some(IndexEntry { datnum: 0, offset: 0x100 }));
}

#[test]
fn malformed_index_files_are_rejected() {
    let mut bad_magic = index_file(&[]);
    bad_magic[0] = b'X';
    assert_eq!(Index2::from_bytes(&bad_magic).err(), Some(XivError::Index2Header));
    assert_eq!(Index2::from_bytes(b"SqPack\0\0").err(), Some(XivError::Index2Header));
    let mut truncated = index_file(&[(1, 2), (3, 4)]);
    truncated.truncate(truncated.len() - 1);
    assert_eq!(Index2::from_bytes(&truncated).err(), Some(XivError::Index2Entry));
}

#[test]
fn resolve_builds_dat_pointer() {
    let data = index_file(&[(jamcrc("exd/root.exl"), 0x0000_1002)]);
    let idx = Index2::from_bytes(&data).unwrap();
    let q = PackId::from_inner_path("exd/root.exl").unwrap();
    let ptr = resolve("/game/sqpack", q, &idx, "exd/root.exl").unwrap();
    assert_eq!(ptr.path, "/game/sqpack/ffxiv/0a0000.win32.dat1");
    assert_eq!(ptr.offset, 0x8000);
    assert!(resolve("/game/sqpack", q, &idx, "exd/other.exl").is_none());
}

#[test]
fn index2_directory_entries_are_recognised() {
    assert_eq!(index2_pack_id("0a0000.win32.index2"), Some(PackId::new(0x0a, 0, 0)));
    assert_eq!(index2_pack_id("0a0000.win32.index"), None);
    assert_eq!(index2_pack_id("0a0000.win32.dat0"), None);
    assert_eq!(index2_pack_id("readme.index2"), None);
}

#[test]
fn paths_join_with_one_separator() {
    assert_eq!(join("/a/b", "c"), "/a/b/c");
    assert_eq!(join("/a/b/", "c"), "/a/b/c");
    assert_eq!(join("", "c"), "c");
}
