use xiv::error::XivError;
use xiv::packid::PackId;

#[test]
fn packid_from_path() {
    assert!(PackId::from_inner_path("foobar/ffixv/file").is_err());

    assert_eq!(
        PackId::from_inner_path("exd/test.exd").unwrap(),
        PackId::new(0x0a, 0, 0)
    );
    assert_eq!(
        PackId::from_inner_path("exd/ffxiv/test.exd").unwrap(),
        PackId::new(0x0a, 0, 0)
    );
    assert_eq!(
        PackId::from_inner_path("common/ex2/testdir/testfile").unwrap(),
        PackId::new(0, 2, 0)
    );
    assert_eq!(
        PackId::from_inner_path("sound/01_testfile").unwrap(),
        PackId::new(0x07, 0, 0)
    );
    assert_eq!(
        PackId::from_inner_path("sound/ex1/01_testfile").unwrap(),
        PackId::new(0x07, 1, 0x01)
    );
    assert_eq!(
        PackId::from_inner_path("sound/ex1/1f_testfile").unwrap(),
        PackId::new(0x07, 1, 0x1f)
    );
    assert_eq!(
        PackId::from_inner_path("common/dir/dir/file").unwrap(),
        PackId::new(0, 0, 0)
    );
}

#[test]
fn root_exl_resolves_to_base_exd_pack() {
    let q = PackId::from_inner_path("exd/root.exl").unwrap();
    assert_eq!(q, PackId::new(0x0a, 0, 0));
    assert_eq!(q.into_index2_path(), "ffxiv/0a0000.win32.index2");
    assert_eq!(q.into_dat_path(0), "ffxiv/0a0000.win32.dat0");
}

#[test]
fn expansion_patch_path_names_its_index() {
    let q = PackId::from_inner_path("sound/ex1/1f_testfile").unwrap();
    assert_eq!(q.into_index2_path(), "ex1/07011f.win32.index2");
    assert_eq!(q.into_dat_path(3), "ex1/07011f.win32.dat3");
}

#[test]
fn unknown_category_is_rejected() {
    assert_eq!(PackId::from_inner_path("foobar/x"), Err(XivError::PackIdCategory));
    assert_eq!(PackId::from_inner_path(""), Err(XivError::PackIdCategory));
    assert_eq!(PackId::from_inner_path("Exd/root.exl"), Err(XivError::PackIdCategory));
}

#[test]
fn missing_segments_default_to_zero() {
    assert_eq!(PackId::from_inner_path("exd").unwrap(), PackId::new(0x0a, 0, 0));
    assert_eq!(PackId::from_inner_path("bg/ex3").unwrap(), PackId::new(0x02, 3, 0));
    assert_eq!(PackId::from_inner_path("bg/ex3/1F_file").unwrap(), PackId::new(0x02, 3, 0));
    assert_eq!(PackId::from_inner_path("bg/ex0/01_file").unwrap(), PackId::new(0x02, 0, 0));
    assert_eq!(PackId::from_inner_path("bg/ex12/01_file").unwrap(), PackId::new(0x02, 0, 0));
    assert_eq!(PackId::from_inner_path("_debug/ex4/a0_x").unwrap(), PackId::new(0x13, 4, 0xa0));
}

#[test]
fn repo_file_names_parse() {
    assert_eq!(
        PackId::from_repo_path("ffxiv/0a0000.win32.index2").unwrap(),
        PackId::new(0x0a, 0, 0)
    );
    assert_eq!(
        PackId::from_repo_path("/game/sqpack/ex2/0c0203.win32.dat7").unwrap(),
        PackId::new(0x0c, 2, 3)
    );
    assert_eq!(
        PackId::from_repo_path("040100.win32.index").unwrap(),
        PackId::new(0x04, 1, 0)
    );
    assert_eq!(PackId::from_repo_path("0A0000.win32.index2"), Err(XivError::PackIdRepoFile));
    assert_eq!(PackId::from_repo_path("0a0000.win32.index3"), Err(XivError::PackIdRepoFile));
    assert_eq!(PackId::from_repo_path("0a0000xwin32.index2"), Err(XivError::PackIdRepoFile));
    assert_eq!(PackId::from_repo_path("0a0000.win32.dat"), Err(XivError::PackIdRepoFile));
    assert_eq!(PackId::from_repo_path("0a00.win32.index2"), Err(XivError::PackIdRepoFile));
}

#[test]
fn index2_file_name_round_trips() {
    for q in [PackId::new(0, 0, 0), PackId::new(0x0a, 0, 0), PackId::new(0x07, 1, 0x1f), PackId::new(0xff, 0xff, 0xff)] {
        let path = q.into_index2_path();
        assert_eq!(PackId::from_repo_path(&path).unwrap(), q);
    }
    assert_eq!(PackId::new(1, 12, 0).into_index2_path(), "ex12/010c00.win32.index2");
    assert_eq!(PackId::new(1, 255, 0).into_dat_path(10), "ex255/01ff00.win32.dat10");
}
