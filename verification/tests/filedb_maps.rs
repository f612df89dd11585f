use siamesedb::filedb::{FileBufSizeParam, FileDb, FileDbParams};

fn params(dat: u32, idx: u16) -> FileDbParams {
    FileDbParams {
        dat_buf_size: FileBufSizeParam::Size(dat),
        idx_buf_size: FileBufSizeParam::PerMille(idx),
    }
}

fn made() -> Result<(), String> {
    Ok(())
}

fn failed() -> Result<(), String> {
    Err(String::from("cannot create the map files"))
}

#[test]
fn default_params_are_auto() {
    let p = FileDbParams::default();
    assert!(matches!(p.dat_buf_size, FileBufSizeParam::Auto));
    assert!(matches!(p.idx_buf_size, FileBufSizeParam::Auto));
}

#[test]
fn open_keeps_path() {
    let db = FileDb::open("target/test-db");
    assert_eq!(db.path(), "target/test-db");
}

#[test]
fn db_map_is_created_once() {
    let mut db = FileDb::open("db");
    let m1 = db.db_map_string_with_params("some_map", params(4096, 10), made).unwrap();
    assert_eq!(m1.name(), "some_map");
    assert!(matches!(m1.params().dat_buf_size, FileBufSizeParam::Size(4096)));
    // asking again gives the same map, whatever the parameters, and makes nothing
    let m2 = db
        .db_map_string_with_params("some_map", params(1, 1), || -> Result<(), String> {
            panic!("an existing map is not made again")
        })
        .unwrap();
    assert_eq!(m2.name(), "some_map");
    assert!(matches!(m2.params().dat_buf_size, FileBufSizeParam::Size(4096)));
    assert!(matches!(m2.params().idx_buf_size, FileBufSizeParam::PerMille(10)));
    let m3 = db.db_map_string("some_map", failed).unwrap();
    assert!(matches!(m3.params().dat_buf_size, FileBufSizeParam::Size(4096)));
}

#[test]
fn db_map_creation_error_is_passed_on() {
    let mut db = FileDb::open("db");
    let r = db.db_map_string_with_params("m", params(7, 0), failed);
    assert_eq!(r.unwrap_err(), "cannot create the map files");
    // nothing was registered: the next request makes the map, with its own params
    let m = db.db_map_string_with_params("m", params(8, 0), made).unwrap();
    assert!(matches!(m.params().dat_buf_size, FileBufSizeParam::Size(8)));
    assert!(db.db_map_u64("n", failed).is_err());
    assert!(db.db_map_bytes_with_params("b", params(1, 1), failed).is_err());
}

#[test]
fn db_map_default_params() {
    let mut db = FileDb::open("db");
    let m = db.db_map_u64("numbers", made).unwrap();
    assert_eq!(m.name(), "numbers");
    assert!(matches!(m.params().dat_buf_size, FileBufSizeParam::Auto));
    assert!(matches!(m.params().idx_buf_size, FileBufSizeParam::Auto));
    let b = db.db_map_bytes("blobs", made).unwrap();
    assert_eq!(b.name(), "blobs");
    assert!(matches!(b.params().idx_buf_size, FileBufSizeParam::Auto));
}

#[test]
fn db_map_kinds_are_separate() {
    let mut db = FileDb::open("db");
    let s = db.db_map_string_with_params("m", params(1, 2), made).unwrap();
    let u = db.db_map_u64_with_params("m", params(3, 4), made).unwrap();
    let b = db.db_map_bytes_with_params("m", params(5, 6), made).unwrap();
    assert!(matches!(s.params().dat_buf_size, FileBufSizeParam::Size(1)));
    assert!(matches!(u.params().dat_buf_size, FileBufSizeParam::Size(3)));
    assert!(matches!(b.params().dat_buf_size, FileBufSizeParam::Size(5)));
    let u2 = db.db_map_u64("m", failed).unwrap();
    assert!(matches!(u2.params().idx_buf_size, FileBufSizeParam::PerMille(4)));
}

#[test]
fn db_map_names_are_distinct_maps() {
    let mut db = FileDb::open("db");
    let a = db.db_map_string_with_params("a", params(10, 0), made).unwrap();
    let b = db.db_map_string_with_params("b", params(20, 0), made).unwrap();
    assert_eq!(a.name(), "a");
    assert_eq!(b.name(), "b");
    let a2 = db.db_map_string("a", made).unwrap();
    let b2 = db.db_map_string("b", made).unwrap();
    assert!(matches!(a2.params().dat_buf_size, FileBufSizeParam::Size(10)));
    assert!(matches!(b2.params().dat_buf_size, FileBufSizeParam::Size(20)));
    let c = a2.clone();
    assert_eq!(c.name(), "a");
}
