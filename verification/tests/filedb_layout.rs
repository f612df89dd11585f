use siamesedb::filedb::{FileDb, FileDbInner, FileDbMapString, FileDbMapU64, RecordSizeStats};

#[test]
fn test_size_of() {
    if usize::BITS == 64 {
        assert_eq!(std::mem::size_of::<FileDb>(), 8);
        assert_eq!(std::mem::size_of::<FileDbMapString>(), 8);
        assert_eq!(std::mem::size_of::<FileDbMapU64>(), 8);
        //
        assert_eq!(std::mem::size_of::<FileDbInner>(), 96);
        //
        assert_eq!(std::mem::size_of::<RecordSizeStats>(), 24);
    }
    //
    if usize::BITS == 32 {
        assert_eq!(std::mem::size_of::<FileDb>(), 4);
        assert_eq!(std::mem::size_of::<FileDbMapString>(), 4);
        assert_eq!(std::mem::size_of::<FileDbMapU64>(), 4);
        //
        assert_eq!(std::mem::size_of::<FileDbInner>(), 48);
        //
        assert_eq!(std::mem::size_of::<RecordSizeStats>(), 12);
    }
}
