//! A key-value file database: byte keys, a registry of named maps, and the
//! size statistics that its maps keep.

pub mod filedb;
pub mod text;

pub use filedb::{
    CountOfPerSize, DbInt, DbString, FileBufSizeParam, FileDb, FileDbMap, FileDbMapBytes,
    FileDbMapString, FileDbMapU64, FileDbParams, KeysCount, KeysCountStats, RecordSize,
    RecordSizeStats,
};
pub use filedb::dbmap::DbXxxKeyType;
