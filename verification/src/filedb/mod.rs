pub mod dbmap;
pub mod histogram;
pub mod inner;

use vstd::prelude::*;
use histogram::{
    can_count, count_of, has_value, histogram_string, histogram_text, strictly_increasing, total,
    touch_histogram, touched,
};

pub use dbmap::{FileDbMap, FileDbMapBytes, FileDbMapString, FileDbMapU64};
pub use dbmap::kt_dbint::DbInt;
pub use dbmap::kt_dbstring::DbString;
pub use inner::{FileDb, FileDbInner};

verus! {

/// Parameters of buffer.
#[derive(Debug, Clone, Copy)]
pub enum FileBufSizeParam {
    /// Fixed buffer size
    Size(u32),
    /// Auto buffer size by file size.
    PerMille(u16),
    /// Default auto buffer size by file size.
    Auto,
}

/// Parameters of filedb.
///
/// chunk_size is MUST power of 2.
#[derive(Debug, Clone, Copy)]
pub struct FileDbParams {
    /// buffer size of dat file buffer. None is auto buffer size.
    pub dat_buf_size: FileBufSizeParam,
    /// buffer size of idx file buffer. None is auto buffer size.
    pub idx_buf_size: FileBufSizeParam,
}

/// The default parameters: both buffers sized automatically.
pub open spec fn default_params() -> FileDbParams {
    FileDbParams { dat_buf_size: FileBufSizeParam::Auto, idx_buf_size: FileBufSizeParam::Auto }
}

impl core::default::Default for FileDbParams {
    /// Both buffers sized automatically.
    fn default() -> (r: Self)
        ensures
            r == default_params(),
    {
        FileDbParams { dat_buf_size: FileBufSizeParam::Auto, idx_buf_size: FileBufSizeParam::Auto }
    }
}

/// The size of a record, in bytes.
pub type RecordSize = u32;

/// The number of keys in an index node.
pub type KeysCount = u32;

/// A count per size: `(size, count)` entries.
pub type CountOfPerSize = Vec<(u32, u64)>;

/// record size statistics: how many records there are of each size, in
/// `(size, count)` entries sorted by size.
#[derive(Debug)]
pub struct RecordSizeStats(Vec<(RecordSize, u64)>);

impl View for RecordSizeStats {
    type V = Seq<(RecordSize, u64)>;

    closed spec fn view(&self) -> Seq<(RecordSize, u64)> {
        self.0@
    }
}

impl core::default::Default for RecordSizeStats {
    /// No record counted yet.
    fn default() -> (r: Self)
        ensures
            r@ == Seq::<(RecordSize, u64)>::empty(),
    {
        RecordSizeStats(Vec::new())
    }
}

impl RecordSizeStats {
    /// Statistics with the given `(size, count)` entries.
    pub fn new(vec: Vec<(RecordSize, u64)>) -> (r: Self)
        ensures
            r@ == vec@,
    {
        RecordSizeStats(vec)
    }

    /// Counts one more record of size `record_size`. The entries must be
    /// sorted by size, one per size, as `touch_size` keeps them.
    pub fn touch_size(&mut self, record_size: RecordSize)
        requires
            strictly_increasing(old(self)@),
            can_count(old(self)@, record_size),
            old(self)@.len() < usize::MAX,
        ensures
            final(self)@ == touched(old(self)@, record_size),
            strictly_increasing(final(self)@),
            forall|size: RecordSize|
                #[trigger] count_of(final(self)@, size) == count_of(old(self)@, size) + if size
                    == record_size {
                    1nat
                } else {
                    0nat
                },
            forall|v: RecordSize|
                #[trigger] has_value(final(self)@, v) == (has_value(old(self)@, v) || v == record_size),
            total(final(self)@) == total(old(self)@) + 1,
    {
        touch_histogram(&mut self.0, record_size);
    }

    /// The statistics as text: `[(size, count), ...]`.
    pub fn to_string(&self) -> (r: String)
        ensures
            r@ == histogram_text(self@),
    {
        histogram_string(&self.0)
    }
}

/// keys count statistics: how many index nodes hold each number of keys, in
/// `(keys count, count)` entries sorted by keys count.
#[derive(Debug)]
pub struct KeysCountStats(Vec<(KeysCount, u64)>);

impl View for KeysCountStats {
    type V = Seq<(KeysCount, u64)>;

    closed spec fn view(&self) -> Seq<(KeysCount, u64)> {
        self.0@
    }
}

impl core::default::Default for KeysCountStats {
    /// No node counted yet.
    fn default() -> (r: Self)
        ensures
            r@ == Seq::<(KeysCount, u64)>::empty(),
    {
        KeysCountStats(Vec::new())
    }
}

impl KeysCountStats {
    /// Statistics with the given `(keys count, count)` entries.
    pub fn new(vec: Vec<(KeysCount, u64)>) -> (r: Self)
        ensures
            r@ == vec@,
    {
        KeysCountStats(vec)
    }

    /// Counts one more node holding `keys_count` keys. The entries must be
    /// sorted by keys count, one per keys count, as `touch_size` keeps them.
    pub fn touch_size(&mut self, keys_count: KeysCount)
        requires
            strictly_increasing(old(self)@),
            can_count(old(self)@, keys_count),
            old(self)@.len() < usize::MAX,
        ensures
            final(self)@ == touched(old(self)@, keys_count),
            strictly_increasing(final(self)@),
            forall|n: KeysCount|
                #[trigger] count_of(final(self)@, n) == count_of(old(self)@, n) + if n
                    == keys_count {
                    1nat
                } else {
                    0nat
                },
            forall|v: KeysCount|
                #[trigger] has_value(final(self)@, v) == (has_value(old(self)@, v) || v == keys_count),
            total(final(self)@) == total(old(self)@) + 1,
    {
        touch_histogram(&mut self.0, keys_count);
    }

    /// The statistics as text: `[(keys count, count), ...]`.
    pub fn to_string(&self) -> (r: String)
        ensures
            r@ == histogram_text(self@),
    {
        histogram_string(&self.0)
    }
}

} // verus!
