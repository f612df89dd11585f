use vstd::prelude::*;
use std::cmp::Ordering;
use super::{be_bytes, u64_be_bytes, FileDbMap};
use vstd::utf8::encode_utf8;
use vstd::std_specs::convert::FromSpecImpl;
use super::order::{bytes_order, compare_bytes};
use crate::text::{from_utf8_lossy, quoted, quoted_text, utf8_lossy};

verus! {

/// DbInt Map in a file databse.
pub type FileDbMapDbInt = FileDbMap<DbInt>;

/// DbInt
/// New type pattern of `Vec<u8>`.
#[derive(Debug, Clone, PartialEq, PartialOrd, Eq, Ord, Hash)]
pub struct DbInt(Vec<u8>);

impl View for DbInt {
    type V = Seq<u8>;

    closed spec fn view(&self) -> Seq<u8> {
        self.0@
    }
}

impl core::default::Default for DbInt {
    /// The empty key.
    fn default() -> (r: Self)
        ensures
            r@ == Seq::<u8>::empty(),
    {
        DbInt(Vec::new())
    }
}

impl super::DbXxxKeyType for DbInt {
    /// `uint64` and two zero bytes.
    fn signature() -> (r: [u8; 8])
        ensures
            r@ == seq![117u8, 105u8, 110u8, 116u8, 54u8, 52u8, 0u8, 0u8],
    {
        let r = [117u8, 105u8, 110u8, 116u8, 54u8, 52u8, 0u8, 0u8];
        assert(r@ =~= seq![117u8, 105u8, 110u8, 116u8, 54u8, 52u8, 0u8, 0u8]);
        r
    }

    fn as_bytes(&self) -> (r: &[u8]) {
        self.0.as_slice()
    }

    fn from(bytes: &[u8]) -> (r: Self) {
        DbInt(vstd::slice::slice_to_vec(bytes))
    }

    fn byte_len(&self) -> (r: usize) {
        self.0.len()
    }
}

impl DbInt {
    /// Compares the key with the bytes `other`, lexicographically.
    pub fn cmp_u8(&self, other: &[u8]) -> (r: Ordering)
        ensures
            r == bytes_order(self@, other@),
    {
        compare_bytes(self.0.as_slice(), other)
    }

    /// The key as text: its bytes decoded as UTF-8 (invalid sequences
    /// replaced), between single quotes.
    pub fn to_string(&self) -> (r: String)
        ensures
            r@ == quoted_text(utf8_lossy(self@)),
            vstd::utf8::valid_utf8(self@) ==> r@ == quoted_text(vstd::utf8::decode_utf8(self@)),
    {
        let text = from_utf8_lossy(self.0.as_slice());
        quoted(text.as_str())
    }
}

impl core::ops::Deref for DbInt {
    type Target = [u8];

    fn deref(&self) -> (r: &[u8])
        ensures
            r@ == self@,
    {
        self.0.as_slice()
    }
}

// Each conversion states its result over the key's bytes in its own
// `ensures`; none of them claims the `from_spec` model of `From`.
impl From<&[u8]> for DbInt {
    fn from(a: &[u8]) -> (r: DbInt)
        ensures
            r@ == a@,
    {
        DbInt(vstd::slice::slice_to_vec(a))
    }
}

impl FromSpecImpl<&[u8]> for DbInt {
    open spec fn obeys_from_spec() -> bool {
        false
    }

    closed spec fn from_spec(v: &[u8]) -> DbInt {
        arbitrary()
    }
}

impl From<Vec<u8>> for DbInt {
    fn from(a: Vec<u8>) -> (r: DbInt)
        ensures
            r@ == a@,
    {
        DbInt(a)
    }
}

impl FromSpecImpl<Vec<u8>> for DbInt {
    open spec fn obeys_from_spec() -> bool {
        false
    }

    closed spec fn from_spec(v: Vec<u8>) -> DbInt {
        arbitrary()
    }
}

impl From<&str> for DbInt {
    fn from(a: &str) -> (r: DbInt)
        ensures
            r@ == encode_utf8(a@),
    {
        DbInt(vstd::slice::slice_to_vec(a.as_bytes()))
    }
}

impl FromSpecImpl<&str> for DbInt {
    open spec fn obeys_from_spec() -> bool {
        false
    }

    closed spec fn from_spec(v: &str) -> DbInt {
        arbitrary()
    }
}

impl From<String> for DbInt {
    fn from(a: String) -> (r: DbInt)
        ensures
            r@ == encode_utf8(a@),
    {
        DbInt(vstd::slice::slice_to_vec(a.as_str().as_bytes()))
    }
}

impl FromSpecImpl<String> for DbInt {
    open spec fn obeys_from_spec() -> bool {
        false
    }

    closed spec fn from_spec(v: String) -> DbInt {
        arbitrary()
    }
}

impl From<&String> for DbInt {
    fn from(a: &String) -> (r: DbInt)
        ensures
            r@ == encode_utf8(a@),
    {
        DbInt(vstd::slice::slice_to_vec(a.as_str().as_bytes()))
    }
}

impl FromSpecImpl<&String> for DbInt {
    open spec fn obeys_from_spec() -> bool {
        false
    }

    closed spec fn from_spec(v: &String) -> DbInt {
        arbitrary()
    }
}

impl<const N: usize> From<&[u8; N]> for DbInt {
    fn from(a: &[u8; N]) -> (r: DbInt)
        ensures
            r@ == a@,
    {
        DbInt(vstd::slice::slice_to_vec(a.as_slice()))
    }
}

impl<const N: usize> FromSpecImpl<&[u8; N]> for DbInt {
    open spec fn obeys_from_spec() -> bool {
        false
    }

    closed spec fn from_spec(v: &[u8; N]) -> DbInt {
        arbitrary()
    }
}

impl From<u64> for DbInt {
    fn from(a: u64) -> (r: DbInt)
        ensures
            r@ == be_bytes(a),
    {
        let bytes = u64_be_bytes(a);
        DbInt(vstd::slice::slice_to_vec(bytes.as_slice()))
    }
}

impl FromSpecImpl<u64> for DbInt {
    open spec fn obeys_from_spec() -> bool {
        false
    }

    closed spec fn from_spec(v: u64) -> DbInt {
        arbitrary()
    }
}

impl From<&u64> for DbInt {
    fn from(a: &u64) -> (r: DbInt)
        ensures
            r@ == be_bytes(*a),
    {
        let bytes = u64_be_bytes(*a);
        DbInt(vstd::slice::slice_to_vec(bytes.as_slice()))
    }
}

impl FromSpecImpl<&u64> for DbInt {
    open spec fn obeys_from_spec() -> bool {
        false
    }

    closed spec fn from_spec(v: &u64) -> DbInt {
        arbitrary()
    }
}

} // verus!
