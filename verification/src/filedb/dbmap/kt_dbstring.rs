use vstd::prelude::*;
use std::cmp::Ordering;
use super::{be_bytes, u64_be_bytes, FileDbMap};
use vstd::utf8::encode_utf8;
use vstd::std_specs::convert::FromSpecImpl;
use super::order::{bytes_order, compare_bytes};
use crate::text::{from_utf8_lossy, quoted, quoted_text, utf8_lossy};

verus! {

/// DbBytes Map in a file databse.
pub type FileDbMapString = FileDbMap<DbString>;

/// DbBytes
/// New type pattern of `Vec<u8>`.
#[derive(Debug, Clone, PartialEq, PartialOrd, Eq, Ord, Hash)]
pub struct DbString(Vec<u8>);

impl View for DbString {
    type V = Seq<u8>;

    closed spec fn view(&self) -> Seq<u8> {
        self.0@
    }
}

impl core::default::Default for DbString {
    /// The empty key.
    fn default() -> (r: Self)
        ensures
            r@ == Seq::<u8>::empty(),
    {
        DbString(Vec::new())
    }
}

impl super::DbXxxKeyType for DbString {
    /// `string` and two zero bytes.
    fn signature() -> (r: [u8; 8])
        ensures
            r@ == seq![115u8, 116u8, 114u8, 105u8, 110u8, 103u8, 0u8, 0u8],
    {
        let r = [115u8, 116u8, 114u8, 105u8, 110u8, 103u8, 0u8, 0u8];
        assert(r@ =~= seq![115u8, 116u8, 114u8, 105u8, 110u8, 103u8, 0u8, 0u8]);
        r
    }

    fn as_bytes(&self) -> (r: &[u8]) {
        self.0.as_slice()
    }

    fn from(bytes: &[u8]) -> (r: Self) {
        DbString(vstd::slice::slice_to_vec(bytes))
    }

    fn byte_len(&self) -> (r: usize) {
        self.0.as_slice().len()
    }
}

impl DbString {
    /// Compares the key with the bytes `other`, lexicographically.
    pub fn cmp_u8(&self, other: &[u8]) -> (r: Ordering)
        ensures
            r == bytes_order(self@, other@),
    {
        compare_bytes(self.0.as_slice(), other)
    }

    /// The key as text: its bytes decoded as UTF-8 (invalid sequences
    /// replaced), between single quotes.
    pub fn to_string(&self) -> (r: String)
        ensures
            r@ == quoted_text(utf8_lossy(self@)),
            vstd::utf8::valid_utf8(self@) ==> r@ == quoted_text(vstd::utf8::decode_utf8(self@)),
    {
        let text = from_utf8_lossy(self.0.as_slice());
        quoted(text.as_str())
    }
}

impl core::ops::Deref for DbString {
    type Target = [u8];

    fn deref(&self) -> (r: &[u8])
        ensures
            r@ == self@,
    {
        self.0.as_slice()
    }
}

// Each conversion states its result over the key's bytes in its own
// `ensures`; none of them claims the `from_spec` model of `From`.
impl From<&[u8]> for DbString {
    fn from(a: &[u8]) -> (r: DbString)
        ensures
            r@ == a@,
    {
        DbString(vstd::slice::slice_to_vec(a))
    }
}

impl FromSpecImpl<&[u8]> for DbString {
    open spec fn obeys_from_spec() -> bool {
        false
    }

    closed spec fn from_spec(v: &[u8]) -> DbString {
        arbitrary()
    }
}

impl From<Vec<u8>> for DbString {
    fn from(a: Vec<u8>) -> (r: DbString)
        ensures
            r@ == a@,
    {
        DbString(a)
    }
}

impl FromSpecImpl<Vec<u8>> for DbString {
    open spec fn obeys_from_spec() -> bool {
        false
    }

    closed spec fn from_spec(v: Vec<u8>) -> DbString {
        arbitrary()
    }
}

impl From<&str> for DbString {
    fn from(a: &str) -> (r: DbString)
        ensures
            r@ == encode_utf8(a@),
    {
        DbString(vstd::slice::slice_to_vec(a.as_bytes()))
    }
}

impl FromSpecImpl<&str> for DbString {
    open spec fn obeys_from_spec() -> bool {
        false
    }

    closed spec fn from_spec(v: &str) -> DbString {
        arbitrary()
    }
}

impl From<String> for DbString {
    fn from(a: String) -> (r: DbString)
        ensures
            r@ == encode_utf8(a@),
    {
        DbString(vstd::slice::slice_to_vec(a.as_str().as_bytes()))
    }
}

impl FromSpecImpl<String> for DbString {
    open spec fn obeys_from_spec() -> bool {
        false
    }

    closed spec fn from_spec(v: String) -> DbString {
        arbitrary()
    }
}

impl From<&String> for DbString {
    fn from(a: &String) -> (r: DbString)
        ensures
            r@ == encode_utf8(a@),
    {
        DbString(vstd::slice::slice_to_vec(a.as_str().as_bytes()))
    }
}

impl FromSpecImpl<&String> for DbString {
    open spec fn obeys_from_spec() -> bool {
        false
    }

    closed spec fn from_spec(v: &String) -> DbString {
        arbitrary()
    }
}

impl<const N: usize> From<&[u8; N]> for DbString {
    fn from(a: &[u8; N]) -> (r: DbString)
        ensures
            r@ == a@,
    {
        DbString(vstd::slice::slice_to_vec(a.as_slice()))
    }
}

impl<const N: usize> FromSpecImpl<&[u8; N]> for DbString {
    open spec fn obeys_from_spec() -> bool {
        false
    }

    closed spec fn from_spec(v: &[u8; N]) -> DbString {
        arbitrary()
    }
}

impl From<u64> for DbString {
    fn from(a: u64) -> (r: DbString)
        ensures
            r@ == be_bytes(a),
    {
        let bytes = u64_be_bytes(a);
        DbString(vstd::slice::slice_to_vec(bytes.as_slice()))
    }
}

impl FromSpecImpl<u64> for DbString {
    open spec fn obeys_from_spec() -> bool {
        false
    }

    closed spec fn from_spec(v: u64) -> DbString {
        arbitrary()
    }
}

impl From<&u64> for DbString {
    fn from(a: &u64) -> (r: DbString)
        ensures
            r@ == be_bytes(*a),
    {
        let bytes = u64_be_bytes(*a);
        DbString(vstd::slice::slice_to_vec(bytes.as_slice()))
    }
}

impl FromSpecImpl<&u64> for DbString {
    open spec fn obeys_from_spec() -> bool {
        false
    }

    closed spec fn from_spec(v: &u64) -> DbString {
        arbitrary()
    }
}

impl From<&DbString> for DbString {
    fn from(a: &DbString) -> (r: DbString)
        ensures
            r@ == a@,
    {
        DbString(a.0.clone())
    }
}

impl FromSpecImpl<&DbString> for DbString {
    open spec fn obeys_from_spec() -> bool {
        false
    }

    closed spec fn from_spec(v: &DbString) -> DbString {
        arbitrary()
    }
}

} // verus!
