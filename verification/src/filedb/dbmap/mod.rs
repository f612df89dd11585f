//! Maps of a file database, and the byte keys they are ordered by.

pub mod kt_dbint;
pub mod kt_dbstring;
pub mod order;

use vstd::prelude::*;
use std::rc::Rc;
use core::marker::PhantomData;
use super::FileDbParams;
use crate::text::quoted_text;
pub use kt_dbint::FileDbMapDbInt;
pub use kt_dbstring::FileDbMapString;

verus! {

/// A key type of a map: a byte string, with an eight-byte signature that
/// names the kind of key.
pub trait DbXxxKeyType: View<V = Seq<u8>> + Sized {
    /// The signature of the key type.
    fn signature() -> [u8; 8];

    /// The bytes of the key.
    fn as_bytes(&self) -> (r: &[u8])
        ensures
            r@ == self@,
    ;

    /// The key made of `bytes`.
    fn from(bytes: &[u8]) -> (r: Self)
        ensures
            r@ == bytes@,
    ;

    /// The number of bytes of the key.
    fn byte_len(&self) -> (r: usize)
        ensures
            r == self@.len(),
    ;
}

/// The eight bytes of `x`, most significant first.
pub open spec fn be_bytes(x: u64) -> Seq<u8> {
    seq![byte0(x), byte1(x), byte2(x), byte3(x), byte4(x), byte5(x), byte6(x), byte7(x)]
}

/// The eight bytes of `x`, most significant first (`u64::to_be_bytes`).
pub fn u64_be_bytes(x: u64) -> (r: [u8; 8])
    ensures
        r@ == be_bytes(x),
{
    let r = [
        (x >> 56u64) as u8,
        (x >> 48u64) as u8,
        (x >> 40u64) as u8,
        (x >> 32u64) as u8,
        (x >> 24u64) as u8,
        (x >> 16u64) as u8,
        (x >> 8u64) as u8,
        x as u8,
    ];
    assert(r@ =~= be_bytes(x));
    r
}

/// Byte 0 of `x`, counting from the most significant.
pub open spec fn byte0(x: u64) -> u8 {
    (x >> 56u64) as u8
}
/// Byte 1 of `x`, counting from the most significant.
pub open spec fn byte1(x: u64) -> u8 {
    (x >> 48u64) as u8
}
/// Byte 2 of `x`, counting from the most significant.
pub open spec fn byte2(x: u64) -> u8 {
    (x >> 40u64) as u8
}
/// Byte 3 of `x`, counting from the most significant.
pub open spec fn byte3(x: u64) -> u8 {
    (x >> 32u64) as u8
}
/// Byte 4 of `x`, counting from the most significant.
pub open spec fn byte4(x: u64) -> u8 {
    (x >> 24u64) as u8
}
/// Byte 5 of `x`, counting from the most significant.
pub open spec fn byte5(x: u64) -> u8 {
    (x >> 16u64) as u8
}
/// Byte 6 of `x`, counting from the most significant.
pub open spec fn byte6(x: u64) -> u8 {
    (x >> 8u64) as u8
}
/// Byte 7 of `x`, counting from the most significant.
pub open spec fn byte7(x: u64) -> u8 {
    x as u8
}
/// `x` is below `y` in byte 7, the last one.
pub open spec fn below_from7(x: u64, y: u64) -> bool {
    byte7(x) < byte7(y)
}
/// From byte 6 on, the bytes of `x` come first.
pub open spec fn below_from6(x: u64, y: u64) -> bool {
    byte6(x) < byte6(y) || (byte6(x) == byte6(y) && below_from7(x, y))
}
/// From byte 5 on, the bytes of `x` come first.
pub open spec fn below_from5(x: u64, y: u64) -> bool {
    byte5(x) < byte5(y) || (byte5(x) == byte5(y) && below_from6(x, y))
}
/// From byte 4 on, the bytes of `x` come first.
pub open spec fn below_from4(x: u64, y: u64) -> bool {
    byte4(x) < byte4(y) || (byte4(x) == byte4(y) && below_from5(x, y))
}
/// From byte 3 on, the bytes of `x` come first.
pub open spec fn below_from3(x: u64, y: u64) -> bool {
    byte3(x) < byte3(y) || (byte3(x) == byte3(y) && below_from4(x, y))
}
/// From byte 2 on, the bytes of `x` come first.
pub open spec fn below_from2(x: u64, y: u64) -> bool {
    byte2(x) < byte2(y) || (byte2(x) == byte2(y) && below_from3(x, y))
}
/// From byte 1 on, the bytes of `x` come first.
pub open spec fn below_from1(x: u64, y: u64) -> bool {
    byte1(x) < byte1(y) || (byte1(x) == byte1(y) && below_from2(x, y))
}
/// From byte 0 on, the bytes of `x` come first.
pub open spec fn below_from0(x: u64, y: u64) -> bool {
    byte0(x) < byte0(y) || (byte0(x) == byte0(y) && below_from1(x, y))
}
/// All bytes of `x` and `y` are the same.
pub open spec fn same_bytes(x: u64, y: u64) -> bool {
    &&& byte0(x) == byte0(y)
    &&& byte1(x) == byte1(y)
    &&& byte2(x) == byte2(y)
    &&& byte3(x) == byte3(y)
    &&& byte4(x) == byte4(y)
    &&& byte5(x) == byte5(y)
    &&& byte6(x) == byte6(y)
    &&& byte7(x) == byte7(y)
}

/// Integers compare as their big-endian bytes do, from the first byte on.
pub proof fn lemma_be_bytes_compare(x: u64, y: u64)
    ensures
        (x < y) == below_from0(x, y),
        (x == y) == same_bytes(x, y),
{
    assert((x < y) == below_from0(x, y)) by (bit_vector);
    assert((x == y) == same_bytes(x, y)) by (bit_vector);
}

/// A key made from a text is valid UTF-8, and shows that text between quotes.
pub proof fn lemma_text_key_shows_text(text: Seq<char>)
    ensures
        vstd::utf8::valid_utf8(vstd::utf8::encode_utf8(text)),
        quoted_text(vstd::utf8::decode_utf8(vstd::utf8::encode_utf8(text))) == quoted_text(text),
{
    vstd::utf8::encode_utf8_valid_utf8(text);
    vstd::utf8::encode_utf8_decode_utf8(text);
}

/// `a` is shorter than `b`, and `b` starts with the bytes of `a`.
pub open spec fn is_proper_prefix(a: Seq<u8>, b: Seq<u8>) -> bool {
    a.len() < b.len() && forall|j: int| 0 <= j < a.len() ==> a[j] == b[j]
}

/// The bytes of `s` from index `i` on.
pub open spec fn suffix(s: Seq<u8>, i: usize) -> Seq<u8> {
    s.skip(i as int)
}

/// What a map is: its name and the parameters it was made with.
#[derive(Debug)]
pub struct FileDbMapInfo {
    name: String,
    params: FileDbParams,
}

/// A map of a file database, keyed by `KT`. Handles of one map share it.
#[derive(Debug)]
pub struct FileDbMap<KT> {
    info: Rc<FileDbMapInfo>,
    key_type: PhantomData<KT>,
}

impl<KT> View for FileDbMap<KT> {
    type V = (Seq<char>, FileDbParams);

    closed spec fn view(&self) -> (Seq<char>, FileDbParams) {
        (self.info.name@, self.info.params)
    }
}

impl<KT> Clone for FileDbMap<KT> {
    /// Another handle of the same map.
    fn clone(&self) -> (r: Self)
        ensures
            r@ == self@,
    {
        FileDbMap { info: self.info.clone(), key_type: PhantomData }
    }
}

impl<KT> FileDbMap<KT> {
    /// A new map named `name`, made with `params`.
    pub(crate) fn create(name: String, params: FileDbParams) -> (r: Self)
        ensures
            r@ == (name@, params),
    {
        FileDbMap { info: Rc::new(FileDbMapInfo { name, params }), key_type: PhantomData }
    }

    /// The map is named `name`.
    pub(crate) fn has_name(&self, name: &String) -> (r: bool)
        ensures
            r == (self@.0 == name@),
    {
        self.info.name == *name
    }

    /// The name of the map.
    pub fn name(&self) -> (r: &str)
        ensures
            r@ == self@.0,
    {
        self.info.name.as_str()
    }

    /// The parameters that the map was made with.
    pub fn params(&self) -> (r: &FileDbParams)
        ensures
            *r == self@.1,
    {
        &self.info.params
    }
}

/// A map keyed by unsigned 64-bit integers.
pub type FileDbMapU64 = FileDbMapDbInt;

/// A map keyed by raw bytes.
pub type FileDbMapBytes = FileDbMap<Vec<u8>>;

} // verus!
