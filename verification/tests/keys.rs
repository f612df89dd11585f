use siamesedb::filedb::{DbInt, DbString};
use siamesedb::DbXxxKeyType;
use std::cmp::Ordering;

fn int_key<T>(t: T) -> DbInt
where
    DbInt: From<T>,
{
    From::from(t)
}

fn str_key<T>(t: T) -> DbString
where
    DbString: From<T>,
{
    From::from(t)
}

#[test]
fn db_int_from_u64_is_big_endian() {
    let k = int_key(0x0102030405060708u64);
    assert_eq!(k.as_bytes(), &[1u8, 2, 3, 4, 5, 6, 7, 8][..]);
    assert_eq!(k.byte_len(), 8);
    let r = 0xff00u64;
    let k = int_key(&r);
    assert_eq!(k.as_bytes(), &[0u8, 0, 0, 0, 0, 0, 0xff, 0][..]);
}

#[test]
fn db_int_signature() {
    assert_eq!(<DbInt as DbXxxKeyType>::signature(), [b'u', b'i', b'n', b't', b'6', b'4', 0u8, 0u8]);
    assert_eq!(
        <DbString as DbXxxKeyType>::signature(),
        [b's', b't', b'r', b'i', b'n', b'g', 0u8, 0u8]
    );
}

#[test]
fn db_int_keys_sort_as_integers() {
    let pairs = [(0u64, 1u64), (1, 256), (255, 256), (65535, 65536), (1, 1), (u64::MAX, 0)];
    for (x, y) in pairs {
        let kx = int_key(x);
        let ky = int_key(y);
        assert_eq!(kx.cmp_u8(ky.as_bytes()), x.cmp(&y));
    }
}

#[test]
fn cmp_u8_lexicographic() {
    let k = str_key("abc");
    assert_eq!(k.cmp_u8(b"abc"), Ordering::Equal);
    assert_eq!(k.cmp_u8(b"abd"), Ordering::Less);
    assert_eq!(k.cmp_u8(b"abb"), Ordering::Greater);
    assert_eq!(k.cmp_u8(b"ab"), Ordering::Greater);
    assert_eq!(k.cmp_u8(b"abcd"), Ordering::Less);
    assert_eq!(k.cmp_u8(b""), Ordering::Greater);
    assert_eq!(DbString::default().cmp_u8(b""), Ordering::Equal);
    assert_eq!(DbInt::default().cmp_u8(b"\x00"), Ordering::Less);
}

#[test]
fn db_string_conversions_keep_bytes() {
    assert_eq!(str_key("héllo").as_bytes(), "héllo".as_bytes());
    assert_eq!(str_key(String::from("xyz")).as_bytes(), b"xyz");
    let s = String::from("pq");
    assert_eq!(str_key(&s).as_bytes(), b"pq");
    assert_eq!(str_key(&[9u8, 8, 7][..]).as_bytes(), &[9u8, 8, 7][..]);
    assert_eq!(str_key(vec![1u8, 2]).as_bytes(), &[1u8, 2][..]);
    assert_eq!(str_key(&[4u8, 5, 6]).as_bytes(), &[4u8, 5, 6][..]);
    let k = str_key("copy");
    let c = str_key(&k);
    assert_eq!(c.as_bytes(), b"copy");
    assert_eq!(c, k);
    let b = <DbString as DbXxxKeyType>::from(b"raw");
    assert_eq!(b.as_bytes(), b"raw");
    assert_eq!(b.byte_len(), 3);
}

#[test]
fn db_int_conversions_keep_bytes() {
    assert_eq!(int_key("ab").as_bytes(), b"ab");
    assert_eq!(int_key(String::from("cd")).as_bytes(), b"cd");
    let s = String::from("ef");
    assert_eq!(int_key(&s).as_bytes(), b"ef");
    assert_eq!(int_key(&[1u8, 2][..]).as_bytes(), &[1u8, 2][..]);
    assert_eq!(int_key(vec![3u8]).as_bytes(), &[3u8][..]);
    assert_eq!(int_key(&[4u8, 5]).as_bytes(), &[4u8, 5][..]);
    let b = <DbInt as DbXxxKeyType>::from(&[0u8, 1]);
    assert_eq!(b.as_bytes(), &[0u8, 1][..]);
}

#[test]
fn keys_deref_to_bytes() {
    let k = str_key("deref");
    let bytes: &[u8] = &k;
    assert_eq!(bytes, b"deref");
    assert_eq!(k.len(), 5);
    let n = int_key(7u64);
    assert_eq!(n[7], 7);
}

#[test]
fn keys_to_string_quotes_text() {
    assert_eq!(str_key("abc").to_string(), "'abc'");
    assert_eq!(str_key("").to_string(), "''");
    assert_eq!(str_key("日本").to_string(), "'日本'");
    assert_eq!(int_key("xy").to_string(), "'xy'");
}

#[test]
fn keys_to_string_replaces_invalid_utf8() {
    assert_eq!(str_key(vec![b'a', 0xff, b'b']).to_string(), "'a\u{FFFD}b'");
    assert_eq!(int_key(0u64).to_string(), "'\0\0\0\0\0\0\0\0'");
}

#[test]
fn keys_default_is_empty() {
    assert_eq!(DbInt::default().byte_len(), 0);
    assert_eq!(DbString::default().as_bytes(), b"");
}

#[test]
fn cmp_u8_reverses_when_swapped() {
    let keys = [str_key("a"), str_key("ab"), str_key("b"), str_key(""), str_key("ab")];
    for x in keys.iter() {
        assert_eq!(x.cmp_u8(x.as_bytes()), Ordering::Equal);
        for y in keys.iter() {
            assert_eq!(x.cmp_u8(y.as_bytes()), y.cmp_u8(x.as_bytes()).reverse());
        }
    }
}
