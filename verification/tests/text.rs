use siamesedb::text::{push_decimal, quoted};

#[test]
fn decimal_of_numbers() {
    let cases = [(0u64, "0"), (7, "7"), (10, "10"), (1234567890, "1234567890"), (u64::MAX, "18446744073709551615")];
    for (n, text) in cases {
        let mut s = String::from("x=");
        push_decimal(&mut s, n);
        assert_eq!(s, format!("x={}", text));
    }
}

#[test]
fn quoted_text() {
    assert_eq!(quoted("a b"), "'a b'");
    assert_eq!(quoted(""), "''");
}
