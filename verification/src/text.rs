//! Rendering of numbers and byte keys as text.

use vstd::prelude::*;

verus! {

/// The decimal digit `d` (for `d < 10`) as a character.
pub open spec fn digit_char(d: nat) -> char {
    if d == 0 {
        '0'
    } else if d == 1 {
        '1'
    } else if d == 2 {
        '2'
    } else if d == 3 {
        '3'
    } else if d == 4 {
        '4'
    } else if d == 5 {
        '5'
    } else if d == 6 {
        '6'
    } else if d == 7 {
        '7'
    } else if d == 8 {
        '8'
    } else {
        '9'
    }
}

/// The decimal representation of `n`: no leading zeros, and `"0"` for zero.
pub open spec fn decimal(n: nat) -> Seq<char>
    decreases n,
{
    if n < 10 {
        seq![digit_char(n)]
    } else {
        decimal(n / 10).push(digit_char(n % 10))
    }
}

/// `'` followed by `text` and another `'`.
pub open spec fn quoted_text(text: Seq<char>) -> Seq<char> {
    seq!['\''] + text + seq!['\'']
}

/// `c` is one of the digits `0` to `9`.
pub open spec fn is_digit(c: char) -> bool {
    48 <= (c as u32) && (c as u32) <= 57
}

/// The value of the digit `c`.
pub open spec fn digit_value(c: char) -> nat {
    ((c as u32) - 48) as nat
}

/// The number that the digits `s` stand for, most significant first.
pub open spec fn digits_value(s: Seq<char>) -> nat
    decreases s.len(),
{
    if s.len() == 0 {
        0
    } else {
        digits_value(s.drop_last()) * 10 + digit_value(s.last())
    }
}

/// `s` is a number written in base 10: one digit or more, and no leading
/// zero unless it is `0` itself.
pub open spec fn is_decimal_text(s: Seq<char>) -> bool {
    &&& s.len() > 0
    &&& forall|i: int| 0 <= i < s.len() ==> is_digit(#[trigger] s[i])
    &&& (s.len() == 1 || s[0] != '0')
}

/// Each digit character stands for its digit.
pub proof fn lemma_digit_char(d: nat)
    requires
        d < 10,
    ensures
        is_digit(digit_char(d)),
        digit_value(digit_char(d)) == d,
        d != 0 ==> digit_char(d) != '0',
{
    assert(('0' as u32) == 48 && ('1' as u32) == 49 && ('2' as u32) == 50 && ('3' as u32) == 51);
    assert(('4' as u32) == 52 && ('5' as u32) == 53 && ('6' as u32) == 54 && ('7' as u32) == 55);
    assert(('8' as u32) == 56 && ('9' as u32) == 57);
}

/// The decimal text of `n` is a number in base 10 whose digits read back as
/// `n`, so two numbers never print alike.
pub proof fn lemma_decimal_reads_back(n: nat)
    ensures
        is_decimal_text(decimal(n)),
        digits_value(decimal(n)) == n,
        n > 0 ==> decimal(n)[0] != '0',
    decreases n,
{
    if n < 10 {
        lemma_digit_char(n);
        let s = decimal(n);
        assert(s.drop_last() =~= Seq::<char>::empty());
        assert(digits_value(s.drop_last()) == 0);
        assert(s.last() == digit_char(n));
    } else {
        let m = n / 10;
        let d = n % 10;
        lemma_decimal_reads_back(m);
        lemma_digit_char(d);
        let t = decimal(m);
        let s = decimal(n);
        assert(s == t.push(digit_char(d)));
        assert(s.drop_last() =~= t);
        assert(s[0] == t[0]);
        assert forall|i: int| 0 <= i < s.len() implies is_digit(#[trigger] s[i]) by {
            if i < t.len() {
                assert(s[i] == t[i]);
            }
        }
        assert(digits_value(s) == digits_value(t) * 10 + digit_value(digit_char(d)));
        assert(n == m * 10 + d);
    }
}

/// The quoted text is the whole text between two single quotes.
pub proof fn lemma_quoted_text_shape(text: Seq<char>)
    ensures
        quoted_text(text).len() == text.len() + 2,
        quoted_text(text)[0] == '\'',
        quoted_text(text).last() == '\'',
        forall|i: int| 0 <= i < text.len() ==> #[trigger] quoted_text(text)[i + 1] == text[i],
{
}

/// What `String::from_utf8_lossy` makes of `bytes`.
pub uninterp spec fn utf8_lossy(bytes: Seq<u8>) -> Seq<char>;

/// Appends one character to a string (`String::push`).
#[verifier::external_body]
pub(crate) fn push_char(s: &mut String, c: char)
    ensures
        final(s)@ == old(s)@.push(c),
{
    s.push(c);
}

/// Decodes `bytes` as UTF-8 with `String::from_utf8_lossy`, which replaces
/// every invalid sequence by U+FFFD. The contract names the result and, as the
/// std documentation states, gives the decoded text when `bytes` is valid UTF-8.
#[verifier::external_body]
pub(crate) fn from_utf8_lossy(bytes: &[u8]) -> (r: String)
    ensures
        r@ == utf8_lossy(bytes@),
        vstd::utf8::valid_utf8(bytes@) ==> r@ == vstd::utf8::decode_utf8(bytes@),
{
    String::from_utf8_lossy(bytes).into_owned()
}

fn digit(d: u64) -> (c: char)
    requires
        d < 10,
    ensures
        c == digit_char(d as nat),
{
    if d == 0 {
        '0'
    } else if d == 1 {
        '1'
    } else if d == 2 {
        '2'
    } else if d == 3 {
        '3'
    } else if d == 4 {
        '4'
    } else if d == 5 {
        '5'
    } else if d == 6 {
        '6'
    } else if d == 7 {
        '7'
    } else if d == 8 {
        '8'
    } else {
        '9'
    }
}

/// Appends the decimal representation of `n` to `s`, as `{}` formats a `u64`.
pub fn push_decimal(s: &mut String, n: u64)
    ensures
        final(s)@ == old(s)@ + decimal(n as nat),
        is_decimal_text(final(s)@.skip(old(s)@.len() as int)),
        digits_value(final(s)@.skip(old(s)@.len() as int)) == n,
    decreases n,
{
    if n >= 10 {
        push_decimal(s, n / 10);
    }
    push_char(s, digit(n % 10));
    proof {
        lemma_decimal_reads_back(n as nat);
        assert(final(s)@.skip(old(s)@.len() as int) =~= decimal(n as nat));
        if n >= 10 {
            assert(decimal(n as nat) == decimal((n / 10) as nat).push(digit_char((n % 10) as nat)));
        }
    }
}

/// The text `'` + `text` + `'`.
pub fn quoted(text: &str) -> (r: String)
    ensures
        r@ == quoted_text(text@),
        r@.len() == text@.len() + 2,
        r@[0] == '\'',
        r@.last() == '\'',
        forall|i: int| 0 <= i < text@.len() ==> #[trigger] r@[i + 1] == text@[i],
{
    let mut r = String::new();
    push_char(&mut r, '\'');
    r.append(text);
    push_char(&mut r, '\'');
    proof {
        lemma_quoted_text_shape(text@);
    }
    r
}

} // verus!
