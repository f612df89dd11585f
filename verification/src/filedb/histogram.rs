//! A histogram kept as a vector of `(value, count)` entries sorted by value,
//! with one entry per value that was seen.

use vstd::prelude::*;
use crate::text::{
    decimal, digits_value, is_decimal_text, lemma_decimal_reads_back, push_char, push_decimal,
};

verus! {

/// Each value occurs once, and the entries are ordered by value.
pub open spec fn strictly_increasing(s: Seq<(u32, u64)>) -> bool {
    forall|i: int, j: int| 0 <= i < j < s.len() ==> s[i].0 < s[j].0
}

/// `i` is the place of `key` among the entries: those before it have smaller
/// values, those from it on have values at least `key`.
pub open spec fn is_insert_point(s: Seq<(u32, u64)>, key: u32, i: int) -> bool {
    &&& 0 <= i <= s.len()
    &&& forall|j: int| 0 <= j < i ==> #[trigger] s[j].0 < key
    &&& forall|j: int| i <= j < s.len() ==> key <= #[trigger] s[j].0
}

/// The place of `key` among the entries (for a sorted histogram, it exists
/// and is unique).
pub open spec fn insert_point(s: Seq<(u32, u64)>, key: u32) -> int {
    choose|i: int| is_insert_point(s, key, i)
}

/// The histogram after one more occurrence of `key`: the count of its entry
/// goes up by one, or a new entry `(key, 1)` stands at its place.
pub open spec fn touched(s: Seq<(u32, u64)>, key: u32) -> Seq<(u32, u64)> {
    let i = insert_point(s, key);
    if i < s.len() && s[i].0 == key {
        s.update(i, (key, (s[i].1 + 1) as u64))
    } else {
        s.insert(i, (key, 1u64))
    }
}

/// `key` has an entry in the histogram.
pub open spec fn has_value(s: Seq<(u32, u64)>, key: u32) -> bool {
    exists|i: int| 0 <= i < s.len() && #[trigger] s[i].0 == key
}

/// How many times `key` was counted: the count of its entry, or zero.
pub open spec fn count_of(s: Seq<(u32, u64)>, key: u32) -> nat {
    if has_value(s, key) {
        s[choose|i: int| 0 <= i < s.len() && #[trigger] s[i].0 == key].1 as nat
    } else {
        0
    }
}

/// The sum of all counts.
pub open spec fn total(s: Seq<(u32, u64)>) -> nat
    decreases s.len(),
{
    if s.len() == 0 {
        0
    } else {
        s[0].1 as nat + total(s.drop_first())
    }
}

/// No count of `key` is at its maximum.
pub open spec fn can_count(s: Seq<(u32, u64)>, key: u32) -> bool {
    forall|i: int| 0 <= i < s.len() && #[trigger] s[i].0 == key ==> s[i].1 < u64::MAX
}

/// The text of one entry: `(value, count)`.
pub open spec fn entry_text(e: (u32, u64)) -> Seq<char> {
    seq!['('] + decimal(e.0 as nat) + seq![',', ' '] + decimal(e.1 as nat) + seq![')']
}

/// The entries' texts, separated by `, `.
pub open spec fn entries_text(s: Seq<(u32, u64)>) -> Seq<char>
    decreases s.len(),
{
    if s.len() == 0 {
        Seq::empty()
    } else if s.len() == 1 {
        entry_text(s[0])
    } else {
        entries_text(s.drop_last()) + seq![',', ' '] + entry_text(s.last())
    }
}

/// The text of a histogram: `[(v1, c1), (v2, c2), ...]`.
pub open spec fn histogram_text(s: Seq<(u32, u64)>) -> Seq<char> {
    seq!['['] + entries_text(s) + seq![']']
}

/// An entry prints as `(`, its value in base 10, `, `, its count in base 10,
/// and `)`: the two numbers read back as the value and the count.
pub proof fn lemma_entry_text_reads_back(e: (u32, u64))
    ensures
        exists|x: Seq<char>, y: Seq<char>|
            {
                &&& is_decimal_text(x)
                &&& is_decimal_text(y)
                &&& digits_value(x) == e.0
                &&& digits_value(y) == e.1
                &&& entry_text(e) == seq!['('] + x + seq![',', ' '] + y + seq![')']
            },
{
    let x = decimal(e.0 as nat);
    let y = decimal(e.1 as nat);
    lemma_decimal_reads_back(e.0 as nat);
    lemma_decimal_reads_back(e.1 as nat);
    assert(entry_text(e) == seq!['('] + x + seq![',', ' '] + y + seq![')']);
}

/// The text of no entries is `[]`; one entry stands alone between brackets;
/// a further entry follows the others after `, `, before the closing bracket.
pub proof fn lemma_histogram_text_grows(s: Seq<(u32, u64)>, e: (u32, u64))
    ensures
        histogram_text(Seq::empty()) == seq!['[', ']'],
        histogram_text(seq![e]) == seq!['['] + entry_text(e) + seq![']'],
        s.len() > 0 ==> histogram_text(s.push(e)) == histogram_text(s).drop_last() + seq![
            ',',
            ' ',
        ] + entry_text(e) + seq![']'],
{
    assert(histogram_text(Seq::empty()) =~= seq!['[', ']']);
    assert(histogram_text(seq![e]) =~= seq!['['] + entry_text(e) + seq![']']);
    if s.len() > 0 {
        let t = s.push(e);
        assert(t.drop_last() =~= s);
        assert(histogram_text(s).drop_last() =~= seq!['['] + entries_text(s));
        assert(histogram_text(t) =~= histogram_text(s).drop_last() + seq![',', ' '] + entry_text(e)
            + seq![']']);
    }
}

/// A place of `key` is unique.
pub proof fn lemma_insert_point_unique(s: Seq<(u32, u64)>, key: u32, i: int, j: int)
    requires
        is_insert_point(s, key, i),
        is_insert_point(s, key, j),
    ensures
        i == j,
{
    if i < j {
        assert(s[i].0 < key);
    } else if j < i {
        assert(s[j].0 < key);
    }
}

/// Where `i` is the place of `key`, `insert_point` names it.
pub proof fn lemma_insert_point_is(s: Seq<(u32, u64)>, key: u32, i: int)
    requires
        is_insert_point(s, key, i),
    ensures
        insert_point(s, key) == i,
{
    lemma_insert_point_unique(s, key, insert_point(s, key), i);
}

/// Every sorted histogram has a place for every value.
pub proof fn lemma_insert_point_exists(s: Seq<(u32, u64)>, key: u32)
    requires
        strictly_increasing(s),
    ensures
        is_insert_point(s, key, insert_point(s, key)),
    decreases s.len(),
{
    if s.len() == 0 {
        assert(is_insert_point(s, key, 0));
    } else if s.last().0 < key {
        assert(is_insert_point(s, key, s.len() as int));
    } else {
        let t = s.drop_last();
        lemma_insert_point_exists(t, key);
        let i = insert_point(t, key);
        assert forall|j: int| 0 <= j < i implies #[trigger] s[j].0 < key by {
            assert(s[j] == t[j]);
        }
        assert forall|j: int| i <= j < s.len() implies key <= #[trigger] s[j].0 by {
            if j < t.len() {
                assert(s[j] == t[j]);
            }
        }
        assert(is_insert_point(s, key, i));
    }
}

/// In a sorted histogram, the count of a value is that of its entry.
pub proof fn lemma_count_of_entry(s: Seq<(u32, u64)>, i: int)
    requires
        strictly_increasing(s),
        0 <= i < s.len(),
    ensures
        has_value(s, s[i].0),
        count_of(s, s[i].0) == s[i].1,
{
    let key = s[i].0;
    assert(has_value(s, key));
    let j = choose|j: int| 0 <= j < s.len() && #[trigger] s[j].0 == key;
    if j < i {
        assert(s[j].0 < s[i].0);
    } else if i < j {
        assert(s[i].0 < s[j].0);
    }
}

/// The sum of the counts after one entry is replaced.
pub proof fn lemma_total_update(s: Seq<(u32, u64)>, i: int, e: (u32, u64))
    requires
        0 <= i < s.len(),
    ensures
        total(s.update(i, e)) + s[i].1 == total(s) + e.1,
    decreases s.len(),
{
    let u = s.update(i, e);
    if i > 0 {
        lemma_total_update(s.drop_first(), i - 1, e);
        assert(u.drop_first() =~= s.drop_first().update(i - 1, e));
    } else {
        assert(u.drop_first() =~= s.drop_first());
    }
}

/// The sum of the counts after one entry is inserted.
pub proof fn lemma_total_insert(s: Seq<(u32, u64)>, i: int, e: (u32, u64))
    requires
        0 <= i <= s.len(),
    ensures
        total(s.insert(i, e)) == total(s) + e.1,
    decreases s.len(),
{
    let u = s.insert(i, e);
    if i > 0 {
        lemma_total_insert(s.drop_first(), i - 1, e);
        assert(u.drop_first() =~= s.drop_first().insert(i - 1, e));
    } else {
        assert(u.drop_first() =~= s);
    }
}

/// Counting a value keeps a histogram sorted, with one entry per value.
pub proof fn lemma_touch_keeps_order(s: Seq<(u32, u64)>, key: u32)
    requires
        strictly_increasing(s),
    ensures
        strictly_increasing(touched(s, key)),
{
    lemma_insert_point_exists(s, key);
    let i = insert_point(s, key);
    let t = touched(s, key);
    if i < s.len() && s[i].0 == key {
        assert forall|a: int, b: int| 0 <= a < b < t.len() implies t[a].0 < t[b].0 by {
            assert(t[a].0 == s[a].0 && t[b].0 == s[b].0);
        }
    } else {
        assert forall|a: int, b: int| 0 <= a < b < t.len() implies t[a].0 < t[b].0 by {
            if b < i {
                assert(t[a] == s[a] && t[b] == s[b]);
            } else if b == i {
                assert(t[a] == s[a]);
            } else if a < i {
                assert(t[a] == s[a] && t[b] == s[b - 1]);
            } else if a == i {
                assert(t[b] == s[b - 1]);
                assert(key <= s[i].0);
                if b - 1 > i {
                    assert(s[i].0 < s[b - 1].0);
                }
            } else {
                assert(t[a] == s[a - 1] && t[b] == s[b - 1]);
            }
        }
    }
}

/// Counting `key` raises the count of `key` by one and leaves every other
/// count as it was.
pub proof fn lemma_touch_counts(s: Seq<(u32, u64)>, key: u32, other: u32)
    requires
        strictly_increasing(s),
        can_count(s, key),
    ensures
        count_of(touched(s, key), other) == count_of(s, other) + if other == key {
            1nat
        } else {
            0nat
        },
{
    lemma_insert_point_exists(s, key);
    lemma_touch_keeps_order(s, key);
    let i = insert_point(s, key);
    let t = touched(s, key);
    if i < s.len() && s[i].0 == key {
        lemma_count_of_entry(s, i);
        lemma_count_of_entry(t, i);
        if other != key {
            if has_value(s, other) {
                let j = choose|j: int| 0 <= j < s.len() && #[trigger] s[j].0 == other;
                lemma_count_of_entry(s, j);
                lemma_count_of_entry(t, j);
            } else if has_value(t, other) {
                let j = choose|j: int| 0 <= j < t.len() && #[trigger] t[j].0 == other;
                assert(s[j].0 == other);
            }
        }
    } else {
        lemma_count_of_entry(t, i);
        if other == key {
            if has_value(s, key) {
                let j = choose|j: int| 0 <= j < s.len() && #[trigger] s[j].0 == key;
                if j < i {
                    assert(s[j].0 < key);
                } else if j > i {
                    assert(s[i].0 < s[j].0);
                }
            }
        } else {
            if has_value(s, other) {
                let j = choose|j: int| 0 <= j < s.len() && #[trigger] s[j].0 == other;
                lemma_count_of_entry(s, j);
                if j < i {
                    assert(t[j] == s[j]);
                    lemma_count_of_entry(t, j);
                } else {
                    assert(t[j + 1] == s[j]);
                    lemma_count_of_entry(t, j + 1);
                }
            } else if has_value(t, other) {
                let j = choose|j: int| 0 <= j < t.len() && #[trigger] t[j].0 == other;
                if j < i {
                    assert(s[j].0 == other);
                } else if j > i {
                    assert(s[j - 1].0 == other);
                }
            }
        }
    }
}

/// Counting a value raises the sum of all counts by one.
pub proof fn lemma_touch_total(s: Seq<(u32, u64)>, key: u32)
    requires
        strictly_increasing(s),
        can_count(s, key),
    ensures
        total(touched(s, key)) == total(s) + 1,
{
    lemma_insert_point_exists(s, key);
    let i = insert_point(s, key);
    if i < s.len() && s[i].0 == key {
        lemma_total_update(s, i, (key, (s[i].1 + 1) as u64));
    } else {
        lemma_total_insert(s, i, (key, 1u64));
    }
}

/// Counting a value adds an entry exactly when the value had none.
pub proof fn lemma_touch_len(s: Seq<(u32, u64)>, key: u32)
    requires
        strictly_increasing(s),
    ensures
        touched(s, key).len() == s.len() + if has_value(s, key) {
            0int
        } else {
            1int
        },
{
    lemma_insert_point_exists(s, key);
    let i = insert_point(s, key);
    if has_value(s, key) {
        let j = choose|j: int| 0 <= j < s.len() && #[trigger] s[j].0 == key;
        if j < i {
            assert(s[j].0 < key);
        } else if j > i {
            assert(s[i].0 < s[j].0);
        }
    } else if i < s.len() && s[i].0 == key {
        assert(has_value(s, key));
    }
}

/// Counting `key` gives it an entry and keeps every other entry's value.
pub proof fn lemma_touch_values(s: Seq<(u32, u64)>, key: u32, other: u32)
    requires
        strictly_increasing(s),
    ensures
        has_value(touched(s, key), other) == (has_value(s, other) || other == key),
{
    lemma_insert_point_exists(s, key);
    let i = insert_point(s, key);
    let t = touched(s, key);
    if i < s.len() && s[i].0 == key {
        if has_value(s, other) {
            let j = choose|j: int| 0 <= j < s.len() && #[trigger] s[j].0 == other;
            assert(t[j].0 == other);
        }
        if has_value(t, other) {
            let j = choose|j: int| 0 <= j < t.len() && #[trigger] t[j].0 == other;
            assert(s[j].0 == other);
        }
    } else {
        assert(t[i].0 == key);
        if has_value(s, other) {
            let j = choose|j: int| 0 <= j < s.len() && #[trigger] s[j].0 == other;
            if j < i {
                assert(t[j].0 == other);
            } else {
                assert(t[j + 1].0 == other);
            }
        }
        if has_value(t, other) && other != key {
            let j = choose|j: int| 0 <= j < t.len() && #[trigger] t[j].0 == other;
            if j < i {
                assert(s[j].0 == other);
            } else if j > i {
                assert(s[j - 1].0 == other);
            }
        }
    }
}

/// Two sorted histograms with the same values and the same counts are the
/// same.
pub proof fn lemma_same_counts_same_histogram(s: Seq<(u32, u64)>, t: Seq<(u32, u64)>)
    requires
        strictly_increasing(s),
        strictly_increasing(t),
        forall|k: u32| #[trigger] has_value(s, k) == has_value(t, k),
        forall|k: u32| #[trigger] count_of(s, k) == count_of(t, k),
    ensures
        s == t,
    decreases s.len(),
{
    if s.len() == 0 {
        if t.len() > 0 {
            assert(has_value(t, t[0].0));
            assert(has_value(s, t[0].0) == has_value(t, t[0].0));
        }
        assert(s =~= t);
    } else {
        assert(has_value(s, s[0].0));
        assert(t.len() > 0);
        assert(has_value(t, t[0].0));
        let a = s[0].0;
        let b = t[0].0;
        assert(has_value(t, a));
        assert(has_value(s, b));
        let ja = choose|j: int| 0 <= j < t.len() && #[trigger] t[j].0 == a;
        let jb = choose|j: int| 0 <= j < s.len() && #[trigger] s[j].0 == b;
        if ja > 0 {
            assert(t[0].0 < t[ja].0);
        }
        if jb > 0 {
            assert(s[0].0 < s[jb].0);
        }
        assert(a == b);
        lemma_count_of_entry(s, 0);
        lemma_count_of_entry(t, 0);
        assert(count_of(s, a) == count_of(t, a));
        let s1 = s.drop_first();
        let t1 = t.drop_first();
        assert forall|k: u32| #[trigger] has_value(s1, k) == has_value(t1, k) by {
            if has_value(s1, k) {
                let j = choose|j: int| 0 <= j < s1.len() && #[trigger] s1[j].0 == k;
                assert(s[j + 1].0 == k);
                assert(has_value(s, k));
                assert(has_value(s, k) == has_value(t, k));
                assert(k != a);
                let m = choose|m: int| 0 <= m < t.len() && #[trigger] t[m].0 == k;
                assert(m != 0);
                assert(t1[m - 1].0 == k);
            }
            if has_value(t1, k) {
                let j = choose|j: int| 0 <= j < t1.len() && #[trigger] t1[j].0 == k;
                assert(t[j + 1].0 == k);
                assert(has_value(t, k));
                assert(has_value(s, k) == has_value(t, k));
                assert(k != a);
                let m = choose|m: int| 0 <= m < s.len() && #[trigger] s[m].0 == k;
                assert(m != 0);
                assert(s1[m - 1].0 == k);
            }
        }
        assert forall|k: u32| #[trigger] count_of(s1, k) == count_of(t1, k) by {
            if has_value(s1, k) {
                let j = choose|j: int| 0 <= j < s1.len() && #[trigger] s1[j].0 == k;
                let m = choose|m: int| 0 <= m < t1.len() && #[trigger] t1[m].0 == k;
                lemma_count_of_entry(s1, j);
                lemma_count_of_entry(t1, m);
                lemma_count_of_entry(s, j + 1);
                lemma_count_of_entry(t, m + 1);
                assert(s[j + 1] == s1[j]);
                assert(t[m + 1] == t1[m]);
            } else {
                assert(!has_value(t1, k));
            }
        }
        lemma_same_counts_same_histogram(s1, t1);
        assert(s =~= seq![s[0]] + s1);
        assert(t =~= seq![t[0]] + t1);
    }
}

/// The statistics do not depend on the order in which values are counted.
pub proof fn lemma_touch_commutes(s: Seq<(u32, u64)>, a: u32, b: u32)
    requires
        strictly_increasing(s),
        count_of(s, a) + 2 <= u64::MAX,
        count_of(s, b) + 2 <= u64::MAX,
    ensures
        touched(touched(s, a), b) == touched(touched(s, b), a),
{
    lemma_can_count(s, a);
    lemma_can_count(s, b);
    let sa = touched(s, a);
    let sb = touched(s, b);
    lemma_touch_keeps_order(s, a);
    lemma_touch_keeps_order(s, b);
    lemma_touch_counts(s, a, b);
    lemma_touch_counts(s, b, a);
    lemma_can_count(sa, b);
    lemma_can_count(sb, a);
    let x = touched(sa, b);
    let y = touched(sb, a);
    lemma_touch_keeps_order(sa, b);
    lemma_touch_keeps_order(sb, a);
    assert forall|k: u32| #[trigger] has_value(x, k) == has_value(y, k) by {
        lemma_touch_values(s, a, k);
        lemma_touch_values(s, b, k);
        lemma_touch_values(sa, b, k);
        lemma_touch_values(sb, a, k);
    }
    assert forall|k: u32| #[trigger] count_of(x, k) == count_of(y, k) by {
        lemma_touch_counts(s, a, k);
        lemma_touch_counts(s, b, k);
        lemma_touch_counts(sa, b, k);
        lemma_touch_counts(sb, a, k);
    }
    lemma_same_counts_same_histogram(x, y);
}

/// In a sorted histogram, a count below the maximum can grow.
pub proof fn lemma_can_count(s: Seq<(u32, u64)>, key: u32)
    requires
        strictly_increasing(s),
        count_of(s, key) < u64::MAX,
    ensures
        can_count(s, key),
{
    assert forall|i: int| 0 <= i < s.len() && #[trigger] s[i].0 == key implies s[i].1
        < u64::MAX by {
        lemma_count_of_entry(s, i);
    }
}

/// How many times `k` occurs in `xs`.
pub open spec fn occurrences(xs: Seq<u32>, k: u32) -> nat
    decreases xs.len(),
{
    if xs.len() == 0 {
        0
    } else {
        occurrences(xs.drop_last(), k) + if xs.last() == k {
            1nat
        } else {
            0nat
        }
    }
}

/// The histogram `s` after counting each value of `xs`, in order.
pub open spec fn touched_all(s: Seq<(u32, u64)>, xs: Seq<u32>) -> Seq<(u32, u64)>
    decreases xs.len(),
{
    if xs.len() == 0 {
        s
    } else {
        touched(touched_all(s, xs.drop_last()), xs.last())
    }
}

/// A value occurs at most as often as there are values.
pub proof fn lemma_occurrences_bound(xs: Seq<u32>, k: u32)
    ensures
        occurrences(xs, k) <= xs.len(),
    decreases xs.len(),
{
    if xs.len() > 0 {
        lemma_occurrences_bound(xs.drop_last(), k);
    }
}

/// Counting the values of `xs` one by one, from no entry, gives the sorted
/// histogram of `xs`: one entry per value that occurs, with the number of
/// its occurrences, and no other entry.
pub proof fn lemma_histogram_of_touches(xs: Seq<u32>)
    requires
        xs.len() < u64::MAX,
    ensures
        strictly_increasing(touched_all(Seq::empty(), xs)),
        forall|k: u32|
            #[trigger] count_of(touched_all(Seq::empty(), xs), k) == occurrences(xs, k),
        forall|k: u32|
            #[trigger] has_value(touched_all(Seq::empty(), xs), k) == (occurrences(xs, k) > 0),
        total(touched_all(Seq::empty(), xs)) == xs.len(),
    decreases xs.len(),
{
    let e = Seq::<(u32, u64)>::empty();
    if xs.len() == 0 {
        assert(total(e) == 0);
    } else {
        let ys = xs.drop_last();
        let x = xs.last();
        lemma_histogram_of_touches(ys);
        let h = touched_all(e, ys);
        lemma_occurrences_bound(ys, x);
        assert(count_of(h, x) == occurrences(ys, x));
        lemma_can_count(h, x);
        lemma_touch_keeps_order(h, x);
        lemma_touch_total(h, x);
        assert forall|k: u32|
            #[trigger] count_of(touched_all(e, xs), k) == occurrences(xs, k) by {
            lemma_touch_counts(h, x, k);
            assert(count_of(h, k) == occurrences(ys, k));
        }
        assert forall|k: u32|
            #[trigger] has_value(touched_all(e, xs), k) == (occurrences(xs, k) > 0) by {
            lemma_touch_values(h, x, k);
            assert(has_value(h, k) == (occurrences(ys, k) > 0));
        }
    }
}

/// Records one more occurrence of `key` in the histogram `v`.
pub fn touch_histogram(v: &mut Vec<(u32, u64)>, key: u32)
    requires
        strictly_increasing(old(v)@),
        can_count(old(v)@, key),
        old(v)@.len() < usize::MAX,
    ensures
        final(v)@ == touched(old(v)@, key),
        strictly_increasing(final(v)@),
        forall|k: u32|
            #[trigger] count_of(final(v)@, k) == count_of(old(v)@, k) + if k == key {
                1nat
            } else {
                0nat
            },
        forall|k: u32| #[trigger] has_value(final(v)@, k) == (has_value(old(v)@, k) || k == key),
        total(final(v)@) == total(old(v)@) + 1,
{
    let ghost s = v@;
    let mut lo: usize = 0;
    let mut hi: usize = v.len();
    while lo < hi
        invariant
            v@ == s,
            strictly_increasing(s),
            0 <= lo <= hi <= s.len(),
            forall|j: int| 0 <= j < lo ==> #[trigger] s[j].0 < key,
            forall|j: int| hi <= j < s.len() ==> key <= #[trigger] s[j].0,
        decreases hi - lo,
    {
        let mid = lo + (hi - lo) / 2;
        if v[mid].0 < key {
            lo = mid + 1;
        } else {
            hi = mid;
        }
    }
    proof {
        assert(is_insert_point(s, key, lo as int));
        lemma_insert_point_is(s, key, lo as int);
    }
    if lo < v.len() && v[lo].0 == key {
        let count = v[lo].1;
        v.set(lo, (key, count + 1));
    } else {
        v.insert(lo, (key, 1));
    }
    proof {
        lemma_touch_keeps_order(s, key);
        lemma_touch_total(s, key);
        assert forall|k: u32|
            #[trigger] count_of(v@, k) == count_of(s, k) + if k == key {
                1nat
            } else {
                0nat
            } by {
            lemma_touch_counts(s, key, k);
        }
        assert forall|k: u32| #[trigger] has_value(v@, k) == (has_value(s, k) || k == key) by {
            lemma_touch_values(s, key, k);
        }
    }
}

/// The text of the histogram `s`, as the statistics print it.
pub fn histogram_string(s: &Vec<(u32, u64)>) -> (r: String)
    ensures
        r@ == histogram_text(s@),
{
    let mut r = String::new();
    push_char(&mut r, '[');
    let n = s.len();
    let mut i: usize = 0;
    while i < n
        invariant
            n == s@.len(),
            0 <= i <= n,
            r@ == seq!['['] + entries_text(s@.take(i as int)),
        decreases n - i,
    {
        let ghost before = r@;
        if i > 0 {
            push_char(&mut r, ',');
            push_char(&mut r, ' ');
        }
        let (value, count) = s[i];
        push_char(&mut r, '(');
        push_decimal(&mut r, value as u64);
        push_char(&mut r, ',');
        push_char(&mut r, ' ');
        push_decimal(&mut r, count);
        push_char(&mut r, ')');
        proof {
            let t = s@.take(i + 1);
            assert(t.drop_last() =~= s@.take(i as int));
            assert(t.last() == s@[i as int]);
            assert(r@ =~= seq!['['] + entries_text(t));
        }
        i += 1;
    }
    push_char(&mut r, ']');
    proof {
        assert(s@.take(n as int) =~= s@);
    }
    r
}

} // verus!
