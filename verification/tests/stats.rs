use siamesedb::filedb::{KeysCountStats, RecordSizeStats};

#[test]
fn record_size_stats_empty_text() {
    let stats = RecordSizeStats::default();
    assert_eq!(stats.to_string(), "[]");
    let stats = RecordSizeStats::new(Vec::new());
    assert_eq!(stats.to_string(), "[]");
}

#[test]
fn record_size_stats_one_entry_text() {
    let stats = RecordSizeStats::new(vec![(32, 7)]);
    assert_eq!(stats.to_string(), "[(32, 7)]");
}

#[test]
fn record_size_stats_touch_inserts_in_order() {
    let mut stats = RecordSizeStats::new(Vec::new());
    stats.touch_size(100);
    stats.touch_size(50);
    stats.touch_size(200);
    stats.touch_size(100);
    stats.touch_size(150);
    assert_eq!(stats.to_string(), "[(50, 1), (100, 2), (150, 1), (200, 1)]");
}

#[test]
fn record_size_stats_touch_existing_counts_up() {
    let mut stats = RecordSizeStats::new(vec![(8, 1), (16, 9), (24, 3)]);
    stats.touch_size(16);
    assert_eq!(stats.to_string(), "[(8, 1), (16, 10), (24, 3)]");
    stats.touch_size(8);
    stats.touch_size(24);
    assert_eq!(stats.to_string(), "[(8, 2), (16, 10), (24, 4)]");
}

#[test]
fn record_size_stats_touch_ends() {
    let mut stats = RecordSizeStats::new(vec![(10, 1), (20, 1)]);
    stats.touch_size(5);
    stats.touch_size(30);
    stats.touch_size(0);
    stats.touch_size(u32::MAX);
    assert_eq!(
        stats.to_string(),
        "[(0, 1), (5, 1), (10, 1), (20, 1), (30, 1), (4294967295, 1)]"
    );
}

#[test]
fn record_size_stats_large_counts_print_in_decimal() {
    let mut stats = RecordSizeStats::new(vec![(1, u64::MAX - 1), (1000000, 0)]);
    stats.touch_size(1);
    assert_eq!(stats.to_string(), "[(1, 18446744073709551615), (1000000, 0)]");
}

#[test]
fn keys_count_stats_touch_and_text() {
    let mut stats = KeysCountStats::default();
    assert_eq!(stats.to_string(), "[]");
    stats.touch_size(3);
    stats.touch_size(1);
    stats.touch_size(3);
    stats.touch_size(3);
    assert_eq!(stats.to_string(), "[(1, 1), (3, 3)]");
    let mut stats = KeysCountStats::new(vec![(2, 5)]);
    stats.touch_size(4);
    assert_eq!(stats.to_string(), "[(2, 5), (4, 1)]");
}

#[test]
fn stats_total_counts_every_touch() {
    let mut stats = RecordSizeStats::default();
    let sizes = [7u32, 3, 7, 9, 3, 7, 1];
    for s in sizes {
        stats.touch_size(s);
    }
    // 7 touches: 1 x1, 3 x2, 7 x3, 9 x1
    assert_eq!(stats.to_string(), "[(1, 1), (3, 2), (7, 3), (9, 1)]");
}

#[test]
fn stats_do_not_depend_on_touch_order() {
    let mut one = RecordSizeStats::new(vec![(4, 2), (9, 1)]);
    one.touch_size(6);
    one.touch_size(9);
    let mut other = RecordSizeStats::new(vec![(4, 2), (9, 1)]);
    other.touch_size(9);
    other.touch_size(6);
    assert_eq!(one.to_string(), other.to_string());
    assert_eq!(one.to_string(), "[(4, 2), (6, 1), (9, 2)]");
}

#[test]
fn stats_of_a_sequence_of_touches() {
    let mut stats = RecordSizeStats::new(Vec::new());
    let xs = [5u32, 5, 0, 12, 5, 0, 7];
    for x in xs {
        stats.touch_size(x);
    }
    assert_eq!(stats.to_string(), "[(0, 2), (5, 3), (7, 1), (12, 1)]");
}
