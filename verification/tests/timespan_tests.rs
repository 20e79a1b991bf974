use eventflow::timespan::{TimeSpan, TimeSpanSet};
use nostr::Timestamp;

fn ts(n: u64) -> u64 {
    Timestamp::from(n).as_secs()
}

fn pairs(set: &TimeSpanSet) -> Vec<(u64, u64)> {
    set.spans().iter().map(|s| (s.start, s.end)).collect()
}

#[test]
fn test_merge_adjacent_spans() {
    let mut set = TimeSpanSet::new();
    set.add_span(ts(100), ts(200));
    set.add_span(ts(200), ts(300));

    assert_eq!(set.span_count(), 1);
    assert_eq!(set.spans()[0].start, ts(100));
    assert_eq!(set.spans()[0].end, ts(300));
}

#[test]
fn test_merge_overlapping_spans() {
    let mut set = TimeSpanSet::new();
    set.add_span(ts(100), ts(250));
    set.add_span(ts(200), ts(300));

    assert_eq!(set.span_count(), 1);
    assert_eq!(set.spans()[0].start, ts(100));
    assert_eq!(set.spans()[0].end, ts(300));
}

#[test]
fn test_get_gaps() {
    let mut set = TimeSpanSet::new();
    set.add_span(ts(100), ts(200));
    set.add_span(ts(300), ts(400));

    let gaps = set.get_gaps(ts(0), ts(500));
    assert_eq!(gaps.len(), 3);
    assert_eq!(gaps[0].start, ts(0));
    assert_eq!(gaps[0].end, ts(100));
    assert_eq!(gaps[1].start, ts(200));
    assert_eq!(gaps[1].end, ts(300));
    assert_eq!(gaps[2].start, ts(400));
    assert_eq!(gaps[2].end, ts(500));
}

#[test]
fn merging_span_keeps_later_spans() {
    // A span that swallows one span and stops before the next keeps both the
    // earlier and the later spans.
    let mut set = TimeSpanSet::new();
    set.add_span(1, 2);
    set.add_span(5, 6);
    set.add_span(10, 11);
    set.add_span(4, 9);
    assert_eq!(pairs(&set), vec![(1, 2), (4, 9), (10, 11)]);
}

#[test]
fn bridging_span_joins_neighbours() {
    let mut set = TimeSpanSet::new();
    set.add_span(10, 20);
    set.add_span(30, 40);
    set.add_span(20, 30);
    assert_eq!(pairs(&set), vec![(10, 40)]);
}

#[test]
fn spans_one_second_apart_stay_separate() {
    let mut set = TimeSpanSet::new();
    set.add_span(1, 1);
    set.add_span(2, 2);
    assert_eq!(pairs(&set), vec![(1, 1), (2, 2)]);
    // The second between them is a gap.
    let gaps = set.get_gaps(1, 2);
    assert_eq!(gaps, vec![TimeSpan { start: 1, end: 2 }]);
}

#[test]
fn adding_in_any_order_gives_same_spans() {
    let spans = [(50, 60), (10, 20), (15, 55), (70, 80), (81, 90)];
    let mut forward = TimeSpanSet::new();
    for (s, e) in spans.iter() {
        forward.add_span(*s, *e);
    }
    let mut backward = TimeSpanSet::new();
    for (s, e) in spans.iter().rev() {
        backward.add_span(*s, *e);
    }
    assert_eq!(pairs(&forward), pairs(&backward));
    assert_eq!(pairs(&forward), vec![(10, 60), (70, 80), (81, 90)]);
}

#[test]
fn adding_covered_span_changes_nothing() {
    let mut set = TimeSpanSet::new();
    set.add_span(10, 100);
    set.add_span(20, 30);
    assert_eq!(pairs(&set), vec![(10, 100)]);
}

#[test]
fn added_range_has_no_gaps() {
    let mut set = TimeSpanSet::new();
    set.add_span(100, 200);
    set.add_span(300, 400);
    set.add_span(150, 350);
    assert!(set.get_gaps(150, 350).is_empty());
    assert!(set.get_gaps(100, 400).is_empty());
}

#[test]
fn gaps_of_empty_set_and_empty_range() {
    let set = TimeSpanSet::new();
    assert_eq!(set.get_gaps(5, 9), vec![TimeSpan { start: 5, end: 9 }]);
    assert!(set.get_gaps(5, 5).is_empty());
    assert!(set.get_gaps(9, 5).is_empty());
}

#[test]
fn gaps_clip_to_range() {
    let mut set = TimeSpanSet::new();
    set.add_span(0, 10);
    set.add_span(20, 30);
    set.add_span(40, 50);
    assert_eq!(
        set.get_gaps(5, 45),
        vec![TimeSpan { start: 10, end: 20 }, TimeSpan { start: 30, end: 40 }]
    );
    assert_eq!(set.get_gaps(12, 18), vec![TimeSpan { start: 12, end: 18 }]);
}

#[test]
fn contains_and_bounds() {
    let mut set = TimeSpanSet::new();
    assert_eq!(set.earliest(), None);
    assert_eq!(set.latest(), None);
    set.add_span(100, 200);
    set.add_span(300, 400);
    assert!(set.contains(100));
    assert!(set.contains(200));
    assert!(!set.contains(250));
    assert!(set.contains(300));
    assert!(!set.contains(401));
    assert_eq!(set.earliest(), Some(100));
    assert_eq!(set.latest(), Some(400));
}

#[test]
fn total_coverage_sums_lengths() {
    let mut set = TimeSpanSet::new();
    assert_eq!(set.total_coverage_seconds(), 0);
    set.add_span(100, 200);
    set.add_span(300, 400);
    set.add_span(500, 500);
    assert_eq!(set.total_coverage_seconds(), 200);
    assert!(set.total_coverage_seconds() <= set.latest().unwrap() - set.earliest().unwrap());
}

#[test]
fn from_spans_normalizes() {
    let set = TimeSpanSet::from_spans(vec![
        TimeSpan { start: 30, end: 40 },
        TimeSpan { start: 1, end: 5 },
        TimeSpan { start: 5, end: 9 },
        TimeSpan { start: 35, end: 60 },
    ]);
    assert_eq!(pairs(&set), vec![(1, 9), (30, 60)]);
}

#[test]
fn span_operations() {
    let a = TimeSpan::new(10, 20);
    let b = TimeSpan::new(20, 30);
    let c = TimeSpan::new(21, 30);
    assert!(a.can_merge_with(&b));
    assert!(!a.can_merge_with(&c));
    assert_eq!(a.merge(&b), TimeSpan { start: 10, end: 30 });
    assert!(a.contains(10) && a.contains(20) && !a.contains(21));
}
