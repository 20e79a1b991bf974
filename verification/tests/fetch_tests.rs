use eventflow::fetcher::{
    combine_gap_results, combine_step_results, mark_fetched_gap, record_fetched_gap, step_windows, time_range, FetchResult,
};
use eventflow::relay_manager::{continuous_window, effective_step_seconds, plan_run, RunPlan};
use eventflow::relay_router::{gap_fill_range, gap_query, request_limit, should_fetch_again};
use eventflow::cli::{parse_duration, FetchMode};
use eventflow::state::ProcessingState;
use eventflow::timespan::TimeSpan;

#[test]
fn fetched_events_mark_only_their_range() {
    let mut state = ProcessingState::new();
    let mut result = FetchResult::begun();
    let gap = TimeSpan::new(1000, 2000);
    let marked = record_fetched_gap(&mut state, &gap, &vec![1950, 1990, 1960], &mut result);
    assert_eq!(marked, TimeSpan { start: 1950, end: 1990 });
    assert_eq!(state.collected_spans.get_gaps(1000, 2000), vec![TimeSpan { start: 1000, end: 1950 }, TimeSpan { start: 1990, end: 2000 }]);
    assert_eq!(state.total_events_processed, 3);
    assert_eq!(result.events_count, 3);
    assert_eq!(result.spans_processed, vec![TimeSpan { start: 1950, end: 1990 }]);
    assert!(result.fetched);
}

#[test]
fn empty_fetch_marks_whole_gap() {
    let mut state = ProcessingState::new();
    let mut result = FetchResult::begun();
    let gap = TimeSpan::new(1000, 2000);
    let marked = record_fetched_gap(&mut state, &gap, &vec![], &mut result);
    assert_eq!(marked, gap);
    assert!(state.collected_spans.get_gaps(1000, 2000).is_empty());
    assert_eq!(result.events_count, 0);
}

#[test]
fn time_range_of_instants() {
    assert_eq!(time_range(&vec![]), None);
    assert_eq!(time_range(&vec![5, 3, 9, 4]), Some(TimeSpan { start: 3, end: 9 }));
}

#[test]
fn combining_results() {
    let a = FetchResult { fetched: true, events_count: 3, spans_processed: vec![TimeSpan::new(1, 2)] };
    let b = FetchResult::nothing();
    let c = FetchResult { fetched: true, events_count: 4, spans_processed: vec![TimeSpan::new(5, 6), TimeSpan::new(8, 9)] };
    let all = combine_gap_results(&vec![a, b, c]);
    assert!(all.fetched);
    assert_eq!(all.events_count, 7);
    assert_eq!(all.spans_processed.len(), 3);
    let none = combine_gap_results(&vec![FetchResult::nothing(), FetchResult::begun()]);
    assert!(!none.fetched);
    let steps = combine_step_results(&vec![FetchResult::nothing(), FetchResult::begun()]);
    assert!(steps.fetched);
    assert_eq!(steps.events_count, 0);
}

#[test]
fn windows_cut_range() {
    assert_eq!(
        step_windows(0, 250, 100),
        vec![TimeSpan::new(0, 100), TimeSpan::new(100, 200), TimeSpan::new(200, 250)]
    );
    assert!(step_windows(10, 10, 5).is_empty());
    assert!(step_windows(20, 10, 5).is_empty());
    assert!(step_windows(20, 10, 0).is_empty());
    assert_eq!(
        step_windows(u64::MAX - 10, u64::MAX, 8),
        vec![TimeSpan::new(u64::MAX - 10, u64::MAX - 2), TimeSpan::new(u64::MAX - 2, u64::MAX)]
    );
}

#[test]
fn router_decisions() {
    let r = FetchResult { fetched: true, events_count: 500, spans_processed: vec![] };
    assert!(should_fetch_again(&r, 500));
    assert!(!should_fetch_again(&r, 501));
    assert!(!should_fetch_again(&FetchResult::nothing(), 0));
    let mut state = ProcessingState::new();
    assert_eq!(gap_fill_range(&state.collected_spans), None);
    state.collected_spans.add_span(10, 20);
    state.collected_spans.add_span(40, 50);
    assert_eq!(gap_fill_range(&state.collected_spans), Some((10, 50)));
}

#[test]
fn manager_decisions() {
    assert_eq!(plan_run(true, &FetchMode::NoFetch), RunPlan::StreamOnly);
    assert_eq!(plan_run(false, &FetchMode::Gaps), RunPlan::FetchOnly);
    assert_eq!(plan_run(true, &FetchMode::Continuous), RunPlan::StreamAndFetch);
    assert_eq!(effective_step_seconds(&parse_duration("10s").unwrap()), 60);
    assert_eq!(effective_step_seconds(&parse_duration("2h").unwrap()), 7200);
    assert_eq!(continuous_window(1609459200 + 100, 3600), (1609459200 + 100 - 3600, true));
    assert_eq!(continuous_window(1700000000, 3600), (1699996400, false));
    assert_eq!(continuous_window(10, 3600), (0, true));
}

#[test]
fn fetch_cut_at_limit_leaves_rest_of_gap() {
    let mut state = ProcessingState::new();
    let marked = mark_fetched_gap(&mut state, &TimeSpan::new(100, 200), &vec![190, 150, 170]);
    assert_eq!(marked, TimeSpan::new(150, 190));
    assert_eq!(state.total_events_processed, 3);
    assert_eq!(state.get_gaps(100, 200), vec![(100, 150), (190, 200)]);
    assert!(!state.is_collected(120));
    assert!(state.is_collected(160));
}

#[test]
fn empty_fetch_marks_gap_whole() {
    let mut state = ProcessingState::new();
    let marked = mark_fetched_gap(&mut state, &TimeSpan::new(5, 9), &vec![]);
    assert_eq!(marked, TimeSpan::new(5, 9));
    assert!(state.is_collected(7));
    assert_eq!(state.total_events_processed, 0);
    assert!(state.get_gaps(5, 9).is_empty());
}

#[test]
fn gap_queries() {
    let q = gap_query(&TimeSpan::new(100, 200), Some(500));
    assert_eq!((q.since, q.until, q.limit), (Some(100), Some(200), Some(500)));
    assert!(q.authors.is_none() && q.kinds.is_none() && q.tags.is_empty());
    assert_eq!(gap_query(&TimeSpan::new(1, 2), None).limit, None);
    assert_eq!(request_limit(0), None);
    assert_eq!(request_limit(25), Some(25));
}
