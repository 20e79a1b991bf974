use eventflow::state::{format_duration, ProcessingState};

#[test]
fn session_is_recorded_when_it_ends() {
    let mut state = ProcessingState::new();
    state.start_session(1000);
    assert_eq!(state.stats.sessions_count, 1);
    state.process_event(1005);
    state.process_event(1010);
    assert_eq!(state.total_events_processed, 2);
    state.end_session();
    assert_eq!(state.session_start, None);
    assert_eq!(state.session_last_event, None);
    assert_eq!(state.collected_spans.span_count(), 1);
    assert_eq!(state.collected_spans.earliest(), Some(1000));
    assert_eq!(state.collected_spans.latest(), Some(1010));
}

#[test]
fn session_without_events_records_nothing() {
    let mut state = ProcessingState::new();
    state.start_session(1000);
    state.end_session();
    assert_eq!(state.collected_spans.span_count(), 0);
    assert_eq!(state.session_start, None);
}

#[test]
fn checkpoint_keeps_session_open() {
    let mut state = ProcessingState::new();
    state.start_session(50);
    state.process_event(60);
    state.checkpoint_session();
    assert_eq!(state.session_start, Some(50));
    assert_eq!(state.session_last_event, Some(60));
    assert!(state.is_collected(55));
    assert!(!state.is_collected(61));
}

#[test]
fn gaps_and_filled_gaps() {
    let mut state = ProcessingState::new();
    state.mark_gap_filled(100, 200);
    state.mark_gap_filled(300, 400);
    assert_eq!(state.stats.total_gaps_filled, 2);
    assert_eq!(state.get_gaps(0, 500), vec![(0, 100), (200, 300), (400, 500)]);
}

#[test]
fn coverage_stats_text() {
    let mut state = ProcessingState::new();
    state.start_session(100);
    state.process_event(160);
    state.end_session();
    state.mark_gap_filled(300, 310);
    assert_eq!(
        state.get_coverage_stats(),
        "Total events: 1, Spans: 2, Coverage: 70 seconds, Sessions: 1"
    );
}

#[test]
fn duration_text() {
    assert_eq!(format_duration(0), " 0s");
    assert_eq!(format_duration(59), "59s");
    assert_eq!(format_duration(61), " 1m  1s");
    assert_eq!(format_duration(3600), " 1h  0m  0s");
    assert_eq!(format_duration(90061), " 1d  1h  1m  1s");
    assert_eq!(format_duration(86400 * 123), "123d  0h  0m  0s");
}
