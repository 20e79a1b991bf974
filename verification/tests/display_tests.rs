use eventflow::state::ProcessingState;

#[test]
fn display_lines_of_state() {
    let mut state = ProcessingState::new();
    state.start_session(1700000000);
    state.process_event(1700000100);
    state.end_session();
    state.start_session(1700003600);
    state.process_event(1700003700);
    let now = 1700003700;
    let lines = state.display_lines(now);
    let bar = "═".repeat(62);
    assert_eq!(lines[0], format!("╔{}╗", bar));
    assert_eq!(lines[3], format!("║ Total Events Processed: {:>36} ║", 2));
    assert_eq!(lines[4], format!("║ Total Sessions:         {:>36} ║", 2));
    assert_eq!(lines[7], "║ Current Session:                                              ║");
    assert_eq!(lines[8], format!("║   {:<60} ║", "Started: 2023-11-14 23:13:20"));
    assert_eq!(lines[9], format!("║   {:<60} ║", "Last Event: 2023-11-14 23:15:00"));
    assert_eq!(lines[10], format!("║   {:<60} ║", "Duration:  1m 40s"));
    assert_eq!(lines[13], format!("║   Time Spans Collected: {:>36} ║", 1));
    assert_eq!(lines[14], "║   Earliest: 2023-11-14 22:13:20                              ║");
    assert_eq!(lines[16], format!("║   Total Coverage: {:<42} ║", " 1m 40s"));
    assert_eq!(lines[19], format!("║   {:<58} ║", "1. 2023-11-14 22:13:20 to 2023-11-14 22:15:00"));
    assert_eq!(lines[20], format!("║   {:<58} ║", "   Duration:  1m 40s"));
    assert_eq!(lines[22], "║ Gaps in Last 7 Days:                                         ║");
    assert_eq!(lines[23], format!("║   {:<58} ║", "1. 2023-11-07 23:15:00 to 2023-11-14 22:13:20"));
    assert_eq!(lines[25], format!("║   {:<58} ║", "2. 2023-11-14 22:15:00 to 2023-11-14 23:15:00"));
    assert_eq!(lines[26], format!("║   {:<58} ║", "   Missing:  1h  0m  0s"));
    assert_eq!(lines.last().unwrap(), &format!("╚{}╝", bar));
    assert_eq!(lines.len(), 28);
}

#[test]
fn display_many_spans_is_cut() {
    let mut state = ProcessingState::new();
    for i in 0..12u64 {
        state.mark_gap_filled(1000 + i * 10, 1000 + i * 10 + 5);
    }
    let lines = state.display_lines(2000);
    assert!(lines.iter().any(|l| l == "║   ... and 2 more spans                                      ║"));
}
