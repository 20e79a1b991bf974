use eventflow::state::ProcessingState;
use nostr::Timestamp;

fn ts(n: u64) -> u64 {
    Timestamp::from(n).as_secs()
}

#[test]
fn test_should_continue_fetching_after_hitting_limit() {
    let mut state = ProcessingState::new();

    // Request 24 days
    let requested_start = ts(1757327684);
    let requested_end = ts(1759401284);

    // First fetch: got 10 events from the last 4 seconds
    let first_fetch_start = ts(1759401278);
    let first_fetch_end = ts(1759401282);
    state.collected_spans.add_span(first_fetch_start, first_fetch_end);

    let gaps = state.collected_spans.get_gaps(requested_start, requested_end);

    assert!(!gaps.is_empty(), "Should have remaining gaps to fetch");

    let remaining_gap = &gaps[0];
    let gap_duration = remaining_gap.end - remaining_gap.start;

    assert!(
        gap_duration > 2073000,
        "Remaining gap should be almost 24 days, got {} seconds",
        gap_duration
    );

    assert_eq!(remaining_gap.start, requested_start);
    assert_eq!(remaining_gap.end, first_fetch_start);
}

#[test]
fn test_iterative_fetch_simulation() {
    let mut state = ProcessingState::new();

    let requested_start = ts(1757327684);
    let requested_end = ts(1759401284);
    let total_duration = requested_end - requested_start;

    let mut iterations = 0;
    let mut current_coverage = 0u64;

    loop {
        let gaps = state.collected_spans.get_gaps(requested_start, requested_end);

        if gaps.is_empty() {
            break;
        }

        iterations += 1;

        let gap = &gaps[0];

        // We fetch and get events from the end of the gap, about 5 seconds.
        let fetch_duration = 5u64.min(gap.end - gap.start);
        let fetch_start = gap.end - fetch_duration;
        let fetch_end = gap.end;

        state.collected_spans.add_span(ts(fetch_start), ts(fetch_end));

        current_coverage += fetch_duration;

        if iterations > 100000 {
            panic!("Too many iterations - something is wrong");
        }

        if iterations >= 3 {
            break;
        }
    }

    let total_coverage = state.collected_spans.total_coverage_seconds();
    assert!(
        total_coverage >= 15 && total_coverage <= 20,
        "Should have fetched about 15 seconds, got {}",
        total_coverage
    );

    let remaining_gaps = state.collected_spans.get_gaps(requested_start, requested_end);
    assert!(!remaining_gaps.is_empty(), "Should still have gaps after 3 iterations");

    println!(
        "After {} iterations: covered {} of {} seconds ({:.2}%)",
        iterations,
        total_coverage,
        total_duration,
        (total_coverage as f64 / total_duration as f64) * 100.0
    );
    assert_eq!(current_coverage, 15);
}
