//! The decisions of fetching: what one fetch of a gap does to the state, how
//! the results of several fetches add up, and how a range is cut into steps.
//! The requests to the relays are made by the program.

use vstd::prelude::*;

use crate::state::ProcessingState;
use crate::timespan::{canonical, same_coverage, span_wf, TimeSpan};

verus! {

/// What a round of fetching did.
pub struct FetchResult {
    /// Whether anything was fetched at all.
    pub fetched: bool,
    /// How many events were fetched.
    pub events_count: u64,
    /// The spans marked as collected, in order.
    pub spans_processed: Vec<TimeSpan>,
}

impl FetchResult {
    /// Nothing was fetched: the range was already collected.
    pub fn nothing() -> (r: FetchResult)
        ensures
            !r.fetched,
            r.events_count == 0,
            r.spans_processed@.len() == 0,
    {
        FetchResult { fetched: false, events_count: 0, spans_processed: Vec::new() }
    }

    /// Fetching has begun on some gaps; nothing is counted yet.
    pub fn begun() -> (r: FetchResult)
        ensures
            r.fetched,
            r.events_count == 0,
            r.spans_processed@.len() == 0,
    {
        FetchResult { fetched: true, events_count: 0, spans_processed: Vec::new() }
    }
}

/// The smallest and largest of the instants, as a span.
pub open spec fn instants_hull(times: Seq<u64>, s: TimeSpan) -> bool {
    &&& exists|i: int| 0 <= i < times.len() && times[i] == s.start
    &&& exists|i: int| 0 <= i < times.len() && times[i] == s.end
    &&& forall|i: int| 0 <= i < times.len() ==> s.start <= #[trigger] times[i] <= s.end
}

/// The span from the earliest to the latest of the instants, if there are any.
pub fn time_range(times: &Vec<u64>) -> (r: Option<TimeSpan>)
    ensures
        times@.len() == 0 <==> r is None,
        r matches Some(s) ==> instants_hull(times@, s) && span_wf(s),
{
    if times.len() == 0 {
        return None;
    }
    let mut lo = times[0];
    let mut hi = times[0];
    let mut i: usize = 1;
    while i < times.len()
        invariant
            1 <= i <= times@.len(),
            lo <= hi,
            exists|k: int| 0 <= k < i && times@[k] == lo,
            exists|k: int| 0 <= k < i && times@[k] == hi,
            forall|k: int| 0 <= k < i ==> lo <= #[trigger] times@[k] <= hi,
        decreases times.len() - i,
    {
        if times[i] < lo {
            lo = times[i];
        }
        if times[i] > hi {
            hi = times[i];
        }
        i = i + 1;
    }
    Some(TimeSpan { start: lo, end: hi })
}

/// The span that one fetch of `gap` marks as collected: the range of the
/// events it returned, or the whole gap when it returned none.
pub open spec fn marked_span(gap: TimeSpan, times: Seq<u64>, s: TimeSpan) -> bool {
    if times.len() == 0 {
        s == gap
    } else {
        instants_hull(times, s)
    }
}

/// Records in the state a fetch of `gap` that returned events created at
/// `created_at`: only the range the events cover is marked as collected, or the whole gap when none came back, so that what a relay left
/// out at its limit is still reported as a gap.
pub fn mark_fetched_gap(state: &mut ProcessingState, gap: &TimeSpan, created_at: &Vec<u64>) -> (marked: TimeSpan)
    requires
        span_wf(*gap),
        old(state).total_events_processed + created_at@.len() <= u64::MAX,
    ensures
        marked_span(*gap, created_at@, marked),
        span_wf(marked),
        canonical(final(state).collected_spans@),
        same_coverage(final(state).collected_spans@, old(state).collected_spans@.push(marked)),
        final(state).total_events_processed == old(state).total_events_processed + created_at@.len(),
        final(state).session_start == old(state).session_start,
        final(state).session_last_event == old(state).session_last_event,
        final(state).stats == old(state).stats,
{
    let marked = match time_range(created_at) {
        Some(s) => s,
        None => *gap,
    };
    state.collected_spans.add_span(marked.start, marked.end);
    state.total_events_processed = state.total_events_processed + created_at.len() as u64;
    marked
}

/// Records one successful fetch of `gap` that returned events created at
/// `created_at`: only the range the events actually cover is marked, or the
/// whole gap when there were none, since a relay may stop at its limit.
pub fn record_fetched_gap(
    state: &mut ProcessingState,
    gap: &TimeSpan,
    created_at: &Vec<u64>,
    result: &mut FetchResult,
) -> (marked: TimeSpan)
    requires
        span_wf(*gap),
        old(state).total_events_processed + created_at@.len() <= u64::MAX,
        old(result).events_count + created_at@.len() <= u64::MAX,
    ensures
        marked_span(*gap, created_at@, marked),
        span_wf(marked),
        canonical(final(state).collected_spans@),
        same_coverage(final(state).collected_spans@, old(state).collected_spans@.push(marked)),
        final(state).total_events_processed == old(state).total_events_processed + created_at@.len(),
        final(state).session_start == old(state).session_start,
        final(state).session_last_event == old(state).session_last_event,
        final(state).stats == old(state).stats,
        final(result).spans_processed@ == old(result).spans_processed@.push(marked),
        final(result).events_count == old(result).events_count + created_at@.len(),
        final(result).fetched == old(result).fetched,
{
    let marked = mark_fetched_gap(state, gap, created_at);
    result.spans_processed.push(marked);
    result.events_count = result.events_count + created_at.len() as u64;
    marked
}

/// The events counted by the parts that fetched something.
pub open spec fn fetched_events(parts: Seq<FetchResult>) -> int
    decreases parts.len(),
{
    if parts.len() == 0 {
        0
    } else {
        fetched_events(parts.drop_last()) + (if parts.last().fetched { parts.last().events_count as int } else { 0 })
    }
}

/// The spans of the parts that fetched something, in order.
pub open spec fn fetched_spans(parts: Seq<FetchResult>) -> Seq<TimeSpan>
    decreases parts.len(),
{
    if parts.len() == 0 {
        Seq::empty()
    } else {
        fetched_spans(parts.drop_last()) + (if parts.last().fetched { parts.last().spans_processed@ } else { Seq::empty() })
    }
}

proof fn lemma_fetched_events_prefix(parts: Seq<FetchResult>, i: int)
    requires
        0 <= i <= parts.len(),
    ensures
        0 <= fetched_events(parts.subrange(0, i)) <= fetched_events(parts),
    decreases parts.len(),
{
    if parts.len() > 0 {
        if i == parts.len() {
            assert(parts.subrange(0, i) == parts);
            lemma_fetched_events_prefix(parts.drop_last(), parts.len() - 1);
            assert(parts.drop_last().subrange(0, parts.len() - 1) == parts.drop_last());
        } else {
            lemma_fetched_events_prefix(parts.drop_last(), i);
            assert(parts.drop_last().subrange(0, i) == parts.subrange(0, i));
        }
    } else {
        assert(parts.subrange(0, i) == parts);
    }
}

/// Combining two runs of fetches one after the other gives the spans and the
/// events of the first run followed by those of the second.
pub proof fn law_fetched_runs_concatenate(a: Seq<FetchResult>, b: Seq<FetchResult>)
    ensures
        fetched_spans(a + b) == fetched_spans(a) + fetched_spans(b),
        fetched_events(a + b) == fetched_events(a) + fetched_events(b),
    decreases b.len(),
{
    if b.len() == 0 {
        assert(a + b =~= a);
        assert(fetched_spans(a) + fetched_spans(b) =~= fetched_spans(a));
    } else {
        law_fetched_runs_concatenate(a, b.drop_last());
        assert((a + b).drop_last() =~= a + b.drop_last());
        assert((a + b).last() == b.last());
        assert(fetched_spans(a + b) =~= fetched_spans(a) + fetched_spans(b));
    }
}

/// Every span that a part which fetched something marked is reported in the
/// combined spans, whatever number of events that part counted; so a round
/// in which some fetch marked a span is reported as having fetched.
pub proof fn law_every_marked_span_is_reported(parts: Seq<FetchResult>, i: int, j: int)
    requires
        0 <= i < parts.len(),
        parts[i].fetched,
        0 <= j < parts[i].spans_processed@.len(),
    ensures
        fetched_spans(parts).contains(parts[i].spans_processed@[j]),
        fetched_spans(parts).len() > 0,
    decreases parts.len(),
{
    let x = parts[i].spans_processed@[j];
    if i == parts.len() - 1 {
        let head = fetched_spans(parts.drop_last());
        assert(fetched_spans(parts) == head + parts[i].spans_processed@);
        assert(fetched_spans(parts)[head.len() + j] == x);
    } else {
        law_every_marked_span_is_reported(parts.drop_last(), i, j);
        let head = fetched_spans(parts.drop_last());
        let k = choose|k: int| 0 <= k < head.len() && head[k] == x;
        assert(fetched_spans(parts)[k] == x);
    }
}

/// Adds up the parts that fetched something.
fn add_up(parts: &Vec<FetchResult>) -> (r: FetchResult)
    requires
        fetched_events(parts@) <= u64::MAX,
    ensures
        r.events_count == fetched_events(parts@),
        r.spans_processed@ == fetched_spans(parts@),
        r.fetched == exists|i: int| 0 <= i < parts@.len() && (#[trigger] parts@[i]).fetched,
{
    let mut events: u64 = 0;
    let mut spans: Vec<TimeSpan> = Vec::new();
    let mut any = false;
    let mut i: usize = 0;
    while i < parts.len()
        invariant
            i <= parts@.len(),
            fetched_events(parts@) <= u64::MAX,
            events == fetched_events(parts@.subrange(0, i as int)),
            spans@ == fetched_spans(parts@.subrange(0, i as int)),
            any == exists|k: int| 0 <= k < i && (#[trigger] parts@[k]).fetched,
        decreases parts.len() - i,
    {
        proof {
            assert(parts@.subrange(0, i as int + 1).drop_last() == parts@.subrange(0, i as int));
            lemma_fetched_events_prefix(parts@, i as int + 1);
        }
        if parts[i].fetched {
            events = events + parts[i].events_count;
            let mut j: usize = 0;
            let ghost before = spans@;
            while j < parts[i].spans_processed.len()
                invariant
                    i < parts@.len(),
                    j <= parts@[i as int].spans_processed@.len(),
                    spans@ == before + parts@[i as int].spans_processed@.subrange(0, j as int),
                decreases parts@[i as int].spans_processed@.len() - j,
            {
                spans.push(parts[i].spans_processed[j]);
                j = j + 1;
                proof {
                    assert(spans@ =~= before + parts@[i as int].spans_processed@.subrange(0, j as int));
                }
            }
            proof {
                assert(parts@[i as int].spans_processed@.subrange(0, j as int) =~= parts@[i as int].spans_processed@);
            }
            any = true;
        } else {
            proof {
                assert(spans@ =~= spans@ + Seq::<TimeSpan>::empty());
            }
        }
        i = i + 1;
    }
    proof {
        assert(parts@.subrange(0, parts@.len() as int) == parts@);
    }
    FetchResult { fetched: any, events_count: events, spans_processed: spans }
}

/// The result of fetching a list of gaps one after the other: the events and
/// spans of the fetches that did something, and fetched when any span was
/// marked.
pub fn combine_gap_results(parts: &Vec<FetchResult>) -> (r: FetchResult)
    requires
        fetched_events(parts@) <= u64::MAX,
    ensures
        r.events_count == fetched_events(parts@),
        r.spans_processed@ == fetched_spans(parts@),
        r.fetched == (fetched_spans(parts@).len() > 0),
{
    let total = add_up(parts);
    let fetched = total.spans_processed.len() > 0;
    FetchResult { fetched, events_count: total.events_count, spans_processed: total.spans_processed }
}

/// The result of fetching a range step by step: the events and spans of the
/// steps that did something, and fetched when any step did.
pub fn combine_step_results(parts: &Vec<FetchResult>) -> (r: FetchResult)
    requires
        fetched_events(parts@) <= u64::MAX,
    ensures
        r.events_count == fetched_events(parts@),
        r.spans_processed@ == fetched_spans(parts@),
        r.fetched == exists|i: int| 0 <= i < parts@.len() && (#[trigger] parts@[i]).fetched,
{
    add_up(parts)
}

/// `windows` cuts `[start, end]` into consecutive steps of `step` seconds,
/// the last one possibly shorter.
pub open spec fn step_windows_of(start: int, end: int, step: int, windows: Seq<TimeSpan>) -> bool {
    &&& start >= end ==> windows.len() == 0
    &&& start < end ==> {
        &&& windows.len() > 0
        &&& windows[0].start == start
        &&& windows.last().end == end
        &&& forall|i: int| 0 <= i < windows.len() - 1 ==> #[trigger] windows[i].end == windows[i + 1].start
        &&& forall|i: int| 0 <= i < windows.len() ==> (#[trigger] windows[i]).start < windows[i].end
            && windows[i].end == (if windows[i].start + step <= end { windows[i].start + step } else { end })
    }
}

/// Cuts `[start, end]` into steps of `step` seconds, for fetching a long range
/// piece by piece.
pub fn step_windows(start: u64, end: u64, step: u64) -> (windows: Vec<TimeSpan>)
    requires
        start < end ==> step > 0,
    ensures
        step_windows_of(start as int, end as int, step as int, windows@),
{
    let mut windows: Vec<TimeSpan> = Vec::new();
    let mut current = start;
    while current < end
        invariant
            start < end ==> step > 0,
            start <= current,
            windows@.len() == 0 ==> current == start,
            windows@.len() > 0 ==> windows@[0].start == start && windows@.last().end == current && current <= end,
            forall|i: int| 0 <= i < windows@.len() - 1 ==> #[trigger] windows@[i].end == windows@[i + 1].start,
            forall|i: int| 0 <= i < windows@.len() ==> (#[trigger] windows@[i]).start < windows@[i].end
                && windows@[i].end == (if windows@[i].start + step <= end { windows@[i].start + step } else { end as int }),
        decreases end - current,
    {
        let next = if step <= end - current { current + step } else { end };
        let ghost before = windows@;
        windows.push(TimeSpan { start: current, end: next });
        proof {
            assert forall|i: int| 0 <= i < windows@.len() - 1 implies #[trigger] windows@[i].end
                == windows@[i + 1].start by {
                if i < before.len() - 1 {
                    assert(windows@[i] == before[i] && windows@[i + 1] == before[i + 1]);
                } else {
                    assert(windows@[i] == before.last());
                }
            }
            assert forall|i: int| 0 <= i < windows@.len() implies (#[trigger] windows@[i]).start
                < windows@[i].end && windows@[i].end == (if windows@[i].start + step <= end {
                windows@[i].start + step
            } else {
                end as int
            }) by {
                if i < before.len() {
                    assert(windows@[i] == before[i]);
                }
            }
        }
        current = next;
    }
    windows
}

} // verus!
