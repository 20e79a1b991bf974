use vstd::prelude::*;

use crate::text::{decimal, padded2, push_decimal, push_padded2};
use crate::timespan::{canonical, is_gap_list, same_coverage, TimeSpan, TimeSpanSet};

verus! {

/// Counters kept for monitoring.
#[derive(Clone, Debug)]
pub struct ProcessingStats {
    pub sessions_count: u32,
    pub total_gaps_filled: u32,
    pub last_save_timestamp: Option<u64>,
}

/// What has been processed so far: the periods of time already collected, the
/// streaming session under way, and counters. Instants are seconds since the
/// Unix epoch.
#[derive(Clone, Debug)]
pub struct ProcessingState {
    /// All periods of time that have been processed.
    pub collected_spans: TimeSpanSet,
    /// When the current streaming session started.
    pub session_start: Option<u64>,
    /// The instant of the last event of the current session.
    pub session_last_event: Option<u64>,
    /// Events processed over all sessions.
    pub total_events_processed: u64,
    pub stats: ProcessingStats,
}

/// A pair of instants read as the span between them.
pub open spec fn pair_span(p: (u64, u64)) -> TimeSpan {
    TimeSpan { start: p.0, end: p.1 }
}

/// The current session has an event that is not earlier than its start, so
/// the session can be recorded.
pub open spec fn session_recordable(start: Option<u64>, last: Option<u64>) -> bool {
    start is Some && last is Some
}

/// A session that has seen events may only be recorded when its last event
/// does not precede its start.
pub open spec fn session_well_ordered(start: Option<u64>, last: Option<u64>) -> bool {
    session_recordable(start, last) ==> start->0 <= last->0
}

impl ProcessingState {
    /// A state with nothing processed.
    pub fn new() -> (r: ProcessingState)
        ensures
            r.collected_spans@ == Seq::<TimeSpan>::empty(),
            r.session_start is None,
            r.session_last_event is None,
            r.total_events_processed == 0,
            r.stats.sessions_count == 0,
            r.stats.total_gaps_filled == 0,
            r.stats.last_save_timestamp is None,
    {
        ProcessingState {
            collected_spans: TimeSpanSet::new(),
            session_start: None,
            session_last_event: None,
            total_events_processed: 0,
            stats: ProcessingStats { sessions_count: 0, total_gaps_filled: 0, last_save_timestamp: None },
        }
    }

    /// Starts a new streaming session at `start_time`.
    pub fn start_session(&mut self, start_time: u64)
        requires
            old(self).stats.sessions_count < u32::MAX,
        ensures
            final(self).session_start == Some(start_time),
            final(self).session_last_event is None,
            final(self).stats.sessions_count == old(self).stats.sessions_count + 1,
            final(self).stats.total_gaps_filled == old(self).stats.total_gaps_filled,
            final(self).stats.last_save_timestamp == old(self).stats.last_save_timestamp,
            final(self).total_events_processed == old(self).total_events_processed,
            final(self).collected_spans@ == old(self).collected_spans@,
    {
        self.session_start = Some(start_time);
        self.session_last_event = None;
        self.stats.sessions_count = self.stats.sessions_count + 1;
    }

    /// Records an event of the current session, created at `timestamp`.
    pub fn process_event(&mut self, timestamp: u64)
        requires
            old(self).total_events_processed < u64::MAX,
        ensures
            final(self).session_last_event == Some(timestamp),
            final(self).total_events_processed == old(self).total_events_processed + 1,
            final(self).session_start == old(self).session_start,
            final(self).stats == old(self).stats,
            final(self).collected_spans@ == old(self).collected_spans@,
    {
        self.session_last_event = Some(timestamp);
        self.total_events_processed = self.total_events_processed + 1;
    }

    /// Ends the current session: when it has seen events, the span from its
    /// start to its last event becomes collected.
    pub fn end_session(&mut self)
        requires
            session_well_ordered(old(self).session_start, old(self).session_last_event),
        ensures
            canonical(final(self).collected_spans@),
            final(self).session_start is None,
            final(self).session_last_event is None,
            session_recordable(old(self).session_start, old(self).session_last_event) ==> same_coverage(
                final(self).collected_spans@,
                old(self).collected_spans@.push(
                    TimeSpan { start: old(self).session_start->0, end: old(self).session_last_event->0 },
                ),
            ),
            !session_recordable(old(self).session_start, old(self).session_last_event)
                ==> final(self).collected_spans@ == old(self).collected_spans@,
            final(self).total_events_processed == old(self).total_events_processed,
            final(self).stats == old(self).stats,
    {
        if let (Some(start), Some(end)) = (self.session_start, self.session_last_event) {
            self.collected_spans.add_span(start, end);
        } else {
            // Nothing is added; the set's own spans are canonical.
            let _ = self.collected_spans.spans();
        }
        self.session_start = None;
        self.session_last_event = None;
    }

    /// Records the progress of the current session without ending it.
    pub fn checkpoint_session(&mut self)
        requires
            session_well_ordered(old(self).session_start, old(self).session_last_event),
        ensures
            canonical(final(self).collected_spans@),
            final(self).session_start == old(self).session_start,
            final(self).session_last_event == old(self).session_last_event,
            session_recordable(old(self).session_start, old(self).session_last_event) ==> same_coverage(
                final(self).collected_spans@,
                old(self).collected_spans@.push(
                    TimeSpan { start: old(self).session_start->0, end: old(self).session_last_event->0 },
                ),
            ),
            !session_recordable(old(self).session_start, old(self).session_last_event)
                ==> final(self).collected_spans@ == old(self).collected_spans@,
            final(self).total_events_processed == old(self).total_events_processed,
            final(self).stats == old(self).stats,
    {
        if let (Some(start), Some(end)) = (self.session_start, self.session_last_event) {
            self.collected_spans.add_span(start, end);
        } else {
            // Nothing is added; the set's own spans are canonical.
            let _ = self.collected_spans.spans();
        }
    }

    /// The stretches of `[from, to]` not yet collected, as pairs of instants.
    pub fn get_gaps(&self, from: u64, to: u64) -> (r: Vec<(u64, u64)>)
        ensures
            is_gap_list(self.collected_spans@, from as int, to as int, r@.map_values(|p: (u64, u64)| pair_span(p))),
    {
        let gaps = self.collected_spans.get_gaps(from, to);
        let mut r: Vec<(u64, u64)> = Vec::new();
        let mut i: usize = 0;
        while i < gaps.len()
            invariant
                i <= gaps@.len(),
                r@.len() == i,
                forall|k: int| 0 <= k < i ==> pair_span(#[trigger] r@[k]) == gaps@[k],
            decreases gaps.len() - i,
        {
            r.push((gaps[i].start, gaps[i].end));
            i = i + 1;
        }
        proof {
            assert(r@.map_values(|p: (u64, u64)| pair_span(p)) =~= gaps@);
        }
        r
    }

    /// Whether the instant has already been collected.
    pub fn is_collected(&self, timestamp: u64) -> (r: bool)
        ensures
            r == crate::timespan::covers_point(self.collected_spans@, timestamp as int),
    {
        self.collected_spans.contains(timestamp)
    }

    /// A one-line summary of the coverage.
    pub fn get_coverage_stats(&self) -> (r: String)
        ensures
            r@ == "Total events: "@ + decimal(self.total_events_processed as nat) + ", Spans: "@
                + decimal(self.collected_spans@.len()) + ", Coverage: "@ + decimal(
                crate::timespan::total_length(self.collected_spans@) as nat,
            ) + " seconds, Sessions: "@ + decimal(self.stats.sessions_count as nat),
    {
        let mut s = String::new();
        s.append("Total events: ");
        push_decimal(&mut s, self.total_events_processed);
        s.append(", Spans: ");
        let count = self.collected_spans.span_count();
        push_decimal(&mut s, count as u64);
        s.append(", Coverage: ");
        push_decimal(&mut s, self.collected_spans.total_coverage_seconds());
        s.append(" seconds, Sessions: ");
        push_decimal(&mut s, self.stats.sessions_count as u64);
        proof {
            assert(Seq::<char>::empty() + "Total events: "@ == "Total events: "@);
        }
        s
    }

    /// Marks the stretch `[start, end]` as collected, counting one more gap filled.
    pub fn mark_gap_filled(&mut self, start: u64, end: u64)
        requires
            start <= end,
            old(self).stats.total_gaps_filled < u32::MAX,
        ensures
            canonical(final(self).collected_spans@),
            same_coverage(final(self).collected_spans@, old(self).collected_spans@.push(TimeSpan { start, end })),
            final(self).stats.total_gaps_filled == old(self).stats.total_gaps_filled + 1,
            final(self).stats.sessions_count == old(self).stats.sessions_count,
            final(self).stats.last_save_timestamp == old(self).stats.last_save_timestamp,
            final(self).session_start == old(self).session_start,
            final(self).session_last_event == old(self).session_last_event,
            final(self).total_events_processed == old(self).total_events_processed,
    {
        self.collected_spans.add_span(start, end);
        self.stats.total_gaps_filled = self.stats.total_gaps_filled + 1;
    }
}

/// A number of seconds as days, hours, minutes and seconds, each right-aligned
/// in two columns, leaving out the leading units that are zero.
pub open spec fn duration_text(seconds: nat) -> Seq<char> {
    let days = seconds / 86400;
    let hours = (seconds % 86400) / 3600;
    let minutes = (seconds % 3600) / 60;
    let secs = seconds % 60;
    if days > 0 {
        padded2(days) + seq!['d', ' '] + padded2(hours) + seq!['h', ' '] + padded2(minutes) + seq!['m', ' ']
            + padded2(secs) + seq!['s']
    } else if hours > 0 {
        padded2(hours) + seq!['h', ' '] + padded2(minutes) + seq!['m', ' '] + padded2(secs) + seq!['s']
    } else if minutes > 0 {
        padded2(minutes) + seq!['m', ' '] + padded2(secs) + seq!['s']
    } else {
        padded2(secs) + seq!['s']
    }
}

/// Formats a number of seconds for display, such as ` 1d  2h  3m  4s`.
pub fn format_duration(seconds: u64) -> (r: String)
    ensures
        r@ == duration_text(seconds as nat),
{
    let days = seconds / 86400;
    let hours = (seconds % 86400) / 3600;
    let minutes = (seconds % 3600) / 60;
    let secs = seconds % 60;
    proof {
        reveal_strlit("d ");
        reveal_strlit("h ");
        reveal_strlit("m ");
        reveal_strlit("s");
    }
    let mut s = String::new();
    if days > 0 {
        push_padded2(&mut s, days);
        s.append("d ");
        push_padded2(&mut s, hours);
        s.append("h ");
        push_padded2(&mut s, minutes);
        s.append("m ");
        push_padded2(&mut s, secs);
        s.append("s");
    } else if hours > 0 {
        push_padded2(&mut s, hours);
        s.append("h ");
        push_padded2(&mut s, minutes);
        s.append("m ");
        push_padded2(&mut s, secs);
        s.append("s");
    } else if minutes > 0 {
        push_padded2(&mut s, minutes);
        s.append("m ");
        push_padded2(&mut s, secs);
        s.append("s");
    } else {
        push_padded2(&mut s, secs);
        s.append("s");
    }
    proof {
        assert(s@ =~= duration_text(seconds as nat));
    }
    s
}

} // verus!
