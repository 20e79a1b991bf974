use vstd::prelude::*;
use vstd::string::*;

use crate::state::{duration_text, format_duration, session_well_ordered, ProcessingState};
use crate::text::{align_left, align_right, decimal, decimal_string, push_left_aligned, push_right_aligned_decimal};
use crate::timespan::{is_gap_list, span_wf, TimeSpan};

verus! {

/// What chrono writes for the instant `secs` seconds after the Unix epoch in
/// the format `%Y-%m-%d %H:%M:%S` (UTC); an instant out of chrono's range is
/// written as the epoch.
pub uninterp spec fn utc_datetime_text(secs: i64) -> Seq<char>;

/// `DateTime::<Utc>::from_timestamp(secs, 0)` (the epoch when out of range)
/// formatted by chrono as `%Y-%m-%d %H:%M:%S`. The text is named; it depends
/// on `secs` alone.
#[verifier::external_body]
pub(crate) fn format_utc_datetime(secs: i64) -> (r: String)
    ensures
        r@ == utc_datetime_text(secs),
{
    chrono::DateTime::<chrono::Utc>::from_timestamp(secs, 0)
        .unwrap_or(chrono::DateTime::<chrono::Utc>::UNIX_EPOCH)
        .format("%Y-%m-%d %H:%M:%S")
        .to_string()
}

/// An instant as the state display writes it.
pub open spec fn stamp(t: u64) -> Seq<char> {
    utc_datetime_text(t as i64)
}

fn format_timestamp(t: u64) -> (r: String)
    ensures
        r@ == stamp(t),
{
    format_utc_datetime(t as i64)
}

/// A line of the frame holding `s` left-aligned in `w` columns.
pub open spec fn framed(s: Seq<char>, w: nat) -> Seq<char> {
    "║   "@ + align_left(s, w) + " ║"@
}

/// A counter line: the label, then the number right-aligned in 36 columns.
pub open spec fn counter_line(label: Seq<char>, n: nat) -> Seq<char> {
    label + align_right(decimal(n), 36) + " ║"@
}

/// The line naming a numbered span or gap.
pub open spec fn numbered_span(i: nat, s: TimeSpan) -> Seq<char> {
    decimal(i + 1) + ". "@ + stamp(s.start) + " to "@ + stamp(s.end)
}

/// The lines for the current session, if one is under way.
pub open spec fn session_lines(start: Option<u64>, last: Option<u64>) -> Seq<Seq<char>> {
    match start {
        None => Seq::empty(),
        Some(s) => seq!["║ Current Session:                                              ║"@, framed("Started: "@ + stamp(s), 60)] + match last {
            Some(l) => seq![
                framed("Last Event: "@ + stamp(l), 60),
                framed("Duration: "@ + duration_text((l - s) as nat), 60),
            ],
            None => Seq::<Seq<char>>::empty(),
        } + seq!["╠══════════════════════════════════════════════════════════════╣"@],
    }
}

/// Two lines for each of the first `n` spans: the span, and how long it is
/// (`label` names the length).
pub open spec fn span_rows(spans: Seq<TimeSpan>, n: nat, label: Seq<char>) -> Seq<Seq<char>>
    decreases n,
{
    if n == 0 {
        Seq::empty()
    } else {
        let i = (n - 1) as nat;
        span_rows(spans, i, label) + seq![
            framed(numbered_span(i, spans[i as int]), 58),
            framed(label + duration_text((spans[i as int].end - spans[i as int].start) as nat), 58),
        ]
    }
}

pub open spec fn min_nat(a: nat, b: nat) -> nat {
    if a <= b { a } else { b }
}

/// The coverage lines: the number of spans and, when there are spans, the
/// first and last instants, the total coverage and the first ten spans.
pub open spec fn coverage_lines(spans: Seq<TimeSpan>, total: nat) -> Seq<Seq<char>> {
    seq!["║ Coverage Information:                                        ║"@, counter_line("║   Time Spans Collected: "@, spans.len())] + if spans.len() > 0 {
        seq![
            "║   Earliest: "@ + stamp(spans[0].start) + "                              ║"@,
            "║   Latest:   "@ + stamp(spans.last().end) + "                              ║"@,
            "║   Total Coverage: "@ + align_left(duration_text(total), 42) + " ║"@,
            "╠══════════════════════════════════════════════════════════════╣"@,
            "║ Time Spans:                                                  ║"@,
        ] + span_rows(spans, min_nat(spans.len(), 10), "   Duration: "@) + if spans.len() > 10 {
            seq!["║   ... and "@ + decimal((spans.len() - 10) as nat) + " more spans                                      ║"@]
        } else {
            Seq::<Seq<char>>::empty()
        }
    } else {
        Seq::<Seq<char>>::empty()
    }
}

/// The lines for the gaps of the last seven days: the first five, and how
/// many more there are.
pub open spec fn gap_lines(gaps: Seq<TimeSpan>) -> Seq<Seq<char>> {
    if gaps.len() > 0 {
        seq!["╠══════════════════════════════════════════════════════════════╣"@, "║ Gaps in Last 7 Days:                                         ║"@] + span_rows(gaps, min_nat(gaps.len(), 5), "   Missing: "@) + if gaps.len() > 5 {
            seq![framed("... and "@ + decimal((gaps.len() - 5) as nat) + " more gaps"@, 60)]
        } else {
            Seq::<Seq<char>>::empty()
        }
    } else {
        Seq::empty()
    }
}

/// The whole display of a state, given the gaps of the last seven days.
pub open spec fn state_display(state: ProcessingState, total: nat, gaps: Seq<TimeSpan>) -> Seq<Seq<char>> {
    seq![
        "╔══════════════════════════════════════════════════════════════╗"@,
        "║                EventFlow Processing State                    ║"@,
        "╠══════════════════════════════════════════════════════════════╣"@,
        counter_line("║ Total Events Processed: "@, state.total_events_processed as nat),
        counter_line("║ Total Sessions:         "@, state.stats.sessions_count as nat),
        counter_line("║ Total Gaps Filled:      "@, state.stats.total_gaps_filled as nat),
        "╠══════════════════════════════════════════════════════════════╣"@,
    ] + session_lines(state.session_start, state.session_last_event) + coverage_lines(
        state.collected_spans@,
        total,
    ) + gap_lines(gaps) + seq!["╚══════════════════════════════════════════════════════════════╝"@]
}

/// Seven days before `now`, or the epoch if that is earlier.
pub open spec fn week_before(now: u64) -> int {
    if now >= 604800 { now - 604800 } else { 0 }
}

/// The views of a list of lines.
pub open spec fn lines_view(v: Seq<String>) -> Seq<Seq<char>> {
    v.map_values(|s: String| s@)
}

fn framed_line(s: &str, w: usize) -> (r: String)
    ensures
        r@ == framed(s@, w as nat),
{
    let mut r = String::from_str("║   ");
    push_left_aligned(&mut r, s, w);
    r.append(" ║");
    r
}

fn counter(label: &str, n: u64) -> (r: String)
    ensures
        r@ == counter_line(label@, n as nat),
{
    let mut r = String::from_str(label);
    push_right_aligned_decimal(&mut r, n, 36);
    r.append(" ║");
    r
}

fn numbered_span_text(i: u64, s: &TimeSpan) -> (r: String)
    requires
        i < u64::MAX,
    ensures
        r@ == numbered_span(i as nat, *s),
{
    let mut r = decimal_string(i + 1);
    r.append(". ");
    r.append(format_timestamp(s.start).as_str());
    r.append(" to ");
    r.append(format_timestamp(s.end).as_str());
    r
}

/// Appends the two lines of each of the first `n` spans.
fn push_span_rows(lines: &mut Vec<String>, spans: &[TimeSpan], n: usize, label: &str)
    requires
        n <= spans@.len(),
        forall|i: int| 0 <= i < spans@.len() ==> span_wf(#[trigger] spans@[i]),
    ensures
        lines_view(final(lines)@) == lines_view(old(lines)@) + span_rows(spans@, n as nat, label@),
{
    let mut i: usize = 0;
    while i < n
        invariant
            i <= n <= spans@.len(),
            forall|k: int| 0 <= k < spans@.len() ==> span_wf(#[trigger] spans@[k]),
            lines_view(lines@) == lines_view(old(lines)@) + span_rows(spans@, i as nat, label@),
        decreases n - i,
    {
        let s = spans[i];
        proof {
            assert(span_wf(spans@[i as int]));
        }
        let a = numbered_span_text(i as u64, &s);
        let mut d = String::from_str(label);
        d.append(format_duration(s.end - s.start).as_str());
        let ghost before = lines@;
        lines.push(framed_line(a.as_str(), 58));
        lines.push(framed_line(d.as_str(), 58));
        i = i + 1;
        proof {
            assert(lines_view(lines@) =~= lines_view(before) + seq![
                framed(numbered_span((i - 1) as nat, spans@[i - 1]), 58),
                framed(label@ + duration_text((spans@[i - 1].end - spans@[i - 1].start) as nat), 58),
            ]);
        }
    }
}

/// Appends the lines of the current session.
fn push_session_lines(lines: &mut Vec<String>, start: Option<u64>, last: Option<u64>)
    requires
        session_well_ordered(start, last),
    ensures
        lines_view(final(lines)@) == lines_view(old(lines)@) + session_lines(start, last),
{
    if let Some(start) = start {
        lines.push(String::from_str("║ Current Session:                                              ║"));
        let mut started = String::from_str("Started: ");
        started.append(format_timestamp(start).as_str());
        lines.push(framed_line(started.as_str(), 60));
        if let Some(last) = last {
            let mut last_line = String::from_str("Last Event: ");
            last_line.append(format_timestamp(last).as_str());
            lines.push(framed_line(last_line.as_str(), 60));
            let mut duration_line = String::from_str("Duration: ");
            duration_line.append(format_duration(last - start).as_str());
            lines.push(framed_line(duration_line.as_str(), 60));
        }
        lines.push(String::from_str("╠══════════════════════════════════════════════════════════════╣"));
    }
    proof {
        assert(lines_view(lines@) =~= lines_view(old(lines)@) + session_lines(start, last));
    }
}

/// The lines that open the coverage part, when there are spans.
fn push_span_summary(lines: &mut Vec<String>, spans: &[TimeSpan], total: u64)
    requires
        spans@.len() > 0,
    ensures
        lines_view(final(lines)@) == lines_view(old(lines)@) + seq![
            "║   Earliest: "@ + stamp(spans@[0].start) + "                              ║"@,
            "║   Latest:   "@ + stamp(spans@.last().end) + "                              ║"@,
            "║   Total Coverage: "@ + align_left(duration_text(total as nat), 42) + " ║"@,
            "╠══════════════════════════════════════════════════════════════╣"@,
            "║ Time Spans:                                                  ║"@,
        ],
{
    let mut earliest = String::from_str("║   Earliest: ");
    earliest.append(format_timestamp(spans[0].start).as_str());
    earliest.append("                              ║");
    lines.push(earliest);
    let mut latest = String::from_str("║   Latest:   ");
    latest.append(format_timestamp(spans[spans.len() - 1].end).as_str());
    latest.append("                              ║");
    lines.push(latest);
    let mut coverage = String::from_str("║   Total Coverage: ");
    push_left_aligned(&mut coverage, format_duration(total).as_str(), 42);
    coverage.append(" ║");
    lines.push(coverage);
    lines.push(String::from_str("╠══════════════════════════════════════════════════════════════╣"));
    lines.push(String::from_str("║ Time Spans:                                                  ║"));
    proof {
        assert(lines_view(lines@) =~= lines_view(old(lines)@) + seq![
            "║   Earliest: "@ + stamp(spans@[0].start) + "                              ║"@,
            "║   Latest:   "@ + stamp(spans@.last().end) + "                              ║"@,
            "║   Total Coverage: "@ + align_left(duration_text(total as nat), 42) + " ║"@,
            "╠══════════════════════════════════════════════════════════════╣"@,
            "║ Time Spans:                                                  ║"@,
        ]);
    }
}

/// Appends the coverage lines.
fn push_coverage_lines(lines: &mut Vec<String>, spans: &[TimeSpan], total: u64)
    requires
        forall|i: int| 0 <= i < spans@.len() ==> span_wf(#[trigger] spans@[i]),
    ensures
        lines_view(final(lines)@) == lines_view(old(lines)@) + coverage_lines(spans@, total as nat),
{
    lines.push(String::from_str("║ Coverage Information:                                        ║"));
    lines.push(counter("║   Time Spans Collected: ", spans.len() as u64));
    let ghost first_two = lines_view(lines@);
    proof {
        assert(first_two =~= lines_view(old(lines)@) + seq!["║ Coverage Information:                                        ║"@, counter_line("║   Time Spans Collected: "@, spans@.len())]);
    }
    if spans.len() > 0 {
        push_span_summary(lines, spans, total);
        let shown = if spans.len() < 10 { spans.len() } else { 10 };
        push_span_rows(lines, spans, shown, "   Duration: ");
        let ghost with_rows = lines_view(lines@);
        if spans.len() > 10 {
            let mut more = String::from_str("║   ... and ");
            more.append(decimal_string((spans.len() - 10) as u64).as_str());
            more.append(" more spans                                      ║");
            lines.push(more);
        }
        proof {
            assert(lines_view(lines@) =~= with_rows + (if spans@.len() > 10 {
                seq!["║   ... and "@ + decimal((spans@.len() - 10) as nat) + " more spans                                      ║"@]
            } else {
                Seq::<Seq<char>>::empty()
            }));
            assert(lines_view(lines@) =~= lines_view(old(lines)@) + coverage_lines(spans@, total as nat));
        }
    } else {
        proof {
            assert(lines_view(lines@) =~= lines_view(old(lines)@) + coverage_lines(spans@, total as nat));
        }
    }
}

/// Appends the lines of the gaps.
fn push_gap_lines(lines: &mut Vec<String>, gaps: &[TimeSpan])
    requires
        forall|i: int| 0 <= i < gaps@.len() ==> span_wf(#[trigger] gaps@[i]),
    ensures
        lines_view(final(lines)@) == lines_view(old(lines)@) + gap_lines(gaps@),
{
    if gaps.len() > 0 {
        lines.push(String::from_str("╠══════════════════════════════════════════════════════════════╣"));
        lines.push(String::from_str("║ Gaps in Last 7 Days:                                         ║"));
        let ghost head = lines_view(lines@);
        let shown = if gaps.len() < 5 { gaps.len() } else { 5 };
        push_span_rows(lines, gaps, shown, "   Missing: ");
        let ghost with_rows = lines_view(lines@);
        if gaps.len() > 5 {
            let mut more = String::from_str("... and ");
            more.append(decimal_string((gaps.len() - 5) as u64).as_str());
            more.append(" more gaps");
            lines.push(framed_line(more.as_str(), 60));
        }
        proof {
            assert(lines_view(lines@) =~= with_rows + (if gaps@.len() > 5 {
                seq![framed("... and "@ + decimal((gaps@.len() - 5) as nat) + " more gaps"@, 60)]
            } else {
                Seq::<Seq<char>>::empty()
            }));
            assert(lines_view(lines@) =~= lines_view(old(lines)@) + gap_lines(gaps@));
        }
    } else {
        proof {
            assert(lines_view(lines@) =~= lines_view(old(lines)@) + gap_lines(gaps@));
        }
    }
}

impl ProcessingState {
    /// The lines that show the state: counters, the current session, the
    /// collected spans, and the gaps in the seven days before `now`.
    pub fn display_lines(&self, now: u64) -> (r: Vec<String>)
        requires
            session_well_ordered(self.session_start, self.session_last_event),
        ensures
            exists|gaps: Seq<TimeSpan>| {
                &&& #[trigger] is_gap_list(self.collected_spans@, week_before(now), now as int, gaps)
                &&& lines_view(r@) == state_display(*self, crate::timespan::total_length(self.collected_spans@) as nat, gaps)
            },
    {
        let mut lines: Vec<String> = Vec::new();
        lines.push(String::from_str("╔══════════════════════════════════════════════════════════════╗"));
        lines.push(String::from_str("║                EventFlow Processing State                    ║"));
        lines.push(String::from_str("╠══════════════════════════════════════════════════════════════╣"));
        lines.push(counter("║ Total Events Processed: ", self.total_events_processed));
        lines.push(counter("║ Total Sessions:         ", self.stats.sessions_count as u64));
        lines.push(counter("║ Total Gaps Filled:      ", self.stats.total_gaps_filled as u64));
        lines.push(String::from_str("╠══════════════════════════════════════════════════════════════╣"));
        let ghost head = lines_view(lines@);
        push_session_lines(&mut lines, self.session_start, self.session_last_event);
        let spans = self.collected_spans.spans();
        let total = self.collected_spans.total_coverage_seconds();
        proof {
            assert forall|i: int| 0 <= i < spans@.len() implies span_wf(#[trigger] spans@[i]) by {}
        }
        push_coverage_lines(&mut lines, spans, total);
        let week_ago = if now >= 604800 { now - 604800 } else { 0 };
        let gaps = self.collected_spans.get_gaps(week_ago, now);
        proof {
            assert forall|i: int| 0 <= i < gaps@.len() implies span_wf(#[trigger] gaps@[i]) by {
                assert(gaps@[i].start < gaps@[i].end);
            }
        }
        proof {
            assert(week_ago as int == week_before(now));
            assert(is_gap_list(self.collected_spans@, week_before(now), now as int, gaps@));
        }
        push_gap_lines(&mut lines, gaps.as_slice());
        lines.push(String::from_str("╚══════════════════════════════════════════════════════════════╝"));
        proof {
            assert(head =~= seq![
                "╔══════════════════════════════════════════════════════════════╗"@,
                "║                EventFlow Processing State                    ║"@,
                "╠══════════════════════════════════════════════════════════════╣"@,
                counter_line("║ Total Events Processed: "@, self.total_events_processed as nat),
                counter_line("║ Total Sessions:         "@, self.stats.sessions_count as nat),
                counter_line("║ Total Gaps Filled:      "@, self.stats.total_gaps_filled as nat),
                "╠══════════════════════════════════════════════════════════════╣"@,
            ]);
            assert(lines_view(lines@) =~= state_display(*self, total as nat, gaps@));
        }
        lines
    }
}

} // verus!
