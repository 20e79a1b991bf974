use vstd::prelude::*;

verus! {

/// A closed period of time `[start, end]`, in seconds since the Unix epoch.
#[derive(Clone, Copy, Debug, PartialEq, Eq, Structural)]
pub struct TimeSpan {
    pub start: u64,
    pub end: u64,
}

/// A span is well formed when it does not end before it starts.
pub open spec fn span_wf(s: TimeSpan) -> bool {
    s.start <= s.end
}

/// Two spans overlap or are exactly adjacent.
pub open spec fn spans_touch(a: TimeSpan, b: TimeSpan) -> bool {
    !(a.end < b.start || b.end < a.start)
}

/// The smallest span holding both `a` and `b`.
pub open spec fn span_hull(a: TimeSpan, b: TimeSpan) -> TimeSpan {
    TimeSpan {
        start: if a.start <= b.start { a.start } else { b.start },
        end: if a.end >= b.end { a.end } else { b.end },
    }
}

/// The span holds the instant `t`.
pub open spec fn span_has_point(s: TimeSpan, t: int) -> bool {
    s.start <= t && t <= s.end
}

/// The span holds the whole second from `t` to `t + 1`.
pub open spec fn span_has_unit(s: TimeSpan, t: int) -> bool {
    s.start <= t && t + 1 <= s.end
}

/// Some span of the list holds the instant `t`.
pub open spec fn covers_point(spans: Seq<TimeSpan>, t: int) -> bool {
    exists|i: int| 0 <= i < spans.len() && #[trigger] span_has_point(spans[i], t)
}

/// Some span of the list holds the second from `t` to `t + 1`.
pub open spec fn covers_unit(spans: Seq<TimeSpan>, t: int) -> bool {
    exists|i: int| 0 <= i < spans.len() && #[trigger] span_has_unit(spans[i], t)
}

/// Two lists of spans cover the same part of the time line: the same instants
/// and the same seconds between consecutive instants.
pub open spec fn same_coverage(a: Seq<TimeSpan>, b: Seq<TimeSpan>) -> bool {
    &&& forall|t: int| #![trigger covers_point(a, t)] #![trigger covers_point(b, t)]
        covers_point(a, t) == covers_point(b, t)
    &&& forall|t: int| #![trigger covers_unit(a, t)] #![trigger covers_unit(b, t)]
        covers_unit(a, t) == covers_unit(b, t)
}

/// The canonical form of a set of spans: every span well formed, sorted, and
/// any two of them separated by a stretch of time that neither holds.
pub open spec fn canonical(spans: Seq<TimeSpan>) -> bool {
    &&& forall|i: int| 0 <= i < spans.len() ==> span_wf(#[trigger] spans[i])
    &&& forall|i: int, j: int| 0 <= i < j < spans.len() ==> #[trigger] spans[i].end < #[trigger] spans[j].start
}

/// The spans are ordered by their start.
pub open spec fn sorted_by_start(spans: Seq<TimeSpan>) -> bool {
    forall|i: int, j: int| 0 <= i < j < spans.len() ==> #[trigger] spans[i].start <= #[trigger] spans[j].start
}

/// Sum of the lengths of the spans.
pub open spec fn total_length(spans: Seq<TimeSpan>) -> int
    decreases spans.len(),
{
    if spans.len() == 0 {
        0
    } else {
        total_length(spans.drop_last()) + (spans.last().end - spans.last().start)
    }
}

/// No span holds any instant strictly between `a` and `b`.
pub open spec fn span_free(spans: Seq<TimeSpan>, a: int, b: int) -> bool {
    forall|i: int| 0 <= i < spans.len() ==> #[trigger] spans[i].end <= a || spans[i].start >= b
}

/// `gaps` lists, in order, exactly the stretches of `[start, end]` that the
/// canonical list `spans` leaves uncovered: each gap lies inside the range, has
/// a positive length, meets no span in its interior, ends where the range or a
/// span begins, starts where the range begins or a span ends, and every second
/// of the range that no span holds lies in a gap.
pub open spec fn is_gap_list(spans: Seq<TimeSpan>, start: int, end: int, gaps: Seq<TimeSpan>) -> bool {
    &&& forall|k: int| 0 <= k < gaps.len() ==> start <= #[trigger] gaps[k].start && gaps[k].start < gaps[k].end
        && gaps[k].end <= end
    &&& forall|k: int, l: int| 0 <= k < l < gaps.len() ==> #[trigger] gaps[k].end <= #[trigger] gaps[l].start
    &&& forall|k: int| 0 <= k < gaps.len() ==> span_free(spans, #[trigger] gaps[k].start as int, gaps[k].end as int)
    &&& forall|k: int| 0 <= k < gaps.len() ==> (#[trigger] gaps[k].start == start || exists|i: int|
        0 <= i < spans.len() && spans[i].end == gaps[k].start)
    &&& forall|k: int| 0 <= k < gaps.len() ==> (#[trigger] gaps[k].end == end || exists|i: int|
        0 <= i < spans.len() && spans[i].start == gaps[k].end)
    &&& forall|t: int| start <= t < end && !covers_unit(spans, t) ==> exists|k: int|
        0 <= k < gaps.len() && #[trigger] span_has_unit(gaps[k], t)
}

proof fn lemma_coverage_push(a: Seq<TimeSpan>, s: TimeSpan)
    ensures
        forall|t: int| #[trigger] covers_point(a.push(s), t) == (covers_point(a, t) || span_has_point(s, t)),
        forall|t: int| #[trigger] covers_unit(a.push(s), t) == (covers_unit(a, t) || span_has_unit(s, t)),
{
    let b = a.push(s);
    assert forall|t: int| #[trigger] covers_point(b, t) == (covers_point(a, t) || span_has_point(s, t)) by {
        if covers_point(b, t) {
            let i = choose|i: int| 0 <= i < b.len() && #[trigger] span_has_point(b[i], t);
            if i < a.len() {
                assert(b[i] == a[i]);
            }
        }
        if covers_point(a, t) {
            let i = choose|i: int| 0 <= i < a.len() && #[trigger] span_has_point(a[i], t);
            assert(b[i] == a[i]);
        }
        if span_has_point(s, t) {
            assert(b[a.len() as int] == s);
        }
    }
    assert forall|t: int| #[trigger] covers_unit(b, t) == (covers_unit(a, t) || span_has_unit(s, t)) by {
        if covers_unit(b, t) {
            let i = choose|i: int| 0 <= i < b.len() && #[trigger] span_has_unit(b[i], t);
            if i < a.len() {
                assert(b[i] == a[i]);
            }
        }
        if covers_unit(a, t) {
            let i = choose|i: int| 0 <= i < a.len() && #[trigger] span_has_unit(a[i], t);
            assert(b[i] == a[i]);
        }
        if span_has_unit(s, t) {
            assert(b[a.len() as int] == s);
        }
    }
}

proof fn lemma_same_elements_same_coverage(a: Seq<TimeSpan>, b: Seq<TimeSpan>)
    requires
        forall|x: TimeSpan| a.contains(x) <==> b.contains(x),
    ensures
        same_coverage(a, b),
{
    assert forall|t: int| covers_point(a, t) == covers_point(b, t) by {
        if covers_point(a, t) {
            let i = choose|i: int| 0 <= i < a.len() && #[trigger] span_has_point(a[i], t);
            assert(a.contains(a[i]));
            let j = choose|j: int| 0 <= j < b.len() && b[j] == a[i];
            assert(span_has_point(b[j], t));
        }
        if covers_point(b, t) {
            let i = choose|i: int| 0 <= i < b.len() && #[trigger] span_has_point(b[i], t);
            assert(b.contains(b[i]));
            let j = choose|j: int| 0 <= j < a.len() && a[j] == b[i];
            assert(span_has_point(a[j], t));
        }
    }
    assert forall|t: int| covers_unit(a, t) == covers_unit(b, t) by {
        if covers_unit(a, t) {
            let i = choose|i: int| 0 <= i < a.len() && #[trigger] span_has_unit(a[i], t);
            assert(a.contains(a[i]));
            let j = choose|j: int| 0 <= j < b.len() && b[j] == a[i];
            assert(span_has_unit(b[j], t));
        }
        if covers_unit(b, t) {
            let i = choose|i: int| 0 <= i < b.len() && #[trigger] span_has_unit(b[i], t);
            assert(b.contains(b[i]));
            let j = choose|j: int| 0 <= j < a.len() && a[j] == b[i];
            assert(span_has_unit(a[j], t));
        }
    }
}

/// Replacing two touching spans by their hull covers the same time.
proof fn lemma_hull_coverage(a: TimeSpan, b: TimeSpan)
    requires
        span_wf(a),
        span_wf(b),
        spans_touch(a, b),
    ensures
        forall|t: int| #[trigger] span_has_point(span_hull(a, b), t) == (span_has_point(a, t) || span_has_point(b, t)),
        forall|t: int| #[trigger] span_has_unit(span_hull(a, b), t) == (span_has_unit(a, t) || span_has_unit(b, t)),
{
}

impl TimeSpan {
    /// Creates the span `[start, end]`.
    pub fn new(start: u64, end: u64) -> (s: TimeSpan)
        requires
            start <= end,
        ensures
            s == (TimeSpan { start, end }),
    {
        TimeSpan { start, end }
    }

    /// Whether the two spans overlap or are exactly adjacent, so that they can be merged.
    pub fn can_merge_with(&self, other: &TimeSpan) -> (r: bool)
        ensures
            r == spans_touch(*self, *other),
    {
        !(self.end < other.start || other.end < self.start)
    }

    /// The smallest span holding both spans.
    pub fn merge(&self, other: &TimeSpan) -> (r: TimeSpan)
        ensures
            r == span_hull(*self, *other),
    {
        TimeSpan {
            start: if self.start <= other.start { self.start } else { other.start },
            end: if self.end >= other.end { self.end } else { other.end },
        }
    }

    /// Whether the instant lies within the span.
    pub fn contains(&self, timestamp: u64) -> (r: bool)
        ensures
            r == span_has_point(*self, timestamp as int),
    {
        timestamp >= self.start && timestamp <= self.end
    }
}

/// Inserting `x` just after the spans that start no later than it keeps a list
/// ordered by start, and adds exactly `x` to its elements.
proof fn lemma_insert_sorted(before: Seq<TimeSpan>, j: int, x: TimeSpan)
    requires
        sorted_by_start(before),
        0 <= j <= before.len(),
        forall|i: int| j <= i < before.len() ==> #[trigger] before[i].start > x.start,
        j > 0 ==> before[j - 1].start <= x.start,
    ensures
        sorted_by_start(before.insert(j, x)),
        forall|y: TimeSpan| #[trigger] before.insert(j, x).contains(y) <==> (before.contains(y) || y == x),
{
    before.insert_ensures(j, x);
    let after = before.insert(j, x);
    assert forall|a: int, b: int| 0 <= a < b < after.len() implies #[trigger] after[a].start
        <= #[trigger] after[b].start by {
        if b < j {
            assert(after[a] == before[a] && after[b] == before[b]);
        } else if b == j {
            assert(after[a] == before[a]);
            assert(before[a].start <= before[j - 1].start);
        } else if a == j {
            assert(after[b] == before[b - 1]);
        } else if a < j {
            assert(after[a] == before[a] && after[b] == before[b - 1]);
            if j > 0 {
                assert(before[a].start <= before[j - 1].start);
            }
        } else {
            assert(after[a] == before[a - 1] && after[b] == before[b - 1]);
        }
    }
    assert forall|y: TimeSpan| after.contains(y) <==> (before.contains(y) || y == x) by {
        if after.contains(y) {
            let i = choose|i: int| 0 <= i < after.len() && after[i] == y;
            if i < j {
                assert(before[i] == y);
            } else if i > j {
                assert(before[i - 1] == y);
            }
        }
        if before.contains(y) {
            let i = choose|i: int| 0 <= i < before.len() && before[i] == y;
            if i < j {
                assert(after[i] == y);
            } else {
                assert(after[i + 1] == y);
            }
        }
        if y == x {
            assert(after[j] == x);
        }
    }
}

/// Orders the spans by their start, keeping every span.
fn sort_by_start(v: &Vec<TimeSpan>) -> (out: Vec<TimeSpan>)
    ensures
        sorted_by_start(out@),
        out@.len() == v@.len(),
        forall|x: TimeSpan| out@.contains(x) <==> v@.contains(x),
{
    let mut out: Vec<TimeSpan> = Vec::new();
    let mut k: usize = 0;
    while k < v.len()
        invariant
            k <= v.len(),
            out@.len() == k,
            sorted_by_start(out@),
            forall|x: TimeSpan| out@.contains(x) <==> v@.take(k as int).contains(x),
        decreases v.len() - k,
    {
        let x = v[k];
        let mut j = out.len();
        while j > 0 && out[j - 1].start > x.start
            invariant
                j <= out@.len(),
                forall|i: int| j <= i < out@.len() ==> #[trigger] out@[i].start > x.start,
            decreases j,
        {
            j = j - 1;
        }
        let ghost before = out@;
        proof {
            lemma_insert_sorted(before, j as int, x);
        }
        out.insert(j, x);
        proof {
            let vk = v@.take(k as int + 1);
            assert(vk == v@.take(k as int).push(x));
            assert forall|y: TimeSpan| vk.contains(y) <==> (v@.take(k as int).contains(y) || y == x) by {
                if vk.contains(y) {
                    let m = choose|m: int| 0 <= m < vk.len() && vk[m] == y;
                    if m < k {
                        assert(v@.take(k as int)[m] == y);
                    }
                }
                if v@.take(k as int).contains(y) {
                    let m = choose|m: int| 0 <= m < k && v@.take(k as int)[m] == y;
                    assert(vk[m] == y);
                }
                if y == x {
                    assert(vk[k as int] == x);
                }
            }
        }
        k = k + 1;
    }
    proof {
        assert(v@.take(v@.len() as int) == v@);
    }
    out
}

/// Merges the touching spans of a list ordered by start into its canonical form.
fn merge_sorted(v: &Vec<TimeSpan>) -> (out: Vec<TimeSpan>)
    requires
        sorted_by_start(v@),
        forall|i: int| 0 <= i < v@.len() ==> span_wf(#[trigger] v@[i]),
    ensures
        canonical(out@),
        same_coverage(out@, v@),
{
    if v.len() == 0 {
        let out: Vec<TimeSpan> = Vec::new();
        proof {
            assert(v@ == out@);
        }
        return out;
    }
    let mut out: Vec<TimeSpan> = Vec::new();
    let mut current = v[0];
    let mut i: usize = 1;
    proof {
        assert(v@.take(1) == Seq::<TimeSpan>::empty().push(current));
        assert(out@.push(current) == Seq::<TimeSpan>::empty().push(current));
    }
    while i < v.len()
        invariant
            1 <= i <= v@.len(),
            sorted_by_start(v@),
            forall|k: int| 0 <= k < v@.len() ==> span_wf(#[trigger] v@[k]),
            canonical(out@),
            span_wf(current),
            out@.len() > 0 ==> out@.last().end < current.start,
            forall|k: int| i <= k < v@.len() ==> current.start <= #[trigger] v@[k].start,
            same_coverage(out@.push(current), v@.take(i as int)),
        decreases v.len() - i,
    {
        let s = v[i];
        let ghost old_out = out@;
        let ghost old_current = current;
        proof {
            assert(v@.take(i as int + 1) == v@.take(i as int).push(s));
            lemma_coverage_push(v@.take(i as int), s);
            lemma_coverage_push(old_out.push(old_current), s);
        }
        if current.can_merge_with(&s) {
            current = current.merge(&s);
            proof {
                lemma_hull_coverage(old_current, s);
                lemma_coverage_push(old_out, current);
                lemma_coverage_push(old_out, old_current);
                assert forall|k: int| i + 1 <= k < v@.len() implies current.start <= #[trigger] v@[k].start by {
                    assert(v@[i as int].start <= v@[k].start);
                }
            }
        } else {
            out.push(current);
            current = s;
            proof {
                assert(old_current.end < s.start);
                assert forall|a: int, b: int| 0 <= a < b < out@.len() implies #[trigger] out@[a].end
                    < #[trigger] out@[b].start by {
                    if b < old_out.len() {
                        assert(out@[a] == old_out[a] && out@[b] == old_out[b]);
                    } else {
                        assert(out@[b] == old_current);
                        assert(out@[a] == old_out[a]);
                        if a < old_out.len() - 1 {
                            assert(old_out[a].end < old_out[old_out.len() - 1].start);
                        }
                    }
                }
                assert forall|k: int| 0 <= k < out@.len() implies span_wf(#[trigger] out@[k]) by {
                    if k < old_out.len() {
                        assert(out@[k] == old_out[k]);
                    }
                }
                assert forall|k: int| i + 1 <= k < v@.len() implies current.start <= #[trigger] v@[k].start by {
                    assert(v@[i as int].start <= v@[k].start);
                }
            }
        }
        i = i + 1;
    }
    let ghost last_out = out@;
    out.push(current);
    proof {
        assert(v@.take(v@.len() as int) == v@);
        assert forall|a: int, b: int| 0 <= a < b < out@.len() implies #[trigger] out@[a].end
            < #[trigger] out@[b].start by {
            if b < last_out.len() {
                assert(out@[a] == last_out[a] && out@[b] == last_out[b]);
            } else {
                assert(out@[a] == last_out[a]);
                if a < last_out.len() - 1 {
                    assert(last_out[a].end < last_out[last_out.len() - 1].start);
                }
            }
        }
        assert forall|k: int| 0 <= k < out@.len() implies span_wf(#[trigger] out@[k]) by {
            if k < last_out.len() {
                assert(out@[k] == last_out[k]);
            }
        }
    }
    out
}

/// Orders any list of well-formed spans and merges the ones that overlap or
/// touch, giving the canonical list that covers the same time.
fn sort_and_merge(v: &Vec<TimeSpan>) -> (out: Vec<TimeSpan>)
    requires
        forall|i: int| 0 <= i < v@.len() ==> span_wf(#[trigger] v@[i]),
    ensures
        canonical(out@),
        same_coverage(out@, v@),
{
    let sorted = sort_by_start(v);
    proof {
        assert forall|i: int| 0 <= i < sorted@.len() implies span_wf(#[trigger] sorted@[i]) by {
            assert(sorted@.contains(sorted@[i]));
            let j = choose|j: int| 0 <= j < v@.len() && v@[j] == sorted@[i];
        }
        lemma_same_elements_same_coverage(sorted@, v@);
    }
    merge_sorted(&sorted)
}

/// The periods of time that have been processed, kept as a sorted list of
/// separate spans: spans that overlap or touch are merged.
#[derive(Debug)]
pub struct TimeSpanSet {
    spans: Vec<TimeSpan>,
}

impl View for TimeSpanSet {
    type V = Seq<TimeSpan>;

    closed spec fn view(&self) -> Seq<TimeSpan> {
        self.spans@
    }
}

impl Clone for TimeSpanSet {
    fn clone(&self) -> (r: TimeSpanSet)
        ensures
            r@ == self@,
    {
        proof {
            use_type_invariant(self);
        }
        let mut spans: Vec<TimeSpan> = Vec::new();
        let mut i: usize = 0;
        while i < self.spans.len()
            invariant
                i <= self.spans@.len(),
                spans@ == self.spans@.subrange(0, i as int),
            decreases self.spans.len() - i,
        {
            spans.push(self.spans[i]);
            i = i + 1;
            proof {
                assert(spans@ =~= self.spans@.subrange(0, i as int));
            }
        }
        proof {
            assert(spans@ =~= self.spans@);
        }
        TimeSpanSet { spans }
    }
}

impl TimeSpanSet {
    #[verifier::type_invariant]
    closed spec fn inv(self) -> bool {
        canonical(self.spans@)
    }

    /// The empty set.
    pub fn new() -> (r: TimeSpanSet)
        ensures
            r@ == Seq::<TimeSpan>::empty(),
            canonical(r@),
    {
        TimeSpanSet { spans: Vec::new() }
    }

    /// Builds a set from any list of well-formed spans; the result covers
    /// the same time as the list.
    pub fn from_spans(spans: Vec<TimeSpan>) -> (r: TimeSpanSet)
        requires
            forall|i: int| 0 <= i < spans@.len() ==> span_wf(#[trigger] spans@[i]),
        ensures
            canonical(r@),
            same_coverage(r@, spans@),
    {
        TimeSpanSet { spans: sort_and_merge(&spans) }
    }

    /// Adds the span `[start, end]`, merging it with the spans it overlaps or touches.
    pub fn add_span(&mut self, start: u64, end: u64)
        requires
            start <= end,
        ensures
            canonical(final(self)@),
            same_coverage(final(self)@, old(self)@.push(TimeSpan { start, end })),
    {
        proof {
            use_type_invariant(&*self);
        }
        let new_span = TimeSpan::new(start, end);
        let mut all: Vec<TimeSpan> = Vec::new();
        std::mem::swap(&mut all, &mut self.spans);
        all.push(new_span);
        proof {
            assert forall|i: int| 0 <= i < all@.len() implies span_wf(#[trigger] all@[i]) by {
                if i < all@.len() - 1 {
                    assert(all@[i] == old(self)@[i]);
                }
            }
        }
        self.spans = sort_and_merge(&all);
    }

    /// Whether the instant lies in a processed span.
    pub fn contains(&self, timestamp: u64) -> (r: bool)
        ensures
            r == covers_point(self@, timestamp as int),
    {
        let mut i: usize = 0;
        while i < self.spans.len()
            invariant
                i <= self.spans@.len(),
                forall|k: int| 0 <= k < i ==> !span_has_point(#[trigger] self.spans@[k], timestamp as int),
            decreases self.spans.len() - i,
        {
            if self.spans[i].contains(timestamp) {
                return true;
            }
            i = i + 1;
        }
        false
    }

    /// The stretches of `[start, end]` that no processed span covers, in order.
    pub fn get_gaps(&self, start: u64, end: u64) -> (gaps: Vec<TimeSpan>)
        ensures
            is_gap_list(self@, start as int, end as int, gaps@),
    {
        proof {
            use_type_invariant(self);
        }
        let ghost spans = self.spans@;
        let mut gaps: Vec<TimeSpan> = Vec::new();
        let mut current_start = start;
        let mut idx: usize = 0;
        let mut stopped = false;
        while idx < self.spans.len() && !stopped
            invariant
                spans == self.spans@,
                canonical(spans),
                idx <= spans.len(),
                start <= current_start,
                forall|i: int| 0 <= i < idx ==> #[trigger] spans[i].end <= current_start,
                current_start == start || exists|i: int| 0 <= i < spans.len() && spans[i].end == current_start,
                stopped ==> idx < spans.len() && spans[idx as int].start > end,
                forall|k: int| 0 <= k < gaps@.len() ==> start <= #[trigger] gaps@[k].start && gaps@[k].start
                    < gaps@[k].end && gaps@[k].end <= end && gaps@[k].end <= current_start,
                forall|k: int, l: int| 0 <= k < l < gaps@.len() ==> #[trigger] gaps@[k].end
                    <= #[trigger] gaps@[l].start,
                forall|k: int| 0 <= k < gaps@.len() ==> span_free(spans, #[trigger] gaps@[k].start as int,
                    gaps@[k].end as int),
                forall|k: int| 0 <= k < gaps@.len() ==> (#[trigger] gaps@[k].start == start || exists|i: int|
                    0 <= i < spans.len() && spans[i].end == gaps@[k].start),
                forall|k: int| 0 <= k < gaps@.len() ==> (#[trigger] gaps@[k].end == end || exists|i: int|
                    0 <= i < spans.len() && spans[i].start == gaps@[k].end),
                forall|t: int| start <= t < current_start && t < end && !covers_unit(spans, t) ==> exists|k: int|
                    0 <= k < gaps@.len() && #[trigger] span_has_unit(gaps@[k], t),
            decreases spans.len() - idx, (if stopped { 0int } else { 1int }),
        {
            let span = self.spans[idx];
            if span.start > end {
                stopped = true;
            } else if span.end < start {
                idx = idx + 1;
            } else {
                let ghost old_gaps = gaps@;
                let ghost old_current = current_start;
                if current_start < span.start {
                    let gap_end = if span.start <= end { span.start } else { end };
                    gaps.push(TimeSpan::new(current_start, gap_end));
                    proof {
                        let g = TimeSpan { start: current_start, end: gap_end };
                        assert(gaps@ == old_gaps.push(g));
                        assert forall|i: int| 0 <= i < spans.len() implies #[trigger] spans[i].end <= g.start
                            || spans[i].start >= g.end by {
                            if i < idx {
                            } else if i > idx {
                                assert(spans[idx as int].end < spans[i].start);
                            }
                        }
                        assert forall|k: int| 0 <= k < gaps@.len() implies (#[trigger] gaps@[k].end == end
                            || exists|i: int| 0 <= i < spans.len() && spans[i].start == gaps@[k].end) by {
                            if k == old_gaps.len() {
                                assert(spans[idx as int].start == gaps@[k].end);
                            } else {
                                assert(gaps@[k] == old_gaps[k]);
                            }
                        }
                        assert forall|k: int| 0 <= k < gaps@.len() implies (#[trigger] gaps@[k].start
                            == start || exists|i: int| 0 <= i < spans.len() && spans[i].end == gaps@[k].start) by {
                            if k < old_gaps.len() {
                                assert(gaps@[k] == old_gaps[k]);
                            }
                        }
                        assert forall|k: int| 0 <= k < gaps@.len() implies span_free(spans,
                            #[trigger] gaps@[k].start as int, gaps@[k].end as int) by {
                            if k < old_gaps.len() {
                                assert(gaps@[k] == old_gaps[k]);
                            }
                        }
                        assert forall|k: int, l: int| 0 <= k < l < gaps@.len() implies #[trigger] gaps@[k].end
                            <= #[trigger] gaps@[l].start by {
                            assert(gaps@[k] == old_gaps[k]);
                            if l < old_gaps.len() {
                                assert(gaps@[l] == old_gaps[l]);
                            } else {
                                assert(gaps@[l] == g);
                                assert(start <= old_gaps[k].start);
                                assert(old_gaps[k].end <= old_current);
                            }
                        }
                    }
                }
                current_start = if span.end >= current_start { span.end } else { current_start };
                proof {
                    assert forall|t: int| start <= t < current_start && t < end && !covers_unit(spans, t)
                        implies exists|k: int| 0 <= k < gaps@.len() && #[trigger] span_has_unit(gaps@[k], t) by {
                        if t < old_current {
                            let k = choose|k: int| 0 <= k < old_gaps.len() && #[trigger] span_has_unit(
                                old_gaps[k], t);
                            assert(gaps@[k] == old_gaps[k]);
                        } else if t < span.start {
                            let k = old_gaps.len() as int;
                            assert(span_has_unit(gaps@[k], t));
                        } else {
                            assert(span_has_unit(spans[idx as int], t));
                        }
                    }
                    assert forall|k: int| 0 <= k < gaps@.len() implies start <= #[trigger] gaps@[k].start
                        && gaps@[k].start < gaps@[k].end && gaps@[k].end <= end && gaps@[k].end
                        <= current_start by {
                        if k < old_gaps.len() {
                            assert(gaps@[k] == old_gaps[k]);
                        }
                    }
                }
                idx = idx + 1;
            }
        }
        let ghost old_gaps = gaps@;
        if current_start < end {
            gaps.push(TimeSpan::new(current_start, end));
            proof {
                let g = TimeSpan { start: current_start, end };
                assert forall|i: int| 0 <= i < spans.len() implies #[trigger] spans[i].end <= g.start
                    || spans[i].start >= g.end by {
                    if i >= idx {
                        assert(stopped);
                        if i > idx {
                            assert(spans[idx as int].end < spans[i].start);
                        }
                    }
                }
                assert forall|k: int| 0 <= k < gaps@.len() implies (#[trigger] gaps@[k].end == end
                    || exists|i: int| 0 <= i < spans.len() && spans[i].start == gaps@[k].end) by {
                    if k < old_gaps.len() {
                        assert(gaps@[k] == old_gaps[k]);
                    }
                }
                assert forall|k: int| 0 <= k < gaps@.len() implies (#[trigger] gaps@[k].start == start
                    || exists|i: int| 0 <= i < spans.len() && spans[i].end == gaps@[k].start) by {
                    if k < old_gaps.len() {
                        assert(gaps@[k] == old_gaps[k]);
                    }
                }
                assert forall|k: int| 0 <= k < gaps@.len() implies span_free(spans,
                    #[trigger] gaps@[k].start as int, gaps@[k].end as int) by {
                    if k < old_gaps.len() {
                        assert(gaps@[k] == old_gaps[k]);
                    }
                }
                assert forall|k: int, l: int| 0 <= k < l < gaps@.len() implies #[trigger] gaps@[k].end
                    <= #[trigger] gaps@[l].start by {
                    assert(gaps@[k] == old_gaps[k]);
                    if l < old_gaps.len() {
                        assert(gaps@[l] == old_gaps[l]);
                    } else {
                        assert(gaps@[l] == g);
                        assert(start <= old_gaps[k].start);
                        assert(old_gaps[k].end <= current_start);
                    }
                }
                assert forall|k: int| 0 <= k < gaps@.len() implies start <= #[trigger] gaps@[k].start
                    && gaps@[k].start < gaps@[k].end && gaps@[k].end <= end by {
                    if k < old_gaps.len() {
                        assert(gaps@[k] == old_gaps[k]);
                    }
                }
                assert forall|t: int| start <= t < end && !covers_unit(spans, t) implies exists|k: int|
                    0 <= k < gaps@.len() && #[trigger] span_has_unit(gaps@[k], t) by {
                    if t < current_start {
                        let k = choose|k: int| 0 <= k < old_gaps.len() && #[trigger] span_has_unit(
                            old_gaps[k], t);
                        assert(gaps@[k] == old_gaps[k]);
                    } else {
                        assert(span_has_unit(gaps@[old_gaps.len() as int], t));
                    }
                }
            }
        }
        gaps
    }

    /// The start of the earliest processed span.
    pub fn earliest(&self) -> (r: Option<u64>)
        ensures
            r == (if self@.len() == 0 { None } else { Some(self@[0].start) }),
    {
        if self.spans.len() == 0 {
            None
        } else {
            Some(self.spans[0].start)
        }
    }

    /// The end of the latest processed span.
    pub fn latest(&self) -> (r: Option<u64>)
        ensures
            r == (if self@.len() == 0 { None } else { Some(self@.last().end) }),
    {
        if self.spans.len() == 0 {
            None
        } else {
            Some(self.spans[self.spans.len() - 1].end)
        }
    }

    /// The number of separate spans.
    pub fn span_count(&self) -> (r: usize)
        ensures
            r == self@.len(),
    {
        self.spans.len()
    }

    /// All spans, in order.
    pub fn spans(&self) -> (r: &[TimeSpan])
        ensures
            r@ == self@,
            canonical(self@),
    {
        proof {
            use_type_invariant(self);
        }
        self.spans.as_slice()
    }

    /// The total number of seconds that the spans cover.
    pub fn total_coverage_seconds(&self) -> (r: u64)
        ensures
            r == total_length(self@),
    {
        proof {
            use_type_invariant(self);
        }
        let ghost spans = self.spans@;
        let mut total: u64 = 0;
        let mut i: usize = 0;
        while i < self.spans.len()
            invariant
                spans == self.spans@,
                canonical(spans),
                i <= spans.len(),
                total == total_length(spans.take(i as int)),
                i > 0 ==> total <= spans[i - 1].end - spans[0].start,
            decreases spans.len() - i,
        {
            let s = self.spans[i];
            proof {
                assert(spans.take(i as int + 1).drop_last() == spans.take(i as int));
                if i > 0 {
                    assert(spans[i - 1].end < spans[i as int].start);
                    assert(spans[0].start <= spans[i - 1].end);
                }
            }
            total = total + (s.end - s.start);
            i = i + 1;
        }
        proof {
            assert(spans.take(spans.len() as int) == spans);
        }
        total
    }
}

/// Nothing before the first span of a canonical list is covered.
proof fn lemma_nothing_before_first(a: Seq<TimeSpan>, t: int)
    requires
        canonical(a),
        a.len() > 0,
        t < a[0].start,
    ensures
        !covers_point(a, t),
        !covers_unit(a, t),
{
    if covers_point(a, t) {
        let i = choose|i: int| 0 <= i < a.len() && #[trigger] span_has_point(a[i], t);
        if i > 0 {
            assert(a[0].end < a[i].start);
        }
    }
    if covers_unit(a, t) {
        let i = choose|i: int| 0 <= i < a.len() && #[trigger] span_has_unit(a[i], t);
        if i > 0 {
            assert(a[0].end < a[i].start);
        }
    }
}

/// In a canonical list, the spans after the first cover exactly what the list
/// covers after the end of the first span.
proof fn lemma_rest_coverage(a: Seq<TimeSpan>)
    requires
        canonical(a),
        a.len() > 0,
    ensures
        canonical(a.drop_first()),
        forall|t: int| #[trigger] covers_point(a.drop_first(), t) == (t > a[0].end && covers_point(a, t)),
        forall|t: int| #[trigger] covers_unit(a.drop_first(), t) == (t >= a[0].end && covers_unit(a, t)),
{
    let r = a.drop_first();
    assert forall|i: int, j: int| 0 <= i < j < r.len() implies #[trigger] r[i].end < #[trigger] r[j].start by {
        assert(r[i] == a[i + 1] && r[j] == a[j + 1]);
    }
    assert forall|i: int| 0 <= i < r.len() implies span_wf(#[trigger] r[i]) by {
        assert(r[i] == a[i + 1]);
    }
    assert forall|t: int| #[trigger] covers_point(r, t) == (t > a[0].end && covers_point(a, t)) by {
        if covers_point(r, t) {
            let i = choose|i: int| 0 <= i < r.len() && #[trigger] span_has_point(r[i], t);
            assert(r[i] == a[i + 1]);
            assert(a[0].end < a[i + 1].start);
            assert(span_has_point(a[i + 1], t));
        }
        if t > a[0].end && covers_point(a, t) {
            let i = choose|i: int| 0 <= i < a.len() && #[trigger] span_has_point(a[i], t);
            assert(i != 0);
            assert(r[i - 1] == a[i]);
            assert(span_has_point(r[i - 1], t));
        }
    }
    assert forall|t: int| #[trigger] covers_unit(r, t) == (t >= a[0].end && covers_unit(a, t)) by {
        if covers_unit(r, t) {
            let i = choose|i: int| 0 <= i < r.len() && #[trigger] span_has_unit(r[i], t);
            assert(r[i] == a[i + 1]);
            assert(a[0].end < a[i + 1].start);
            assert(span_has_unit(a[i + 1], t));
        }
        if t >= a[0].end && covers_unit(a, t) {
            let i = choose|i: int| 0 <= i < a.len() && #[trigger] span_has_unit(a[i], t);
            assert(i != 0);
            assert(r[i - 1] == a[i]);
            assert(span_has_unit(r[i - 1], t));
        }
    }
}

/// A canonical list is determined by the time it covers: two canonical lists
/// that cover the same instants and seconds are the same list.
pub proof fn law_canonical_form_is_unique(a: Seq<TimeSpan>, b: Seq<TimeSpan>)
    requires
        canonical(a),
        canonical(b),
        same_coverage(a, b),
    ensures
        a == b,
    decreases a.len() + b.len(),
{
    if a.len() == 0 || b.len() == 0 {
        if a.len() > 0 {
            assert(span_has_point(a[0], a[0].start as int));
            assert(covers_point(a, a[0].start as int));
        }
        if b.len() > 0 {
            assert(span_has_point(b[0], b[0].start as int));
            assert(covers_point(b, b[0].start as int));
        }
        assert(a =~= b);
    } else {
        let (x, y) = (a[0], b[0]);
        assert(span_has_point(x, x.start as int));
        assert(covers_point(a, x.start as int));
        assert(span_has_point(y, y.start as int));
        assert(covers_point(b, y.start as int));
        if x.start < y.start {
            lemma_nothing_before_first(b, x.start as int);
        }
        if y.start < x.start {
            lemma_nothing_before_first(a, y.start as int);
        }
        assert(x.start == y.start);
        if x.end < y.end {
            assert(span_has_unit(y, x.end as int));
            assert(covers_unit(b, x.end as int));
            let i = choose|i: int| 0 <= i < a.len() && #[trigger] span_has_unit(a[i], x.end as int);
            if i > 0 {
                assert(a[0].end < a[i].start);
            }
        }
        if y.end < x.end {
            assert(span_has_unit(x, y.end as int));
            assert(covers_unit(a, y.end as int));
            let i = choose|i: int| 0 <= i < b.len() && #[trigger] span_has_unit(b[i], y.end as int);
            if i > 0 {
                assert(b[0].end < b[i].start);
            }
        }
        assert(x == y);
        lemma_rest_coverage(a);
        lemma_rest_coverage(b);
        assert(same_coverage(a.drop_first(), b.drop_first()));
        law_canonical_form_is_unique(a.drop_first(), b.drop_first());
        assert(a =~= seq![x] + a.drop_first());
        assert(b =~= seq![y] + b.drop_first());
    }
}

/// Adding a span that is already covered leaves the set as it was.
pub proof fn law_adding_covered_span_changes_nothing(before: Seq<TimeSpan>, span: TimeSpan, after: Seq<TimeSpan>)
    requires
        canonical(before),
        span_wf(span),
        forall|t: int| span_has_point(span, t) ==> covers_point(before, t),
        forall|t: int| span_has_unit(span, t) ==> covers_unit(before, t),
        canonical(after),
        same_coverage(after, before.push(span)),
    ensures
        after == before,
{
    lemma_coverage_push(before, span);
    law_canonical_form_is_unique(after, before);
}

/// The order in which two spans are added does not matter.
pub proof fn law_add_order_is_irrelevant(
    s: Seq<TimeSpan>,
    x: TimeSpan,
    y: TimeSpan,
    sx: Seq<TimeSpan>,
    sxy: Seq<TimeSpan>,
    sy: Seq<TimeSpan>,
    syx: Seq<TimeSpan>,
)
    requires
        canonical(s),
        span_wf(x),
        span_wf(y),
        canonical(sx),
        same_coverage(sx, s.push(x)),
        canonical(sxy),
        same_coverage(sxy, sx.push(y)),
        canonical(sy),
        same_coverage(sy, s.push(y)),
        canonical(syx),
        same_coverage(syx, sy.push(x)),
    ensures
        sxy == syx,
{
    lemma_coverage_push(s, x);
    lemma_coverage_push(s, y);
    lemma_coverage_push(sx, y);
    lemma_coverage_push(sy, x);
    law_canonical_form_is_unique(sxy, syx);
}

/// After a span is added, no part of it is reported as a gap.
pub proof fn law_added_span_has_no_gaps(
    before: Seq<TimeSpan>,
    start: u64,
    end: u64,
    after: Seq<TimeSpan>,
    gaps: Seq<TimeSpan>,
)
    requires
        start <= end,
        canonical(after),
        same_coverage(after, before.push(TimeSpan { start, end })),
        is_gap_list(after, start as int, end as int, gaps),
    ensures
        gaps.len() == 0,
{
    if gaps.len() > 0 {
        let g = gaps[0];
        let t = g.start as int;
        lemma_coverage_push(before, TimeSpan { start, end });
        assert(span_has_unit(TimeSpan { start, end }, t));
        assert(covers_unit(after, t));
        let i = choose|i: int| 0 <= i < after.len() && #[trigger] span_has_unit(after[i], t);
        assert(span_free(after, g.start as int, g.end as int));
        assert(after[i].end <= g.start || after[i].start >= g.end);
    }
}

/// No instant strictly inside a gap, and no second of a gap, is covered.
pub proof fn law_gaps_are_uncovered(spans: Seq<TimeSpan>, start: int, end: int, gaps: Seq<TimeSpan>, k: int, t: int)
    requires
        is_gap_list(spans, start, end, gaps),
        0 <= k < gaps.len(),
    ensures
        gaps[k].start < t < gaps[k].end ==> !covers_point(spans, t),
        gaps[k].start <= t && t + 1 <= gaps[k].end ==> !covers_unit(spans, t),
{
    assert(span_free(spans, gaps[k].start as int, gaps[k].end as int));
    if gaps[k].start < t < gaps[k].end && covers_point(spans, t) {
        let i = choose|i: int| 0 <= i < spans.len() && #[trigger] span_has_point(spans[i], t);
        assert(spans[i].end <= gaps[k].start || spans[i].start >= gaps[k].end);
    }
    if gaps[k].start <= t && t + 1 <= gaps[k].end && covers_unit(spans, t) {
        let i = choose|i: int| 0 <= i < spans.len() && #[trigger] span_has_unit(spans[i], t);
        assert(spans[i].end <= gaps[k].start || spans[i].start >= gaps[k].end);
    }
}

/// The earliest start is the first covered instant and the latest end the
/// last one.
pub proof fn law_earliest_and_latest_bound_coverage(a: Seq<TimeSpan>, t: int)
    requires
        canonical(a),
        a.len() > 0,
    ensures
        covers_point(a, a[0].start as int),
        covers_point(a, a.last().end as int),
        covers_point(a, t) ==> a[0].start <= t <= a.last().end,
{
    assert(span_has_point(a[0], a[0].start as int));
    assert(span_has_point(a.last(), a.last().end as int));
    if covers_point(a, t) {
        let i = choose|i: int| 0 <= i < a.len() && #[trigger] span_has_point(a[i], t);
        if i > 0 {
            assert(a[0].end < a[i].start);
        }
        if i < a.len() - 1 {
            assert(a[i].end < a[a.len() - 1].start);
        }
    }
}

/// The total covered time is at most the time from the earliest start to the
/// latest end.
pub proof fn law_total_coverage_within_extent(a: Seq<TimeSpan>)
    requires
        canonical(a),
        a.len() > 0,
    ensures
        0 <= total_length(a) <= a.last().end - a[0].start,
    decreases a.len(),
{
    if a.len() > 1 {
        let p = a.drop_last();
        assert forall|i: int, j: int| 0 <= i < j < p.len() implies #[trigger] p[i].end < #[trigger] p[j].start by {
            assert(p[i] == a[i] && p[j] == a[j]);
        }
        assert forall|i: int| 0 <= i < p.len() implies span_wf(#[trigger] p[i]) by {
            assert(p[i] == a[i]);
        }
        law_total_coverage_within_extent(p);
        assert(p.last() == a[a.len() - 2]);
        assert(p[0] == a[0]);
        assert(a[a.len() - 2].end < a[a.len() - 1].start);
        assert(span_wf(a[a.len() - 1]));
    } else {
        assert(a.drop_last().len() == 0);
        assert(total_length(a.drop_last()) == 0);
        assert(span_wf(a[0]));
    }
}

} // verus!
