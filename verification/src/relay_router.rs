//! The decisions of the relay router: which events the configured filters
//! let through, which subscription filters to ask the relays for, and when to
//! keep fetching. The relay connections themselves live in the program.

use vstd::prelude::*;

use crate::config::{strings_view, Config, SubFilter};
use crate::event::{copy_strings, kind_of_tag, tag_content, tag_kind, tag_view, Event, EventView};
use crate::fetcher::FetchResult;
use crate::nostr_support::{is_public_key_hex, public_key_hex_is_valid};
use crate::strings::{chars_of, is_ascii_letter, str_equal};
use crate::timespan::{TimeSpan, TimeSpanSet};

verus! {

/// A tag filter name without its leading `#`, if it has one.
pub open spec fn tag_filter_key(name: Seq<char>) -> Seq<char> {
    if name.len() > 0 && name[0] == '#' {
        name.drop_first()
    } else {
        name
    }
}

/// The tag is of the given kind and its value is one of `values`.
pub open spec fn tag_value_matches(tag: Seq<Seq<char>>, key: Seq<char>, values: Seq<Seq<char>>) -> bool {
    &&& tag_kind(tag) == Some(key)
    &&& tag_content(tag) matches Some(v) && values.contains(v)
}

/// Some tag of the event is of the given kind with one of `values`.
pub open spec fn tag_condition_holds(event: EventView, key: Seq<char>, values: Seq<Seq<char>>) -> bool {
    exists|i: int| 0 <= i < event.tags.len() && #[trigger] tag_value_matches(event.tags[i], key, values)
}

/// The event meets every condition of the filter: its author is listed, its
/// kind is listed, and for each tag filter it has a tag of that kind whose
/// value is accepted.
pub open spec fn filter_matches(event: Event, f: SubFilter) -> bool {
    &&& (f.authors matches Some(a) ==> strings_view(a@).contains(event.pubkey@))
    &&& (f.kinds matches Some(k) ==> k@.contains(event.kind))
    &&& forall|j: int| 0 <= j < f.tags@.len() ==> tag_condition_holds(
        event@,
        tag_filter_key((#[trigger] f.tags@[j]).0@),
        strings_view(f.tags@[j].1@),
    )
}

/// Whether the list holds the string.
fn strings_contain(v: &Vec<String>, s: &str) -> (r: bool)
    ensures
        r == strings_view(v@).contains(s@),
{
    let mut i: usize = 0;
    while i < v.len()
        invariant
            i <= v@.len(),
            forall|k: int| 0 <= k < i ==> (#[trigger] v@[k])@ != s@,
        decreases v.len() - i,
    {
        if str_equal(v[i].as_str(), s) {
            proof {
                assert(strings_view(v@)[i as int] == s@);
            }
            return true;
        }
        i = i + 1;
    }
    proof {
        if strings_view(v@).contains(s@) {
            let k = choose|k: int| 0 <= k < strings_view(v@).len() && strings_view(v@)[k] == s@;
            assert(v@[k]@ == s@);
        }
    }
    false
}

/// Whether the list holds the kind.
fn kinds_contain(v: &Vec<u16>, kind: u16) -> (r: bool)
    ensures
        r == v@.contains(kind),
{
    let mut i: usize = 0;
    while i < v.len()
        invariant
            i <= v@.len(),
            forall|k: int| 0 <= k < i ==> #[trigger] v@[k] != kind,
        decreases v.len() - i,
    {
        if v[i] == kind {
            return true;
        }
        i = i + 1;
    }
    false
}

/// The tag filter key of a name.
fn filter_key(name: &str) -> (r: Vec<char>)
    ensures
        r@ == tag_filter_key(name@),
{
    let cs = chars_of(name);
    if cs.len() > 0 && cs[0] == '#' {
        let mut r: Vec<char> = Vec::new();
        let mut i: usize = 1;
        while i < cs.len()
            invariant
                1 <= i <= cs@.len(),
                r@ == cs@.subrange(1, i as int),
            decreases cs.len() - i,
        {
            r.push(cs[i]);
            i = i + 1;
            proof {
                assert(r@ =~= cs@.subrange(1, i as int));
            }
        }
        proof {
            assert(r@ =~= cs@.drop_first());
        }
        r
    } else {
        cs
    }
}

/// Whether the string holds exactly the characters of `cs`.
fn spells(s: &str, cs: &Vec<char>) -> (r: bool)
    ensures
        r == (s@ == cs@),
{
    let t = chars_of(s);
    if t.len() != cs.len() {
        return false;
    }
    let mut i: usize = 0;
    while i < t.len()
        invariant
            t@ == s@,
            t@.len() == cs@.len(),
            i <= t@.len(),
            forall|k: int| 0 <= k < i ==> t@[k] == cs@[k],
        decreases t.len() - i,
    {
        if t[i] != cs[i] {
            return false;
        }
        i = i + 1;
    }
    proof {
        assert(t@ =~= cs@);
    }
    true
}

/// Whether some tag of the event is of kind `key` with one of `values`.
fn event_has_tag_value(event: &Event, key: &Vec<char>, values: &Vec<String>) -> (r: bool)
    ensures
        r == tag_condition_holds(event@, key@, strings_view(values@)),
{
    let mut i: usize = 0;
    while i < event.tags.len()
        invariant
            i <= event.tags@.len(),
            forall|k: int| 0 <= k < i ==> !tag_value_matches(#[trigger] event@.tags[k], key@, strings_view(values@)),
        decreases event.tags.len() - i,
    {
        let tag = &event.tags[i];
        proof {
            assert(event@.tags[i as int] == tag_view(*tag));
        }
        let matched = match kind_of_tag(tag) {
            Some(kind) => spells(kind.as_str(), key) && tag.len() > 1 && strings_contain(values, tag[1].as_str()),
            None => false,
        };
        if matched {
            proof {
                assert(tag_view(*tag)[1] == tag@[1]@);
                assert(tag_value_matches(event@.tags[i as int], key@, strings_view(values@)));
            }
            return true;
        }
        i = i + 1;
    }
    false
}

/// Whether the event meets every condition of the filter.
pub fn matches_single_filter(event: &Event, filter: &SubFilter) -> (r: bool)
    ensures
        r == filter_matches(*event, *filter),
{
    if let Some(authors) = &filter.authors {
        if !strings_contain(authors, event.pubkey.as_str()) {
            return false;
        }
    }
    if let Some(kinds) = &filter.kinds {
        if !kinds_contain(kinds, event.kind) {
            return false;
        }
    }
    let mut j: usize = 0;
    while j < filter.tags.len()
        invariant
            j <= filter.tags@.len(),
            forall|k: int| 0 <= k < j ==> tag_condition_holds(
                event@,
                tag_filter_key((#[trigger] filter.tags@[k]).0@),
                strings_view(filter.tags@[k].1@),
            ),
        decreases filter.tags.len() - j,
    {
        let key = filter_key(filter.tags[j].0.as_str());
        if !event_has_tag_value(event, &key, &filter.tags[j].1) {
            return false;
        }
        j = j + 1;
    }
    true
}

/// Whether the event meets at least one of the filters; with no filters,
/// every event does.
pub fn event_matches_filters(event: &Event, filters: &[SubFilter]) -> (r: bool)
    ensures
        r == (filters@.len() == 0 || exists|i: int| 0 <= i < filters@.len() && filter_matches(*event, #[trigger] filters@[i])),
{
    if filters.len() == 0 {
        return true;
    }
    let mut i: usize = 0;
    while i < filters.len()
        invariant
            i <= filters@.len(),
            forall|k: int| 0 <= k < i ==> !filter_matches(*event, #[trigger] filters@[k]),
        decreases filters.len() - i,
    {
        if matches_single_filter(event, &filters[i]) {
            return true;
        }
        i = i + 1;
    }
    false
}

/// A filter made of tag filters alone matches an event as soon as, for each
/// tag filter, some tag of the event (wherever it stands, whatever other tags
/// of that kind come before it) has the filter's kind and an accepted value.
pub proof fn law_any_accepted_tag_meets_its_tag_filter(event: Event, f: SubFilter)
    requires
        f.authors is None,
        f.kinds is None,
        forall|j: int|
            0 <= j < f.tags@.len() ==> exists|i: int|
                0 <= i < event@.tags.len() && #[trigger] tag_kind(event@.tags[i]) == Some(
                    tag_filter_key((#[trigger] f.tags@[j]).0@),
                ) && event@.tags[i].len() > 1 && strings_view(f.tags@[j].1@).contains(event@.tags[i][1]),
    ensures
        filter_matches(event, f),
{
    assert forall|j: int| 0 <= j < f.tags@.len() implies tag_condition_holds(
        event@,
        tag_filter_key((#[trigger] f.tags@[j]).0@),
        strings_view(f.tags@[j].1@),
    ) by {
        let i = choose|i: int|
            0 <= i < event@.tags.len() && #[trigger] tag_kind(event@.tags[i]) == Some(tag_filter_key(f.tags@[j].0@))
                && event@.tags[i].len() > 1 && strings_view(f.tags@[j].1@).contains(event@.tags[i][1]);
        assert(tag_value_matches(event@.tags[i], tag_filter_key(f.tags@[j].0@), strings_view(f.tags@[j].1@)));
    }
}

/// Two events with the same author, the same kind and the same tags (in any
/// order, any number of times) are matched alike by every filter.
pub proof fn law_tag_order_does_not_change_matching(event: Event, other: Event, f: SubFilter)
    requires
        event.pubkey@ == other.pubkey@,
        event.kind == other.kind,
        forall|t: Seq<Seq<char>>| event@.tags.contains(t) <==> other@.tags.contains(t),
    ensures
        filter_matches(event, f) == filter_matches(other, f),
{
    assert forall|key: Seq<char>, values: Seq<Seq<char>>|
        tag_condition_holds(event@, key, values) implies #[trigger] tag_condition_holds(other@, key, values) by {
        let i = choose|i: int| 0 <= i < event@.tags.len() && #[trigger] tag_value_matches(event@.tags[i], key, values);
        assert(event@.tags.contains(event@.tags[i]));
        let k = choose|k: int| 0 <= k < other@.tags.len() && other@.tags[k] == event@.tags[i];
        assert(tag_value_matches(other@.tags[k], key, values));
    }
    assert forall|key: Seq<char>, values: Seq<Seq<char>>|
        tag_condition_holds(other@, key, values) implies #[trigger] tag_condition_holds(event@, key, values) by {
        let i = choose|i: int| 0 <= i < other@.tags.len() && #[trigger] tag_value_matches(other@.tags[i], key, values);
        assert(other@.tags.contains(other@.tags[i]));
        let k = choose|k: int| 0 <= k < event@.tags.len() && event@.tags[k] == other@.tags[i];
        assert(tag_value_matches(event@.tags[k], key, values));
    }
}

/// Every relay filter made from the configured filters starts at the
/// requested instant and has no end and no limit.
pub proof fn law_converted_filters_start_at_since(fs: Seq<SubFilter>, since: Option<u64>, r: Seq<NostrFilter>)
    requires
        r.len() == fs.len(),
        forall|i: int| 0 <= i < r.len() ==> converted(fs[i], since, #[trigger] r[i]),
    ensures
        forall|i: int| 0 <= i < r.len() ==> (#[trigger] r[i]).since == since && r[i].until is None && r[i].limit is None,
{
}

/// A subscription filter as the relays receive it: since when, until when, at
/// most how many events, which authors (hex public keys), which kinds, and
/// for single-letter tags the accepted values.
pub struct NostrFilter {
    pub since: Option<u64>,
    pub until: Option<u64>,
    pub limit: Option<usize>,
    pub authors: Option<Vec<String>>,
    pub kinds: Option<Vec<u16>>,
    pub tags: Vec<(char, Vec<String>)>,
}

/// The authors that are valid hex public keys, in order.
pub open spec fn valid_authors(a: Seq<Seq<char>>) -> Seq<Seq<char>>
    decreases a.len(),
{
    if a.len() == 0 {
        Seq::empty()
    } else if is_public_key_hex(a.last()) {
        valid_authors(a.drop_last()).push(a.last())
    } else {
        valid_authors(a.drop_last())
    }
}

/// The single letter that a tag filter name stands for, if it stands for one.
pub open spec fn single_letter(name: Seq<char>) -> Option<char> {
    let key = tag_filter_key(name);
    if key.len() == 1 && is_ascii_letter(key[0]) {
        Some(key[0])
    } else {
        None
    }
}

/// The tag filters that name a single letter, with their values, in order.
pub open spec fn letter_tags(tags: Seq<(Seq<char>, Seq<Seq<char>>)>) -> Seq<(char, Seq<Seq<char>>)>
    decreases tags.len(),
{
    if tags.len() == 0 {
        Seq::empty()
    } else {
        match single_letter(tags.last().0) {
            Some(c) => letter_tags(tags.drop_last()).push((c, tags.last().1)),
            None => letter_tags(tags.drop_last()),
        }
    }
}

/// The contents of a list of tag filters.
pub open spec fn tag_filters_view(t: Seq<(String, Vec<String>)>) -> Seq<(Seq<char>, Seq<Seq<char>>)> {
    t.map_values(|p: (String, Vec<String>)| (p.0@, strings_view(p.1@)))
}

/// The contents of a list of single-letter tag filters.
pub open spec fn letter_filters_view(t: Seq<(char, Vec<String>)>) -> Seq<(char, Seq<Seq<char>>)> {
    t.map_values(|p: (char, Vec<String>)| (p.0, strings_view(p.1@)))
}

/// The relay filter that a subscription filter becomes: authors that are not
/// valid hex keys are left out, and only tag filters naming one ASCII letter
/// are kept.
pub open spec fn converted(f: SubFilter, since: Option<u64>, n: NostrFilter) -> bool {
    &&& n.since == since
    &&& n.until is None
    &&& n.limit is None
    &&& match f.authors {
        None => n.authors is None,
        Some(a) => n.authors matches Some(b) && strings_view(b@) == valid_authors(strings_view(a@)),
    }
    &&& match f.kinds {
        None => n.kinds is None,
        Some(k) => n.kinds matches Some(k2) && k2@ == k@,
    }
    &&& letter_filters_view(n.tags@) == letter_tags(tag_filters_view(f.tags@))
}

/// A filter that only bounds the start.
pub open spec fn since_only(since: Option<u64>, n: NostrFilter) -> bool {
    &&& n.since == since
    &&& n.until is None
    &&& n.limit is None
    &&& n.authors is None
    &&& n.kinds is None
    &&& n.tags@.len() == 0
}

fn copy_kinds(v: &Vec<u16>) -> (r: Vec<u16>)
    ensures
        r@ == v@,
{
    let mut r: Vec<u16> = Vec::new();
    let mut i: usize = 0;
    while i < v.len()
        invariant
            i <= v@.len(),
            r@ == v@.subrange(0, i as int),
        decreases v.len() - i,
    {
        r.push(v[i]);
        i = i + 1;
        proof {
            assert(r@ =~= v@.subrange(0, i as int));
        }
    }
    proof {
        assert(r@ =~= v@);
    }
    r
}

fn keep_valid_authors(a: &Vec<String>) -> (r: Vec<String>)
    ensures
        strings_view(r@) == valid_authors(strings_view(a@)),
{
    let mut r: Vec<String> = Vec::new();
    let mut i: usize = 0;
    while i < a.len()
        invariant
            i <= a@.len(),
            strings_view(r@) == valid_authors(strings_view(a@).subrange(0, i as int)),
        decreases a.len() - i,
    {
        let ghost before = r@;
        proof {
            let p = strings_view(a@).subrange(0, i as int + 1);
            assert(p.drop_last() =~= strings_view(a@).subrange(0, i as int));
            assert(p.last() == a@[i as int]@);
        }
        if public_key_hex_is_valid(a[i].as_str()) {
            r.push(a[i].clone());
            proof {
                assert(strings_view(r@) =~= strings_view(before).push(a@[i as int]@));
            }
        }
        i = i + 1;
    }
    proof {
        assert(strings_view(a@).subrange(0, a@.len() as int) =~= strings_view(a@));
    }
    r
}

fn keep_letter_tags(t: &Vec<(String, Vec<String>)>) -> (r: Vec<(char, Vec<String>)>)
    ensures
        letter_filters_view(r@) == letter_tags(tag_filters_view(t@)),
{
    let mut r: Vec<(char, Vec<String>)> = Vec::new();
    let mut i: usize = 0;
    while i < t.len()
        invariant
            i <= t@.len(),
            letter_filters_view(r@) == letter_tags(tag_filters_view(t@).subrange(0, i as int)),
        decreases t.len() - i,
    {
        let ghost before = r@;
        proof {
            let p = tag_filters_view(t@).subrange(0, i as int + 1);
            assert(p.drop_last() =~= tag_filters_view(t@).subrange(0, i as int));
            assert(p.last() == (t@[i as int].0@, strings_view(t@[i as int].1@)));
        }
        let key = filter_key(t[i].0.as_str());
        if key.len() == 1 {
            let c = key[0];
            let n = c as u32;
            if (65 <= n && n <= 90) || (97 <= n && n <= 122) {
                r.push((c, copy_strings(&t[i].1)));
                proof {
                    assert(letter_filters_view(r@) =~= letter_filters_view(before).push(
                        (c, strings_view(t@[i as int].1@)),
                    ));
                }
            }
        }
        i = i + 1;
    }
    proof {
        assert(tag_filters_view(t@).subrange(0, t@.len() as int) =~= tag_filters_view(t@));
    }
    r
}

/// The relay filter for one subscription filter.
fn convert_filter(f: &SubFilter, since: Option<u64>) -> (r: NostrFilter)
    ensures
        converted(*f, since, r),
{
    let authors = match &f.authors {
        Some(a) => Some(keep_valid_authors(a)),
        None => None,
    };
    let kinds = match &f.kinds {
        Some(k) => Some(copy_kinds(k)),
        None => None,
    };
    NostrFilter { since, until: None, limit: None, authors, kinds, tags: keep_letter_tags(&f.tags) }
}

/// The relay filters for the configured subscription filters: one per
/// filter, each starting at `since`; with no filters, one filter that only
/// bounds the start.
pub fn convert_filters_to_nostr(filters: &[SubFilter], since: Option<u64>) -> (r: Vec<NostrFilter>)
    ensures
        filters@.len() == 0 ==> r@.len() == 1 && since_only(since, r@[0]),
        filters@.len() > 0 ==> r@.len() == filters@.len() && forall|i: int| 0 <= i < r@.len() ==> converted(
            filters@[i],
            since,
            #[trigger] r@[i],
        ),
        forall|i: int| 0 <= i < r@.len() ==> (#[trigger] r@[i]).since == since,
{
    if filters.len() == 0 {
        return vec![NostrFilter { since, until: None, limit: None, authors: None, kinds: None, tags: Vec::new() }];
    }
    let mut r: Vec<NostrFilter> = Vec::new();
    let mut i: usize = 0;
    while i < filters.len()
        invariant
            i <= filters@.len(),
            r@.len() == i,
            forall|k: int| 0 <= k < i ==> converted(filters@[k], since, #[trigger] r@[k]),
        decreases filters.len() - i,
    {
        r.push(convert_filter(&filters[i], since));
        i = i + 1;
    }
    r
}

/// The filters to stream with from `start_time`: the configured ones, or one
/// that only bounds the start.
pub fn stream_filters(config: &Config, start_time: u64) -> (r: Vec<NostrFilter>)
    ensures
        match config.filters {
            Some(f) => f@.len() == 0 ==> r@.len() == 1 && since_only(Some(start_time), r@[0]),
            None => r@.len() == 1 && since_only(Some(start_time), r@[0]),
        },
        match config.filters {
            Some(f) => f@.len() > 0 ==> r@.len() == f@.len() && forall|i: int|
                0 <= i < r@.len() ==> converted(f@[i], Some(start_time), #[trigger] r@[i]),
            None => true,
        },
        forall|i: int| 0 <= i < r@.len() ==> (#[trigger] r@[i]).since == Some(start_time),
{
    match &config.filters {
        Some(f) => convert_filters_to_nostr(f.as_slice(), Some(start_time)),
        None => vec![NostrFilter {
            since: Some(start_time),
            until: None,
            limit: None,
            authors: None,
            kinds: None,
            tags: Vec::new(),
        }],
    }
}

/// The filter that fetches a gap: the events from its start to its end, at
/// most `limit` of them when a limit is given.
pub fn gap_query(gap: &TimeSpan, limit: Option<usize>) -> (r: NostrFilter)
    ensures
        r.since == Some(gap.start),
        r.until == Some(gap.end),
        r.limit == limit,
        r.authors is None,
        r.kinds is None,
        r.tags@.len() == 0,
{
    NostrFilter { since: Some(gap.start), until: Some(gap.end), limit, authors: None, kinds: None, tags: Vec::new() }
}

/// The limit of a fetch request: none for zero, which asks for no limit.
pub fn request_limit(limit: usize) -> (r: Option<usize>)
    ensures
        limit == 0 ==> r is None,
        limit > 0 ==> r == Some(limit),
{
    if limit > 0 {
        Some(limit)
    } else {
        None
    }
}

/// Whether ranged fetching goes on: the last round fetched something and
/// returned as many events as the limit allows, so more may remain.
pub fn should_fetch_again(result: &FetchResult, limit: usize) -> (r: bool)
    ensures
        r == (result.fetched && (result.events_count as usize) >= limit),
{
    result.fetched && (result.events_count as usize) >= limit
}

/// The range in which to fill gaps: from the earliest to the latest collected
/// instant, or none when nothing is collected.
pub fn gap_fill_range(spans: &TimeSpanSet) -> (r: Option<(u64, u64)>)
    ensures
        spans@.len() == 0 ==> r is None,
        spans@.len() > 0 ==> r == Some((spans@[0].start, spans@.last().end)),
{
    if spans.span_count() == 0 {
        return None;
    }
    match (spans.earliest(), spans.latest()) {
        (Some(e), Some(l)) => Some((e, l)),
        _ => None,
    }
}

} // verus!
