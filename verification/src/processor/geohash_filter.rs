use vstd::prelude::*;

use super::passthrough::{pass_through, passes_through};
use super::Processor;
use crate::config::strings_view;
use crate::event::{events_view, kind_of_tag, tag_content, tag_kind, tag_view, Event};
use crate::strings::{starts_with, str_equal};

verus! {

/// With no prefixes every geohash matches; otherwise one that starts with
/// one of the prefixes.
pub open spec fn geohash_matches(prefixes: Seq<Seq<char>>, value: Seq<char>) -> bool {
    prefixes.len() == 0 || exists|i: int| 0 <= i < prefixes.len() && #[trigger] prefixes[i].is_prefix_of(value)
}

/// A `g` tag whose geohash matches; a `g` tag without a value counts only
/// when there are no prefixes.
pub open spec fn geohash_tag_passes(prefixes: Seq<Seq<char>>, tag: Seq<Seq<char>>) -> bool {
    &&& tag_kind(tag) == Some("g"@)
    &&& match tag_content(tag) {
        Some(v) => geohash_matches(prefixes, v),
        None => prefixes.len() == 0,
    }
}

/// Some tag of the event passes.
pub open spec fn has_passing_geohash(prefixes: Seq<Seq<char>>, event: Event) -> bool {
    exists|i: int| 0 <= i < event@.tags.len() && #[trigger] geohash_tag_passes(prefixes, event@.tags[i])
}

/// The event alone when it has a passing geohash tag, nothing otherwise.
pub open spec fn geohash_result(prefixes: Seq<Seq<char>>, event: Event, out: Seq<Event>) -> bool {
    if has_passing_geohash(prefixes, event) {
        passes_through(event, out)
    } else {
        out.len() == 0
    }
}

/// An event is forwarded, alone and unchanged, as soon as any of its `g` tags
/// (wherever it stands among its tags, whatever other `g` tags it has) holds
/// a geohash that starts with an allowed prefix, or any geohash when no prefix
/// is given.
pub proof fn law_any_matching_g_tag_forwards(prefixes: Seq<Seq<char>>, event: Event, i: int, out: Seq<Event>)
    requires
        0 <= i < event@.tags.len(),
        tag_kind(event@.tags[i]) == Some("g"@),
        event@.tags[i].len() > 1,
        prefixes.len() == 0 || exists|k: int| 0 <= k < prefixes.len() && #[trigger] prefixes[k].is_prefix_of(
            event@.tags[i][1],
        ),
        geohash_result(prefixes, event, out),
    ensures
        has_passing_geohash(prefixes, event),
        events_view(out) == seq![event@],
{
    assert(geohash_tag_passes(prefixes, event@.tags[i]));
}

/// Two events with the same tags, in any order and any number of times, are
/// both forwarded or both dropped.
pub proof fn law_tag_order_does_not_change_geohash(prefixes: Seq<Seq<char>>, event: Event, other: Event)
    requires
        forall|t: Seq<Seq<char>>| event@.tags.contains(t) <==> other@.tags.contains(t),
    ensures
        has_passing_geohash(prefixes, event) == has_passing_geohash(prefixes, other),
{
    if has_passing_geohash(prefixes, event) {
        let i = choose|i: int| 0 <= i < event@.tags.len() && #[trigger] geohash_tag_passes(prefixes, event@.tags[i]);
        assert(event@.tags.contains(event@.tags[i]));
        let k = choose|k: int| 0 <= k < other@.tags.len() && other@.tags[k] == event@.tags[i];
        assert(geohash_tag_passes(prefixes, other@.tags[k]));
    }
    if has_passing_geohash(prefixes, other) {
        let i = choose|i: int| 0 <= i < other@.tags.len() && #[trigger] geohash_tag_passes(prefixes, other@.tags[i]);
        assert(other@.tags.contains(other@.tags[i]));
        let k = choose|k: int| 0 <= k < event@.tags.len() && event@.tags[k] == other@.tags[i];
        assert(geohash_tag_passes(prefixes, event@.tags[k]));
    }
}

/// Passes on the events that carry a geohash (`g`) tag, optionally only those
/// whose geohash starts with one of the allowed prefixes.
#[derive(Debug, Clone)]
pub struct GeohashFilterProcessor {
    allowed_prefixes: Vec<String>,
}

impl GeohashFilterProcessor {
    pub closed spec fn allowed(self) -> Seq<Seq<char>> {
        strings_view(self.allowed_prefixes@)
    }

    /// A filter for the given prefixes; with none, every geohash passes.
    pub fn new(allowed_prefixes: Vec<String>) -> (r: GeohashFilterProcessor)
        ensures
            r.allowed() == strings_view(allowed_prefixes@),
    {
        GeohashFilterProcessor { allowed_prefixes }
    }

    /// Whether the geohash matches the allowed prefixes.
    pub fn matches_prefix(&self, geohash_value: &str) -> (r: bool)
        ensures
            r == geohash_matches(self.allowed(), geohash_value@),
    {
        if self.allowed_prefixes.len() == 0 {
            return true;
        }
        let mut i: usize = 0;
        while i < self.allowed_prefixes.len()
            invariant
                i <= self.allowed_prefixes@.len(),
                forall|k: int| 0 <= k < i ==> !(#[trigger] self.allowed()[k]).is_prefix_of(geohash_value@),
                self.allowed().len() == self.allowed_prefixes@.len(),
            decreases self.allowed_prefixes.len() - i,
        {
            if starts_with(geohash_value, self.allowed_prefixes[i].as_str()) {
                proof {
                    assert(self.allowed()[i as int] == self.allowed_prefixes@[i as int]@);
                }
                return true;
            }
            proof {
                assert(self.allowed()[i as int] == self.allowed_prefixes@[i as int]@);
            }
            i = i + 1;
        }
        false
    }

    /// Whether the tag is a `g` tag that passes.
    fn tag_passes(&self, tag: &Vec<String>) -> (r: bool)
        ensures
            r == geohash_tag_passes(self.allowed(), tag_view(*tag)),
    {
        match kind_of_tag(tag) {
            Some(kind) => {
                if !str_equal(kind.as_str(), "g") {
                    return false;
                }
                if tag.len() > 1 {
                    self.matches_prefix(tag[1].as_str())
                } else {
                    self.allowed_prefixes.len() == 0
                }
            },
            None => false,
        }
    }
}

impl Processor for GeohashFilterProcessor {
    fn process(&self, event: &Event) -> (r: Vec<Event>)
        ensures
            geohash_result(self.allowed(), *event, r@),
    {
        let mut i: usize = 0;
        while i < event.tags.len()
            invariant
                i <= event.tags@.len(),
                forall|k: int| 0 <= k < i ==> !geohash_tag_passes(self.allowed(), #[trigger] event@.tags[k]),
            decreases event.tags.len() - i,
        {
            proof {
                assert(event@.tags[i as int] == tag_view(event.tags@[i as int]));
            }
            if self.tag_passes(&event.tags[i]) {
                return pass_through(event);
            }
            i = i + 1;
        }
        Vec::new()
    }

    fn name(&self) -> (r: &str)
        ensures
            r@ == "eventflow::processor::geohash_filter::GeohashFilterProcessor"@,
    {
        "eventflow::processor::geohash_filter::GeohashFilterProcessor"
    }
}

} // verus!
