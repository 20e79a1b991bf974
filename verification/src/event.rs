use vstd::prelude::*;

use crate::nostr_support::{nostr_tag_kind_name, tag_kind_name};

verus! {

/// A Nostr event, held as the plain values of its NIP-01 fields: identifiers
/// and keys in hex, the creation instant in seconds since the Unix epoch, and
/// each tag as its list of strings.
#[derive(Clone, Debug)]
pub struct Event {
    pub id: String,
    pub pubkey: String,
    pub created_at: u64,
    pub kind: u16,
    pub tags: Vec<Vec<String>>,
    pub content: String,
    pub sig: String,
}

/// The contents of an event.
pub struct EventView {
    pub id: Seq<char>,
    pub pubkey: Seq<char>,
    pub created_at: u64,
    pub kind: u16,
    pub tags: Seq<Seq<Seq<char>>>,
    pub content: Seq<char>,
    pub sig: Seq<char>,
}

/// The strings of a tag.
pub open spec fn tag_view(t: Vec<String>) -> Seq<Seq<char>> {
    t@.map_values(|s: String| s@)
}

impl View for Event {
    type V = EventView;

    open spec fn view(&self) -> EventView {
        EventView {
            id: self.id@,
            pubkey: self.pubkey@,
            created_at: self.created_at,
            kind: self.kind,
            tags: self.tags@.map_values(|t: Vec<String>| tag_view(t)),
            content: self.content@,
            sig: self.sig@,
        }
    }
}

/// The views of a list of events.
pub open spec fn events_view(v: Seq<Event>) -> Seq<EventView> {
    v.map_values(|e: Event| e@)
}

/// The name of a tag's kind, as `Tag::kind().to_string()` gives it: nostr
/// reads the kind from the first string. A tag without strings has no kind.
pub open spec fn tag_kind(tag: Seq<Seq<char>>) -> Option<Seq<char>> {
    if tag.len() > 0 {
        Some(nostr_tag_kind_name(tag[0]))
    } else {
        None
    }
}

/// The first value of a tag (its second string), as `Tag::content` gives it.
pub open spec fn tag_content(tag: Seq<Seq<char>>) -> Option<Seq<char>> {
    if tag.len() > 1 {
        Some(tag[1])
    } else {
        None
    }
}

/// A copy of the strings of a tag.
pub fn copy_strings(v: &Vec<String>) -> (r: Vec<String>)
    ensures
        tag_view(r) == tag_view(*v),
        r@.len() == v@.len(),
{
    let mut r: Vec<String> = Vec::new();
    let mut i: usize = 0;
    while i < v.len()
        invariant
            i <= v@.len(),
            r@.len() == i,
            forall|k: int| 0 <= k < i ==> #[trigger] r@[k]@ == v@[k]@,
        decreases v.len() - i,
    {
        r.push(v[i].clone());
        i = i + 1;
    }
    proof {
        assert(tag_view(r) =~= tag_view(*v));
    }
    r
}

impl Event {
    /// A copy of the event.
    pub fn duplicate(&self) -> (r: Event)
        ensures
            r@ == self@,
    {
        let mut tags: Vec<Vec<String>> = Vec::new();
        let mut i: usize = 0;
        while i < self.tags.len()
            invariant
                i <= self.tags@.len(),
                tags@.len() == i,
                forall|k: int| 0 <= k < i ==> tag_view(#[trigger] tags@[k]) == tag_view(self.tags@[k]),
            decreases self.tags.len() - i,
        {
            tags.push(copy_strings(&self.tags[i]));
            i = i + 1;
        }
        let r = Event {
            id: self.id.clone(),
            pubkey: self.pubkey.clone(),
            created_at: self.created_at,
            kind: self.kind,
            tags,
            content: self.content.clone(),
            sig: self.sig.clone(),
        };
        proof {
            assert(r@.tags =~= self@.tags);
        }
        r
    }
}

/// The kind name of a tag, computed by nostr.
pub fn kind_of_tag(tag: &Vec<String>) -> (r: Option<String>)
    ensures
        match tag_kind(tag_view(*tag)) {
            Some(k) => r matches Some(s) && s@ == k,
            None => r is None,
        },
{
    if tag.len() > 0 {
        Some(tag_kind_name(tag[0].as_str()))
    } else {
        None
    }
}

} // verus!
