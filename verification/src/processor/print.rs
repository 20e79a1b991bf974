use vstd::prelude::*;
use vstd::string::*;

use super::passthrough::{pass_through, passes_through};
use super::Processor;
use crate::event::{Event, EventView};
use crate::text::{decimal, push_decimal};

verus! {

/// Prints each event for debugging, then passes it on unchanged. The printing
/// itself is done by the program that runs the processors, under the prefix
/// kept here.
pub struct PrintProcessor {
    prefix: String,
}

/// The text with each line feed turned into a space and each carriage return
/// left out.
pub open spec fn one_line(s: Seq<char>) -> Seq<char>
    decreases s.len(),
{
    if s.len() == 0 {
        Seq::empty()
    } else if s.last() == '\n' {
        one_line(s.drop_last()).push(' ')
    } else if s.last() == '\r' {
        one_line(s.drop_last())
    } else {
        one_line(s.drop_last()).push(s.last())
    }
}

/// The first `n` characters of `s`, or all of them when there are fewer.
pub open spec fn first_chars(s: Seq<char>, n: nat) -> Seq<char> {
    if s.len() > n {
        s.subrange(0, n as int)
    } else {
        s
    }
}

/// The content as it is shown: its first 100 characters on one line, with
/// `...` when there were more.
pub open spec fn preview_text(content: Seq<char>) -> Seq<char> {
    one_line(first_chars(content, 100)) + (if content.len() > 100 { seq!['.', '.', '.'] } else { Seq::empty() })
}

/// The line printed for an event: the prefix, the first 16 characters of the
/// id and of the author's key, the kind, the creation instant and the content
/// preview.
pub open spec fn event_line(prefix: Seq<char>, e: EventView) -> Seq<char> {
    prefix + " Event: "@ + first_chars(e.id, 16) + "... | Author: "@ + first_chars(e.pubkey, 16)
        + "... | Kind: "@ + decimal(e.kind as nat) + " | Time: "@ + decimal(e.created_at as nat)
        + " | Content: "@ + preview_text(e.content)
}

/// Appends the first `n` characters of `t`.
fn push_first_chars(s: &mut String, t: &str, n: usize)
    ensures
        final(s)@ == old(s)@ + first_chars(t@, n as nat),
{
    let len = t.unicode_len();
    let m = if len > n { n } else { len };
    s.append(t.substring_char(0, m));
    proof {
        if len <= n {
            assert(t@.subrange(0, m as int) =~= t@);
        }
    }
}

/// Appends `t` on one line: line feeds become spaces, carriage returns are
/// left out.
fn push_one_line(s: &mut String, t: &str)
    ensures
        final(s)@ == old(s)@ + one_line(t@),
{
    let cs = crate::strings::chars_of(t);
    let mut i: usize = 0;
    proof {
        reveal_strlit(" ");
        assert(t@.subrange(0, 0) =~= Seq::<char>::empty());
        assert(old(s)@ + Seq::<char>::empty() =~= old(s)@);
    }
    while i < cs.len()
        invariant
            cs@ == t@,
            i <= cs@.len(),
            s@ == old(s)@ + one_line(t@.subrange(0, i as int)),
        decreases cs.len() - i,
    {
        let c = cs[i];
        let ghost before = s@;
        let ghost pre = t@.subrange(0, i + 1);
        proof {
            assert(pre.drop_last() =~= t@.subrange(0, i as int));
            assert(pre.last() == c);
            assert(t@.subrange(i as int, i + 1) =~= seq![c]);
        }
        if c == '\n' {
            s.append(" ");
            proof {
                reveal_strlit(" ");
                assert(one_line(pre) == one_line(pre.drop_last()).push(' '));
                assert(s@ =~= old(s)@ + one_line(pre));
            }
        } else if c != '\r' {
            s.append(t.substring_char(i, i + 1));
            proof {
                assert(one_line(pre) == one_line(pre.drop_last()).push(c));
                assert(s@ =~= old(s)@ + one_line(pre));
            }
        } else {
            proof {
                assert(one_line(pre) == one_line(pre.drop_last()));
            }
        }
        i = i + 1;
    }
    proof {
        assert(t@.subrange(0, cs@.len() as int) =~= t@);
    }
}

/// The content as it is shown: its first 100 characters on one line, with
/// `...` when there were more.
pub fn content_preview(content: &str) -> (r: String)
    ensures
        r@ == preview_text(content@),
{
    let len = content.unicode_len();
    let m: usize = if len > 100 { 100 } else { len };
    let head = content.substring_char(0, m);
    let mut s = String::new();
    push_one_line(&mut s, head);
    if len > 100 {
        s.append("...");
    }
    proof {
        reveal_strlit("...");
        if len <= 100 {
            assert(content@.subrange(0, m as int) =~= content@);
        }
        assert(Seq::<char>::empty() + one_line(head@) =~= one_line(head@));
        assert(s@ =~= preview_text(content@));
    }
    s
}

impl PrintProcessor {
    pub closed spec fn spec_prefix(&self) -> Seq<char> {
        self.prefix@
    }

    /// A processor printing under the prefix `[PRINT]`.
    pub fn new() -> (r: PrintProcessor)
        ensures
            r.spec_prefix() == "[PRINT]"@,
    {
        PrintProcessor { prefix: String::from_str("[PRINT]") }
    }

    /// A processor printing under the given prefix.
    pub fn with_prefix(prefix: String) -> (r: PrintProcessor)
        ensures
            r.spec_prefix() == prefix@,
    {
        PrintProcessor { prefix }
    }

    /// The line printed for the event.
    pub fn line(&self, event: &Event) -> (r: String)
        ensures
            r@ == event_line(self.spec_prefix(), event@),
    {
        let mut s = String::new();
        s.append(self.prefix.as_str());
        s.append(" Event: ");
        push_first_chars(&mut s, event.id.as_str(), 16);
        s.append("... | Author: ");
        push_first_chars(&mut s, event.pubkey.as_str(), 16);
        s.append("... | Kind: ");
        push_decimal(&mut s, event.kind as u64);
        s.append(" | Time: ");
        push_decimal(&mut s, event.created_at);
        s.append(" | Content: ");
        let preview = content_preview(event.content.as_str());
        s.append(preview.as_str());
        proof {
            assert(s@ =~= event_line(self.spec_prefix(), event@));
        }
        s
    }

    /// The prefix of the printed lines.
    pub fn prefix(&self) -> (r: &str)
        ensures
            r@ == self.spec_prefix(),
    {
        self.prefix.as_str()
    }
}

impl Default for PrintProcessor {
    fn default() -> (r: PrintProcessor)
        ensures
            r.spec_prefix() == "[PRINT]"@,
    {
        Self::new()
    }
}

impl Processor for PrintProcessor {
    fn process(&self, event: &Event) -> (r: Vec<Event>)
        ensures
            passes_through(*event, r@),
    {
        pass_through(event)
    }

    fn name(&self) -> (r: &str)
        ensures
            r@ == "PrintProcessor"@,
    {
        "PrintProcessor"
    }
}

} // verus!
