use vstd::prelude::*;

use super::Processor;
use crate::event::{events_view, Event};

verus! {

/// The output is the input event alone, unchanged.
pub open spec fn passes_through(event: Event, out: Seq<Event>) -> bool {
    events_view(out) == seq![event@]
}

/// The input event alone, unchanged.
pub fn pass_through(event: &Event) -> (r: Vec<Event>)
    ensures
        passes_through(*event, r@),
{
    let r = vec![event.duplicate()];
    proof {
        assert(events_view(r@) =~= seq![event@]);
    }
    r
}

/// Passes every event on unchanged.
#[derive(Clone, Copy, Debug)]
pub struct PassthroughProcessor;

impl PassthroughProcessor {
    pub fn new() -> (r: PassthroughProcessor) {
        PassthroughProcessor
    }
}

impl Default for PassthroughProcessor {
    fn default() -> (r: PassthroughProcessor) {
        PassthroughProcessor
    }
}

impl Processor for PassthroughProcessor {
    fn process(&self, event: &Event) -> (r: Vec<Event>)
        ensures
            passes_through(*event, r@),
    {
        pass_through(event)
    }

    fn name(&self) -> (r: &str)
        ensures
            r@ == "eventflow::processor::passthrough::PassthroughProcessor"@,
    {
        "eventflow::processor::passthrough::PassthroughProcessor"
    }
}

} // verus!
