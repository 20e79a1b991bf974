use vstd::prelude::*;

use super::passthrough::{pass_through, passes_through};
use super::Processor;
use crate::event::Event;

verus! {

/// Delays each event, then passes it on unchanged. The waiting itself is done
/// by the program that runs the processors, which reads the delay here.
#[derive(Clone, Copy, Debug)]
pub struct WaitProcessor {
    delay_ms: u64,
}

impl WaitProcessor {
    pub closed spec fn delay(self) -> u64 {
        self.delay_ms
    }

    /// A processor that waits `delay_ms` milliseconds per event.
    pub fn new(delay_ms: u64) -> (r: WaitProcessor)
        ensures
            r.delay() == delay_ms,
    {
        WaitProcessor { delay_ms }
    }

    /// A processor that waits five seconds per event.
    pub fn default_5s() -> (r: WaitProcessor)
        ensures
            r.delay() == 5000,
    {
        Self::new(5000)
    }

    /// The delay per event, in milliseconds.
    pub fn delay_ms(&self) -> (r: u64)
        ensures
            r == self.delay(),
    {
        self.delay_ms
    }
}

impl Default for WaitProcessor {
    fn default() -> (r: WaitProcessor)
        ensures
            r.delay() == 5000,
    {
        Self::default_5s()
    }
}

impl Processor for WaitProcessor {
    fn process(&self, event: &Event) -> (r: Vec<Event>)
        ensures
            passes_through(*event, r@),
    {
        pass_through(event)
    }

    fn name(&self) -> (r: &str)
        ensures
            r@ == "eventflow::processor::wait::WaitProcessor"@,
    {
        "eventflow::processor::wait::WaitProcessor"
    }
}

} // verus!
