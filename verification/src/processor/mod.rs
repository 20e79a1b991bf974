//! Processing of events on their way to the sinks: the `Processor` trait and
//! the built-in processors.

use vstd::prelude::*;

use crate::config::ProcessorType;
use crate::event::Event;

pub mod geohash_filter;
pub mod passthrough;
pub mod print;
pub mod wait;

pub use geohash_filter::GeohashFilterProcessor;
pub use passthrough::PassthroughProcessor;
pub use print::PrintProcessor;
pub use wait::WaitProcessor;

verus! {

/// Filters or transforms events. A processor returns no event to filter one
/// out, one event to pass it on (possibly changed), or several.
pub trait Processor: Send + Sync {
    /// Processes one event into zero or more events.
    fn process(&self, event: &Event) -> Vec<Event>;

    /// A name for diagnostics; the built-in processors give the path of
    /// their type.
    fn name(&self) -> &str;

    /// Whether the processor is ready; by default always.
    fn is_ready(&self) -> (r: bool)
        default_ensures
            r,
    {
        true
    }

    /// Releases what the processor holds; by default nothing.
    fn shutdown(&self) {
    }
}

/// One of the built-in processors.
pub enum BuiltinProcessor {
    Passthrough(PassthroughProcessor),
    Wait(WaitProcessor),
    GeohashFilter(GeohashFilterProcessor),
}

impl Processor for BuiltinProcessor {
    fn process(&self, event: &Event) -> (r: Vec<Event>)
        ensures
            match self {
                BuiltinProcessor::Passthrough(p) => passthrough::passes_through(*event, r@),
                BuiltinProcessor::Wait(p) => passthrough::passes_through(*event, r@),
                BuiltinProcessor::GeohashFilter(p) => geohash_filter::geohash_result(p.allowed(), *event, r@),
            },
    {
        match self {
            BuiltinProcessor::Passthrough(p) => p.process(event),
            BuiltinProcessor::Wait(p) => p.process(event),
            BuiltinProcessor::GeohashFilter(p) => p.process(event),
        }
    }

    fn name(&self) -> (r: &str)
        ensures
            match self {
                BuiltinProcessor::Passthrough(_) => r@ == "eventflow::processor::passthrough::PassthroughProcessor"@,
                BuiltinProcessor::Wait(_) => r@ == "eventflow::processor::wait::WaitProcessor"@,
                BuiltinProcessor::GeohashFilter(_) => r@
                    == "eventflow::processor::geohash_filter::GeohashFilterProcessor"@,
            },
    {
        match self {
            BuiltinProcessor::Passthrough(p) => p.name(),
            BuiltinProcessor::Wait(p) => p.name(),
            BuiltinProcessor::GeohashFilter(p) => p.name(),
        }
    }
}

/// The built-in processor that a configuration names; the wait processor
/// waits five seconds.
pub fn create_processor(processor_type: &ProcessorType) -> (r: BuiltinProcessor)
    ensures
        match processor_type {
            ProcessorType::Passthrough => r is Passthrough,
            ProcessorType::WaitProcessor => r matches BuiltinProcessor::Wait(w) && w.delay() == 5000,
            ProcessorType::GeohashFilter { allowed_prefixes } => r matches BuiltinProcessor::GeohashFilter(g)
                && g.allowed() == crate::config::strings_view(allowed_prefixes@),
        },
{
    match processor_type {
        ProcessorType::Passthrough => BuiltinProcessor::Passthrough(PassthroughProcessor::new()),
        ProcessorType::WaitProcessor => BuiltinProcessor::Wait(WaitProcessor::default_5s()),
        ProcessorType::GeohashFilter { allowed_prefixes } => BuiltinProcessor::GeohashFilter(
            GeohashFilterProcessor::new(crate::event::copy_strings(allowed_prefixes)),
        ),
    }
}

} // verus!
