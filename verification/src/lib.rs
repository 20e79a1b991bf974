//! EventFlow: routing of Nostr events between relays, with a record of which
//! periods of time have already been processed.
//!
//! The verified core lives here: the time-span bookkeeping, the processing
//! state, the command-line rules, the filters and the built-in processors.

pub mod calendar;
pub mod cli;
pub mod config;
pub mod display;
pub mod event;
pub mod fetcher;
pub mod nostr_support;
pub mod processor;
pub mod relay_manager;
pub mod relay_router;
pub mod state;
pub mod strings;
pub mod text;
pub mod timespan;
