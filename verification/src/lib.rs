//! Core of a bulk media downloader: the decision logic of a concurrent
//! download pipeline, stated and proved.
//!
//! The pipeline takes records that each name a remote locator and a
//! destination file, feeds them through a bounded hand-off queue to a
//! scheduler, and drives every item through a retry/backoff state machine
//! for connection establishment, redirect following, chunked body transfer
//! with stall detection, and atomic on-disk materialization.  Lifecycle
//! events flow to an accounting sink that produces the final summary.
//!
//! Everything that suspends — network reads, sleeps, file writes — lives in
//! the surrounding program.  This crate holds the decisions: which locator
//! to fetch, what each transport observation does to an item's state, which
//! event to emit, which file operation to perform, and how the counters of
//! the summary relate to the events that were seen.

pub mod calc;
pub mod config;
pub mod events;
pub mod fetch;
pub mod laws;
pub mod queue;
pub mod request;
pub mod sched;
pub mod select;
