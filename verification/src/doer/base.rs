//! The capability contract every doer implements, and the status it
//! reports.

use vstd::prelude::*;

verus! {

/// The outcome of handling one event.
#[derive(Debug)]
pub enum Status {
    /// Handled, nothing to report.
    OkNone,
    /// Handled; the remote command produced this output.
    OkText(String),
    /// The event could not be handled; the message says why.
    Error(String),
}

/// A consumer of normalized change events.
///
/// `get` receives one watcher output in the event wire format, reacts
/// to it, and reports the outcome. Per-event failures are reported in
/// the status, never raised: the dispatch loop must go on.
pub trait MyDoer {
    fn get(&self, event: String) -> Status;
}

} // verus!
