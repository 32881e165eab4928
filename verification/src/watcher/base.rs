//! The capability contract every watcher implements.

use vstd::prelude::*;

verus! {

/// A producer of normalized change events.
///
/// Each call to `get` blocks until one debounced, classified,
/// non-ignored event is available and returns it in the event wire
/// format; the mapping always carries an `event` field naming the
/// watcher that produced it.
pub trait MyWatcher {
    fn get(&self) -> String;
}

} // verus!
