//! The no-op watcher: produces a bare tag and nothing else. Selected
//! when no real observation source is configured.

use vstd::prelude::*;
use crate::config::Config;
use crate::watcher::base::MyWatcher;

verus! {

/// A watcher that observes nothing.
pub struct EmptyWatcher {}

impl EmptyWatcher {
    pub fn new(config: &Config) -> (r: EmptyWatcher) {
        let _ = config;
        EmptyWatcher {  }
    }
}

impl MyWatcher for EmptyWatcher {
    fn get(&self) -> String {
        "{\"event\":\"EmptyWatcher\"}".to_owned()
    }
}

} // verus!
