//! The no-op doer: accepts every event and does nothing. Selected when
//! no reaction is configured.

use vstd::prelude::*;
use crate::config::Config;
use crate::doer::base::MyDoer;
use crate::doer::base::Status;

verus! {

/// A doer that reacts to nothing.
pub struct EmptyDoer {}

impl EmptyDoer {
    pub fn new(config: &Config) -> (r: EmptyDoer) {
        let _ = config;
        EmptyDoer {  }
    }
}

impl MyDoer for EmptyDoer {
    fn get(&self, input: String) -> Status {
        let _ = input;
        Status::OkNone
    }
}

} // verus!
