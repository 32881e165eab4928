//! The flat key-to-value option set that every component is configured
//! from, and the errors that construction-time validation can raise.
//!
//! Configuration is loaded outside the library (an INI file, in the
//! shipped agent) and handed in as plain string pairs; a missing
//! required key is a fatal error at construction time, never at use
//! time.

use vstd::prelude::*;
use crate::text::str_eq;

verus! {

/// Why a component could not be built from the configuration.
#[derive(Clone, Copy, PartialEq, Eq, Structural, Debug)]
pub enum ConfigError {
    /// A required key is absent.
    MissingKey,
    /// The debounce interval is not a plain decimal number of seconds.
    InvalidInterval,
    /// The local and remote mirror roots do not share their final path
    /// component.
    MirrorRootMismatch,
}

/// The value stored under `key`: the first binding wins.
pub open spec fn lookup(entries: Seq<(String, String)>, key: Seq<char>) -> Option<Seq<char>>
    decreases entries.len(),
{
    if entries.len() == 0 {
        None
    } else if entries[0].0@ == key {
        Some(entries[0].1@)
    } else {
        lookup(entries.drop_first(), key)
    }
}

/// A flat string-keyed option set.
pub struct Config {
    pub entries: Vec<(String, String)>,
}

impl View for Config {
    type V = Seq<(String, String)>;

    open spec fn view(&self) -> Seq<(String, String)> {
        self.entries@
    }
}

impl Config {
    /// An empty option set.
    pub fn new() -> (r: Config)
        ensures
            r@ == Seq::<(String, String)>::empty(),
    {
        Config { entries: Vec::new() }
    }

    /// Appends a binding; an earlier binding of the same key keeps
    /// priority.
    pub fn add(&mut self, key: String, value: String)
        ensures
            final(self)@ == old(self)@.push((key, value)),
    {
        self.entries.push((key, value));
    }

    /// The value bound to `key`, when there is one.
    pub fn get(&self, key: &str) -> (r: Option<&String>)
        ensures
            match r {
                Some(v) => lookup(self@, key@) == Some(v@),
                None => lookup(self@, key@) is None,
            },
    {
        let n = self.entries.len();
        let mut i: usize = 0;
        proof {
            assert(self@.skip(0) =~= self@);
        }
        while i < n
            invariant
                n == self@.len(),
                0 <= i <= n,
                lookup(self@, key@) == lookup(self@.skip(i as int), key@),
            decreases n - i,
        {
            proof {
                assert(self@.skip(i as int)[0] == self@[i as int]);
                assert(self@.skip(i as int).drop_first() =~= self@.skip(i + 1));
            }
            if str_eq(self.entries[i].0.as_str(), key) {
                return Some(&self.entries[i].1);
            }
            i += 1;
        }
        proof {
            assert(self@.skip(n as int) =~= Seq::<(String, String)>::empty());
        }
        None
    }
}

} // verus!
