//! Spans of time in whole seconds, and the Unix time.

use vstd::prelude::*;

verus! {

/// A span of time in whole seconds.
#[derive(Clone, Copy, Debug, PartialEq, Eq, Structural)]
pub struct Duration {
    secs: u64,
}

impl Duration {
    /// The number of seconds.
    pub closed spec fn seconds(self) -> u64 {
        self.secs
    }

    /// A span of `secs` seconds.
    pub fn from_secs(secs: u64) -> (r: Duration)
        ensures
            r.seconds() == secs,
    {
        Duration { secs }
    }

    /// A span of `mins` minutes.
    pub fn from_mins(mins: u64) -> (r: Duration)
        requires
            mins * 60 <= u64::MAX,
        ensures
            r.seconds() == mins * 60,
    {
        Duration { secs: mins * 60 }
    }

    /// The number of seconds.
    pub fn as_secs(&self) -> (r: u64)
        ensures
            r == self.seconds(),
    {
        self.secs
    }
}

} // verus!
