//! Sources of the current time.

use crate::timestamp::Timestamp;
use vstd::prelude::*;

verus! {

/// Mechanism to obtain the current time.
pub trait Clock {
    /// Whether this clock may report `t` as the current time.  A clock that
    /// does not say otherwise may report any time.
    open spec fn admits(&self, t: Timestamp) -> bool {
        true
    }

    /// Obtains the current time.
    fn now(&self) -> (t: Timestamp)
        ensures
            t.valid(),
            self.admits(t),
    ;
}

/// Clock that always returns the same time instant.
pub struct FixedClock {
    now: Timestamp,
}

impl FixedClock {
    #[verifier::type_invariant]
    spec fn well_formed(&self) -> bool {
        self.now.valid()
    }

    /// The instant that this clock reports.
    pub closed spec fn instant(&self) -> Timestamp {
        self.now
    }

    /// Creates a clock that stands still at `now`.
    pub fn new(now: Timestamp) -> (clock: FixedClock)
        requires
            now.valid(),
        ensures
            clock.instant() == now,
    {
        FixedClock { now }
    }
}

impl Clock for FixedClock {
    open spec fn admits(&self, t: Timestamp) -> bool {
        t == self.instant()
    }

    fn now(&self) -> (t: Timestamp) {
        proof {
            use_type_invariant(self);
        }
        self.now
    }
}

} // verus!
