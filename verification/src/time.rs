//! Points in time.

use vstd::prelude::*;

verus! {

/// A point in time as the clock of the machine shows it, in nanoseconds since the Unix epoch. Where
/// that clock is set back, time goes back with it.
#[derive(Clone, Copy, Debug, PartialEq, Eq, Structural)]
pub struct Instant {
    /// Nanoseconds since the Unix epoch.
    pub nanos: u64,
}

/// `std::time::SystemTime::elapsed`, taken on the Unix epoch, gives the time that has passed since
/// then; nothing is claimed of it.
#[verifier::external_body]
fn nanos_since_epoch() -> (r: Option<u64>) {
    std::time::UNIX_EPOCH.elapsed().ok().map(|elapsed| elapsed.as_nanos() as u64)
}

impl Instant {
    /// The current time, or the epoch where the clock is set before it.
    ///
    /// What the clock says is up to the machine: nothing is claimed of it. What is made of it is
    /// stated at [`Instant::since_epoch`].
    pub fn now() -> (r: Self) {
        Instant::since_epoch(nanos_since_epoch())
    }

    /// The point in time `elapsed` nanoseconds after the epoch, or the epoch where a clock that is
    /// set before it cannot tell.
    pub fn since_epoch(elapsed: Option<u64>) -> (r: Self)
        ensures
            r.nanos == match elapsed {
                Some(nanos) => nanos,
                None => 0,
            },
    {
        match elapsed {
            Some(nanos) => Instant { nanos },
            None => Instant { nanos: 0 },
        }
    }

    /// The point in time `nanos` nanoseconds later, or the last one there is.
    pub fn after(&self, nanos: u64) -> (r: Self)
        ensures
            r.nanos == if self.nanos + nanos <= u64::MAX {
                self.nanos + nanos
            } else {
                u64::MAX as int
            },
    {
        Instant { nanos: self.nanos.saturating_add(nanos) }
    }

    /// The point in time `nanos` nanoseconds earlier, or the epoch.
    pub fn before(&self, nanos: u64) -> (r: Self)
        ensures
            r.nanos == if self.nanos >= nanos {
                self.nanos - nanos
            } else {
                0
            },
    {
        Instant { nanos: self.nanos.saturating_sub(nanos) }
    }
}

} // verus!
