//! Points in time on a monotonic clock, as plain values.

use vstd::prelude::*;

verus! {

/// Nanoseconds in one second.
pub const NANOS_PER_SEC: u32 = 1_000_000_000;

/// Whole seconds that lie between two readings of a monotonic clock, both in
/// nanoseconds. A later reading that is not later counts as no time at all.
pub open spec fn elapsed_seconds(from: nat, to: nat) -> nat {
    if to >= from {
        ((to - from) / (NANOS_PER_SEC as int)) as nat
    } else {
        0
    }
}

/// A reading of a monotonic clock: the time since a fixed but arbitrary
/// origin, in seconds and nanoseconds.
#[derive(Clone, Copy, Debug)]
pub struct Timestamp {
    secs: u64,
    nanos: u32,
}

impl Timestamp {
    #[verifier::type_invariant]
    closed spec fn normalised(&self) -> bool {
        self.nanos < NANOS_PER_SEC
    }

    /// Nanoseconds since the origin.
    pub closed spec fn as_nanos(&self) -> nat {
        (self.secs * NANOS_PER_SEC + self.nanos) as nat
    }

    /// The reading `secs` seconds and `nanos` nanoseconds after the origin;
    /// none if `nanos` does not lie within one second.
    pub fn new(secs: u64, nanos: u32) -> (t: Option<Timestamp>)
        ensures
            t is Some <==> nanos < NANOS_PER_SEC,
            t matches Some(ts) ==> ts.as_nanos() == secs * NANOS_PER_SEC + nanos,
    {
        if nanos < NANOS_PER_SEC {
            Some(Timestamp { secs, nanos })
        } else {
            None
        }
    }

    /// The reading at a whole number of seconds after the origin.
    pub fn from_secs(secs: u64) -> (t: Timestamp)
        ensures
            t.as_nanos() == secs * NANOS_PER_SEC,
    {
        Timestamp { secs, nanos: 0 }
    }

    /// Whole seconds from `earlier` to `self`; zero if `earlier` is in fact
    /// the later of the two.
    pub fn whole_seconds_since(&self, earlier: &Timestamp) -> (s: u64)
        ensures
            s == elapsed_seconds(earlier.as_nanos(), self.as_nanos()),
    {
        proof {
            use_type_invariant(self);
            use_type_invariant(earlier);
        }
        let ghost from = earlier.as_nanos();
        let ghost to = self.as_nanos();
        if self.secs < earlier.secs || (self.secs == earlier.secs && self.nanos < earlier.nanos) {
            assert(to < from || to == from) by (nonlinear_arith)
                requires
                    to == self.secs * 1_000_000_000 + self.nanos,
                    from == earlier.secs * 1_000_000_000 + earlier.nanos,
                    self.secs < earlier.secs || (self.secs == earlier.secs && self.nanos
                        < earlier.nanos),
                    self.nanos < 1_000_000_000,
            ;
            0
        } else {
            let whole: u64 = self.secs - earlier.secs;
            let s: u64 = if self.nanos < earlier.nanos {
                whole - 1
            } else {
                whole
            };
            assert(to >= from && (to - from) / 1_000_000_000 == s) by (nonlinear_arith)
                requires
                    to == self.secs * 1_000_000_000 + self.nanos,
                    from == earlier.secs * 1_000_000_000 + earlier.nanos,
                    self.secs >= earlier.secs,
                    self.secs > earlier.secs || self.nanos >= earlier.nanos,
                    self.nanos < 1_000_000_000,
                    earlier.nanos < 1_000_000_000,
                    s == if self.nanos < earlier.nanos {
                        self.secs - earlier.secs - 1
                    } else {
                        self.secs - earlier.secs
                    },
            ;
            s
        }
    }
}

} // verus!
