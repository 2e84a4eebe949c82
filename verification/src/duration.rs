//! The canonical duration: a whole, non-negative number of seconds.

use crate::decimal::saturate;
use crate::unit::UnitKind;
use vstd::prelude::*;

verus! {

/// The largest number of seconds that a [`Duration`] can hold.
pub const MAX_SECS: u64 = 0xffff_ffff_ffff_ffff;

/// A span of time as a count of seconds. It is never negative, and its
/// arithmetic saturates at [`MAX_SECS`] where the exact result would
/// not fit.
#[derive(Clone, Copy, Debug, PartialEq, Eq, Hash, Structural)]
pub struct Duration {
    secs: u64,
}

impl View for Duration {
    type V = nat;

    /// The number of seconds.
    closed spec fn view(&self) -> nat {
        self.secs as nat
    }
}

impl Duration {
    /// The duration of `secs` seconds.
    pub fn from_secs(secs: u64) -> (d: Duration)
        ensures
            d@ == secs,
    {
        Duration { secs }
    }

    /// The empty duration.
    pub fn zero() -> (d: Duration)
        ensures
            d@ == 0,
    {
        Duration { secs: 0 }
    }

    /// The longest duration that can be held.
    pub fn max() -> (d: Duration)
        ensures
            d@ == MAX_SECS,
    {
        Duration { secs: MAX_SECS }
    }

    /// The number of seconds in this duration.
    pub fn as_secs(&self) -> (secs: u64)
        ensures
            secs == self@,
    {
        self.secs
    }

    /// Whether this is the empty duration.
    pub fn is_zero(&self) -> (b: bool)
        ensures
            b == (self@ == 0),
    {
        self.secs == 0
    }

    /// `quantity` times the length of `unit`, or the longest duration
    /// where that does not fit.
    pub fn of(quantity: u64, unit: UnitKind) -> (d: Duration)
        ensures
            d@ == saturate(quantity as nat * unit.secs()),
    {
        match quantity.checked_mul(unit.seconds()) {
            Some(secs) => Duration { secs },
            None => Duration { secs: MAX_SECS },
        }
    }

    /// The sum of two durations, or the longest duration where the sum
    /// does not fit.
    pub fn saturating_add(self, other: Duration) -> (d: Duration)
        ensures
            d@ == saturate(self@ + other@),
    {
        Duration { secs: self.secs.saturating_add(other.secs) }
    }

    /// Every duration lies within the representable range.
    pub proof fn lemma_bounded(self)
        ensures
            self@ <= MAX_SECS,
    {
    }
}

} // verus!
