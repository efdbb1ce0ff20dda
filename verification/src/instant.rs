//! Points in time that allow the simulation of reactive actors.

use crate::std_time::{
    duration_as_nanos, duration_max, duration_nanos, duration_zero,
    std_instant_duration_since, std_instant_eq, std_instant_checked_add, std_instant_add, std_instant_lt, std_instant_lt_exec,
    std_instant_since, MAX_DURATION_NANOS,
};
use std::time::Duration;
use vstd::prelude::*;

verus! {

/// Point in time similar to `std::time::Instant` but that allows simulation for reactive.
///
/// It is either a finite point in time or infinity, the instant that comes after all others.
#[derive(Debug, Clone, Copy, Eq, Ord)]
pub enum Instant {
    Finite(std::time::Instant),
    Infinity,
}

impl Instant {
    pub const INFINITY: Instant = Instant::Infinity;

    /// True when the instant is infinity.
    pub open spec fn is_inf(self) -> bool {
        self is Infinity
    }

    /// Return true if the instant represent infinity.
    ///
    /// This is the case for `Instant::INFINITY` or `now() + Duration::MAX`.
    pub fn at_inf(&self) -> (r: bool)
        ensures
            r == self.is_inf(),
    {
        match self {
            Instant::Finite(_) => false,
            Instant::Infinity => true,
        }
    }

    /// Set the instant to Instant::INFINITY.
    pub fn set_inf(&mut self)
        ensures
            final(self).is_inf(),
    {
        *self = Instant::Infinity;
    }

    /// The instant that stands for a `std::time::Instant`.
    pub fn new(instant: std::time::Instant) -> (r: Instant)
        ensures
            r == Instant::Finite(instant),
    {
        Instant::Finite(instant)
    }
}

impl Instant {
    /// The nanoseconds that `saturating_sub` gives for two instants that are not
    /// both infinity.
    pub open spec fn sub_nanos(self, rhs: Instant) -> u128 {
        match self {
            Instant::Finite(a) => match rhs {
                Instant::Finite(b) => if std_instant_lt(a, b) {
                    0
                } else {
                    std_instant_since(a, b)
                },
                Instant::Infinity => 0,
            },
            Instant::Infinity => MAX_DURATION_NANOS,
        }
    }

    /// Subtract two instants and saturate to Duration::ZERO.
    ///
    /// The difference to an infinite instant is zero, the one from infinity to a finite
    /// instant is `Duration::MAX`; infinity minus infinity is left out.
    pub fn saturating_sub(&self, rhs: &Instant) -> (r: Duration)
        requires
            !(self.is_inf() && rhs.is_inf()),
        ensures
            duration_nanos(r) == self.sub_nanos(*rhs),
    {
        match self {
            Instant::Finite(self_internal) => match rhs {
                Instant::Finite(rhs_internal) => {
                    if std_instant_lt_exec(self_internal, rhs_internal) {
                        duration_zero()
                    } else {
                        std_instant_duration_since(self_internal, rhs_internal)
                    }
                },
                Instant::Infinity => duration_zero(),
            },
            Instant::Infinity => duration_max(),
        }
    }

    /// True when `self + d` can be computed: `d` is `Duration::MAX`, `self` is infinity,
    /// or the finite sum can be represented.
    pub open spec fn can_add(self, d: Duration) -> bool {
        duration_nanos(d) == MAX_DURATION_NANOS || match self {
            Instant::Finite(t) => std_instant_add(t, duration_nanos(d)) is Some,
            Instant::Infinity => true,
        }
    }

    /// The value of `self + d`: infinity for `Duration::MAX` or an infinite `self`,
    /// else the finite instant `d` after `self`.
    pub open spec fn plus(self, d: Duration) -> Instant {
        if duration_nanos(d) == MAX_DURATION_NANOS {
            Instant::Infinity
        } else {
            match self {
                Instant::Finite(t) => Instant::Finite(std_instant_add(t, duration_nanos(d))->0),
                Instant::Infinity => Instant::Infinity,
            }
        }
    }

    /// The order of two instants: the one of `std::time::Instant` for finite ones,
    /// with infinity after every finite instant.
    pub open spec fn before(self, other: Instant) -> bool {
        match self {
            Instant::Finite(a) => match other {
                Instant::Finite(b) => std_instant_lt(a, b),
                Instant::Infinity => true,
            },
            Instant::Infinity => false,
        }
    }

    /// Add a duration; `Duration::MAX` gives infinity.
    ///
    /// For a finite sum `b = a + d`, `b.saturating_sub(a)` gives back `d` and
    /// `a.saturating_sub(b)` gives zero.
    pub fn add_duration(self, other: Duration) -> (r: Instant)
        requires
            self.can_add(other),
        ensures
            r == self.plus(other),
            !self.is_inf() && !r.is_inf() ==> r.sub_nanos(self) == duration_nanos(other) && self.sub_nanos(
                r,
            ) == 0,
    {
        if duration_as_nanos(&other) == MAX_DURATION_NANOS {
            Instant::Infinity
        } else {
            match self {
                Instant::Finite(internal) => match std_instant_checked_add(&internal, &other) {
                    Some(t) => Instant::Finite(t),
                    None => {
                        assert(false);
                        Instant::Infinity
                    },
                },
                Instant::Infinity => Instant::Infinity,
            }
        }
    }

    /// Add a duration, or give infinity when the sum cannot be represented.
    ///
    /// For a finite sum `b = a + d`, `b.saturating_sub(a)` gives back `d` and
    /// `a.saturating_sub(b)` gives zero.
    pub fn saturating_add(self, other: Duration) -> (r: Instant)
        ensures
            r == (if self.can_add(other) {
                self.plus(other)
            } else {
                Instant::Infinity
            }),
            !self.is_inf() && !r.is_inf() ==> r.sub_nanos(self) == duration_nanos(other) && self.sub_nanos(
                r,
            ) == 0,
    {
        if duration_as_nanos(&other) == MAX_DURATION_NANOS {
            Instant::Infinity
        } else {
            match self {
                Instant::Finite(internal) => match std_instant_checked_add(&internal, &other) {
                    Some(t) => Instant::Finite(t),
                    None => Instant::Infinity,
                },
                Instant::Infinity => Instant::Infinity,
            }
        }
    }

    /// Strict order of two instants.
    pub fn is_before(&self, other: &Instant) -> (r: bool)
        ensures
            r == self.before(*other),
            r ==> *self != *other && !other.before(*self),
            !r && *self != *other ==> other.before(*self),
    {
        match self {
            Instant::Finite(a) => match other {
                Instant::Finite(b) => std_instant_lt_exec(a, b),
                Instant::Infinity => true,
            },
            Instant::Infinity => false,
        }
    }

    /// Equality of two instants.
    pub fn is_equal(&self, other: &Instant) -> (r: bool)
        ensures
            r == (*self == *other),
    {
        match self {
            Instant::Finite(a) => match other {
                Instant::Finite(b) => std_instant_eq(a, b),
                Instant::Infinity => false,
            },
            Instant::Infinity => match other {
                Instant::Finite(_) => false,
                Instant::Infinity => true,
            },
        }
    }
}

impl std::ops::Add<Duration> for Instant {
    type Output = Instant;

    fn add(self, other: Duration) -> (r: Instant) {
        self.add_duration(other)
    }
}

impl vstd::std_specs::ops::AddSpecImpl<Duration> for Instant {
    open spec fn obeys_add_spec() -> bool {
        true
    }

    open spec fn add_req(self, rhs: Duration) -> bool {
        self.can_add(rhs)
    }

    open spec fn add_spec(self, rhs: Duration) -> Instant {
        self.plus(rhs)
    }
}

impl PartialEq<Instant> for Instant {
    fn eq(&self, other: &Instant) -> (r: bool) {
        self.is_equal(other)
    }
}

impl vstd::std_specs::cmp::PartialEqSpecImpl<Instant> for Instant {
    open spec fn obeys_eq_spec() -> bool {
        true
    }

    open spec fn eq_spec(&self, other: &Instant) -> bool {
        *self == *other
    }
}

impl PartialOrd<Instant> for Instant {
    fn partial_cmp(&self, other: &Instant) -> (r: Option<std::cmp::Ordering>) {
        if self.is_before(other) {
            Some(std::cmp::Ordering::Less)
        } else if self.is_equal(other) {
            Some(std::cmp::Ordering::Equal)
        } else {
            Some(std::cmp::Ordering::Greater)
        }
    }
}

impl vstd::std_specs::cmp::PartialOrdSpecImpl<Instant> for Instant {
    open spec fn obeys_partial_cmp_spec() -> bool {
        true
    }

    open spec fn partial_cmp_spec(&self, other: &Instant) -> Option<std::cmp::Ordering> {
        if self.before(*other) {
            Some(std::cmp::Ordering::Less)
        } else if *self == *other {
            Some(std::cmp::Ordering::Equal)
        } else {
            Some(std::cmp::Ordering::Greater)
        }
    }
}

} // verus!
