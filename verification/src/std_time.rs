//! Contracts of the parts of `std::time` that the library uses.
//!
//! A `Duration` is described by the number of nanoseconds it holds
//! (`duration_nanos`). A `std::time::Instant` has no numeric value of its own:
//! the library only learns how two of them compare and how far apart they are.

use std::time::Duration;
use vstd::prelude::*;

verus! {

/// `std::time::Instant`, carried as an opaque value.
#[verifier::external_type_specification]
#[verifier::external_body]
pub struct ExStdInstant(std::time::Instant);

/// Number of nanoseconds in one second.
pub const NANOS_PER_SEC: u128 = 1_000_000_000u128;

/// Number of nanoseconds held by `Duration::MAX` (`u64::MAX` seconds and 999_999_999 ns).
pub const MAX_DURATION_NANOS: u128 = 18_446_744_073_709_551_615_999_999_999u128;

/// The value of `Duration::as_nanos` on a duration.
pub uninterp spec fn duration_nanos(d: Duration) -> u128;

/// The value of `a < b` on two `std::time::Instant`.
pub uninterp spec fn std_instant_lt(a: std::time::Instant, b: std::time::Instant) -> bool;

/// The number of nanoseconds of `later.duration_since(earlier)`.
pub uninterp spec fn std_instant_since(later: std::time::Instant, earlier: std::time::Instant) -> u128;

/// The value of `t.checked_add(d)` for a duration `d` of `nanos` nanoseconds.
pub uninterp spec fn std_instant_add(t: std::time::Instant, nanos: u128) -> Option<
    std::time::Instant,
>;

/// `Duration::as_nanos`: the total number of whole nanoseconds of the duration,
/// which is at most the one of `Duration::MAX`.
#[verifier::external_body]
pub fn duration_as_nanos(d: &Duration) -> (r: u128)
    ensures
        r == duration_nanos(*d),
        r <= MAX_DURATION_NANOS,
{
    d.as_nanos()
}

/// `Duration::new(secs, nanos)` with `nanos` below one second: the duration
/// holds `secs` seconds and `nanos` nanoseconds.
#[verifier::external_body]
pub fn duration_new(secs: u64, nanos: u32) -> (r: Duration)
    requires
        nanos < NANOS_PER_SEC,
    ensures
        duration_nanos(r) == secs * NANOS_PER_SEC + nanos,
{
    Duration::new(secs, nanos)
}

/// `a < b` on `std::time::Instant`, a total order (`Ord`): when it is false and the
/// two instants differ, `b < a`; when it is true, whatever comes after `b` comes after `a`.
#[verifier::external_body]
pub fn std_instant_lt_exec(a: &std::time::Instant, b: &std::time::Instant) -> (r: bool)
    ensures
        r == std_instant_lt(*a, *b),
        r ==> *a != *b && !std_instant_lt(*b, *a),
        !r && *a != *b ==> std_instant_lt(*b, *a),
        r ==> forall|c: std::time::Instant| #[trigger] std_instant_lt(*b, c) ==> std_instant_lt(*a, c),
{
    *a < *b
}

/// `a == b` on `std::time::Instant`, whose equality is the one of its fields.
#[verifier::external_body]
pub fn std_instant_eq(a: &std::time::Instant, b: &std::time::Instant) -> (r: bool)
    ensures
        r == (*a == *b),
{
    *a == *b
}

/// `later.duration_since(earlier)`: the time elapsed from `earlier` to `later`,
/// zero when `earlier` is later than `later` or equal to it.
#[verifier::external_body]
pub fn std_instant_duration_since(later: &std::time::Instant, earlier: &std::time::Instant) -> (r:
    Duration)
    ensures
        duration_nanos(r) == std_instant_since(*later, *earlier),
        std_instant_lt(*later, *earlier) || *later == *earlier ==> duration_nanos(r) == 0,
{
    later.duration_since(*earlier)
}

/// `t.checked_add(d)`: `None` when the result cannot be represented, else the
/// instant that lies `d` after `t` (so `t` is not later than it, and the time elapsed
/// from it to `t`, which `duration_since` saturates, is zero).
#[verifier::external_body]
pub fn std_instant_checked_add(t: &std::time::Instant, d: &Duration) -> (r: Option<
    std::time::Instant,
>)
    ensures
        r == std_instant_add(*t, duration_nanos(*d)),
        r matches Some(t2) ==> {
            &&& std_instant_since(t2, *t) == duration_nanos(*d)
            &&& std_instant_since(*t, t2) == 0
            &&& !std_instant_lt(t2, *t)
            &&& duration_nanos(*d) == 0 ==> t2 == *t
            &&& duration_nanos(*d) > 0 ==> std_instant_lt(*t, t2)
        },
{
    t.checked_add(*d)
}

/// `std::time::Instant::now()`: the current time of the machine; nothing is
/// stated of it.
#[verifier::external_body]
pub fn std_instant_now() -> (r: std::time::Instant) {
    std::time::Instant::now()
}

/// The duration of `n` nanoseconds.
pub fn duration_from_nanos(n: u128) -> (r: Duration)
    requires
        n <= MAX_DURATION_NANOS,
    ensures
        duration_nanos(r) == n,
{
    let secs: u128 = n / NANOS_PER_SEC;
    let sub: u128 = n % NANOS_PER_SEC;
    assert(secs <= u64::MAX as u128) by (nonlinear_arith)
        requires
            n <= MAX_DURATION_NANOS,
            secs == n / NANOS_PER_SEC,
    ;
    assert(n == secs * NANOS_PER_SEC + sub) by (nonlinear_arith)
        requires
            secs == n / NANOS_PER_SEC,
            sub == n % NANOS_PER_SEC,
    ;
    duration_new(secs as u64, sub as u32)
}

/// `Duration::ZERO`.
pub fn duration_zero() -> (r: Duration)
    ensures
        duration_nanos(r) == 0,
{
    duration_new(0, 0)
}

/// `Duration::MAX`.
pub fn duration_max() -> (r: Duration)
    ensures
        duration_nanos(r) == MAX_DURATION_NANOS,
{
    duration_from_nanos(MAX_DURATION_NANOS)
}

} // verus!
