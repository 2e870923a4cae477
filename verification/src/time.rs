//! Plain time values used by the verified logic.
//!
//! `Duration` mirrors the range of `std::time::Duration` as a count of
//! nanoseconds; `Timestamp` is a signed count of nanoseconds since the Unix
//! epoch.  Callers convert the platform types at the edges.

use vstd::prelude::*;

verus! {

pub const NANOS_PER_SEC: u128 = 1_000_000_000;

pub const NANOS_PER_MILLI: u128 = 1_000_000;

/// Largest duration representable by `std::time::Duration`, in nanoseconds.
pub const MAX_DURATION_NANOS: u128 = 18_446_744_073_709_551_615_999_999_999;

/// A non-negative span of time with nanosecond resolution.
#[derive(Clone, Copy, Debug, PartialEq, Eq, Structural)]
pub struct Duration {
    nanos: u128,
}

impl View for Duration {
    type V = nat;

    closed spec fn view(&self) -> nat {
        self.nanos as nat
    }
}

impl Duration {
    #[verifier::type_invariant]
    spec fn in_range(self) -> bool {
        self.nanos <= MAX_DURATION_NANOS
    }

    pub fn zero() -> (d: Duration)
        ensures
            d@ == 0,
    {
        Duration { nanos: 0 }
    }

    pub fn from_secs(secs: u64) -> (d: Duration)
        ensures
            d@ == secs * NANOS_PER_SEC,
    {
        assert(secs * NANOS_PER_SEC <= MAX_DURATION_NANOS) by (nonlinear_arith)
            requires
                secs <= u64::MAX,
        ;
        Duration { nanos: secs as u128 * NANOS_PER_SEC }
    }

    pub fn from_millis(millis: u64) -> (d: Duration)
        ensures
            d@ == millis * NANOS_PER_MILLI,
    {
        assert(millis * NANOS_PER_MILLI <= MAX_DURATION_NANOS) by (nonlinear_arith)
            requires
                millis <= u64::MAX,
        ;
        Duration { nanos: millis as u128 * NANOS_PER_MILLI }
    }

    /// Builds a duration from whole seconds and extra nanoseconds, carrying
    /// nanoseconds beyond one second into the seconds as `Duration::new` does.
    pub fn new(secs: u64, nanos: u32) -> (d: Duration)
        requires
            secs * NANOS_PER_SEC + nanos <= MAX_DURATION_NANOS,
        ensures
            d@ == secs * NANOS_PER_SEC + nanos,
    {
        assert(secs * NANOS_PER_SEC <= u64::MAX * NANOS_PER_SEC) by (nonlinear_arith)
            requires
                secs <= u64::MAX,
        ;
        Duration { nanos: secs as u128 * NANOS_PER_SEC + nanos as u128 }
    }

    pub fn as_nanos(&self) -> (n: u128)
        ensures
            n == self@,
    {
        self.nanos
    }

    pub fn as_secs(&self) -> (s: u64)
        ensures
            s == self@ / NANOS_PER_SEC as nat,
    {
        proof {
            use_type_invariant(self);
        }
        (self.nanos / NANOS_PER_SEC) as u64
    }

    pub fn subsec_nanos(&self) -> (n: u32)
        ensures
            n == self@ % NANOS_PER_SEC as nat,
    {
        (self.nanos % NANOS_PER_SEC) as u32
    }

    pub fn is_zero(&self) -> (b: bool)
        ensures
            b == (self@ == 0),
    {
        self.nanos == 0
    }

    /// Sum of two durations; `std` panics when the sum leaves the range, so
    /// that case is excluded here.
    pub fn add(&self, other: Duration) -> (d: Duration)
        requires
            self@ + other@ <= MAX_DURATION_NANOS,
        ensures
            d@ == self@ + other@,
    {
        Duration { nanos: self.nanos + other.nanos }
    }

    /// `self - other`, or zero where `other` is the longer one, as
    /// `Duration::saturating_sub` does.
    pub fn saturating_sub(&self, other: &Duration) -> (d: Duration)
        ensures
            d@ == if self@ >= other@ { self@ - other@ } else { 0 },
    {
        proof {
            use_type_invariant(self);
        }
        if self.nanos >= other.nanos {
            Duration { nanos: self.nanos - other.nanos }
        } else {
            Duration { nanos: 0 }
        }
    }

    pub fn lt(&self, other: &Duration) -> (b: bool)
        ensures
            b == (self@ < other@),
    {
        self.nanos < other.nanos
    }

    pub fn le(&self, other: &Duration) -> (b: bool)
        ensures
            b == (self@ <= other@),
    {
        self.nanos <= other.nanos
    }
}

/// The earliest instant a UTC date-time can hold: the start of
/// 1 January of the year -262143, in nanoseconds from the epoch.
pub const MIN_TIMESTAMP_NANOS: i128 = -8_334_601_228_800_000_000_000;

/// The latest instant a UTC date-time can hold: the last nanosecond of
/// 31 December of the year 262142, in nanoseconds from the epoch.
pub const MAX_TIMESTAMP_NANOS: i128 = 8_210_266_876_799_999_999_999;

/// One day in nanoseconds.
pub const NANOS_PER_DAY: i128 = 86_400_000_000_000;

/// A point in time, in nanoseconds relative to the Unix epoch.
#[derive(Clone, Copy, Debug, PartialEq, Eq, Structural)]
pub struct Timestamp {
    nanos: i128,
}

impl View for Timestamp {
    type V = int;

    closed spec fn view(&self) -> int {
        self.nanos as int
    }
}

/// Every timestamp lies within the supported range.
pub open spec fn timestamp_in_range(n: int) -> bool {
    MIN_TIMESTAMP_NANOS <= n <= MAX_TIMESTAMP_NANOS
}

impl Timestamp {
    #[verifier::type_invariant]
    closed spec fn in_range(self) -> bool {
        timestamp_in_range(self.nanos as int)
    }

    /// The bound holds for every timestamp.
    pub fn bounded(&self) -> (n: i128)
        ensures
            n == self@,
            timestamp_in_range(self@),
    {
        proof {
            use_type_invariant(self);
        }
        self.nanos
    }

    /// The instant `n` nanoseconds after the epoch, if within range.
    pub fn from_nanos(n: i128) -> (t: Option<Timestamp>)
        ensures
            match t {
                Some(t) => t@ == n && timestamp_in_range(n as int),
                None => !timestamp_in_range(n as int),
            },
    {
        if MIN_TIMESTAMP_NANOS <= n && n <= MAX_TIMESTAMP_NANOS {
            Some(Timestamp { nanos: n })
        } else {
            None
        }
    }

    /// The instant `n` nanoseconds after the epoch, known to be in range.
    pub fn from_nanos_in_range(n: i128) -> (t: Timestamp)
        requires
            timestamp_in_range(n as int),
        ensures
            t@ == n,
    {
        Timestamp { nanos: n }
    }

    /// The instant `secs` seconds and `nanos` nanoseconds after the epoch,
    /// if within range.
    pub fn from_timestamp(secs: i64, nanos: u32) -> (t: Option<Timestamp>)
        ensures
            match t {
                Some(t) => t@ == secs * NANOS_PER_SEC + nanos,
                None => !timestamp_in_range(secs * NANOS_PER_SEC + nanos),
            },
    {
        assert(i64::MIN * NANOS_PER_SEC <= secs * NANOS_PER_SEC <= i64::MAX * NANOS_PER_SEC)
            by (nonlinear_arith)
            requires
                i64::MIN <= secs <= i64::MAX,
        ;
        Timestamp::from_nanos(secs as i128 * 1_000_000_000i128 + nanos as i128)
    }

    pub fn nanos(&self) -> (n: i128)
        ensures
            n == self@,
    {
        self.nanos
    }

    /// Whole seconds since the epoch, rounded towards negative infinity.
    pub fn epoch_second(&self) -> (s: i64)
        ensures
            s == self@ / (NANOS_PER_SEC as int),
    {
        proof {
            use_type_invariant(self);
        }
        let q = self.nanos / 1_000_000_000i128;
        let r = if self.nanos % 1_000_000_000i128 < 0 {
            q - 1
        } else {
            q
        };
        r as i64
    }

    /// `self - other` in nanoseconds; the range keeps it exact.
    pub fn nanos_since(&self, other: &Timestamp) -> (d: i128)
        ensures
            d == self@ - other@,
    {
        proof {
            use_type_invariant(self);
            use_type_invariant(other);
        }
        self.nanos - other.nanos
    }
}

} // verus!
