//! Points in time as whole nanoseconds and whole milliseconds after the UNIX epoch.

use std::ops::{Add, Sub};
use vstd::prelude::*;
use vstd::std_specs::convert::FromSpecImpl;
use vstd::std_specs::ops::{AddSpecImpl, SubSpecImpl};

verus! {

/// Nanoseconds per millisecond, for specifications.
pub open spec fn nanos_per_milli() -> int {
    1_000_000
}

/// Whether `value` fits in an `i64`.
pub open spec fn fits_i64(value: int) -> bool {
    i64::MIN <= value <= i64::MAX
}

/// A count of nanoseconds.
#[derive(Debug, Clone, Copy, PartialEq, Eq, Structural, PartialOrd, Ord, Hash)]
pub struct Nanosecond(pub i64);

/// A count of milliseconds.
#[derive(Debug, Clone, Copy, PartialEq, Eq, Structural, PartialOrd, Ord, Hash)]
pub struct Millisecond(pub i64);

impl Nanosecond {
    /// The nanoseconds in `millis` milliseconds.
    pub fn from_millis(millis: i64) -> (r: Self)
        requires
            fits_i64(millis * nanos_per_milli()),
        ensures
            r.0 == millis * nanos_per_milli(),
    {
        Self(millis * 1_000_000)
    }

    /// The whole milliseconds in this duration, rounded towards negative infinity.
    pub fn into_millis(&self) -> (r: i64)
        ensures
            r == self.0 as int / nanos_per_milli(),
    {
        match self.0.checked_div_euclid(1_000_000) {
            Some(millis) => millis,
            None => 0,
        }
    }
}

impl Millisecond {
    /// The nanoseconds in this many milliseconds.
    pub fn into_nanos(self) -> (r: Nanosecond)
        requires
            fits_i64(self.0 * nanos_per_milli()),
        ensures
            r.0 == self.0 * nanos_per_milli(),
    {
        Nanosecond(self.0 * 1_000_000)
    }
}

impl Sub for Nanosecond {
    type Output = Self;

    fn sub(self, rhs: Self) -> (r: Self::Output) {
        Self(self.0 - rhs.0)
    }
}

impl SubSpecImpl for Nanosecond {
    open spec fn obeys_sub_spec() -> bool {
        true
    }

    open spec fn sub_req(self, rhs: Self) -> bool {
        fits_i64(self.0 - rhs.0)
    }

    open spec fn sub_spec(self, rhs: Self) -> Self {
        Nanosecond((self.0 - rhs.0) as i64)
    }
}

impl Add for Nanosecond {
    type Output = Self;

    fn add(self, rhs: Self) -> (r: Self::Output) {
        Self(self.0 + rhs.0)
    }
}

impl AddSpecImpl for Nanosecond {
    open spec fn obeys_add_spec() -> bool {
        true
    }

    open spec fn add_req(self, rhs: Self) -> bool {
        fits_i64(self.0 + rhs.0)
    }

    open spec fn add_spec(self, rhs: Self) -> Self {
        Nanosecond((self.0 + rhs.0) as i64)
    }
}

impl Sub for Millisecond {
    type Output = Self;

    fn sub(self, rhs: Self) -> (r: Self::Output) {
        Self(self.0 - rhs.0)
    }
}

impl SubSpecImpl for Millisecond {
    open spec fn obeys_sub_spec() -> bool {
        true
    }

    open spec fn sub_req(self, rhs: Self) -> bool {
        fits_i64(self.0 - rhs.0)
    }

    open spec fn sub_spec(self, rhs: Self) -> Self {
        Millisecond((self.0 - rhs.0) as i64)
    }
}

impl Add for Millisecond {
    type Output = Self;

    fn add(self, rhs: Self) -> (r: Self::Output) {
        Self(self.0 + rhs.0)
    }
}

impl AddSpecImpl for Millisecond {
    open spec fn obeys_add_spec() -> bool {
        true
    }

    open spec fn add_req(self, rhs: Self) -> bool {
        fits_i64(self.0 + rhs.0)
    }

    open spec fn add_spec(self, rhs: Self) -> Self {
        Millisecond((self.0 + rhs.0) as i64)
    }
}

impl From<Nanosecond> for Millisecond {
    fn from(value: Nanosecond) -> (r: Self) {
        Millisecond(value.into_millis())
    }
}

impl FromSpecImpl<Nanosecond> for Millisecond {
    open spec fn obeys_from_spec() -> bool {
        true
    }

    open spec fn from_spec(v: Nanosecond) -> Self {
        Millisecond((v.0 as int / nanos_per_milli()) as i64)
    }
}

} // verus!
