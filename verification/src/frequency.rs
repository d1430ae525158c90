//! Fixed-point carriers for frequencies and magnitudes.
//!
//! Both types store their value in thousandths (milli-units): a `Frequency`
//! of `1000` is one Hertz, a `FrequencyValue` of `1000` is one unit of
//! magnitude.

use vstd::prelude::*;

verus! {

/// A non-negative frequency in Hertz, stored in milli-Hertz.
#[derive(Clone, Copy, Debug, PartialEq, Eq, Structural)]
pub struct Frequency {
    milli_hz: i64,
}

impl View for Frequency {
    type V = i64;

    closed spec fn view(&self) -> i64 {
        self.milli_hz
    }
}

impl Frequency {
    /// A frequency is never negative.
    #[verifier::type_invariant]
    closed spec fn type_inv(self) -> bool {
        self.milli_hz >= 0
    }

    /// Wraps a milli-Hertz value; frequencies are never negative.
    pub fn new(milli_hz: i64) -> (r: Self)
        requires
            milli_hz >= 0,
        ensures
            r@ == milli_hz,
    {
        Frequency { milli_hz }
    }

    /// The frequency in milli-Hertz; never negative.
    pub fn val(&self) -> (r: i64)
        ensures
            r == self@,
            r >= 0,
    {
        proof {
            use_type_invariant(&*self);
        }
        self.milli_hz
    }
}

/// A magnitude (amplitude) value, stored in milli-units. Magnitudes start
/// out non-negative but may turn negative under scaling.
#[derive(Clone, Copy, Debug, PartialEq, Eq, Structural)]
pub struct FrequencyValue {
    milli: i64,
}

impl View for FrequencyValue {
    type V = i64;

    closed spec fn view(&self) -> i64 {
        self.milli
    }
}

/// Magnitudes with the same numeric value are the same magnitude.
pub proof fn lemma_value_eq(a: FrequencyValue, b: FrequencyValue)
    requires
        a@ == b@,
    ensures
        a == b,
{
}

impl FrequencyValue {
    /// Wraps a milli-unit magnitude.
    pub fn new(milli: i64) -> (r: Self)
        ensures
            r@ == milli,
    {
        FrequencyValue { milli }
    }

    /// The magnitude in milli-units.
    pub fn val(&self) -> (r: i64)
        ensures
            r == self@,
    {
        self.milli
    }
}

} // verus!
