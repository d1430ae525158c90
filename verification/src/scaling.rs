//! Value-scaling of magnitudes.
//!
//! A scaling function is a pure transform of one magnitude; it may consult a
//! snapshot of the spectrum's statistics. The [`SpectrumScaler`] trait is the
//! narrow interface through which callers plug a transform into the pipeline
//! (per-bin) or into a whole-spectrum rescale; the structs here are the
//! ready-made transforms.

use crate::frequency::FrequencyValue;
use crate::math::{div_trunc, mag_in_range, div_trunc_i128, MAG_LIMIT};
use vstd::prelude::*;

verus! {

/// Snapshot of the statistics a scaling function may consult. All magnitude
/// fields are in milli-units; `n` is the number of values the statistics
/// were computed over (at the per-bin stage: the sample count).
#[derive(Clone, Copy, Debug, PartialEq, Eq, Structural)]
pub struct SpectrumDataStats {
    /// Minimal magnitude.
    pub min: i64,
    /// Maximal magnitude.
    pub max: i64,
    /// Arithmetic mean of the magnitudes.
    pub average: i64,
    /// Median of the magnitudes.
    pub median: i64,
    /// Number of values.
    pub n: i64,
}

/// A value transform applied to every magnitude, one at a time, against one
/// consistent statistics snapshot.
pub trait SpectrumScaler: Sized {
    /// The mathematical value the transform yields.
    spec fn spec_scale(&self, val: int, stats: SpectrumDataStats) -> int;

    /// Applies the transform to one magnitude.
    fn scale(&self, val: FrequencyValue, stats: &SpectrumDataStats) -> (r: FrequencyValue)
        requires
            mag_in_range(val@ as int),
        ensures
            r@ == self.spec_scale(val@ as int, *stats),
            mag_in_range(r@ as int),
    ;
}

/// Clamps a value into the representable magnitude range.
pub open spec fn clamp_mag(v: int) -> int {
    if v > MAG_LIMIT {
        MAG_LIMIT as int
    } else if v < -MAG_LIMIT {
        -MAG_LIMIT as int
    } else {
        v
    }
}

/// The transform that leaves every magnitude unchanged.
#[derive(Clone, Copy, Debug)]
pub struct IdentityScaler;

impl SpectrumScaler for IdentityScaler {
    open spec fn spec_scale(&self, val: int, stats: SpectrumDataStats) -> int {
        val
    }

    fn scale(&self, val: FrequencyValue, stats: &SpectrumDataStats) -> (r: FrequencyValue) {
        val
    }
}

/// Divides each magnitude by the spectrum's maximum, mapping the magnitudes
/// into `[0, 1]` (0 to 1000 milli-units) when they lie in `[0, max]`. A zero
/// maximum maps everything to zero.
pub fn scale_to_zero_to_one(val: FrequencyValue, stats: &SpectrumDataStats) -> (r: FrequencyValue)
    requires
        mag_in_range(val@ as int),
    ensures
        r@ == spec_scale_to_zero_to_one(val@ as int, *stats),
        mag_in_range(r@ as int),
{
    if stats.max != 0 {
        let q: i128 = div_trunc_i128(val.val() as i128 * 1000, stats.max as i128);
        if q > MAG_LIMIT as i128 {
            FrequencyValue::new(MAG_LIMIT)
        } else if q < -MAG_LIMIT as i128 {
            FrequencyValue::new(-MAG_LIMIT)
        } else {
            FrequencyValue::new(q as i64)
        }
    } else {
        FrequencyValue::new(0)
    }
}

/// What [`scale_to_zero_to_one`] computes: `val / stats.max` in fixed point
/// (truncating), clamped into the representable range; zero if `stats.max`
/// is zero.
pub open spec fn spec_scale_to_zero_to_one(val: int, stats: SpectrumDataStats) -> int {
    if stats.max != 0 {
        clamp_mag(div_trunc(val * 1000, stats.max as int))
    } else {
        0
    }
}

/// [`scale_to_zero_to_one`] as a pluggable transform.
#[derive(Clone, Copy, Debug)]
pub struct ZeroToOneScaler;

impl SpectrumScaler for ZeroToOneScaler {
    open spec fn spec_scale(&self, val: int, stats: SpectrumDataStats) -> int {
        spec_scale_to_zero_to_one(val, stats)
    }

    fn scale(&self, val: FrequencyValue, stats: &SpectrumDataStats) -> (r: FrequencyValue) {
        scale_to_zero_to_one(val, stats)
    }
}

/// Divides each magnitude by `stats.n`, so that transforms of different
/// sample lengths are comparable. With `n == 0` the value passes unchanged.
#[allow(non_snake_case)]
pub fn divide_by_N(val: FrequencyValue, stats: &SpectrumDataStats) -> (r: FrequencyValue)
    requires
        mag_in_range(val@ as int),
    ensures
        r@ == spec_divide_by_n(val@ as int, *stats),
        mag_in_range(r@ as int),
{
    if stats.n == 0 {
        val
    } else {
        proof {
            crate::math::lemma_div_trunc_bound(val@ as int, stats.n as int);
        }
        let q: i128 = div_trunc_i128(val.val() as i128, stats.n as i128);
        FrequencyValue::new(q as i64)
    }
}

/// What [`divide_by_N`] computes: `val / stats.n`, truncating; `val` itself
/// when `stats.n` is zero.
pub open spec fn spec_divide_by_n(val: int, stats: SpectrumDataStats) -> int {
    if stats.n == 0 {
        val
    } else {
        div_trunc(val, stats.n as int)
    }
}

/// [`divide_by_N`] as a pluggable transform.
#[derive(Clone, Copy, Debug)]
pub struct DivideByNScaler;

impl SpectrumScaler for DivideByNScaler {
    open spec fn spec_scale(&self, val: int, stats: SpectrumDataStats) -> int {
        spec_divide_by_n(val, stats)
    }

    fn scale(&self, val: FrequencyValue, stats: &SpectrumDataStats) -> (r: FrequencyValue) {
        divide_by_N(val, stats)
    }
}

} // verus!
