//! Frequency-spectrum analysis over fixed-point sample data.
//!
//! The crate turns the output of a forward FFT over a block of time-domain
//! samples into a frequency spectrum: a sequence of `(frequency, magnitude)`
//! pairs sorted by frequency, together with cached summary statistics and
//! whole-spectrum rescaling. Windowing functions prepare the samples before
//! the transform.
//!
//! All quantities are carried as fixed-point integers in thousandths
//! (milli-units), so every step of the pipeline around the raw FFT butterfly
//! computation — which floating-point front ends perform outside this crate —
//! is fully verified.

pub mod frequency;
pub mod math;
pub mod scaling;
pub mod spectrum;
pub mod window;

pub use crate::window::hamming_window;
pub use crate::window::hann_window;

use crate::frequency::{Frequency, FrequencyValue};
use crate::math::{mag_in_range, magnitude, spec_magnitude, COMPLEX_LIMIT};
use crate::scaling::{SpectrumDataStats, SpectrumScaler};
use crate::spectrum::{spec_pairs_valid, spec_sorted_pairs, FrequencySpectrum};
use vstd::arithmetic::div_mod::{lemma_div_is_ordered, lemma_div_multiples_vanish, lemma_div_pos_is_pos};
use vstd::arithmetic::mul::lemma_mul_inequality;
use vstd::prelude::*;

verus! {

/// Why an analysis request was rejected.
#[derive(Clone, Copy, Debug, PartialEq, Eq, Structural)]
pub enum SpectrumError {
    /// The sample buffer was empty.
    EmptyInput,
    /// The sample buffer length is not a supported transform size (a power
    /// of two of at least four), or the mapped spectrum would be too short
    /// to carry statistics.
    InvalidInputLength,
    /// A value coming from outside arithmetic (such as a floating-point
    /// scaling step) was not finite or not representable in fixed point.
    NonFiniteResult,
}

/// True if `n` is a power of two (1, 2, 4, 8, ...).
pub open spec fn spec_is_power_of_two(n: nat) -> bool
    decreases n,
{
    if n == 0 {
        false
    } else if n == 1 {
        true
    } else {
        n % 2 == 0 && spec_is_power_of_two(n / 2)
    }
}

/// Decides whether `n` is a power of two.
pub fn is_power_of_two(n: usize) -> (r: bool)
    ensures
        r == spec_is_power_of_two(n as nat),
{
    let mut m: usize = n;
    if m == 0 {
        return false;
    }
    while m % 2 == 0
        invariant
            1 <= m <= n,
            spec_is_power_of_two(n as nat) == spec_is_power_of_two(m as nat),
        decreases m,
    {
        m = m / 2;
    }
    m == 1
}

/// Both components of a fixed-point complex value are representable.
pub open spec fn complex_in_range(c: (i64, i64)) -> bool {
    &&& -COMPLEX_LIMIT <= c.0 <= COMPLEX_LIMIT
    &&& -COMPLEX_LIMIT <= c.1 <= COMPLEX_LIMIT
}

/// Converts samples to complex values with a zero imaginary part, as
/// preparation for the transform.
pub fn samples_to_complex(samples: &Vec<i64>) -> (r: Vec<(i64, i64)>)
    ensures
        r@.len() == samples@.len(),
        forall|i: int| 0 <= i < samples@.len() ==> #[trigger] r@[i] == (samples@[i], 0i64),
{
    let mut out: Vec<(i64, i64)> = Vec::new();
    let mut i: usize = 0;
    while i < samples.len()
        invariant
            0 <= i <= samples@.len(),
            out@.len() == i as int,
            forall|k: int| 0 <= k < i as int ==> #[trigger] out@[k] == (samples@[k], 0i64),
        decreases samples@.len() - i,
    {
        out.push((samples[i], 0));
        i = i + 1;
    }
    out
}

/// The statistics snapshot handed to a per-bin scaling function: no spectrum
/// statistics exist yet, so only the sample count `n` is filled in.
pub open spec fn spec_bin_stats(fft_len: int) -> SpectrumDataStats {
    SpectrumDataStats { min: 0, max: 0, average: 0, median: 0, n: fft_len as i64 }
}

/// Reduces the first half of a forward-FFT result (the half below the
/// Nyquist limit) to per-bin magnitudes, optionally scaled.
pub fn fft_result_to_magnitudes<S: SpectrumScaler>(
    fft_result: &Vec<(i64, i64)>,
    fft_len: usize,
    scaling_fn: Option<&S>,
) -> (r: Vec<FrequencyValue>)
    requires
        fft_len as int / 2 <= fft_result@.len(),
        fft_len <= i64::MAX,
        forall|k: int| 0 <= k < fft_len as int / 2 ==> complex_in_range(#[trigger] fft_result@[k]),
    ensures
        r@.len() == fft_len as int / 2,
        forall|k: int| 0 <= k < r@.len() ==> mag_in_range((#[trigger] r@[k])@ as int),
        scaling_fn matches Some(sc) ==> forall|k: int|
            0 <= k < r@.len() ==> (#[trigger] r@[k])@ as int == sc.spec_scale(
                spec_magnitude(fft_result@[k].0, fft_result@[k].1),
                spec_bin_stats(fft_len as int),
            ),
        scaling_fn is None ==> forall|k: int|
            0 <= k < r@.len() ==> (#[trigger] r@[k])@ as int == spec_magnitude(
                fft_result@[k].0,
                fft_result@[k].1,
            ) && r@[k]@ >= 0,
{
    let stats = SpectrumDataStats { min: 0, max: 0, average: 0, median: 0, n: fft_len as i64 };
    let half = fft_len / 2;
    let mut out: Vec<FrequencyValue> = Vec::new();
    let mut i: usize = 0;
    while i < half
        invariant
            0 <= i <= half as int,
            half as int == fft_len as int / 2,
            half as int <= fft_result@.len(),
            stats == spec_bin_stats(fft_len as int),
            forall|k: int|
                0 <= k < fft_len as int / 2 ==> complex_in_range(#[trigger] fft_result@[k]),
            out@.len() == i as int,
            forall|k: int| 0 <= k < i as int ==> mag_in_range((#[trigger] out@[k])@ as int),
            scaling_fn matches Some(sc) ==> forall|k: int|
                0 <= k < i as int ==> (#[trigger] out@[k])@ as int == sc.spec_scale(
                    spec_magnitude(fft_result@[k].0, fft_result@[k].1),
                    spec_bin_stats(fft_len as int),
                ),
            scaling_fn is None ==> forall|k: int|
                0 <= k < i as int ==> (#[trigger] out@[k])@ as int == spec_magnitude(
                    fft_result@[k].0,
                    fft_result@[k].1,
                ) && out@[k]@ >= 0,
        decreases half - i,
    {
        let c = fft_result[i];
        let mag = FrequencyValue::new(magnitude(c.0, c.1));
        let scaled = match scaling_fn {
            Some(sc) => sc.scale(mag, &stats),
            None => mag,
        };
        out.push(scaled);
        i = i + 1;
    }
    out
}

/// The frequency (in milli-Hertz) of FFT bin `k`: `k / fft_len *
/// sampling_rate`, carried out in fixed point as `k * (rate * 1000) /
/// fft_len`, truncating.
pub open spec fn spec_freq(k: int, fft_len: int, rate: int) -> int
    recommends
        fft_len >= 1,
        0 <= k,
        0 <= rate,
{
    (k * (rate * 1000)) / fft_len
}

/// Bin frequencies are non-negative and never exceed the sampling rate.
pub proof fn lemma_freq_bounds(k: int, fft_len: int, rate: int)
    requires
        0 <= k <= fft_len,
        1 <= fft_len,
        0 <= rate,
    ensures
        0 <= spec_freq(k, fft_len, rate) <= rate * 1000,
{
    lemma_mul_inequality(0, k, rate * 1000);
    lemma_div_pos_is_pos(k * (rate * 1000), fft_len);
    lemma_mul_inequality(k, fft_len, rate * 1000);
    lemma_div_is_ordered(k * (rate * 1000), fft_len * (rate * 1000), fft_len);
    lemma_div_multiples_vanish(rate * 1000, fft_len);
}

/// Bin frequencies grow with the bin index.
pub proof fn lemma_freq_monotone(k1: int, k2: int, fft_len: int, rate: int)
    requires
        0 <= k1 <= k2,
        1 <= fft_len,
        0 <= rate,
    ensures
        spec_freq(k1, fft_len, rate) <= spec_freq(k2, fft_len, rate),
{
    lemma_mul_inequality(k1, k2, rate * 1000);
    lemma_div_is_ordered(k1 * (rate * 1000), k2 * (rate * 1000), fft_len);
}

/// Maps per-bin magnitudes to `(frequency, magnitude)` pairs, ascending by
/// frequency. Every bin is emitted in order; if a frequency ceiling is given
/// the walk stops right after the first entry whose frequency exceeds it
/// (that entry is still emitted, so the zero-frequency entry always appears).
pub fn magnitudes_to_frequency_spectrum(
    magnitudes: Vec<FrequencyValue>,
    fft_len: usize,
    sampling_rate: u32,
    max_frequency: Option<Frequency>,
) -> (r: Vec<(Frequency, FrequencyValue)>)
    requires
        1 <= fft_len,
        magnitudes@.len() <= fft_len,
        forall|k: int| 0 <= k < magnitudes@.len() ==> mag_in_range((#[trigger] magnitudes@[k])@ as int),
    ensures
        r@.len() <= magnitudes@.len(),
        forall|k: int|
            0 <= k < r@.len() ==> (#[trigger] r@[k]).0@ as int == spec_freq(
                k,
                fft_len as int,
                sampling_rate as int,
            ) && r@[k].1 == magnitudes@[k],
        max_frequency is None ==> r@.len() == magnitudes@.len(),
        max_frequency matches Some(mf) ==> {
            &&& forall|k: int|
                0 <= k < r@.len() - 1 ==> spec_freq(k, fft_len as int, sampling_rate as int)
                    <= mf@
            &&& (r@.len() < magnitudes@.len() ==> r@.len() >= 1 && spec_freq(
                r@.len() - 1,
                fft_len as int,
                sampling_rate as int,
            ) > mf@)
        },
        magnitudes@.len() >= 1 ==> r@.len() >= 1,
        magnitudes@.len() >= 2 ==> r@.len() >= 2,
        spec_sorted_pairs(r@),
        spec_pairs_valid(r@),
{
    let ghost mags = magnitudes@;
    let ghost l = fft_len as int;
    let ghost rt = sampling_rate as int;
    let max_val: Option<i64> = match &max_frequency {
        Some(mf) => Some(mf.val()),
        None => None,
    };
    let mut out: Vec<(Frequency, FrequencyValue)> = Vec::new();
    let mut i: usize = 0;
    let mut stop = false;
    while i < magnitudes.len() && !stop
        invariant
            0 <= i <= mags.len(),
            magnitudes@ == mags,
            mags.len() <= l,
            1 <= l,
            l == fft_len as int,
            rt == sampling_rate as int,
            forall|k: int|
                0 <= k < mags.len() ==> mag_in_range((#[trigger] mags[k])@ as int),
            out@.len() == i as int,
            forall|k: int|
                0 <= k < i as int ==> (#[trigger] out@[k]).0@ as int == spec_freq(k, l, rt)
                    && out@[k].1 == mags[k],
            max_frequency is None ==> max_val is None && !stop,
            max_frequency matches Some(mf) ==> {
                &&& max_val matches Some(v) && v == mf@ && v >= 0
                &&& forall|k: int| 0 <= k < i as int - 1 ==> spec_freq(k, l, rt) <= mf@
                &&& (!stop && i as int > 0 ==> spec_freq(i as int - 1, l, rt) <= mf@)
                &&& (stop ==> i as int >= 1 && spec_freq(i as int - 1, l, rt) > mf@)
            },
            stop ==> i as int >= 1,
        decreases mags.len() - i,
    {
        proof {
            assert((i as int) * ((rt * 1000) as int) <= (u64::MAX as int) * ((u32::MAX as int)
                * 1000)) by (nonlinear_arith)
                requires
                    0 <= i as int <= u64::MAX as int,
                    0 <= rt * 1000 <= (u32::MAX as int) * 1000,
            ;
            lemma_freq_bounds(i as int, l, rt);
        }
        let num: u128 = (i as u128) * ((sampling_rate as u128) * 1000);
        let fq: u128 = num / (fft_len as u128);
        let fval: i64 = fq as i64;
        let fr = Frequency::new(fval);
        out.push((fr, magnitudes[i]));
        i = i + 1;
        match max_val {
            Some(v) => {
                if fval > v {
                    stop = true;
                }
            },
            None => {},
        }
    }
    proof {
        assert forall|a: int, b: int| 0 <= a < b < out@.len() implies (#[trigger] out@[a]).0@
            <= (#[trigger] out@[b]).0@ by {
            lemma_freq_monotone(a, b, l, rt);
        }
        assert forall|k: int| 0 <= k < out@.len() implies (#[trigger] out@[k]).0@ >= 0
            && mag_in_range(out@[k].1@ as int) by {
            lemma_freq_bounds(k, l, rt);
        }
        if mags.len() >= 2 && out@.len() < 2 {
            // the walk can only have stopped right after the zero-frequency
            // entry, whose frequency cannot exceed the non-negative ceiling
            assert(stop && i == 1);
            assert(0 * (rt * 1000) == 0);
            lemma_div_pos_is_pos(0, l);
            vstd::arithmetic::div_mod::lemma_div_nonincreasing(0, l);
            assert(spec_freq(0, l, rt) == 0);
            assert(false);
        }
    }
    out
}

/// The full analysis tail: validates the transform length, reduces a
/// forward-FFT result to Nyquist-limited magnitudes (optionally scaled
/// per bin), maps them to frequencies, and aggregates the spectrum.
///
/// Succeeds exactly when the buffer length is a power of two of at least
/// four; an empty buffer is reported as [`SpectrumError::EmptyInput`] and
/// every other unsupported length as [`SpectrumError::InvalidInputLength`].
pub fn fft_to_spectrum<S: SpectrumScaler>(
    fft_result: &Vec<(i64, i64)>,
    sampling_rate: u32,
    scaling_fn: Option<&S>,
    max_frequency: Option<Frequency>,
) -> (r: Result<FrequencySpectrum, SpectrumError>)
    requires
        fft_result@.len() <= i64::MAX,
        forall|k: int| 0 <= k < fft_result@.len() ==> complex_in_range(#[trigger] fft_result@[k]),
    ensures
        r is Ok <==> fft_result@.len() >= 4 && spec_is_power_of_two(fft_result@.len() as nat),
        fft_result@.len() == 0 ==> r == Result::<FrequencySpectrum, SpectrumError>::Err(
            SpectrumError::EmptyInput,
        ),
        fft_result@.len() > 0 && !(fft_result@.len() >= 4 && spec_is_power_of_two(
            fft_result@.len() as nat,
        )) ==> r == Result::<FrequencySpectrum, SpectrumError>::Err(
            SpectrumError::InvalidInputLength,
        ),
        r matches Ok(s) ==> {
            let n = fft_result@.len() as int;
            &&& 2 <= s@.len() <= n / 2
            &&& (max_frequency is None ==> s@.len() == n / 2)
            &&& (max_frequency matches Some(mf) ==> (s@.len() < n / 2 ==> spec_freq(
                s@.len() - 1,
                n,
                sampling_rate as int,
            ) > mf@))
            &&& spec_sorted_pairs(s@)
            &&& forall|k: int|
                0 <= k < s@.len() ==> (#[trigger] s@[k]).0@ as int == spec_freq(
                    k,
                    n,
                    sampling_rate as int,
                )
            &&& (scaling_fn matches Some(sc) ==> forall|k: int|
                0 <= k < s@.len() ==> (#[trigger] s@[k]).1@ as int == sc.spec_scale(
                    spec_magnitude(fft_result@[k].0, fft_result@[k].1),
                    spec_bin_stats(n),
                ))
            &&& (scaling_fn is None ==> forall|k: int|
                0 <= k < s@.len() ==> (#[trigger] s@[k]).1@ as int == spec_magnitude(
                    fft_result@[k].0,
                    fft_result@[k].1,
                ))
            &&& (max_frequency matches Some(mf) ==> forall|k: int|
                0 <= k < s@.len() - 1 ==> spec_freq(k, n, sampling_rate as int) <= mf@)
        },
{
    let n = fft_result.len();
    if n == 0 {
        return Err(SpectrumError::EmptyInput);
    }
    if n < 4 || !is_power_of_two(n) {
        return Err(SpectrumError::InvalidInputLength);
    }
    let magnitudes = fft_result_to_magnitudes(fft_result, n, scaling_fn);
    let pairs = magnitudes_to_frequency_spectrum(magnitudes, n, sampling_rate, max_frequency);
    Ok(FrequencySpectrum::new(pairs))
}

} // verus!
