//! Windowing functions (Hann, Hamming) applied to a sample buffer before
//! spectral analysis, in fixed point.
//!
//! The position-dependent cosine is computed by a rational half-sine
//! approximation that is exact at every quarter turn — in particular a Hann
//! window still starts at an exactly zero weight — and stays within a few
//! thousandths of the real cosine in between.

use crate::math::{div_trunc, div_trunc_i128, lemma_div_trunc_le_limit};
use vstd::prelude::*;

verus! {

/// Longest sample buffer a window can be computed for; keeps the cosine's
/// intermediate products inside `u128`.
pub const WINDOW_LEN_LIMIT: usize = 0x4000_0000;

/// The rational half-wave sine: for a phase `a / b` in `[0, 1]` of a half
/// turn, `sin(pi * a / b)` in milli-units is approximated by
/// `16000 * a * (b - a) / (5 * b * b - 4 * a * (b - a))`,
/// which is exact at the ends and at the crest.
pub open spec fn spec_sin_half(a: int, b: int) -> int
    recommends
        0 <= a <= b,
        1 <= b,
{
    let t = a * (b - a);
    (16000 * t) / (5 * b * b - 4 * t)
}

/// Computes [`spec_sin_half`]. The result lies in `[0, 1000]`.
fn sin_half_milli(a: u128, b: u128) -> (r: i64)
    requires
        a <= b,
        1 <= b <= 0x400_0000_0000,
    ensures
        r as int == spec_sin_half(a as int, b as int),
        0 <= r <= 1000,
{
    proof {
        let ai = a as int;
        let bi = b as int;
        assert(0 <= ai * (bi - ai) && 4 * (ai * (bi - ai)) <= bi * bi && 1 <= bi * bi && bi * bi
            <= 0x400_0000_0000int * 0x400_0000_0000int && ai * (bi - ai) <= bi * bi)
            by (nonlinear_arith)
            requires 1 <= bi <= 0x400_0000_0000int, 0 <= ai <= bi;
    }
    let t: u128 = a * (b - a);
    let den: u128 = 5 * (b * b) - 4 * t;
    let num: u128 = 16000 * t;
    proof {
        let ti = t as int;
        let di = den as int;
        assert(di == 5 * ((b as int) * (b as int)) - 4 * ti && di >= 1);
        assert(16000 * ti <= 1000 * di) by (nonlinear_arith)
            requires
                di == 5 * ((b as int) * (b as int)) - 4 * ti,
                4 * ti <= (b as int) * (b as int),
        ;
        vstd::arithmetic::div_mod::lemma_div_pos_is_pos(16000 * ti, di);
        vstd::arithmetic::div_mod::lemma_div_is_ordered(16000 * ti, 1000 * di, di);
        vstd::arithmetic::div_mod::lemma_div_multiples_vanish(1000, di);
        assert(1000 * di == di * 1000) by (nonlinear_arith);
        // the executable grouping matches the spec function's
        assert(5 * ((b as int) * (b as int)) == 5 * (b as int) * (b as int)) by (nonlinear_arith);
    }
    (num / den) as i64
}

/// The cosine of `num / den` turns (`cos(2 * pi * num / den)`) in
/// milli-units, for a phase in `[0, 1]`: the phase is shifted a quarter turn
/// and reduced onto the half-wave sine.
pub open spec fn spec_cos_turns(num: int, den: int) -> int
    recommends
        0 <= num <= den,
        1 <= den,
{
    let ny = 4 * num + den;
    let dy = 2 * den;
    if ny <= dy {
        spec_sin_half(ny, dy)
    } else if ny <= 2 * dy {
        -spec_sin_half(ny - dy, dy)
    } else {
        spec_sin_half(ny - 2 * dy, dy)
    }
}

/// Computes [`spec_cos_turns`]. The result lies in `[-1000, 1000]`.
fn cos_turns_milli(num: u64, den: u64) -> (r: i64)
    requires
        num <= den,
        1 <= den <= 0x100_0000_0000,
    ensures
        r as int == spec_cos_turns(num as int, den as int),
        -1000 <= r <= 1000,
{
    let ny: u128 = 4 * (num as u128) + den as u128;
    let dy: u128 = 2 * (den as u128);
    if ny <= dy {
        sin_half_milli(ny, dy)
    } else if ny <= 2 * dy {
        -sin_half_milli(ny - dy, dy)
    } else {
        sin_half_milli(ny - 2 * dy, dy)
    }
}

/// The Hann weight at position `i` of `n`:
/// `0.5 * (1 - cos(2 * pi * i / n))` in milli-units.
pub open spec fn spec_hann_weight(i: int, n: int) -> int
    recommends
        0 <= i < n,
{
    (1000 - spec_cos_turns(i, n)) / 2
}

/// The Hamming weight at position `i` of `n`:
/// `0.54 - 0.46 * cos(2 * pi * i / (n - 1))` in milli-units.
pub open spec fn spec_hamming_weight(i: int, n: int) -> int
    recommends
        0 <= i < n,
        n >= 2,
{
    (540000 - 460 * spec_cos_turns(i, n - 1)) / 1000
}

/// A sample multiplied by a milli-unit weight: `s * w / 1000`, truncating.
pub open spec fn spec_apply_weight(s: i64, w: int) -> int {
    div_trunc(s as int * w, 1000)
}

/// Multiplies a sample by a weight in `[0, 1000]` milli-units.
fn apply_weight(s: i64, w: i64) -> (r: i64)
    requires
        0 <= w <= 1000,
    ensures
        r as int == spec_apply_weight(s, w as int),
{
    proof {
        let si = s as int;
        let l = if si >= 0 { si } else { si * -1 };
        assert(-(l * 1000) <= si * (w as int) && si * (w as int) <= l * 1000 && (si >= 0 ==> si
            * (w as int) >= 0) && (si < 0 ==> si * (w as int) <= 0)) by (nonlinear_arith)
            requires 0 <= w as int <= 1000, l == (if si >= 0 { si } else { si * -1 });
        lemma_div_trunc_le_limit(si * (w as int), 1000, l);
        crate::math::lemma_div_trunc_sign(si * (w as int), 1000);
    }
    div_trunc_i128((s as i128) * (w as i128), 1000) as i64
}

/// Applies a Hann window: each sample is multiplied by
/// `0.5 * (1 - cos(2 * pi * i / n))`, which is zero at the first sample.
pub fn hann_window(samples: &Vec<i64>) -> (r: Vec<i64>)
    requires
        samples@.len() <= WINDOW_LEN_LIMIT,
    ensures
        r@.len() == samples@.len(),
        forall|i: int|
            0 <= i < samples@.len() ==> #[trigger] r@[i] as int == spec_apply_weight(
                samples@[i],
                spec_hann_weight(i, samples@.len() as int),
            ),
{
    let n = samples.len();
    let mut out: Vec<i64> = Vec::new();
    let mut i: usize = 0;
    while i < n
        invariant
            0 <= i <= n,
            n == samples@.len() <= WINDOW_LEN_LIMIT,
            out@.len() == i as int,
            forall|k: int|
                0 <= k < i as int ==> #[trigger] out@[k] as int == spec_apply_weight(
                    samples@[k],
                    spec_hann_weight(k, n as int),
                ),
        decreases n - i,
    {
        let c = cos_turns_milli(i as u64, n as u64);
        let w = (1000 - c) / 2;
        out.push(apply_weight(samples[i], w));
        i = i + 1;
    }
    out
}

/// Applies a Hamming window: each sample is multiplied by
/// `0.54 - 0.46 * cos(2 * pi * i / (n - 1))`. A buffer of length one has no
/// defined weight (the phase divides by `n - 1`), so such input is ruled
/// out; the empty buffer passes through empty.
pub fn hamming_window(samples: &Vec<i64>) -> (r: Vec<i64>)
    requires
        samples@.len() <= WINDOW_LEN_LIMIT,
        samples@.len() != 1,
    ensures
        r@.len() == samples@.len(),
        forall|i: int|
            0 <= i < samples@.len() ==> #[trigger] r@[i] as int == spec_apply_weight(
                samples@[i],
                spec_hamming_weight(i, samples@.len() as int),
            ),
{
    let n = samples.len();
    let mut out: Vec<i64> = Vec::new();
    let mut i: usize = 0;
    while i < n
        invariant
            0 <= i <= n,
            n == samples@.len() <= WINDOW_LEN_LIMIT,
            n != 1,
            out@.len() == i as int,
            forall|k: int|
                0 <= k < i as int ==> #[trigger] out@[k] as int == spec_apply_weight(
                    samples@[k],
                    spec_hamming_weight(k, n as int),
                ),
        decreases n - i,
    {
        let c = cos_turns_milli(i as u64, (n - 1) as u64);
        let w = (540000 - 460 * (c as i64)) / 1000;
        out.push(apply_weight(samples[i], w));
        i = i + 1;
    }
    out
}

} // verus!
