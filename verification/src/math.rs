//! Integer arithmetic helpers shared by the spectrum pipeline: truncating
//! division, sequence sums, and sorting of magnitude values.

use vstd::prelude::*;
use vstd::relations::{sorted_by, total_ordering};
use vstd::seq_lib::lemma_sorted_unique;

verus! {

/// Largest magnitude (in milli-units) the fixed-point representation carries.
/// Keeping magnitudes within this bound keeps every statistic (sums are taken
/// in `i128`) and the `max - min` range free of overflow.
pub const MAG_LIMIT: i64 = 0x2000_0000_0000_0000;

/// A magnitude value representable by the fixed-point encoding.
pub open spec fn mag_in_range(v: int) -> bool {
    -MAG_LIMIT <= v <= MAG_LIMIT
}

/// Division truncating toward zero, as Rust's `/` computes it on integers
/// (spec-level `/` rounds toward negative infinity instead).
pub open spec fn div_trunc(a: int, b: int) -> int
    recommends
        b != 0,
{
    if a == 0 {
        0
    } else if a > 0 && b > 0 {
        a / b
    } else if a < 0 && b < 0 {
        (a * -1) / (b * -1)
    } else if a < 0 {
        ((a * -1) / b) * -1
    } else {
        (a / (b * -1)) * -1
    }
}

/// Truncating division never grows the dividend's absolute value.
pub proof fn lemma_div_trunc_bound(a: int, b: int)
    requires
        b != 0,
    ensures
        a >= 0 ==> -a <= div_trunc(a, b) <= a,
        a < 0 ==> a <= div_trunc(a, b) <= a * -1,
{
    let x = if a >= 0 { a } else { a * -1 };
    let d = if b > 0 { b } else { b * -1 };
    vstd::arithmetic::div_mod::lemma_div_pos_is_pos(x, d);
    vstd::arithmetic::div_mod::lemma_div_nonincreasing(x, d);
}

/// A quotient stays within any limit the dividend respects `b`-fold.
pub proof fn lemma_div_trunc_le_limit(a: int, b: int, l: int)
    requires
        b > 0,
        l >= 0,
        -(l * b) <= a <= l * b,
    ensures
        -l <= div_trunc(a, b) <= l,
{
    if a >= 0 {
        vstd::arithmetic::div_mod::lemma_div_pos_is_pos(a, b);
        vstd::arithmetic::div_mod::lemma_div_is_ordered(a, l * b, b);
        vstd::arithmetic::div_mod::lemma_div_multiples_vanish(l, b);
        assert(l * b == b * l) by (nonlinear_arith);
    } else {
        vstd::arithmetic::div_mod::lemma_div_pos_is_pos(a * -1, b);
        vstd::arithmetic::div_mod::lemma_div_is_ordered(a * -1, l * b, b);
        vstd::arithmetic::div_mod::lemma_div_multiples_vanish(l, b);
        assert(l * b == b * l) by (nonlinear_arith);
    }
}

/// A truncated quotient has the dividend's sign (for a positive divisor).
pub proof fn lemma_div_trunc_sign(a: int, b: int)
    requires
        b > 0,
    ensures
        a >= 0 ==> div_trunc(a, b) >= 0,
        a <= 0 ==> div_trunc(a, b) <= 0,
{
    if a >= 0 {
        vstd::arithmetic::div_mod::lemma_div_pos_is_pos(a, b);
    } else {
        vstd::arithmetic::div_mod::lemma_div_pos_is_pos(a * -1, b);
    }
}

/// Computes `div_trunc` on `i128` operands.
pub fn div_trunc_i128(a: i128, b: i128) -> (r: i128)
    requires
        b != 0,
        a != i128::MIN,
    ensures
        r as int == div_trunc(a as int, b as int),
{
    proof {
        lemma_div_trunc_bound(a as int, b as int);
        assert(-i128::MAX <= div_trunc(a as int, b as int) <= i128::MAX);
    }
    a.checked_div(b).unwrap()
}

/// Largest component (real or imaginary) a fixed-point complex value may
/// carry: squaring and summing two such components stays well inside `u128`,
/// and the resulting magnitude stays within `MAG_LIMIT`.
pub const COMPLEX_LIMIT: i64 = 0x1000_0000_0000_0000;

/// `r` is the integer square root of `x`, rounded down.
pub open spec fn is_floor_sqrt(x: int, r: int) -> bool {
    0 <= r && r * r <= x && x < (r + 1) * (r + 1)
}

/// The integer square root of `x`, rounded down.
pub open spec fn floor_sqrt(x: int) -> int
    recommends
        x >= 0,
{
    choose|r: int| is_floor_sqrt(x, r)
}

/// Every non-negative integer has a floor square root.
pub proof fn lemma_floor_sqrt_exists(x: int)
    requires
        x >= 0,
    ensures
        is_floor_sqrt(x, floor_sqrt(x)),
    decreases x,
{
    if x == 0 {
        assert(is_floor_sqrt(0, 0));
    } else {
        lemma_floor_sqrt_exists(x - 1);
        let r = floor_sqrt(x - 1);
        if x < (r + 1) * (r + 1) {
            assert(is_floor_sqrt(x, r));
        } else {
            assert((r + 2) * (r + 2) > (r + 1) * (r + 1)) by (nonlinear_arith)
                requires r >= 0;
            assert(is_floor_sqrt(x, r + 1));
        }
    }
    assert(exists|r: int| is_floor_sqrt(x, r));
}

/// The floor square root is unique.
pub proof fn lemma_floor_sqrt_unique(x: int, r: int)
    requires
        x >= 0,
        is_floor_sqrt(x, r),
    ensures
        r == floor_sqrt(x),
{
    lemma_floor_sqrt_exists(x);
    let f = floor_sqrt(x);
    if r < f {
        assert((r + 1) * (r + 1) <= f * f) by (nonlinear_arith)
            requires 0 <= r, r + 1 <= f;
    } else if f < r {
        assert((f + 1) * (f + 1) <= r * r) by (nonlinear_arith)
            requires 0 <= f, f + 1 <= r;
    }
}

/// Computes the integer square root of `x` by binary search.
pub fn floor_sqrt_u128(x: u128) -> (r: u128)
    requires
        x < 0x4000_0000_0000_0000_0000_0000_0000_0000,
    ensures
        r as int == floor_sqrt(x as int),
        is_floor_sqrt(x as int, r as int),
{
    let mut lo: u128 = 0;
    let mut hi: u128 = 0x8000_0000_0000_0000;
    proof {
        assert(0x8000_0000_0000_0000int * 0x8000_0000_0000_0000int
            == 0x4000_0000_0000_0000_0000_0000_0000_0000int);
    }
    while hi - lo > 1
        invariant
            lo < hi <= 0x8000_0000_0000_0000,
            (lo as int) * (lo as int) <= x as int,
            (x as int) < (hi as int) * (hi as int),
        decreases hi - lo,
    {
        let mid = lo + (hi - lo) / 2;
        proof {
            assert(lo < mid < hi);
            assert((mid as int) * (mid as int) < 0x8000_0000_0000_0000_0000_0000_0000_0000int)
                by (nonlinear_arith)
                requires 0 <= mid as int <= 0x7fff_ffff_ffff_ffffint;
        }
        let sq = mid * mid;
        if sq <= x {
            lo = mid;
        } else {
            hi = mid;
        }
    }
    proof {
        assert(is_floor_sqrt(x as int, lo as int));
        lemma_floor_sqrt_unique(x as int, lo as int);
    }
    lo
}

/// The magnitude of a fixed-point complex value: the integer square root of
/// `re*re + im*im`, in the same milli-units as the components.
pub open spec fn spec_magnitude(re: i64, im: i64) -> int {
    floor_sqrt((re as int) * (re as int) + (im as int) * (im as int))
}

/// Computes [`spec_magnitude`]. The result is non-negative and within the
/// magnitude range.
pub fn magnitude(re: i64, im: i64) -> (r: i64)
    requires
        -COMPLEX_LIMIT <= re <= COMPLEX_LIMIT,
        -COMPLEX_LIMIT <= im <= COMPLEX_LIMIT,
    ensures
        r as int == spec_magnitude(re, im),
        0 <= r,
        mag_in_range(r as int),
{
    proof {
        assert((re as int) * (re as int) <= (COMPLEX_LIMIT as int) * (COMPLEX_LIMIT as int)
            && (re as int) * (re as int) >= 0) by (nonlinear_arith)
            requires -COMPLEX_LIMIT <= re as int <= COMPLEX_LIMIT;
        assert((im as int) * (im as int) <= (COMPLEX_LIMIT as int) * (COMPLEX_LIMIT as int)
            && (im as int) * (im as int) >= 0) by (nonlinear_arith)
            requires -COMPLEX_LIMIT <= im as int <= COMPLEX_LIMIT;
    }
    let rr: i128 = (re as i128) * (re as i128);
    let ii: i128 = (im as i128) * (im as i128);
    let s: u128 = (rr + ii) as u128;
    let q = floor_sqrt_u128(s);
    proof {
        if q as int > MAG_LIMIT as int {
            assert((q as int) * (q as int) >= (MAG_LIMIT as int + 1) * (MAG_LIMIT as int + 1))
                by (nonlinear_arith)
                requires q as int >= MAG_LIMIT as int + 1, MAG_LIMIT as int >= 0;
            assert((MAG_LIMIT as int + 1) * (MAG_LIMIT as int + 1)
                > 2 * (COMPLEX_LIMIT as int) * (COMPLEX_LIMIT as int)) by (nonlinear_arith);
            assert(false);
        }
    }
    q as i64
}

/// Sum of a sequence of magnitudes, as a mathematical integer.
pub open spec fn sum_milli(s: Seq<i64>) -> int
    decreases s.len(),
{
    if s.len() == 0 {
        0
    } else {
        sum_milli(s.drop_last()) + s.last()
    }
}

/// A sum of in-range magnitudes is bounded by the length times the limit.
pub proof fn lemma_sum_bound(s: Seq<i64>)
    requires
        forall|i: int| 0 <= i < s.len() ==> mag_in_range(#[trigger] s[i] as int),
    ensures
        -(s.len() as int) * (MAG_LIMIT as int) <= sum_milli(s) <= (s.len() as int) * (MAG_LIMIT as int),
    decreases s.len(),
{
    if s.len() > 0 {
        lemma_sum_bound(s.drop_last());
        assert((s.len() - 1) * (MAG_LIMIT as int) + MAG_LIMIT as int == s.len() as int * (MAG_LIMIT as int)) by (nonlinear_arith);
    }
}

/// Sums the magnitudes of `v` without overflow.
pub fn sum_of(v: &Vec<i64>) -> (r: i128)
    requires
        forall|i: int| 0 <= i < v@.len() ==> mag_in_range(#[trigger] v@[i] as int),
    ensures
        r as int == sum_milli(v@),
{
    let ghost s = v@;
    let mut acc: i128 = 0;
    let mut i: usize = 0;
    proof {
        lemma_sum_bound(s);
    }
    while i < v.len()
        invariant
            0 <= i <= s.len(),
            v@ == s,
            forall|k: int| 0 <= k < s.len() ==> mag_in_range(#[trigger] s[k] as int),
            acc as int == sum_milli(s.take(i as int)),
            -(i as int) * (MAG_LIMIT as int) <= acc as int <= (i as int) * (MAG_LIMIT as int),
        decreases s.len() - i,
    {
        proof {
            assert(s.take(i as int + 1).drop_last() =~= s.take(i as int));
            assert(s.take(i as int + 1).last() == s[i as int]);
            assert((i as int) * (MAG_LIMIT as int) + MAG_LIMIT as int == (i as int + 1) * (MAG_LIMIT as int)) by (nonlinear_arith);
        }
        acc = acc + v[i] as i128;
        i = i + 1;
    }
    proof {
        assert(s.take(s.len() as int) =~= s);
    }
    acc
}

/// A sequence ordered from smallest to largest.
pub open spec fn is_sorted(s: Seq<i64>) -> bool {
    forall|i: int, j: int| 0 <= i < j < s.len() ==> s[i] <= s[j]
}

/// The ordering the magnitude sort uses.
pub open spec fn mag_leq() -> spec_fn(i64, i64) -> bool {
    |x: i64, y: i64| x <= y
}

/// The ascending reordering of a magnitude sequence.
pub open spec fn sorted_version(s: Seq<i64>) -> Seq<i64> {
    s.sort_by(mag_leq())
}

/// What `sorted_version` yields: a sorted sequence with the same elements.
pub proof fn lemma_sorted_version(s: Seq<i64>)
    ensures
        is_sorted(sorted_version(s)),
        sorted_version(s).to_multiset() == s.to_multiset(),
        sorted_version(s).len() == s.len(),
{
    broadcast use vstd::seq_lib::group_to_multiset_ensures;

    assert(total_ordering(mag_leq()));
    s.lemma_sort_by_ensures(mag_leq());
    let sv = sorted_version(s);
    assert forall|i: int, j: int| 0 <= i < j < sv.len() implies sv[i] <= sv[j] by {
        assert(mag_leq()(sv[i], sv[j]));
    }
    assert(sv.to_multiset().len() == sv.len());
    assert(s.to_multiset().len() == s.len());
}

/// There is only one sorted arrangement of given elements: any sorted
/// sequence with the same multiset of values as `s` is `sorted_version(s)`.
pub proof fn lemma_sorted_version_unique(s: Seq<i64>, t: Seq<i64>)
    requires
        is_sorted(t),
        t.to_multiset() == s.to_multiset(),
    ensures
        t == sorted_version(s),
{
    assert(total_ordering(mag_leq()));
    lemma_sorted_version(s);
    assert forall|i: int, j: int| 0 <= i < j < t.len() implies #[trigger] mag_leq()(t[i], t[j]) by {
        assert(t[i] <= t[j]);
    }
    let sv = sorted_version(s);
    assert forall|i: int, j: int| 0 <= i < j < sv.len() implies #[trigger] mag_leq()(sv[i], sv[j]) by {
        assert(sv[i] <= sv[j]);
    }
    lemma_sorted_unique(t, sorted_version(s), mag_leq());
}

/// Every element of the sorted arrangement occurs in the original sequence.
pub proof fn lemma_sorted_version_elements(s: Seq<i64>)
    ensures
        forall|k: int| 0 <= k < sorted_version(s).len() ==> s.contains(#[trigger] sorted_version(s)[k]),
{
    broadcast use vstd::seq_lib::group_to_multiset_ensures;

    lemma_sorted_version(s);
    let sv = sorted_version(s);
    assert forall|k: int| 0 <= k < sv.len() implies s.contains(#[trigger] sv[k]) by {
        assert(sv.to_multiset().contains(sv[k]));
        assert(s.to_multiset().contains(sv[k]));
    }
}

/// Sorts the magnitudes in `v` ascending, keeping the same elements.
pub fn sort_magnitudes(v: &mut Vec<i64>)
    ensures
        final(v)@ == sorted_version(old(v)@),
{
    let ghost orig = v@;
    let n = v.len();
    let mut i: usize = 1;
    while i < n
        invariant
            1 <= i,
            n == v@.len(),
            v@.to_multiset() == orig.to_multiset(),
            forall|p: int, q: int| 0 <= p < q < i && q < n ==> v@[p] <= v@[q],
        decreases n - i,
    {
        let mut j: usize = i;
        while j > 0 && v[j - 1] > v[j]
            invariant
                0 <= j <= i < n,
                n == v@.len(),
                v@.to_multiset() == orig.to_multiset(),
                forall|p: int, q: int| 0 <= p < q <= i as int && q != j as int ==> v@[p] <= v@[q],
            decreases j,
        {
            let a = v[j - 1];
            let b = v[j];
            let ghost before = v@;
            v[j - 1] = b;
            v[j] = a;
            proof {
                broadcast use vstd::seq_lib::group_to_multiset_ensures;

                assert(v@ =~= before.update(j as int - 1, b).update(j as int, a));
                assert(v@.to_multiset() =~= before.to_multiset());
            }
            j = j - 1;
        }
        i = i + 1;
    }
    proof {
        if n == 0 {
            broadcast use vstd::seq_lib::group_to_multiset_ensures;

            assert(v@ =~= orig);
        }
        lemma_sorted_version_unique(orig, v@);
    }
}

} // verus!
