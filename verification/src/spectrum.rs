//! The [`FrequencySpectrum`] aggregate: a frequency-sorted sequence of
//! `(Frequency, FrequencyValue)` pairs with cached statistics (min, max,
//! average, median) and a single, exclusive whole-spectrum rescale operation.

use crate::frequency::{lemma_value_eq, Frequency, FrequencyValue};
use crate::math::{
    div_trunc, div_trunc_i128, lemma_div_trunc_le_limit, lemma_sorted_version,
    lemma_sorted_version_elements, lemma_sum_bound, mag_in_range, sort_magnitudes, sorted_version,
    sum_milli, sum_of, MAG_LIMIT,
};
use crate::scaling::{IdentityScaler, SpectrumDataStats, SpectrumScaler};
use std::collections::BTreeMap;
use vstd::laws_cmp::obeys_cmp;
use vstd::prelude::*;

verus! {

/// The magnitudes of a pair sequence, in order.
pub open spec fn spec_mags(data: Seq<(Frequency, FrequencyValue)>) -> Seq<i64> {
    data.map_values(|p: (Frequency, FrequencyValue)| p.1@)
}

/// The pairs are ordered by non-decreasing frequency.
pub open spec fn spec_sorted_pairs(data: Seq<(Frequency, FrequencyValue)>) -> bool {
    forall|i: int, j: int| 0 <= i < j < data.len() ==> (#[trigger] data[i]).0@ <= (#[trigger] data[j]).0@
}

/// Frequencies are non-negative and magnitudes lie in the fixed-point range.
pub open spec fn spec_pairs_valid(data: Seq<(Frequency, FrequencyValue)>) -> bool {
    forall|i: int|
        0 <= i < data.len() ==> (#[trigger] data[i]).0@ >= 0 && mag_in_range(data[i].1@ as int)
}

/// The smallest magnitude.
pub open spec fn spec_min(m: Seq<i64>) -> int
    recommends
        m.len() >= 1,
{
    sorted_version(m).first() as int
}

/// The largest magnitude.
pub open spec fn spec_max(m: Seq<i64>) -> int
    recommends
        m.len() >= 1,
{
    sorted_version(m).last() as int
}

/// The arithmetic mean in fixed point: the sum of the magnitudes divided by
/// their count, truncating toward zero.
pub open spec fn spec_average(m: Seq<i64>) -> int
    recommends
        m.len() >= 1,
{
    div_trunc(sum_milli(m), m.len() as int)
}

/// The median: the average of the two central elements of the ascending
/// arrangement of the magnitudes.
pub open spec fn spec_median(m: Seq<i64>) -> int
    recommends
        m.len() >= 2,
{
    div_trunc(
        sorted_version(m)[m.len() as int / 2 - 1] + sorted_version(m)[m.len() as int / 2],
        2,
    )
}

/// The statistics snapshot a whole-spectrum rescale hands to the transform:
/// the four cached statistics plus the number of entries.
pub open spec fn spec_snapshot(data: Seq<(Frequency, FrequencyValue)>) -> SpectrumDataStats {
    SpectrumDataStats {
        min: spec_min(spec_mags(data)) as i64,
        max: spec_max(spec_mags(data)) as i64,
        average: spec_average(spec_mags(data)) as i64,
        median: spec_median(spec_mags(data)) as i64,
        n: data.len() as i64,
    }
}

/// A frequency spectrum: pairs sorted ascending by frequency, with the four
/// statistics computed eagerly at construction and after each rescale.
#[derive(Debug)]
pub struct FrequencySpectrum {
    /// Raw data, sorted from lowest to highest frequency.
    data: Vec<(Frequency, FrequencyValue)>,
    /// Cached arithmetic mean of the magnitudes.
    average: FrequencyValue,
    /// Cached median of the magnitudes.
    median: FrequencyValue,
    /// Cached minimum magnitude.
    min: FrequencyValue,
    /// Cached maximum magnitude.
    max: FrequencyValue,
}

impl View for FrequencySpectrum {
    type V = Seq<(Frequency, FrequencyValue)>;

    closed spec fn view(&self) -> Seq<(Frequency, FrequencyValue)> {
        self.data@
    }
}

impl FrequencySpectrum {
    /// Every spectrum ever constructed is sorted, holds at least two in-range
    /// entries, and caches exactly the statistics of its magnitudes.
    #[verifier::type_invariant]
    closed spec fn type_inv(self) -> bool {
        &&& 2 <= self.data@.len() <= i64::MAX
        &&& spec_sorted_pairs(self.data@)
        &&& spec_pairs_valid(self.data@)
        &&& self.min@ as int == spec_min(spec_mags(self.data@))
        &&& self.max@ as int == spec_max(spec_mags(self.data@))
        &&& self.average@ as int == spec_average(spec_mags(self.data@))
        &&& self.median@ as int == spec_median(spec_mags(self.data@))
        &&& mag_in_range(self.min@ as int)
        &&& mag_in_range(self.max@ as int)
    }

    /// Computes (min, max, average, median) of the magnitudes in `data`.
    fn calc_statistics(data: &Vec<(Frequency, FrequencyValue)>) -> (r: (i64, i64, i64, i64))
        requires
            2 <= data@.len() <= i64::MAX,
            spec_pairs_valid(data@),
        ensures
            r.0 as int == spec_min(spec_mags(data@)),
            r.1 as int == spec_max(spec_mags(data@)),
            r.2 as int == spec_average(spec_mags(data@)),
            r.3 as int == spec_median(spec_mags(data@)),
            mag_in_range(r.0 as int),
            mag_in_range(r.1 as int),
            mag_in_range(r.2 as int),
            mag_in_range(r.3 as int),
    {
        let ghost m = spec_mags(data@);
        let mut vals: Vec<i64> = Vec::new();
        let mut i: usize = 0;
        while i < data.len()
            invariant
                0 <= i <= data@.len(),
                m == spec_mags(data@),
                vals@ == m.take(i as int),
            decreases data@.len() - i,
        {
            vals.push(data[i].1.val());
            proof {
                assert(vals@ =~= m.take(i as int + 1));
            }
            i = i + 1;
        }
        proof {
            assert(vals@ =~= m);
            assert forall|k: int| 0 <= k < m.len() implies mag_in_range(#[trigger] m[k] as int) by {
                assert(m[k] == data@[k].1@);
            }
            lemma_sum_bound(m);
        }
        let total: i128 = sum_of(&vals);
        sort_magnitudes(&mut vals);
        proof {
            lemma_sorted_version(m);
            lemma_sorted_version_elements(m);
            assert forall|k: int| 0 <= k < vals@.len() implies mag_in_range(
                #[trigger] vals@[k] as int,
            ) by {
                assert(m.contains(vals@[k]));
            }
        }
        let n = vals.len();
        let mn = vals[0];
        let mx = vals[n - 1];
        proof {
            assert((n as int) * (MAG_LIMIT as int) <= (i64::MAX as int) * (MAG_LIMIT as int))
                by (nonlinear_arith)
                requires 2 <= n as int <= i64::MAX;
            lemma_div_trunc_le_limit(total as int, n as int, MAG_LIMIT as int);
        }
        let avg = div_trunc_i128(total, n as i128) as i64;
        let a = vals[n / 2 - 1];
        let b = vals[n / 2];
        proof {
            lemma_div_trunc_le_limit(a as int + b as int, 2, MAG_LIMIT as int);
        }
        let med = div_trunc_i128(a as i128 + b as i128, 2) as i64;
        (mn, mx, avg, med)
    }

    /// Builds a spectrum from pairs already sorted ascending by frequency,
    /// computing all statistics up front. The returned aggregate holds
    /// exactly the pairs that were passed in.
    pub fn new(data: Vec<(Frequency, FrequencyValue)>) -> (r: Self)
        requires
            2 <= data@.len() <= i64::MAX,
            spec_sorted_pairs(data@),
            spec_pairs_valid(data@),
        ensures
            r@ == data@,
    {
        let (mn, mx, avg, med) = Self::calc_statistics(&data);
        FrequencySpectrum {
            data,
            average: FrequencyValue::new(avg),
            median: FrequencyValue::new(med),
            min: FrequencyValue::new(mn),
            max: FrequencyValue::new(mx),
        }
    }

    /// Applies the transform to every magnitude in place, against one
    /// snapshot of the current statistics, then recomputes all statistics.
    pub fn apply_total_scaling_fn<S: SpectrumScaler>(&mut self, total_scaling_fn: &S)
        ensures
            final(self)@.len() == old(self)@.len(),
            forall|i: int|
                0 <= i < old(self)@.len() ==> (#[trigger] final(self)@[i]).0 == old(self)@[i].0,
            forall|i: int|
                0 <= i < old(self)@.len() ==> (#[trigger] final(self)@[i]).1@ as int
                    == total_scaling_fn.spec_scale(
                    old(self)@[i].1@ as int,
                    spec_snapshot(old(self)@),
                ),
    {
        proof {
            use_type_invariant(&*self);
        }
        let ghost orig = self.data@;
        let stats = SpectrumDataStats {
            min: self.min.val(),
            max: self.max.val(),
            average: self.average.val(),
            median: self.median.val(),
            n: self.data.len() as i64,
        };
        proof {
            assert(stats == spec_snapshot(orig));
        }
        let mut out: Vec<(Frequency, FrequencyValue)> = Vec::new();
        let mut i: usize = 0;
        while i < self.data.len()
            invariant
                0 <= i <= orig.len(),
                self.data@ == orig,
                2 <= orig.len() <= i64::MAX,
                spec_sorted_pairs(orig),
                spec_pairs_valid(orig),
                out@.len() == i as int,
                forall|k: int| 0 <= k < i as int ==> (#[trigger] out@[k]).0 == orig[k].0,
                forall|k: int|
                    0 <= k < i as int ==> (#[trigger] out@[k]).1@ as int
                        == total_scaling_fn.spec_scale(orig[k].1@ as int, stats),
                forall|k: int| 0 <= k < i as int ==> mag_in_range((#[trigger] out@[k]).1@ as int),
            decreases orig.len() - i,
        {
            let p = self.data[i];
            let scaled = total_scaling_fn.scale(p.1, &stats);
            out.push((p.0, scaled));
            i = i + 1;
        }
        let (mn, mx, avg, med) = Self::calc_statistics(&out);
        *self = FrequencySpectrum {
            data: out,
            average: FrequencyValue::new(avg),
            median: FrequencyValue::new(med),
            min: FrequencyValue::new(mn),
            max: FrequencyValue::new(mx),
        };
    }

    /// The cached arithmetic mean of the magnitudes.
    pub fn average(&self) -> (r: FrequencyValue)
        ensures
            r@ as int == spec_average(spec_mags(self@)),
    {
        proof {
            use_type_invariant(&*self);
        }
        self.average
    }

    /// The cached median of the magnitudes.
    pub fn median(&self) -> (r: FrequencyValue)
        ensures
            r@ as int == spec_median(spec_mags(self@)),
    {
        proof {
            use_type_invariant(&*self);
        }
        self.median
    }

    /// The cached maximum magnitude.
    pub fn max(&self) -> (r: FrequencyValue)
        ensures
            r@ as int == spec_max(spec_mags(self@)),
    {
        proof {
            use_type_invariant(&*self);
        }
        self.max
    }

    /// The cached minimum magnitude.
    pub fn min(&self) -> (r: FrequencyValue)
        ensures
            r@ as int == spec_min(spec_mags(self@)),
    {
        proof {
            use_type_invariant(&*self);
        }
        self.min
    }

    /// The spread of the magnitudes: `max() - min()`.
    pub fn range(&self) -> (r: FrequencyValue)
        ensures
            r@ as int == spec_max(spec_mags(self@)) - spec_min(spec_mags(self@)),
    {
        proof {
            use_type_invariant(&*self);
        }
        FrequencyValue::new(self.max.val() - self.min.val())
    }

    /// Read-only view of the ordered pairs.
    pub fn data(&self) -> (r: &Vec<(Frequency, FrequencyValue)>)
        ensures
            r@ == self@,
    {
        &self.data
    }

    /// Exports the spectrum as a map from integer frequency to magnitude.
    /// The key is the frequency in Hertz, truncated to an integer; passing a
    /// scale factor multiplies the frequency in Hertz by that factor before
    /// truncation (factor 1000 keeps milli-Hertz precision). When several
    /// entries truncate to the same key, the entry with the highest
    /// frequency wins.
    pub fn to_map(&self, scale_fn: Option<u32>) -> (r: BTreeMap<u32, i64>)
        ensures
            r@ == spec_to_map(self@, scale_fn),
    {
        proof {
            use_type_invariant(&*self);
        }
        let mut m: BTreeMap<u32, i64> = BTreeMap::new();
        let mut i: usize = 0;
        while i < self.data.len()
            invariant
                0 <= i <= self@.len(),
                spec_pairs_valid(self@),
                m@ == spec_to_map(self@.take(i as int), scale_fn),
            decreases self@.len() - i,
        {
            let p = self.data[i];
            let fr: u128 = p.0.val() as u128;
            let scaled: u128 = match scale_fn {
                Some(f) => {
                    proof {
                        assert((fr as int) * (f as int) <= (u64::MAX as int) * (u32::MAX as int))
                            by (nonlinear_arith)
                            requires
                                0 <= fr as int <= u64::MAX as int,
                                0 <= f as int <= u32::MAX as int,
                        ;
                    }
                    fr * (f as u128) / 1000
                },
                None => fr / 1000,
            };
            let key: u32 = if scaled > u32::MAX as u128 {
                u32::MAX
            } else {
                scaled as u32
            };
            proof {
                assert(obeys_cmp::<u32>());
                assert(key == spec_map_key(p.0@, scale_fn));
            }
            m.insert(key, p.1.val());
            proof {
                assert(self@.take(i as int + 1).drop_last() =~= self@.take(i as int));
                assert(m@ == spec_to_map(self@.take(i as int + 1), scale_fn));
            }
            i = i + 1;
        }
        proof {
            assert(self@.take(self@.len() as int) =~= self@);
        }
        m
    }
}

/// The key under which a frequency (in milli-Hertz) appears in the keyed
/// map: the frequency in Hertz, rescaled by the optional factor, truncated
/// to an integer, and saturated at the largest key.
pub open spec fn spec_map_key(freq: i64, scale_fn: Option<u32>) -> u32
    recommends
        freq >= 0,
{
    let scaled = match scale_fn {
        Some(f) => (freq as int) * (f as int) / 1000,
        None => (freq as int) / 1000,
    };
    if scaled > u32::MAX as int {
        u32::MAX
    } else {
        scaled as u32
    }
}

/// The keyed mapping of a pair sequence: entries are inserted in order, so
/// on key collisions the later (higher-frequency) entry overwrites the
/// earlier one.
pub open spec fn spec_to_map(
    data: Seq<(Frequency, FrequencyValue)>,
    scale_fn: Option<u32>,
) -> Map<u32, i64>
    decreases data.len(),
{
    if data.len() == 0 {
        Map::empty()
    } else {
        spec_to_map(data.drop_last(), scale_fn).insert(
            spec_map_key(data.last().0@, scale_fn),
            data.last().1@,
        )
    }
}

/// Law: `spec_min` and `spec_max` bound every magnitude, and both values
/// occur among the magnitudes.
pub proof fn lemma_min_max_attained(m: Seq<i64>)
    requires
        m.len() >= 1,
    ensures
        forall|i: int| 0 <= i < m.len() ==> spec_min(m) <= #[trigger] m[i] <= spec_max(m),
        exists|i: int| 0 <= i < m.len() && m[i] == spec_min(m),
        exists|i: int| 0 <= i < m.len() && m[i] == spec_max(m),
{
    broadcast use vstd::seq_lib::group_to_multiset_ensures;

    lemma_sorted_version(m);
    let sv = sorted_version(m);
    assert forall|i: int| 0 <= i < m.len() implies spec_min(m) <= #[trigger] m[i] <= spec_max(m) by {
        assert(m.contains(m[i]));
        assert(m.to_multiset().contains(m[i]));
        assert(sv.to_multiset().contains(m[i]));
        assert(sv.contains(m[i]));
        let k = choose|k: int| 0 <= k < sv.len() && sv[k] == m[i];
        assert(sv[0] <= sv[k] && sv[k] <= sv[sv.len() - 1]);
    }
    assert(sv.contains(sv[0]));
    assert(m.to_multiset().contains(sv[0]));
    assert(m.contains(sv[0]));
    assert(sv.contains(sv[sv.len() - 1]));
    assert(m.to_multiset().contains(sv[sv.len() - 1]));
    assert(m.contains(sv[sv.len() - 1]));
}

/// Law: a whole-spectrum rescale through [`IdentityScaler`] is a no-op.
/// A sequence whose entries keep their frequencies and whose magnitudes come
/// out of the identity transform is the original sequence — and therefore
/// all statistics, being functions of the sequence, keep their values too.
pub proof fn lemma_identity_scaling(
    id: IdentityScaler,
    before: Seq<(Frequency, FrequencyValue)>,
    after: Seq<(Frequency, FrequencyValue)>,
    stats: SpectrumDataStats,
)
    requires
        after.len() == before.len(),
        forall|i: int| 0 <= i < before.len() ==> (#[trigger] after[i]).0 == before[i].0,
        forall|i: int|
            0 <= i < before.len() ==> (#[trigger] after[i]).1@ as int == id.spec_scale(
                before[i].1@ as int,
                stats,
            ),
    ensures
        after == before,
{
    assert forall|i: int| 0 <= i < before.len() implies after[i] == before[i] by {
        lemma_value_eq(after[i].1, before[i].1);
    }
    assert(after =~= before);
}

} // verus!
