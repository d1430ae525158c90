//! Tests for the spectrum aggregate, scaling functions, windows, and the
//! frequency mapper. All values are fixed-point milli-units: 1000 is 1.0.

use spectrum_analyzer::frequency::{Frequency, FrequencyValue};
use spectrum_analyzer::math::magnitude;
use spectrum_analyzer::scaling::{
    divide_by_N, scale_to_zero_to_one, DivideByNScaler, IdentityScaler, SpectrumDataStats,
    ZeroToOneScaler,
};
use spectrum_analyzer::spectrum::FrequencySpectrum;
use spectrum_analyzer::window::{hamming_window, hann_window};
use spectrum_analyzer::{
    fft_to_spectrum, is_power_of_two, magnitudes_to_frequency_spectrum, samples_to_complex,
    SpectrumError,
};

fn fq(milli_hz: i64) -> Frequency {
    Frequency::new(milli_hz)
}

fn fv(milli: i64) -> FrequencyValue {
    FrequencyValue::new(milli)
}

fn pairs(raw: &[(i64, i64)]) -> Vec<(Frequency, FrequencyValue)> {
    raw.iter().map(|&(f, v)| (fq(f), fv(v))).collect()
}

#[test]
fn test_spectrum() {
    let spectrum = pairs(&[
        (0, 5_000),
        (50_000, 50_000),
        (100_000, 100_000),
        (150_000, 150_000),
        (200_000, 100_000),
        (250_000, 20_000),
        (300_000, 0),
        (450_000, 200_000),
    ]);
    let spectrum = FrequencySpectrum::new(spectrum);

    assert_eq!((fq(0), fv(5_000)), spectrum.data()[0], "Vector must be ordered");
    assert_eq!((fq(50_000), fv(50_000)), spectrum.data()[1], "Vector must be ordered");
    assert_eq!((fq(100_000), fv(100_000)), spectrum.data()[2], "Vector must be ordered");
    assert_eq!((fq(150_000), fv(150_000)), spectrum.data()[3], "Vector must be ordered");
    assert_eq!((fq(200_000), fv(100_000)), spectrum.data()[4], "Vector must be ordered");
    assert_eq!((fq(250_000), fv(20_000)), spectrum.data()[5], "Vector must be ordered");
    assert_eq!((fq(300_000), fv(0)), spectrum.data()[6], "Vector must be ordered");
    assert_eq!((fq(450_000), fv(200_000)), spectrum.data()[7], "Vector must be ordered");

    assert_eq!(0, spectrum.min().val(), "min() must work");
    assert_eq!(200_000, spectrum.max().val(), "max() must work");
    assert_eq!(200_000 - 0, spectrum.range().val(), "range() must work");
    assert_eq!(78_125, spectrum.average().val(), "average() must work");
    assert_eq!((50_000 + 100_000) / 2, spectrum.median().val(), "median() must work");
}

#[test]
fn test_scale_to_zero_to_one() {
    let data: Vec<i64> = vec![0, 1_100, 2_200, 3_300, 4_400, 5_500];
    let stats = SpectrumDataStats {
        min: data[0],
        max: data[data.len() - 1],
        average: data.iter().sum::<i64>() / data.len() as i64,
        median: (2_200 + 3_300) / 2,
        n: data.len() as i64,
    };
    let scaled_data: Vec<i64> = data
        .into_iter()
        .map(|x| scale_to_zero_to_one(fv(x), &stats).val())
        .collect();
    let expected: Vec<i64> = vec![0, 200, 400, 600, 800, 1_000];
    assert_eq!(expected, scaled_data);
}

#[test]
fn test_statistics_with_negative_magnitudes() {
    let spectrum = FrequencySpectrum::new(pairs(&[
        (0, -2_000),
        (1_000, 1_000),
        (2_000, 2_000),
        (3_000, -1_000),
    ]));
    assert_eq!(-2_000, spectrum.min().val());
    assert_eq!(2_000, spectrum.max().val());
    assert_eq!(4_000, spectrum.range().val());
    assert_eq!(0, spectrum.average().val());
    // sorted magnitudes: -2000, -1000, 1000, 2000; median = (-1000 + 1000) / 2
    assert_eq!(0, spectrum.median().val());
}

#[test]
fn test_identity_scaling_changes_nothing() {
    let data = pairs(&[(0, 5_000), (50_000, 50_000), (100_000, 25_000), (150_000, 10_000)]);
    let mut spectrum = FrequencySpectrum::new(data.clone());
    spectrum.apply_total_scaling_fn(&IdentityScaler);
    assert_eq!(&data, spectrum.data());
    assert_eq!(5_000, spectrum.min().val());
    assert_eq!(50_000, spectrum.max().val());
    assert_eq!(22_500, spectrum.average().val());
    assert_eq!((10_000 + 25_000) / 2, spectrum.median().val());
}

#[test]
fn test_zero_to_one_whole_spectrum_scaling() {
    let mut spectrum = FrequencySpectrum::new(pairs(&[
        (0, 0),
        (50_000, 50_000),
        (100_000, 100_000),
        (150_000, 200_000),
    ]));
    spectrum.apply_total_scaling_fn(&ZeroToOneScaler);
    let scaled: Vec<i64> = spectrum.data().iter().map(|p| p.1.val()).collect();
    assert_eq!(vec![0, 250, 500, 1_000], scaled);
    assert_eq!(1_000, spectrum.max().val());
    assert_eq!(0, spectrum.min().val());
}

#[test]
fn test_divide_by_n() {
    let stats = SpectrumDataStats { min: 0, max: 0, average: 0, median: 0, n: 4 };
    assert_eq!(1_100, divide_by_N(fv(4_400), &stats).val());
    let no_n = SpectrumDataStats { min: 0, max: 0, average: 0, median: 0, n: 0 };
    assert_eq!(4_400, divide_by_N(fv(4_400), &no_n).val());
}

#[test]
fn test_divide_by_n_whole_spectrum_scaling() {
    let mut spectrum = FrequencySpectrum::new(pairs(&[
        (0, 4_000),
        (1_000, 8_000),
        (2_000, 12_000),
        (3_000, 16_000),
    ]));
    spectrum.apply_total_scaling_fn(&DivideByNScaler);
    let scaled: Vec<i64> = spectrum.data().iter().map(|p| p.1.val()).collect();
    assert_eq!(vec![1_000, 2_000, 3_000, 4_000], scaled);
}

#[test]
fn test_to_map_keys_are_hertz() {
    let spectrum = FrequencySpectrum::new(pairs(&[
        (0, 5_000),
        (50_000, 50_000),
        (100_000, 100_000),
        (450_000, 200_000),
    ]));
    let map = spectrum.to_map(None);
    assert_eq!(4, map.len());
    assert_eq!(Some(&5_000), map.get(&0));
    assert_eq!(Some(&50_000), map.get(&50));
    assert_eq!(Some(&100_000), map.get(&100));
    assert_eq!(Some(&200_000), map.get(&450));
}

#[test]
fn test_to_map_collision_last_bin_wins() {
    // 1.0 Hz and 1.5 Hz both truncate to key 1; the later entry overwrites
    let spectrum = FrequencySpectrum::new(pairs(&[(1_000, 11_000), (1_500, 22_000)]));
    let map = spectrum.to_map(None);
    assert_eq!(1, map.len());
    assert_eq!(Some(&22_000), map.get(&1));
    // a scale factor of 1000 keeps milli-Hertz precision and separates them
    let map = spectrum.to_map(Some(1_000));
    assert_eq!(2, map.len());
    assert_eq!(Some(&11_000), map.get(&1_000));
    assert_eq!(Some(&22_000), map.get(&1_500));
}

#[test]
fn test_to_map_key_saturates() {
    // 5 GHz exceeds the largest key; it saturates instead of wrapping
    let spectrum =
        FrequencySpectrum::new(pairs(&[(0, 1_000), (5_000_000_000_000, 2_000)]));
    let map = spectrum.to_map(None);
    assert_eq!(Some(&1_000), map.get(&0));
    assert_eq!(Some(&2_000), map.get(&u32::MAX));
}

#[test]
fn test_hann_window_tapers_to_zero() {
    let windowed = hann_window(&vec![1_000, 1_000, 1_000, 1_000]);
    assert_eq!(vec![0, 500, 1_000, 500], windowed);
}

#[test]
fn test_hann_window_long_buffer_tapers_at_both_ends() {
    // the first weight is exactly zero; the last, 0.5 * (1 - cos(2*pi*(n-1)/n)),
    // comes out at no more than a thousandth for a long buffer
    let samples: Vec<i64> = vec![1_000; 1_024];
    let windowed = hann_window(&samples);
    assert_eq!(0, windowed[0]);
    assert!(windowed[1_023].abs() <= 1);
    // the crest of the window sits at the middle with full weight
    assert_eq!(1_000, windowed[512]);
}

#[test]
fn test_hann_window_empty() {
    let windowed = hann_window(&vec![]);
    assert!(windowed.is_empty());
}

#[test]
fn test_hamming_window_boundaries() {
    // weights 0.08 at the ends, 0.54 - 0.46 * cos(2*pi/3) = 0.77 inside
    let windowed = hamming_window(&vec![1_000, 1_000, 1_000, 1_000]);
    assert_eq!(vec![80, 770, 770, 80], windowed);
}

#[test]
fn test_magnitude_is_euclidean_norm() {
    assert_eq!(5_000, magnitude(3_000, 4_000));
    assert_eq!(5_000, magnitude(-3_000, 4_000));
    assert_eq!(0, magnitude(0, 0));
    assert_eq!(1_414, magnitude(1_000, -1_000));
}

#[test]
fn test_is_power_of_two() {
    assert!(is_power_of_two(1));
    assert!(is_power_of_two(2));
    assert!(is_power_of_two(4));
    assert!(is_power_of_two(1024));
    assert!(!is_power_of_two(0));
    assert!(!is_power_of_two(3));
    assert!(!is_power_of_two(6));
    assert!(!is_power_of_two(1023));
}

#[test]
fn test_samples_to_complex() {
    let complex = samples_to_complex(&vec![5, -3, 0]);
    assert_eq!(vec![(5, 0), (-3, 0), (0, 0)], complex);
}

#[test]
fn test_fft_to_spectrum_empty_input() {
    let r = fft_to_spectrum::<IdentityScaler>(&vec![], 44_100, None, None);
    assert_eq!(Err(SpectrumError::EmptyInput), r.map(|_| ()));
}

#[test]
fn test_fft_to_spectrum_invalid_length() {
    let buf = vec![(1_000i64, 0i64); 6];
    let r = fft_to_spectrum::<IdentityScaler>(&buf, 44_100, None, None);
    assert_eq!(Err(SpectrumError::InvalidInputLength), r.map(|_| ()));
    let buf = vec![(1_000i64, 0i64); 2];
    let r = fft_to_spectrum::<IdentityScaler>(&buf, 44_100, None, None);
    assert_eq!(Err(SpectrumError::InvalidInputLength), r.map(|_| ()));
}

#[test]
fn test_fft_to_spectrum_small_buffer() {
    // a hand-made four-point transform result; only the first half is kept
    let buf = vec![(3_000i64, 0i64), (0, 4_000), (7_000, 7_000), (9_000, 9_000)];
    let spectrum = fft_to_spectrum::<IdentityScaler>(&buf, 8, None, None).unwrap();
    assert_eq!(2, spectrum.data().len());
    // bin 0 is DC; bin 1 sits at 1/4 * 8 Hz = 2 Hz
    assert_eq!(0, spectrum.data()[0].0.val());
    assert_eq!(2_000, spectrum.data()[1].0.val());
    assert_eq!(3_000, spectrum.data()[0].1.val());
    assert_eq!(4_000, spectrum.data()[1].1.val());
    assert_eq!(3_000, spectrum.min().val());
    assert_eq!(4_000, spectrum.max().val());
    assert_eq!(1_000, spectrum.range().val());
    assert_eq!(3_500, spectrum.average().val());
    assert_eq!(3_500, spectrum.median().val());
}

#[test]
fn test_fft_to_spectrum_per_bin_scaling() {
    // divide-by-N at the per-bin stage divides by the transform length
    let buf = vec![(4_000i64, 0i64), (0, 8_000), (1, 1), (2, 2)];
    let spectrum =
        fft_to_spectrum(&buf, 8, Some(&DivideByNScaler), None).unwrap();
    assert_eq!(1_000, spectrum.data()[0].1.val());
    assert_eq!(2_000, spectrum.data()[1].1.val());
}

#[test]
fn test_mapper_emits_dc_before_ceiling_check() {
    // a ceiling of 0 Hz still yields the zero-frequency entry, and the walk
    // stops right after the first entry that exceeds the ceiling
    let mags: Vec<FrequencyValue> = vec![fv(10), fv(20), fv(30), fv(40)];
    let out = magnitudes_to_frequency_spectrum(mags, 8, 8, Some(Frequency::new(0)));
    assert_eq!(2, out.len());
    assert_eq!(0, out[0].0.val());
    assert_eq!(10, out[0].1.val());
    assert_eq!(1_000, out[1].0.val());
    assert_eq!(20, out[1].1.val());
}

#[test]
fn test_mapper_without_ceiling_keeps_all_bins() {
    let mags: Vec<FrequencyValue> = vec![fv(1), fv(2), fv(3), fv(4)];
    let out = magnitudes_to_frequency_spectrum(mags, 8, 44_100, None);
    assert_eq!(4, out.len());
    // frequency of bin k is k * 44100 / 8 Hz, in milli-Hertz
    assert_eq!(0, out[0].0.val());
    assert_eq!(5_512_500, out[1].0.val());
    assert_eq!(11_025_000, out[2].0.val());
    assert_eq!(16_537_500, out[3].0.val());
}
