//! End-to-end tests: a real forward FFT (rustfft) runs over a synthesized
//! sine wave in floating point, its output is converted to fixed point
//! (milli-units), and the library's verified pipeline does the rest.

use rustfft::algorithm::Radix4;
use rustfft::num_complex::Complex32;
use rustfft::{Fft, FftDirection};
use spectrum_analyzer::fft_to_spectrum;
use spectrum_analyzer::frequency::Frequency;
use spectrum_analyzer::scaling::IdentityScaler;

const SAMPLING_RATE: u32 = 44_100;
const FFT_LEN: usize = 16_384;
const SINE_HZ: f32 = 1_000.0;

/// A Hann-windowed 1000 Hz sine, transformed and converted to milli-units.
fn sine_fft_buffer() -> Vec<(i64, i64)> {
    let pi = std::f32::consts::PI;
    let mut buffer: Vec<Complex32> = (0..FFT_LEN)
        .map(|i| {
            let t = i as f32 / SAMPLING_RATE as f32;
            let sample = (2.0 * pi * SINE_HZ * t).sin();
            let weight = 0.5 * (1.0 - (2.0 * pi * i as f32 / FFT_LEN as f32).cos());
            Complex32::new(sample * weight, 0.0)
        })
        .collect();
    let fft = Radix4::new(FFT_LEN, FftDirection::Forward);
    fft.process(&mut buffer);
    buffer
        .into_iter()
        .map(|c| ((c.re * 1000.0) as i64, (c.im * 1000.0) as i64))
        .collect()
}

#[test]
fn test_sine_1000hz_peak() {
    let buf = sine_fft_buffer();
    let spectrum = fft_to_spectrum::<IdentityScaler>(&buf, SAMPLING_RATE, None, None).unwrap();
    assert_eq!(FFT_LEN / 2, spectrum.data().len());

    let mut peak_freq_milli_hz: i64 = 0;
    let mut peak_magnitude: i64 = -1;
    for p in spectrum.data().iter() {
        if p.1.val() > peak_magnitude {
            peak_magnitude = p.1.val();
            peak_freq_milli_hz = p.0.val();
        }
    }
    // the peak lies within one FFT bin (44100 / 16384 < 3 Hz, so within
    // +-6 Hz for sure) of the sine's 1000 Hz
    assert!((peak_freq_milli_hz - 1_000_000).abs() <= 6_000);
    // no other bin exceeds the peak
    assert!(spectrum.data().iter().all(|p| p.1.val() <= peak_magnitude));
    assert_eq!(peak_magnitude, spectrum.max().val());
}

#[test]
fn test_sine_spectrum_is_frequency_sorted() {
    let buf = sine_fft_buffer();
    let spectrum = fft_to_spectrum::<IdentityScaler>(&buf, SAMPLING_RATE, None, None).unwrap();
    let data = spectrum.data();
    for w in data.windows(2) {
        assert!(w[0].0.val() <= w[1].0.val());
    }
}

#[test]
fn test_max_frequency_truncates_spectrum() {
    let buf = sine_fft_buffer();
    let ceiling = Frequency::new(150_000);
    let spectrum =
        fft_to_spectrum::<IdentityScaler>(&buf, SAMPLING_RATE, None, Some(ceiling)).unwrap();

    // the zero-frequency (DC) entry is always present
    assert_eq!(0, spectrum.data()[0].0.val());
    // far fewer entries than the full Nyquist half
    assert!(spectrum.data().len() < FFT_LEN / 2);
    // nothing lies above 150 Hz plus one bin's resolution
    // (one bin is 44100 / 16384 Hz, about 2.7 Hz)
    for p in spectrum.data().iter() {
        assert!(p.0.val() <= 153_000);
    }
    // the cut does not happen before the ceiling: the last kept entry is
    // within one bin of 150 Hz
    let last = spectrum.data()[spectrum.data().len() - 1];
    assert!(last.0.val() >= 150_000 - 3_000);
}
