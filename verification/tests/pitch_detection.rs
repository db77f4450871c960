use notewave::pitch::detect_pitch_autocorrelation;
use notewave::pitch::spectral_peak_frequency;
use rustfft::FftPlanner;
use rustfft::num_complex::Complex;

fn sine_window(freq_hz: f64, rate: f64, len: usize, amplitude: f64) -> Vec<i16> {
    let mut w = Vec::with_capacity(len);
    for i in 0..len {
        let x = (2.0 * std::f64::consts::PI * freq_hz * i as f64 / rate).sin();
        w.push((x * amplitude * 32767.0) as i16);
    }
    w
}

fn fft_magnitudes(window: &[i16]) -> Vec<u64> {
    let mut planner = FftPlanner::<f64>::new();
    let fft = planner.plan_fft_forward(window.len());
    let mut buffer: Vec<Complex<f64>> =
        window.iter().map(|&s| Complex::new(s as f64, 0.0)).collect();
    fft.process(&mut buffer);
    buffer.iter().map(|c| c.norm().round() as u64).collect()
}

/// Spectral peak on a pure sine at a bin-aligned frequency k * R / L
/// returns exactly k * R / L.
#[test]
fn spectral_peak_exact_on_bin_aligned_sine() {
    let rate: u32 = 44100;
    let len: usize = 1024;
    let k: usize = 100;
    let freq = k as f64 * rate as f64 / len as f64;
    let window = sine_window(freq, rate as f64, len, 0.8);
    let magnitudes = fft_magnitudes(&window);
    let got = spectral_peak_frequency(&magnitudes, rate);
    // k * rate / len hertz in micro-hertz, exactly
    let expected = (k as u64 * rate as u64 * 1_000_000) / len as u64;
    assert_eq!(got, Some(expected));
    assert_eq!(expected, 4_306_640_625);
}

/// Spectral peak picks the leftmost strongest bin on ties and excludes
/// the DC bin.
#[test]
fn spectral_peak_leftmost_tie_and_dc_exclusion() {
    // huge DC, tie between bins 2 and 3
    let magnitudes: Vec<u64> = vec![1_000_000, 5, 9, 9, 3];
    let got = spectral_peak_frequency(&magnitudes, 1000);
    let expected = (2u64 * 1000 * 1_000_000) / 5;
    assert_eq!(got, Some(expected));
}

/// No bins above DC: no estimate.
#[test]
fn spectral_peak_degenerate() {
    assert_eq!(spectral_peak_frequency(&vec![], 44100), None);
    assert_eq!(spectral_peak_frequency(&vec![7], 44100), None);
}

/// Autocorrelation on a pure sine of frequency F at rate R with a window
/// of at least two periods estimates F to within 1%.
#[test]
fn autocorrelation_within_one_percent_on_sine() {
    let rate: u32 = 44100;
    for &freq in &[110.0f64, 220.0, 440.0, 441.0, 880.0, 1000.0] {
        let len = 2048;
        assert!(len as f64 >= 2.0 * rate as f64 / freq);
        let window = sine_window(freq, rate as f64, len, 0.5);
        let got = detect_pitch_autocorrelation(&window, rate).expect("expected an estimate");
        let got_hz = got as f64 / 1e6;
        assert!(
            (got_hz - freq).abs() <= freq / 100.0,
            "estimated {} for a {} Hz sine",
            got_hz,
            freq
        );
    }
}

/// An empty window yields no estimate.
#[test]
fn autocorrelation_empty_window() {
    assert_eq!(detect_pitch_autocorrelation(&vec![], 44100), None);
}

/// A constant (DC-only) window has no period: no estimate.
#[test]
fn autocorrelation_constant_window() {
    assert_eq!(detect_pitch_autocorrelation(&vec![500i16; 256], 44100), None);
}
