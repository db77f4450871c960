use notewave::windowing::WindowingStage;
use notewave::windowing::apply_hamming_window;
use notewave::windowing::hamming_weight_q15;
use notewave::windowing::hann_weight_q15;

/// Hann taper weight is exactly 0 at both edges for every window length
/// of at least 2, over a pseudo-random spread of lengths.
#[test]
fn hann_taper_edges_zero() {
    let mut l: u64 = 2;
    let mut seed: u64 = 0x2545F4914F6CDD1D;
    for _ in 0..200 {
        assert_eq!(hann_weight_q15(0, l), 0);
        assert_eq!(hann_weight_q15(l - 1, l), 0);
        seed = seed.wrapping_mul(6364136223846793005).wrapping_add(1442695040888963407);
        l = 2 + (seed >> 33) % 100_000;
    }
    for l in [2u64, 3, 4, 5, 16, 17, 1023, 1024, 44100] {
        assert_eq!(hann_weight_q15(0, l), 0);
        assert_eq!(hann_weight_q15(l - 1, l), 0);
    }
}

/// Hann weights track the real formula 0.5 * (1 - cos(2 pi n / (L - 1)))
/// to within a few Q15 steps across a whole window.
#[test]
fn hann_taper_matches_reference() {
    let l: u64 = 257;
    for n in 0..l {
        let w = hann_weight_q15(n, l) as f64;
        let reference =
            32768.0 * 0.5 * (1.0 - (2.0 * std::f64::consts::PI * n as f64 / (l - 1) as f64).cos());
        assert!((w - reference).abs() <= 40.0, "n={} w={} ref={}", n, w, reference);
    }
}

/// Hamming weights: 0.08 at the edges, 1.0 at the center of an odd
/// window, and close to the real formula everywhere.
#[test]
fn hamming_taper_matches_reference() {
    let l: u64 = 101;
    assert_eq!(hamming_weight_q15(0, l), 2622);
    assert_eq!(hamming_weight_q15(l - 1, l), 2622);
    assert_eq!(hamming_weight_q15((l - 1) / 2, l), 32768);
    for n in 0..l {
        let w = hamming_weight_q15(n, l) as f64;
        let reference = 32768.0
            * (0.54 - 0.46 * (2.0 * std::f64::consts::PI * n as f64 / (l - 1) as f64).cos());
        assert!((w - reference).abs() <= 40.0, "n={} w={} ref={}", n, w, reference);
    }
}

/// A window of length 1 or 0 gets weight 1.0: no division by zero at the
/// taper edge case.
#[test]
fn taper_degenerate_lengths() {
    assert_eq!(hann_weight_q15(0, 1), 32768);
    assert_eq!(hamming_weight_q15(0, 1), 32768);
    assert_eq!(hann_weight_q15(0, 0), 32768);
    let mut one = vec![1234i16];
    apply_hamming_window(&mut one);
    assert_eq!(one, vec![1234]);
}

/// In-place Hamming tapering of a concrete window: exact expected values
/// from the Q15 weights with round-half-away-from-zero scaling.
#[test]
fn apply_hamming_window_exact() {
    let mut w = vec![1000i16, 1000, 1000];
    apply_hamming_window(&mut w);
    // weights for L = 3: 2622, 32768, 2622
    assert_eq!(w, vec![80, 1000, 80]);

    let mut neg = vec![-1000i16, -1000, -1000];
    apply_hamming_window(&mut neg);
    assert_eq!(neg, vec![-80, -1000, -80]);
}

/// Non-overlapping windowing drains consecutive windows and leaves the
/// tail buffered.
#[test]
fn windowing_no_overlap() {
    let mut stage = WindowingStage::new(3, 3);
    assert!(stage.try_take_window().is_none());
    stage.push(&vec![1, 2, 3, 4, 5, 6, 7]);
    assert_eq!(stage.try_take_window(), Some(vec![1, 2, 3]));
    assert_eq!(stage.try_take_window(), Some(vec![4, 5, 6]));
    assert!(stage.try_take_window().is_none());
    stage.push(&vec![8, 9]);
    assert_eq!(stage.try_take_window(), Some(vec![7, 8, 9]));
    assert!(stage.try_take_window().is_none());
}

/// 50%-overlapping windowing: each window starts half a window after the
/// previous one.
#[test]
fn windowing_half_overlap() {
    let mut stage = WindowingStage::new(4, 2);
    stage.push(&vec![1, 2, 3, 4, 5, 6]);
    assert_eq!(stage.try_take_window(), Some(vec![1, 2, 3, 4]));
    assert_eq!(stage.try_take_window(), Some(vec![3, 4, 5, 6]));
    assert!(stage.try_take_window().is_none());
}
