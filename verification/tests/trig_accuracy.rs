use notewave::trig::cos_q15;
use notewave::trig::sin_q15;

/// The four cardinal points of the circle are exact in Q15.
#[test]
fn cardinal_points_exact() {
    for den in [4u64, 8, 12, 1000, 44_100_000_000] {
        assert_eq!(cos_q15(0, den), 32768);
        assert_eq!(cos_q15(den, den), 32768);
        assert_eq!(cos_q15(7 * den, den), 32768);
        assert_eq!(sin_q15(0, den), 0);
        assert_eq!(sin_q15(den, den), 0);
    }
    assert_eq!(cos_q15(1, 4), 0);
    assert_eq!(cos_q15(1, 2), -32768);
    assert_eq!(cos_q15(3, 4), 0);
    assert_eq!(sin_q15(1, 4), 32768);
    assert_eq!(sin_q15(2, 4), 0);
    assert_eq!(sin_q15(3, 4), -32768);
}

/// Q15 cosine and sine track the real functions to within about a
/// thousandth across the whole circle.
#[test]
fn tracks_real_circular_functions() {
    let den: u64 = 10_007;
    for num in 0..den {
        let angle = 2.0 * std::f64::consts::PI * num as f64 / den as f64;
        let c = cos_q15(num, den) as f64 / 32768.0;
        let s = sin_q15(num, den) as f64 / 32768.0;
        assert!((c - angle.cos()).abs() < 2e-3, "cos at {}/{}: {} vs {}", num, den, c, angle.cos());
        assert!((s - angle.sin()).abs() < 2e-3, "sin at {}/{}: {} vs {}", num, den, s, angle.sin());
    }
}
