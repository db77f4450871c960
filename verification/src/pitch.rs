//! Fundamental-frequency estimation for one tapered analysis window.
//!
//! Two interchangeable estimators are offered, both returning a frequency
//! in micro-hertz or nothing (silence or a degenerate window is an
//! expected miss, not an error):
//!
//! - spectral peak: given the magnitude of each bin of a frequency-domain
//!   transform of the window, pick the strongest bin above DC (leftmost on
//!   ties) and map its index to a frequency;
//! - autocorrelation: remove the window mean, correlate the window with
//!   shifted copies of itself, skip the inevitable peak at lag 0 by
//!   scanning to the first dip, and take the strongest remaining lag as
//!   the period.

use vstd::prelude::*;
use vstd::arithmetic::div_mod::lemma_div_is_ordered;
use vstd::arithmetic::div_mod::lemma_div_multiples_vanish;

verus! {

/// Index of the strongest bin among bins 1 (inclusive) to `upto`
/// (exclusive) of `m`; the leftmost strongest bin on ties.
pub open spec fn spec_peak_bin(m: Seq<u64>, upto: int) -> int
    recommends
        2 <= upto <= m.len(),
    decreases upto,
{
    if upto <= 2 {
        1
    } else {
        let p = spec_peak_bin(m, upto - 1);
        if m[upto - 1] > m[p] {
            upto - 1
        } else {
            p
        }
    }
}

/// Frequency in micro-hertz of transform bin `k` for a window of `len`
/// samples at `rate` samples per second: k * rate / len hertz.
pub open spec fn spec_bin_freq_uhz(k: int, rate: int, len: int) -> int
    recommends
        1 <= len,
{
    (k * (rate * 1_000_000)) / len
}

/// The peak bin is in range and holds the maximum magnitude above DC,
/// every strictly earlier bin being strictly weaker.
pub proof fn lemma_peak_bin_is_max(m: Seq<u64>, upto: int)
    requires
        2 <= upto <= m.len(),
    ensures
        1 <= spec_peak_bin(m, upto) < upto,
        forall|j: int| 1 <= j < upto ==> #[trigger] m[j] <= m[spec_peak_bin(m, upto)],
        forall|j: int| 1 <= j < spec_peak_bin(m, upto) ==> #[trigger] m[j] < m[spec_peak_bin(m, upto)],
    decreases upto,
{
    if upto > 2 {
        lemma_peak_bin_is_max(m, upto - 1);
    }
}

/// Spectral-peak frequency estimate from the magnitudes of a window's
/// frequency-domain transform: the frequency of the strongest bin,
/// excluding bin 0 (the DC component), leftmost on ties; `None` when
/// there is no bin above DC to choose.
pub fn spectral_peak_frequency(magnitudes: &Vec<u64>, sample_rate: u32) -> (r: Option<u64>)
    requires
        1 <= sample_rate,
    ensures
        magnitudes@.len() < 2 ==> r is None,
        magnitudes@.len() >= 2 ==> r == Some(
            spec_bin_freq_uhz(
                spec_peak_bin(magnitudes@, magnitudes@.len() as int),
                sample_rate as int,
                magnitudes@.len() as int,
            ) as u64,
        ),
{
    let len: usize = magnitudes.len();
    if len < 2 {
        return None;
    }
    let mut best: usize = 1;
    let mut i: usize = 2;
    while i < len
        invariant
            2 <= i <= len == magnitudes@.len(),
            1 <= best < i,
            best == spec_peak_bin(magnitudes@, i as int),
        decreases len - i,
    {
        if magnitudes[i] > magnitudes[best] {
            best = i;
        }
        i = i + 1;
    }
    let scale: u64 = (sample_rate as u64) * 1_000_000;
    assert((best as int) * (scale as int) <= (len as int) * (scale as int)) by (nonlinear_arith)
        requires
            0 <= best <= len,
            0 <= scale,
    ;
    assert((best as int) * (scale as int) <= 0xFFFF_FFFF_FFFF_FFFF * 0x10_0000_0000_0000)
        by (nonlinear_arith)
        requires
            best <= 0xFFFF_FFFF_FFFF_FFFF,
            scale <= 0x10_0000_0000_0000,
    ;
    let num: u128 = (best as u128) * (scale as u128);
    proof {
        lemma_div_is_ordered(num as int, (len as int) * (scale as int), len as int);
        lemma_div_multiples_vanish(scale as int, len as int);
    }
    let freq: u64 = (num / (len as u128)) as u64;
    Some(freq)
}

/// Sum of all samples of a window.
pub open spec fn spec_window_sum(s: Seq<i16>) -> int
    decreases s.len(),
{
    if s.len() == 0 {
        0
    } else {
        spec_window_sum(s.drop_last()) + s.last()
    }
}

/// Integer division truncating toward zero (the rounding the sample mean
/// uses).
pub open spec fn spec_trunc_div(a: int, b: int) -> int
    recommends
        1 <= b,
{
    if a >= 0 {
        a / b
    } else {
        -((-a) / b)
    }
}

/// Mean sample of a window, truncated toward zero.
pub open spec fn spec_window_mean(s: Seq<i16>) -> int
    recommends
        1 <= s.len(),
{
    spec_trunc_div(spec_window_sum(s), s.len() as int)
}

/// First `n` products of the un-normalized autocorrelation at `lag` of
/// the mean-removed window.
pub open spec fn spec_autocorr_partial(s: Seq<i16>, mean: int, lag: int, n: int) -> int
    recommends
        0 <= lag,
        0 <= n <= s.len() - lag,
    decreases n,
{
    if n <= 0 {
        0
    } else {
        spec_autocorr_partial(s, mean, lag, n - 1) + (s[n - 1] - mean) * (s[n - 1 + lag] - mean)
    }
}

/// Un-normalized autocorrelation of the mean-removed window at `lag`:
/// the sum over i of (s[i] - mean) * (s[i + lag] - mean).
pub open spec fn spec_autocorr(s: Seq<i16>, lag: int) -> int
    recommends
        0 <= lag < s.len(),
{
    spec_autocorr_partial(s, spec_window_mean(s), lag, s.len() - lag)
}

/// The autocorrelation of the window at every lag from 0 to its length.
pub open spec fn spec_autocorr_seq(s: Seq<i16>) -> Seq<int> {
    Seq::new(s.len(), |lag: int| spec_autocorr(s, lag))
}

/// First lag at or after `d` at which the autocorrelation stops strictly
/// decreasing: the first dip after the global peak at lag 0.
pub open spec fn spec_first_dip(r: Seq<int>, d: int) -> int
    recommends
        0 <= d < r.len(),
    decreases r.len() - d,
{
    if d + 1 >= r.len() {
        d
    } else if r[d] <= r[d + 1] {
        d
    } else {
        spec_first_dip(r, d + 1)
    }
}

/// Leftmost index of the maximum of `r` over [start, upto).
pub open spec fn spec_argmax_from(r: Seq<int>, start: int, upto: int) -> int
    recommends
        0 <= start < upto <= r.len(),
    decreases upto - start,
{
    if upto <= start + 1 {
        start
    } else {
        let p = spec_argmax_from(r, start, upto - 1);
        if r[upto - 1] > r[p] {
            upto - 1
        } else {
            p
        }
    }
}

/// The autocorrelation estimate for a window: the strongest lag after
/// the first dip, read as a period in samples; `None` for an empty window
/// and for the degenerate case where the strongest lag is 0.
pub open spec fn spec_detect_autocorrelation(s: Seq<i16>, rate: int) -> Option<u64> {
    if s.len() == 0 {
        None
    } else {
        let r = spec_autocorr_seq(s);
        let d = spec_first_dip(r, 0);
        let p = spec_argmax_from(r, d, s.len() as int);
        if p == 0 {
            None
        } else {
            Some(((rate * 1_000_000) / p) as u64)
        }
    }
}

/// Autocorrelation pitch estimate of a (tapered) window, in micro-hertz:
/// remove the mean, autocorrelate at every lag, scan forward to the first
/// dip to skip the global peak at lag 0, take the strongest lag from
/// there on as the period, and return rate / period.  `None` on an empty
/// window and when no lag beats lag 0 (no discernible period).
pub fn detect_pitch_autocorrelation(window: &Vec<i16>, sample_rate: u32) -> (r: Option<u64>)
    requires
        1 <= sample_rate,
        window@.len() <= 0x1000_0000,
    ensures
        r == spec_detect_autocorrelation(window@, sample_rate as int),
        window@.len() == 0 ==> r is None,
{
    let len: usize = window.len();
    if len == 0 {
        return None;
    }
    let mut sum: i64 = 0;
    let mut i: usize = 0;
    while i < len
        invariant
            i <= len == window@.len() <= 0x1000_0000,
            sum == spec_window_sum(window@.take(i as int)),
            -32768 * (i as int) <= sum <= 32767 * (i as int),
        decreases len - i,
    {
        proof {
            assert(window@.take(i as int + 1).drop_last() =~= window@.take(i as int));
        }
        sum = sum + (window[i] as i64);
        i = i + 1;
    }
    proof {
        assert(window@.take(len as int) =~= window@);
    }
    let mean: i64 = if sum >= 0 {
        let q: u64 = (sum as u64) / (len as u64);
        proof {
            lemma_div_is_ordered(sum as int, (len as int) * 32767, len as int);
            lemma_div_multiples_vanish(32767, len as int);
        }
        q as i64
    } else {
        let q: u64 = ((-sum) as u64) / (len as u64);
        proof {
            lemma_div_is_ordered((-sum) as int, (len as int) * 32768, len as int);
            lemma_div_multiples_vanish(32768, len as int);
        }
        -(q as i64)
    };
    assert(mean == spec_window_mean(window@));
    assert(-32768 <= mean <= 32767);
    let mut rvec: Vec<i64> = Vec::new();
    let mut lag: usize = 0;
    while lag < len
        invariant
            lag <= len == window@.len() <= 0x1000_0000,
            -32768 <= mean <= 32767,
            mean == spec_window_mean(window@),
            rvec@.len() == lag,
            forall|j: int| 0 <= j < lag ==> rvec@[j] == spec_autocorr(window@, j),
        decreases len - lag,
    {
        let n: usize = len - lag;
        let mut acc: i64 = 0;
        let mut k: usize = 0;
        while k < n
            invariant
                k <= n == len - lag,
                lag < len == window@.len() <= 0x1000_0000,
                -32768 <= mean <= 32767,
                acc == spec_autocorr_partial(window@, mean as int, lag as int, k as int),
                -(k as int) * 0x1_0000_0000 <= acc <= (k as int) * 0x1_0000_0000,
            decreases n - k,
        {
            let a: i64 = (window[k] as i64) - mean;
            let b: i64 = (window[k + lag] as i64) - mean;
            assert(-0x1_0000_0000 <= a * b <= 0x1_0000_0000) by (nonlinear_arith)
                requires
                    -65536 <= a <= 65536,
                    -65536 <= b <= 65536,
            ;
            acc = acc + a * b;
            k = k + 1;
        }
        rvec.push(acc);
        lag = lag + 1;
    }
    let ghost rs: Seq<int> = spec_autocorr_seq(window@);
    assert(forall|j: int| 0 <= j < len ==> rvec@[j] == rs[j]);
    let mut d: usize = 0;
    while d + 1 < len && rvec[d] > rvec[d + 1]
        invariant
            d < len == window@.len(),
            rvec@.len() == len,
            forall|j: int| 0 <= j < len ==> rvec@[j] == rs[j],
            rs == spec_autocorr_seq(window@),
            spec_first_dip(rs, 0) == spec_first_dip(rs, d as int),
        decreases len - d,
    {
        d = d + 1;
    }
    assert(d == spec_first_dip(rs, 0));
    let mut best: usize = d;
    let mut m: usize = d + 1;
    while m < len
        invariant
            d <= best < m <= len == window@.len(),
            rvec@.len() == len,
            forall|j: int| 0 <= j < len ==> rvec@[j] == rs[j],
            best == spec_argmax_from(rs, d as int, m as int),
        decreases len - m,
    {
        if rvec[m] > rvec[best] {
            best = m;
        }
        m = m + 1;
    }
    if best == 0 {
        return None;
    }
    let freq: u64 = ((sample_rate as u64) * 1_000_000) / (best as u64);
    Some(freq)
}

} // verus!
