//! Analysis-window slicing and amplitude tapering.
//!
//! `WindowingStage` accumulates incoming PCM samples in a growable buffer
//! and hands out fixed-size analysis windows, advancing by a configurable
//! step so windows may overlap (step == window size gives no overlap,
//! step == window size / 2 gives 50% overlap).
//!
//! The taper applied to extracted windows is the Hamming window, as Q15
//! weights; the Hann weights are provided as well, with the proof that they
//! vanish at both window edges.  A window of length 1 or 0 gets weight 1.0
//! everywhere (no division by zero).

use vstd::prelude::*;
use crate::trig::spec_cos_q15;
use crate::trig::cos_q15;

verus! {

/// Q15 Hann taper weight for sample `n` of a window of length `len`:
/// 0.5 * (1 - cos(2 * pi * n / (len - 1))), or 1.0 when `len <= 1`.
pub open spec fn spec_hann_weight_q15(n: int, len: int) -> int {
    if len <= 1 {
        32768
    } else {
        (32768 - spec_cos_q15(n, len - 1)) / 2
    }
}

/// Q15 Hamming taper weight for sample `n` of a window of length `len`:
/// 0.54 - 0.46 * cos(2 * pi * n / (len - 1)), or 1.0 when `len <= 1`.
/// 17695 and 15073 are 0.54 and 0.46 in Q15, chosen to sum to 32768.
pub open spec fn spec_hamming_weight_q15(n: int, len: int) -> int {
    if len <= 1 {
        32768
    } else {
        let c = spec_cos_q15(n, len - 1);
        if c >= 0 {
            17695 - (15073 * c) / 32768
        } else {
            17695 + (15073 * (-c)) / 32768
        }
    }
}

/// Hann taper weight in Q15; exactly 0 at both edges of any window of
/// length at least 2.
pub fn hann_weight_q15(n: u64, len: u64) -> (r: i32)
    requires
        len <= 0x1000_0000_0000_0000,
    ensures
        r == spec_hann_weight_q15(n as int, len as int),
        0 <= r <= 32768,
        len >= 2 && n == 0 ==> r == 0,
        len >= 2 && n == len - 1 ==> r == 0,
{
    if len <= 1 {
        32768
    } else {
        proof {
            if n == 0 || n == len - 1 {
                vstd::arithmetic::div_mod::lemma_mod_self_0((len - 1) as int);
                vstd::arithmetic::div_mod::lemma_small_mod(0nat, (len - 1) as nat);
            }
        }
        let c: i32 = cos_q15(n, len - 1);
        let d: u64 = (32768 - c) as u64;
        (d / 2) as i32
    }
}

/// Hamming taper weight in Q15; 2622 (about 0.08) at the edges, 32768 at
/// the center of an odd-length window.
pub fn hamming_weight_q15(n: u64, len: u64) -> (r: i32)
    requires
        len <= 0x1000_0000_0000_0000,
    ensures
        r == spec_hamming_weight_q15(n as int, len as int),
        0 < r <= 32768,
{
    if len <= 1 {
        32768
    } else {
        let c: i32 = cos_q15(n, len - 1);
        if c >= 0 {
            17695 - (((15073 * (c as u64)) / 32768) as i32)
        } else {
            17695 + (((15073 * ((-c) as u64)) / 32768) as i32)
        }
    }
}

/// The Hann taper vanishes at both edges of every window of length at
/// least 2: the weight at sample 0 and at sample `len - 1` is exactly 0.
pub proof fn lemma_hann_taper_edges(len: int)
    requires
        2 <= len,
    ensures
        spec_hann_weight_q15(0, len) == 0,
        spec_hann_weight_q15(len - 1, len) == 0,
{
    assert(0int % (len - 1) == 0);
    assert((len - 1) % (len - 1) == 0);
}

/// One sample scaled by a Q15 weight, rounding half away from zero.
pub open spec fn spec_scale_q15(s: int, w: int) -> int
    recommends
        0 <= w <= 32768,
{
    if s >= 0 {
        (s * w + 16384) / 32768
    } else {
        -(((-s) * w + 16384) / 32768)
    }
}

/// A whole window tapered by the Q15 Hamming weights.
pub open spec fn spec_hamming_tapered(s: Seq<i16>) -> Seq<i16> {
    Seq::new(s.len(), |i: int| (spec_scale_q15(s[i] as int, spec_hamming_weight_q15(i, s.len() as int)) as i16))
}

/// Scale one sample by a Q15 weight, rounding half away from zero.
fn scale_q15(s: i16, w: i32) -> (r: i16)
    requires
        0 <= w <= 32768,
    ensures
        r == spec_scale_q15(s as int, w as int),
{
    if s >= 0 {
        assert((s as int) * (w as int) <= 32767 * 32768) by (nonlinear_arith)
            requires
                0 <= s <= 32767,
                0 <= w <= 32768,
        ;
        let m: u64 = (s as u64) * (w as u64) + 16384;
        proof {
            vstd::arithmetic::div_mod::lemma_div_is_ordered(m as int, 32767int * 32768 + 16384, 32768);
        }
        (m / 32768) as i16
    } else {
        let mag: i64 = -(s as i64);
        assert((mag as int) * (w as int) <= 32768 * 32768) by (nonlinear_arith)
            requires
                0 <= mag <= 32768,
                0 <= w <= 32768,
        ;
        let m: u64 = (mag as u64) * (w as u64) + 16384;
        proof {
            vstd::arithmetic::div_mod::lemma_div_is_ordered(m as int, 32768int * 32768 + 16384, 32768);
        }
        let q: i64 = (m / 32768) as i64;
        (-q) as i16
    }
}

/// Taper a window in place with the Q15 Hamming weights.
pub fn apply_hamming_window(samples: &mut Vec<i16>)
    requires
        old(samples)@.len() <= 0x1000_0000_0000_0000,
    ensures
        final(samples)@ == spec_hamming_tapered(old(samples)@),
{
    let len: usize = samples.len();
    let mut i: usize = 0;
    while i < len
        invariant
            len == old(samples)@.len() <= 0x1000_0000_0000_0000,
            samples@.len() == len,
            i <= len,
            forall|j: int| i <= j < len ==> samples@[j] == old(samples)@[j],
            forall|j: int| 0 <= j < i ==> samples@[j] == spec_hamming_tapered(old(samples)@)[j],
        decreases len - i,
    {
        let w: i32 = hamming_weight_q15(i as u64, len as u64);
        let s: i16 = samples[i];
        let scaled: i16 = scale_q15(s, w);
        samples.set(i, scaled);
        i = i + 1;
    }
    assert(samples@ =~= spec_hamming_tapered(old(samples)@));
}

/// Rolling buffer that slices fixed-size, optionally overlapping analysis
/// windows out of the incoming sample stream.
pub struct WindowingStage {
    /// Samples pushed but not yet consumed by a window.
    pub buf: Vec<i16>,
    /// Length of each analysis window; constant across the run.
    pub window_size: usize,
    /// Distance the buffer start advances per extracted window; in
    /// (0, window_size].
    pub step_size: usize,
}

impl WindowingStage {
    /// Configuration well-formedness: a positive window, and a positive
    /// step no larger than the window.
    pub open spec fn wf(self) -> bool {
        &&& 1 <= self.window_size <= 0x1000_0000_0000_0000
        &&& 1 <= self.step_size <= self.window_size
    }

    /// A fresh stage with an empty buffer.
    pub fn new(window_size: usize, step_size: usize) -> (r: WindowingStage)
        requires
            1 <= window_size <= 0x1000_0000_0000_0000,
            1 <= step_size <= window_size,
        ensures
            r.wf(),
            r.buf@ == Seq::<i16>::empty(),
            r.window_size == window_size,
            r.step_size == step_size,
    {
        WindowingStage { buf: Vec::new(), window_size, step_size }
    }

    /// Append a chunk of samples to the rolling buffer.
    pub fn push(&mut self, samples: &Vec<i16>)
        ensures
            final(self).buf@ == old(self).buf@ + samples@,
            final(self).window_size == old(self).window_size,
            final(self).step_size == old(self).step_size,
    {
        let n: usize = samples.len();
        let mut i: usize = 0;
        while i < n
            invariant
                n == samples@.len(),
                i <= n,
                self.buf@ == old(self).buf@ + samples@.subrange(0, i as int),
                self.window_size == old(self).window_size,
                self.step_size == old(self).step_size,
            decreases n - i,
        {
            self.buf.push(samples[i]);
            i = i + 1;
            assert(self.buf@ =~= old(self).buf@ + samples@.subrange(0, i as int));
        }
        assert(samples@.subrange(0, n as int) =~= samples@);
    }

    /// Remove and return the oldest `window_size` samples if a full window
    /// is available, advancing the buffer start by `step_size`; `None`
    /// until enough samples have accumulated.
    pub fn try_take_window(&mut self) -> (r: Option<Vec<i16>>)
        requires
            old(self).wf(),
        ensures
            final(self).wf(),
            final(self).window_size == old(self).window_size,
            final(self).step_size == old(self).step_size,
            old(self).buf@.len() < old(self).window_size ==> r is None && final(self).buf@ == old(self).buf@,
            old(self).buf@.len() >= old(self).window_size ==> (match r {
                Some(w) => w@ == old(self).buf@.subrange(0, old(self).window_size as int)
                    && final(self).buf@ == old(self).buf@.subrange(
                        old(self).step_size as int,
                        old(self).buf@.len() as int,
                    ),
                None => false,
            }),
    {
        if self.buf.len() < self.window_size {
            return None;
        }
        let len: usize = self.buf.len();
        let mut w: Vec<i16> = Vec::new();
        let mut i: usize = 0;
        while i < self.window_size
            invariant
                self == old(self),
                i <= self.window_size <= len == self.buf@.len(),
                w@ == self.buf@.subrange(0, i as int),
            decreases self.window_size - i,
        {
            w.push(self.buf[i]);
            i = i + 1;
            assert(w@ =~= self.buf@.subrange(0, i as int));
        }
        let mut rest: Vec<i16> = Vec::new();
        let mut j: usize = self.step_size;
        while j < len
            invariant
                self == old(self),
                old(self).step_size <= j <= len == self.buf@.len(),
                rest@ == self.buf@.subrange(old(self).step_size as int, j as int),
            decreases len - j,
        {
            rest.push(self.buf[j]);
            j = j + 1;
            assert(rest@ =~= self.buf@.subrange(old(self).step_size as int, j as int));
        }
        self.buf = rest;
        Some(w)
    }

    /// Extract the next window, already tapered with the Hamming weights,
    /// ready for a pitch detector.
    pub fn try_take_tapered_window(&mut self) -> (r: Option<Vec<i16>>)
        requires
            old(self).wf(),
        ensures
            final(self).wf(),
            final(self).window_size == old(self).window_size,
            final(self).step_size == old(self).step_size,
            old(self).buf@.len() < old(self).window_size ==> r is None && final(self).buf@ == old(self).buf@,
            old(self).buf@.len() >= old(self).window_size ==> (match r {
                Some(w) => w@ == spec_hamming_tapered(
                    old(self).buf@.subrange(0, old(self).window_size as int),
                )
                    && final(self).buf@ == old(self).buf@.subrange(
                        old(self).step_size as int,
                        old(self).buf@.len() as int,
                    ),
                None => false,
            }),
    {
        match self.try_take_window() {
            None => None,
            Some(mut w) => {
                apply_hamming_window(&mut w);
                Some(w)
            },
        }
    }
}

} // verus!
