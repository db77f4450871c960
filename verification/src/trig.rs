//! Q15 fixed-point circular functions.
//!
//! Angles are given as a fraction of a full turn, `num / den`, so callers
//! never handle an irrational constant: the taper uses `n / (L - 1)` turns
//! and the oscillator uses `phase / period` turns directly.  Results are in
//! Q15: 32768 stands for 1.0.
//!
//! Exactness at the cardinal points is part of the contract: a whole number
//! of turns yields exactly 32768 (cosine) and 0 (sine), and the quarter-turn
//! points are exact as well.  Between cardinal points the value is the fixed
//! Q15 polynomial below, stated by the mirror spec functions.

use vstd::prelude::*;
use vstd::arithmetic::div_mod::lemma_div_is_ordered;
use vstd::arithmetic::div_mod::lemma_small_mod;

verus! {

/// Q15 radian measure of the turn fraction `num / den`, capped at the
/// quarter-turn mark: 205887 is 2 * pi in Q15 (rounded down) and 51472 is
/// its quarter, so the result lies in [0, 51472] (about [0, pi/2]).
pub open spec fn spec_theta_q15(num: int, den: int) -> int
    recommends
        1 <= den,
        0 <= num,
{
    let raw = (205887 * num) / den;
    if raw > 51472 {
        51472
    } else {
        raw
    }
}

/// Q15 evaluation of cos(2 * pi * num / den) for a first-quadrant angle,
/// as computed by `quarter_cos_q15`: a degree-6 Taylor polynomial on the
/// Q15 radian measure, clamped into [0, 32768].
pub open spec fn spec_quarter_cos_q15(num: int, den: int) -> int
    recommends
        1 <= den,
        0 <= num,
        4 * num <= den,
{
    let th = spec_theta_q15(num, den);
    let th2 = (th * th) / 32768;
    let th4 = (th2 * th2) / 32768;
    let th6 = (th4 * th2) / 32768;
    let c = 32768 - th2 / 2 + th4 / 24 - th6 / 720;
    if c < 0 {
        0
    } else if c > 32768 {
        32768
    } else {
        c
    }
}

/// Q15 evaluation of cos(2 * pi * num / den): the angle is reduced modulo
/// one turn, the four cardinal points are exact, and every other angle is
/// folded into the first quadrant by the usual symmetries.
pub open spec fn spec_cos_q15(num: int, den: int) -> int
    recommends
        1 <= den,
        0 <= num,
{
    let ph = num % den;
    if ph == 0 {
        32768
    } else if 4 * ph == den {
        0
    } else if 2 * ph == den {
        -32768
    } else if 4 * ph == 3 * den {
        0
    } else if 4 * ph < den {
        spec_quarter_cos_q15(ph, den)
    } else if 2 * ph < den {
        -spec_quarter_cos_q15(den - 2 * ph, 2 * den)
    } else if 4 * ph < 3 * den {
        -spec_quarter_cos_q15(2 * ph - den, 2 * den)
    } else {
        spec_quarter_cos_q15(den - ph, den)
    }
}

/// Q15 evaluation of sin(2 * pi * num / den), as the cosine of the angle
/// shifted back by a quarter turn.
pub open spec fn spec_sin_q15(num: int, den: int) -> int
    recommends
        1 <= den,
        0 <= num,
{
    spec_cos_q15(4 * (num % den) + 3 * den, 4 * den)
}

/// First-quadrant Q15 cosine; helper for `cos_q15`.
fn quarter_cos_q15(num: u64, den: u64) -> (r: i32)
    requires
        1 <= den <= 0x4000_0000_0000_0000,
        4 * num <= den,
    ensures
        r == spec_quarter_cos_q15(num as int, den as int),
        0 <= r <= 32768,
{
    let raw: u128 = (205887u128 * (num as u128)) / (den as u128);
    let th: u64 = if raw > 51472 {
        51472
    } else {
        raw as u64
    };
    assert(th == spec_theta_q15(num as int, den as int));
    assert(th * th <= 51472 * 51472) by (nonlinear_arith)
        requires
            th <= 51472,
    ;
    let th2: u64 = (th * th) / 32768;
    proof {
        lemma_div_is_ordered((th * th) as int, 51472int * 51472, 32768);
    }
    assert(th2 <= 80852);
    assert(th2 * th2 <= 80852 * 80852) by (nonlinear_arith)
        requires
            th2 <= 80852,
    ;
    let th4: u64 = (th2 * th2) / 32768;
    proof {
        lemma_div_is_ordered((th2 * th2) as int, 80852int * 80852, 32768);
    }
    assert(th4 <= 199495);
    assert(th4 * th2 <= 199495 * 80852) by (nonlinear_arith)
        requires
            th4 <= 199495,
            th2 <= 80852,
    ;
    let th6: u64 = (th4 * th2) / 32768;
    let c: i64 = 32768 - ((th2 / 2) as i64) + ((th4 / 24) as i64) - ((th6 / 720) as i64);
    if c < 0 {
        0
    } else if c > 32768 {
        32768
    } else {
        c as i32
    }
}

/// Q15 cosine of `num / den` turns.
pub fn cos_q15(num: u64, den: u64) -> (r: i32)
    requires
        1 <= den <= 0x1000_0000_0000_0000,
    ensures
        r == spec_cos_q15(num as int, den as int),
        -32768 <= r <= 32768,
        num % den == 0 ==> r == 32768,
{
    let ph: u64 = num % den;
    if ph == 0 {
        32768
    } else if 4 * ph == den {
        0
    } else if 2 * ph == den {
        -32768
    } else if 4 * ph == 3 * den {
        0
    } else if 4 * ph < den {
        quarter_cos_q15(ph, den)
    } else if 2 * ph < den {
        -quarter_cos_q15(den - 2 * ph, 2 * den)
    } else if 4 * ph < 3 * den {
        -quarter_cos_q15(2 * ph - den, 2 * den)
    } else {
        quarter_cos_q15(den - ph, den)
    }
}

/// Q15 sine of `num / den` turns.
pub fn sin_q15(num: u64, den: u64) -> (r: i32)
    requires
        1 <= den <= 0x0400_0000_0000_0000,
    ensures
        r == spec_sin_q15(num as int, den as int),
        -32768 <= r <= 32768,
        num % den == 0 ==> r == 0,
{
    let ph: u64 = num % den;
    let r = cos_q15(4 * ph + 3 * den, 4 * den);
    proof {
        if ph == 0 {
            lemma_small_mod((3 * den) as nat, (4 * den) as nat);
        }
    }
    r
}

} // verus!
