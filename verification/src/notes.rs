//! Frequency-to-note quantization and note naming.
//!
//! Frequencies are integers in micro-hertz.  The frequency of MIDI note n
//! is 440 Hz * 2^((n - 69) / 12); the table below holds the lowest octave
//! (notes 0 to 11) rounded to the nearest micro-hertz, and every higher
//! octave is an exact doubling, so note 69 is exactly 440 Hz.
//!
//! Quantization follows `round(12 * log2(f / 440) + 69)`: the rounding
//! boundary between two adjacent notes is the geometric mean of their
//! frequencies, so `f` maps to note n exactly when
//! `freq(n - 1) * freq(n) <= f * f < freq(n) * freq(n + 1)`.  That integer
//! form is what the contracts state; no logarithm is needed.
//! A frequency of zero, or one below the lower boundary of note 0 or at or
//! above the upper boundary of note 127, yields no note at all — never a
//! clamped value.

use vstd::prelude::*;
use vstd::string::StringExecFns;
use vstd::arithmetic::div_mod::lemma_fundamental_div_mod;
use vstd::arithmetic::div_mod::lemma_fundamental_div_mod_converse;
use vstd::arithmetic::div_mod::lemma_div_is_ordered;

verus! {

/// Micro-hertz frequency of notes 0 to 11 (the lowest octave, C-1 to B-1),
/// rounded to the nearest micro-hertz; 0 outside that range.
pub open spec fn spec_base_uhz(pc: int) -> int {
    if pc == 0 {
        8175799
    } else if pc == 1 {
        8661957
    } else if pc == 2 {
        9177024
    } else if pc == 3 {
        9722718
    } else if pc == 4 {
        10300861
    } else if pc == 5 {
        10913382
    } else if pc == 6 {
        11562326
    } else if pc == 7 {
        12249857
    } else if pc == 8 {
        12978272
    } else if pc == 9 {
        13750000
    } else if pc == 10 {
        14567618
    } else if pc == 11 {
        15433853
    } else {
        0
    }
}

/// 2^k for the octaves in range (k from 0 to 10); 0 outside that range.
pub open spec fn spec_octave_scale(k: int) -> int {
    if k == 0 {
        1
    } else if k == 1 {
        2
    } else if k == 2 {
        4
    } else if k == 3 {
        8
    } else if k == 4 {
        16
    } else if k == 5 {
        32
    } else if k == 6 {
        64
    } else if k == 7 {
        128
    } else if k == 8 {
        256
    } else if k == 9 {
        512
    } else if k == 10 {
        1024
    } else {
        0
    }
}

/// Micro-hertz frequency of note n, for n from 0 to 128 (128, one above
/// the MIDI range, only serves as the upper quantization boundary of 127).
pub open spec fn spec_note_freq_uhz(n: int) -> int
    recommends
        0 <= n <= 128,
{
    spec_base_uhz(n % 12) * spec_octave_scale(n / 12)
}

/// Note frequencies grow strictly with the note number.
pub proof fn lemma_note_freq_increasing(n: int)
    requires
        0 <= n < 128,
    ensures
        spec_note_freq_uhz(n) < spec_note_freq_uhz(n + 1),
{
    let r = n % 12;
    let q = n / 12;
    lemma_fundamental_div_mod(n, 12);
    lemma_div_is_ordered(n, 127, 12);
    if r == 11 {
        lemma_fundamental_div_mod_converse(n + 1, 12, q + 1, 0);
        assert(spec_octave_scale(q + 1) == 2 * spec_octave_scale(q));
        assert(spec_base_uhz(11) * spec_octave_scale(q) < spec_base_uhz(0) * (2
            * spec_octave_scale(q))) by (nonlinear_arith)
            requires
                1 <= spec_octave_scale(q),
                spec_base_uhz(11) == 15433853,
                spec_base_uhz(0) == 8175799,
        ;
    } else {
        lemma_fundamental_div_mod_converse(n + 1, 12, q, r + 1);
        assert(spec_base_uhz(r) * spec_octave_scale(q) < spec_base_uhz(r + 1)
            * spec_octave_scale(q)) by (nonlinear_arith)
            requires
                1 <= spec_octave_scale(q),
                spec_base_uhz(r) < spec_base_uhz(r + 1),
        ;
    }
}

/// Note frequencies are monotone: m <= n gives freq(m) <= freq(n).
pub proof fn lemma_note_freq_le(m: int, n: int)
    requires
        0 <= m <= n <= 128,
    ensures
        spec_note_freq_uhz(m) <= spec_note_freq_uhz(n),
    decreases n - m,
{
    if m < n {
        lemma_note_freq_increasing(n - 1);
        lemma_note_freq_le(m, n - 1);
    }
}

/// Every note frequency in range is between note 0 and note 128.
pub proof fn lemma_note_freq_bounds(n: int)
    requires
        0 <= n <= 128,
    ensures
        8175799 <= spec_note_freq_uhz(n) <= 16351598 * 1024,
{
    lemma_note_freq_le(0, n);
    lemma_note_freq_le(n, 128);
}

/// Micro-hertz frequency of note n (n at most 128).
pub fn note_frequency_uhz(n: u32) -> (r: u64)
    requires
        n <= 128,
    ensures
        r == spec_note_freq_uhz(n as int),
        8175799 <= r <= 16351598 * 1024,
{
    let pc: u32 = n % 12;
    let q: u32 = n / 12;
    let base: u64 = if pc == 0 {
        8175799
    } else if pc == 1 {
        8661957
    } else if pc == 2 {
        9177024
    } else if pc == 3 {
        9722718
    } else if pc == 4 {
        10300861
    } else if pc == 5 {
        10913382
    } else if pc == 6 {
        11562326
    } else if pc == 7 {
        12249857
    } else if pc == 8 {
        12978272
    } else if pc == 9 {
        13750000
    } else if pc == 10 {
        14567618
    } else {
        15433853
    };
    let scale: u64 = if q == 0 {
        1
    } else if q == 1 {
        2
    } else if q == 2 {
        4
    } else if q == 3 {
        8
    } else if q == 4 {
        16
    } else if q == 5 {
        32
    } else if q == 6 {
        64
    } else if q == 7 {
        128
    } else if q == 8 {
        256
    } else if q == 9 {
        512
    } else {
        1024
    };
    assert(base * scale <= 15433853 * 1024) by (nonlinear_arith)
        requires
            base <= 15433853,
            scale <= 1024,
    ;
    let r: u64 = base * scale;
    proof {
        lemma_note_freq_bounds(n as int);
    }
    r
}

/// Inverse of the note mapping: the frequency of MIDI note `note_number`,
/// in micro-hertz; `None` when the number is outside the MIDI range.
pub fn frequency_to_midi_note_number_to_freq(note_number: u8) -> (r: Option<u64>)
    ensures
        note_number <= 127 ==> r == Some(spec_note_freq_uhz(note_number as int) as u64),
        note_number > 127 ==> r is None,
{
    if note_number > 127 {
        return None;
    }
    Some(note_frequency_uhz(note_number as u32))
}

/// Search for the note whose quantization band holds `f` (in micro-hertz,
/// squared as `f * f`), scanning upward from note n: the first note whose
/// upper boundary (the geometric mean with the next note) lies above `f`.
pub open spec fn spec_note_search(f: int, n: int) -> Option<u8>
    recommends
        0 <= n,
    decreases 128 - n,
{
    if n > 127 {
        None
    } else if f * f < spec_note_freq_uhz(n) * spec_note_freq_uhz(n + 1) {
        Some(n as u8)
    } else {
        spec_note_search(f, n + 1)
    }
}

/// The quantized MIDI note for a frequency of `f` micro-hertz: `None` for
/// f = 0, for f below the lower rounding boundary of note 0, and for f at
/// or above the upper rounding boundary of note 127.
pub open spec fn spec_frequency_to_note(f: int) -> Option<u8> {
    if f < 1 {
        None
    } else if 2 * (f * f) < spec_base_uhz(11) * spec_note_freq_uhz(0) {
        None
    } else {
        spec_note_search(f, 0)
    }
}

/// Quantize a frequency in micro-hertz to the nearest MIDI note number.
///
/// This is the integer form of `round(12 * log2(f / 440) + 69)`: note n is
/// returned exactly when f lies in the geometric-mean band around note n's
/// own frequency.  Zero frequency and frequencies rounding outside the
/// MIDI range [0, 127] yield `None`, never a clamped note.
pub fn frequency_to_midi_note_number(freq_uhz: u64) -> (r: Option<u8>)
    ensures
        r == spec_frequency_to_note(freq_uhz as int),
        freq_uhz == 0 ==> r is None,
        (match r {
            Some(n) => {
                let f = freq_uhz as int;
                &&& n <= 127
                &&& f * f < spec_note_freq_uhz(n as int) * spec_note_freq_uhz(n as int + 1)
                &&& n >= 1 ==> f * f >= spec_note_freq_uhz(n as int - 1) * spec_note_freq_uhz(
                    n as int,
                )
                &&& n == 0 ==> 2 * (f * f) >= spec_base_uhz(11) * spec_note_freq_uhz(0)
            },
            None => {
                let f = freq_uhz as int;
                f == 0 || 2 * (f * f) < spec_base_uhz(11) * spec_note_freq_uhz(0) || f * f
                    >= spec_note_freq_uhz(127) * spec_note_freq_uhz(128)
            },
        }),
{
    if freq_uhz == 0 {
        return None;
    }
    assert((freq_uhz as int) * (freq_uhz as int) <= 0xFFFF_FFFF_FFFF_FFFF
        * 0xFFFF_FFFF_FFFF_FFFF) by (nonlinear_arith)
        requires
            freq_uhz <= 0xFFFF_FFFF_FFFF_FFFF,
    ;
    let f2: u128 = (freq_uhz as u128) * (freq_uhz as u128);
    let low: u64 = note_frequency_uhz(0);
    assert(spec_note_freq_uhz(0) == 8175799) by {
        assert(0int % 12 == 0 && 0int / 12 == 0);
    }
    if freq_uhz <= 0xFFFF_FFFF {
        assert((freq_uhz as int) * (freq_uhz as int) <= 0xFFFF_FFFF * 0xFFFF_FFFF)
            by (nonlinear_arith)
            requires
                freq_uhz <= 0xFFFF_FFFF,
        ;
        if 2 * f2 < (15433853 as u128) * (low as u128) {
            return None;
        }
    } else {
        assert((freq_uhz as int) * (freq_uhz as int) >= 0x1_0000_0000 * 0x1_0000_0000)
            by (nonlinear_arith)
            requires
                freq_uhz > 0xFFFF_FFFF,
        ;
    }
    let mut n: u32 = 0;
    let mut prev: u64 = low;
    while n <= 127
        invariant
            n <= 128,
            1 <= freq_uhz,
            f2 == (freq_uhz as int) * (freq_uhz as int),
            2 * ((freq_uhz as int) * (freq_uhz as int)) >= spec_base_uhz(11) * spec_note_freq_uhz(0),
            prev == spec_note_freq_uhz(n as int),
            prev <= 16351598 * 1024,
            spec_note_search(freq_uhz as int, 0) == spec_note_search(freq_uhz as int, n as int),
            forall|j: int|
                0 <= j < n ==> (freq_uhz as int) * (freq_uhz as int) >= #[trigger] spec_note_freq_uhz(j)
                    * spec_note_freq_uhz(j + 1),
        decreases 128 - n,
    {
        let next: u64 = note_frequency_uhz(n + 1);
        assert((prev as int) * (next as int) <= (16351598 * 1024) * (16351598 * 1024))
            by (nonlinear_arith)
            requires
                prev <= 16351598 * 1024,
                next <= 16351598 * 1024,
        ;
        if f2 < (prev as u128) * (next as u128) {
            return Some(n as u8);
        }
        n = n + 1;
        prev = next;
    }
    None
}

/// The quantized note is within one semitone of the input frequency: `f`
/// lies strictly below the next note's frequency and no lower than the
/// previous note's (for note 0, no lower than half the frequency of note
/// 11, the semitone below note 0).  In particular
/// `note_to_frequency(frequency_to_note(f))` round-trips to within one
/// semitone of `f`.
pub proof fn lemma_frequency_note_round_trip(f: int, n: u8)
    requires
        spec_frequency_to_note(f) == Some(n),
    ensures
        f < spec_note_freq_uhz(n as int + 1),
        n >= 1 ==> spec_note_freq_uhz(n as int - 1) <= f,
        n == 0 ==> 2 * f >= spec_base_uhz(11),
{
    lemma_note_search_characterizes(f, 0, n);
    lemma_note_freq_bounds(n as int + 1);
    lemma_note_freq_le(n as int, n as int + 1);
    lemma_note_freq_bounds(n as int);
    assert(f < spec_note_freq_uhz(n as int + 1)) by (nonlinear_arith)
        requires
            f * f < spec_note_freq_uhz(n as int) * spec_note_freq_uhz(n as int + 1),
            spec_note_freq_uhz(n as int) <= spec_note_freq_uhz(n as int + 1),
            0 < spec_note_freq_uhz(n as int),
            1 <= f,
    ;
    if n >= 1 {
        lemma_note_freq_le(n as int - 1, n as int);
        lemma_note_freq_bounds(n as int - 1);
        assert(spec_note_freq_uhz(n as int - 1) <= f) by (nonlinear_arith)
            requires
                f * f >= spec_note_freq_uhz(n as int - 1) * spec_note_freq_uhz(n as int),
                0 < spec_note_freq_uhz(n as int - 1) <= spec_note_freq_uhz(n as int),
                1 <= f,
        ;
    } else {
        assert(2 * f >= spec_base_uhz(11)) by (nonlinear_arith)
            requires
                2 * (f * f) >= spec_base_uhz(11) * spec_note_freq_uhz(0),
                spec_base_uhz(11) == 15433853,
                spec_note_freq_uhz(0) == 8175799,
                1 <= f,
        ;
    }
}

/// A search that starts below a note's band and skips only bands that lie
/// wholly below `f` ends where a search from any skipped point ends.
proof fn lemma_search_skips_low_bands(f: int, i: int, n: int)
    requires
        0 <= i <= n <= 127,
        forall|j: int|
            i <= j < n ==> f * f >= #[trigger] spec_note_freq_uhz(j) * spec_note_freq_uhz(j + 1),
    ensures
        spec_note_search(f, i) == spec_note_search(f, n),
    decreases n - i,
{
    if i < n {
        lemma_search_skips_low_bands(f, i + 1, n);
    }
}

/// Every frequency in the 435 to 445 Hz band quantizes to note 69 (A4):
/// the band lies strictly inside A4's rounding boundaries, so a pitch
/// estimate anywhere in it always maps to the same note.
pub proof fn lemma_a4_band_quantizes_to_a4(f: int)
    requires
        435_000_000 <= f <= 445_000_000,
    ensures
        spec_frequency_to_note(f) == Some(69u8),
{
    assert(spec_note_freq_uhz(68) == 12978272 * 32) by {
        assert(68int % 12 == 8 && 68int / 12 == 5);
    }
    assert(spec_note_freq_uhz(69) == 13750000 * 32) by {
        assert(69int % 12 == 9 && 69int / 12 == 5);
    }
    assert(spec_note_freq_uhz(70) == 14567618 * 32) by {
        assert(70int % 12 == 10 && 70int / 12 == 5);
    }
    assert(f * f >= 435_000_000 * 435_000_000) by (nonlinear_arith)
        requires
            f >= 435_000_000,
    ;
    assert(f * f < 440_000_000 * 466_163_776) by (nonlinear_arith)
        requires
            0 <= f <= 445_000_000,
    ;
    assert forall|j: int| 0 <= j < 69 implies f * f >= #[trigger] spec_note_freq_uhz(j)
        * spec_note_freq_uhz(j + 1) by {
        lemma_note_freq_le(j, 68);
        lemma_note_freq_le(j + 1, 69);
        lemma_note_freq_bounds(j);
        lemma_note_freq_bounds(j + 1);
        assert(spec_note_freq_uhz(j) * spec_note_freq_uhz(j + 1) <= spec_note_freq_uhz(68)
            * spec_note_freq_uhz(69)) by (nonlinear_arith)
            requires
                0 <= spec_note_freq_uhz(j) <= spec_note_freq_uhz(68),
                0 <= spec_note_freq_uhz(j + 1) <= spec_note_freq_uhz(69),
        ;
    }
    lemma_search_skips_low_bands(f, 0, 69);
}

/// Chromatic name of a pitch class (0 to 11): C, C#, ..., B.
pub open spec fn spec_pitch_class_name(pc: int) -> Seq<char> {
    if pc == 0 {
        "C"@
    } else if pc == 1 {
        "C#"@
    } else if pc == 2 {
        "D"@
    } else if pc == 3 {
        "D#"@
    } else if pc == 4 {
        "E"@
    } else if pc == 5 {
        "F"@
    } else if pc == 6 {
        "F#"@
    } else if pc == 7 {
        "G"@
    } else if pc == 8 {
        "G#"@
    } else if pc == 9 {
        "A"@
    } else if pc == 10 {
        "A#"@
    } else {
        "B"@
    }
}

/// Decimal label of the octave with index k = note / 12: octave k - 1,
/// from "-1" (notes 0 to 11) up to "9" (notes 120 to 127).
pub open spec fn spec_octave_label(k: int) -> Seq<char> {
    if k == 0 {
        "-1"@
    } else if k == 1 {
        "0"@
    } else if k == 2 {
        "1"@
    } else if k == 3 {
        "2"@
    } else if k == 4 {
        "3"@
    } else if k == 5 {
        "4"@
    } else if k == 6 {
        "5"@
    } else if k == 7 {
        "6"@
    } else if k == 8 {
        "7"@
    } else if k == 9 {
        "8"@
    } else {
        "9"@
    }
}

/// The display name of a MIDI note: its chromatic pitch-class name
/// followed by its octave number, octave -1 holding notes 0 to 11 (so
/// note 69 is "A4", note 0 is "C-1"; no underflow at note 0).
pub open spec fn spec_note_name(note: int) -> Seq<char> {
    spec_pitch_class_name(note % 12) + spec_octave_label(note / 12)
}

/// Chromatic name plus octave of a MIDI note, e.g. "A4" for note 69 and
/// "C-1" for note 0.
pub fn midi_note_number_to_name(note_number: u8) -> (r: String)
    requires
        note_number <= 127,
    ensures
        r@ == spec_note_name(note_number as int),
{
    let pc: u8 = note_number % 12;
    let oct: u8 = note_number / 12;
    let name: &str = if pc == 0 {
        "C"
    } else if pc == 1 {
        "C#"
    } else if pc == 2 {
        "D"
    } else if pc == 3 {
        "D#"
    } else if pc == 4 {
        "E"
    } else if pc == 5 {
        "F"
    } else if pc == 6 {
        "F#"
    } else if pc == 7 {
        "G"
    } else if pc == 8 {
        "G#"
    } else if pc == 9 {
        "A"
    } else if pc == 10 {
        "A#"
    } else {
        "B"
    };
    let octave: &str = if oct == 0 {
        "-1"
    } else if oct == 1 {
        "0"
    } else if oct == 2 {
        "1"
    } else if oct == 3 {
        "2"
    } else if oct == 4 {
        "3"
    } else if oct == 5 {
        "4"
    } else if oct == 6 {
        "5"
    } else if oct == 7 {
        "6"
    } else if oct == 8 {
        "7"
    } else if oct == 9 {
        "8"
    } else {
        "9"
    };
    let mut r: String = name.to_owned();
    r.append(octave);
    r
}

/// What a successful search says of its result: the found note is in the
/// scanned range, `f` lies below its upper boundary, and at or above the
/// boundaries of every note skipped on the way.
proof fn lemma_note_search_characterizes(f: int, i: int, n: u8)
    requires
        0 <= i <= 128,
        spec_note_search(f, i) == Some(n),
    ensures
        i <= n <= 127,
        f * f < spec_note_freq_uhz(n as int) * spec_note_freq_uhz(n as int + 1),
        n > i ==> f * f >= spec_note_freq_uhz(n as int - 1) * spec_note_freq_uhz(n as int),
    decreases 128 - i,
{
    if i <= 127 {
        if f * f < spec_note_freq_uhz(i) * spec_note_freq_uhz(i + 1) {
        } else {
            lemma_note_search_characterizes(f, i + 1, n);
        }
    }
}

} // verus!
