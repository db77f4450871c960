//! Polyphonic note mixing: the recorder core.
//!
//! The recorder holds the set of currently active notes and, once per
//! generation tick, synthesizes one mixed PCM output sample: each active
//! note contributes a Q15 sine sample scaled by its velocity, the
//! contributions are summed, every note advances its oscillator phase and
//! counts down its remaining duration, finished notes are removed in the
//! same tick, and the sum is clamped to the signed 16-bit range — never
//! wrapped — before it is handed to the output sink.
//!
//! An oscillator phase is kept as a fraction of one cycle,
//! `phase_acc / (sample_rate * 1_000_000)`, advancing by the note's
//! micro-hertz frequency every tick and wrapping by the modulus, which is
//! the integer form of wrapping the phase at one period.
//!
//! The run is a two-state machine, Recording then Finalized; finalizing is
//! idempotent, so the sink is closed at most once.  Writing the samples to
//! the output container is the caller's side of the boundary.

use vstd::prelude::*;
use crate::trig::sin_q15;
use crate::trig::spec_sin_q15;
use crate::pitch::spec_trunc_div;
use vstd::arithmetic::div_mod::lemma_fundamental_div_mod;
use vstd::arithmetic::div_mod::lemma_mod_multiples_vanish;
use vstd::arithmetic::div_mod::lemma_small_mod;
use vstd::arithmetic::div_mod::lemma_div_is_ordered;
use vstd::arithmetic::div_mod::lemma_div_multiples_vanish;

verus! {

/// One currently sounding note, owned by the recorder's active-note set.
#[derive(Clone, Copy, PartialEq, Eq, Structural, Debug)]
pub struct ActiveNote {
    /// Oscillator frequency in micro-hertz.
    pub frequency_uhz: u64,
    /// MIDI-style velocity, 0 to 127; scales the note's amplitude.
    pub velocity: u8,
    /// Oscillator phase as a fraction `phase_acc / (sample_rate * 1_000_000)`
    /// of one cycle; wraps at one period.
    pub phase_acc: u64,
    /// Ticks left before the note is retired; positive while the note is
    /// in the set.
    pub remaining_samples: usize,
}

/// Whether the recorder may still generate samples (Recording) or its
/// output has been closed (Finalized).
#[derive(Clone, Copy, PartialEq, Eq, Structural, Debug)]
pub enum RecorderState {
    Recording,
    Finalized,
}

/// Denominator of the phase fraction: micro-cycles per sample at `rate`
/// samples per second.
pub open spec fn spec_cycle_den(rate: int) -> int {
    rate * 1_000_000
}

/// Well-formedness of one active note at sample rate `rate`.
pub open spec fn spec_note_wf(n: ActiveNote, rate: int) -> bool {
    &&& 1 <= n.frequency_uhz <= 0x1000_0000_0000_0000
    &&& n.velocity <= 127
    &&& n.phase_acc < spec_cycle_den(rate)
    &&& 1 <= n.remaining_samples
}

/// Well-formedness of a whole note set.
pub open spec fn spec_notes_wf(s: Seq<ActiveNote>, rate: int) -> bool {
    forall|i: int| 0 <= i < s.len() ==> spec_note_wf(#[trigger] s[i], rate)
}

/// Q15 contribution of one note to the current output sample:
/// sin(2 * pi * phase) * velocity / 127.
pub open spec fn spec_contribution(n: ActiveNote, rate: int) -> int {
    spec_trunc_div(spec_sin_q15(n.phase_acc as int, spec_cycle_den(rate)) * n.velocity, 127)
}

/// Q15 sum of the contributions of every note in the set.
pub open spec fn spec_mix_sum(s: Seq<ActiveNote>, rate: int) -> int
    decreases s.len(),
{
    if s.len() == 0 {
        0
    } else {
        spec_mix_sum(s.drop_last(), rate) + spec_contribution(s.last(), rate)
    }
}

/// Clamp a Q15 sum into the representable signed 16-bit output range.
pub open spec fn spec_clamp_sample(v: int) -> int {
    if v > 32767 {
        32767
    } else if v < -32767 {
        -32767
    } else {
        v
    }
}

/// The output sample of one tick: the clamped mix of the note set as it
/// stood at the start of the tick.
pub open spec fn spec_mixed_sample(s: Seq<ActiveNote>, rate: int) -> int {
    spec_clamp_sample(spec_mix_sum(s, rate))
}

/// One note after one tick: phase advanced by one sample and wrapped,
/// one fewer sample remaining.
pub open spec fn spec_advance_note(n: ActiveNote, rate: int) -> ActiveNote {
    ActiveNote {
        phase_acc: ((n.phase_acc + n.frequency_uhz) % spec_cycle_den(rate)) as u64,
        remaining_samples: (n.remaining_samples - 1) as usize,
        ..n
    }
}

/// The note set after one generation tick: every note advanced, and the
/// notes that just reached zero remaining samples removed, in order.
pub open spec fn spec_tick_notes(s: Seq<ActiveNote>, rate: int) -> Seq<ActiveNote>
    decreases s.len(),
{
    if s.len() == 0 {
        Seq::empty()
    } else {
        let rest = spec_tick_notes(s.drop_last(), rate);
        let adv = spec_advance_note(s.last(), rate);
        if adv.remaining_samples >= 1 {
            rest.push(adv)
        } else {
            rest
        }
    }
}

/// The note set after `k` generation ticks.
pub open spec fn spec_ticks(s: Seq<ActiveNote>, rate: int, k: nat) -> Seq<ActiveNote>
    decreases k,
{
    if k == 0 {
        s
    } else {
        spec_tick_notes(spec_ticks(s, rate, (k - 1) as nat), rate)
    }
}

/// One note after `k` ticks: phase advanced by `k` samples and wrapped,
/// `k` fewer samples remaining.
pub open spec fn spec_advance_note_by(n: ActiveNote, rate: int, k: nat) -> ActiveNote {
    ActiveNote {
        phase_acc: ((n.phase_acc + k * n.frequency_uhz) % spec_cycle_den(rate)) as u64,
        remaining_samples: (n.remaining_samples - k) as usize,
        ..n
    }
}

/// The notes of `s` that outlive `k` ticks — those that started with more
/// than `k` remaining samples — each advanced `k` times, in order.
pub open spec fn spec_surviving(s: Seq<ActiveNote>, rate: int, k: nat) -> Seq<ActiveNote>
    decreases s.len(),
{
    if s.len() == 0 {
        Seq::empty()
    } else {
        let rest = spec_surviving(s.drop_last(), rate, k);
        if s.last().remaining_samples > k {
            rest.push(spec_advance_note_by(s.last(), rate, k))
        } else {
            rest
        }
    }
}

/// Advancing a surviving note one more tick is the same as advancing it
/// `k + 1` ticks at once.
proof fn lemma_advance_compose(n: ActiveNote, rate: int, k: nat)
    requires
        spec_note_wf(n, rate),
        1 <= rate <= 0xFFFF_FFFF,
        n.remaining_samples > k,
    ensures
        spec_advance_note(spec_advance_note_by(n, rate, k), rate) == spec_advance_note_by(
            n,
            rate,
            (k + 1) as nat,
        ),
{
    let den = spec_cycle_den(rate);
    let f = n.frequency_uhz as int;
    let aa = n.phase_acc + k * f;
    assert(0 <= k * f) by (nonlinear_arith)
        requires
            0 <= k,
            0 <= f,
    ;
    lemma_fundamental_div_mod(aa, den);
    lemma_mod_multiples_vanish(aa / den, aa % den + f, den);
    assert((k + 1) * f == k * f + f) by (nonlinear_arith);
    assert(den * (aa / den) + (aa % den + f) == aa + f);
    assert((aa % den + f) % den == (aa + f) % den);
}

/// After the next tick, the survivors of `k` ticks are exactly the
/// survivors of `k + 1` ticks.
proof fn lemma_tick_surviving(s: Seq<ActiveNote>, rate: int, k: nat)
    requires
        spec_notes_wf(s, rate),
        1 <= rate <= 0xFFFF_FFFF,
    ensures
        spec_tick_notes(spec_surviving(s, rate, k), rate) == spec_surviving(
            s,
            rate,
            (k + 1) as nat,
        ),
    decreases s.len(),
{
    if s.len() == 0 {
        assert(spec_tick_notes(spec_surviving(s, rate, k), rate) =~= spec_surviving(
            s,
            rate,
            (k + 1) as nat,
        ));
    } else {
        let rest = s.drop_last();
        assert(spec_notes_wf(rest, rate)) by {
            assert(forall|i: int| 0 <= i < rest.len() ==> rest[i] == s[i]);
        }
        lemma_tick_surviving(rest, rate, k);
        let last = s.last();
        assert(spec_note_wf(last, rate));
        if last.remaining_samples > k {
            let y = spec_advance_note_by(last, rate, k);
            let whole = spec_surviving(s, rate, k);
            assert(whole == spec_surviving(rest, rate, k).push(y));
            assert(whole.drop_last() =~= spec_surviving(rest, rate, k));
            assert(whole.last() == y);
            lemma_advance_compose(last, rate, k);
        } else {
            assert(spec_surviving(s, rate, k) == spec_surviving(rest, rate, k));
            assert(spec_surviving(s, rate, (k + 1) as nat) == spec_surviving(
                rest,
                rate,
                (k + 1) as nat,
            ));
        }
    }
}

/// Zero ticks leave a well-formed note set unchanged.
proof fn lemma_surviving_zero(s: Seq<ActiveNote>, rate: int)
    requires
        spec_notes_wf(s, rate),
        1 <= rate <= 0xFFFF_FFFF,
    ensures
        spec_surviving(s, rate, 0) == s,
    decreases s.len(),
{
    if s.len() == 0 {
        assert(spec_surviving(s, rate, 0) =~= s);
    } else {
        let rest = s.drop_last();
        assert(spec_notes_wf(rest, rate)) by {
            assert(forall|i: int| 0 <= i < rest.len() ==> rest[i] == s[i]);
        }
        lemma_surviving_zero(rest, rate);
        assert(spec_note_wf(s.last(), rate));
        lemma_small_mod(s.last().phase_acc as nat, spec_cycle_den(rate) as nat);
        assert(spec_advance_note_by(s.last(), rate, 0) == s.last());
        assert(spec_surviving(s, rate, 0) =~= s);
    }
}

/// The life of every note, in closed form: after `k` generation ticks the
/// active set holds exactly the notes that started with more than `k`
/// remaining samples, each advanced `k` times, in their original order.
/// So a note added with duration D is present for the first D ticks and
/// absent from tick D onward — removed in the tick its countdown reaches
/// zero, never earlier and never later.
pub proof fn lemma_ticks_closed_form(s: Seq<ActiveNote>, rate: int, k: nat)
    requires
        spec_notes_wf(s, rate),
        1 <= rate <= 0xFFFF_FFFF,
    ensures
        spec_ticks(s, rate, k) == spec_surviving(s, rate, k),
    decreases k,
{
    if k == 0 {
        lemma_surviving_zero(s, rate);
    } else {
        lemma_ticks_closed_form(s, rate, (k - 1) as nat);
        lemma_tick_surviving(s, rate, (k - 1) as nat);
    }
}

/// Helper: a note that outlives `k` ticks is found, advanced, among the
/// survivors.
proof fn lemma_surviving_contains(s: Seq<ActiveNote>, rate: int, k: nat, i: int)
    requires
        spec_notes_wf(s, rate),
        1 <= rate <= 0xFFFF_FFFF,
        0 <= i < s.len(),
        s[i].remaining_samples > k,
    ensures
        spec_surviving(s, rate, k).contains(spec_advance_note_by(s[i], rate, k)),
    decreases s.len(),
{
    let x = spec_advance_note_by(s[i], rate, k);
    let whole = spec_surviving(s, rate, k);
    if i == s.len() - 1 {
        assert(whole.last() == x);
        assert(whole[whole.len() - 1] == x);
    } else {
        let rest = s.drop_last();
        assert(spec_notes_wf(rest, rate)) by {
            assert(forall|j: int| 0 <= j < rest.len() ==> rest[j] == s[j]);
        }
        assert(rest[i] == s[i]);
        lemma_surviving_contains(rest, rate, k, i);
        let prev = spec_surviving(rest, rate, k);
        let j = choose|j: int| 0 <= j < prev.len() && prev[j] == x;
        assert(whole[j] == x);
    }
}

/// A note that started with more than `k` remaining samples is still in
/// the set after `k` ticks, advanced `k` times.
pub proof fn lemma_note_present(s: Seq<ActiveNote>, rate: int, k: nat, i: int)
    requires
        spec_notes_wf(s, rate),
        1 <= rate <= 0xFFFF_FFFF,
        0 <= i < s.len(),
        s[i].remaining_samples > k,
    ensures
        spec_ticks(s, rate, k).contains(spec_advance_note_by(s[i], rate, k)),
{
    lemma_ticks_closed_form(s, rate, k);
    lemma_surviving_contains(s, rate, k, i);
}

/// Helper: when nothing outlives `k` ticks, no survivors remain.
proof fn lemma_surviving_empty(s: Seq<ActiveNote>, rate: int, k: nat)
    requires
        forall|i: int| 0 <= i < s.len() ==> (#[trigger] s[i]).remaining_samples <= k,
    ensures
        spec_surviving(s, rate, k).len() == 0,
    decreases s.len(),
{
    if s.len() > 0 {
        let rest = s.drop_last();
        assert(forall|i: int| 0 <= i < rest.len() ==> rest[i] == s[i]);
        lemma_surviving_empty(rest, rate, k);
    }
}

/// When every note's duration is at most `k`, the set is empty after `k`
/// ticks: nothing outstays its countdown.
pub proof fn lemma_notes_all_retired(s: Seq<ActiveNote>, rate: int, k: nat)
    requires
        spec_notes_wf(s, rate),
        1 <= rate <= 0xFFFF_FFFF,
        forall|i: int| 0 <= i < s.len() ==> (#[trigger] s[i]).remaining_samples <= k,
    ensures
        spec_ticks(s, rate, k).len() == 0,
{
    lemma_ticks_closed_form(s, rate, k);
    lemma_surviving_empty(s, rate, k);
}

/// The polyphonic mixing and recording engine: a set of active notes and
/// a two-state run.  The output sink itself lives outside the core; the
/// core decides every sample value and when the sink may be finalized.
pub struct Recorder {
    /// Output sample rate in samples per second; fixed at construction.
    pub sample_rate: u32,
    /// The currently sounding notes.  Shared with the note-arrival path in
    /// a concurrent run, so all access goes through `&mut self` methods
    /// (callers hold the lock around them).
    pub active_notes: Vec<ActiveNote>,
    /// Recording until finalized; finalizing twice is a no-op.
    pub state: RecorderState,
}

impl Recorder {
    /// Recorder well-formedness: a positive sample rate and a well-formed
    /// note set of bounded size.
    pub open spec fn wf(self) -> bool {
        &&& 1 <= self.sample_rate
        &&& self.active_notes@.len() <= 0xFFFF_FFFF
        &&& spec_notes_wf(self.active_notes@, self.sample_rate as int)
    }

    /// A fresh recorder, ready to record at `sample_rate`.
    pub fn new(sample_rate: u32) -> (r: Recorder)
        requires
            1 <= sample_rate,
        ensures
            r.wf(),
            r.sample_rate == sample_rate,
            r.active_notes@ == Seq::<ActiveNote>::empty(),
            r.state is Recording,
    {
        Recorder { sample_rate, active_notes: Vec::new(), state: RecorderState::Recording }
    }

    /// The duration of a note in generation ticks: duration_ms / 1000
    /// seconds at `rate` ticks per second, rounded to the nearest tick.
    pub open spec fn spec_duration_samples(duration_ms: int, rate: int) -> int {
        (duration_ms * rate + 500) / 1000
    }

    /// Add a note to the active set with phase 0 and a duration given in
    /// milliseconds.  A duration that rounds to zero ticks adds nothing:
    /// every note in the set has at least one tick to sound.
    pub fn add_note(&mut self, frequency_uhz: u64, velocity: u8, duration_ms: u64)
        requires
            old(self).wf(),
            1 <= frequency_uhz <= 0x1000_0000_0000_0000,
            velocity <= 127,
            duration_ms <= 0xFFFF_FFFF_FFFF,
            old(self).active_notes@.len() < 0xFFFF_FFFF,
            Self::spec_duration_samples(duration_ms as int, old(self).sample_rate as int)
                <= usize::MAX,
        ensures
            final(self).wf(),
            final(self).sample_rate == old(self).sample_rate,
            final(self).state == old(self).state,
            ({
                let dur = Self::spec_duration_samples(
                    duration_ms as int,
                    old(self).sample_rate as int,
                );
                if dur >= 1 {
                    final(self).active_notes@ == old(self).active_notes@.push(
                        ActiveNote {
                            frequency_uhz,
                            velocity,
                            phase_acc: 0,
                            remaining_samples: dur as usize,
                        },
                    )
                } else {
                    final(self).active_notes@ == old(self).active_notes@
                }
            }),
    {
        assert((duration_ms as int) * (self.sample_rate as int) <= 0xFFFF_FFFF_FFFF
            * 0xFFFF_FFFF) by (nonlinear_arith)
            requires
                duration_ms <= 0xFFFF_FFFF_FFFF,
                self.sample_rate <= 0xFFFF_FFFF,
        ;
        let num: u128 = (duration_ms as u128) * (self.sample_rate as u128) + 500;
        let dur: u128 = num / 1000;
        proof {
            lemma_div_is_ordered(num as int, 0xFFFF_FFFF_FFFFint * 0xFFFF_FFFF + 500, 1000);
        }
        if dur >= 1 {
            let note = ActiveNote {
                frequency_uhz,
                velocity,
                phase_acc: 0,
                remaining_samples: dur as usize,
            };
            self.active_notes.push(note);
        }
    }

    /// Generate one output sample: mix every active note as the set stands,
    /// then advance each note's phase and countdown, retiring the notes
    /// whose remaining duration just reached zero (mark-then-compact: the
    /// scan never skips a note).  The result is the Q15 mix clamped to the
    /// signed 16-bit range.
    pub fn generate_sample(&mut self) -> (s: i16)
        requires
            old(self).wf(),
            old(self).state is Recording,
        ensures
            final(self).wf(),
            final(self).sample_rate == old(self).sample_rate,
            final(self).state == old(self).state,
            final(self).active_notes@ == spec_tick_notes(
                old(self).active_notes@,
                old(self).sample_rate as int,
            ),
            s == spec_mixed_sample(old(self).active_notes@, old(self).sample_rate as int),
    {
        let rate: u32 = self.sample_rate;
        let den: u64 = (rate as u64) * 1_000_000;
        let n: usize = self.active_notes.len();
        let mut sum: i64 = 0;
        let mut kept: Vec<ActiveNote> = Vec::new();
        let mut i: usize = 0;
        while i < n
            invariant
                i <= n == old(self).active_notes@.len() <= 0xFFFF_FFFF,
                self == old(self),
                1 <= rate == old(self).sample_rate,
                den == spec_cycle_den(rate as int),
                spec_notes_wf(old(self).active_notes@, rate as int),
                sum == spec_mix_sum(old(self).active_notes@.take(i as int), rate as int),
                -32768 * (i as int) <= sum <= 32768 * (i as int),
                kept@ == spec_tick_notes(old(self).active_notes@.take(i as int), rate as int),
                kept@.len() <= i,
                spec_notes_wf(kept@, rate as int),
            decreases n - i,
        {
            let note: ActiveNote = self.active_notes[i];
            assert(note == old(self).active_notes@[i as int]);
            let sv: i32 = sin_q15(note.phase_acc, den);
            assert(-32768 * 127 <= (sv as int) * (note.velocity as int) <= 32768 * 127)
                by (nonlinear_arith)
                requires
                    -32768 <= sv <= 32768,
                    0 <= note.velocity <= 127,
            ;
            let prod: i64 = (sv as i64) * (note.velocity as i64);
            let note_sample: i64 = if prod >= 0 {
                let q: u64 = (prod as u64) / 127;
                proof {
                    lemma_div_is_ordered(prod as int, 127int * 32768, 127);
                    lemma_div_multiples_vanish(32768, 127);
                }
                q as i64
            } else {
                let q: u64 = ((-prod) as u64) / 127;
                proof {
                    lemma_div_is_ordered((-prod) as int, 127int * 32768, 127);
                    lemma_div_multiples_vanish(32768, 127);
                }
                -(q as i64)
            };
            assert(note_sample == spec_contribution(note, rate as int));
            assert(-32768 <= note_sample <= 32768);
            sum = sum + note_sample;
            let new_phase: u64 = (note.phase_acc + note.frequency_uhz) % den;
            let rem: usize = note.remaining_samples - 1;
            if rem >= 1 {
                kept.push(
                    ActiveNote {
                        frequency_uhz: note.frequency_uhz,
                        velocity: note.velocity,
                        phase_acc: new_phase,
                        remaining_samples: rem,
                    },
                );
            }
            i = i + 1;
            proof {
                let pre = old(self).active_notes@.take(i - 1);
                let cur = old(self).active_notes@.take(i as int);
                assert(cur.drop_last() =~= pre);
                assert(cur.last() == note);
            }
        }
        proof {
            assert(old(self).active_notes@.take(n as int) =~= old(self).active_notes@);
        }
        self.active_notes = kept;
        if sum > 32767 {
            32767
        } else if sum < -32767 {
            -32767
        } else {
            sum as i16
        }
    }

    /// Close the run.  The first call moves the recorder to Finalized and
    /// reports that finalization work (closing the sink) is owed; any
    /// later call changes nothing and reports that nothing is owed, so a
    /// second finalize is a no-op, not an error.
    pub fn finalize(&mut self) -> (performed: bool)
        ensures
            final(self).state is Finalized,
            final(self).sample_rate == old(self).sample_rate,
            final(self).active_notes@ == old(self).active_notes@,
            performed == (old(self).state is Recording),
            old(self).state is Finalized ==> *final(self) == *old(self),
    {
        match self.state {
            RecorderState::Recording => {
                self.state = RecorderState::Finalized;
                true
            },
            RecorderState::Finalized => false,
        }
    }

    /// Run the counted generation loop for `count` ticks, returning the
    /// synthesized samples in order.  This is the compute side of a
    /// recording run: the caller writes each sample to the output sink
    /// and stops on the first write failure rather than skip samples.
    pub fn generate_samples(&mut self, count: usize) -> (out: Vec<i16>)
        requires
            old(self).wf(),
            old(self).state is Recording,
        ensures
            final(self).wf(),
            final(self).sample_rate == old(self).sample_rate,
            final(self).state == old(self).state,
            out@.len() == count,
            final(self).active_notes@ == spec_ticks(
                old(self).active_notes@,
                old(self).sample_rate as int,
                count as nat,
            ),
            forall|j: int|
                0 <= j < count ==> out@[j] == spec_mixed_sample(
                    spec_ticks(old(self).active_notes@, old(self).sample_rate as int, j as nat),
                    old(self).sample_rate as int,
                ),
    {
        let mut out: Vec<i16> = Vec::new();
        let mut t: usize = 0;
        while t < count
            invariant
                t <= count,
                self.wf(),
                self.sample_rate == old(self).sample_rate,
                self.state == old(self).state,
                old(self).state is Recording,
                out@.len() == t,
                self.active_notes@ == spec_ticks(
                    old(self).active_notes@,
                    old(self).sample_rate as int,
                    t as nat,
                ),
                forall|j: int|
                    0 <= j < t ==> out@[j] == spec_mixed_sample(
                        spec_ticks(
                            old(self).active_notes@,
                            old(self).sample_rate as int,
                            j as nat,
                        ),
                        old(self).sample_rate as int,
                    ),
            decreases count - t,
        {
            let s: i16 = self.generate_sample();
            out.push(s);
            t = t + 1;
        }
        out
    }
}

} // verus!
