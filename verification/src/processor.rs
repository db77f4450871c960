//! The detection pipeline: windowing, tapering, pitch detection and note
//! quantization, chunk by chunk.
//!
//! The capture boundary hands the processor raw PCM chunks; the processor
//! accumulates them, drains every full analysis window, tapers it, runs
//! the autocorrelation estimator, quantizes the estimate to a MIDI note,
//! and keeps the notes inside the playable piano range 21 to 108 (the
//! range policy lives here, at the call site — the conversion itself
//! rejects only what falls outside the full MIDI range).  Each kept note
//! leaves the pipeline as an explicit event message, decoupling detection
//! from the mixer and the MIDI transport.
//!
//! A window with no usable pitch is an expected miss and produces no
//! event.  The spectral-peak estimator can stand in for autocorrelation
//! where a frequency-domain transform of the window is available; its
//! bin-picking half lives in `pitch`.

use vstd::prelude::*;
use crate::windowing::WindowingStage;
use crate::windowing::spec_hamming_tapered;
use crate::pitch::detect_pitch_autocorrelation;
use crate::pitch::spec_detect_autocorrelation;
use crate::notes::frequency_to_midi_note_number;
use crate::notes::spec_frequency_to_note;

verus! {

/// A detected, quantized note leaving the pipeline: the message from the
/// detector to the mixer and the MIDI transport.
#[derive(Clone, Copy, PartialEq, Eq, Structural, Debug)]
pub struct NoteEvent {
    /// Quantized MIDI note number, inside the playable range.
    pub note_number: u8,
    /// The frequency estimate the note came from, in micro-hertz.
    pub frequency_uhz: u64,
}

/// The playable piano range the pipeline keeps, notes 21 (A0) to
/// 108 (C8); detections outside it are silently dropped.
pub open spec fn spec_playable(note: int) -> bool {
    21 <= note <= 108
}

/// The event one raw (untapered) window yields: taper it, estimate the
/// pitch by autocorrelation, quantize, and keep only playable notes.
pub open spec fn spec_window_event(w: Seq<i16>, rate: int) -> Option<NoteEvent> {
    match spec_detect_autocorrelation(spec_hamming_tapered(w), rate) {
        Some(f) => match spec_frequency_to_note(f as int) {
            Some(n) => if spec_playable(n as int) {
                Some(NoteEvent { note_number: n, frequency_uhz: f })
            } else {
                None
            },
            None => None,
        },
        None => None,
    }
}

/// Every event the buffered samples yield, in window order: one window of
/// `wsize` samples per `step` of buffer advance, as long as a full window
/// remains.
pub open spec fn spec_drained_events(b: Seq<i16>, wsize: int, step: int, rate: int) -> Seq<
    NoteEvent,
>
    recommends
        1 <= step <= wsize,
    decreases b.len(),
    when 1 <= step <= wsize
{
    if b.len() < wsize {
        Seq::empty()
    } else {
        let ev = spec_window_event(b.take(wsize), rate);
        let rest = spec_drained_events(b.skip(step), wsize, step, rate);
        match ev {
            Some(e) => seq![e] + rest,
            None => rest,
        }
    }
}

/// What stays in the buffer once every full window has been drained.
pub open spec fn spec_residue(b: Seq<i16>, wsize: int, step: int) -> Seq<i16>
    recommends
        1 <= step <= wsize,
    decreases b.len(),
    when 1 <= step <= wsize
{
    if b.len() < wsize {
        b
    } else {
        spec_residue(b.skip(step), wsize, step)
    }
}

/// The pipeline from raw PCM chunks to note events.
pub struct AudioProcessor {
    /// Rolling window slicer; its window and step are fixed across the run.
    pub windowing: WindowingStage,
    /// Capture sample rate in samples per second.
    pub sample_rate: u32,
}

impl AudioProcessor {
    /// Processor well-formedness: a well-formed windowing stage whose
    /// window fits the detector's input bound, and a positive rate.
    pub open spec fn wf(self) -> bool {
        &&& self.windowing.wf()
        &&& self.windowing.window_size <= 0x1000_0000
        &&& 1 <= self.sample_rate
    }

    /// A fresh pipeline: analysis windows of `window_size` samples,
    /// advancing `step_size` samples per window (equal for no overlap,
    /// half for 50% overlap).
    pub fn new(sample_rate: u32, window_size: usize, step_size: usize) -> (r: AudioProcessor)
        requires
            1 <= sample_rate,
            1 <= window_size <= 0x1000_0000,
            1 <= step_size <= window_size,
        ensures
            r.wf(),
            r.sample_rate == sample_rate,
            r.windowing.window_size == window_size,
            r.windowing.step_size == step_size,
            r.windowing.buf@ == Seq::<i16>::empty(),
    {
        AudioProcessor { windowing: WindowingStage::new(window_size, step_size), sample_rate }
    }

    /// Feed one captured chunk through the pipeline: buffer it, drain and
    /// analyze every full window, and return the note events detected, in
    /// order.  Must leave fewer than one window buffered, and does.
    pub fn process_chunk(&mut self, samples: &Vec<i16>) -> (events: Vec<NoteEvent>)
        requires
            old(self).wf(),
        ensures
            final(self).wf(),
            final(self).sample_rate == old(self).sample_rate,
            final(self).windowing.window_size == old(self).windowing.window_size,
            final(self).windowing.step_size == old(self).windowing.step_size,
            ({
                let b = old(self).windowing.buf@ + samples@;
                let w = old(self).windowing.window_size as int;
                let st = old(self).windowing.step_size as int;
                &&& final(self).windowing.buf@ == spec_residue(b, w, st)
                &&& events@ == spec_drained_events(b, w, st, old(self).sample_rate as int)
            }),
    {
        self.windowing.push(samples);
        let ghost b0: Seq<i16> = old(self).windowing.buf@ + samples@;
        let ghost w: int = old(self).windowing.window_size as int;
        let ghost st: int = old(self).windowing.step_size as int;
        let ghost rate: int = old(self).sample_rate as int;
        let mut events: Vec<NoteEvent> = Vec::new();
        proof {
            assert(events@ + spec_drained_events(b0, w, st, rate) =~= spec_drained_events(
                b0,
                w,
                st,
                rate,
            ));
        }
        while self.windowing.buf.len() >= self.windowing.window_size
            invariant
                self.wf(),
                self.sample_rate == old(self).sample_rate,
                self.windowing.window_size == old(self).windowing.window_size,
                self.windowing.step_size == old(self).windowing.step_size,
                w == old(self).windowing.window_size as int,
                st == old(self).windowing.step_size as int,
                rate == old(self).sample_rate as int,
                spec_residue(b0, w, st) == spec_residue(self.windowing.buf@, w, st),
                spec_drained_events(b0, w, st, rate) == events@ + spec_drained_events(
                    self.windowing.buf@,
                    w,
                    st,
                    rate,
                ),
            decreases self.windowing.buf@.len(),
        {
            let ghost buf_before: Seq<i16> = self.windowing.buf@;
            let ghost events_before: Seq<NoteEvent> = events@;
            let taken = self.windowing.try_take_tapered_window();
            let window: Vec<i16> = match taken {
                Some(window) => window,
                None => vstd::pervasive::unreached(),
            };
            proof {
                assert(buf_before.subrange(0, w) =~= buf_before.take(w));
                assert(buf_before.subrange(st, buf_before.len() as int) =~= buf_before.skip(st));
                assert(window@ == spec_hamming_tapered(buf_before.take(w)));
            }
            let estimate = detect_pitch_autocorrelation(&window, self.sample_rate);
            match estimate {
                Some(f) => {
                    match frequency_to_midi_note_number(f) {
                        Some(n) => {
                            if 21 <= n && n <= 108 {
                                events.push(NoteEvent { note_number: n, frequency_uhz: f });
                            }
                        },
                        None => {},
                    }
                },
                None => {},
            }
            proof {
                let ev = spec_window_event(buf_before.take(w), rate);
                match ev {
                    Some(e) => {
                        assert(events@ =~= events_before.push(e));
                        assert(events_before.push(e) + spec_drained_events(
                            self.windowing.buf@,
                            w,
                            st,
                            rate,
                        ) =~= events_before + (seq![e] + spec_drained_events(
                            self.windowing.buf@,
                            w,
                            st,
                            rate,
                        )));
                    },
                    None => {
                        assert(events@ =~= events_before);
                    },
                }
            }
        }
        proof {
            assert(spec_drained_events(self.windowing.buf@, w, st, rate) =~= Seq::<
                NoteEvent,
            >::empty());
            assert(events@ + Seq::<NoteEvent>::empty() =~= events@);
        }
        events
    }
}

} // verus!
