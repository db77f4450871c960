//! Verified core of a monophonic pitch-transcription and polyphonic
//! note-recording engine.
//!
//! Audio samples arrive as signed 16-bit PCM.  A windowing stage slices
//! overlapping analysis windows and tapers them; a pitch detector estimates
//! the fundamental frequency of each window; a note mapper quantizes the
//! estimate to a MIDI note number; and a polyphonic mixer synthesizes the
//! currently active notes one output sample at a time, for a 16-bit PCM
//! output stream.
//!
//! All signal arithmetic is integer fixed point: frequencies are carried in
//! micro-hertz and oscillator amplitudes in Q15 (the value 32768 stands for
//! 1.0), so every step of the pipeline is stated and verified exactly.
//! Device capture, the MIDI transport and the output container are
//! external collaborators and stay outside the library.

pub mod capture;
pub mod midi;
pub mod notes;
pub mod pitch;
pub mod processor;
pub mod recorder;
pub mod trig;
pub mod windowing;
