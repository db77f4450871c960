use notewave::recorder::Recorder;
use notewave::recorder::RecorderState;

/// add_note converts milliseconds to ticks at the sample rate, rounding
/// to the nearest tick, and inserts the note with phase 0.
#[test]
fn add_note_duration_in_ticks() {
    let mut r = Recorder::new(44100);
    r.add_note(440_000_000, 100, 500);
    assert_eq!(r.active_notes.len(), 1);
    assert_eq!(r.active_notes[0].remaining_samples, 22050);
    assert_eq!(r.active_notes[0].phase_acc, 0);
    assert_eq!(r.active_notes[0].velocity, 100);
    assert_eq!(r.active_notes[0].frequency_uhz, 440_000_000);
}

/// A duration that rounds to zero ticks adds no note: nothing with a
/// zero countdown ever enters the set.
#[test]
fn add_note_zero_duration_ignored() {
    let mut r = Recorder::new(100);
    r.add_note(440_000_000, 100, 4);  // 0.4 ticks rounds to 0
    assert_eq!(r.active_notes.len(), 0);
    r.add_note(440_000_000, 100, 5);  // 0.5 ticks rounds to 1
    assert_eq!(r.active_notes.len(), 1);
    assert_eq!(r.active_notes[0].remaining_samples, 1);
}

/// A note added with D ticks of duration is present for ticks 1..D and
/// gone from tick D onward, never earlier.
#[test]
fn note_lifetime_exact() {
    let mut r = Recorder::new(100);
    r.add_note(1_000_000, 100, 50);  // 5 ticks
    assert_eq!(r.active_notes[0].remaining_samples, 5);
    for tick in 1..=4u32 {
        r.generate_sample();
        assert_eq!(r.active_notes.len(), 1, "note missing after tick {}", tick);
        assert_eq!(r.active_notes[0].remaining_samples, 5 - tick as usize);
    }
    r.generate_sample();
    assert_eq!(r.active_notes.len(), 0, "note must retire on its last tick");
    // further ticks stay silent and empty
    assert_eq!(r.generate_sample(), 0);
    assert_eq!(r.active_notes.len(), 0);
}

/// Two equal notes at full velocity overflow the unit range; the clamp
/// engages and the output stays at the signed 16-bit rails instead of
/// wrapping.
#[test]
fn clamp_engages_on_two_full_notes() {
    // 1 Hz notes at 4 samples per second: phases hit 0, 1/4, 1/2, 3/4
    let mut r = Recorder::new(4);
    r.add_note(1_000_000, 127, 10_000);
    r.add_note(1_000_000, 127, 10_000);
    assert_eq!(r.generate_sample(), 0);       // sin 0 + sin 0
    assert_eq!(r.generate_sample(), 32767);   // 32768 + 32768, clamped
    assert_eq!(r.generate_sample(), 0);       // sin half turn
    assert_eq!(r.generate_sample(), -32767);  // -32768 - 32768, clamped
}

/// One note at full velocity peaks at the positive rail without needing
/// the clamp margin; velocity scales the amplitude.
#[test]
fn velocity_scales_amplitude() {
    let mut full = Recorder::new(4);
    full.add_note(1_000_000, 127, 10_000);
    full.generate_sample();
    assert_eq!(full.generate_sample(), 32767);  // lone 32768 clamps to the rail

    let mut half = Recorder::new(4);
    half.add_note(1_000_000, 64, 10_000);
    half.generate_sample();
    // 32768 * 64 / 127 truncated
    assert_eq!(half.generate_sample(), 16513);
}

/// Finalizing is idempotent: the first call closes the run and reports
/// work owed, the second changes nothing and reports none (no second
/// header write, no panic).
#[test]
fn finalize_twice_is_a_no_op() {
    let mut r = Recorder::new(44100);
    r.add_note(440_000_000, 100, 500);
    assert_eq!(r.state, RecorderState::Recording);
    assert!(r.finalize());
    assert_eq!(r.state, RecorderState::Finalized);
    let notes_before = r.active_notes.len();
    assert!(!r.finalize());
    assert_eq!(r.state, RecorderState::Finalized);
    assert_eq!(r.active_notes.len(), notes_before);
}

/// The counted generation loop emits exactly one sample per tick and
/// retires every note whose duration has elapsed.
#[test]
fn generate_samples_counted_run() {
    let mut r = Recorder::new(100);
    r.add_note(2_000_000, 100, 30);  // 3 ticks
    let out = r.generate_samples(10);
    assert_eq!(out.len(), 10);
    assert_eq!(r.active_notes.len(), 0);
    // after the note expires, the mix is silence
    assert!(out[3..].iter().all(|&s| s == 0));
}
