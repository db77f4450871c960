use notewave::notes::frequency_to_midi_note_number;
use notewave::notes::frequency_to_midi_note_number_to_freq;
use notewave::notes::midi_note_number_to_name;
use notewave::notes::note_frequency_uhz;

/// Exact note frequencies: A4 is exactly 440 Hz and octaves double
/// exactly.
#[test]
fn note_frequencies_exact() {
    assert_eq!(frequency_to_midi_note_number_to_freq(69), Some(440_000_000));
    assert_eq!(frequency_to_midi_note_number_to_freq(57), Some(220_000_000));
    assert_eq!(frequency_to_midi_note_number_to_freq(81), Some(880_000_000));
    assert_eq!(frequency_to_midi_note_number_to_freq(9), Some(13_750_000));
    assert_eq!(frequency_to_midi_note_number_to_freq(128), None);
    assert_eq!(frequency_to_midi_note_number_to_freq(255), None);
}

/// The note table tracks 440 * 2^((n - 69) / 12) hertz to within a
/// micro-hertz per octave doubling.
#[test]
fn note_frequencies_match_formula() {
    for n in 0u32..128 {
        let f = note_frequency_uhz(n) as f64 / 1e6;
        let reference = 440.0 * 2f64.powf((n as f64 - 69.0) / 12.0);
        assert!(
            (f - reference).abs() / reference < 1e-6,
            "note {} gave {} expected {}",
            n,
            f,
            reference
        );
    }
}

/// Quantization picks the nearest note.
#[test]
fn frequency_quantizes_to_nearest_note() {
    assert_eq!(frequency_to_midi_note_number(440_000_000), Some(69));
    assert_eq!(frequency_to_midi_note_number(441_000_000), Some(69));
    assert_eq!(frequency_to_midi_note_number(446_000_000), Some(69));
    assert_eq!(frequency_to_midi_note_number(466_000_000), Some(70));
    // the A4/A#4 rounding boundary is near 452.89 Hz
    assert_eq!(frequency_to_midi_note_number(452_000_000), Some(69));
    assert_eq!(frequency_to_midi_note_number(454_000_000), Some(70));
    assert_eq!(frequency_to_midi_note_number(261_626_000), Some(60));
    assert_eq!(frequency_to_midi_note_number(27_500_000), Some(21));
}

/// Silence and out-of-range frequencies yield no note at all, never a
/// clamped value.
#[test]
fn frequency_rejections() {
    // zero frequency (silence)
    assert_eq!(frequency_to_midi_note_number(0), None);
    // 0.0001 Hz: far below the bottom of the MIDI range
    assert_eq!(frequency_to_midi_note_number(100), None);
    // 1e9 Hz: far above the top of the MIDI range
    assert_eq!(frequency_to_midi_note_number(1_000_000_000_000_000), None);
    // just below the lower boundary of note 0 (about 7.944 Hz)
    assert_eq!(frequency_to_midi_note_number(7_900_000), None);
    assert_eq!(frequency_to_midi_note_number(8_000_000), Some(0));
    // just above the upper boundary of note 127 (about 12911.4 Hz)
    assert_eq!(frequency_to_midi_note_number(13_000_000_000), None);
    assert_eq!(frequency_to_midi_note_number(12_700_000_000), Some(127));
}

/// Round trip: for any frequency that maps to a note, the note's own
/// frequency is within one semitone — the input lies between the
/// neighbouring notes' frequencies.
#[test]
fn round_trip_within_one_semitone() {
    let mut f: u64 = 8_000_000;  // 8 Hz
    while f < 12_900_000_000 {
        if let Some(n) = frequency_to_midi_note_number(f) {
            let own = note_frequency_uhz(n as u32);
            let ratio = f as f64 / own as f64;
            let semitone = 2f64.powf(1.0 / 12.0);
            assert!(
                ratio < semitone && ratio > 1.0 / semitone,
                "f={} note={} own={}",
                f,
                n,
                own
            );
            if n >= 1 {
                assert!(note_frequency_uhz(n as u32 - 1) <= f);
            }
            assert!(f < note_frequency_uhz(n as u32 + 1));
        } else {
            panic!("{} micro-hertz should map to a note", f);
        }
        f = f + f / 37 + 1;
    }
}

/// Note names: chromatic name plus octave, octave -1 for the lowest
/// notes.
#[test]
fn note_names() {
    assert_eq!(midi_note_number_to_name(69), "A4");
    assert_eq!(midi_note_number_to_name(60), "C4");
    assert_eq!(midi_note_number_to_name(61), "C#4");
    assert_eq!(midi_note_number_to_name(0), "C-1");
    assert_eq!(midi_note_number_to_name(11), "B-1");
    assert_eq!(midi_note_number_to_name(12), "C0");
    assert_eq!(midi_note_number_to_name(21), "A0");
    assert_eq!(midi_note_number_to_name(108), "C8");
    assert_eq!(midi_note_number_to_name(127), "G9");
}
