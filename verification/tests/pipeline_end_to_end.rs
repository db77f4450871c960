use notewave::capture::AudioCapturer;
use notewave::midi::midi_channel_valid;
use notewave::midi::note_off_message;
use notewave::midi::note_on_message;
use notewave::processor::AudioProcessor;

fn sine_stream(freq_hz: f64, rate: f64, len: usize, amplitude: f64) -> Vec<i16> {
    let mut s = Vec::with_capacity(len);
    for i in 0..len {
        let x = (2.0 * std::f64::consts::PI * freq_hz * i as f64 / rate).sin();
        s.push((x * amplitude * 32767.0) as i16);
    }
    s
}

/// End to end: one second of a 440 Hz sine at 44100 Hz through the
/// pipeline (window 1024, 50% overlap, Hamming taper, autocorrelation)
/// yields an estimate in [435, 445] Hz for every window, and every
/// estimate quantizes to note 69 (A4).
#[test]
fn one_second_of_a4_maps_to_note_69() {
    let rate: u32 = 44100;
    let stream = sine_stream(440.0, rate as f64, rate as usize, 0.6);
    let mut processor = AudioProcessor::new(rate, 1024, 512);
    let mut events = Vec::new();
    for chunk in stream.chunks(4410) {
        let chunk: Vec<i16> = chunk.to_vec();
        events.extend(processor.process_chunk(&chunk));
    }
    // one event per fully buffered window
    let expected_windows = (rate as usize - 1024) / 512 + 1;
    assert_eq!(events.len(), expected_windows);
    for e in &events {
        let hz = e.frequency_uhz as f64 / 1e6;
        assert!((435.0..=445.0).contains(&hz), "estimate {} Hz out of band", hz);
        assert_eq!(e.note_number, 69);
    }
}

/// Detections outside the playable piano range are dropped at the
/// pipeline's call site: a 5 kHz sine quantizes above note 108 and
/// yields no events.
#[test]
fn out_of_piano_range_notes_are_dropped() {
    let rate: u32 = 44100;
    let stream = sine_stream(5000.0, rate as f64, 8192, 0.6);
    let mut processor = AudioProcessor::new(rate, 1024, 1024);
    let events = processor.process_chunk(&stream);
    assert!(events.is_empty(), "expected no playable events, got {:?}", events);
}

/// Silence produces no events: an estimation miss is filtered, not an
/// error.
#[test]
fn silence_produces_no_events() {
    let mut processor = AudioProcessor::new(44100, 1024, 512);
    let events = processor.process_chunk(&vec![0i16; 4096]);
    assert!(events.is_empty());
}

/// MIDI note-event encoding: status byte carries the channel, note-off
/// has velocity 0.
#[test]
fn midi_messages_encode_channel_and_velocity() {
    assert_eq!(note_on_message(0, 69, 100), vec![0x90, 69, 100]);
    assert_eq!(note_on_message(15, 21, 127), vec![0x9F, 21, 127]);
    assert_eq!(note_off_message(0, 69), vec![0x80, 69, 0]);
    assert_eq!(note_off_message(3, 60), vec![0x83, 60, 0]);
    assert!(midi_channel_valid(0));
    assert!(midi_channel_valid(15));
    assert!(!midi_channel_valid(16));
}

/// The capturer remembers which source to open.
#[test]
fn capturer_keeps_source_name() {
    let capturer = AudioCapturer::new("alsa_input.default");
    assert_eq!(capturer.source_name, "alsa_input.default");
}

/// A played note's transport messages come as an ordered pair: the on
/// first, the off (after the held duration) second.
#[test]
fn play_note_message_order() {
    let (on, off) = notewave::midi::play_note_messages(0, 69, 100);
    assert_eq!(on, vec![0x90, 69, 100]);
    assert_eq!(off, vec![0x80, 69, 0]);
}
