//! MIDI note-event encoding for the transcription output.
//!
//! A note-on is the status byte 0x90 plus the output channel, followed by
//! the note number and velocity; a note-off is 0x80 plus the channel,
//! followed by the note number and velocity 0.  The channel must be 0 to
//! 15; sending the bytes is the transport's side of the boundary.

use vstd::prelude::*;

verus! {

/// The three bytes of a note-on event on `channel`.
pub open spec fn spec_note_on_message(channel: u8, note: u8, velocity: u8) -> Seq<u8> {
    seq![(0x90 + channel) as u8, note, velocity]
}

/// The three bytes of a note-off event on `channel`: velocity 0.
pub open spec fn spec_note_off_message(channel: u8, note: u8) -> Seq<u8> {
    seq![(0x80 + channel) as u8, note, 0u8]
}

/// Whether `channel` is a valid MIDI output channel (0 to 15).
pub fn midi_channel_valid(channel: u8) -> (r: bool)
    ensures
        r <==> channel <= 15,
{
    channel <= 15
}

/// Encode a note-on event for the MIDI transport.
pub fn note_on_message(channel: u8, note: u8, velocity: u8) -> (r: Vec<u8>)
    requires
        channel <= 15,
        note <= 127,
        velocity <= 127,
    ensures
        r@ == spec_note_on_message(channel, note, velocity),
{
    let mut r: Vec<u8> = Vec::new();
    r.push(0x90 + channel);
    r.push(note);
    r.push(velocity);
    proof {
        assert(r@ =~= spec_note_on_message(channel, note, velocity));
    }
    r
}

/// Encode a note-off event for the MIDI transport.
pub fn note_off_message(channel: u8, note: u8) -> (r: Vec<u8>)
    requires
        channel <= 15,
        note <= 127,
    ensures
        r@ == spec_note_off_message(channel, note),
{
    let mut r: Vec<u8> = Vec::new();
    r.push(0x80 + channel);
    r.push(note);
    r.push(0);
    proof {
        assert(r@ =~= spec_note_off_message(channel, note));
    }
    r
}

/// The two messages of one played note, in the order the transport must
/// send them: first the note-on, then — only after the note's held
/// duration has elapsed — the matching note-off.  Encoding them as one
/// ordered pair keeps the off from ever preceding its on.
pub fn play_note_messages(channel: u8, note: u8, velocity: u8) -> (r: (Vec<u8>, Vec<u8>))
    requires
        channel <= 15,
        note <= 127,
        velocity <= 127,
    ensures
        r.0@ == spec_note_on_message(channel, note, velocity),
        r.1@ == spec_note_off_message(channel, note),
{
    (note_on_message(channel, note, velocity), note_off_message(channel, note))
}

} // verus!
