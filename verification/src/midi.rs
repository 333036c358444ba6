//! Turning note events into MIDI wire messages. The byte encoding itself
//! comes from the `midi_control` crate; this module states what it
//! produces and keeps sustain continuations and out-of-range channels away
//! from the wire.
use vstd::prelude::*;

use crate::grid::MidiNoteCmd;
use crate::TrackerError;

verus! {

/// Relies on midi_control: `Vec::from(MidiMessage::NoteOn(ch, key))`
/// encodes as the three bytes `[0x90 | channel, key, velocity]`, where
/// `Channel::from(c)` for `c < 16` is the channel with that number.
#[verifier::external_body]
fn encode_note_on(channel: u8, key: u8, velocity: u8) -> (r: Vec<u8>)
    requires
        channel < 16,
    ensures
        r@ == seq![0x90u8 | channel, key, velocity],
{
    let msg = midi_control::MidiMessage::NoteOn(
        midi_control::Channel::from(channel),
        midi_control::KeyEvent { key, value: velocity },
    );
    Vec::from(msg)
}

/// Relies on midi_control: `Vec::from(MidiMessage::NoteOff(ch, key))`
/// encodes as the three bytes `[0x80 | channel, key, velocity]`, where
/// `Channel::from(c)` for `c < 16` is the channel with that number.
#[verifier::external_body]
fn encode_note_off(channel: u8, key: u8, velocity: u8) -> (r: Vec<u8>)
    requires
        channel < 16,
    ensures
        r@ == seq![0x80u8 | channel, key, velocity],
{
    let msg = midi_control::MidiMessage::NoteOff(
        midi_control::Channel::from(channel),
        midi_control::KeyEvent { key, value: velocity },
    );
    Vec::from(msg)
}

/// The wire message for one note event on one MIDI sub-channel:
/// `Ok(Some(bytes))` for a note start or end, `Ok(None)` for a sustain
/// continuation (suppressed, never re-triggered), and
/// `Err(EventDeliveryFailure)` when the sub-channel is outside the 16 MIDI
/// channels and nothing can be delivered.
pub fn note_message(note: MidiNoteCmd, channel: u8) -> (r: Result<
    Option<Vec<u8>>,
    TrackerError,
>)
    ensures
        channel >= 16 ==> r == Err::<Option<Vec<u8>>, TrackerError>(
            TrackerError::EventDeliveryFailure,
        ),
        channel < 16 ==> match note {
            MidiNoteCmd::PlayNote((key, vel)) => r matches Ok(Some(b)) && b@ == seq![
                0x90u8 | channel,
                key,
                vel,
            ],
            MidiNoteCmd::StopNote(key) => r matches Ok(Some(b)) && b@ == seq![
                0x80u8 | channel,
                key,
                0u8,
            ],
            MidiNoteCmd::HoldNote => r == Ok::<Option<Vec<u8>>, TrackerError>(None),
        },
{
    if channel >= 16 {
        return Err(TrackerError::EventDeliveryFailure);
    }
    match note {
        MidiNoteCmd::PlayNote((key, vel)) => Ok(Some(encode_note_on(channel, key, vel))),
        MidiNoteCmd::StopNote(key) => Ok(Some(encode_note_off(channel, key, 0))),
        MidiNoteCmd::HoldNote => Ok(None),
    }
}

} // verus!
