//! A step-sequencer ("tracker") engine: a grid of note events played back
//! on a wall-clock beat grid, emitting MIDI note messages per row.
use vstd::prelude::*;

pub mod grid;
pub mod midi;
pub mod player;

verus! {

/// A MIDI note number.
pub type MidiNote = u8;

/// A MIDI sub-channel number (0 to 15 on the wire).
pub type MidiChannel = u8;

/// The argument carried by a command cell.
pub type CmdArg = u32;

/// The symbol of a command cell.
pub type Cmd = char;

/// Index of a channel within a song.
pub type ChannelIndex = u8;

/// Number of rows a freshly created song holds per channel.
pub const LINE_LEN: usize = 0xFFFF;

/// The name of the default virtual MIDI output device.
pub const DEFAULT_MIDI_DEV_NAME: &'static str = "Midi-Tracker";

/// The errors this engine reports. None of them is fatal: grid mutations
/// return them to the editor, and the scheduler reports and swallows them.
#[derive(Clone, Copy, Debug, PartialEq, Eq, Structural)]
pub enum TrackerError {
    /// A channel index lay outside the song's channel count.
    InvalidChannel,
    /// A note cell index lay outside a row's four note cells.
    InvalidCellIndex,
    /// A transport command did not apply to the current transport state.
    InvalidTransportTransition,
    /// A record-head update named an out-of-bounds cell.
    InvalidRecordHead,
    /// An event could not be delivered to the event sink.
    EventDeliveryFailure,
}

} // verus!
