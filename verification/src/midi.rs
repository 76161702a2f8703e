//! MIDI messages: classification of raw channel-voice bytes and construction
//! of the messages the bridge emits.

use vstd::prelude::*;

verus! {

/// Lowest MIDI note that maps to a keyboard parameter (A0).
pub const NOTE_MIN: u8 = 21;
/// Highest MIDI note that maps to a keyboard parameter (C8).
pub const NOTE_MAX: u8 = 108;

/// One raw MIDI message together with the name of the port it came from.
pub struct MidiFrame {
    pub source: String,
    pub timestamp_ms: u64,
    pub data: Vec<u8>,
}

/// Whether a note message presses or releases the key.
#[derive(Clone, Copy, Debug, PartialEq, Eq, Structural)]
pub enum MidiKind {
    NoteOn,
    NoteOff,
}

/// A decoded note message.
#[derive(Clone, Copy, Debug, PartialEq, Eq, Structural)]
pub struct NoteMessage {
    pub kind: MidiKind,
    /// Channel nibble of the status byte (0..=15).
    pub channel: u8,
    pub note: u8,
    pub velocity: u8,
    /// Position of the note on the keyboard (`note - NOTE_MIN`), when it lies
    /// between `NOTE_MIN` and `NOTE_MAX`.
    pub index: Option<u8>,
}

/// A decoded sustain pedal (controller 64) message.
#[derive(Clone, Copy, Debug, PartialEq, Eq, Structural)]
pub struct SustainMessage {
    /// Channel nibble of the status byte (0..=15).
    pub channel: u8,
    pub pressed: bool,
}

pub open spec fn status_type(status: u8) -> u8 {
    status & 0xF0
}

pub open spec fn status_channel(status: u8) -> u8 {
    status & 0x0F
}

pub open spec fn keyboard_index(note: u8) -> Option<u8> {
    if NOTE_MIN <= note && note <= NOTE_MAX {
        Some((note - NOTE_MIN) as u8)
    } else {
        None
    }
}

/// The note message that `data` encodes, if any: a note-on (0x9n with a
/// non-zero velocity) or a note-off (0x8n, or 0x9n with velocity zero), each
/// with its note and velocity bytes present.
pub open spec fn spec_parse_note(data: Seq<u8>) -> Option<NoteMessage> {
    if data.len() < 3 {
        None
    } else {
        let st = status_type(data[0]);
        let kind = if st == 0x90 && data[2] > 0 {
            Some(MidiKind::NoteOn)
        } else if st == 0x80 || st == 0x90 {
            Some(MidiKind::NoteOff)
        } else {
            None
        };
        match kind {
            Some(k) => Some(
                NoteMessage {
                    kind: k,
                    channel: status_channel(data[0]),
                    note: data[1],
                    velocity: data[2],
                    index: keyboard_index(data[1]),
                },
            ),
            None => None,
        }
    }
}

/// The sustain message that `data` encodes, if any: a control change 0xBn
/// on controller 64; the pedal is pressed when the value is 64 or more.
pub open spec fn spec_parse_sustain(data: Seq<u8>) -> Option<SustainMessage> {
    if data.len() >= 3 && status_type(data[0]) == 0xB0 && data[1] == 64 {
        Some(SustainMessage { channel: status_channel(data[0]), pressed: data[2] >= 64 })
    } else {
        None
    }
}

/// A message whose loss would leave a note or the pedal stuck: a note-off,
/// or a sustain release.
pub open spec fn spec_is_critical_release(data: Seq<u8>) -> bool {
    data.len() > 0 && (status_type(data[0]) == 0x80 || (data.len() >= 3 && status_type(data[0])
        == 0x90 && data[2] == 0) || (data.len() >= 3 && status_type(data[0]) == 0xB0 && data[1]
        == 64 && data[2] < 64))
}

fn keyboard_index_of(note: u8) -> (r: Option<u8>)
    ensures
        r == keyboard_index(note),
{
    if NOTE_MIN <= note && note <= NOTE_MAX {
        Some(note - NOTE_MIN)
    } else {
        None
    }
}

/// Decodes a note-on or note-off message.
pub fn parse_note(data: &[u8]) -> (r: Option<NoteMessage>)
    ensures
        r == spec_parse_note(data@),
{
    if data.len() < 3 {
        return None;
    }
    let st = data[0] & 0xF0;
    let kind = if st == 0x90 && data[2] > 0 {
        MidiKind::NoteOn
    } else if st == 0x80 || st == 0x90 {
        MidiKind::NoteOff
    } else {
        return None;
    };
    Some(
        NoteMessage {
            kind,
            channel: data[0] & 0x0F,
            note: data[1],
            velocity: data[2],
            index: keyboard_index_of(data[1]),
        },
    )
}

/// Decodes a sustain pedal message.
pub fn parse_sustain(data: &[u8]) -> (r: Option<SustainMessage>)
    ensures
        r == spec_parse_sustain(data@),
{
    if data.len() >= 3 && data[0] & 0xF0 == 0xB0 && data[1] == 64 {
        Some(SustainMessage { channel: data[0] & 0x0F, pressed: data[2] >= 64 })
    } else {
        None
    }
}

/// Whether `data` is a note-off or a sustain release.
pub fn is_critical_release_message(data: &[u8]) -> (r: bool)
    ensures
        r == spec_is_critical_release(data@),
{
    if data.len() == 0 {
        return false;
    }
    let st = data[0] & 0xF0;
    st == 0x80 || (data.len() >= 3 && st == 0x90 && data[2] == 0) || (data.len() >= 3 && st
        == 0xB0 && data[1] == 64 && data[2] < 64)
}

} // verus!
