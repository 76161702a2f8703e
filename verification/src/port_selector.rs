//! Construction and inspection of the channel-voice messages the bridge
//! sends to MIDI ports.

use vstd::prelude::*;
use crate::midi::{parse_note, parse_sustain, spec_parse_note, spec_parse_sustain};

verus! {

/// Builds and inspects raw MIDI messages.
pub struct MidiPortSelector;

/// The status byte of `kind` (a multiple of 16) on `channel`; only the low
/// four bits of `channel` count.
pub open spec fn status_byte(kind: u8, channel: u8) -> u8 {
    kind | (channel & 0x0F)
}

impl MidiPortSelector {
    /// Whether `data` is a sustain pedal message.
    pub fn is_sustain_message(data: &[u8]) -> (r: bool)
        ensures
            r == spec_parse_sustain(data@) is Some,
    {
        parse_sustain(data).is_some()
    }

    /// The channel, note and velocity of a note-on or note-off message.
    pub fn extract_note_info(data: &[u8]) -> (r: Option<(u8, u8, u8)>)
        ensures
            r == (match spec_parse_note(data@) {
                Some(n) => Some((n.channel, n.note, n.velocity)),
                None => None,
            }),
    {
        match parse_note(data) {
            Some(note) => Some((note.channel, note.note, note.velocity)),
            None => None,
        }
    }

    /// A note-on message.
    pub fn create_note_on(channel: u8, note: u8, velocity: u8) -> (r: Vec<u8>)
        ensures
            r@ == seq![status_byte(0x90, channel), note, velocity],
    {
        let r = vec![0x90u8 | (channel & 0x0F), note, velocity];
        assert(r@ =~= seq![status_byte(0x90, channel), note, velocity]);
        r
    }

    /// A note-off message.
    pub fn create_note_off(channel: u8, note: u8, velocity: u8) -> (r: Vec<u8>)
        ensures
            r@ == seq![status_byte(0x80, channel), note, velocity],
    {
        let r = vec![0x80u8 | (channel & 0x0F), note, velocity];
        assert(r@ =~= seq![status_byte(0x80, channel), note, velocity]);
        r
    }

    /// A control change message.
    pub fn create_cc(channel: u8, cc: u8, value: u8) -> (r: Vec<u8>)
        ensures
            r@ == seq![status_byte(0xB0, channel), cc, value],
    {
        let r = vec![0xB0u8 | (channel & 0x0F), cc, value];
        assert(r@ =~= seq![status_byte(0xB0, channel), cc, value]);
        r
    }

    /// A program change message.
    pub fn create_program_change(channel: u8, program: u8) -> (r: Vec<u8>)
        ensures
            r@ == seq![status_byte(0xC0, channel), program],
    {
        let r = vec![0xC0u8 | (channel & 0x0F), program];
        assert(r@ =~= seq![status_byte(0xC0, channel), program]);
        r
    }

    /// A pitch bend message.
    pub fn create_pitch_bend(channel: u8, lsb: u8, msb: u8) -> (r: Vec<u8>)
        ensures
            r@ == seq![status_byte(0xE0, channel), lsb, msb],
    {
        let r = vec![0xE0u8 | (channel & 0x0F), lsb, msb];
        assert(r@ =~= seq![status_byte(0xE0, channel), lsb, msb]);
        r
    }
}

/// Law: a note message built here reads back with the same channel, note
/// and velocity (a note-on with velocity zero reads back as a note-off with
/// the same fields).
pub proof fn lemma_note_messages_read_back(channel: u8, note: u8, velocity: u8)
    requires
        channel < 16,
    ensures
        spec_parse_note(seq![status_byte(0x90, channel), note, velocity]) matches Some(n) && n.channel
            == channel && n.note == note && n.velocity == velocity,
        spec_parse_note(seq![status_byte(0x80, channel), note, velocity]) matches Some(n) && n.channel
            == channel && n.note == note && n.velocity == velocity && n.kind
            == crate::midi::MidiKind::NoteOff,
{
    assert((0x90u8 | (channel & 0x0F)) & 0xF0 == 0x90 && (0x90u8 | (channel & 0x0F)) & 0x0F
        == channel) by (bit_vector)
        requires
            channel < 16,
    ;
    assert((0x80u8 | (channel & 0x0F)) & 0xF0 == 0x80 && (0x80u8 | (channel & 0x0F)) & 0x0F
        == channel) by (bit_vector)
        requires
            channel < 16,
    ;
}

/// Law: a control change on controller 64 built here is a sustain message
/// on the same channel, pressed exactly when the value is 64 or more.
pub proof fn lemma_sustain_message_read_back(channel: u8, value: u8)
    requires
        channel < 16,
    ensures
        spec_parse_sustain(seq![status_byte(0xB0, channel), 64u8, value]) == Some(
            crate::midi::SustainMessage { channel, pressed: value >= 64 },
        ),
{
    assert((0xB0u8 | (channel & 0x0F)) & 0xF0 == 0xB0 && (0xB0u8 | (channel & 0x0F)) & 0x0F
        == channel) by (bit_vector)
        requires
            channel < 16,
    ;
}

} // verus!
