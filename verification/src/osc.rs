//! The OSC side of the bridge: which avatar parameter a MIDI frame updates,
//! and the state of the OSC connection.

use vstd::prelude::*;
use crate::midi::{MidiFrame, NOTE_MIN};
use crate::text::{decimal, append_decimal};
use vstd::string::StringExecFns;

verus! {

/// One avatar parameter update sent over OSC.
#[derive(Clone, Copy, Debug, PartialEq, Eq, Structural)]
pub enum OscParamUpdate {
    /// `/avatar/parameters/<number>`.
    Numbered { number: u8, value: bool },
    /// `/avatar/parameters/sustain`.
    Sustain(bool),
    /// `/avatar/parameters/program_change`.
    ProgramChange(bool),
    /// `/avatar/parameters/pitch_bend`.
    PitchBend(bool),
}

pub open spec fn parameters_prefix() -> Seq<char> {
    "/avatar/parameters/"@
}

/// The OSC address of an update.
pub open spec fn spec_update_path(u: OscParamUpdate) -> Seq<char> {
    match u {
        OscParamUpdate::Numbered { number, .. } => parameters_prefix() + decimal(number as nat),
        OscParamUpdate::Sustain(_) => parameters_prefix() + "sustain"@,
        OscParamUpdate::ProgramChange(_) => parameters_prefix() + "program_change"@,
        OscParamUpdate::PitchBend(_) => parameters_prefix() + "pitch_bend"@,
    }
}

impl OscParamUpdate {
    /// The OSC address this update is sent to.
    pub fn path(&self) -> (r: String)
        ensures
            r@ == spec_update_path(*self),
    {
        let mut s = "/avatar/parameters/".to_string();
        match self {
            OscParamUpdate::Numbered { number, .. } => append_decimal(&mut s, *number as u64),
            OscParamUpdate::Sustain(_) => s.append("sustain"),
            OscParamUpdate::ProgramChange(_) => s.append("program_change"),
            OscParamUpdate::PitchBend(_) => s.append("pitch_bend"),
        }
        s
    }

    /// The boolean the update carries.
    pub fn value(&self) -> (r: bool)
        ensures
            r == (match *self {
                OscParamUpdate::Numbered { value, .. } => value,
                OscParamUpdate::Sustain(v) => v,
                OscParamUpdate::ProgramChange(v) => v,
                OscParamUpdate::PitchBend(v) => v,
            }),
    {
        match self {
            OscParamUpdate::Numbered { value, .. } => *value,
            OscParamUpdate::Sustain(v) => *v,
            OscParamUpdate::ProgramChange(v) => *v,
            OscParamUpdate::PitchBend(v) => *v,
        }
    }
}

/// The parameter number of a key: its offset from `NOTE_MIN` plus one,
/// computed on bytes with wrap-around.
pub open spec fn note_parameter(note: u8) -> u8 {
    ((note as int - NOTE_MIN as int + 1 + 256) % 256) as u8
}

/// The 14-bit pitch bend value of an LSB/MSB pair.
pub open spec fn bend_value(lsb: u8, msb: u8) -> int {
    msb as int * 128 + lsb as int
}

/// The OSC update that a MIDI frame causes, if any.
pub open spec fn spec_osc_update(data: Seq<u8>) -> Option<OscParamUpdate> {
    if data.len() == 0 {
        None
    } else {
        let st = data[0] & 0xF0;
        if st == 0x80 && data.len() >= 2 {
            Some(OscParamUpdate::Numbered { number: note_parameter(data[1]), value: false })
        } else if st == 0x90 && data.len() >= 3 {
            Some(OscParamUpdate::Numbered { number: note_parameter(data[1]), value: data[2] > 0 })
        } else if st == 0xB0 && data.len() >= 3 {
            let cc = data[1];
            let v = data[2];
            if cc == 64 {
                Some(OscParamUpdate::Sustain(v >= 64))
            } else if cc == 1 || cc == 7 || cc == 10 {
                Some(OscParamUpdate::Numbered { number: (cc + 1) as u8, value: v > 0 })
            } else {
                None
            }
        } else if st == 0xC0 && data.len() >= 2 {
            Some(OscParamUpdate::ProgramChange(data[1] > 0))
        } else if st == 0xE0 && data.len() >= 3 {
            let b = bend_value(data[1], data[2]);
            Some(OscParamUpdate::PitchBend(b - 8192 >= 820 || 8192 - b >= 820))
        } else {
            None
        }
    }
}

/// Law: releasing a key switches its parameter off. Every frame with a
/// note-off status and a note byte gives a numbered update whose value is
/// false, whatever its release velocity.
pub proof fn lemma_note_off_switches_off(data: Seq<u8>)
    requires
        data.len() >= 2,
        (data[0] & 0xF0) == 0x80,
    ensures
        spec_osc_update(data) matches Some(OscParamUpdate::Numbered { value, .. }) && !value,
{
}

/// Law: pressing and releasing a key address the same parameter; the press
/// switches it on exactly when its velocity is not zero, the release always
/// switches it off, and a note-on of velocity zero acts as a release.
pub proof fn lemma_press_and_release_same_key(channel: u8, note: u8, on_velocity: u8, off_velocity: u8)
    requires
        channel < 16,
    ensures
        spec_osc_update(seq![0x90u8 | channel, note, on_velocity]) matches Some(
            OscParamUpdate::Numbered { number: a, value: pressed },
        ) && spec_osc_update(seq![0x80u8 | channel, note, off_velocity]) matches Some(
            OscParamUpdate::Numbered { number: b, value: released },
        ) && a == b && pressed == (on_velocity > 0) && !released,
        spec_osc_update(seq![0x90u8 | channel, note, 0u8]) == spec_osc_update(
            seq![0x80u8 | channel, note, off_velocity],
        ),
{
    assert((0x90u8 | channel) & 0xF0 == 0x90u8) by (bit_vector)
        requires
            channel < 16,
    ;
    assert((0x80u8 | channel) & 0xF0 == 0x80u8) by (bit_vector)
        requires
            channel < 16,
    ;
}

/// Computes the OSC update for a frame.
pub fn osc_update_for(data: &[u8]) -> (r: Option<OscParamUpdate>)
    ensures
        r == spec_osc_update(data@),
{
    if data.len() == 0 {
        return None;
    }
    let st = data[0] & 0xF0;
    if st == 0x80 && data.len() >= 2 {
        Some(OscParamUpdate::Numbered { number: data[1].wrapping_sub(NOTE_MIN).wrapping_add(1), value: false })
    } else if st == 0x90 && data.len() >= 3 {
        Some(OscParamUpdate::Numbered { number: data[1].wrapping_sub(NOTE_MIN).wrapping_add(1), value: data[2] > 0 })
    } else if st == 0xB0 && data.len() >= 3 {
        let cc = data[1];
        let v = data[2];
        if cc == 64 {
            Some(OscParamUpdate::Sustain(v >= 64))
        } else if cc == 1 || cc == 7 || cc == 10 {
            Some(OscParamUpdate::Numbered { number: cc + 1, value: v > 0 })
        } else {
            None
        }
    } else if st == 0xC0 && data.len() >= 2 {
        Some(OscParamUpdate::ProgramChange(data[1] > 0))
    } else if st == 0xE0 && data.len() >= 3 {
        let b: u32 = (data[2] as u32) * 128 + (data[1] as u32);
        Some(OscParamUpdate::PitchBend(b >= 8192 + 820 || b + 820 <= 8192))
    } else {
        None
    }
}

/// The OSC connection of the bridge.
pub struct OscManager {
    connected: bool,
    enabled: bool,
    target: Option<String>,
}

impl OscManager {
    pub closed spec fn is_connected(&self) -> bool {
        self.connected
    }

    pub closed spec fn spec_enabled(&self) -> bool {
        self.enabled
    }

    pub closed spec fn spec_target(&self) -> Option<Seq<char>> {
        match self.target {
            Some(t) => Some(t@),
            None => None,
        }
    }

    /// Disabled, not connected, no target.
    pub fn new() -> (r: OscManager)
        ensures
            !r.spec_enabled(),
            !r.is_connected(),
            r.spec_target() is None,
    {
        OscManager { connected: false, enabled: false, target: None }
    }

    /// Whether `initialize` with these settings connects a client.
    pub open spec fn wants_client(enabled: bool, target: Option<String>) -> bool {
        enabled && target is Some
    }

    /// Applies new settings. `connect_result` is the outcome of connecting
    /// the client, which the caller attempts exactly when `wants_client`
    /// holds. A failed connection disables OSC and keeps any earlier client;
    /// settings that want no client drop it.
    pub fn initialize(&mut self, enabled: bool, target: Option<String>, connect_result: Option<bool>)
        requires
            connect_result is Some <==> Self::wants_client(enabled, target),
        ensures
            final(self).spec_target() == (match target {
                Some(t) => Some(t@),
                None => None,
            }),
            match connect_result {
                Some(true) => final(self).spec_enabled() && final(self).is_connected(),
                Some(false) => !final(self).spec_enabled() && final(self).is_connected()
                    == old(self).is_connected(),
                None => final(self).spec_enabled() == enabled && !final(self).is_connected(),
            },
    {
        self.enabled = enabled;
        self.target = target;
        match connect_result {
            Some(true) => {
                self.connected = true;
            },
            Some(false) => {
                self.enabled = false;
            },
            None => {
                self.connected = false;
            },
        }
    }

    /// The update to send for `frame`: none while OSC is disabled or has no
    /// client.
    pub fn send_midi_frame(&self, frame: &MidiFrame) -> (r: Option<OscParamUpdate>)
        ensures
            r == (if self.spec_enabled() && self.is_connected() {
                spec_osc_update(frame.data@)
            } else {
                None
            }),
    {
        if !self.enabled || !self.connected {
            return None;
        }
        osc_update_for(frame.data.as_slice())
    }

    /// Drops the client and disables OSC; the target is kept.
    pub fn close(&mut self)
        ensures
            !final(self).spec_enabled(),
            !final(self).is_connected(),
            final(self).spec_target() == old(self).spec_target(),
    {
        self.connected = false;
        self.enabled = false;
    }

    /// Whether OSC is enabled.
    pub fn is_enabled(&self) -> (r: bool)
        ensures
            r == self.spec_enabled(),
    {
        self.enabled
    }

    /// The configured target, if any.
    pub fn target(&self) -> (r: Option<&str>)
        ensures
            match r {
                Some(t) => self.spec_target() == Some(t@),
                None => self.spec_target() is None,
            },
    {
        match &self.target {
            Some(t) => Some(t.as_str()),
            None => None,
        }
    }
}

/// Classification of MIDI frames for OSC and for logs.
pub struct OscMessageHandler;

pub open spec fn spec_relevant_for_osc(data: Seq<u8>) -> bool {
    data.len() > 0 && {
        let st = data[0] & 0xF0;
        st == 0x80 || st == 0x90 || st == 0xB0 || st == 0xC0 || st == 0xE0
    }
}

/// The name of a frame's message type, for logs.
pub open spec fn spec_message_type(data: Seq<u8>) -> Seq<char> {
    if data.len() == 0 {
        "inconnu"@
    } else {
        let st = data[0] & 0xF0;
        if st == 0x80 {
            "Note Off"@
        } else if st == 0x90 {
            "Note On"@
        } else if st == 0xA0 {
            "Aftertouch"@
        } else if st == 0xB0 {
            "Control Change"@
        } else if st == 0xC0 {
            "Program Change"@
        } else if st == 0xD0 {
            "Channel Pressure"@
        } else if st == 0xE0 {
            "Pitch Bend"@
        } else {
            "System"@
        }
    }
}

impl OscMessageHandler {
    /// Whether the frame is a note, control change, program change or pitch
    /// bend message.
    pub fn is_relevant_for_osc(data: &[u8]) -> (r: bool)
        ensures
            r == spec_relevant_for_osc(data@),
    {
        if data.len() == 0 {
            return false;
        }
        let st = data[0] & 0xF0;
        st == 0x80 || st == 0x90 || st == 0xB0 || st == 0xC0 || st == 0xE0
    }

    /// The name of the frame's message type.
    pub fn get_midi_message_type(data: &[u8]) -> (r: &'static str)
        ensures
            r@ == spec_message_type(data@),
    {
        if data.len() == 0 {
            return "inconnu";
        }
        let st = data[0] & 0xF0;
        if st == 0x80 {
            "Note Off"
        } else if st == 0x90 {
            "Note On"
        } else if st == 0xA0 {
            "Aftertouch"
        } else if st == 0xB0 {
            "Control Change"
        } else if st == 0xC0 {
            "Program Change"
        } else if st == 0xD0 {
            "Channel Pressure"
        } else if st == 0xE0 {
            "Pitch Bend"
        } else {
            "System"
        }
    }
}

} // verus!
