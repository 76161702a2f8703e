//! Audio engine settings and errors, the check of a stream configuration,
//! and the conversion of raw MIDI into plug-in events.

use vstd::prelude::*;
use vstd::string::StringExecFns;
use crate::midi_queue::MidiPacket;

verus! {

/// Settings handed to a plug-in.
#[derive(Clone, Copy, Debug, PartialEq, Eq, Structural)]
pub struct PluginConfig {
    pub sample_rate: u32,
    pub buffer_size: u32,
    pub limiter_enabled: bool,
}

/// Errors of plug-in loading and state handling.
pub enum PluginError {
    NotFound(String),
    LoadError(String),
    NotInitialized,
    UnsupportedOperation,
    SaveError(String),
    StateLoadError(String),
}

impl PluginError {
    /// The error's message.
    pub fn message(&self) -> (r: String)
        ensures
            r@ == (match self {
                PluginError::NotFound(s) => "Plugin non trouvé: "@ + s@,
                PluginError::LoadError(s) => "Erreur de chargement du plugin: "@ + s@,
                PluginError::NotInitialized => "Plugin non initialisé"@,
                PluginError::UnsupportedOperation => "Opération non supportée par ce plugin"@,
                PluginError::SaveError(s) => "Erreur de sauvegarde de l'état: "@ + s@,
                PluginError::StateLoadError(s) => "Erreur de chargement de l'état: "@ + s@,
            }),
    {
        match self {
            PluginError::NotFound(s) => {
                let mut m = "Plugin non trouvé: ".to_string();
                m.append(s.as_str());
                m
            },
            PluginError::LoadError(s) => {
                let mut m = "Erreur de chargement du plugin: ".to_string();
                m.append(s.as_str());
                m
            },
            PluginError::NotInitialized => "Plugin non initialisé".to_string(),
            PluginError::UnsupportedOperation => "Opération non supportée par ce plugin".to_string(),
            PluginError::SaveError(s) => {
                let mut m = "Erreur de sauvegarde de l'état: ".to_string();
                m.append(s.as_str());
                m
            },
            PluginError::StateLoadError(s) => {
                let mut m = "Erreur de chargement de l'état: ".to_string();
                m.append(s.as_str());
                m
            },
        }
    }
}

/// Errors of the audio engine.
pub enum AudioError {
    Message(String),
}

impl AudioError {
    /// The error's message: the text it carries.
    pub fn message(&self) -> (r: String)
        ensures
            r@ == (match self {
                AudioError::Message(s) => s@,
            }),
    {
        match self {
            AudioError::Message(s) => s.clone(),
        }
    }
}

/// Errors of audio stream handling.
pub enum StreamError {
    DeviceNotFound(String),
    UnsupportedConfig,
    CreationFailed(String),
    BackendUnavailable,
}

impl StreamError {
    /// The error's message.
    pub fn message(&self) -> (r: String)
        ensures
            r@ == (match self {
                StreamError::DeviceNotFound(s) => "Device audio non trouvé: "@ + s@,
                StreamError::UnsupportedConfig => "Configuration audio non supportée"@,
                StreamError::CreationFailed(s) => "Erreur lors de la création du stream: "@ + s@,
                StreamError::BackendUnavailable => "Backend audio non disponible"@,
            }),
    {
        match self {
            StreamError::DeviceNotFound(s) => {
                let mut m = "Device audio non trouvé: ".to_string();
                m.append(s.as_str());
                m
            },
            StreamError::UnsupportedConfig => "Configuration audio non supportée".to_string(),
            StreamError::CreationFailed(s) => {
                let mut m = "Erreur lors de la création du stream: ".to_string();
                m.append(s.as_str());
                m
            },
            StreamError::BackendUnavailable => "Backend audio non disponible".to_string(),
        }
    }
}

/// Why a stream configuration is refused; the gain check is made by the
/// caller on the floating-point value and passed in.
#[derive(Clone, Copy, Debug, PartialEq, Eq, Structural)]
pub enum ConfigFault {
    InvalidSampleRate(u32),
    InvalidBufferSize(u32),
    InvalidGain,
}

/// The buffer size a request stands for: a fixed size, or 256 frames.
pub open spec fn effective_buffer(requested: Option<u32>) -> u32 {
    match requested {
        Some(s) => s,
        None => 256,
    }
}

/// Checks a stream configuration in order: the rate is 8000 to 192000 Hz,
/// the buffer 32 to 8192 frames, the gain within range, and the plug-in
/// runs at the stream's rate.
pub fn validate_stream_config(sample_rate: u32, buffer: Option<u32>, gain_in_range: bool, plugin_sample_rate: u32) -> (r: Result<(), ConfigFault>)
    ensures
        r == (if sample_rate < 8000 || sample_rate > 192000 {
            Err(ConfigFault::InvalidSampleRate(sample_rate))
        } else if effective_buffer(buffer) < 32 || effective_buffer(buffer) > 8192 {
            Err(ConfigFault::InvalidBufferSize(effective_buffer(buffer)))
        } else if !gain_in_range {
            Err(ConfigFault::InvalidGain)
        } else if sample_rate != plugin_sample_rate {
            Err(ConfigFault::InvalidSampleRate(plugin_sample_rate))
        } else {
            Ok(())
        }),
{
    if sample_rate < 8000 || sample_rate > 192000 {
        return Err(ConfigFault::InvalidSampleRate(sample_rate));
    }
    let size = match buffer {
        Some(s) => s,
        None => 256,
    };
    if size < 32 || size > 8192 {
        return Err(ConfigFault::InvalidBufferSize(size));
    }
    if !gain_in_range {
        return Err(ConfigFault::InvalidGain);
    }
    if sample_rate != plugin_sample_rate {
        return Err(ConfigFault::InvalidSampleRate(plugin_sample_rate));
    }
    Ok(())
}

/// A plug-in MIDI event.
#[derive(Clone, Copy, Debug, PartialEq, Eq, Structural)]
pub enum PluginMidiEvent {
    NoteOn { note: u8, velocity: u8, channel: u8 },
    NoteOff { note: u8, velocity: u8, channel: u8 },
    PolyphonicAftertouch { note: u8, pressure: u8, channel: u8 },
    ControlChange { controller: u8, value: u8, channel: u8 },
    ProgramChange { program: u8, channel: u8 },
    ChannelAftertouch { pressure: u8, channel: u8 },
    PitchBend { value: u16, channel: u8 },
}

/// The plug-in event for three MIDI bytes; a note-on with velocity zero is
/// a note-off with velocity zero; system messages have none.
pub open spec fn spec_plugin_event(d0: u8, d1: u8, d2: u8) -> Option<PluginMidiEvent> {
    let channel = d0 & 0x0F;
    let st = d0 & 0xF0;
    if st == 0x80 {
        Some(PluginMidiEvent::NoteOff { note: d1, velocity: d2, channel })
    } else if st == 0x90 {
        if d2 == 0 {
            Some(PluginMidiEvent::NoteOff { note: d1, velocity: 0, channel })
        } else {
            Some(PluginMidiEvent::NoteOn { note: d1, velocity: d2, channel })
        }
    } else if st == 0xA0 {
        Some(PluginMidiEvent::PolyphonicAftertouch { note: d1, pressure: d2, channel })
    } else if st == 0xB0 {
        Some(PluginMidiEvent::ControlChange { controller: d1, value: d2, channel })
    } else if st == 0xC0 {
        Some(PluginMidiEvent::ProgramChange { program: d1, channel })
    } else if st == 0xD0 {
        Some(PluginMidiEvent::ChannelAftertouch { pressure: d1, channel })
    } else if st == 0xE0 {
        Some(PluginMidiEvent::PitchBend { value: ((d2 as u16) << 7 | d1 as u16) as u16, channel })
    } else {
        None
    }
}

/// Converts three MIDI bytes into a plug-in event.
pub fn midi_to_plugin_event(data: [u8; 3]) -> (r: Option<PluginMidiEvent>)
    ensures
        r == spec_plugin_event(data@[0], data@[1], data@[2]),
{
    let status = data[0];
    let channel = status & 0x0F;
    let st = status & 0xF0;
    if st == 0x80 {
        Some(PluginMidiEvent::NoteOff { note: data[1], velocity: data[2], channel })
    } else if st == 0x90 {
        if data[2] == 0 {
            Some(PluginMidiEvent::NoteOff { note: data[1], velocity: 0, channel })
        } else {
            Some(PluginMidiEvent::NoteOn { note: data[1], velocity: data[2], channel })
        }
    } else if st == 0xA0 {
        Some(PluginMidiEvent::PolyphonicAftertouch { note: data[1], pressure: data[2], channel })
    } else if st == 0xB0 {
        Some(PluginMidiEvent::ControlChange { controller: data[1], value: data[2], channel })
    } else if st == 0xC0 {
        Some(PluginMidiEvent::ProgramChange { program: data[1], channel })
    } else if st == 0xD0 {
        Some(PluginMidiEvent::ChannelAftertouch { pressure: data[1], channel })
    } else if st == 0xE0 {
        let value: u16 = ((data[2] as u16) << 7 | data[1] as u16) as u16;
        Some(PluginMidiEvent::PitchBend { value, channel })
    } else {
        None
    }
}

/// The plug-in events for a batch of packets, in order; packets without
/// an event (system messages) are skipped.
pub open spec fn spec_plugin_events(batch: Seq<MidiPacket>) -> Seq<PluginMidiEvent>
    decreases batch.len(),
{
    if batch.len() == 0 {
        Seq::empty()
    } else {
        let rest = spec_plugin_events(batch.drop_last());
        let p = batch.last();
        match spec_plugin_event(p.data@[0], p.data@[1], p.data@[2]) {
            Some(e) => rest.push(e),
            None => rest,
        }
    }
}

/// Converts a batch of packets into events for a VST3 plug-in.
pub fn plugin_events_for(batch: &[MidiPacket]) -> (r: Vec<PluginMidiEvent>)
    ensures
        r@ == spec_plugin_events(batch@),
{
    let mut out: Vec<PluginMidiEvent> = Vec::new();
    let mut i: usize = 0;
    while i < batch.len()
        invariant
            i <= batch@.len(),
            out@ == spec_plugin_events(batch@.take(i as int)),
        decreases batch@.len() - i,
    {
        assert(batch@.take(i + 1).drop_last() =~= batch@.take(i as int));
        match midi_to_plugin_event(batch[i].data) {
            Some(e) => out.push(e),
            None => {},
        }
        i = i + 1;
    }
    assert(batch@.take(batch@.len() as int) =~= batch@);
    out
}

} // verus!
