//! Verified core of an OSC / MIDI / RTP-MIDI bridge with an embedded VST host:
//! MIDI message classification and construction, routing profiles, the
//! bridge pipeline's queueing decisions, the RTP-MIDI session and its remote
//! targets, the audio-side MIDI queue policy, the choice of audio backend and
//! device, the slot protocol and command line of the isolated DSP worker,
//! telemetry, and the persisted plug-in state codec and restore rules.

pub mod activity;
pub mod audio_select;
pub mod audio_types;
pub mod bridge_config;
pub mod callback_plan;
pub mod config;
pub mod dsp_launch;
pub mod dsp_slots;
pub mod fnv;
pub mod le;
pub mod midi;
pub mod midi_io;
pub mod midi_queue;
pub mod osc;
pub mod pipeline;
pub mod platform;
pub mod plugin_load;
pub mod remote;
pub mod port_selector;
pub mod routing;
pub mod services;
pub mod rtp;
pub mod rtp_session;
pub mod state_codec;
pub mod stream_config;
pub mod state_laws;
pub mod state_restore;
pub mod telemetry;
pub mod text;
pub mod worker_protocol;
