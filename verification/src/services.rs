//! Decisions behind the application's commands: errors reported to the
//! user interface, the folder and test-message choices, the pre-flight
//! check, and the parameters and totals of the stress test.

use vstd::prelude::*;
use vstd::string::StringExecFns;
use vstd::utf8::encode_utf8;
use crate::config::{RTP_VIRTUAL_INPUT, VST_INTERNAL_OUTPUT, VST_INTERNAL_OUTPUT_LEGACY};
use crate::platform::{contains, contains_bytes, lower_seq};
use crate::state_codec::{ascii_eq_ignore_case, eq_ignore_ascii_case};
use crate::text::{append_decimal, decimal, str_eq};

verus! {

/// An error reported by a command: a stable code, the domain it belongs
/// to, and a message for the user.
pub struct CommandError {
    pub code: String,
    pub domain: String,
    pub message: String,
}

impl CommandError {
    pub fn new(code: &str, domain: &str, message: String) -> (r: CommandError)
        ensures
            r.code@ == code@,
            r.domain@ == domain@,
            r.message@ == message@,
    {
        CommandError { code: code.to_string(), domain: domain.to_string(), message }
    }
}

/// An error of the paths domain.
pub fn paths_error(code: &str, message: String) -> (r: CommandError)
    ensures
        r.code@ == code@ && r.domain@ == "paths"@ && r.message@ == message@,
{
    CommandError::new(code, "paths", message)
}

/// An error of the config domain.
pub fn config_error(code: &str, message: String) -> (r: CommandError)
    ensures
        r.code@ == code@ && r.domain@ == "config"@ && r.message@ == message@,
{
    CommandError::new(code, "config", message)
}

/// An error of the runtime domain.
pub fn runtime_error(code: &str, message: String) -> (r: CommandError)
    ensures
        r.code@ == code@ && r.domain@ == "runtime"@ && r.message@ == message@,
{
    CommandError::new(code, "runtime", message)
}

/// An error of the audio domain.
pub fn audio_error(code: &str, message: String) -> (r: CommandError)
    ensures
        r.code@ == code@ && r.domain@ == "audio"@ && r.message@ == message@,
{
    CommandError::new(code, "audio", message)
}

/// An error of any domain, from an I/O failure's text.
pub fn io_to_error(code: &str, domain: &str, err: String) -> (r: CommandError)
    ensures
        r.code@ == code@ && r.domain@ == domain@ && r.message@ == err@,
{
    CommandError::new(code, domain, err)
}

/// A folder the user can open.
#[derive(Clone, Copy, Debug, PartialEq, Eq, Structural)]
pub enum AppDir {
    Config,
    Logs,
}

/// The folder named by `target` ("config" or "logs").
pub fn app_dir_target(target: &str) -> (r: Result<AppDir, CommandError>)
    ensures
        target@ == "config"@ ==> r == Ok::<AppDir, CommandError>(AppDir::Config),
        target@ == "logs"@ ==> r == Ok::<AppDir, CommandError>(AppDir::Logs),
        target@ != "config"@ && target@ != "logs"@ ==> (r matches Err(e) && e.code@ == "paths.unknown-target"@
            && e.domain@ == "paths"@ && e.message@ == "Dossier inconnu (config|logs)"@),
{
    proof {
        reveal_strlit("config");
        reveal_strlit("logs");
        assert("config"@.len() != "logs"@.len());
    }
    if str_eq(target, "config") {
        Ok(AppDir::Config)
    } else if str_eq(target, "logs") {
        Ok(AppDir::Logs)
    } else {
        Err(paths_error("paths.unknown-target", "Dossier inconnu (config|logs)".to_string()))
    }
}

/// A test message kind.
#[derive(Clone, Copy, Debug, PartialEq, Eq, Structural)]
pub enum TestMidiKind {
    Note,
    Cc,
}

/// The kind of test message named by `kind` ("note" or "cc").
pub fn test_midi_kind(kind: &str) -> (r: Result<TestMidiKind, CommandError>)
    ensures
        kind@ == "note"@ ==> r == Ok::<TestMidiKind, CommandError>(TestMidiKind::Note),
        kind@ == "cc"@ ==> r == Ok::<TestMidiKind, CommandError>(TestMidiKind::Cc),
        kind@ != "note"@ && kind@ != "cc"@ ==> (r matches Err(e) && e.code@ == "runtime.invalid-test-midi-kind"@
            && e.domain@ == "runtime"@ && e.message@ == "Unknown test MIDI kind (note|cc)"@),
{
    proof {
        reveal_strlit("note");
        reveal_strlit("cc");
        assert("note"@.len() != "cc"@.len());
    }
    if str_eq(kind, "note") {
        Ok(TestMidiKind::Note)
    } else if str_eq(kind, "cc") {
        Ok(TestMidiKind::Cc)
    } else {
        Err(runtime_error("runtime.invalid-test-midi-kind", "Unknown test MIDI kind (note|cc)".to_string()))
    }
}

/// Most stress-test messages per second.
pub const MAX_STRESS_RATE_MESSAGES_PER_SECOND: u32 = 10000;
/// Longest stress test, in seconds.
pub const MAX_STRESS_DURATION_SECONDS: u32 = 30;

/// Which part of the pipeline a stress test exercises.
#[derive(Clone, Copy, Debug, PartialEq, Eq, Structural)]
pub enum StressTestMode {
    AudioVstOnly,
    BridgePipeline,
}

impl StressTestMode {
    /// "audio-vst" or "bridge".
    pub fn from_str(s: &str) -> (r: Option<StressTestMode>)
        ensures
            r == (if s@ == "audio-vst"@ {
                Some(StressTestMode::AudioVstOnly)
            } else if s@ == "bridge"@ {
                Some(StressTestMode::BridgePipeline)
            } else {
                None
            }),
    {
        if str_eq(s, "audio-vst") {
            Some(StressTestMode::AudioVstOnly)
        } else if str_eq(s, "bridge") {
            Some(StressTestMode::BridgePipeline)
        } else {
            None
        }
    }
}

/// Checks the stress-test parameters and mode: a rate of 1 to 10000
/// messages per second, a duration of 1 to 30 seconds, and a known mode,
/// checked in that order.
pub fn validate_stress_test(mode: &str, rate: u32, duration: u32) -> (r: Result<StressTestMode, CommandError>)
    ensures
        (rate == 0 || rate > 10000) ==> (r matches Err(e) && e.code@ == "stress.invalid-rate"@
            && e.message@ == "Stress-test rate must be between 1 and 10000 MIDI messages/s"@),
        !(rate == 0 || rate > 10000) && (duration == 0 || duration > 30) ==> (r matches Err(e)
            && e.code@ == "stress.invalid-duration"@
            && e.message@ == "Stress-test duration must be between 1 and 30 seconds"@),
        !(rate == 0 || rate > 10000) && !(duration == 0 || duration > 30) ==> match r {
            Ok(m) => (mode@ == "audio-vst"@ && m == StressTestMode::AudioVstOnly) || (mode@ == "bridge"@
                && m == StressTestMode::BridgePipeline),
            Err(e) => mode@ != "audio-vst"@ && mode@ != "bridge"@ && e.code@ == "stress.invalid-mode"@
                && e.message@ == "Invalid mode: "@ + mode@,
        },
        r matches Err(e) ==> e.domain@ == "runtime"@,
{
    if rate == 0 || rate > MAX_STRESS_RATE_MESSAGES_PER_SECOND {
        return Err(runtime_error("stress.invalid-rate", "Stress-test rate must be between 1 and 10000 MIDI messages/s".to_string()));
    }
    if duration == 0 || duration > MAX_STRESS_DURATION_SECONDS {
        return Err(runtime_error("stress.invalid-duration", "Stress-test duration must be between 1 and 30 seconds".to_string()));
    }
    match StressTestMode::from_str(mode) {
        Some(m) => Ok(m),
        None => {
            let mut msg = "Invalid mode: ".to_string();
            msg.append(mode);
            Err(runtime_error("stress.invalid-mode", msg))
        },
    }
}

/// The note of the stress message with this sequence number: notes 36 to
/// 83 in turn, each pressed then released.
pub open spec fn stress_note(sequence: u32) -> u8 {
    (36 + (sequence / 2) % 48) as u8
}

/// The stress message with this sequence number: even numbers press, odd
/// numbers release the note.
pub fn stress_midi_message(sequence: u32) -> (r: Vec<u8>)
    ensures
        r@ == (if sequence % 2 == 0 {
            seq![0x90u8, stress_note(sequence), 100u8]
        } else {
            seq![0x80u8, stress_note(sequence), 0u8]
        }),
{
    let note: u8 = (36 + (sequence / 2) % 48) as u8;
    let r = if sequence % 2 == 0 { vec![0x90u8, note, 100] } else { vec![0x80u8, note, 0] };
    assert(r@ =~= (if sequence % 2 == 0 {
        seq![0x90u8, stress_note(sequence), 100u8]
    } else {
        seq![0x80u8, stress_note(sequence), 0u8]
    }));
    r
}

/// The release that balances a stress run of `sent` messages, when it
/// ended on a press.
pub fn stress_trailing_note_off(sent: u32) -> (r: Option<Vec<u8>>)
    ensures
        sent % 2 == 0 ==> r is None,
        sent % 2 == 1 ==> (r matches Some(v) && v@ == seq![0x80u8, stress_note((sent - 1) as u32), 0u8]),
{
    if sent % 2 == 0 {
        return None;
    }
    let note: u8 = (36 + ((sent - 1) / 2) % 48) as u8;
    let v = vec![0x80u8, note, 0];
    assert(v@ =~= seq![0x80u8, stress_note((sent - 1) as u32), 0u8]);
    Some(v)
}

/// Law: every press of a stress run is released by the next message, or
/// by the trailing release.
pub proof fn lemma_stress_pairs_balance(sequence: u32)
    requires
        sequence % 2 == 0,
        sequence < u32::MAX,
    ensures
        stress_note(sequence) == stress_note((sequence + 1) as u32),
{
}

/// The losses of a stress run through the bridge: the messages that did
/// not leave the pipeline (the counter read back truncated to 32 bits),
/// plus those the audio engine dropped.
pub fn stress_bridge_drops(sent: u32, pipeline_out: u64, audio_drops: u32) -> (r: u32)
    requires
        (if sent >= (pipeline_out as u32) { sent - (pipeline_out as u32) } else { 0 }) + audio_drops <= u32::MAX,
    ensures
        r == (if sent >= (pipeline_out as u32) { sent - (pipeline_out as u32) } else { 0 }) + audio_drops,
{
    let out: u32 = #[verifier::truncate] (pipeline_out as u32);
    sent.saturating_sub(out) + audio_drops
}

/// One segment of a stress result: what it lost and its under-runs. (The
/// audio segment's latency, a float, is added by the caller.)
#[derive(Clone, Copy, Debug, PartialEq, Eq, Structural)]
pub struct StressSegment {
    pub dropped: u32,
    pub xruns: u32,
}

/// The integer part of a stress-test result.
#[derive(Clone, Copy, Debug, PartialEq, Eq)]
pub struct StressTestSummary {
    pub sent_notes: u32,
    pub elapsed_ms: u64,
    pub dropped_notes: u32,
    pub xruns: u32,
    pub segment_bridge: Option<StressSegment>,
    pub segment_audio: Option<StressSegment>,
    pub received_notes: Option<u32>,
}

/// The result of a stress run straight into the audio engine: every loss
/// is an audio loss, and the run lasted `duration` seconds.
pub fn audio_stress_summary(sent_notes: u32, duration: u32, audio_drops: u32, audio_xruns: u32) -> (r: StressTestSummary)
    ensures
        r.sent_notes == sent_notes,
        r.elapsed_ms == duration as int * 1000,
        r.dropped_notes == audio_drops,
        r.xruns == audio_xruns,
        r.segment_bridge is None,
        r.segment_audio == Some(StressSegment { dropped: audio_drops, xruns: audio_xruns }),
        r.received_notes is None,
{
    StressTestSummary {
        sent_notes,
        elapsed_ms: duration as u64 * 1000,
        dropped_notes: audio_drops,
        xruns: audio_xruns,
        segment_bridge: None,
        segment_audio: Some(StressSegment { dropped: audio_drops, xruns: audio_xruns }),
        received_notes: None,
    }
}

/// The result of a stress run through the bridge: the total loss is the
/// bridge segment's loss (`stress_bridge_drops`, which already holds the
/// audio drops once), the bridge has no under-runs, and what left the
/// pipeline is reported as received.
pub fn bridge_stress_summary(sent_notes: u32, duration: u32, pipeline_out: u64, audio_drops: u32, audio_xruns: u32) -> (r: StressTestSummary)
    requires
        (if sent_notes >= (pipeline_out as u32) { sent_notes - (pipeline_out as u32) } else { 0 }) + audio_drops <= u32::MAX,
    ensures
        r.sent_notes == sent_notes,
        r.elapsed_ms == duration as int * 1000,
        r.dropped_notes == (if sent_notes >= (pipeline_out as u32) {
            sent_notes - (pipeline_out as u32)
        } else {
            0
        }) + audio_drops,
        r.xruns == audio_xruns,
        r.segment_bridge == Some(StressSegment { dropped: r.dropped_notes, xruns: 0 }),
        r.segment_audio == Some(StressSegment { dropped: audio_drops, xruns: audio_xruns }),
        r.received_notes == Some(pipeline_out as u32),
{
    let bridge_drops = stress_bridge_drops(sent_notes, pipeline_out, audio_drops);
    let received: u32 = #[verifier::truncate] (pipeline_out as u32);
    StressTestSummary {
        sent_notes,
        elapsed_ms: duration as u64 * 1000,
        dropped_notes: bridge_drops,
        xruns: audio_xruns,
        segment_bridge: Some(StressSegment { dropped: bridge_drops, xruns: 0 }),
        segment_audio: Some(StressSegment { dropped: audio_drops, xruns: audio_xruns }),
        received_notes: Some(received),
    }
}

/// The result of the pre-flight check.
pub struct PreflightReport {
    pub midi_in_ok: bool,
    pub midi_out_ok: bool,
    pub audio_backend_ok: bool,
    pub rtp_port_ok: bool,
    pub messages: Vec<String>,
}

/// A configured device is present: one of the available names contains it.
pub open spec fn listed(name: Seq<char>, available: Seq<String>) -> bool {
    exists|i: int| 0 <= i < available.len() && contains(encode_utf8(available[i]@), encode_utf8(name))
}

fn is_listed(name: &str, available: &[String]) -> (r: bool)
    ensures
        r == listed(name@, available@),
{
    let mut i: usize = 0;
    while i < available.len()
        invariant
            i <= available@.len(),
            forall|k: int| 0 <= k < i ==> !contains(encode_utf8(#[trigger] available@[k]@), encode_utf8(name@)),
        decreases available@.len() - i,
    {
        if contains_bytes(available[i].as_str().as_bytes(), name.as_bytes()) {
            return true;
        }
        i = i + 1;
    }
    false
}

/// The MIDI input is usable: the RTP-MIDI virtual input, or a listed port.
pub open spec fn spec_midi_in_ok(device: Option<String>, inputs: Seq<String>) -> bool {
    match device {
        Some(name) => name@ == RTP_VIRTUAL_INPUT@ || listed(name@, inputs),
        None => false,
    }
}

/// The MIDI output is usable: the embedded VST output, or a listed port.
pub open spec fn spec_midi_out_ok(device: Option<String>, outputs: Seq<String>) -> bool {
    match device {
        Some(name) => name@ == VST_INTERNAL_OUTPUT@ || name@ == VST_INTERNAL_OUTPUT_LEGACY@ || listed(
            name@,
            outputs,
        ),
        None => false,
    }
}

pub open spec fn auto_name() -> Seq<u8> {
    seq![0x61u8, 0x75, 0x74, 0x6f]
}

/// The audio backend is usable: audio is off, or the backend is "auto" (any
/// case) or unset and some backend exists, or it names an available one
/// (ignoring ASCII case).
pub open spec fn spec_backend_ok(enabled: bool, backend: Option<String>, backends: Seq<String>) -> bool {
    if !enabled {
        true
    } else {
        match backend {
            Some(b) => if lower_seq(encode_utf8(b@)) == auto_name() {
                backends.len() > 0
            } else {
                exists|i: int| 0 <= i < backends.len() && ascii_eq_ignore_case(encode_utf8(backends[i]@), encode_utf8(b@))
            },
            None => backends.len() > 0,
        }
    }
}

fn backend_ok(enabled: bool, backend: &Option<String>, backends: &[String]) -> (r: bool)
    ensures
        r == spec_backend_ok(enabled, *backend, backends@),
{
    if !enabled {
        return true;
    }
    match backend {
        Some(b) => {
            let lowered = crate::platform::lower_bytes(b.as_str().as_bytes());
            let auto: Vec<u8> = vec![0x61u8, 0x75, 0x74, 0x6f];
            assert(auto@ =~= auto_name());
            if crate::text::bytes_eq(lowered.as_slice(), auto.as_slice()) {
                return backends.len() > 0;
            }
            let mut i: usize = 0;
            while i < backends.len()
                invariant
                    i <= backends@.len(),
                    lower_seq(encode_utf8(b@)) != auto_name(),
                    *backend == Some(*b),
                    enabled,
                    forall|k: int| 0 <= k < i ==> !ascii_eq_ignore_case(encode_utf8(#[trigger] backends@[k]@), encode_utf8(b@)),
                decreases backends@.len() - i,
            {
                if eq_ignore_ascii_case(backends[i].as_str(), b.as_str()) {
                    assert(ascii_eq_ignore_case(encode_utf8(backends@[i as int]@), encode_utf8(b@)));
                    return true;
                }
                i = i + 1;
            }
            false
        },
        None => backends.len() > 0,
    }
}

/// The text of the backend message.
pub open spec fn backend_message(backend: Option<String>) -> Seq<char> {
    "Backend audio indisponible ("@ + (match backend {
        Some(b) => b@,
        None => Seq::empty(),
    }) + ")"@
}

/// The text of the RTP port message.
pub open spec fn port_message(port: u16) -> Seq<char> {
    "Port RTP "@ + decimal(port as nat) + " deja utilise"@
}

/// The pre-flight report. `rtp_needed` tells whether RTP-MIDI will run
/// (see `rtp_active`); `port_free` is whether its port is usable (owned by
/// the bridge or free), which the caller checks exactly when it is needed.
pub fn preflight_report(
    input_device: &Option<String>,
    midi_inputs: &[String],
    output_device: &Option<String>,
    midi_outputs: &[String],
    audio_enabled: bool,
    backend: &Option<String>,
    backends: &[String],
    rtp_needed: bool,
    rtp_port: u16,
    port_free: Option<bool>,
) -> (r: PreflightReport)
    requires
        port_free is Some <==> rtp_needed,
    ensures
        r.midi_in_ok == spec_midi_in_ok(*input_device, midi_inputs@),
        r.midi_out_ok == spec_midi_out_ok(*output_device, midi_outputs@),
        r.audio_backend_ok == spec_backend_ok(audio_enabled, *backend, backends@),
        r.rtp_port_ok == (match port_free {
            Some(free) => free,
            None => true,
        }),
        r.messages@.map_values(|m: String| m@) == Seq::<Seq<char>>::empty() + (if r.midi_in_ok {
            Seq::empty()
        } else {
            seq!["MIDI IN manquant ou non configure"@]
        }) + (if r.midi_out_ok {
            Seq::empty()
        } else {
            seq!["MIDI OUT manquant ou non configure"@]
        }) + (if r.audio_backend_ok {
            Seq::empty()
        } else {
            seq![backend_message(*backend)]
        }) + (if r.rtp_port_ok {
            Seq::empty()
        } else {
            seq![port_message(rtp_port)]
        }),
{
    let ghost empty: Seq<Seq<char>> = Seq::empty();
    let mut messages: Vec<String> = Vec::new();
    let midi_in_ok = match input_device {
        Some(name) => str_eq(name.as_str(), RTP_VIRTUAL_INPUT) || is_listed(name.as_str(), midi_inputs),
        None => false,
    };
    if !midi_in_ok {
        messages.push("MIDI IN manquant ou non configure".to_string());
    }
    let midi_out_ok = match output_device {
        Some(name) => str_eq(name.as_str(), VST_INTERNAL_OUTPUT) || str_eq(name.as_str(), VST_INTERNAL_OUTPUT_LEGACY)
            || is_listed(name.as_str(), midi_outputs),
        None => false,
    };
    if !midi_out_ok {
        messages.push("MIDI OUT manquant ou non configure".to_string());
    }
    let audio_backend_ok = backend_ok(audio_enabled, backend, backends);
    if !audio_backend_ok {
        let mut m = "Backend audio indisponible (".to_string();
        match backend {
            Some(b) => m.append(b.as_str()),
            None => {},
        }
        m.append(")");
        messages.push(m);
    }
    let rtp_port_ok = match port_free {
        Some(free) => free,
        None => true,
    };
    if !rtp_port_ok {
        let mut m = "Port RTP ".to_string();
        append_decimal(&mut m, rtp_port as u64);
        m.append(" deja utilise");
        messages.push(m);
    }
    let r = PreflightReport { midi_in_ok, midi_out_ok, audio_backend_ok, rtp_port_ok, messages };
    assert(r.messages@.map_values(|m: String| m@) =~= empty + (if r.midi_in_ok {
        Seq::empty()
    } else {
        seq!["MIDI IN manquant ou non configure"@]
    }) + (if r.midi_out_ok {
        Seq::empty()
    } else {
        seq!["MIDI OUT manquant ou non configure"@]
    }) + (if r.audio_backend_ok {
        Seq::empty()
    } else {
        seq![backend_message(*backend)]
    }) + (if r.rtp_port_ok {
        Seq::empty()
    } else {
        seq![port_message(rtp_port)]
    }));
    r
}

} // verus!
