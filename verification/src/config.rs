//! The parts of the application configuration that the bridge logic reads:
//! MIDI routing, OSC, RTP-MIDI and logging settings, their defaults, and the
//! decisions taken when a stored configuration is loaded.

use vstd::prelude::*;
use crate::text::str_eq;

verus! {

/// Colour scheme of the user interface.
#[derive(Clone, Copy, Debug, PartialEq, Eq, Structural)]
pub enum Theme {
    Light,
    Dark,
}

/// A remote RTP-MIDI peer the user configured.
pub struct RtpRemoteEntry {
    pub id: String,
    pub name: String,
    pub host: String,
    pub port: u16,
    pub auto_connect: bool,
}

/// Maps a controller or program number to another.
#[derive(Clone, Copy, Debug, PartialEq, Eq, Structural)]
pub struct RoutingMapping {
    pub from: u8,
    pub to: u8,
}

/// A routing profile: filters and renumbering applied to one input's frames.
pub struct RoutingProfile {
    pub id: String,
    pub name: String,
    pub enabled: bool,
    pub channel_filter: Option<u8>,
    pub note_min: Option<u8>,
    pub note_max: Option<u8>,
    pub cc_map: Vec<RoutingMapping>,
    pub program_map: Vec<RoutingMapping>,
}

/// Assigns the profile with id `profile_id` to the frames of `source`.
pub struct RoutingAssignment {
    pub source: String,
    pub profile_id: String,
}

/// MIDI settings.
pub struct MidiConfig {
    pub input_device: Option<String>,
    pub output_device: Option<String>,
    pub channel_filter: Option<u8>,
    pub thru_enabled: bool,
    pub hotplug: bool,
    pub routing_profiles: Vec<RoutingProfile>,
    pub routing_assignments: Vec<RoutingAssignment>,
}

impl Default for MidiConfig {
    /// No devices, no filter, thru and hot-plug on, no routing.
    fn default() -> (r: MidiConfig)
        ensures
            r.input_device is None,
            r.output_device is None,
            r.channel_filter is None,
            r.thru_enabled,
            r.hotplug,
            r.routing_profiles@.len() == 0,
            r.routing_assignments@.len() == 0,
    {
        MidiConfig {
            input_device: None,
            output_device: None,
            channel_filter: None,
            thru_enabled: true,
            hotplug: true,
            routing_profiles: Vec::new(),
            routing_assignments: Vec::new(),
        }
    }
}

/// OSC settings.
pub struct OscConfig {
    pub enabled: bool,
    pub target_ip: String,
    pub target_port: u16,
    pub log_messages: bool,
}

impl Default for OscConfig {
    /// Enabled, sending to 127.0.0.1:9000, with message logging.
    fn default() -> (r: OscConfig)
        ensures
            r.enabled,
            r.target_ip@ == "127.0.0.1"@,
            r.target_port == 9000,
            r.log_messages,
    {
        OscConfig {
            enabled: true,
            target_ip: "127.0.0.1".to_string(),
            target_port: 9000,
            log_messages: true,
        }
    }
}

/// RTP-MIDI settings.
pub struct RtpConfig {
    pub enabled: bool,
    pub session_name: String,
    pub port: u16,
    pub remote_enabled: bool,
    pub remotes: Vec<RtpRemoteEntry>,
    pub log_messages: bool,
}

impl Default for RtpConfig {
    /// Enabled as session "OSCMidi" on port 5004, no remote peers, quiet.
    fn default() -> (r: RtpConfig)
        ensures
            r.enabled,
            r.session_name@ == "OSCMidi"@,
            r.port == 5004,
            !r.remote_enabled,
            r.remotes@.len() == 0,
            !r.log_messages,
    {
        RtpConfig {
            enabled: true,
            session_name: "OSCMidi".to_string(),
            port: 5004,
            remote_enabled: false,
            remotes: Vec::new(),
            log_messages: false,
        }
    }
}

/// Logging settings.
#[derive(Clone, Copy, Debug, PartialEq, Eq, Structural)]
pub struct LoggingConfig {
    pub enabled: bool,
    pub verbose: bool,
    pub log_all_to_file: bool,
}

impl Default for LoggingConfig {
    /// Logging on, not verbose, not everything to file.
    fn default() -> (r: LoggingConfig)
        ensures
            r == (LoggingConfig { enabled: true, verbose: false, log_all_to_file: false }),
    {
        LoggingConfig { enabled: true, verbose: false, log_all_to_file: false }
    }
}

/// The configuration schema version this library reads and writes.
pub const CURRENT_CONFIG_VERSION: u32 = 4;

/// Name of the virtual MIDI input fed by the RTP-MIDI server.
pub const RTP_VIRTUAL_INPUT: &'static str = "RTP-MIDI (Serveur)";
/// Name of the MIDI output that feeds the embedded VST host.
pub const VST_INTERNAL_OUTPUT: &'static str = "VST (Interne)";
/// Former name of `VST_INTERNAL_OUTPUT`, still accepted in stored settings.
pub const VST_INTERNAL_OUTPUT_LEGACY: &'static str = "VST (Keyzone interne)";

/// What to do with a stored configuration, by its schema version.
#[derive(Clone, Copy, Debug, PartialEq, Eq, Structural)]
pub enum ConfigVersionAction {
    /// Versions 2 and 3: read as the current version, then save it back.
    Migrate,
    /// The current version: read as it is.
    Current,
    /// Any other version: keep the file untouched and use the defaults.
    Unsupported,
}

pub open spec fn spec_config_version_action(version: u32) -> ConfigVersionAction {
    if version == 2 || version == 3 {
        ConfigVersionAction::Migrate
    } else if version == CURRENT_CONFIG_VERSION {
        ConfigVersionAction::Current
    } else {
        ConfigVersionAction::Unsupported
    }
}

/// Classifies a stored configuration by its `version` field.
pub fn config_version_action(version: u32) -> (r: ConfigVersionAction)
    ensures
        r == spec_config_version_action(version),
{
    if version == 2 || version == 3 {
        ConfigVersionAction::Migrate
    } else if version == CURRENT_CONFIG_VERSION {
        ConfigVersionAction::Current
    } else {
        ConfigVersionAction::Unsupported
    }
}

/// The `version` field as the loader reads it: a missing or non-integer
/// field counts as 0, and the value is truncated to 32 bits.
pub open spec fn spec_stored_version(field: Option<u64>) -> u32 {
    match field {
        Some(v) => v as u32,
        None => 0,
    }
}

/// Reads the stored `version` field.
pub fn stored_version(field: Option<u64>) -> (r: u32)
    ensures
        r == spec_stored_version(field),
{
    match field {
        Some(v) => #[verifier::truncate] (v as u32),
        None => 0,
    }
}

/// What `serde_yaml` reads from the text `raw` for the top-level field
/// `key`: `None` when the text is not YAML, otherwise the field as an
/// unsigned integer, `None` inside when it is missing or not one.
pub uninterp spec fn yaml_u64_field(raw: Seq<char>, key: Seq<char>) -> Option<Option<u64>>;

/// Trusted: parses `raw` with `serde_yaml::from_str` into a
/// `serde_yaml::Value`, then reads the field `key` with `Value::get` and
/// `Value::as_u64`. A parse error gives `None`. The result is named, not
/// stated: the YAML grammar is `serde_yaml`'s.
#[verifier::external_body]
fn read_yaml_u64_field(raw: &str, key: &str) -> (r: Option<Option<u64>>)
    ensures
        r == yaml_u64_field(raw@, key@),
{
    match serde_yaml::from_str::<serde_yaml::Value>(raw) {
        Ok(value) => Some(value.get(key).and_then(serde_yaml::Value::as_u64)),
        Err(_) => None,
    }
}

/// What loading the stored configuration text `raw` does: `None` when the
/// text is not YAML (the file is kept and the defaults are used), otherwise
/// the action for its `version` field.
pub fn config_load_action(raw: &str) -> (r: Option<ConfigVersionAction>)
    ensures
        r == match yaml_u64_field(raw@, "version"@) {
            None => None,
            Some(f) => Some(spec_config_version_action(spec_stored_version(f))),
        },
{
    match read_yaml_u64_field(raw, "version") {
        None => None,
        Some(f) => Some(config_version_action(stored_version(f))),
    }
}

/// Whether the name designates the embedded VST output, under its current
/// or its former name.
pub open spec fn is_internal_output_name(name: Seq<char>) -> bool {
    name == VST_INTERNAL_OUTPUT@ || name == VST_INTERNAL_OUTPUT_LEGACY@
}

/// The MIDI input that counts as connected when the bridge starts: the
/// RTP-MIDI virtual input, when it is the one configured; a hardware input
/// is only reported once its port has opened.
pub fn initial_connected_input(midi: &MidiConfig) -> (r: Option<String>)
    ensures
        match midi.input_device {
            Some(name) if name@ == RTP_VIRTUAL_INPUT@ => r matches Some(out) && out@ == name@,
            _ => r is None,
        },
{
    match &midi.input_device {
        Some(name) => {
            if str_eq(name.as_str(), RTP_VIRTUAL_INPUT) {
                Some(name.clone())
            } else {
                None
            }
        },
        None => None,
    }
}

/// The MIDI output that counts as connected when the bridge starts: the
/// embedded VST output, under its current name, when it is the one
/// configured (under either name); a hardware output is only reported once
/// its port has opened.
pub fn initial_connected_output(midi: &MidiConfig) -> (r: Option<String>)
    ensures
        match midi.output_device {
            Some(name) if is_internal_output_name(name@) => r matches Some(out) && out@
                == VST_INTERNAL_OUTPUT@,
            _ => r is None,
        },
{
    match &midi.output_device {
        None => None,
        Some(name) => {
            if str_eq(name.as_str(), VST_INTERNAL_OUTPUT) || str_eq(name.as_str(), VST_INTERNAL_OUTPUT_LEGACY) {
                Some(VST_INTERNAL_OUTPUT.to_string())
            } else {
                None
            }
        },
    }
}

/// The RTP-MIDI service is active for a configuration when the server or a
/// remote session is enabled, or when the MIDI input is the RTP-MIDI virtual
/// input.
pub fn rtp_active(rtp: &RtpConfig, midi_input: &Option<String>) -> (r: bool)
    ensures
        r == (rtp.enabled || rtp.remote_enabled || (midi_input matches Some(name) && name@
            == RTP_VIRTUAL_INPUT@)),
{
    rtp.enabled || rtp.remote_enabled || match midi_input {
        Some(name) => str_eq(name.as_str(), RTP_VIRTUAL_INPUT),
        None => false,
    }
}

/// The location of the stored configuration file.
pub struct ConfigStore {
    path: String,
}

impl ConfigStore {
    /// A store for the configuration file at `path`.
    pub fn with_path(path: String) -> (r: ConfigStore)
        ensures
            r.path()@ == path@,
    {
        ConfigStore { path }
    }

    pub closed spec fn path(&self) -> String {
        self.path
    }

    /// The file's path.
    pub fn path_str(&self) -> (r: &str)
        ensures
            r@ == self.path()@,
    {
        self.path.as_str()
    }
}

} // verus!
