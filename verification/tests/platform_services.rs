use oscmidi::activity::MidiActivityTracker;
use oscmidi::config::{
    config_version_action, initial_connected_input, initial_connected_output, rtp_active, stored_version, ConfigStore,
    ConfigVersionAction, LoggingConfig, MidiConfig, OscConfig, RtpConfig, RTP_VIRTUAL_INPUT,
    VST_INTERNAL_OUTPUT, VST_INTERNAL_OUTPUT_LEGACY,
};
use oscmidi::platform::{
    create_vst_window, decode_tri_state, encode_tri_state, is_already_registered_error,
    is_sforzando_vst3, requires_vst3_destructor_quarantine, vst_shutdown_timeout_secs,
    VstWindowManager, WindowsError,
};
use oscmidi::services::{
    app_dir_target, preflight_report, stress_bridge_drops, stress_midi_message,
    stress_trailing_note_off, test_midi_kind, validate_stress_test, AppDir, StressTestMode,
    TestMidiKind,
};

#[test]
fn test_sforzando_detection() {
    assert!(is_sforzando_vst3("Sforzando.vst3"));
    assert!(is_sforzando_vst3("sforzando.vst3"));
    assert!(is_sforzando_vst3("SFORZANDO.VST3"));
    assert!(!is_sforzando_vst3("Other.vst3"));
    assert!(!is_sforzando_vst3("Sforzando.dll"));
}

#[test]
fn test_vst_shutdown_timeout() {
    let timeout = vst_shutdown_timeout_secs(None);
    assert!(timeout >= 1);
    assert!(timeout <= 30);
    assert_eq!(vst_shutdown_timeout_secs(Some(0)), 1);
    assert_eq!(vst_shutdown_timeout_secs(Some(99)), 30);
    assert_eq!(vst_shutdown_timeout_secs(Some(12)), 12);
}

#[test]
fn test_vst_window_manager() {
    let mut manager = VstWindowManager::new("Test".to_string(), 400, 300);
    assert!(!manager.is_open());
    assert!(manager.hwnd().is_none());
    assert!(matches!(manager.create(), Err(WindowsError::WindowError(_))));
    assert!(manager.close().is_ok());
}

#[test]
fn quarantines_known_blocking_vst3_destructors_only() {
    assert!(requires_vst3_destructor_quarantine(r"C:\Program Files\Common Files\VST3\Splice\Splice INSTRUMENT.vst3"));
    assert!(requires_vst3_destructor_quarantine(r"C:\VST3\sforzando.vst3"));
    assert!(!requires_vst3_destructor_quarantine(r"C:\VST3\Other Instrument.vst3"));
    assert!(!requires_vst3_destructor_quarantine(r"C:\VST2\Splice.dll"));
}

#[test]
fn platform_stubs_report_unsupported() {
    match create_vst_window("x", 1, 1) {
        Err(WindowsError::WindowError(m)) => assert_eq!(m, "Non supporté sur cette plateforme"),
        _ => panic!("expected a window error"),
    }
    assert!(is_already_registered_error(1242));
    assert!(is_already_registered_error(0x8007_04DA));
    assert!(!is_already_registered_error(5));
    assert_eq!(decode_tri_state(encode_tri_state(true)), Some(true));
    assert_eq!(decode_tri_state(encode_tri_state(false)), Some(false));
    assert_eq!(decode_tri_state(0), None);
}

#[test]
fn config_defaults_and_versions() {
    let midi = MidiConfig::default();
    assert!(midi.thru_enabled && midi.hotplug);
    let osc = OscConfig::default();
    assert_eq!(osc.target_ip, "127.0.0.1");
    assert_eq!(osc.target_port, 9000);
    let rtp = RtpConfig::default();
    assert_eq!(rtp.session_name, "OSCMidi");
    assert_eq!(rtp.port, 5004);
    assert!(!LoggingConfig::default().verbose);
    assert_eq!(config_version_action(2), ConfigVersionAction::Migrate);
    assert_eq!(config_version_action(3), ConfigVersionAction::Migrate);
    assert_eq!(config_version_action(4), ConfigVersionAction::Current);
    assert_eq!(config_version_action(5), ConfigVersionAction::Unsupported);
    assert_eq!(stored_version(None), 0);
    assert_eq!(stored_version(Some(1 << 32 | 4)), 4);
    let store = ConfigStore::with_path("/tmp/config.yaml".to_string());
    assert_eq!(store.path_str(), "/tmp/config.yaml");
}

#[test]
fn initial_connected_input_detects_rtp_virtual_port() {
    let mut config = MidiConfig::default();
    config.input_device = Some(RTP_VIRTUAL_INPUT.to_string());
    assert_eq!(
        initial_connected_input(&config),
        Some(RTP_VIRTUAL_INPUT.to_string())
    );
}

#[test]
fn initial_connected_output_detects_internal_vst_port() {
    let mut config = MidiConfig::default();
    config.output_device = Some(VST_INTERNAL_OUTPUT_LEGACY.to_string());
    assert_eq!(
        initial_connected_output(&config),
        Some(VST_INTERNAL_OUTPUT.to_string())
    );
}

#[test]
fn hardware_ports_are_only_reported_once_open() {
    let mut config = MidiConfig::default();
    assert_eq!(initial_connected_input(&config), None);
    assert_eq!(initial_connected_output(&config), None);
    config.input_device = Some("Keyboard".to_string());
    config.output_device = Some("Port".to_string());
    assert_eq!(initial_connected_input(&config), None);
    assert_eq!(initial_connected_output(&config), None);
    config.output_device = Some(VST_INTERNAL_OUTPUT.to_string());
    assert_eq!(initial_connected_output(&config).as_deref(), Some(VST_INTERNAL_OUTPUT));
}

#[test]
fn rtp_service_follows_configuration() {
    let mut rtp = RtpConfig::default();
    rtp.enabled = false;
    assert!(!rtp_active(&rtp, &None));
    assert!(rtp_active(&rtp, &Some(RTP_VIRTUAL_INPUT.to_string())));
}

#[test]
fn command_choices_and_errors() {
    assert!(matches!(app_dir_target("config"), Ok(AppDir::Config)));
    assert!(matches!(app_dir_target("logs"), Ok(AppDir::Logs)));
    let e = app_dir_target("other").err().unwrap();
    assert_eq!(e.code, "paths.unknown-target");
    assert_eq!(e.domain, "paths");
    assert!(matches!(test_midi_kind("note"), Ok(TestMidiKind::Note)));
    assert!(matches!(test_midi_kind("cc"), Ok(TestMidiKind::Cc)));
    assert_eq!(test_midi_kind("x").err().unwrap().code, "runtime.invalid-test-midi-kind");
}

#[test]
fn stress_parameters_are_checked_in_order() {
    assert_eq!(validate_stress_test("bridge", 0, 0).err().unwrap().code, "stress.invalid-rate");
    assert_eq!(validate_stress_test("bridge", 10_001, 5).err().unwrap().code, "stress.invalid-rate");
    assert_eq!(validate_stress_test("bridge", 100, 31).err().unwrap().code, "stress.invalid-duration");
    let e = validate_stress_test("fast", 100, 5).err().unwrap();
    assert_eq!(e.code, "stress.invalid-mode");
    assert_eq!(e.message, "Invalid mode: fast");
    assert!(matches!(validate_stress_test("audio-vst", 10_000, 30), Ok(StressTestMode::AudioVstOnly)));
    assert!(matches!(validate_stress_test("bridge", 1, 1), Ok(StressTestMode::BridgePipeline)));
}

#[test]
fn stress_messages_are_balanced_note_pairs() {
    for pair in 0..96 {
        let note_on = stress_midi_message(pair * 2);
        let note_off = stress_midi_message(pair * 2 + 1);
        assert_eq!(note_on[0], 0x90);
        assert_eq!(note_off[0], 0x80);
        assert_eq!(note_on[1], note_off[1]);
        assert!((36..84).contains(&note_on[1]));
    }
    assert!(stress_trailing_note_off(100).is_none());
    assert_eq!(stress_trailing_note_off(101).unwrap()[0], 0x80);
    assert_eq!(stress_bridge_drops(100, 90, 3), 13);
    assert_eq!(stress_bridge_drops(100, 120, 3), 3);
}

#[test]
fn preflight_lists_every_problem() {
    let report = preflight_report(
        &Some("Keyboard".to_string()),
        &["USB Keyboard 1".to_string()],
        &Some(VST_INTERNAL_OUTPUT.to_string()),
        &[],
        true,
        &Some("AUTO".to_string()),
        &["wasapi".to_string()],
        false,
        5004,
        None,
    );
    assert!(report.midi_in_ok && report.midi_out_ok && report.audio_backend_ok && report.rtp_port_ok);
    assert!(report.messages.is_empty());

    let report = preflight_report(&None, &[], &Some("Nope".to_string()), &[], true, &Some("asio".to_string()), &["WASAPI".to_string()], true, 5004, Some(false));
    assert_eq!(
        report.messages,
        vec![
            "MIDI IN manquant ou non configure".to_string(),
            "MIDI OUT manquant ou non configure".to_string(),
            "Backend audio indisponible (asio)".to_string(),
            "Port RTP 5004 deja utilise".to_string(),
        ]
    );
    let report = preflight_report(&None, &[], &None, &[], true, &Some("Wasapi".to_string()), &["WASAPI".to_string()], false, 1, None);
    assert!(report.audio_backend_ok);
}

#[test]
fn activity_counts_per_source_and_forgets_silent_ones() {
    let mut tracker = MidiActivityTracker::new();
    tracker.record("A", &[0x90, 60, 100], 1_000);
    tracker.record("A", &[0xB0, 7, 1], 1_500);
    tracker.record("B", &[0x81, 40, 0], 2_000);
    let snap = tracker.snapshot_and_reset(2_000);
    assert_eq!(snap.len(), 2);
    assert_eq!(snap[0].source, "A");
    assert_eq!(snap[0].messages_per_sec, 2);
    assert_eq!(snap[0].last_note, Some(60));
    assert_eq!(snap[0].last_seen_ms, Some(1_500));
    assert_eq!(snap[1].last_channel, Some(1));
    let snap = tracker.snapshot_and_reset(301_600);
    assert_eq!(snap.len(), 2);
    assert_eq!(snap[0].messages_per_sec, 0);
    let snap = tracker.snapshot_and_reset(301_700);
    assert_eq!(snap.len(), 1);
    assert_eq!(snap[0].source, "B");
}
