use oscmidi::bridge_config::{BridgeConfig, ConfigSnapshot as BridgeSnapshot};
use oscmidi::config::{RoutingMapping, RoutingProfile};
use oscmidi::midi::MidiFrame;
use oscmidi::routing::RoutingProfileRuntime;

#[test]
fn test_routing_profile_creation() {
    let profile = RoutingProfile {
        id: "test".to_string(),
        name: "test".to_string(),
        channel_filter: Some(1),
        note_min: Some(60),
        note_max: Some(72),
        cc_map: vec![RoutingMapping { from: 1, to: 10 }, RoutingMapping { from: 2, to: 20 }],
        program_map: vec![RoutingMapping { from: 5, to: 15 }],
        enabled: true,
    };

    let runtime = RoutingProfileRuntime::from_profile(&profile);

    assert_eq!(runtime.id, "test");
    assert_eq!(runtime.channel_filter, Some(1));
    assert_eq!(runtime.cc_map[1], 10);
    assert_eq!(runtime.cc_map[2], 20);
    assert_eq!(runtime.program_map[5], 15);
}

#[test]
fn test_routing_profile_filtering() {
    let profile = RoutingProfile {
        id: "test".to_string(),
        name: "test".to_string(),
        channel_filter: Some(2),
        note_min: Some(60),
        note_max: Some(72),
        cc_map: vec![],
        program_map: vec![],
        enabled: true,
    };

    let runtime = RoutingProfileRuntime::from_profile(&profile);

    let mut frame = MidiFrame { source: "test".into(), timestamp_ms: 0, data: vec![0x90, 60, 100] };

    assert!(!runtime.apply_to_frame(&mut frame));

    frame.data[0] = 0x92;
    assert!(runtime.apply_to_frame(&mut frame));

    frame.data[1] = 50;
    assert!(!runtime.apply_to_frame(&mut frame));

    frame.data[1] = 65;
    assert!(runtime.apply_to_frame(&mut frame));
}

#[test]
fn routing_renumbers_controllers_and_programs() {
    let profile = RoutingProfile {
        id: "p".to_string(),
        name: "p".to_string(),
        channel_filter: None,
        note_min: None,
        note_max: None,
        cc_map: vec![RoutingMapping { from: 1, to: 10 }, RoutingMapping { from: 1, to: 11 }, RoutingMapping { from: 200, to: 3 }],
        program_map: vec![RoutingMapping { from: 5, to: 15 }],
        enabled: true,
    };
    let runtime = RoutingProfileRuntime::from_profile(&profile);
    assert_eq!(runtime.cc_map.len(), 128);
    assert_eq!(runtime.cc_map[1], 11);
    assert_eq!(runtime.cc_map[3], 3);
    let mut cc = MidiFrame { source: "s".into(), timestamp_ms: 9, data: vec![0xB4, 1, 99] };
    assert!(runtime.apply_to_frame(&mut cc));
    assert_eq!(cc.data, vec![0xB4, 11, 99]);
    let mut pc = MidiFrame { source: "s".into(), timestamp_ms: 9, data: vec![0xC0, 5] };
    assert!(runtime.apply_to_frame(&mut pc));
    assert_eq!(pc.data, vec![0xC0, 15]);
    let mut empty = MidiFrame { source: "s".into(), timestamp_ms: 9, data: vec![] };
    assert!(runtime.apply_to_frame(&mut empty));
}

#[test]
fn bridge_snapshot_copies_the_settings() {
    let profile = RoutingProfile {
        id: "p".to_string(),
        name: "p".to_string(),
        channel_filter: None,
        note_min: None,
        note_max: None,
        cc_map: vec![],
        program_map: vec![],
        enabled: true,
    };
    let config = BridgeConfig {
        midi_in: Some("in".to_string()),
        midi_out: None,
        rtp_enabled: true,
        rtp_port: 5004,
        rtp_remote_enabled: false,
        rtp_remote_targets: vec![],
        rtp_log: false,
        osc_enabled: true,
        osc_target: Some("127.0.0.1:9000".to_string()),
        routing_profiles: vec![RoutingProfileRuntime::from_profile(&profile)],
        routing_assignments: vec![("in".to_string(), 0)],
    };
    let snap = BridgeSnapshot::from_bridge_config(&config);
    assert_eq!(snap.midi_in.as_deref(), Some("in"));
    assert_eq!(snap.rtp_port, 5004);
    assert_eq!(snap.osc_target.as_deref(), Some("127.0.0.1:9000"));
    assert_eq!(snap.routing_profiles.len(), 1);
    assert_eq!(snap.routing_profiles[0].id, "p");
    assert_eq!(snap.routing_assignments, vec![("in".to_string(), 0)]);
}
