use oscmidi::midi::{is_critical_release_message, parse_note, parse_sustain, MidiKind};
use oscmidi::osc::{OscMessageHandler, OscManager, OscParamUpdate};
use oscmidi::port_selector::MidiPortSelector;
use oscmidi::midi::MidiFrame;

#[test]
fn test_midi_message_creation() {
    let note_on = MidiPortSelector::create_note_on(0, 60, 100);
    assert_eq!(note_on, vec![0x90, 60, 100]);

    let note_off = MidiPortSelector::create_note_off(0, 60, 0);
    assert_eq!(note_off, vec![0x80, 60, 0]);

    let cc = MidiPortSelector::create_cc(0, 64, 127);
    assert_eq!(cc, vec![0xB0, 64, 127]);

    let pc = MidiPortSelector::create_program_change(0, 5);
    assert_eq!(pc, vec![0xC0, 5]);

    let pb = MidiPortSelector::create_pitch_bend(0, 0, 64);
    assert_eq!(pb, vec![0xE0, 0, 64]);
}

#[test]
fn test_sustain_detection() {
    assert!(MidiPortSelector::is_sustain_message(&[0xB0, 64, 127]));
    assert!(MidiPortSelector::is_sustain_message(&[0xB1, 64, 100]));

    assert!(MidiPortSelector::is_sustain_message(&[0xB0, 64, 0]));
    assert!(MidiPortSelector::is_sustain_message(&[0xB2, 64, 63]));

    assert!(!MidiPortSelector::is_sustain_message(&[0xB0, 7, 127]));
    assert!(!MidiPortSelector::is_sustain_message(&[0x90, 60, 100]));
}

#[test]
fn test_note_extraction() {
    let note_info = MidiPortSelector::extract_note_info(&[0x90, 60, 100]);
    assert_eq!(note_info, Some((0, 60, 100)));

    let note_info = MidiPortSelector::extract_note_info(&[0x81, 45, 0]);
    assert_eq!(note_info, Some((1, 45, 0)));

    let note_info = MidiPortSelector::extract_note_info(&[0xB0, 64, 127]);
    assert_eq!(note_info, None);
}

#[test]
fn test_midi_relevance() {
    assert!(OscMessageHandler::is_relevant_for_osc(&[0x90, 60, 100]));
    assert!(OscMessageHandler::is_relevant_for_osc(&[0x80, 60, 0]));
    assert!(OscMessageHandler::is_relevant_for_osc(&[0xB0, 64, 127]));
    assert!(OscMessageHandler::is_relevant_for_osc(&[0xC0, 5]));
    assert!(OscMessageHandler::is_relevant_for_osc(&[0xE0, 0, 64]));

    assert!(!OscMessageHandler::is_relevant_for_osc(&[]));
    assert!(!OscMessageHandler::is_relevant_for_osc(&[0xF0]));
}

#[test]
fn test_midi_message_types() {
    assert_eq!(OscMessageHandler::get_midi_message_type(&[0x90, 60, 100]), "Note On");
    assert_eq!(OscMessageHandler::get_midi_message_type(&[0x80, 60, 0]), "Note Off");
    assert_eq!(OscMessageHandler::get_midi_message_type(&[0xB0, 64, 127]), "Control Change");
    assert_eq!(OscMessageHandler::get_midi_message_type(&[0xC0, 5]), "Program Change");
    assert_eq!(OscMessageHandler::get_midi_message_type(&[0xE0, 0, 64]), "Pitch Bend");
    assert_eq!(OscMessageHandler::get_midi_message_type(&[]), "inconnu");
}

#[test]
fn message_types_cover_the_remaining_statuses() {
    assert_eq!(OscMessageHandler::get_midi_message_type(&[0xA3, 60, 10]), "Aftertouch");
    assert_eq!(OscMessageHandler::get_midi_message_type(&[0xD0, 10]), "Channel Pressure");
    assert_eq!(OscMessageHandler::get_midi_message_type(&[0xF8]), "System");
}

#[test]
fn note_parsing_treats_zero_velocity_as_release() {
    let n = parse_note(&[0x93, 60, 0]).expect("note");
    assert_eq!(n.kind, MidiKind::NoteOff);
    assert_eq!(n.channel, 3);
    assert_eq!(n.index, Some(39));
    let high = parse_note(&[0x90, 120, 10]).expect("note");
    assert_eq!(high.index, None);
    assert!(parse_note(&[0x90, 60]).is_none());
}

#[test]
fn sustain_parsing_reads_channel_and_pedal() {
    let s = parse_sustain(&[0xB5, 64, 64]).expect("sustain");
    assert_eq!(s.channel, 5);
    assert!(s.pressed);
    assert!(!parse_sustain(&[0xB5, 64, 63]).expect("sustain").pressed);
}

#[test]
fn critical_releases_are_note_offs_and_pedal_releases() {
    assert!(is_critical_release_message(&[0x80, 60, 0]));
    assert!(is_critical_release_message(&[0x90, 60, 0]));
    assert!(is_critical_release_message(&[0xB0, 64, 10]));
    assert!(!is_critical_release_message(&[0xB0, 64, 100]));
    assert!(!is_critical_release_message(&[0x90, 60, 1]));
    assert!(!is_critical_release_message(&[]));
}

#[test]
fn built_messages_read_back() {
    let on = MidiPortSelector::create_note_on(7, 64, 90);
    assert_eq!(MidiPortSelector::extract_note_info(&on), Some((7, 64, 90)));
    let pedal = MidiPortSelector::create_cc(18, 64, 70);
    assert_eq!(pedal[0], 0xB2);
    let s = parse_sustain(&pedal).expect("sustain");
    assert_eq!(s.channel, 2);
    assert!(s.pressed);
}

fn frame(data: &[u8]) -> MidiFrame {
    MidiFrame { source: "test".to_string(), timestamp_ms: 0, data: data.to_vec() }
}

#[test]
fn osc_updates_follow_the_frame_kind() {
    let mut osc = OscManager::new();
    assert_eq!(osc.send_midi_frame(&frame(&[0x90, 60, 100])), None);
    osc.initialize(true, Some("127.0.0.1:9000".to_string()), Some(true));
    assert!(osc.is_enabled());
    assert_eq!(osc.target(), Some("127.0.0.1:9000"));
    let on = osc.send_midi_frame(&frame(&[0x90, 60, 100])).expect("update");
    assert_eq!(on, OscParamUpdate::Numbered { number: 40, value: true });
    assert_eq!(on.path(), "/avatar/parameters/40");
    assert_eq!(osc.send_midi_frame(&frame(&[0xB0, 64, 64])), Some(OscParamUpdate::Sustain(true)));
    assert_eq!(OscParamUpdate::Sustain(true).path(), "/avatar/parameters/sustain");
    assert_eq!(osc.send_midi_frame(&frame(&[0xB0, 7, 1])), Some(OscParamUpdate::Numbered { number: 8, value: true }));
    assert_eq!(osc.send_midi_frame(&frame(&[0xC0, 0])), Some(OscParamUpdate::ProgramChange(false)));
    assert_eq!(osc.send_midi_frame(&frame(&[0xE0, 0, 64])), Some(OscParamUpdate::PitchBend(false)));
    assert_eq!(osc.send_midi_frame(&frame(&[0xE0, 0, 127])), Some(OscParamUpdate::PitchBend(true)));
    assert_eq!(osc.send_midi_frame(&frame(&[0xB0, 20, 1])), None);
    osc.close();
    assert!(!osc.is_enabled());
    assert_eq!(osc.send_midi_frame(&frame(&[0x90, 60, 100])), None);
}

#[test]
fn osc_failed_connection_disables() {
    let mut osc = OscManager::new();
    osc.initialize(true, Some("host".to_string()), Some(false));
    assert!(!osc.is_enabled());
    osc.initialize(true, None, None);
    assert!(osc.is_enabled());
    assert_eq!(osc.target(), None);
}
