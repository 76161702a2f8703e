use oscmidi::midi_io::{reset_output_messages, select_port, test_cc_message, test_note_messages};

#[test]
fn ports_are_selected_by_contained_name() {
    let ports = vec![None, Some("USB MIDI 1".to_string()), Some("Loop".to_string())];
    assert_eq!(select_port(&ports, Some("MIDI")), Some(1));
    assert_eq!(select_port(&ports, Some("Loop")), Some(2));
    assert_eq!(select_port(&ports, Some("Missing")), None);
    assert_eq!(select_port(&ports, None), None);
}

#[test]
fn output_reset_covers_every_channel() {
    let messages = reset_output_messages();
    assert_eq!(messages.len(), 80);
    assert_eq!(messages[0], [0xB0, 64, 0]);
    assert_eq!(messages[1], [0xB0, 120, 0]);
    assert_eq!(messages[2], [0xB0, 121, 0]);
    assert_eq!(messages[3], [0xB0, 123, 0]);
    assert_eq!(messages[4], [0xE0, 0x00, 0x40]);
    assert_eq!(messages[79], [0xEF, 0x00, 0x40]);
}

#[test]
fn test_messages_clamp_channel_and_data() {
    assert_eq!(test_note_messages(60, 100, 1), ([0x90, 60, 100], [0x80, 60, 0]));
    assert_eq!(test_note_messages(200, 200, 0), ([0x90, 127, 127], [0x80, 127, 0]));
    assert_eq!(test_note_messages(60, 100, 20).0, [0x9F, 60, 100]);
    assert_eq!(test_cc_message(7, 90, 16), [0xBF, 7, 90]);
    assert_eq!(test_cc_message(130, 128, 3), [0xB2, 127, 127]);
}
