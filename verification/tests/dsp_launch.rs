use oscmidi::dsp_launch::{
    bridge_object_names, check_bridge_block_size, check_worker_output_channels, parse_dsp_args,
    parse_unsigned, worker_arguments, DspArgs,
};

fn args(list: &[&str]) -> Vec<String> {
    list.iter().map(|s| s.to_string()).collect()
}

fn sample() -> DspArgs {
    DspArgs {
        mapping_name: "Local\\OSCMidi-VST-abc".to_string(),
        event_name: "Local\\OSCMidi-VST-Request-abc".to_string(),
        token: 18_446_744_073_709_551_615,
        plugin: "C:\\Plugins\\Organ.dll".to_string(),
        plugin_id: "organ".to_string(),
        sample_rate: 48_000,
        max_block_size: 512,
        class_uid: Some("ABCD".to_string()),
    }
}

#[test]
fn unsigned_numbers_parse_like_the_standard_library() {
    assert_eq!(parse_unsigned("42", u64::MAX), Some(42));
    assert_eq!(parse_unsigned("+7", u64::MAX), Some(7));
    assert_eq!(parse_unsigned("18446744073709551615", u64::MAX), Some(u64::MAX));
    assert_eq!(parse_unsigned("18446744073709551616", u64::MAX), None);
    assert_eq!(parse_unsigned("4294967296", u32::MAX as u64), None);
    assert_eq!(parse_unsigned("", u64::MAX), None);
    assert_eq!(parse_unsigned("+", u64::MAX), None);
    assert_eq!(parse_unsigned("-1", u64::MAX), None);
    assert_eq!(parse_unsigned("1 ", u64::MAX), None);
    for text in ["0", "+12", "007", "99999999999999999999", "1a"] {
        assert_eq!(parse_unsigned(text, u64::MAX), text.parse::<u64>().ok());
    }
}

#[test]
fn worker_reads_back_its_command_line() {
    let d = sample();
    let line = worker_arguments(&d);
    assert_eq!(line.len(), 16);
    assert_eq!(line[4], "--bridge-token");
    assert_eq!(line[5], "18446744073709551615");
    let parsed = parse_dsp_args(&line).expect("bridge mode").expect("valid");
    assert_eq!(parsed.mapping_name, d.mapping_name);
    assert_eq!(parsed.event_name, d.event_name);
    assert_eq!(parsed.token, d.token);
    assert_eq!(parsed.plugin, d.plugin);
    assert_eq!(parsed.plugin_id, d.plugin_id);
    assert_eq!(parsed.sample_rate, 48_000);
    assert_eq!(parsed.max_block_size, 512);
    assert_eq!(parsed.class_uid.as_deref(), Some("ABCD"));
}

#[test]
fn worker_command_line_errors_name_the_first_problem() {
    assert!(parse_dsp_args(&args(&["--plugin", "x"])).is_none());
    match parse_dsp_args(&args(&["--dsp-bridge", "m"])) {
        Some(Err(e)) => assert_eq!(e, "Missing --request-event"),
        _ => panic!("expected an error"),
    }
    match parse_dsp_args(&args(&["--request-event", "e", "--dsp-bridge"])) {
        Some(Err(e)) => assert_eq!(e, "Missing value for --dsp-bridge"),
        _ => panic!("expected an error"),
    }
    let bad_token = args(&["--dsp-bridge", "m", "--request-event", "e", "--bridge-token", "x"]);
    match parse_dsp_args(&bad_token) {
        Some(Err(e)) => assert_eq!(e, "Invalid bridge token"),
        _ => panic!("expected an error"),
    }
    let bad_rate = args(&[
        "--dsp-bridge", "m", "--request-event", "e", "--bridge-token", "1", "--plugin", "p",
        "--plugin-id", "i", "--sample-rate", "99999999999", "--max-block-size", "64",
    ]);
    match parse_dsp_args(&bad_rate) {
        Some(Err(e)) => assert_eq!(e, "Invalid sample rate"),
        _ => panic!("expected an error"),
    }
}

#[test]
fn launch_checks_report_their_limits() {
    assert!(check_bridge_block_size(8192).is_ok());
    assert_eq!(
        check_bridge_block_size(8193),
        Err("x86 bridge supports blocks up to 8192 frames, requested 8193".to_string())
    );
    assert!(check_worker_output_channels(2).is_ok());
    assert_eq!(
        check_worker_output_channels(0),
        Err("Unsupported x86 plugin output count: 0".to_string())
    );
    assert!(check_worker_output_channels(65).is_err());
}

#[test]
fn bridge_objects_are_named_after_the_nonce() {
    let names = bridge_object_names("abc");
    assert_eq!(names.mapping_name, "Local\\OSCMidi-VST-abc");
    assert_eq!(names.event_name, "Local\\OSCMidi-VST-Request-abc");
    assert_eq!(names.token, 0xe71fa2190541574b);
}
