use oscmidi::state_codec::{
    decode_state, encode_state_chunk, encode_state_document, encode_state_params,
    state_policy_for_entry, unsafe_dense_zero_values, unsafe_legacy_parameter_snapshot,
    unsafe_legacy_parameter_values, SavedState, StateDocument, StateParameter, StatePolicy,
    ARCH_X64, FORMAT_VST3, STATE_VERSION_V2, STATE_VERSION_V3,
};

fn empty_document() -> StateDocument {
    StateDocument {
        state_version: 0,
        state_policy: StatePolicy::NativePreferred,
        plugin_id: String::new(),
        class_uid: String::new(),
        format: 0,
        architecture: 0,
        file_modified_ms: 0,
        file_size: 0,
        program: 0,
        vst2_bank: Vec::new(),
        vst2_preset: Vec::new(),
        vst3_state: Vec::new(),
        parameters: Vec::new(),
    }
}

fn parameter(id: u32, index: u32, value: f32) -> StateParameter {
    StateParameter { id, index, flags: 0, name: String::new(), value_bits: value.to_bits() }
}

#[test]
fn state_codec_round_trip_chunk() {
    let payload = vec![1u8, 2, 3, 4, 5];
    let encoded = encode_state_chunk(&payload);
    match decode_state(&encoded) {
        SavedState::Chunk(data) => assert_eq!(data, payload),
        _ => panic!("Expected chunk payload"),
    }
}

#[test]
fn state_codec_round_trip_params() {
    let params: Vec<u32> = vec![0.0f32, 0.5, 1.0].into_iter().map(f32::to_bits).collect();
    let encoded = encode_state_params(&params);
    match decode_state(&encoded) {
        SavedState::Params(data) => assert_eq!(data, params),
        _ => panic!("Expected params payload"),
    }
}

#[test]
fn state_codec_raw_when_no_header() {
    let payload = vec![9u8, 8, 7];
    match decode_state(&payload) {
        SavedState::Raw(data) => assert_eq!(data, payload),
        _ => panic!("Expected raw payload"),
    }
}

#[test]
fn state_v3_round_trip_and_checksum_validation() {
    let mut document = empty_document();
    document.plugin_id = "vst-test".into();
    document.class_uid = "class-test".into();
    document.format = FORMAT_VST3;
    document.architecture = ARCH_X64;
    document.file_modified_ms = 123;
    document.file_size = 456;
    document.program = 2;
    document.vst3_state = vec![1, 2, 3];
    document.parameters = vec![StateParameter { id: 42, index: 3, flags: 0, name: "Gain".into(), value_bits: 0.75f32.to_bits() }];
    let encoded = encode_state_document(&document);
    assert_eq!(encoded[4], STATE_VERSION_V3);
    let SavedState::V2(decoded) = decode_state(&encoded) else {
        panic!("expected versioned state document")
    };
    assert_eq!(decoded.state_version, STATE_VERSION_V3);
    assert_eq!(decoded.plugin_id, document.plugin_id);
    assert_eq!(decoded.vst3_state, document.vst3_state);
    assert_eq!(decoded.parameters[0].id, 42);
    let mut corrupted = encoded;
    corrupted[12] ^= 0x80;
    assert!(matches!(decode_state(&corrupted), SavedState::Raw(_)));
}

#[test]
fn upright_dense_zero_legacy_snapshot_is_rejected_but_sparse_state_is_kept() {
    let policy = state_policy_for_entry("VST3", true);
    assert_eq!(policy, StatePolicy::TrackedParametersOnly);
    let mut dense = empty_document();
    dense.state_version = STATE_VERSION_V2;
    dense.state_policy = StatePolicy::LegacyFullSnapshot;
    dense.parameters = (0..2_086).map(|index| parameter(index, index, 0.0)).collect();
    assert!(unsafe_legacy_parameter_snapshot(&dense, policy));

    let mut sparse = empty_document();
    sparse.state_version = STATE_VERSION_V3;
    sparse.state_policy = StatePolicy::TrackedParametersOnly;
    sparse.parameters = vec![parameter(42, 4, 0.75)];
    assert!(!unsafe_legacy_parameter_snapshot(&sparse, policy));
}

#[test]
fn full_document_round_trips_every_field() {
    let mut document = empty_document();
    document.state_policy = StatePolicy::StateUnsupported;
    document.plugin_id = "id-é".into();
    document.class_uid = "uid".into();
    document.format = 2;
    document.architecture = 1;
    document.file_modified_ms = u64::MAX;
    document.file_size = 7;
    document.program = -5;
    document.vst2_bank = vec![9; 40];
    document.vst2_preset = vec![8];
    document.parameters = vec![parameter(1, 2, -0.5), StateParameter { id: 3, index: 4, flags: 2, name: "Pan".into(), value_bits: 1.0f32.to_bits() }];
    let encoded = encode_state_document(&document);
    let SavedState::V2(d) = decode_state(&encoded) else { panic!("document") };
    assert_eq!(d.state_policy, StatePolicy::StateUnsupported);
    assert_eq!(d.plugin_id, "id-é");
    assert_eq!(d.program, -5);
    assert_eq!(d.file_modified_ms, u64::MAX);
    assert_eq!(d.vst2_bank, vec![9; 40]);
    assert_eq!(d.parameters.len(), 2);
    assert_eq!(d.parameters[1].name, "Pan");
    assert_eq!(d.parameters[1].flags, 2);
    assert_eq!(f32::from_bits(d.parameters[0].value_bits), -0.5);
}

#[test]
fn non_finite_parameter_values_are_refused() {
    let mut document = empty_document();
    document.parameters = vec![parameter(1, 1, f32::NAN)];
    let encoded = encode_state_document(&document);
    assert!(matches!(decode_state(&encoded), SavedState::Raw(_)));
}

#[test]
fn version_one_parameter_file_with_wrong_length_is_raw() {
    let mut encoded = encode_state_params(&[1, 2]);
    encoded.push(0);
    assert!(matches!(decode_state(&encoded), SavedState::Raw(_)));
}

#[test]
fn dense_zero_rule_needs_512_values_and_nine_tenths() {
    assert!(!unsafe_dense_zero_values(511, 511));
    assert!(unsafe_dense_zero_values(512, 461));
    assert!(!unsafe_dense_zero_values(512, 460));
    assert!(unsafe_dense_zero_values(usize::MAX, usize::MAX));
    let zeros = vec![0.0f32.to_bits(); 600];
    assert!(unsafe_legacy_parameter_values(&zeros, StatePolicy::TrackedParametersOnly));
    assert!(!unsafe_legacy_parameter_values(&zeros, StatePolicy::NativePreferred));
}

#[test]
fn only_flagged_vst3_plugins_use_tracked_parameters() {
    assert_eq!(state_policy_for_entry("vst3", true), StatePolicy::TrackedParametersOnly);
    assert_eq!(state_policy_for_entry("VST3", false), StatePolicy::NativePreferred);
    assert_eq!(state_policy_for_entry("VST2", true), StatePolicy::NativePreferred);
}
