use oscmidi::state_codec::{SavedState, StateDocument, StateParameter, StatePolicy};
use oscmidi::state_restore::{
    candidate_verdict, clamp_unit_bits, diagnostic_restore_plan, document_has_state,
    sparse_parameters_to_save, state_file_name, values_as_parameters, vst2_parameter_writes,
    vst2_program_in_range, vst3_parameter_writes, CandidateVerdict, DiagnosticRestore,
    ParameterInfo, ParameterWrite, new_state_document, vst3_capture_for, Vst3Capture,
    old_stable_identity, old_state_file_name, legacy_state_file_name, state_files_to_try,
    StateFileCandidate, new_state_document_for, VstPluginEntry,
};
use oscmidi::state_codec::{ARCH_X64, ARCH_X86, FORMAT_VST2, FORMAT_VST3, STATE_VERSION_V3};

fn document(plugin_id: &str) -> StateDocument {
    StateDocument {
        state_version: 3,
        state_policy: StatePolicy::NativePreferred,
        plugin_id: plugin_id.to_string(),
        class_uid: String::new(),
        format: 0,
        architecture: 0,
        file_modified_ms: 0,
        file_size: 0,
        program: 0,
        vst2_bank: Vec::new(),
        vst2_preset: Vec::new(),
        vst3_state: Vec::new(),
        parameters: Vec::new(),
    }
}

fn info(index: u32, id: u32, flags: u32, name: &str) -> ParameterInfo {
    ParameterInfo { index, id, flags, name: name.to_string() }
}

fn saved(id: u32, index: u32, name: &str, value: f32) -> StateParameter {
    StateParameter { id, index, flags: 0, name: name.to_string(), value_bits: value.to_bits() }
}

#[test]
fn values_are_clamped_to_the_unit_range() {
    assert_eq!(clamp_unit_bits((-0.5f32).to_bits()), 0.0f32.to_bits());
    assert_eq!(clamp_unit_bits(1.5f32.to_bits()), 1.0f32.to_bits());
    assert_eq!(clamp_unit_bits(0.25f32.to_bits()), 0.25f32.to_bits());
    assert_eq!(clamp_unit_bits((-0.0f32).to_bits()), (-0.0f32).to_bits());
}

#[test]
fn vst3_writes_match_by_id_then_by_index_and_name() {
    let current = vec![info(0, 100, 0, "Volume"), info(1, 200, 2, "Meter"), info(2, 300, 0, "Pan")];
    let saved_params = vec![
        saved(100, 9, "", 0.5),
        saved(200, 1, "", 0.5),
        saved(999, 2, "PAN", 2.0),
        saved(998, 2, "Other", 0.3),
        saved(997, 0, "Volume", f32::NAN),
    ];
    let writes = vst3_parameter_writes(&current, &saved_params);
    assert_eq!(
        writes,
        vec![
            ParameterWrite { index: 0, value_bits: 0.5f32.to_bits() },
            ParameterWrite { index: 2, value_bits: 1.0f32.to_bits() },
        ]
    );
}

#[test]
fn vst2_writes_go_by_index_when_names_agree() {
    let names = vec!["Volume".to_string(), "Pan".to_string()];
    let saved_params = vec![
        saved(0, 0, "volume", 0.75),
        saved(1, 1, "Tone", 0.5),
        saved(2, 5, "", 0.5),
        saved(3, 1, "", -1.0),
    ];
    let writes = vst2_parameter_writes(&names, &saved_params);
    assert_eq!(
        writes,
        vec![
            ParameterWrite { index: 0, value_bits: 0.75f32.to_bits() },
            ParameterWrite { index: 1, value_bits: 0.0f32.to_bits() },
        ]
    );
}

#[test]
fn version_one_values_become_positional_parameters() {
    let params = values_as_parameters(&[1, 2]);
    assert_eq!(params.len(), 2);
    assert_eq!((params[1].id, params[1].index, params[1].value_bits), (1, 1, 2));
    assert!(params[1].name.is_empty());
}

#[test]
fn sparse_save_keeps_known_writable_finite_values() {
    let meta = vec![info(0, 10, 0, "A"), info(1, 20, 2, "B")];
    let reported = vec![(10, 2.0f32.to_bits()), (20, 0.5f32.to_bits()), (30, 0.5f32.to_bits())];
    let params = sparse_parameters_to_save(&meta, &reported);
    assert_eq!(params.len(), 1);
    assert_eq!((params[0].id, params[0].index, params[0].value_bits), (10, 0, 1.0f32.to_bits()));
    assert_eq!(params[0].name, "A");
}

#[test]
fn candidate_files_of_other_plugins_are_skipped() {
    let doc = SavedState::V2(document("other"));
    assert_eq!(candidate_verdict(&doc, "mine", StatePolicy::NativePreferred), CandidateVerdict::OtherPlugin);
    let doc = SavedState::V2(document("mine"));
    assert_eq!(candidate_verdict(&doc, "mine", StatePolicy::NativePreferred), CandidateVerdict::Use);
    let zeros = SavedState::Params(vec![0; 512]);
    assert_eq!(
        candidate_verdict(&zeros, "mine", StatePolicy::TrackedParametersOnly),
        CandidateVerdict::ArchiveUnsafe
    );
    assert_eq!(candidate_verdict(&SavedState::Raw(vec![1]), "mine", StatePolicy::TrackedParametersOnly), CandidateVerdict::Use);
}

#[test]
fn diagnostic_restore_follows_the_policy() {
    let mut doc = document("mine");
    doc.vst3_state = vec![7, 8];
    match diagnostic_restore_plan(SavedState::V2(doc), "mine", StatePolicy::NativePreferred) {
        Ok(DiagnosticRestore::Native(bytes)) => assert_eq!(bytes, vec![7, 8]),
        _ => panic!("expected native state"),
    }
    match diagnostic_restore_plan(SavedState::V2(document("other")), "mine", StatePolicy::NativePreferred) {
        Err(e) => assert_eq!(e, "state belongs to a different plug-in identity"),
        _ => panic!("expected refusal"),
    }
    match diagnostic_restore_plan(SavedState::Chunk(vec![1]), "mine", StatePolicy::TrackedParametersOnly) {
        Err(e) => assert_eq!(e, "legacy native state is disabled by the compatibility profile"),
        _ => panic!("expected refusal"),
    }
    match diagnostic_restore_plan(SavedState::Params(vec![5]), "mine", StatePolicy::NativePreferred) {
        Ok(DiagnosticRestore::Parameters(ps)) => {
            assert_eq!(ps.len(), 1);
            assert_eq!((ps[0].id, ps[0].index, ps[0].value_bits), (0, 0, 5));
        }
        _ => panic!("expected parameters"),
    }
}

#[test]
fn empty_documents_are_not_saved() {
    let mut doc = document("mine");
    assert!(!document_has_state(&doc));
    doc.vst2_preset = vec![1];
    assert!(document_has_state(&doc));
}

#[test]
fn vst2_program_must_be_a_preset() {
    assert!(vst2_program_in_range(0, 4));
    assert!(!vst2_program_in_range(4, 4));
    assert!(!vst2_program_in_range(-1, 4));
    assert!(!vst2_program_in_range(0, -3));
}

#[test]
fn state_file_names_carry_the_hashed_identity() {
    assert_eq!(state_file_name("Piano.vst3", "a"), "Piano.vst3-af63dc4c8601ec8c.state");
    assert_eq!(state_file_name("Piano.vst3", ""), "Piano.vst3-cbf29ce484222325.state");
}

#[test]
fn captured_documents_start_from_the_plugin_entry() {
    let doc = new_state_document("id", Some("uid"), "vst3", "X86", Some(7), None, true);
    assert_eq!(doc.state_version, STATE_VERSION_V3);
    assert_eq!(doc.state_policy, StatePolicy::TrackedParametersOnly);
    assert_eq!(doc.plugin_id, "id");
    assert_eq!(doc.class_uid, "uid");
    assert_eq!(doc.format, FORMAT_VST3);
    assert_eq!(doc.architecture, ARCH_X86);
    assert_eq!(doc.file_modified_ms, 7);
    assert_eq!(doc.file_size, 0);
    assert_eq!(doc.program, -1);
    assert!(!document_has_state(&doc));
    let doc = new_state_document("id", None, "VST2", "x64", None, Some(3), true);
    assert_eq!(doc.state_policy, StatePolicy::NativePreferred);
    assert_eq!(doc.class_uid, "");
    assert_eq!(doc.format, FORMAT_VST2);
    assert_eq!(doc.architecture, ARCH_X64);
    assert_eq!(doc.file_size, 3);
}

#[test]
fn vst3_capture_follows_the_policy() {
    assert_eq!(vst3_capture_for(StatePolicy::NativePreferred), Vst3Capture::ParametersAndNative);
    assert_eq!(vst3_capture_for(StatePolicy::LegacyFullSnapshot), Vst3Capture::ParametersAndNative);
    assert_eq!(vst3_capture_for(StatePolicy::TrackedParametersOnly), Vst3Capture::TrackedParameters);
    assert_eq!(vst3_capture_for(StatePolicy::StateUnsupported), Vst3Capture::Nothing);
}

#[test]
fn earlier_state_file_names_are_still_found() {
    assert_eq!(old_stable_identity("C:\\VST\\Piano.VST3", true, Some("UID")), "vst3:c:\\vst\\piano.vst3:UID");
    assert_eq!(old_stable_identity("/p/Organ.dll", false, None), "vst2:/p/organ.dll");
    assert_eq!(legacy_state_file_name("Organ.dll"), "Organ.dll.state");
    assert_eq!(old_state_file_name("Organ.dll", "/p/Organ.dll", false, None), state_file_name("Organ.dll", "vst2:/p/organ.dll"));
}

fn file(path: &str, exists: bool, modified_ms: Option<u64>) -> StateFileCandidate {
    StateFileCandidate { path: path.to_string(), exists, modified_ms }
}

#[test]
fn state_files_are_tried_primary_first_then_newest() {
    let historical = vec![
        file("a", true, Some(5)),
        file("b", true, Some(9)),
        file("p", true, Some(1)),
        file("c", false, Some(10)),
        file("d", true, None),
        file("a", true, Some(5)),
        file("e", true, Some(5)),
    ];
    let order = state_files_to_try("p".to_string(), historical);
    let expected: Vec<(String, bool)> = vec![
        ("p".to_string(), false),
        ("d".to_string(), true),
        ("b".to_string(), true),
        ("a".to_string(), true),
        ("e".to_string(), true),
    ];
    assert_eq!(order, expected);
    assert_eq!(state_files_to_try("p".to_string(), Vec::new()), vec![("p".to_string(), false)]);
}

#[test]
fn catalogue_entries_start_their_documents() {
    let entry = VstPluginEntry {
        name: "Organ".to_string(),
        path: "/p/Organ.vst3".to_string(),
        format: "VST3".to_string(),
        kind: "instrument".to_string(),
        architecture: "x64".to_string(),
        supported: true,
        unsupported_reason: None,
        midi_compatible: Some(true),
        has_editor: true,
        channel_layout: None,
        class_uid: Some("C1".to_string()),
        file_modified_ms: Some(11),
        file_size: Some(22),
        host_abi_version: 1,
    };
    let doc = new_state_document_for(&entry, "organ-id", false);
    assert_eq!(doc.plugin_id, "organ-id");
    assert_eq!(doc.class_uid, "C1");
    assert_eq!(doc.format, FORMAT_VST3);
    assert_eq!(doc.architecture, ARCH_X64);
    assert_eq!((doc.file_modified_ms, doc.file_size), (11, 22));
    assert_eq!(doc.state_policy, StatePolicy::NativePreferred);
}
