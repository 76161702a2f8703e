use crossbeam_channel::bounded;
use oscmidi::config::{LoggingConfig, MidiConfig, OscConfig, RoutingAssignment, RoutingMapping, RoutingProfile};
use oscmidi::midi::MidiFrame;
use oscmidi::pipeline::{
    config_snapshot, handle_midi_frame, pipeline_metrics_snapshot, pipeline_stats,
    reset_pipeline_stats, should_sample_midi_debug, take_critical_midi_reset_request,
    try_enqueue_midi_frame, update_pipeline_queue_depth, EnqueueError, EnqueueOutcome,
    NoteEvent, OscAction, PipelineStats, send_fanout, FanoutOutcome,
};

fn frame(data: &[u8]) -> MidiFrame {
    MidiFrame { source: "test".to_string(), timestamp_ms: 0, data: data.to_vec() }
}

#[test]
fn pipeline_metrics_snapshot_tracks_queue_depth_and_counts() {
    let mut stats = PipelineStats::new();
    reset_pipeline_stats(&mut stats);
    stats.messages_in = 10;
    stats.messages_out = 9;
    update_pipeline_queue_depth(&mut stats, 7);
    update_pipeline_queue_depth(&mut stats, 3);

    let snapshot = pipeline_metrics_snapshot(&stats);

    assert_eq!(snapshot.queue_depth, 3);
    assert_eq!(snapshot.queue_max_depth, 7);
    assert_eq!(snapshot.messages_in, 10);
    assert_eq!(snapshot.messages_out, 9);
    assert_eq!(snapshot.messages_dropped, 0);
}

#[test]
fn midi_debug_sampling_is_rate_limited() {
    let mut stats = PipelineStats::new();
    stats.debug_sample_last_ms = 0;
    assert!(should_sample_midi_debug(&mut stats, 1_000));
    assert!(!should_sample_midi_debug(&mut stats, 1_001));
    assert!(!should_sample_midi_debug(&mut stats, 1_999));
    assert!(should_sample_midi_debug(&mut stats, 2_000));
}

#[test]
fn bounded_enqueue_reports_non_critical_drop() {
    let mut stats = PipelineStats::new();
    let (tx, _rx) = bounded(1);
    tx.try_send(frame(&[0x90, 60, 100])).expect("prefill");

    let outcome = try_enqueue_midi_frame(&tx, frame(&[0x90, 61, 100]), &mut stats)
        .expect("non-critical overflow is an outcome");

    assert_eq!(outcome, EnqueueOutcome::DroppedNonCritical);
}

#[test]
fn bounded_enqueue_reports_critical_drop_as_error() {
    let mut stats = PipelineStats::new();
    let (tx, _rx) = bounded(1);
    tx.try_send(frame(&[0x90, 60, 100])).expect("prefill");

    let error = try_enqueue_midi_frame(&tx, frame(&[0x80, 60, 0]), &mut stats)
        .expect_err("critical release must not look successfully queued");

    assert_eq!(error, EnqueueError::CriticalReleaseDropped);
    assert!(take_critical_midi_reset_request(&mut stats));
    assert!(!take_critical_midi_reset_request(&mut stats));
}

#[test]
fn enqueue_into_room_and_into_a_closed_queue() {
    let mut stats = PipelineStats::new();
    let (tx, rx) = bounded(2);
    assert_eq!(try_enqueue_midi_frame(&tx, frame(&[0x90, 60, 100]), &mut stats), Ok(EnqueueOutcome::Enqueued));
    assert_eq!(rx.try_recv().expect("queued").data, vec![0x90, 60, 100]);
    drop(rx);
    assert_eq!(try_enqueue_midi_frame(&tx, frame(&[0x80, 60, 0]), &mut stats), Err(EnqueueError::Disconnected));
    assert!(take_critical_midi_reset_request(&mut stats));
    assert_eq!(pipeline_metrics_snapshot(&stats).messages_dropped, 0);
    assert_eq!(EnqueueError::Disconnected.message(), "Bridge not running");
}

fn profile(id: &str, channel: Option<u8>) -> RoutingProfile {
    RoutingProfile {
        id: id.to_string(),
        name: id.to_string(),
        enabled: true,
        channel_filter: channel,
        note_min: None,
        note_max: None,
        cc_map: vec![RoutingMapping { from: 7, to: 11 }],
        program_map: vec![],
    }
}

fn midi_config(profiles: Vec<RoutingProfile>, assignments: Vec<RoutingAssignment>) -> MidiConfig {
    let mut midi = MidiConfig::default();
    midi.routing_profiles = profiles;
    midi.routing_assignments = assignments;
    midi
}

#[test]
fn frame_plan_routes_counts_and_reports_keys() {
    let midi = midi_config(
        vec![profile("keys", Some(1))],
        vec![RoutingAssignment { source: "Piano".to_string(), profile_id: "keys".to_string() }],
    );
    let osc = OscConfig::default();
    let config = config_snapshot(&midi, &osc, &LoggingConfig::default());
    let mut sustain = vec![None; 16];
    let mut stats = PipelineStats::new();

    let piano = |data: &[u8]| MidiFrame { source: "Piano".to_string(), timestamp_ms: 5, data: data.to_vec() };

    // Channel 2 (status 0x91) is filtered out by a profile that keeps channel 1.
    let plan = handle_midi_frame(&config, piano(&[0x91, 60, 100]), &mut sustain, &mut stats, true, true, true, true, true);
    assert!(plan.rejected);
    assert!(!plan.to_audio);
    assert_eq!(pipeline_stats(&stats), (1, 0, 1));

    let plan = handle_midi_frame(&config, piano(&[0x90, 60, 100]), &mut sustain, &mut stats, true, true, true, true, true);
    assert!(!plan.rejected);
    assert!(plan.to_audio);
    assert!(plan.midi_thru);
    assert_eq!(plan.note_event, Some(NoteEvent { note: 60, channel: 0, pressed: true }));
    assert_eq!(plan.osc, Some(OscAction::Note { index: 39, pressed: true }));
    assert_eq!(pipeline_stats(&stats), (2, 1, 1));

    let plan = handle_midi_frame(&config, piano(&[0xB0, 7, 1]), &mut sustain, &mut stats, true, false, true, true, true);
    assert_eq!(plan.frame.data, vec![0xB0, 11, 1]);
    assert!(!plan.midi_thru);

    let plan = handle_midi_frame(&config, piano(&[0xB0, 64, 127]), &mut sustain, &mut stats, true, false, true, true, true);
    assert_eq!(plan.osc, Some(OscAction::Sustain(true)));
    let plan = handle_midi_frame(&config, piano(&[0xB0, 64, 127]), &mut sustain, &mut stats, true, false, true, true, true);
    assert_eq!(plan.osc, None);

    let plan = handle_midi_frame(&config, piano(&[0xF8]), &mut sustain, &mut stats, true, false, true, true, true);
    assert!(!plan.to_audio);
    let before = pipeline_stats(&stats);
    let plan = handle_midi_frame(&config, piano(&[0xF0, 1, 2]), &mut sustain, &mut stats, true, false, true, true, true);
    assert!(!plan.to_audio);
    assert_eq!(pipeline_stats(&stats).2, before.2 + 1);
}

#[test]
fn fanout_drops_are_counted() {
    let mut stats = PipelineStats::new();
    let (tx, rx) = bounded::<MidiFrame>(1);
    assert_eq!(send_fanout(&tx, frame(&[0x90, 60, 100]), &mut stats), FanoutOutcome::Delivered);
    assert_eq!(send_fanout(&tx, frame(&[0x90, 61, 100]), &mut stats), FanoutOutcome::Dropped);
    assert_eq!(stats.messages_dropped, 1);
    assert_eq!(send_fanout(&tx, frame(&[0x80, 60, 0]), &mut stats), FanoutOutcome::Dropped);
    assert_eq!(stats.messages_dropped, 2);
    assert!(!stats.critical_reset_requested);
    drop(rx);
    assert_eq!(send_fanout(&tx, frame(&[0x80, 60, 0]), &mut stats), FanoutOutcome::Dropped);
    assert_eq!(stats.messages_dropped, 3);
}
