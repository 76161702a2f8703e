use oscmidi::config::{config_load_action, RoutingMapping, RoutingProfile, ConfigVersionAction};
use oscmidi::dsp_slots::{
    control_busy, host_control_poll, worker_control_action, command_status_after, HostControlPoll,
    WorkerControl, COMMAND_CLOSE_EDITOR, COMMAND_FAILED, COMMAND_NONE, COMMAND_OK,
    COMMAND_OPEN_EDITOR, COMMAND_PENDING, COMMAND_SAVE_STATE,
};
use oscmidi::midi::MidiFrame;
use oscmidi::midi_queue::{
    after_push, reset_messages_for_channel, MidiPacket, MidiQueue, MidiSendOutcome, PushStep,
    CRITICAL_MIDI_PUSH_ATTEMPTS, MIDI_DRAIN_BUDGET_PER_CALLBACK,
};
use oscmidi::pipeline::{after_fanout_attempt, FanoutOutcome, FanoutStep, SendAttempt, FANOUT_CRITICAL_WAIT_MS};
use oscmidi::platform::requires_vst3_destructor_quarantine;
use oscmidi::plugin_load::{
    backend_kind, validate_plugin_channel_count, vst2_latency_samples, vst2_shell_plugin_id,
    BackendKind,
};
use oscmidi::routing::RoutingProfileRuntime;
use oscmidi::rtp::RtpManager;
use oscmidi::remote::{fixed_bytes, fixed_string};
use oscmidi::services::{audio_stress_summary, bridge_stress_summary, StressSegment};
use oscmidi::stream_config::{stereo_configs, stream_buffer_size, StreamConfigRange, SupportedBufferSize};
use oscmidi::telemetry::dsp_percentile_us;
use oscmidi::worker_protocol::{
    control_reply, load_warmup_ms, ControlOutcome, ControlReply, ControlRequest, WorkerErrorCode,
};
use rtrb::RingBuffer;

fn frame(data: &[u8]) -> MidiFrame {
    MidiFrame { source: "test".to_string(), timestamp_ms: 0, data: data.to_vec() }
}

#[test]
fn config_load_action_reads_the_version_field() {
    assert_eq!(config_load_action("version: 2\nmidi: {}\n"), Some(ConfigVersionAction::Migrate));
    assert_eq!(config_load_action("version: 3\n"), Some(ConfigVersionAction::Migrate));
    assert_eq!(config_load_action("version: 4\n"), Some(ConfigVersionAction::Current));
    assert_eq!(config_load_action("version: 9\n"), Some(ConfigVersionAction::Unsupported));
    assert_eq!(config_load_action("theme: dark\n"), Some(ConfigVersionAction::Unsupported));
    assert_eq!(config_load_action("version: [unclosed"), None);
}

#[test]
fn fanout_waits_only_for_a_full_critical_release() {
    assert!(matches!(after_fanout_attempt(SendAttempt::Sent), FanoutStep::Done(FanoutOutcome::Delivered)));
    match after_fanout_attempt(SendAttempt::Full(frame(&[0x80, 60, 0]))) {
        FanoutStep::WaitFor(f, ms) => {
            assert_eq!(f.data, vec![0x80, 60, 0]);
            assert_eq!(ms, FANOUT_CRITICAL_WAIT_MS);
        }
        _ => panic!("a critical release waits"),
    }
    assert!(matches!(
        after_fanout_attempt(SendAttempt::Full(frame(&[0x90, 60, 100]))),
        FanoutStep::Done(FanoutOutcome::Dropped)
    ));
    assert!(matches!(
        after_fanout_attempt(SendAttempt::Disconnected(frame(&[0x80, 60, 0]))),
        FanoutStep::Done(FanoutOutcome::Dropped)
    ));
}

#[test]
fn push_steps_retry_critical_releases_then_reset() {
    assert_eq!(after_push(true, true, 0), PushStep::Finish(MidiSendOutcome::Sent));
    assert_eq!(after_push(false, false, 0), PushStep::Finish(MidiSendOutcome::DroppedNonCritical));
    assert_eq!(after_push(false, true, 0), PushStep::Retry);
    assert_eq!(after_push(false, true, CRITICAL_MIDI_PUSH_ATTEMPTS - 1), PushStep::Retry);
    assert_eq!(
        after_push(false, true, CRITICAL_MIDI_PUSH_ATTEMPTS),
        PushStep::Finish(MidiSendOutcome::CriticalFallbackReset)
    );
}

#[test]
fn drain_reports_whether_the_ring_ran_dry() {
    let (mut tx, mut rx) = RingBuffer::<MidiPacket>::new(MIDI_DRAIN_BUDGET_PER_CALLBACK + 128);
    for i in 0..(MIDI_DRAIN_BUDGET_PER_CALLBACK + 64) {
        tx.push(MidiPacket::from_bytes_with_age(&[0x90, (i % 100) as u8, 100], 0, 0).unwrap()).unwrap();
    }
    let mut state = MidiQueue::new(1024, 48_000);
    assert!(!state.drain_midi(&mut rx, false, 0, 0));
    assert_eq!(state.pending.len(), MIDI_DRAIN_BUDGET_PER_CALLBACK);
    let mut other = MidiQueue::new(1024, 48_000);
    assert!(other.drain_midi(&mut rx, false, 0, 0));
    assert_eq!(other.pending.len(), 64);
}

#[test]
fn reset_messages_accept_any_channel_byte() {
    let m = reset_messages_for_channel(16);
    assert_eq!(m[0], [0xB0, 64, 0]);
    assert_eq!(m[3], [0xB0, 123, 0]);
}

#[test]
fn participants_are_shown_only_while_the_server_runs() {
    let mut manager = RtpManager::new();
    assert!(manager.get_participants(vec!["peer".to_string()]).is_empty());
    manager.initialize(true, 5000, false, Vec::new(), false, Some(Ok(5000))).unwrap();
    assert_eq!(manager.get_participants(vec!["peer".to_string()]), vec!["peer".to_string()]);
    manager.close();
    assert!(manager.get_participants(vec!["peer".to_string()]).is_empty());
}

#[test]
fn stress_summaries_count_audio_drops_once() {
    let r = bridge_stress_summary(100, 5, 90, 3, 2);
    assert_eq!(r.dropped_notes, 13);
    assert_eq!(r.segment_bridge, Some(StressSegment { dropped: 13, xruns: 0 }));
    assert_eq!(r.segment_audio, Some(StressSegment { dropped: 3, xruns: 2 }));
    assert_eq!(r.received_notes, Some(90));
    assert_eq!(r.elapsed_ms, 5000);
    let a = audio_stress_summary(100, 2, 4, 1);
    assert_eq!(a.dropped_notes, 4);
    assert_eq!(a.segment_bridge, None);
    assert_eq!(a.elapsed_ms, 2000);
}

#[test]
fn dsp_percentile_grows_with_the_rank() {
    let mut h = vec![0u32; 256];
    h[0] = 50;
    h[3] = 40;
    h[9] = 10;
    let mut last = 0;
    for p in [1u32, 25, 50, 51, 90, 91, 99, 100] {
        let v = dsp_percentile_us(&h, p);
        assert!(v >= last);
        last = v;
    }
    assert_eq!(dsp_percentile_us(&h, 50), 250);
    assert_eq!(dsp_percentile_us(&h, 90), 1000);
    assert_eq!(dsp_percentile_us(&h, 100), 2500);
}

#[test]
fn the_last_mapping_of_a_number_wins() {
    let profile = RoutingProfile {
        id: "p".to_string(),
        name: "p".to_string(),
        channel_filter: None,
        note_min: None,
        note_max: None,
        cc_map: vec![
            RoutingMapping { from: 7, to: 10 },
            RoutingMapping { from: 7, to: 200 },
            RoutingMapping { from: 7, to: 11 },
            RoutingMapping { from: 8, to: 12 },
            RoutingMapping { from: 8, to: 130 },
        ],
        program_map: vec![],
        enabled: true,
    };
    let runtime = RoutingProfileRuntime::from_profile(&profile);
    assert_eq!(runtime.cc_map[7], 11);
    assert_eq!(runtime.cc_map[8], 12);
    assert_eq!(runtime.cc_map[9], 9);
}

#[test]
fn quarantine_uses_the_path_suffix_test() {
    assert!(requires_vst3_destructor_quarantine(r"C:\VST3\Sforzando.vst3"));
    assert!(!requires_vst3_destructor_quarantine(r"C:\VST3\sforzando-legacy.vst3"));
    assert!(requires_vst3_destructor_quarantine(r"C:\VST3\sforzando.vst3\Contents\x"));
}

#[test]
fn stream_needs_stereo_and_wasapi_buffers_of_512() {
    let mono = StreamConfigRange { min_sample_rate: 8000, max_sample_rate: 48000, channels: 1, is_f32: true };
    let stereo = StreamConfigRange { min_sample_rate: 8000, max_sample_rate: 48000, channels: 2, is_f32: true };
    assert_eq!(
        stereo_configs(&[mono]),
        Err("Device does not support stereo output, which is required for the VST plugin.".to_string())
    );
    assert_eq!(stereo_configs(&[mono, stereo]), Ok(vec![stereo]));
    let range = SupportedBufferSize::Range { min: 64, max: 1024 };
    assert_eq!(stream_buffer_size(&range, 128, "ASIO"), 128);
    assert_eq!(stream_buffer_size(&range, 128, "WASAPI"), 512);
    assert_eq!(stream_buffer_size(&range, 2048, "Wasapi"), 1024);
    assert_eq!(stream_buffer_size(&SupportedBufferSize::Range { min: 64, max: 256 }, 128, "wasapi"), 256);
}

#[test]
fn plugin_backend_and_shell_identifier() {
    assert_eq!(backend_kind(Some("X86"), true, true), BackendKind::X86Bridge);
    assert_eq!(backend_kind(Some("x86"), false, false), BackendKind::Vst2);
    assert_eq!(backend_kind(Some("x64"), true, true), BackendKind::Vst3);
    assert_eq!(backend_kind(None, false, true), BackendKind::Vst2);
    assert_eq!(vst2_shell_plugin_id(Some("vst2shell:1A")), 26);
    assert_eq!(vst2_shell_plugin_id(Some("vst2shell:+ff")), 255);
    assert_eq!(vst2_shell_plugin_id(Some("vst2shell:-80000000")), i32::MIN);
    assert_eq!(vst2_shell_plugin_id(Some("vst2shell:7fffffff")), i32::MAX);
    assert_eq!(vst2_shell_plugin_id(Some("vst2shell:80000000")), 0);
    assert_eq!(vst2_shell_plugin_id(Some("vst2shell:")), 0);
    assert_eq!(vst2_shell_plugin_id(Some("vst2shell:12g")), 0);
    assert_eq!(vst2_shell_plugin_id(Some("vst3:12")), 0);
    assert_eq!(vst2_shell_plugin_id(None), 0);
    assert_eq!(validate_plugin_channel_count(2, 2, 32), Ok(()));
    assert_eq!(
        validate_plugin_channel_count(2, 40, 32),
        Err("Plugin channel count exceeds the real-time-safe limit (2 inputs, 40 outputs, limit 32)".to_string())
    );
    assert_eq!(vst2_latency_samples(-5), 0);
    assert_eq!(vst2_latency_samples(64), 64);
}

#[test]
fn worker_control_commands_are_dispatched_while_pending() {
    assert_eq!(worker_control_action(COMMAND_NONE, COMMAND_PENDING), WorkerControl::Idle);
    assert_eq!(worker_control_action(COMMAND_OPEN_EDITOR, COMMAND_OK), WorkerControl::Idle);
    assert_eq!(worker_control_action(COMMAND_OPEN_EDITOR, COMMAND_PENDING), WorkerControl::OpenEditor);
    assert_eq!(worker_control_action(COMMAND_CLOSE_EDITOR, COMMAND_PENDING), WorkerControl::CloseEditor);
    assert_eq!(worker_control_action(COMMAND_SAVE_STATE, COMMAND_PENDING), WorkerControl::SaveState);
    assert_eq!(worker_control_action(9, COMMAND_PENDING), WorkerControl::Unknown);
    assert_eq!(command_status_after(true), COMMAND_OK);
    assert_eq!(command_status_after(false), COMMAND_FAILED);
    assert!(control_busy(COMMAND_SAVE_STATE, COMMAND_OK));
    assert!(control_busy(COMMAND_NONE, COMMAND_PENDING));
    assert!(!control_busy(COMMAND_NONE, COMMAND_OK));
    assert_eq!(host_control_poll(COMMAND_OK, true), HostControlPoll::Succeeded);
    assert_eq!(host_control_poll(COMMAND_FAILED, false), HostControlPoll::Failed);
    assert_eq!(host_control_poll(COMMAND_PENDING, true), HostControlPoll::TimedOut);
    assert_eq!(host_control_poll(COMMAND_PENDING, false), HostControlPoll::Wait);
}

#[test]
fn worker_replies_to_supervisor_requests() {
    assert!(matches!(
        control_reply(ControlRequest::Load { request_id: 1, warmup_ms: 0 }, ControlOutcome::Succeeded),
        ControlReply::Ready { request_id: 1 }
    ));
    match control_reply(ControlRequest::Load { request_id: 2, warmup_ms: 0 }, ControlOutcome::NotReady("no".to_string())) {
        ControlReply::Error { request_id, code, message } => {
            assert_eq!(request_id, Some(2));
            assert_eq!(code.as_str(), "worker.ready-failed");
            assert_eq!(message, "no");
        }
        _ => panic!("error expected"),
    }
    match control_reply(ControlRequest::OpenEditor { request_id: 3 }, ControlOutcome::Failed("x".to_string())) {
        ControlReply::Error { code, .. } => assert_eq!(code, WorkerErrorCode::EditorOpenFailed),
        _ => panic!("error expected"),
    }
    assert!(matches!(
        control_reply(ControlRequest::Ping { sequence: 7 }, ControlOutcome::Succeeded),
        ControlReply::Pong { sequence: 7 }
    ));
    match control_reply(ControlRequest::SaveState { request_id: 4 }, ControlOutcome::Succeeded) {
        ControlReply::Error { code, .. } => assert_eq!(code.as_str(), "worker.save-requires-stop"),
        _ => panic!("error expected"),
    }
    match control_reply(ControlRequest::NotACommand, ControlOutcome::Succeeded) {
        ControlReply::Error { request_id, code, message } => {
            assert_eq!(request_id, None);
            assert_eq!(code.as_str(), "worker.invalid-direction");
            assert_eq!(message, "Message is not a supervisor command");
        }
        _ => panic!("error expected"),
    }
    assert!(matches!(
        control_reply(ControlRequest::Stop { request_id: 5 }, ControlOutcome::Succeeded),
        ControlReply::Stopped { request_id: 5 }
    ));
    assert_eq!(load_warmup_ms(0), 500);
    assert_eq!(load_warmup_ms(1500), 1500);
    assert_eq!(load_warmup_ms(9000), 2000);
}

#[test]
fn bridge_stress_does_not_double_count_audio_drops() {
    // 100 sent, 90 left the pipeline, the audio engine dropped 3 of those.
    let r = bridge_stress_summary(100, 3, 90, 3, 1);
    let received = r.received_notes.unwrap();
    let audio = r.segment_audio.unwrap();
    let bridge = r.segment_bridge.unwrap();
    assert_eq!(r.dropped_notes, bridge.dropped);
    assert_eq!(r.dropped_notes, r.sent_notes.saturating_sub(received) + audio.dropped);
    assert_eq!(r.dropped_notes, 13);
    assert_ne!(r.dropped_notes, 13 + audio.dropped);
    assert_eq!(bridge.xruns, 0);
    assert_eq!(r.xruns, 1);
    assert_eq!(r.elapsed_ms, 3000);
}

#[test]
fn a_field_cut_inside_a_character_reads_back_lossily() {
    let field = fixed_bytes("é", 2);
    assert_eq!(field, vec![0xC3, 0]);
    assert_eq!(fixed_string(&field), "\u{FFFD}");
    assert_eq!(fixed_string(&fixed_bytes("é", 3)), "é");
}
