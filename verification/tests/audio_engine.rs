use oscmidi::audio_types::{
    midi_to_plugin_event, plugin_events_for, validate_stream_config, ConfigFault, PluginMidiEvent,
};
use oscmidi::midi_queue::{
    reset_messages_for_channel, send_midi_packet_with_outcome, stale_after_us, MidiPacket,
    MidiQueue, MidiSendOutcome, MAX_PENDING_MIDI, MIDI_DRAIN_BUDGET_PER_CALLBACK,
};
use oscmidi::remote::{
    bridge_sample_offset, bridge_stall_budget_exceeded, fixed_bytes, fixed_string,
    merge_parameter_commands, stable_token, write_panic_events, BridgeMidiEvent,
    ParameterCommand, BRIDGE_MAX_MIDI, BRIDGE_MAX_PARAMETER_CHANGES,
};
use oscmidi::stream_config::{
    buffer_fallback_candidates, choose_buffer_size, max_plugin_block_size, pick_sample_rate,
    select_output_config, StreamConfigRange, SupportedBufferSize,
};
use oscmidi::telemetry::{
    buffer_size_mismatch, dsp_percentile_us, hosting_mode_name, reported_bridge_latency,
    reported_buffer_size, reported_plugin_latency, stream_fault_reason, AudioLifecycleState,
    CallbackTiming, Vst2TimeContext,
};
use rtrb::RingBuffer;

fn packet(bytes: &[u8]) -> MidiPacket {
    MidiPacket::from_bytes_with_age(bytes, 0, 0).expect("packet")
}

#[test]
fn reset_sequence_includes_sustain_and_panic_controllers() {
    let messages = reset_messages_for_channel(2);
    assert_eq!(messages, [[0xB2, 64, 0], [0xB2, 120, 0], [0xB2, 121, 0], [0xB2, 123, 0],]);
}

#[test]
fn emergency_reset_clears_pending_midi() {
    let (_tx, mut rx) = RingBuffer::<MidiPacket>::new(8);
    let mut state = MidiQueue::new(1024, 48_000);
    for note in 0..10u8 {
        state.pending.push_back(MidiPacket { data: [0x90, note, 100], len: 3, timestamp_us: 0 });
    }
    assert_eq!(state.pending.len(), 10);

    state.drain_midi(&mut rx, true, 0, 0);

    assert!(state.needs_emergency_reset, "emergency reset flag should be set");
    assert_eq!(state.pending.len(), 0, "pending MIDI must be cleared on emergency reset");
}

#[test]
fn overflow_prefers_dropping_note_on_for_critical_release() {
    let mut state = MidiQueue::new(1024, 48_000);
    for _ in 0..MAX_PENDING_MIDI {
        state.pending.push_back(packet(&[0x90, 60, 100]));
    }

    state.enqueue_midi(packet(&[0x80, 60, 0]));

    assert_eq!(state.pending.len(), MAX_PENDING_MIDI);
    assert!(state.pending.iter().any(|m| m.is_note_off()));
    assert!(!state.needs_emergency_reset);
}

#[test]
fn full_queue_of_releases_requests_a_reset() {
    let mut state = MidiQueue::new(1024, 48_000);
    for _ in 0..MAX_PENDING_MIDI {
        state.pending.push_back(packet(&[0x80, 60, 0]));
    }
    state.enqueue_midi(packet(&[0x90, 61, 100]));
    assert_eq!(state.pending.len(), MAX_PENDING_MIDI);
    assert_eq!(state.drop_count, 1);
    state.enqueue_midi(packet(&[0xB0, 64, 0]));
    assert_eq!(state.pending.len(), 1);
    assert!(state.needs_emergency_reset);
    assert!(state.pending[0].is_cc64_off());
}

#[test]
fn send_midi_drops_non_critical_when_ring_full() {
    let (mut tx, mut rx) = RingBuffer::<MidiPacket>::new(1);
    tx.push(packet(&[0x90, 60, 100])).expect("prefill ring");
    let mut reset = false;

    let outcome = send_midi_packet_with_outcome(Some(&mut tx), packet(&[0x90, 61, 100]), &mut reset);

    assert_eq!(outcome, MidiSendOutcome::DroppedNonCritical);

    let first = rx.pop().expect("first packet still queued");
    assert_eq!(first.data, [0x90, 60, 100]);
    assert!(rx.pop().is_err(), "non-critical note-on must be dropped");
}

#[test]
fn send_midi_preserves_critical_release_or_requests_reset() {
    let (mut tx, mut rx) = RingBuffer::<MidiPacket>::new(1);
    tx.push(packet(&[0x90, 60, 100])).expect("prefill ring");
    let mut reset = false;

    let outcome = send_midi_packet_with_outcome(Some(&mut tx), packet(&[0x80, 60, 0]), &mut reset);

    assert_eq!(outcome, MidiSendOutcome::CriticalFallbackReset);
    assert!(reset, "critical release overflow should request an emergency reset");

    let first = rx.pop().expect("first packet still queued");
    assert_eq!(first.data, [0x90, 60, 100]);
    assert!(rx.pop().is_err(), "ring should not receive stale fallback data");
}

#[test]
fn send_without_ring_reports_stopped_engine() {
    let mut reset = false;
    assert_eq!(send_midi_packet_with_outcome(None, packet(&[0x90, 60, 1]), &mut reset), MidiSendOutcome::AudioStopped);
    let (mut tx, mut rx) = RingBuffer::<MidiPacket>::new(2);
    assert_eq!(send_midi_packet_with_outcome(Some(&mut tx), packet(&[0x90, 60, 1]), &mut reset), MidiSendOutcome::Sent);
    assert_eq!(rx.pop().expect("sent").data, [0x90, 60, 1]);
    assert!(!reset);
}

#[test]
fn drain_midi_respects_callback_budget() {
    let (mut tx, mut rx) = RingBuffer::<MidiPacket>::new(MIDI_DRAIN_BUDGET_PER_CALLBACK + 128);
    for i in 0..(MIDI_DRAIN_BUDGET_PER_CALLBACK + 64) {
        tx.push(packet(&[0x90, (i % 100) as u8, 100])).expect("push packet");
    }

    let mut state = MidiQueue::new(1024, 48_000);

    state.drain_midi(&mut rx, false, 0, 0);

    assert_eq!(state.pending.len(), MIDI_DRAIN_BUDGET_PER_CALLBACK);
    let mut remaining = 0usize;
    while rx.pop().is_ok() {
        remaining += 1;
    }
    assert_eq!(remaining, 64);
}

#[test]
fn stale_ordinary_packets_are_dropped_but_releases_kept() {
    let mut state = MidiQueue::new(512, 48_000);
    let stale = stale_after_us(0, 512, 48_000);
    assert_eq!(stale, 21_333);
    let old_on = MidiPacket::from_bytes_with_age(&[0x90, 60, 100], 100_000, 50_000).unwrap();
    let old_off = MidiPacket::from_bytes_with_age(&[0x80, 60, 0], 100_000, 50_000).unwrap();
    state.absorb_packets(&[old_on, old_off], 100_000, stale);
    assert_eq!(state.pending.len(), 1);
    assert!(state.pending[0].is_note_off());
    assert_eq!(state.drop_count, 1);
    assert_eq!(stale_after_us(256, 512, 0), u64::MAX);
}

#[test]
fn packets_keep_at_most_three_bytes() {
    let p = MidiPacket::from_bytes_with_age(&[0xC0, 5], 10, 20).unwrap();
    assert_eq!(p.data, [0xC0, 5, 0]);
    assert_eq!(p.len, 2);
    assert_eq!(p.timestamp_us, 0);
    assert_eq!(p.age_us(7), 7);
    assert!(MidiPacket::from_bytes_with_age(&[], 0, 0).is_none());
    let q = MidiPacket::from_bytes_with_age(&[0x90, 1, 2, 3], 10, 0).unwrap();
    assert_eq!(q.len, 3);
}

#[test]
fn choose_buffer_size_respects_requested_when_supported() {
    let supported = SupportedBufferSize::Range { min: 64, max: 1024 };
    assert_eq!(choose_buffer_size(&supported, 128), 128);
    assert_eq!(choose_buffer_size(&supported, 32), 64);
    assert_eq!(choose_buffer_size(&supported, 2048), 1024);
    assert_eq!(choose_buffer_size(&supported, 480), 480);
}

#[test]
fn max_plugin_block_size_covers_supported_range() {
    let supported = SupportedBufferSize::Range { min: 64, max: 1024 };
    assert_eq!(max_plugin_block_size(&supported, 480), 1024);
    assert_eq!(max_plugin_block_size(&supported, 2048), 2048);
}

#[test]
fn buffer_fallback_candidates_are_sorted_around_preferred() {
    let supported = SupportedBufferSize::Range { min: 64, max: 1024 };
    let c = buffer_fallback_candidates(&supported, 128);
    assert_eq!(c.first().copied(), Some(128));
    assert!(c.contains(&256));
    assert!(c.contains(&480));
    assert!(c.contains(&512));
    assert!(!c.contains(&1536));
}

#[test]
fn fallback_order_is_by_distance_then_size() {
    let c = buffer_fallback_candidates(&SupportedBufferSize::Unknown, 160);
    assert_eq!(c, vec![160, 128, 192, 96, 64, 256, 384, 480, 512, 768, 1024, 1536, 2048]);
    assert_eq!(choose_buffer_size(&SupportedBufferSize::Unknown, 77), 77);
    assert_eq!(max_plugin_block_size(&SupportedBufferSize::Unknown, 77), 2048);
}

#[test]
fn output_config_prefers_the_closest_rate_then_float_stereo() {
    let a = StreamConfigRange { min_sample_rate: 44_100, max_sample_rate: 44_100, channels: 2, is_f32: true };
    let b = StreamConfigRange { min_sample_rate: 8_000, max_sample_rate: 96_000, channels: 6, is_f32: false };
    let c = StreamConfigRange { min_sample_rate: 8_000, max_sample_rate: 96_000, channels: 2, is_f32: true };
    assert_eq!(pick_sample_rate(&a, 48_000), (44_100, 3_900));
    assert_eq!(select_output_config(&[a, b, c], 48_000), Ok((c, 48_000)));
    assert_eq!(select_output_config(&[a], 48_000), Ok((a, 44_100)));
    assert_eq!(select_output_config(&[], 48_000), Err("No supported output config found.".to_string()));
}

#[test]
fn bridge_stall_budget_is_based_on_audio_time() {
    assert!(!bridge_stall_budget_exceeded(95_999, 48_000));
    assert!(bridge_stall_budget_exceeded(96_000, 48_000));
    assert!(!bridge_stall_budget_exceeded(88_199, 44_100));
    assert!(bridge_stall_budget_exceeded(88_200, 44_100));
}

#[test]
fn panic_controller_batch_always_fits_in_one_bridge_slot() {
    let mut events = vec![BridgeMidiEvent::empty(); BRIDGE_MAX_MIDI];
    let count = write_panic_events(&mut events);
    assert_eq!(count, 16 * 4);
    assert_eq!(events[0].data, [0xB0, 64, 0]);
    assert_eq!(events[count - 1].data, [0xBF, 123, 0]);
    assert!(count <= BRIDGE_MAX_MIDI);
}

#[test]
fn parameter_backpressure_keeps_the_latest_value_without_growing() {
    let mut pending = Vec::with_capacity(BRIDGE_MAX_PARAMETER_CHANGES);
    let first = ParameterCommand { index: 7, id: 42, flags: 0, step_count: 0, value_bits: 0.25f32.to_bits() };
    let latest = ParameterCommand { value_bits: 0.75f32.to_bits(), ..first };
    merge_parameter_commands(&mut pending, &[first]);
    merge_parameter_commands(&mut pending, &[latest]);
    assert_eq!(pending.len(), 1);
    assert_eq!(f32::from_bits(pending[0].value_bits), 0.75);

    for index in 0..=BRIDGE_MAX_PARAMETER_CHANGES {
        merge_parameter_commands(
            &mut pending,
            &[ParameterCommand {
                index: index + 100,
                id: index as u32 + 100,
                flags: 0,
                step_count: 0,
                value_bits: (index as f32).to_bits(),
            }],
        );
    }
    assert_eq!(pending.len(), BRIDGE_MAX_PARAMETER_CHANGES);
    assert_eq!(pending.last().unwrap().index, BRIDGE_MAX_PARAMETER_CHANGES + 100);
}

#[test]
fn sample_offsets_are_within_the_block() {
    let early = MidiPacket { data: [0x90, 60, 1], len: 3, timestamp_us: 0 };
    assert_eq!(bridge_sample_offset(early, 480, 48_000, 1_000_000), 0);
    let mid = MidiPacket { data: [0x90, 60, 1], len: 3, timestamp_us: 995_000 };
    assert_eq!(bridge_sample_offset(mid, 480, 48_000, 1_000_000), 240);
    let late = MidiPacket { data: [0x90, 60, 1], len: 3, timestamp_us: 2_000_000 };
    assert_eq!(bridge_sample_offset(late, 480, 48_000, 1_000_000), 479);
}

#[test]
fn fixed_fields_round_trip_short_text() {
    let field = fixed_bytes("Gain", 8);
    assert_eq!(field, vec![b'G', b'a', b'i', b'n', 0, 0, 0, 0]);
    assert_eq!(fixed_string(&field), "Gain");
    assert_eq!(fixed_bytes("Volume", 4), vec![b'V', b'o', b'l', 0]);
    assert_eq!(stable_token(""), 0xcbf29ce484222325);
    assert_eq!(stable_token("a"), 0xaf63dc4c8601ec8c);
}

#[test]
fn dsp_percentiles_use_bucket_upper_edges() {
    let mut h = vec![0u32; 256];
    assert_eq!(dsp_percentile_us(&h, 95), 0);
    h[0] = 90;
    h[3] = 10;
    assert_eq!(dsp_percentile_us(&h, 50), 250);
    assert_eq!(dsp_percentile_us(&h, 95), 1000);
    assert_eq!(dsp_percentile_us(&h, 0), 250);
    let mut timing = CallbackTiming::new();
    timing.record_dsp_timing(800);
    timing.record_dsp_timing(1_000_000);
    assert_eq!(timing.dsp_histogram[3], 1);
    assert_eq!(timing.dsp_histogram[255], 1);
    assert_eq!(timing.dsp_process_max_us, 1_000_000);
    timing.finish_callback_timing(480, 48_000, 20_000);
    timing.finish_callback_timing(480, 48_000, 20_000);
    assert_eq!(timing.consecutive_deadline_misses, 2);
    assert_eq!(timing.callback_over_budget_count, 2);
    timing.finish_callback_timing(480, 48_000, 100);
    assert_eq!(timing.consecutive_deadline_misses, 0);
    assert_eq!(timing.callback_max_us, 20_000);
}

#[test]
fn lifecycle_states_round_trip_their_bytes() {
    for s in [AudioLifecycleState::Stopped, AudioLifecycleState::Loading, AudioLifecycleState::Running, AudioLifecycleState::Stopping, AudioLifecycleState::Faulted] {
        assert_eq!(AudioLifecycleState::from_u8(s.code()), s);
    }
    assert_eq!(AudioLifecycleState::from_u8(99), AudioLifecycleState::Stopped);
    assert_eq!(AudioLifecycleState::Faulted.as_str(), "faulted");
}

#[test]
fn test_invalid_sample_rate() {
    assert!(validate_stream_config(1000, Some(256), true, 48_000).is_err());
}

#[test]
fn test_invalid_buffer_size() {
    assert!(validate_stream_config(48_000, Some(16), true, 48_000).is_err());
}

#[test]
fn stream_config_faults_name_the_offending_value() {
    assert_eq!(validate_stream_config(48_000, None, true, 48_000), Ok(()));
    assert_eq!(validate_stream_config(200_000, None, true, 200_000), Err(ConfigFault::InvalidSampleRate(200_000)));
    assert_eq!(validate_stream_config(48_000, Some(9000), true, 48_000), Err(ConfigFault::InvalidBufferSize(9000)));
    assert_eq!(validate_stream_config(48_000, Some(256), false, 48_000), Err(ConfigFault::InvalidGain));
    assert_eq!(validate_stream_config(48_000, Some(256), true, 44_100), Err(ConfigFault::InvalidSampleRate(44_100)));
}

#[test]
fn midi_to_rack_event_handles_zero_velocity_note_on() {
    let event = midi_to_plugin_event([0x90, 60, 0]).expect("event");
    assert!(matches!(
        event,
        PluginMidiEvent::NoteOff {
            note: 60,
            velocity: 0,
            channel: 0
        }
    ));
}

#[test]
fn plugin_events_cover_every_channel_message() {
    assert_eq!(midi_to_plugin_event([0x93, 60, 100]), Some(PluginMidiEvent::NoteOn { note: 60, velocity: 100, channel: 3 }));
    assert_eq!(midi_to_plugin_event([0xB1, 7, 90]), Some(PluginMidiEvent::ControlChange { controller: 7, value: 90, channel: 1 }));
    assert_eq!(midi_to_plugin_event([0xE0, 0x00, 0x40]), Some(PluginMidiEvent::PitchBend { value: 8192, channel: 0 }));
    assert_eq!(midi_to_plugin_event([0xC2, 5, 0]), Some(PluginMidiEvent::ProgramChange { program: 5, channel: 2 }));
    assert_eq!(midi_to_plugin_event([0xF8, 0, 0]), None);
}

#[test]
fn stream_status_reports_follow_the_callback() {
    assert_eq!(stream_fault_reason(1).as_deref(), Some("audio device busy"));
    assert_eq!(stream_fault_reason(11).as_deref(), Some("unclassified audio stream failure"));
    assert_eq!(stream_fault_reason(0), None);
    assert_eq!(stream_fault_reason(12), None);
    assert_eq!(reported_buffer_size(0), None);
    assert_eq!(reported_buffer_size(480), Some(480));
    assert_eq!(buffer_size_mismatch(0, 256), None);
    assert_eq!(buffer_size_mismatch(480, 256), Some(true));
    assert_eq!(buffer_size_mismatch(256, 256), Some(false));
    assert_eq!(reported_plugin_latency(300, 256, true), 44);
    assert_eq!(reported_plugin_latency(100, 256, true), 0);
    assert_eq!(reported_plugin_latency(100, 256, false), 100);
    assert_eq!(reported_bridge_latency(256, true), 256);
    assert_eq!(reported_bridge_latency(256, false), 0);
    assert_eq!(hosting_mode_name(true), "bridgedX86");
    assert_eq!(hosting_mode_name(false), "directX64");
}

#[test]
fn vst2_transport_advances_by_blocks() {
    let mut t = Vst2TimeContext::new();
    assert_eq!(t.sample_position(), 0);
    t.advance(256);
    t.advance(256);
    assert_eq!(t.sample_position(), 512);
}

#[test]
fn packets_without_age_are_stamped_now() {
    let p = MidiPacket::from_bytes(&[0x90, 60], 1_000).expect("packet");
    assert_eq!(p.len, 2);
    assert_eq!(p.data, [0x90, 60, 0]);
    assert_eq!(p.timestamp_us, 1_000);
    assert!(MidiPacket::from_bytes(&[], 1_000).is_none());
}

#[test]
fn plugin_batches_take_the_oldest_packets_first() {
    let mut state = MidiQueue::new(1024, 48_000);
    state.enqueue_midi(packet(&[0x90, 60, 100]));
    state.enqueue_midi(packet(&[0xF8]));
    state.enqueue_midi(packet(&[0x80, 60, 0]));
    let batch = state.take_plugin_batch(2);
    assert_eq!(batch.len(), 2);
    assert_eq!(batch[0].data, [0x90, 60, 100]);
    assert_eq!(state.pending.len(), 1);
    let events = plugin_events_for(&batch);
    assert_eq!(events, vec![PluginMidiEvent::NoteOn { note: 60, velocity: 100, channel: 0 }]);
    let rest = state.take_plugin_batch(512);
    assert_eq!(rest.len(), 1);
    assert!(state.pending.is_empty());
}
