use oscmidi::dsp_slots::{
    collect_rendered_block, next_worker_action, panic_batch, take_midi_events, BridgeClient,
    SlotHeader, SlotState, WorkerAction, BRIDGE_MAX_FRAMES,
};
use oscmidi::midi_queue::MidiPacket;
use oscmidi::remote::{drain_parameter_commands, merge_by_parameter_index, ParameterCommand, BRIDGE_MAX_MIDI};

fn slot(state: SlotState, sequence: u64, frames: u32) -> SlotHeader {
    SlotHeader { state, sequence, frames, event_count: 0, parameter_change_count: 0 }
}

fn empty_slots() -> Vec<SlotHeader> {
    vec![slot(SlotState::Empty, 0, 0); 3]
}

fn note(ts: u64) -> MidiPacket {
    MidiPacket { data: [0x90, 60, 100], len: 3, timestamp_us: ts }
}

#[test]
fn first_cycle_primes_with_silence_and_requests_block_one() {
    let mut client = BridgeClient::new(48_000);
    let mut slots = empty_slots();
    let mut midi = vec![note(10_000)];
    let report = client.process_cycle(&mut slots, &mut midi, &[], 256, false, 10_000);
    assert!(report.silence);
    assert!(report.has_output);
    assert!(!report.fade_out);
    assert_eq!(report.rendered_slot, None);
    let request = report.request.expect("request");
    assert_eq!(request.slot, 0);
    assert_eq!(request.header.state, SlotState::Requested);
    assert_eq!(request.header.sequence, 1);
    assert_eq!(request.header.frames, 256);
    assert_eq!(request.header.event_count, 1);
    assert_eq!(request.events[0].data, [0x90, 60, 100]);
    assert_eq!(slots[0], request.header);
    assert!(midi.is_empty());
    assert_eq!(client.next_sequence, 2);
}

#[test]
fn rendered_block_is_collected_and_its_slot_reused() {
    let mut client = BridgeClient::new(48_000);
    let mut slots = empty_slots();
    let mut midi = Vec::new();
    client.process_cycle(&mut slots, &mut midi, &[], 256, false, 0);
    slots[0].state = SlotState::Ready;
    let report = client.process_cycle(&mut slots, &mut midi, &[], 256, false, 5_333);
    assert_eq!(report.rendered_slot, Some(0));
    assert!(report.has_output);
    assert!(!report.fade_out);
    assert_eq!(client.consecutive_missed_frames, 0);
    let request = report.request.expect("request");
    assert_eq!(request.slot, 0);
    assert_eq!(request.header.sequence, 2);
    assert_eq!(client.next_sequence, 3);
}

#[test]
fn missing_block_fades_out_and_counts_missed_frames() {
    let mut client = BridgeClient::new(48_000);
    let mut slots = empty_slots();
    let mut midi = Vec::new();
    client.process_cycle(&mut slots, &mut midi, &[], 256, false, 0);
    let report = client.process_cycle(&mut slots, &mut midi, &[], 256, false, 5_333);
    assert!(report.fade_out);
    assert!(!report.has_output);
    assert_eq!(client.consecutive_missed_frames, 256);
    assert!(!report.stall_fault);
    assert_eq!(report.request.expect("request").slot, 1);
    let busy = client.process_cycle(&mut slots, &mut midi, &[], 256, true, 10_666);
    assert!(busy.fade_out);
    assert_eq!(client.consecutive_missed_frames, 0);
}

#[test]
fn stalled_worker_faults_after_two_seconds_of_audio() {
    let mut client = BridgeClient::new(48_000);
    client.next_sequence = 5;
    client.consecutive_missed_frames = 96_000 - 256;
    let mut slots = empty_slots();
    let mut midi = Vec::new();
    let report = client.process_cycle(&mut slots, &mut midi, &[], 256, false, 0);
    assert!(report.fade_out);
    assert!(report.stall_fault);
}

#[test]
fn stale_blocks_are_dropped_as_overruns() {
    let mut client = BridgeClient::new(48_000);
    client.next_sequence = 5;
    let mut slots = vec![
        slot(SlotState::Ready, 2, 256),
        slot(SlotState::Ready, 4, 256),
        slot(SlotState::Requested, 5, 256),
    ];
    let mut midi = Vec::new();
    let report = client.process_cycle(&mut slots, &mut midi, &[], 256, false, 0);
    assert_eq!(report.overruns, 1);
    assert_eq!(report.rendered_slot, Some(1));
    assert_eq!(report.request.expect("request").slot, 0);
    assert_eq!(slots[1].state, SlotState::Empty);
    assert_eq!(slots[2].state, SlotState::Requested);
}

#[test]
fn no_free_slot_is_an_overrun() {
    let mut client = BridgeClient::new(48_000);
    client.next_sequence = 7;
    let mut slots = vec![slot(SlotState::Requested, 4, 256); 3];
    let mut midi = vec![note(0)];
    let params = vec![ParameterCommand { index: 1, id: 0, flags: 0, step_count: 0, value_bits: 0 }];
    let report = client.process_cycle(&mut slots, &mut midi, &params, 256, false, 0);
    assert_eq!(report.overruns, 1);
    assert!(report.request.is_none());
    assert_eq!(midi.len(), 1);
    assert_eq!(client.pending_parameters.len(), 1);
    assert_eq!(client.next_sequence, 7);
}

#[test]
fn block_lengths_outside_the_bridge_change_nothing() {
    let mut client = BridgeClient::new(48_000);
    let mut slots = empty_slots();
    let mut midi = vec![note(0)];
    let report = client.process_cycle(&mut slots, &mut midi, &[], BRIDGE_MAX_FRAMES + 1, false, 0);
    assert!(!report.has_output);
    assert!(report.request.is_none());
    assert_eq!(client.next_sequence, 1);
    assert_eq!(midi.len(), 1);
    let report = client.process_cycle(&mut slots, &mut midi, &[], 0, false, 0);
    assert!(!report.has_output);
}

#[test]
fn panic_request_replaces_queued_midi() {
    let mut client = BridgeClient::new(48_000);
    client.panic_all_notes();
    let mut slots = empty_slots();
    let mut midi = vec![note(0), note(1)];
    let report = client.process_cycle(&mut slots, &mut midi, &[], 128, false, 0);
    let request = report.request.expect("request");
    assert_eq!(request.events.len(), 64);
    assert_eq!(request.header.event_count, 64);
    assert_eq!(request.events[0].data, [0xB0, 64, 0]);
    assert!(midi.is_empty());
    assert!(!client.panic_pending);
}

#[test]
fn one_slot_takes_at_most_its_event_capacity() {
    let mut midi: Vec<MidiPacket> = (0..600).map(note).collect();
    let events = take_midi_events(&mut midi, 256, 48_000, 0);
    assert_eq!(events.len(), BRIDGE_MAX_MIDI);
    assert_eq!(midi.len(), 600 - BRIDGE_MAX_MIDI);
    assert_eq!(midi[0].timestamp_us, BRIDGE_MAX_MIDI as u64);
    assert_eq!(panic_batch().len(), 64);
}

#[test]
fn collection_stops_at_a_block_of_the_wrong_length() {
    let mut slots = vec![slot(SlotState::Ready, 3, 128), slot(SlotState::Ready, 1, 256)];
    let (rendered, stale) = collect_rendered_block(&mut slots, 3, 256);
    assert_eq!(rendered, None);
    assert_eq!(stale, 0);
    assert_eq!(slots[0].state, SlotState::Empty);
    assert_eq!(slots[1].state, SlotState::Ready);
}

#[test]
fn worker_serves_the_oldest_request_first() {
    let slots = vec![
        slot(SlotState::Requested, 9, 256),
        slot(SlotState::Ready, 1, 256),
        slot(SlotState::Requested, 8, 256),
    ];
    assert_eq!(next_worker_action(&slots, 1024), WorkerAction::Render(2));
    assert_eq!(next_worker_action(&slots, 128), WorkerAction::Discard(2));
    assert_eq!(next_worker_action(&empty_slots(), 1024), WorkerAction::Idle);
    let mut overfull = slot(SlotState::Requested, 1, 256);
    overfull.event_count = 513;
    assert_eq!(next_worker_action(&vec![overfull], 1024), WorkerAction::Discard(0));
}

#[test]
fn audio_parameter_batch_keeps_one_command_per_index() {
    let cmd = |index: usize, value_bits: u32| ParameterCommand { index, id: 0, flags: 0, step_count: 0, value_bits };
    let mut batch = Vec::new();
    merge_by_parameter_index(&mut batch, cmd(3, 1));
    merge_by_parameter_index(&mut batch, cmd(4, 2));
    merge_by_parameter_index(&mut batch, cmd(3, 9));
    assert_eq!(batch, vec![cmd(3, 9), cmd(4, 2)]);

    let (tx, rx) = crossbeam_channel::unbounded();
    for (index, value) in [(1, 10), (2, 20), (1, 11), (3, 30), (4, 40)] {
        tx.send(cmd(index, value)).unwrap();
    }
    let mut batch = vec![cmd(9, 9)];
    drain_parameter_commands(&rx, &mut batch, 2);
    assert_eq!(batch, vec![cmd(1, 10), cmd(2, 20)]);
    drain_parameter_commands(&rx, &mut batch, 8);
    assert_eq!(batch, vec![cmd(1, 11), cmd(3, 30), cmd(4, 40)]);
    drain_parameter_commands(&rx, &mut batch, 8);
    assert!(batch.is_empty());
}
