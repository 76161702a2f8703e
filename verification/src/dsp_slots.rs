//! The slot protocol between the audio callback and the isolated DSP worker.
//!
//! The shared block holds a few slots. The host requests a block in an empty
//! slot (events, parameter changes, a sequence number) and later collects the
//! rendered block from the slot whose sequence is the one it expects; the
//! worker renders requested slots oldest first. The headers are modelled here
//! as plain values; the samples themselves are copied by the caller.

use vstd::prelude::*;
use crate::midi_queue::{MidiPacket, sat_sub};
use crate::remote::{
    BridgeMidiEvent, ParameterCommand, BRIDGE_MAX_MIDI, BRIDGE_MAX_PARAMETER_CHANGES,
    merge_all, merge_parameter_commands, write_panic_events, panic_prefix, spec_sample_offset,
    bridge_sample_offset, spec_stall_exceeded, bridge_stall_budget_exceeded,
};

verus! {

/// Number of slots in the shared block.
pub const BRIDGE_SLOTS: usize = 3;
/// Largest block, in frames, that a slot carries.
pub const BRIDGE_MAX_FRAMES: usize = 8192;

/// Who owns a slot.
#[derive(Clone, Copy, Debug, PartialEq, Eq, Structural)]
pub enum SlotState {
    /// Free for the host to fill.
    Empty,
    /// Filled by the host, waiting for the worker.
    Requested,
    /// Rendered by the worker, waiting for the host.
    Ready,
}

/// The header of a slot.
#[derive(Clone, Copy, Debug, PartialEq, Eq, Structural)]
pub struct SlotHeader {
    pub state: SlotState,
    pub sequence: u64,
    pub frames: u32,
    pub event_count: u32,
    pub parameter_change_count: u32,
}

/// A ready slot whose block is older than the one expected.
pub open spec fn is_stale(s: SlotHeader, expected: u64) -> bool {
    s.state == SlotState::Ready && s.sequence < expected
}

/// A ready slot holding the expected block.
pub open spec fn is_due(s: SlotHeader, expected: u64) -> bool {
    s.state == SlotState::Ready && s.sequence == expected
}

/// The first slot, from `i` on, that holds the expected block.
pub open spec fn first_due(slots: Seq<SlotHeader>, expected: u64, i: int) -> Option<int>
    decreases slots.len() - i,
{
    if i >= slots.len() {
        None
    } else if is_due(slots[i], expected) {
        Some(i)
    } else {
        first_due(slots, expected, i + 1)
    }
}

/// Where the host stops scanning: at the first due slot, else past the end.
pub open spec fn scan_stop(slots: Seq<SlotHeader>, expected: u64) -> int {
    match first_due(slots, expected, 0) {
        Some(k) => k,
        None => slots.len() as int,
    }
}

/// The slot handed back to the host.
pub open spec fn emptied(s: SlotHeader) -> SlotHeader {
    SlotHeader { state: SlotState::Empty, ..s }
}

/// The slots after a collection: the stale ready slots before the stop and
/// the due slot itself are emptied; the others are untouched.
pub open spec fn collected_slots(slots: Seq<SlotHeader>, expected: u64) -> Seq<SlotHeader> {
    let stop = scan_stop(slots, expected);
    Seq::new(
        slots.len(),
        |i: int|
            if i == stop || (i < stop && is_stale(slots[i], expected)) {
                emptied(slots[i])
            } else {
                slots[i]
            },
    )
}

/// How many of the first `n` slots are stale.
pub open spec fn stale_before(slots: Seq<SlotHeader>, expected: u64, n: int) -> nat
    decreases n,
{
    if n <= 0 {
        0
    } else {
        stale_before(slots, expected, n - 1) + if is_stale(slots[n - 1], expected) {
            1nat
        } else {
            0nat
        }
    }
}

/// The slot whose block the host plays: the due slot, if its block has the
/// length asked for.
pub open spec fn rendered_index(slots: Seq<SlotHeader>, expected: u64, frames: int) -> Option<int> {
    match first_due(slots, expected, 0) {
        Some(k) => if slots[k].frames == frames {
            Some(k)
        } else {
            None
        },
        None => None,
    }
}

proof fn lemma_first_due_skip(slots: Seq<SlotHeader>, expected: u64, a: int, b: int)
    requires
        0 <= a <= b,
        forall|j: int| a <= j < b && j < slots.len() ==> !is_due(#[trigger] slots[j], expected),
    ensures
        first_due(slots, expected, a) == first_due(slots, expected, b) || (b > slots.len()
            && first_due(slots, expected, a) is None),
    decreases b - a,
{
    if a < b {
        lemma_first_due_skip(slots, expected, a + 1, b);
    }
}

proof fn lemma_stale_before_bound(slots: Seq<SlotHeader>, expected: u64, n: int)
    requires
        0 <= n,
    ensures
        stale_before(slots, expected, n) <= n,
    decreases n,
{
    if n > 0 {
        lemma_stale_before_bound(slots, expected, n - 1);
    }
}

/// Collects the block the host expects: stale ready slots met on the way are
/// emptied and counted as overruns; the scan stops at the due slot, which is
/// emptied too, and whose index comes back when its block has `frames`
/// frames.
pub fn collect_rendered_block(slots: &mut Vec<SlotHeader>, expected: u64, frames: usize) -> (r: (
    Option<usize>,
    usize,
))
    ensures
        final(slots)@ == collected_slots(old(slots)@, expected),
        r.1 == stale_before(old(slots)@, expected, scan_stop(old(slots)@, expected)),
        match r.0 {
            Some(k) => rendered_index(old(slots)@, expected, frames as int) == Some(k as int),
            None => rendered_index(old(slots)@, expected, frames as int) is None,
        },
{
    let ghost start = slots@;
    let n = slots.len();
    let mut i: usize = 0;
    let mut stale: usize = 0;
    while i < n
        invariant
            start == old(slots)@,
            n == start.len(),
            slots@.len() == n,
            i <= n,
            forall|j: int| 0 <= j < i ==> !is_due(#[trigger] start[j], expected),
            forall|j: int|
                0 <= j < i ==> #[trigger] slots@[j] == (if is_stale(start[j], expected) {
                    emptied(start[j])
                } else {
                    start[j]
                }),
            forall|j: int| i <= j < n ==> #[trigger] slots@[j] == start[j],
            stale == stale_before(start, expected, i as int),
        decreases n - i,
    {
        let s = slots[i];
        if s.state == SlotState::Ready && s.sequence < expected {
            proof {
                lemma_stale_before_bound(start, expected, i as int);
            }
            slots.set(i, SlotHeader { state: SlotState::Empty, ..s });
            stale = stale + 1;
        } else if s.state == SlotState::Ready && s.sequence == expected {
            slots.set(i, SlotHeader { state: SlotState::Empty, ..s });
            proof {
                lemma_first_due_skip(start, expected, 0, i as int);
                assert(first_due(start, expected, 0) == Some(i as int));
                assert(slots@ =~= collected_slots(start, expected));
            }
            if s.frames as usize == frames {
                return (Some(i), stale);
            } else {
                return (None, stale);
            }
        }
        i = i + 1;
    }
    proof {
        lemma_first_due_skip(start, expected, 0, n as int);
        assert(first_due(start, expected, 0) is None);
        assert(slots@ =~= collected_slots(start, expected));
    }
    (None, stale)
}

/// The first empty slot from `i` on.
pub open spec fn first_empty(slots: Seq<SlotHeader>, i: int) -> Option<int>
    decreases slots.len() - i,
{
    if i >= slots.len() {
        None
    } else if slots[i].state == SlotState::Empty {
        Some(i)
    } else {
        first_empty(slots, i + 1)
    }
}

proof fn lemma_first_empty_skip(slots: Seq<SlotHeader>, a: int, b: int)
    requires
        0 <= a <= b <= slots.len(),
        forall|j: int| a <= j < b ==> (#[trigger] slots[j]).state != SlotState::Empty,
    ensures
        first_empty(slots, a) == first_empty(slots, b),
    decreases b - a,
{
    if a < b {
        lemma_first_empty_skip(slots, a + 1, b);
    }
}

proof fn lemma_first_empty_range(slots: Seq<SlotHeader>, i: int)
    requires
        0 <= i,
    ensures
        first_empty(slots, i) matches Some(k) ==> i <= k < slots.len() && slots[k].state
            == SlotState::Empty,
        first_empty(slots, i) is None ==> forall|j: int|
            i <= j < slots.len() ==> (#[trigger] slots[j]).state != SlotState::Empty,
    decreases slots.len() - i,
{
    if i < slots.len() {
        lemma_first_empty_range(slots, i + 1);
    }
}

proof fn lemma_first_due_range(slots: Seq<SlotHeader>, expected: u64, i: int)
    requires
        0 <= i,
    ensures
        first_due(slots, expected, i) matches Some(k) ==> i <= k < slots.len(),
    decreases slots.len() - i,
{
    if i < slots.len() {
        lemma_first_due_range(slots, expected, i + 1);
    }
}

proof fn lemma_stale_none(slots: Seq<SlotHeader>, expected: u64, n: int)
    requires
        forall|j: int| 0 <= j < n ==> !is_stale(#[trigger] slots[j], expected),
    ensures
        stale_before(slots, expected, n) == 0,
    decreases n,
{
    if n > 0 {
        lemma_stale_none(slots, expected, n - 1);
    }
}

/// Finds the first empty slot.
pub fn find_empty_slot(slots: &Vec<SlotHeader>) -> (r: Option<usize>)
    ensures
        match r {
            Some(k) => first_empty(slots@, 0) == Some(k as int),
            None => first_empty(slots@, 0) is None,
        },
{
    let mut i: usize = 0;
    while i < slots.len()
        invariant
            i <= slots@.len(),
            forall|j: int| 0 <= j < i ==> (#[trigger] slots@[j]).state != SlotState::Empty,
        decreases slots@.len() - i,
    {
        if slots[i].state == SlotState::Empty {
            proof {
                lemma_first_empty_skip(slots@, 0, i as int);
            }
            return Some(i);
        }
        i = i + 1;
    }
    proof {
        lemma_first_empty_skip(slots@, 0, slots@.len() as int);
    }
    None
}

/// The sequence number after `n`: one more, wrapping past the largest value
/// to 1, never 0.
pub open spec fn spec_next_sequence(n: u64) -> u64 {
    if n == u64::MAX {
        1
    } else {
        (n + 1) as u64
    }
}

/// The bridge event carrying `p` in a block of `frames` at `sample_rate`.
pub open spec fn bridge_event_for(p: MidiPacket, frames: usize, sample_rate: u32, now_us: u64) -> BridgeMidiEvent {
    BridgeMidiEvent {
        data: p.data,
        len: p.len,
        sample_offset: spec_sample_offset(p.timestamp_us, frames, sample_rate, now_us),
    }
}

/// How many queued packets one slot takes: all of them, at most
/// `BRIDGE_MAX_MIDI`.
pub open spec fn batch_len(queued: int) -> int {
    if queued < BRIDGE_MAX_MIDI {
        queued
    } else {
        BRIDGE_MAX_MIDI as int
    }
}

/// Takes the packets that fit in one slot from the front of `midi` and turns
/// them into bridge events.
pub fn take_midi_events(midi: &mut Vec<MidiPacket>, frames: usize, sample_rate: u32, now_us: u64) -> (events: Vec<BridgeMidiEvent>)
    ensures
        events@.len() == batch_len(old(midi)@.len() as int),
        forall|i: int|
            0 <= i < events@.len() ==> #[trigger] events@[i] == bridge_event_for(
                old(midi)@[i],
                frames,
                sample_rate,
                now_us,
            ),
        final(midi)@ == old(midi)@.skip(events@.len() as int),
{
    let n: usize = if midi.len() < BRIDGE_MAX_MIDI {
        midi.len()
    } else {
        BRIDGE_MAX_MIDI
    };
    let rest = midi.split_off(n);
    let mut events: Vec<BridgeMidiEvent> = Vec::new();
    let mut i: usize = 0;
    while i < n
        invariant
            n == midi@.len(),
            i <= n,
            events@.len() == i,
            forall|k: int|
                0 <= k < i ==> #[trigger] events@[k] == bridge_event_for(
                    midi@[k],
                    frames,
                    sample_rate,
                    now_us,
                ),
        decreases n - i,
    {
        let p = midi[i];
        let offset = bridge_sample_offset(p, frames, sample_rate, now_us);
        events.push(BridgeMidiEvent { data: p.data, len: p.len, sample_offset: offset });
        i = i + 1;
    }
    *midi = rest;
    events
}

/// The panic batch as a list of its own.
pub fn panic_batch() -> (events: Vec<BridgeMidiEvent>)
    ensures
        events@.len() == 64,
        panic_prefix(events@, 64),
{
    let mut events: Vec<BridgeMidiEvent> = Vec::new();
    let mut i: usize = 0;
    while i < BRIDGE_MAX_MIDI
        invariant
            i <= BRIDGE_MAX_MIDI,
            events@.len() == i,
        decreases BRIDGE_MAX_MIDI - i,
    {
        events.push(BridgeMidiEvent::empty());
        i = i + 1;
    }
    let count = write_panic_events(&mut events);
    let ghost full = events@;
    events.truncate(count);
    assert forall|i: int| 0 <= i < 64 implies (#[trigger] events@[i]).data@
        == crate::remote::panic_event_data(i) && events@[i].len == 3
        && events@[i].sample_offset == 0 by {
        assert(events@[i] == full[i]);
    }
    events
}

/// The host's side of the bridge between two audio callbacks.
pub struct BridgeClient {
    /// Sequence number of the next block requested; the block expected back
    /// is the one before it.
    pub next_sequence: u64,
    /// Frames of audio time for which no block came back.
    pub consecutive_missed_frames: u64,
    /// Whether the next request carries the panic batch.
    pub panic_pending: bool,
    pub sample_rate: u32,
    /// Parameter changes waiting for the next request.
    pub pending_parameters: Vec<ParameterCommand>,
}

/// A block requested from the worker: the slot, its new header, and what the
/// slot carries.
pub struct BlockRequest {
    pub slot: usize,
    pub header: SlotHeader,
    pub events: Vec<BridgeMidiEvent>,
    pub parameters: Vec<ParameterCommand>,
}

/// What one audio callback does with the bridge.
pub struct CycleReport {
    /// The slot whose rendered samples are copied out.
    pub rendered_slot: Option<usize>,
    /// No block came back: the last samples are faded out.
    pub fade_out: bool,
    /// The first callback, before any block could come back: silence.
    pub silence: bool,
    /// Stale blocks dropped, plus one when no slot was free for a request.
    pub overruns: usize,
    /// The worker has now missed the whole stall budget.
    pub stall_fault: bool,
    pub request: Option<BlockRequest>,
    /// Whether the output buffers hold audio for this callback.
    pub has_output: bool,
}

/// Whether a block length can go through the bridge.
pub open spec fn frames_accepted(frames: usize) -> bool {
    0 < frames <= BRIDGE_MAX_FRAMES
}

/// The block the host expects back.
pub open spec fn expected_sequence(c: BridgeClient) -> u64 {
    sat_sub(c.next_sequence, 1)
}

/// Whether this callback is an underrun: nothing came back although a block
/// had been requested.
pub open spec fn is_underrun(c: BridgeClient, slots: Seq<SlotHeader>, frames: usize) -> bool {
    rendered_index(slots, expected_sequence(c), frames as int) is None && c.next_sequence > 1
}

/// The missed-frame count after this callback: an underrun adds the block,
/// unless a control command keeps the worker busy, which resets it; a block
/// that came back resets it.
pub open spec fn missed_after(c: BridgeClient, slots: Seq<SlotHeader>, frames: usize, control_busy: bool) -> u64 {
    if is_underrun(c, slots, frames) {
        if control_busy {
            0
        } else if c.consecutive_missed_frames as int + frames as int > u64::MAX as int {
            u64::MAX
        } else {
            (c.consecutive_missed_frames + frames) as u64
        }
    } else if rendered_index(slots, expected_sequence(c), frames as int) is Some {
        0
    } else {
        c.consecutive_missed_frames
    }
}

/// The events a request carries: the panic batch when one is pending, else
/// the queued packets that fit.
pub open spec fn request_events_ok(c: BridgeClient, midi: Seq<MidiPacket>, frames: usize, now_us: u64, events: Seq<BridgeMidiEvent>) -> bool {
    if c.panic_pending {
        events.len() == 64 && panic_prefix(events, 64)
    } else {
        events.len() == batch_len(midi.len() as int) && forall|i: int|
            0 <= i < events.len() ==> #[trigger] events[i] == bridge_event_for(
                midi[i],
                frames,
                c.sample_rate,
                now_us,
            )
    }
}

impl BridgeClient {
    /// Pending parameter changes never exceed one slot.
    pub open spec fn wf(&self) -> bool {
        self.pending_parameters@.len() <= BRIDGE_MAX_PARAMETER_CHANGES
    }

    /// A fresh bridge: the first block requested is block 1.
    pub fn new(sample_rate: u32) -> (c: Self)
        ensures
            c.wf(),
            c.next_sequence == 1,
            c.consecutive_missed_frames == 0,
            !c.panic_pending,
            c.sample_rate == sample_rate,
            c.pending_parameters@.len() == 0,
    {
        BridgeClient {
            next_sequence: 1,
            consecutive_missed_frames: 0,
            panic_pending: false,
            sample_rate,
            pending_parameters: Vec::new(),
        }
    }

    /// Asks for the panic batch in the next request.
    pub fn panic_all_notes(&mut self)
        ensures
            final(self).panic_pending,
            final(self).next_sequence == old(self).next_sequence,
            final(self).consecutive_missed_frames == old(self).consecutive_missed_frames,
            final(self).sample_rate == old(self).sample_rate,
            final(self).pending_parameters@ == old(self).pending_parameters@,
    {
        self.panic_pending = true;
    }

    /// One audio callback: merges the new parameter changes, collects the
    /// expected block, accounts for an underrun, and requests the next block
    /// in the first free slot. A block length of 0 or over
    /// `BRIDGE_MAX_FRAMES` changes nothing and yields no output.
    pub fn process_cycle(
        &mut self,
        slots: &mut Vec<SlotHeader>,
        midi: &mut Vec<MidiPacket>,
        parameters: &[ParameterCommand],
        frames: usize,
        control_busy: bool,
        now_us: u64,
    ) -> (r: CycleReport)
        requires
            old(self).wf(),
        ensures
            final(self).wf(),
            final(self).sample_rate == old(self).sample_rate,
            r.request matches Some(q) ==> q.parameters@.len() <= BRIDGE_MAX_PARAMETER_CHANGES,
            !frames_accepted(frames) ==> {
                &&& final(self).next_sequence == old(self).next_sequence
                &&& final(self).consecutive_missed_frames == old(self).consecutive_missed_frames
                &&& final(self).panic_pending == old(self).panic_pending
                &&& final(self).pending_parameters@ == old(self).pending_parameters@
                &&& final(slots)@ == old(slots)@
                &&& final(midi)@ == old(midi)@
                &&& r.rendered_slot is None && !r.fade_out && !r.silence && r.overruns == 0
                &&& !r.stall_fault && r.request is None && !r.has_output
            },
            frames_accepted(frames) ==> {
                let c = *old(self);
                let expected = expected_sequence(c);
                let rendered = rendered_index(old(slots)@, expected, frames as int);
                let collected = collected_slots(old(slots)@, expected);
                let stale = stale_before(old(slots)@, expected, scan_stop(old(slots)@, expected));
                let merged = merge_all(c.pending_parameters@, parameters@);
                let missed = missed_after(c, old(slots)@, frames, control_busy);
                &&& (match r.rendered_slot {
                    Some(k) => rendered == Some(k as int),
                    None => rendered is None,
                })
                &&& r.fade_out == is_underrun(c, old(slots)@, frames)
                &&& r.silence == (rendered is None && c.next_sequence == 1)
                &&& final(self).consecutive_missed_frames == missed
                &&& r.stall_fault == (is_underrun(c, old(slots)@, frames) && spec_stall_exceeded(
                    missed,
                    c.sample_rate,
                ))
                &&& r.has_output == (rendered is Some || c.next_sequence == 1)
                &&& match first_empty(collected, 0) {
                    None => {
                        &&& r.request is None
                        &&& r.overruns == stale + 1
                        &&& final(slots)@ == collected
                        &&& final(midi)@ == old(midi)@
                        &&& final(self).pending_parameters@ == merged
                        &&& final(self).panic_pending == c.panic_pending
                        &&& final(self).next_sequence == c.next_sequence
                    },
                    Some(j) => {
                        &&& r.overruns == stale
                        &&& r.request matches Some(q) && {
                            &&& q.slot == j
                            &&& request_events_ok(c, old(midi)@, frames, now_us, q.events@)
                            &&& q.parameters@ == merged
                            &&& q.header == SlotHeader {
                                state: SlotState::Requested,
                                sequence: c.next_sequence,
                                frames: frames as u32,
                                event_count: q.events@.len() as u32,
                                parameter_change_count: merged.len() as u32,
                            }
                            &&& final(slots)@ == collected.update(j, q.header)
                            &&& final(midi)@ == (if c.panic_pending {
                                Seq::empty()
                            } else {
                                old(midi)@.skip(q.events@.len() as int)
                            })
                        }
                        &&& final(self).pending_parameters@.len() == 0
                        &&& !final(self).panic_pending
                        &&& final(self).next_sequence == spec_next_sequence(c.next_sequence)
                    },
                }
            },
    {
        if frames == 0 || frames > BRIDGE_MAX_FRAMES {
            return CycleReport {
                rendered_slot: None,
                fade_out: false,
                silence: false,
                overruns: 0,
                stall_fault: false,
                request: None,
                has_output: false,
            };
        }
        merge_parameter_commands(&mut self.pending_parameters, parameters);
        let priming = self.next_sequence == 1;
        let expected = if self.next_sequence >= 1 {
            self.next_sequence - 1
        } else {
            0
        };
        let (rendered_slot, stale) = collect_rendered_block(slots, expected, frames);
        let rendered = rendered_slot.is_some();
        let mut fade_out = false;
        let mut silence = false;
        let mut stall_fault = false;
        if !rendered && self.next_sequence > 1 {
            fade_out = true;
            if control_busy {
                self.consecutive_missed_frames = 0;
            } else {
                self.consecutive_missed_frames = self.consecutive_missed_frames.saturating_add(
                    frames as u64,
                );
            }
            stall_fault = bridge_stall_budget_exceeded(
                self.consecutive_missed_frames,
                self.sample_rate,
            );
        } else if rendered {
            self.consecutive_missed_frames = 0;
        } else if priming {
            silence = true;
        }
        let mut overruns = stale;
        let request = match find_empty_slot(slots) {
            Some(j) => {
                let events = if self.panic_pending {
                    midi.clear();
                    panic_batch()
                } else {
                    take_midi_events(midi, frames, self.sample_rate, now_us)
                };
                self.panic_pending = false;
                let mut parameters_out: Vec<ParameterCommand> = Vec::new();
                std::mem::swap(&mut parameters_out, &mut self.pending_parameters);
                proof {
                    lemma_first_empty_range(slots@, 0);
                }
                let header = SlotHeader {
                    state: SlotState::Requested,
                    sequence: self.next_sequence,
                    frames: frames as u32,
                    event_count: events.len() as u32,
                    parameter_change_count: parameters_out.len() as u32,
                };
                slots.set(j, header);
                self.next_sequence = match self.next_sequence.checked_add(1) {
                    Some(v) => v,
                    None => 1,
                };
                Some(BlockRequest { slot: j, header, events, parameters: parameters_out })
            },
            None => {
                proof {
                    let ghost start = old(slots)@;
                    lemma_first_due_range(start, expected, 0);
                    lemma_first_empty_range(slots@, 0);
                    let stop = scan_stop(start, expected);
                    assert forall|j: int| 0 <= j < stop implies !is_stale(
                        #[trigger] start[j],
                        expected,
                    ) by {
                        assert(slots@[j].state != SlotState::Empty);
                    }
                    lemma_stale_none(start, expected, stop);
                }
                overruns = stale + 1;
                None
            },
        };
        CycleReport {
            rendered_slot,
            fade_out,
            silence,
            overruns,
            stall_fault,
            request,
            has_output: rendered || priming,
        }
    }
}

/// Whether the worker can render a requested slot: a block of 1 to
/// `max_block_size` frames, and counts that fit the slot.
pub open spec fn spec_request_accepted(h: SlotHeader, max_block_size: usize) -> bool {
    &&& h.frames != 0
    &&& h.frames <= max_block_size
    &&& h.event_count <= BRIDGE_MAX_MIDI
    &&& h.parameter_change_count <= BRIDGE_MAX_PARAMETER_CHANGES
}

/// The requested slot the worker serves next: the one with the smallest
/// sequence number, the first of them on a tie.
pub open spec fn is_oldest_request(slots: Seq<SlotHeader>, k: int) -> bool {
    &&& 0 <= k < slots.len()
    &&& slots[k].state == SlotState::Requested
    &&& forall|j: int|
        0 <= j < slots.len() && (#[trigger] slots[j]).state == SlotState::Requested ==> slots[k].sequence
            <= slots[j].sequence
    &&& forall|j: int|
        0 <= j < k && (#[trigger] slots[j]).state == SlotState::Requested ==> slots[k].sequence
            < slots[j].sequence
}

/// What the worker does next.
#[derive(Clone, Copy, Debug, PartialEq, Eq, Structural)]
pub enum WorkerAction {
    /// No slot is requested: wait for the next signal.
    Idle,
    /// The slot's header is out of bounds: hand it back empty.
    Discard(usize),
    /// Render the slot.
    Render(usize),
}

/// The worker's next step over the slots, for a plug-in opened with
/// `max_block_size`.
pub fn next_worker_action(slots: &Vec<SlotHeader>, max_block_size: usize) -> (a: WorkerAction)
    ensures
        match a {
            WorkerAction::Idle => forall|j: int|
                0 <= j < slots@.len() ==> (#[trigger] slots@[j]).state != SlotState::Requested,
            WorkerAction::Discard(k) => is_oldest_request(slots@, k as int) && !spec_request_accepted(
                slots@[k as int],
                max_block_size,
            ),
            WorkerAction::Render(k) => is_oldest_request(slots@, k as int) && spec_request_accepted(
                slots@[k as int],
                max_block_size,
            ),
        },
{
    let mut best: Option<usize> = None;
    let mut i: usize = 0;
    while i < slots.len()
        invariant
            i <= slots@.len(),
            match best {
                None => forall|j: int|
                    0 <= j < i ==> (#[trigger] slots@[j]).state != SlotState::Requested,
                Some(k) => {
                    &&& k < i
                    &&& slots@[k as int].state == SlotState::Requested
                    &&& forall|j: int|
                        0 <= j < i && (#[trigger] slots@[j]).state == SlotState::Requested
                            ==> slots@[k as int].sequence <= slots@[j].sequence
                    &&& forall|j: int|
                        0 <= j < k && (#[trigger] slots@[j]).state == SlotState::Requested
                            ==> slots@[k as int].sequence < slots@[j].sequence
                },
            },
        decreases slots@.len() - i,
    {
        let s = slots[i];
        if s.state == SlotState::Requested {
            match best {
                None => {
                    best = Some(i);
                },
                Some(k) => {
                    if s.sequence < slots[k].sequence {
                        best = Some(i);
                    }
                },
            }
        }
        i = i + 1;
    }
    match best {
        None => WorkerAction::Idle,
        Some(k) => {
            let h = slots[k];
            if h.frames != 0 && h.frames as usize <= max_block_size && h.event_count as usize
                <= BRIDGE_MAX_MIDI && h.parameter_change_count as usize
                <= BRIDGE_MAX_PARAMETER_CHANGES {
                WorkerAction::Render(k)
            } else {
                WorkerAction::Discard(k)
            }
        },
    }
}

/// Law: the host never requests block 0, so a fresh slot (sequence 0) is
/// never mistaken for a requested one.
pub proof fn lemma_sequence_never_zero(n: u64)
    ensures
        spec_next_sequence(n) != 0,
{
}

/// Law: a request the host writes (its events, and its merged parameter
/// changes, which never exceed a slot) is accepted by a worker opened with a
/// block size that covers the request's frames.
pub proof fn lemma_host_requests_are_accepted(
    c: BridgeClient,
    midi: Seq<MidiPacket>,
    frames: usize,
    now_us: u64,
    events: Seq<BridgeMidiEvent>,
    merged: Seq<ParameterCommand>,
    max_block_size: usize,
)
    requires
        frames_accepted(frames),
        frames <= max_block_size,
        request_events_ok(c, midi, frames, now_us, events),
        merged.len() <= BRIDGE_MAX_PARAMETER_CHANGES,
    ensures
        spec_request_accepted(
            SlotHeader {
                state: SlotState::Requested,
                sequence: c.next_sequence,
                frames: frames as u32,
                event_count: events.len() as u32,
                parameter_change_count: merged.len() as u32,
            },
            max_block_size,
        ),
{
}

// ---------------------------------------------------------------------------
// Control commands (editor and state save) posted by the host
// ---------------------------------------------------------------------------

/// No command is posted.
pub const COMMAND_NONE: u32 = 0;
pub const COMMAND_OPEN_EDITOR: u32 = 1;
pub const COMMAND_CLOSE_EDITOR: u32 = 2;
pub const COMMAND_SAVE_STATE: u32 = 3;
/// Command status: posted, not yet handled.
pub const COMMAND_PENDING: u32 = 1;
pub const COMMAND_OK: u32 = 2;
pub const COMMAND_FAILED: u32 = 3;

/// Whether a control command is in flight, during which missed frames do
/// not count towards a stall.
pub fn control_busy(command: u32, command_status: u32) -> (r: bool)
    ensures
        r == (command != COMMAND_NONE || command_status == COMMAND_PENDING),
{
    command != COMMAND_NONE || command_status == COMMAND_PENDING
}

/// What the worker does about the posted control command.
#[derive(Clone, Copy, Debug, PartialEq, Eq, Structural)]
pub enum WorkerControl {
    /// Nothing is pending.
    Idle,
    OpenEditor,
    CloseEditor,
    /// Save the plug-in state, then hand every slot back empty.
    SaveState,
    /// A command the worker does not know: it fails.
    Unknown,
}

pub open spec fn spec_worker_control(command: u32, command_status: u32) -> WorkerControl {
    if command == COMMAND_NONE || command_status != COMMAND_PENDING {
        WorkerControl::Idle
    } else if command == COMMAND_OPEN_EDITOR {
        WorkerControl::OpenEditor
    } else if command == COMMAND_CLOSE_EDITOR {
        WorkerControl::CloseEditor
    } else if command == COMMAND_SAVE_STATE {
        WorkerControl::SaveState
    } else {
        WorkerControl::Unknown
    }
}

/// The worker's dispatch of a posted command: acted on only while its
/// status is pending.
pub fn worker_control_action(command: u32, command_status: u32) -> (r: WorkerControl)
    ensures
        r == spec_worker_control(command, command_status),
{
    if command == COMMAND_NONE || command_status != COMMAND_PENDING {
        WorkerControl::Idle
    } else if command == COMMAND_OPEN_EDITOR {
        WorkerControl::OpenEditor
    } else if command == COMMAND_CLOSE_EDITOR {
        WorkerControl::CloseEditor
    } else if command == COMMAND_SAVE_STATE {
        WorkerControl::SaveState
    } else {
        WorkerControl::Unknown
    }
}

/// The status the worker posts after handling a command.
pub fn command_status_after(succeeded: bool) -> (r: u32)
    ensures
        r == (if succeeded { COMMAND_OK } else { COMMAND_FAILED }),
{
    if succeeded {
        COMMAND_OK
    } else {
        COMMAND_FAILED
    }
}

/// What the host concludes while waiting for its command.
#[derive(Clone, Copy, Debug, PartialEq, Eq, Structural)]
pub enum HostControlPoll {
    Succeeded,
    /// The worker reported a failure (its message is in the mapping).
    Failed,
    TimedOut,
    /// Keep waiting.
    Wait,
}

/// One poll of the command status by the host: the worker's answer wins
/// over the deadline.
pub fn host_control_poll(command_status: u32, deadline_passed: bool) -> (r: HostControlPoll)
    ensures
        r == (if command_status == COMMAND_OK {
            HostControlPoll::Succeeded
        } else if command_status == COMMAND_FAILED {
            HostControlPoll::Failed
        } else if deadline_passed {
            HostControlPoll::TimedOut
        } else {
            HostControlPoll::Wait
        }),
{
    if command_status == COMMAND_OK {
        HostControlPoll::Succeeded
    } else if command_status == COMMAND_FAILED {
        HostControlPoll::Failed
    } else if deadline_passed {
        HostControlPoll::TimedOut
    } else {
        HostControlPoll::Wait
    }
}

} // verus!
