//! The isolated DSP bridge: what the host writes into a bridge slot (MIDI
//! events with their sample offsets, parameter changes, the panic batch),
//! when a stalled worker is declared unhealthy, and the fixed-size text
//! fields of the shared layout.

use vstd::prelude::*;
use vstd::utf8::{valid_utf8, decode_utf8, encode_utf8};
use crate::midi_queue::{MidiPacket, RESET_CONTROLLERS, sat_sub};
use crate::fnv::{fnv1a64, spec_fnv1a64};
use crossbeam_channel::Receiver;

verus! {

/// Most MIDI events in one bridge slot.
pub const BRIDGE_MAX_MIDI: usize = 512;
/// Most parameter changes carried by one bridge slot.
pub const BRIDGE_MAX_PARAMETER_CHANGES: usize = 512;
/// How long the DSP worker may fall behind, in audio time, before it is
/// declared unhealthy.
pub const BRIDGE_STALL_BUDGET_MS: u64 = 2000;

/// A MIDI event in a bridge slot.
#[derive(Clone, Copy, Debug, PartialEq, Eq)]
pub struct BridgeMidiEvent {
    pub data: [u8; 3],
    pub len: u8,
    pub sample_offset: u32,
}

impl BridgeMidiEvent {
    /// An empty event.
    pub fn empty() -> (r: BridgeMidiEvent)
        ensures
            r.data@ == seq![0u8, 0u8, 0u8],
            r.len == 0,
            r.sample_offset == 0,
    {
        let r = BridgeMidiEvent { data: [0, 0, 0], len: 0, sample_offset: 0 };
        assert(r.data@ =~= seq![0u8, 0u8, 0u8]);
        r
    }
}

/// The panic batch: for each channel 0..16 in order, a control change with
/// value 0 for each reset controller in order.
pub open spec fn panic_event_data(i: int) -> Seq<u8> {
    let channel = (i / 4) as u8;
    seq![0xB0u8 | channel, RESET_CONTROLLERS@[i % 4], 0u8]
}

/// Writes the panic batch at the start of `events` and returns its length,
/// 64; the batch always fits in one slot.
pub fn write_panic_events(events: &mut Vec<BridgeMidiEvent>) -> (count: usize)
    requires
        old(events)@.len() == BRIDGE_MAX_MIDI,
    ensures
        count == 64,
        final(events)@.len() == BRIDGE_MAX_MIDI,
        panic_prefix(final(events)@, 64),
        forall|i: int| 64 <= i < BRIDGE_MAX_MIDI ==> #[trigger] final(events)@[i] == old(events)@[i],
{
    let mut count: usize = 0;
    while count < 64
        invariant
            count <= 64,
            events@.len() == BRIDGE_MAX_MIDI,
            panic_prefix(events@, count as int),
            forall|i: int| count <= i < BRIDGE_MAX_MIDI ==> #[trigger] events@[i] == old(events)@[i],
        decreases 64 - count,
    {
        let channel: u8 = (count / 4) as u8;
        let controller = RESET_CONTROLLERS[count % 4];
        let e = BridgeMidiEvent { data: [0xB0 | channel, controller, 0], len: 3, sample_offset: 0 };
        assert(e.data@ =~= panic_event_data(count as int));
        events.set(count, e);
        count = count + 1;
    }
    count
}

/// The first `count` events hold the panic batch.
pub open spec fn panic_prefix(events: Seq<BridgeMidiEvent>, count: int) -> bool {
    forall|i: int| 0 <= i < count ==> (#[trigger] events[i]).data@ == panic_event_data(i)
        && events[i].len == 3 && events[i].sample_offset == 0
}

/// The sample within the current block at which a packet plays: its age
/// relative to the start of the block (now minus one block period), in
/// samples, at most the last sample of the block.
pub open spec fn spec_sample_offset(timestamp_us: u64, frames: usize, sample_rate: u32, now_us: u64) -> u32 {
    let rate: int = if sample_rate == 0 { 1 } else { sample_rate as int };
    let period_us: int = crate::midi_queue::min_u64(frames as int * 1_000_000, u64::MAX as int) / rate;
    let block_start: int = if now_us as int >= period_us { now_us - period_us } else { 0 };
    let late: int = if timestamp_us as int >= block_start { timestamp_us - block_start } else { 0 };
    let samples: int = crate::midi_queue::min_u64(late * sample_rate as int, u64::MAX as int) / 1_000_000;
    let last: int = if frames == 0 { 0 } else { frames - 1 };
    let last64: int = crate::midi_queue::min_u64(last, u64::MAX as int);
    (if samples < last64 { samples } else { last64 }) as u32
}

fn sat_mul(a: u64, b: u64) -> (r: u64)
    ensures
        r as int == crate::midi_queue::min_u64(a as int * b as int, u64::MAX as int),
{
    match a.checked_mul(b) {
        Some(v) => v,
        None => u64::MAX,
    }
}

/// Computes the sample offset of `packet` in a block of `frames` at
/// `sample_rate`, at monotonic time `now_us`.
pub fn bridge_sample_offset(packet: MidiPacket, frames: usize, sample_rate: u32, now_us: u64) -> (r: u32)
    ensures
        r == spec_sample_offset(packet.timestamp_us, frames, sample_rate, now_us),
{
    let rate: u64 = if sample_rate == 0 { 1 } else { sample_rate as u64 };
    let period_us = sat_mul(frames as u64, 1_000_000) / rate;
    let block_start = now_us.saturating_sub(period_us);
    let late = packet.timestamp_us.saturating_sub(block_start);
    let samples = sat_mul(late, sample_rate as u64) / 1_000_000;
    let last: u64 = if frames == 0 { 0 } else { (frames - 1) as u64 };
    let v = if samples < last { samples } else { last };
    #[verifier::truncate] (v as u32)
}

/// Whether `missed_frames` of audio time amount to the stall budget (the
/// sample rate counts as at least 1; products saturate).
pub open spec fn spec_stall_exceeded(missed_frames: u64, sample_rate: u32) -> bool {
    let rate: int = if sample_rate == 0 { 1 } else { sample_rate as int };
    crate::midi_queue::min_u64(missed_frames as int * 1000, u64::MAX as int)
        >= crate::midi_queue::min_u64(rate * BRIDGE_STALL_BUDGET_MS as int, u64::MAX as int)
}

/// Whether the DSP worker has stalled for the whole budget.
pub fn bridge_stall_budget_exceeded(missed_frames: u64, sample_rate: u32) -> (r: bool)
    ensures
        r == spec_stall_exceeded(missed_frames, sample_rate),
{
    let rate: u64 = if sample_rate == 0 { 1 } else { sample_rate as u64 };
    sat_mul(missed_frames, 1000) >= sat_mul(rate, BRIDGE_STALL_BUDGET_MS)
}

/// A parameter change queued for the DSP worker; the value is held as
/// single-precision bits.
#[derive(Clone, Copy, Debug, PartialEq, Eq, Structural)]
pub struct ParameterCommand {
    pub index: usize,
    pub id: u32,
    pub flags: u32,
    pub step_count: i32,
    pub value_bits: u32,
}

/// Two commands address the same parameter: same index, or the same
/// non-zero id.
pub open spec fn same_parameter(a: ParameterCommand, b: ParameterCommand) -> bool {
    a.index == b.index || (a.id != 0 && b.id != 0 && a.id == b.id)
}

pub open spec fn find_same(s: Seq<ParameterCommand>, c: ParameterCommand, i: int) -> Option<int>
    decreases s.len() - i,
{
    if i < 0 || i >= s.len() {
        None
    } else if same_parameter(s[i], c) {
        Some(i)
    } else {
        find_same(s, c, i + 1)
    }
}

/// One command merged into the pending list: it replaces the first pending
/// command for the same parameter; otherwise it is appended, the oldest
/// command making room when the list is full.
pub open spec fn merge_one(s: Seq<ParameterCommand>, c: ParameterCommand) -> Seq<ParameterCommand> {
    match find_same(s, c, 0) {
        Some(k) => s.update(k, c),
        None => if s.len() == BRIDGE_MAX_PARAMETER_CHANGES {
            s.drop_first().push(c)
        } else {
            s.push(c)
        },
    }
}

pub open spec fn merge_all(s: Seq<ParameterCommand>, incoming: Seq<ParameterCommand>) -> Seq<ParameterCommand>
    decreases incoming.len(),
{
    if incoming.len() == 0 {
        s
    } else {
        merge_one(merge_all(s, incoming.drop_last()), incoming.last())
    }
}

proof fn lemma_find_same(s: Seq<ParameterCommand>, c: ParameterCommand, i: int)
    requires
        0 <= i,
    ensures
        find_same(s, c, i) matches Some(k) ==> i <= k < s.len(),
    decreases s.len() - i,
{
    if i < s.len() {
        lemma_find_same(s, c, i + 1);
    }
}

proof fn lemma_merge_all_bounded(s: Seq<ParameterCommand>, incoming: Seq<ParameterCommand>)
    requires
        s.len() <= BRIDGE_MAX_PARAMETER_CHANGES,
    ensures
        merge_all(s, incoming).len() <= BRIDGE_MAX_PARAMETER_CHANGES,
    decreases incoming.len(),
{
    if incoming.len() > 0 {
        lemma_merge_all_bounded(s, incoming.drop_last());
        lemma_find_same(merge_all(s, incoming.drop_last()), incoming.last(), 0);
    }
}

/// Law: merging never grows the pending list beyond
/// `BRIDGE_MAX_PARAMETER_CHANGES`, and the last command merged is in it.
pub proof fn lemma_merge_keeps_latest(s: Seq<ParameterCommand>, c: ParameterCommand)
    requires
        s.len() <= BRIDGE_MAX_PARAMETER_CHANGES,
    ensures
        merge_one(s, c).len() <= BRIDGE_MAX_PARAMETER_CHANGES,
        merge_one(s, c).contains(c),
{
    lemma_find_same(s, c, 0);
    match find_same(s, c, 0) {
        Some(k) => {
            assert(merge_one(s, c)[k] == c);
        },
        None => {
            assert(merge_one(s, c)[merge_one(s, c).len() - 1] == c);
        },
    }
}

fn find_same_index(v: &Vec<ParameterCommand>, c: ParameterCommand) -> (r: Option<usize>)
    ensures
        match find_same(v@, c, 0) {
            Some(k) => r == Some(k as usize),
            None => r is None,
        },
{
    let mut i: usize = 0;
    while i < v.len()
        invariant
            i <= v@.len(),
            find_same(v@, c, 0) == find_same(v@, c, i as int),
        decreases v@.len() - i,
    {
        let e = v[i];
        if e.index == c.index || (e.id != 0 && c.id != 0 && e.id == c.id) {
            return Some(i);
        }
        i = i + 1;
    }
    None
}

/// Merges incoming parameter changes into the pending list.
pub fn merge_parameter_commands(pending: &mut Vec<ParameterCommand>, incoming: &[ParameterCommand])
    requires
        old(pending)@.len() <= BRIDGE_MAX_PARAMETER_CHANGES,
    ensures
        final(pending)@ == merge_all(old(pending)@, incoming@),
        final(pending)@.len() <= BRIDGE_MAX_PARAMETER_CHANGES,
{
    let ghost start = pending@;
    let mut i: usize = 0;
    while i < incoming.len()
        invariant
            i <= incoming@.len(),
            start.len() <= BRIDGE_MAX_PARAMETER_CHANGES,
            pending@ == merge_all(start, incoming@.take(i as int)),
        decreases incoming@.len() - i,
    {
        proof {
            assert(incoming@.take(i as int + 1).drop_last() =~= incoming@.take(i as int));
            lemma_merge_all_bounded(start, incoming@.take(i as int));
            lemma_find_same(pending@, incoming@[i as int], 0);
        }
        let c = incoming[i];
        match find_same_index(pending, c) {
            Some(k) => {
                pending.set(k, c);
            },
            None => {
                if pending.len() == BRIDGE_MAX_PARAMETER_CHANGES {
                    pending.remove(0);
                }
                pending.push(c);
            },
        }
        i = i + 1;
        assert(pending@ =~= merge_all(start, incoming@.take(i as int)));
    }
    assert(incoming@.take(i as int) =~= incoming@);
    proof {
        lemma_merge_all_bounded(start, incoming@);
    }
}

/// A text field of `n` bytes: as many bytes of the UTF-8 text as fit before
/// a terminating zero, the rest zero.
pub open spec fn spec_fixed_bytes(text: Seq<u8>, n: nat) -> Seq<u8> {
    let len: int = if n == 0 {
        0
    } else if text.len() < n - 1 {
        text.len() as int
    } else {
        n - 1
    };
    Seq::new(n, |i: int| if i < len { text[i] } else { 0u8 })
}

/// Writes `value` into an `n`-byte field.
pub fn fixed_bytes(value: &str, n: usize) -> (r: Vec<u8>)
    ensures
        r@ == spec_fixed_bytes(encode_utf8(value@), n as nat),
{
    let bytes = value.as_bytes();
    let limit: usize = if n == 0 { 0 } else { n - 1 };
    let len: usize = if bytes.len() < limit { bytes.len() } else { limit };
    let mut out: Vec<u8> = Vec::new();
    let mut i: usize = 0;
    while i < n
        invariant
            i <= n,
            len <= bytes@.len(),
            len as int == (if n == 0 {
                0
            } else if bytes@.len() < n - 1 {
                bytes@.len() as int
            } else {
                n - 1
            }),
            bytes@ == encode_utf8(value@),
            out@ == spec_fixed_bytes(encode_utf8(value@), n as nat).take(i as int),
        decreases n - i,
    {
        let b = if i < len { bytes[i] } else { 0 };
        out.push(b);
        i = i + 1;
        assert(out@ =~= spec_fixed_bytes(encode_utf8(value@), n as nat).take(i as int));
    }
    assert(out@ =~= spec_fixed_bytes(encode_utf8(value@), n as nat));
    out
}

/// The text before the first zero byte of a field (the whole field when it
/// has none).
pub open spec fn field_text(field: Seq<u8>) -> Seq<u8> {
    field.take(first_zero(field, 0))
}

pub open spec fn first_zero(s: Seq<u8>, i: int) -> int
    decreases s.len() - i,
{
    if i < 0 || i >= s.len() {
        s.len() as int
    } else if s[i] == 0 {
        i
    } else {
        first_zero(s, i + 1)
    }
}

/// What `String::from_utf8_lossy` makes of `bytes`: their text, each
/// malformed sequence replaced by U+FFFD.
pub uninterp spec fn lossy_utf8(bytes: Seq<u8>) -> Seq<char>;

/// Trusted: `String::from_utf8_lossy` gives `lossy_utf8(bytes)`, a function
/// of the bytes alone, and decodes well-formed UTF-8 exactly. Where
/// malformed sequences are replaced is named, not stated.
#[verifier::external_body]
fn utf8_lossy(bytes: &[u8]) -> (r: String)
    ensures
        r@ == lossy_utf8(bytes@),
        valid_utf8(bytes@) ==> r@ == decode_utf8(bytes@),
{
    String::from_utf8_lossy(bytes).into_owned()
}

/// Reads a text field written by `fixed_bytes`.
pub fn fixed_string(field: &[u8]) -> (r: String)
    ensures
        r@ == lossy_utf8(field_text(field@)),
        valid_utf8(field_text(field@)) ==> r@ == decode_utf8(field_text(field@)),
{
    let mut n: usize = 0;
    while n < field.len() && field[n] != 0
        invariant
            n <= field@.len(),
            first_zero(field@, 0) == first_zero(field@, n as int),
        decreases field@.len() - n,
    {
        n = n + 1;
    }
    let mut text: Vec<u8> = Vec::new();
    let mut i: usize = 0;
    while i < n
        invariant
            i <= n <= field@.len(),
            text@ == field@.take(i as int),
        decreases n - i,
    {
        text.push(field[i]);
        i = i + 1;
        assert(text@ =~= field@.take(i as int));
    }
    assert(n as int == first_zero(field@, 0));
    utf8_lossy(text.as_slice())
}

/// The token shared by host and worker for a mapping name: the FNV-1a hash
/// of its bytes.
pub fn stable_token(value: &str) -> (r: u64)
    ensures
        r == spec_fnv1a64(encode_utf8(value@)),
{
    fnv1a64(value.as_bytes())
}

// ---------------------------------------------------------------------------
// Parameter commands on the audio thread
// ---------------------------------------------------------------------------

#[verifier::external_type_specification]
#[verifier::external_body]
#[verifier::reject_recursive_types(T)]
pub struct ExReceiver<T>(Receiver<T>);

/// Trusted: `crossbeam_channel::Receiver::try_recv` takes a message that is
/// waiting in the channel, if there is one. What the channel holds is
/// written by other threads and is not modelled, so nothing is stated of
/// the result.
#[verifier::external_body]
fn channel_try_recv(rx: &Receiver<ParameterCommand>) -> Option<ParameterCommand> {
    rx.try_recv().ok()
}

/// The first command in `s` for the parameter at `index`.
pub open spec fn find_index(s: Seq<ParameterCommand>, index: usize, i: int) -> Option<int>
    decreases s.len() - i,
{
    if i < 0 || i >= s.len() {
        None
    } else if s[i].index == index {
        Some(i)
    } else {
        find_index(s, index, i + 1)
    }
}

/// A command merged into the batch of one callback: it replaces the
/// command for the same parameter index, else it is appended.
pub open spec fn merge_by_index(s: Seq<ParameterCommand>, c: ParameterCommand) -> Seq<ParameterCommand> {
    match find_index(s, c.index, 0) {
        Some(k) => s.update(k, c),
        None => s.push(c),
    }
}

/// No two commands of the batch address the same index.
pub open spec fn distinct_indices(s: Seq<ParameterCommand>) -> bool {
    forall|i: int, j: int| 0 <= i < j < s.len() ==> #[trigger] s[i].index != #[trigger] s[j].index
}

proof fn lemma_find_index(s: Seq<ParameterCommand>, index: usize, i: int)
    requires
        0 <= i,
    ensures
        find_index(s, index, i) matches Some(k) ==> i <= k < s.len() && s[k].index == index,
        find_index(s, index, i) is None ==> forall|j: int| i <= j < s.len() ==> #[trigger] s[j].index != index,
    decreases s.len() - i,
{
    if i < s.len() {
        lemma_find_index(s, index, i + 1);
    }
}

/// Merges one command into the batch.
pub fn merge_by_parameter_index(batch: &mut Vec<ParameterCommand>, c: ParameterCommand)
    ensures
        final(batch)@ == merge_by_index(old(batch)@, c),
        final(batch)@.len() <= old(batch)@.len() + 1,
        distinct_indices(old(batch)@) ==> distinct_indices(final(batch)@),
{
    let ghost start = batch@;
    proof {
        lemma_find_index(start, c.index, 0);
    }
    let mut i: usize = 0;
    while i < batch.len()
        invariant
            start == old(batch)@,
            batch@ == start,
            i <= batch@.len(),
            find_index(start, c.index, 0) == find_index(start, c.index, i as int),
        decreases batch@.len() - i,
    {
        if batch[i].index == c.index {
            assert(find_index(start, c.index, i as int) == Some(i as int));
            batch.set(i, c);
            assert(batch@ =~= start.update(i as int, c));
            return;
        }
        i = i + 1;
    }
    assert(find_index(start, c.index, i as int) is None);
    batch.push(c);
}

/// The batch built from the commands `received`, in order, starting empty.
pub open spec fn merge_batch(received: Seq<ParameterCommand>) -> Seq<ParameterCommand>
    decreases received.len(),
{
    if received.len() == 0 {
        Seq::empty()
    } else {
        merge_by_index(merge_batch(received.drop_last()), received.last())
    }
}

/// Collects the parameter commands for one callback: the batch is emptied,
/// then filled from the channel, one command per parameter index (the
/// latest wins), until the channel is empty or the batch holds `capacity`
/// commands (or after `usize::MAX` receives, which no channel reaches).
pub fn drain_parameter_commands(rx: &Receiver<ParameterCommand>, batch: &mut Vec<ParameterCommand>, capacity: usize)
    ensures
        final(batch)@.len() <= capacity,
        distinct_indices(final(batch)@),
        exists|received: Seq<ParameterCommand>|
            #![trigger merge_batch(received)]
            final(batch)@ == merge_batch(received),
{
    batch.clear();
    let mut received: usize = 0;
    let ghost got: Seq<ParameterCommand> = Seq::empty();
    assert(batch@ =~= merge_batch(got));
    while batch.len() < capacity && received < usize::MAX
        invariant
            batch@.len() <= capacity,
            distinct_indices(batch@),
            batch@ == merge_batch(got),
        decreases usize::MAX - received,
    {
        match channel_try_recv(rx) {
            Some(c) => {
                merge_by_parameter_index(batch, c);
                proof {
                    let next = got.push(c);
                    assert(next.drop_last() =~= got);
                    got = next;
                }
                received = received + 1;
            },
            None => {
                break;
            },
        }
    }
}

} // verus!
