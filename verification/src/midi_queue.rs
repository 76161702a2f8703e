//! The audio engine's MIDI queue: packets handed from the bridge to the
//! audio callback, the overflow policy that protects note releases, and the
//! per-callback drain.

use vstd::prelude::*;
use rtrb::{Consumer, Producer};
use std::collections::VecDeque;

verus! {

/// Most packets held between two audio callbacks.
pub const MAX_PENDING_MIDI: usize = 8192;
/// Most packets taken from the ring in one callback.
pub const MIDI_DRAIN_BUDGET_PER_CALLBACK: usize = 512;
/// Extra attempts to place a critical release in a full ring.
pub const CRITICAL_MIDI_PUSH_ATTEMPTS: usize = 64;
/// Most MIDI events handed to the plug-in in one callback.
pub const MIDI_EVENT_BATCH_CAPACITY: usize = 512;
/// Controllers sent to every channel when the synthesizer is reset:
/// sustain off, all sound off, reset all controllers, all notes off.
pub const RESET_CONTROLLERS: [u8; 4] = [64, 120, 121, 123];

/// A MIDI message of at most three bytes, stamped with the monotonic time at
/// which it was produced.
#[derive(Clone, Copy, Debug, PartialEq, Eq)]
pub struct MidiPacket {
    pub data: [u8; 3],
    pub len: u8,
    pub timestamp_us: u64,
}

pub open spec fn packet_status(p: MidiPacket) -> u8 {
    p.data@[0]
}

pub open spec fn spec_note_on(p: MidiPacket) -> bool {
    p.len >= 3 && packet_status(p) & 0xF0 == 0x90 && p.data@[2] > 0
}

pub open spec fn spec_note_off(p: MidiPacket) -> bool {
    packet_status(p) & 0xF0 == 0x80 || (p.len >= 3 && packet_status(p) & 0xF0 == 0x90
        && p.data@[2] == 0)
}

pub open spec fn spec_cc64_off(p: MidiPacket) -> bool {
    p.len >= 3 && packet_status(p) & 0xF0 == 0xB0 && p.data@[1] == 64 && p.data@[2] < 64
}

/// A message whose loss would leave a note or the pedal stuck.
pub open spec fn spec_critical(p: MidiPacket) -> bool {
    spec_note_off(p) || spec_cc64_off(p)
}

pub open spec fn sat_sub(a: u64, b: u64) -> u64 {
    if a >= b {
        (a - b) as u64
    } else {
        0
    }
}

impl MidiPacket {
    /// The first three bytes of `bytes` (zero-padded), stamped `now_us`;
    /// `None` for an empty message.
    pub fn from_bytes(bytes: &[u8], now_us: u64) -> (r: Option<MidiPacket>)
        ensures
            bytes@.len() == 0 ==> r is None,
            bytes@.len() > 0 ==> (r matches Some(p) && p.len as int == (if bytes@.len() < 3 {
                bytes@.len() as int
            } else {
                3
            }) && p.timestamp_us == now_us && (forall|i: int|
                0 <= i < 3 ==> #[trigger] p.data@[i] == (if i < p.len { bytes@[i] } else { 0u8 }))),
    {
        Self::from_bytes_with_age(bytes, now_us, 0)
    }

    /// The first three bytes of `bytes` (zero-padded), stamped `age_us`
    /// before `now_us`; `None` for an empty message.
    pub fn from_bytes_with_age(bytes: &[u8], now_us: u64, age_us: u64) -> (r: Option<MidiPacket>)
        ensures
            bytes@.len() == 0 ==> r is None,
            bytes@.len() > 0 ==> (r matches Some(p) && p.len as int == (if bytes@.len() < 3 {
                bytes@.len() as int
            } else {
                3
            }) && p.timestamp_us == sat_sub(now_us, age_us) && (forall|i: int|
                0 <= i < 3 ==> #[trigger] p.data@[i] == (if i < p.len { bytes@[i] } else { 0u8 }))),
    {
        if bytes.len() == 0 {
            return None;
        }
        let len: usize = if bytes.len() < 3 { bytes.len() } else { 3 };
        let b0 = bytes[0];
        let b1 = if len > 1 { bytes[1] } else { 0 };
        let b2 = if len > 2 { bytes[2] } else { 0 };
        let data = [b0, b1, b2];
        Some(MidiPacket { data, len: len as u8, timestamp_us: now_us.saturating_sub(age_us) })
    }

    /// The status byte.
    pub fn status(self) -> (r: u8)
        ensures
            r == packet_status(self),
    {
        self.data[0]
    }

    pub fn is_note_on(self) -> (r: bool)
        ensures
            r == spec_note_on(self),
    {
        self.len >= 3 && (self.data[0] & 0xF0) == 0x90 && self.data[2] > 0
    }

    pub fn is_note_off(self) -> (r: bool)
        ensures
            r == spec_note_off(self),
    {
        (self.data[0] & 0xF0) == 0x80 || (self.len >= 3 && (self.data[0] & 0xF0) == 0x90
            && self.data[2] == 0)
    }

    pub fn is_cc64_off(self) -> (r: bool)
        ensures
            r == spec_cc64_off(self),
    {
        self.len >= 3 && (self.data[0] & 0xF0) == 0xB0 && self.data[1] == 64 && self.data[2] < 64
    }

    /// A note-off or a sustain release.
    pub fn is_critical_release(self) -> (r: bool)
        ensures
            r == spec_critical(self),
    {
        self.is_note_off() || self.is_cc64_off()
    }

    /// Microseconds since the packet was stamped (0 for a future stamp).
    pub fn age_us(self, now_us: u64) -> (r: u64)
        ensures
            r == sat_sub(now_us, self.timestamp_us),
    {
        now_us.saturating_sub(self.timestamp_us)
    }
}

/// The three reset messages and the sustain release for `channel`: control
/// changes 64, 120, 121 and 123 with value 0.
pub fn reset_messages_for_channel(channel: u8) -> (r: [[u8; 3]; 4])
    ensures
        r@[0]@ == seq![0xB0u8 | channel, 64u8, 0u8],
        r@[1]@ == seq![0xB0u8 | channel, 120u8, 0u8],
        r@[2]@ == seq![0xB0u8 | channel, 121u8, 0u8],
        r@[3]@ == seq![0xB0u8 | channel, 123u8, 0u8],
{
    let s = 0xB0u8 | channel;
    let r = [[s, 64, 0], [s, 120, 0], [s, 121, 0], [s, 123, 0]];
    assert(r@[0]@ =~= seq![s, 64u8, 0u8]);
    assert(r@[1]@ =~= seq![s, 120u8, 0u8]);
    assert(r@[2]@ =~= seq![s, 121u8, 0u8]);
    assert(r@[3]@ =~= seq![s, 123u8, 0u8]);
    r
}

} // verus!

verus! {

/// The first packet at or after `i` that presses a key.
pub open spec fn find_note_on(s: Seq<MidiPacket>, i: int) -> Option<int>
    decreases s.len() - i,
{
    if i < 0 || i >= s.len() {
        None
    } else if spec_note_on(s[i]) {
        Some(i)
    } else {
        find_note_on(s, i + 1)
    }
}

/// The first packet at or after `i` that is not a critical release.
pub open spec fn find_non_critical(s: Seq<MidiPacket>, i: int) -> Option<int>
    decreases s.len() - i,
{
    if i < 0 || i >= s.len() {
        None
    } else if !spec_critical(s[i]) {
        Some(i)
    } else {
        find_non_critical(s, i + 1)
    }
}

proof fn lemma_find_note_on(s: Seq<MidiPacket>, i: int)
    requires
        0 <= i,
    ensures
        find_note_on(s, i) matches Some(k) ==> i <= k < s.len() && spec_note_on(s[k]),
        find_note_on(s, i) is None ==> forall|k: int| i <= k < s.len() ==> !spec_note_on(#[trigger] s[k]),
    decreases s.len() - i,
{
    if i < s.len() {
        lemma_find_note_on(s, i + 1);
    }
}

proof fn lemma_find_non_critical(s: Seq<MidiPacket>, i: int)
    requires
        0 <= i,
    ensures
        find_non_critical(s, i) matches Some(k) ==> i <= k < s.len() && !spec_critical(s[k]),
        find_non_critical(s, i) is None ==> forall|k: int| i <= k < s.len() ==> spec_critical(#[trigger] s[k]),
    decreases s.len() - i,
{
    if i < s.len() {
        lemma_find_non_critical(s, i + 1);
    }
}

/// Removes the packet at `k`, moving the first packet into its place first
/// (a swap with the front, then a pop of the front).
pub open spec fn remove_swapped(s: Seq<MidiPacket>, k: int) -> Seq<MidiPacket> {
    s.update(k, s[0]).drop_first()
}

/// The queue after `msg` arrives, whether a packet was dropped, and whether
/// the synthesizer must be reset. Below capacity the packet is queued. At
/// capacity the oldest key press makes room; failing that an ordinary
/// packet is dropped, while a critical release evicts the oldest ordinary
/// packet, or, when every queued packet is critical, replaces the whole
/// queue and requests a reset.
pub open spec fn spec_enqueue(s: Seq<MidiPacket>, msg: MidiPacket) -> (Seq<MidiPacket>, bool, bool) {
    if s.len() < MAX_PENDING_MIDI {
        (s.push(msg), false, false)
    } else if find_note_on(s, 0) is Some {
        (remove_swapped(s, find_note_on(s, 0)->0).push(msg), true, false)
    } else if !spec_critical(msg) {
        (s, true, false)
    } else if find_non_critical(s, 0) is Some {
        (remove_swapped(s, find_non_critical(s, 0)->0).push(msg), true, false)
    } else {
        (seq![msg], true, true)
    }
}

/// The MIDI side of the audio callback's state.
pub struct MidiQueue {
    pub pending: VecDeque<MidiPacket>,
    pub needs_emergency_reset: bool,
    /// Packets dropped (wrapping counter).
    pub drop_count: u64,
    /// Largest block the plug-in was prepared for.
    pub max_frames: usize,
    pub sample_rate: u32,
    /// Telemetry: packets waiting, most waiting, age of the oldest.
    pub queue_depth: u32,
    pub queue_max_depth: u32,
    pub oldest_us: u64,
}

pub open spec fn bump64(x: u64) -> u64 {
    if x == u64::MAX {
        0
    } else {
        (x + 1) as u64
    }
}

fn find_first_note_on(v: &VecDeque<MidiPacket>) -> (r: Option<usize>)
    ensures
        match find_note_on(v@, 0) {
            Some(k) => r == Some(k as usize),
            None => r is None,
        },
{
    let mut i: usize = 0;
    while i < v.len()
        invariant
            i <= v@.len(),
            find_note_on(v@, 0) == find_note_on(v@, i as int),
        decreases v@.len() - i,
    {
        if v[i].is_note_on() {
            return Some(i);
        }
        i = i + 1;
    }
    None
}

fn find_first_non_critical(v: &VecDeque<MidiPacket>) -> (r: Option<usize>)
    ensures
        match find_non_critical(v@, 0) {
            Some(k) => r == Some(k as usize),
            None => r is None,
        },
{
    let mut i: usize = 0;
    while i < v.len()
        invariant
            i <= v@.len(),
            find_non_critical(v@, 0) == find_non_critical(v@, i as int),
        decreases v@.len() - i,
    {
        if !v[i].is_critical_release() {
            return Some(i);
        }
        i = i + 1;
    }
    None
}

/// Trusted: `VecDeque::swap` exchanges the elements at `i` and `j` (it
/// panics when either is out of bounds, which `requires` rules out).
#[verifier::external_body]
fn deque_swap(v: &mut VecDeque<MidiPacket>, i: usize, j: usize)
    requires
        i < old(v)@.len(),
        j < old(v)@.len(),
    ensures
        final(v)@ == old(v)@.update(i as int, old(v)@[j as int]).update(j as int, old(v)@[i as int]),
{
    v.swap(i, j)
}

fn remove_with_swap(v: &mut VecDeque<MidiPacket>, k: usize)
    requires
        k < old(v)@.len(),
    ensures
        final(v)@ == remove_swapped(old(v)@, k as int),
{
    deque_swap(v, 0, k);
    let _ = v.pop_front();
    assert(v@ =~= remove_swapped(old(v)@, k as int));
}

impl MidiQueue {
    /// An empty queue for a plug-in prepared for `max_frames` at
    /// `sample_rate`.
    pub fn new(max_frames: usize, sample_rate: u32) -> (r: MidiQueue)
        ensures
            r.pending@.len() == 0,
            !r.needs_emergency_reset,
            r.drop_count == 0,
            r.max_frames == max_frames,
            r.sample_rate == sample_rate,
            r.queue_depth == 0 && r.queue_max_depth == 0 && r.oldest_us == 0,
    {
        MidiQueue {
            pending: VecDeque::with_capacity(MAX_PENDING_MIDI),
            needs_emergency_reset: false,
            drop_count: 0,
            max_frames,
            sample_rate,
            queue_depth: 0,
            queue_max_depth: 0,
            oldest_us: 0,
        }
    }

    /// Queues `msg` under the overflow policy of `spec_enqueue`; a dropped
    /// packet is counted, a reset request is kept until handled.
    pub fn enqueue_midi(&mut self, msg: MidiPacket)
        ensures
            final(self).pending@ == spec_enqueue(old(self).pending@, msg).0,
            final(self).drop_count == (if spec_enqueue(old(self).pending@, msg).1 {
                bump64(old(self).drop_count)
            } else {
                old(self).drop_count
            }),
            final(self).needs_emergency_reset == (old(self).needs_emergency_reset
                || spec_enqueue(old(self).pending@, msg).2),
            final(self).max_frames == old(self).max_frames,
            final(self).sample_rate == old(self).sample_rate,
            final(self).queue_depth == old(self).queue_depth,
            final(self).queue_max_depth == old(self).queue_max_depth,
            final(self).oldest_us == old(self).oldest_us,
    {
        if self.pending.len() < MAX_PENDING_MIDI {
            self.pending.push_back(msg);
            return;
        }
        proof {
            lemma_find_note_on(self.pending@, 0);
            lemma_find_non_critical(self.pending@, 0);
        }
        if let Some(k) = find_first_note_on(&self.pending) {
            remove_with_swap(&mut self.pending, k);
            self.pending.push_back(msg);
            self.drop_count = self.drop_count.wrapping_add(1);
            return;
        }
        if !msg.is_critical_release() {
            self.drop_count = self.drop_count.wrapping_add(1);
            return;
        }
        if let Some(k) = find_first_non_critical(&self.pending) {
            remove_with_swap(&mut self.pending, k);
            self.pending.push_back(msg);
            self.drop_count = self.drop_count.wrapping_add(1);
            return;
        }
        self.pending.clear();
        self.pending.push_back(msg);
        self.needs_emergency_reset = true;
        self.drop_count = self.drop_count.wrapping_add(1);
        assert(self.pending@ =~= seq![msg]);
    }
}

/// Law: the queue never grows beyond `MAX_PENDING_MIDI`, and a critical
/// release that arrives is always queued, as the newest packet.
pub proof fn lemma_enqueue_bounded_and_keeps_releases(s: Seq<MidiPacket>, msg: MidiPacket)
    requires
        s.len() <= MAX_PENDING_MIDI,
    ensures
        spec_enqueue(s, msg).0.len() <= MAX_PENDING_MIDI,
        spec_critical(msg) ==> spec_enqueue(s, msg).0.last() == msg,
        spec_enqueue(s, msg).2 ==> spec_critical(msg) && forall|i: int| 0 <= i < s.len() ==> spec_critical(#[trigger] s[i]),
{
    lemma_find_note_on(s, 0);
    lemma_find_non_critical(s, 0);
}

/// Law: below capacity nothing is dropped and the packet joins the end.
pub proof fn lemma_enqueue_below_capacity(s: Seq<MidiPacket>, msg: MidiPacket)
    requires
        s.len() < MAX_PENDING_MIDI,
    ensures
        spec_enqueue(s, msg) == (s.push(msg), false, false),
{
}

} // verus!

verus! {

#[verifier::external_type_specification]
#[verifier::external_body]
#[verifier::reject_recursive_types(T)]
pub struct ExConsumer<T>(Consumer<T>);

#[verifier::external_type_specification]
#[verifier::external_body]
#[verifier::reject_recursive_types(T)]
pub struct ExProducer<T>(Producer<T>);

/// Trusted: `rtrb::Consumer::pop` takes the oldest packet the producer has
/// pushed, if any. What the ring holds is written by another thread and is
/// not modelled, so nothing is stated of the result.
#[verifier::external_body]
fn ring_pop(rx: &mut Consumer<MidiPacket>) -> Option<MidiPacket> {
    rx.pop().ok()
}

/// Trusted: `rtrb::Consumer::slots` is the number of packets waiting in the
/// ring at the time of the call; it is not modelled.
#[verifier::external_body]
fn ring_slots(rx: &Consumer<MidiPacket>) -> usize {
    rx.slots()
}

/// Trusted: `rtrb::Producer::push` either queues the packet or, when the
/// ring is full, hands the same packet back.
#[verifier::external_body]
fn ring_push(tx: &mut Producer<MidiPacket>, packet: MidiPacket) -> (r: Result<(), MidiPacket>)
    ensures
        r matches Err(p) ==> p == packet,
{
    match tx.push(packet) {
        Ok(()) => Ok(()),
        Err(rtrb::PushError::Full(p)) => Err(p),
    }
}

pub open spec fn min_u64(a: int, b: int) -> int {
    if a < b {
        a
    } else {
        b
    }
}

/// Packets older than this many microseconds are stale: two blocks of the
/// measured size (or the prepared maximum when none was measured) at the
/// sample rate; never stale at an unknown rate.
pub open spec fn spec_stale_after(measured_frames: u32, max_frames: usize, sample_rate: u32) -> u64 {
    let frames: int = if measured_frames == 0 {
        min_u64(max_frames as int, u32::MAX as int)
    } else {
        measured_frames as int
    };
    if sample_rate == 0 {
        u64::MAX
    } else {
        (min_u64(frames * 2_000_000, u64::MAX as int) / (sample_rate as int)) as u64
    }
}

/// Computes the staleness threshold.
pub fn stale_after_us(measured_frames: u32, max_frames: usize, sample_rate: u32) -> (r: u64)
    ensures
        r == spec_stale_after(measured_frames, max_frames, sample_rate),
{
    let frames: u64 = if measured_frames == 0 {
        if max_frames as u64 > 0xffff_ffffu64 {
            0xffff_ffffu64
        } else {
            max_frames as u64
        }
    } else {
        measured_frames as u64
    };
    if sample_rate == 0 {
        return u64::MAX;
    }
    let product = match frames.checked_mul(2_000_000) {
        Some(v) => v,
        None => u64::MAX,
    };
    product / (sample_rate as u64)
}

/// The queue, drop count and reset flag after the packets taken from the
/// ring are processed in order: stale ordinary packets are dropped, the
/// others go through `spec_enqueue`.
pub open spec fn spec_absorb(s: Seq<MidiPacket>, drops: u64, reset: bool, popped: Seq<MidiPacket>, now_us: u64, stale: u64) -> (Seq<MidiPacket>, u64, bool)
    decreases popped.len(),
{
    if popped.len() == 0 {
        (s, drops, reset)
    } else {
        let (s1, d1, r1) = spec_absorb(s, drops, reset, popped.drop_last(), now_us, stale);
        let p = popped.last();
        if !spec_critical(p) && sat_sub(now_us, p.timestamp_us) > stale {
            (s1, bump64(d1), r1)
        } else {
            let (s2, dropped, needs) = spec_enqueue(s1, p);
            (s2, if dropped { bump64(d1) } else { d1 }, r1 || needs)
        }
    }
}

impl MidiQueue {
    /// Processes packets taken from the ring, oldest first.
    pub fn absorb_packets(&mut self, popped: &[MidiPacket], now_us: u64, stale: u64)
        ensures
            (final(self).pending@, final(self).drop_count, final(self).needs_emergency_reset)
                == spec_absorb(
                old(self).pending@,
                old(self).drop_count,
                old(self).needs_emergency_reset,
                popped@,
                now_us,
                stale,
            ),
            final(self).max_frames == old(self).max_frames,
            final(self).sample_rate == old(self).sample_rate,
            final(self).queue_depth == old(self).queue_depth,
            final(self).queue_max_depth == old(self).queue_max_depth,
            final(self).oldest_us == old(self).oldest_us,
    {
        let ghost s0 = self.pending@;
        let ghost d0 = self.drop_count;
        let ghost r0 = self.needs_emergency_reset;
        let mut i: usize = 0;
        while i < popped.len()
            invariant
                i <= popped@.len(),
                (self.pending@, self.drop_count, self.needs_emergency_reset) == spec_absorb(
                    s0,
                    d0,
                    r0,
                    popped@.take(i as int),
                    now_us,
                    stale,
                ),
                self.max_frames == old(self).max_frames,
                self.sample_rate == old(self).sample_rate,
                self.queue_depth == old(self).queue_depth,
                self.queue_max_depth == old(self).queue_max_depth,
                self.oldest_us == old(self).oldest_us,
            decreases popped@.len() - i,
        {
            assert(popped@.take(i as int + 1).drop_last() =~= popped@.take(i as int));
            let p = popped[i];
            if !p.is_critical_release() && p.age_us(now_us) > stale {
                self.drop_count = self.drop_count.wrapping_add(1);
            } else {
                self.enqueue_midi(p);
            }
            i = i + 1;
        }
        assert(popped@.take(i as int) =~= popped@);
    }

    /// Records the depth of the queue and of the ring behind it (saturated
    /// at `u32::MAX`), raises the maximum, and the age of the oldest queued
    /// packet.
    pub fn update_telemetry(&mut self, ring_slots: usize, now_us: u64)
        ensures
            final(self).queue_depth as int == min_u64(
                min_u64(old(self).pending@.len() + ring_slots, usize::MAX as int),
                u32::MAX as int,
            ),
            final(self).queue_max_depth == (if final(self).queue_depth > old(self).queue_max_depth {
                final(self).queue_depth
            } else {
                old(self).queue_max_depth
            }),
            final(self).oldest_us == (if old(self).pending@.len() > 0 {
                sat_sub(now_us, old(self).pending@[0].timestamp_us)
            } else {
                0
            }),
            final(self).pending@ == old(self).pending@,
            final(self).drop_count == old(self).drop_count,
            final(self).needs_emergency_reset == old(self).needs_emergency_reset,
            final(self).max_frames == old(self).max_frames,
            final(self).sample_rate == old(self).sample_rate,
    {
        let depth = self.pending.len().saturating_add(ring_slots);
        let depth: u32 = if depth > 0xffff_ffffusize { 0xffff_ffff } else { depth as u32 };
        self.queue_depth = depth;
        if depth > self.queue_max_depth {
            self.queue_max_depth = depth;
        }
        self.oldest_us = if self.pending.len() > 0 {
            self.pending[0].age_us(now_us)
        } else {
            0
        };
    }

    /// The per-callback drain: a requested emergency reset clears the queue
    /// and is remembered; then at most `MIDI_DRAIN_BUDGET_PER_CALLBACK`
    /// packets are taken from the ring and processed by `absorb_packets`,
    /// and the telemetry is updated. Fewer packets are taken only when the
    /// ring ran dry, which the result reports.
    pub fn drain_midi(&mut self, rx: &mut Consumer<MidiPacket>, reset_requested: bool, now_us: u64, measured_frames: u32) -> (ran_dry: bool)
        requires
            old(self).pending@.len() <= MAX_PENDING_MIDI,
        ensures
            final(self).pending@.len() <= MAX_PENDING_MIDI,
            reset_requested ==> final(self).needs_emergency_reset,
            old(self).needs_emergency_reset ==> final(self).needs_emergency_reset,
            final(self).max_frames == old(self).max_frames,
            final(self).sample_rate == old(self).sample_rate,
            exists|popped: Seq<MidiPacket>|
                #![trigger popped.len()]
                popped.len() <= MIDI_DRAIN_BUDGET_PER_CALLBACK
                && (ran_dry <==> popped.len() < MIDI_DRAIN_BUDGET_PER_CALLBACK) && (
                    final(self).pending@,
                    final(self).drop_count,
                    final(self).needs_emergency_reset,
                ) == spec_absorb(
                    drain_start(old(self).pending@, reset_requested),
                    old(self).drop_count,
                    old(self).needs_emergency_reset || reset_requested,
                    popped,
                    now_us,
                    spec_stale_after(measured_frames, old(self).max_frames, old(self).sample_rate),
                ),
    {
        if reset_requested {
            self.needs_emergency_reset = true;
            self.pending.clear();
        }
        let stale = stale_after_us(measured_frames, self.max_frames, self.sample_rate);
        let mut popped: Vec<MidiPacket> = Vec::new();
        let mut ran_dry = false;
        while popped.len() < MIDI_DRAIN_BUDGET_PER_CALLBACK
            invariant_except_break
                popped@.len() <= MIDI_DRAIN_BUDGET_PER_CALLBACK,
                !ran_dry,
            ensures
                popped@.len() <= MIDI_DRAIN_BUDGET_PER_CALLBACK,
                ran_dry <==> popped@.len() < MIDI_DRAIN_BUDGET_PER_CALLBACK,
            decreases MIDI_DRAIN_BUDGET_PER_CALLBACK - popped@.len(),
        {
            match ring_pop(rx) {
                Some(p) => popped.push(p),
                None => {
                    ran_dry = true;
                    break;
                },
            }
        }
        let ghost before = self.pending@;
        let ghost d_before = self.drop_count;
        let ghost r_before = self.needs_emergency_reset;
        proof {
            lemma_absorb_bounded(before, d_before, r_before, popped@, now_us, stale);
        }
        self.absorb_packets(popped.as_slice(), now_us, stale);
        let ghost absorbed = (self.pending@, self.drop_count, self.needs_emergency_reset);
        let slots = ring_slots(rx);
        self.update_telemetry(slots, now_us);
        assert(absorbed == spec_absorb(before, d_before, r_before, popped@, now_us, stale));
        ran_dry
    }
}

/// The queue a drain starts from: emptied when a reset was requested.
pub open spec fn drain_start(pending: Seq<MidiPacket>, reset_requested: bool) -> Seq<MidiPacket> {
    if reset_requested {
        Seq::empty()
    } else {
        pending
    }
}

/// Law: processing packets never grows the queue beyond its capacity, and
/// never clears a pending reset request.
pub proof fn lemma_absorb_bounded(s: Seq<MidiPacket>, drops: u64, reset: bool, popped: Seq<MidiPacket>, now_us: u64, stale: u64)
    requires
        s.len() <= MAX_PENDING_MIDI,
    ensures
        spec_absorb(s, drops, reset, popped, now_us, stale).0.len() <= MAX_PENDING_MIDI,
        reset ==> spec_absorb(s, drops, reset, popped, now_us, stale).2,
    decreases popped.len(),
{
    if popped.len() > 0 {
        lemma_absorb_bounded(s, drops, reset, popped.drop_last(), now_us, stale);
        let (s1, d1, r1) = spec_absorb(s, drops, reset, popped.drop_last(), now_us, stale);
        lemma_enqueue_bounded_and_keeps_releases(s1, popped.last());
    }
}

/// What became of a message handed to the audio engine.
#[derive(Clone, Copy, Debug, PartialEq, Eq, Structural)]
pub enum MidiSendOutcome {
    Sent,
    DroppedNonCritical,
    /// A critical release found the ring full after every retry; an
    /// emergency reset was requested instead.
    CriticalFallbackReset,
    AudioStopped,
}

/// Hands `packet` to the audio callback's ring. A full ring drops an
/// ordinary packet; a critical release is retried up to
/// `CRITICAL_MIDI_PUSH_ATTEMPTS` more times and, if the ring stays full,
/// an emergency reset is requested. Without a ring the engine is stopped.
pub fn send_midi_packet_with_outcome(tx: Option<&mut Producer<MidiPacket>>, packet: MidiPacket, emergency_reset_requested: &mut bool) -> (r: MidiSendOutcome)
    ensures
        tx is None ==> r == MidiSendOutcome::AudioStopped,
        tx is Some ==> r != MidiSendOutcome::AudioStopped,
        r == MidiSendOutcome::DroppedNonCritical ==> !spec_critical(packet),
        r == MidiSendOutcome::CriticalFallbackReset ==> spec_critical(packet),
        *final(emergency_reset_requested) == (*old(emergency_reset_requested) || r
            == MidiSendOutcome::CriticalFallbackReset),
{
    match tx {
        Some(t) => push_with_retries(t, packet, emergency_reset_requested),
        None => MidiSendOutcome::AudioStopped,
    }
}

/// What follows one push of a packet onto the ring.
#[derive(Clone, Copy, Debug, PartialEq, Eq, Structural)]
pub enum PushStep {
    /// The send is over, with this outcome.
    Finish(MidiSendOutcome),
    /// A critical release met a full ring: push it again.
    Retry,
}

pub open spec fn spec_after_push(pushed: bool, critical: bool, attempts: usize) -> PushStep {
    if pushed {
        PushStep::Finish(MidiSendOutcome::Sent)
    } else if !critical {
        PushStep::Finish(MidiSendOutcome::DroppedNonCritical)
    } else if attempts >= CRITICAL_MIDI_PUSH_ATTEMPTS {
        PushStep::Finish(MidiSendOutcome::CriticalFallbackReset)
    } else {
        PushStep::Retry
    }
}

/// The decision after a push, given whether the ring took the packet,
/// whether the packet is a critical release, and how many retries were
/// already made: a pushed packet is sent; a full ring drops an ordinary
/// packet; a critical release is retried until `CRITICAL_MIDI_PUSH_ATTEMPTS`
/// retries were made, and then falls back to an emergency reset.
pub fn after_push(pushed: bool, critical: bool, attempts: usize) -> (r: PushStep)
    ensures
        r == spec_after_push(pushed, critical, attempts),
{
    if pushed {
        PushStep::Finish(MidiSendOutcome::Sent)
    } else if !critical {
        PushStep::Finish(MidiSendOutcome::DroppedNonCritical)
    } else if attempts >= CRITICAL_MIDI_PUSH_ATTEMPTS {
        PushStep::Finish(MidiSendOutcome::CriticalFallbackReset)
    } else {
        PushStep::Retry
    }
}

fn push_with_retries(tx: &mut Producer<MidiPacket>, packet: MidiPacket, emergency_reset_requested: &mut bool) -> (r: MidiSendOutcome)
    ensures
        r != MidiSendOutcome::AudioStopped,
        r == MidiSendOutcome::DroppedNonCritical ==> !spec_critical(packet),
        r == MidiSendOutcome::CriticalFallbackReset ==> spec_critical(packet),
        *final(emergency_reset_requested) == (*old(emergency_reset_requested) || r
            == MidiSendOutcome::CriticalFallbackReset),
{
    let critical = packet.is_critical_release();
    let mut current = packet;
    let mut attempts: usize = 0;
    loop
        invariant
            current == packet,
            critical == spec_critical(packet),
            attempts <= CRITICAL_MIDI_PUSH_ATTEMPTS,
            *emergency_reset_requested == *old(emergency_reset_requested),
        decreases CRITICAL_MIDI_PUSH_ATTEMPTS - attempts,
    {
        let pushed = match ring_push(tx, current) {
            Ok(()) => true,
            Err(returned) => {
                current = returned;
                false
            },
        };
        match after_push(pushed, critical, attempts) {
            PushStep::Finish(outcome) => {
                if let MidiSendOutcome::CriticalFallbackReset = outcome {
                    *emergency_reset_requested = true;
                }
                return outcome;
            },
            PushStep::Retry => {
                attempts = attempts + 1;
            },
        }
    }
}

impl MidiQueue {
    /// Takes the packets handed to the plug-in in this callback: the oldest
    /// ones, at most `capacity`; the others stay queued in order.
    pub fn take_plugin_batch(&mut self, capacity: usize) -> (batch: Vec<MidiPacket>)
        ensures
            batch@.len() == (if old(self).pending@.len() < capacity {
                old(self).pending@.len() as int
            } else {
                capacity as int
            }),
            batch@ == old(self).pending@.take(batch@.len() as int),
            final(self).pending@ == old(self).pending@.skip(batch@.len() as int),
            final(self).drop_count == old(self).drop_count,
            final(self).needs_emergency_reset == old(self).needs_emergency_reset,
            final(self).max_frames == old(self).max_frames,
            final(self).sample_rate == old(self).sample_rate,
    {
        let n: usize = if self.pending.len() < capacity {
            self.pending.len()
        } else {
            capacity
        };
        let ghost start = self.pending@;
        let mut batch: Vec<MidiPacket> = Vec::new();
        while batch.len() < n
            invariant
                n <= start.len(),
                batch@.len() <= n,
                batch@ == start.take(batch@.len() as int),
                self.pending@ == start.skip(batch@.len() as int),
                self.drop_count == old(self).drop_count,
                self.needs_emergency_reset == old(self).needs_emergency_reset,
                self.max_frames == old(self).max_frames,
                self.sample_rate == old(self).sample_rate,
            decreases n - batch@.len(),
        {
            let ghost taken = batch@.len() as int;
            match self.pending.pop_front() {
                Some(p) => {
                    batch.push(p);
                    assert(batch@ =~= start.take(taken + 1));
                    assert(self.pending@ =~= start.skip(taken + 1));
                },
                None => {
                    assert(false);
                },
            }
        }
        batch
    }
}

} // verus!
