//! The bridge pipeline: its counters, the bounded queue in front of it, and
//! the decisions taken for each incoming MIDI frame.

use vstd::prelude::*;
use crate::config::{LoggingConfig, MidiConfig, OscConfig};
use crate::midi::{
    MidiFrame, MidiKind, is_critical_release_message, parse_note, parse_sustain,
    spec_is_critical_release, spec_parse_note, spec_parse_sustain,
};
use crate::routing::RoutingProfileRuntime;
use crate::text::str_eq;
use crossbeam_channel::Sender;

verus! {

// ---------------------------------------------------------------------------
// Counters
// ---------------------------------------------------------------------------

/// Counter increment as the pipeline's atomic counters do it: wrapping.
pub open spec fn bump(x: u64) -> u64 {
    if x == u64::MAX {
        0
    } else {
        (x + 1) as u64
    }
}

/// Counters of the pipeline, and the two flags it shares with the rest of
/// the bridge.
pub struct PipelineStats {
    pub messages_in: u64,
    pub messages_out: u64,
    pub messages_filtered: u64,
    pub queue_depth: u64,
    pub queue_max_depth: u64,
    pub messages_dropped: u64,
    /// Time of the last sampled debug line, in milliseconds.
    pub debug_sample_last_ms: u64,
    /// A critical MIDI release was lost; the outputs need a reset.
    pub critical_reset_requested: bool,
}

/// A copy of the pipeline counters.
#[derive(Clone, Copy, Debug, PartialEq, Eq, Structural)]
pub struct PipelineMetricsSnapshot {
    pub queue_depth: u64,
    pub queue_max_depth: u64,
    pub messages_in: u64,
    pub messages_out: u64,
    pub messages_filtered: u64,
    pub messages_dropped: u64,
}

impl PipelineStats {
    /// All counters zero, no pending reset request.
    pub fn new() -> (r: PipelineStats)
        ensures
            r.messages_in == 0 && r.messages_out == 0 && r.messages_filtered == 0,
            r.queue_depth == 0 && r.queue_max_depth == 0 && r.messages_dropped == 0,
            r.debug_sample_last_ms == 0,
            !r.critical_reset_requested,
    {
        PipelineStats {
            messages_in: 0,
            messages_out: 0,
            messages_filtered: 0,
            queue_depth: 0,
            queue_max_depth: 0,
            messages_dropped: 0,
            debug_sample_last_ms: 0,
            critical_reset_requested: false,
        }
    }
}

/// The messages counted in, out, and filtered.
pub fn pipeline_stats(stats: &PipelineStats) -> (r: (u64, u64, u64))
    ensures
        r == (stats.messages_in, stats.messages_out, stats.messages_filtered),
{
    (stats.messages_in, stats.messages_out, stats.messages_filtered)
}

/// Records the current queue depth and raises the maximum seen.
pub fn update_pipeline_queue_depth(stats: &mut PipelineStats, depth: usize)
    ensures
        final(stats).queue_depth == depth as u64,
        final(stats).queue_max_depth == (if depth as u64 > old(stats).queue_max_depth {
            depth as u64
        } else {
            old(stats).queue_max_depth
        }),
        final(stats).messages_in == old(stats).messages_in,
        final(stats).messages_out == old(stats).messages_out,
        final(stats).messages_filtered == old(stats).messages_filtered,
        final(stats).messages_dropped == old(stats).messages_dropped,
        final(stats).debug_sample_last_ms == old(stats).debug_sample_last_ms,
        final(stats).critical_reset_requested == old(stats).critical_reset_requested,
{
    let depth = depth as u64;
    stats.queue_depth = depth;
    if depth > stats.queue_max_depth {
        stats.queue_max_depth = depth;
    }
}

/// A copy of the counters.
pub fn pipeline_metrics_snapshot(stats: &PipelineStats) -> (r: PipelineMetricsSnapshot)
    ensures
        r == (PipelineMetricsSnapshot {
            queue_depth: stats.queue_depth,
            queue_max_depth: stats.queue_max_depth,
            messages_in: stats.messages_in,
            messages_out: stats.messages_out,
            messages_filtered: stats.messages_filtered,
            messages_dropped: stats.messages_dropped,
        }),
{
    PipelineMetricsSnapshot {
        queue_depth: stats.queue_depth,
        queue_max_depth: stats.queue_max_depth,
        messages_in: stats.messages_in,
        messages_out: stats.messages_out,
        messages_filtered: stats.messages_filtered,
        messages_dropped: stats.messages_dropped,
    }
}

/// Zeroes the counters and clears a pending reset request; the debug
/// sampling clock is kept.
pub fn reset_pipeline_stats(stats: &mut PipelineStats)
    ensures
        final(stats).messages_in == 0 && final(stats).messages_out == 0
            && final(stats).messages_filtered == 0,
        final(stats).queue_depth == 0 && final(stats).queue_max_depth == 0
            && final(stats).messages_dropped == 0,
        !final(stats).critical_reset_requested,
        final(stats).debug_sample_last_ms == old(stats).debug_sample_last_ms,
{
    stats.messages_in = 0;
    stats.messages_out = 0;
    stats.messages_filtered = 0;
    stats.queue_depth = 0;
    stats.queue_max_depth = 0;
    stats.messages_dropped = 0;
    stats.critical_reset_requested = false;
}

/// Returns whether a reset was requested, and clears the request.
pub fn take_critical_midi_reset_request(stats: &mut PipelineStats) -> (r: bool)
    ensures
        r == old(stats).critical_reset_requested,
        !final(stats).critical_reset_requested,
        final(stats).messages_dropped == old(stats).messages_dropped,
{
    let r = stats.critical_reset_requested;
    stats.critical_reset_requested = false;
    r
}

/// Requests a reset of the MIDI outputs.
pub fn request_critical_midi_reset(stats: &mut PipelineStats)
    ensures
        final(stats).critical_reset_requested,
        final(stats).messages_dropped == old(stats).messages_dropped,
{
    stats.critical_reset_requested = true;
}

/// Counts a message dropped while fanning out to a slow consumer.
pub fn record_fanout_drop(stats: &mut PipelineStats)
    ensures
        *final(stats) == (PipelineStats { messages_dropped: bump(old(stats).messages_dropped), ..*old(stats) }),
{
    stats.messages_dropped = stats.messages_dropped.wrapping_add(1);
}

/// Whether a debug line may be written at `now_ms`: at most one per second.
/// When it may, `now_ms` becomes the time of the last one.
pub fn should_sample_midi_debug(stats: &mut PipelineStats, now_ms: u64) -> (r: bool)
    ensures
        r == (now_ms >= old(stats).debug_sample_last_ms + 1000),
        final(stats).debug_sample_last_ms == (if r {
            now_ms
        } else {
            old(stats).debug_sample_last_ms
        }),
        final(stats).messages_dropped == old(stats).messages_dropped,
        final(stats).critical_reset_requested == old(stats).critical_reset_requested,
{
    let last = stats.debug_sample_last_ms;
    if now_ms.saturating_sub(last) >= 1000 {
        stats.debug_sample_last_ms = now_ms;
        true
    } else {
        false
    }
}

// ---------------------------------------------------------------------------
// The bounded queue in front of the pipeline
// ---------------------------------------------------------------------------

/// A frame handed to the queue, whether or not it was accepted.
#[derive(Clone, Copy, Debug, PartialEq, Eq, Structural)]
pub enum EnqueueOutcome {
    Enqueued,
    /// The queue was full and the frame could be lost without harm.
    DroppedNonCritical,
}

/// A frame that the queue did not take and whose loss matters.
#[derive(Clone, Copy, Debug, PartialEq, Eq, Structural)]
pub enum EnqueueError {
    /// The queue was full twice for a note-off or sustain release.
    CriticalReleaseDropped,
    /// The bridge is not running.
    Disconnected,
}

impl EnqueueError {
    /// The error's message.
    pub fn message(&self) -> (r: &'static str)
        ensures
            r@ == (match *self {
                EnqueueError::CriticalReleaseDropped => "Bridge queue full; critical MIDI release dropped"@,
                EnqueueError::Disconnected => "Bridge not running"@,
            }),
    {
        match self {
            EnqueueError::CriticalReleaseDropped => "Bridge queue full; critical MIDI release dropped",
            EnqueueError::Disconnected => "Bridge not running",
        }
    }
}

/// What one attempt to put a frame on the channel gave.
pub enum SendAttempt {
    Sent,
    /// The channel was full; the frame comes back.
    Full(MidiFrame),
    /// Every receiver is gone; the frame comes back.
    Disconnected(MidiFrame),
}

#[verifier::external_type_specification]
#[verifier::external_body]
#[verifier::reject_recursive_types(T)]
pub struct ExSender<T>(Sender<T>);

/// Trusted: `crossbeam_channel::Sender::try_send` either queues the message
/// or, when the channel is full or has no receiver, hands the same message
/// back in the error. Which of the three happens depends on the channel's
/// state, which is not modelled.
#[verifier::external_body]
fn channel_try_send(tx: &Sender<MidiFrame>, frame: MidiFrame) -> (r: SendAttempt)
    ensures
        r matches SendAttempt::Full(f) ==> f == frame,
        r matches SendAttempt::Disconnected(f) ==> f == frame,
{
    match tx.try_send(frame) {
        Ok(()) => SendAttempt::Sent,
        Err(crossbeam_channel::TrySendError::Full(f)) => SendAttempt::Full(f),
        Err(crossbeam_channel::TrySendError::Disconnected(f)) => SendAttempt::Disconnected(f),
    }
}

/// The result of `try_enqueue_midi_frame` for the outcomes of its (at most
/// two) attempts: `first`, and `second` when a critical release met a full
/// queue.
pub open spec fn enqueue_result(critical: bool, first: int, second: int) -> Result<EnqueueOutcome, EnqueueError> {
    // 0: sent, 1: full, 2: disconnected
    if first == 0 {
        Ok(EnqueueOutcome::Enqueued)
    } else if first == 2 {
        Err(EnqueueError::Disconnected)
    } else if !critical {
        Ok(EnqueueOutcome::DroppedNonCritical)
    } else if second == 0 {
        Ok(EnqueueOutcome::Enqueued)
    } else if second == 1 {
        Err(EnqueueError::CriticalReleaseDropped)
    } else {
        Err(EnqueueError::Disconnected)
    }
}

/// The counters after the first attempt, for its outcome `first`.
pub open spec fn first_attempt_stats(s: PipelineStats, critical: bool, first: int) -> PipelineStats {
    if first == 1 && !critical {
        PipelineStats { messages_dropped: bump(s.messages_dropped), ..s }
    } else if first == 2 && critical {
        PipelineStats { critical_reset_requested: true, ..s }
    } else {
        s
    }
}

/// The counters after the second attempt of a critical release, for its
/// outcome `second`.
pub open spec fn second_attempt_stats(s: PipelineStats, second: int) -> PipelineStats {
    if second == 1 {
        PipelineStats { messages_dropped: bump(s.messages_dropped), critical_reset_requested: true, ..s }
    } else if second == 2 {
        PipelineStats { critical_reset_requested: true, ..s }
    } else {
        s
    }
}

/// The counters after `try_enqueue_midi_frame`, for the outcomes of its
/// attempts (as in `enqueue_result`).
pub open spec fn enqueue_stats(s: PipelineStats, critical: bool, first: int, second: int) -> PipelineStats {
    if first == 1 && critical {
        second_attempt_stats(s, second)
    } else {
        first_attempt_stats(s, critical, first)
    }
}

pub open spec fn attempt_code(a: SendAttempt) -> int {
    match a {
        SendAttempt::Sent => 0,
        SendAttempt::Full(_) => 1,
        SendAttempt::Disconnected(_) => 2,
    }
}

/// The decision after the first attempt: `Some(result)` when it is final,
/// `None` when a critical release met a full queue and is tried once more.
pub fn after_first_attempt(attempt: &SendAttempt, critical: bool, stats: &mut PipelineStats) -> (r: Option<Result<EnqueueOutcome, EnqueueError>>)
    ensures
        match r {
            Some(res) => res == enqueue_result(critical, attempt_code(*attempt), 0)
                && !(attempt_code(*attempt) == 1 && critical),
            None => attempt_code(*attempt) == 1 && critical,
        },
        final(stats).messages_dropped == (if attempt_code(*attempt) == 1 && !critical {
            bump(old(stats).messages_dropped)
        } else {
            old(stats).messages_dropped
        }),
        final(stats).critical_reset_requested == (old(stats).critical_reset_requested || (
        attempt_code(*attempt) == 2 && critical)),
        *final(stats) == first_attempt_stats(*old(stats), critical, attempt_code(*attempt)),
{
    match attempt {
        SendAttempt::Sent => Some(Ok(EnqueueOutcome::Enqueued)),
        SendAttempt::Full(_) => {
            if critical {
                None
            } else {
                stats.messages_dropped = stats.messages_dropped.wrapping_add(1);
                Some(Ok(EnqueueOutcome::DroppedNonCritical))
            }
        },
        SendAttempt::Disconnected(_) => {
            if critical {
                stats.critical_reset_requested = true;
            }
            Some(Err(EnqueueError::Disconnected))
        },
    }
}

/// The decision after the second attempt of a critical release.
pub fn after_second_attempt(attempt: &SendAttempt, stats: &mut PipelineStats) -> (r: Result<EnqueueOutcome, EnqueueError>)
    ensures
        r == enqueue_result(true, 1, attempt_code(*attempt)),
        final(stats).messages_dropped == (if attempt_code(*attempt) == 1 {
            bump(old(stats).messages_dropped)
        } else {
            old(stats).messages_dropped
        }),
        final(stats).critical_reset_requested == (old(stats).critical_reset_requested
            || attempt_code(*attempt) != 0),
        *final(stats) == second_attempt_stats(*old(stats), attempt_code(*attempt)),
{
    match attempt {
        SendAttempt::Sent => Ok(EnqueueOutcome::Enqueued),
        SendAttempt::Full(_) => {
            stats.messages_dropped = stats.messages_dropped.wrapping_add(1);
            stats.critical_reset_requested = true;
            Err(EnqueueError::CriticalReleaseDropped)
        },
        SendAttempt::Disconnected(_) => {
            stats.critical_reset_requested = true;
            Err(EnqueueError::Disconnected)
        },
    }
}

/// Puts `frame` on the bridge queue without blocking. A full queue drops
/// an ordinary frame (counted, `DroppedNonCritical`); a note-off or sustain
/// release is tried once more, and if it is lost the drop is counted, a
/// reset of the outputs is requested and the error returned. A closed queue
/// is an error, and also requests a reset when the frame was critical.
pub fn try_enqueue_midi_frame(tx: &Sender<MidiFrame>, frame: MidiFrame, stats: &mut PipelineStats) -> (r: Result<EnqueueOutcome, EnqueueError>)
    ensures
        r is Ok ==> final(stats).critical_reset_requested == old(stats).critical_reset_requested,
        r == Ok::<EnqueueOutcome, EnqueueError>(EnqueueOutcome::DroppedNonCritical) ==> !spec_is_critical_release(frame.data@)
            && final(stats).messages_dropped == bump(old(stats).messages_dropped),
        r == Err::<EnqueueOutcome, EnqueueError>(EnqueueError::CriticalReleaseDropped) ==> spec_is_critical_release(frame.data@)
            && final(stats).critical_reset_requested
            && final(stats).messages_dropped == bump(old(stats).messages_dropped),
        r == Err::<EnqueueOutcome, EnqueueError>(EnqueueError::Disconnected) ==> final(stats).messages_dropped == old(stats).messages_dropped
            && (spec_is_critical_release(frame.data@) ==> final(stats).critical_reset_requested),
        r == Ok::<EnqueueOutcome, EnqueueError>(EnqueueOutcome::Enqueued) ==> final(stats).messages_dropped == old(stats).messages_dropped,
        exists|first: int, second: int|
            #![trigger enqueue_result(spec_is_critical_release(frame.data@), first, second)]
            0 <= first <= 2 && 0 <= second <= 2
                && r == enqueue_result(spec_is_critical_release(frame.data@), first, second)
                && *final(stats) == enqueue_stats(*old(stats), spec_is_critical_release(frame.data@), first, second),
{
    let critical = is_critical_release_message(frame.data.as_slice());
    let first = channel_try_send(tx, frame);
    let ghost before = *stats;
    match after_first_attempt(&first, critical, stats) {
        Some(res) => {
            assert(enqueue_result(critical, attempt_code(first), 0) == res);
            assert(enqueue_stats(before, critical, attempt_code(first), 0) == *stats);
            res
        },
        None => {
            match first {
                SendAttempt::Full(f) => {
                    let second = channel_try_send(tx, f);
                    let r = after_second_attempt(&second, stats);
                    assert(enqueue_result(critical, 1, attempt_code(second)) == r);
                    r
                },
                _ => Err(EnqueueError::Disconnected),
            }
        },
    }
}

/// Trusted: `crossbeam_channel::Sender::send_timeout` waits at most
/// `timeout_ms` milliseconds for room in the channel and reports whether the
/// frame went in. That depends on the consumer, which is not modelled.
#[verifier::external_body]
fn channel_send_timeout(tx: &Sender<MidiFrame>, frame: MidiFrame, timeout_ms: u64) -> bool {
    tx.send_timeout(frame, std::time::Duration::from_millis(timeout_ms)).is_ok()
}

/// How long a fan-out waits for room before dropping a critical release.
pub const FANOUT_CRITICAL_WAIT_MS: u64 = 1;

/// Whether a fan-out frame was delivered to its worker.
#[derive(Clone, Copy, Debug, PartialEq, Eq, Structural)]
pub enum FanoutOutcome {
    Delivered,
    /// The frame was lost; the loss is counted.
    Dropped,
}

/// What follows the first attempt to hand a frame to a fan-out worker.
pub enum FanoutStep {
    /// Nothing more is tried.
    Done(FanoutOutcome),
    /// A critical release met a full queue: wait for room, at most the given
    /// number of milliseconds.
    WaitFor(MidiFrame, u64),
}

/// The decision after the first, non-blocking attempt of a fan-out: a sent
/// frame is delivered; a note-off or sustain release that met a full queue
/// is handed back to wait up to `FANOUT_CRITICAL_WAIT_MS`; anything else is
/// dropped.
pub fn after_fanout_attempt(attempt: SendAttempt) -> (r: FanoutStep)
    ensures
        r == match attempt {
            SendAttempt::Sent => FanoutStep::Done(FanoutOutcome::Delivered),
            SendAttempt::Full(f) => if spec_is_critical_release(f.data@) {
                FanoutStep::WaitFor(f, FANOUT_CRITICAL_WAIT_MS)
            } else {
                FanoutStep::Done(FanoutOutcome::Dropped)
            },
            SendAttempt::Disconnected(_) => FanoutStep::Done(FanoutOutcome::Dropped),
        },
{
    match attempt {
        SendAttempt::Sent => FanoutStep::Done(FanoutOutcome::Delivered),
        SendAttempt::Full(f) => {
            if is_critical_release_message(f.data.as_slice()) {
                FanoutStep::WaitFor(f, FANOUT_CRITICAL_WAIT_MS)
            } else {
                FanoutStep::Done(FanoutOutcome::Dropped)
            }
        },
        SendAttempt::Disconnected(_) => FanoutStep::Done(FanoutOutcome::Dropped),
    }
}

/// Hands a frame to an OSC or MIDI-thru worker without blocking, except
/// that a note-off or sustain release meeting a full queue waits up to
/// `FANOUT_CRITICAL_WAIT_MS` for room (`after_fanout_attempt`). A lost frame
/// is counted as dropped.
pub fn send_fanout(tx: &Sender<MidiFrame>, frame: MidiFrame, stats: &mut PipelineStats) -> (r: FanoutOutcome)
    ensures
        r == FanoutOutcome::Dropped ==> final(stats).messages_dropped == bump(old(stats).messages_dropped),
        r == FanoutOutcome::Delivered ==> final(stats).messages_dropped == old(stats).messages_dropped,
        final(stats).critical_reset_requested == old(stats).critical_reset_requested,
        final(stats).messages_in == old(stats).messages_in,
        final(stats).messages_out == old(stats).messages_out,
        r == FanoutOutcome::Delivered ==> *final(stats) == *old(stats),
        r == FanoutOutcome::Dropped ==> *final(stats) == (PipelineStats {
            messages_dropped: bump(old(stats).messages_dropped),
            ..*old(stats)
        }),
{
    match after_fanout_attempt(channel_try_send(tx, frame)) {
        FanoutStep::Done(FanoutOutcome::Delivered) => FanoutOutcome::Delivered,
        FanoutStep::Done(FanoutOutcome::Dropped) => {
            record_fanout_drop(stats);
            FanoutOutcome::Dropped
        },
        FanoutStep::WaitFor(f, wait_ms) => {
            if channel_send_timeout(tx, f, wait_ms) {
                FanoutOutcome::Delivered
            } else {
                record_fanout_drop(stats);
                FanoutOutcome::Dropped
            }
        },
    }
}

} // verus!

verus! {

// ---------------------------------------------------------------------------
// Routing lookup
// ---------------------------------------------------------------------------

/// Settings the pipeline reads for each frame.
pub struct ConfigSnapshot {
    pub osc_target_ip: String,
    pub osc_target_port: u16,
    pub osc_enabled: bool,
    pub channel_filter: Option<u8>,
    pub midi_thru: bool,
    pub log_osc: bool,
    pub verbose: bool,
    pub routing_profiles: Vec<RoutingProfileRuntime>,
    /// (source, profile id) pairs, in configuration order.
    pub routing_assignments: Vec<(String, String)>,
}

pub open spec fn profile_ids(ps: Seq<RoutingProfileRuntime>) -> Seq<Seq<char>> {
    ps.map_values(|p: RoutingProfileRuntime| p.id@)
}

pub open spec fn assignment_pairs(a: Seq<(String, String)>) -> Seq<(Seq<char>, Seq<char>)> {
    a.map_values(|x: (String, String)| (x.0@, x.1@))
}

/// The last of the first `n` profiles with this id.
pub open spec fn last_profile_with_id(ids: Seq<Seq<char>>, id: Seq<char>, n: int) -> Option<int>
    decreases n,
{
    if n <= 0 {
        None
    } else if ids[n - 1] == id {
        Some(n - 1)
    } else {
        last_profile_with_id(ids, id, n - 1)
    }
}

/// The profile assigned to `source`: the last of the first `n` assignments
/// for that source whose profile id names a profile, resolved to the last
/// profile with that id (as a map filled in order would hold it).
pub open spec fn assigned_profile(ids: Seq<Seq<char>>, assigns: Seq<(Seq<char>, Seq<char>)>, source: Seq<char>, n: int) -> Option<int>
    decreases n,
{
    if n <= 0 {
        None
    } else {
        let a = assigns[n - 1];
        if a.0 == source && last_profile_with_id(ids, a.1, ids.len() as int) is Some {
            last_profile_with_id(ids, a.1, ids.len() as int)
        } else {
            assigned_profile(ids, assigns, source, n - 1)
        }
    }
}

proof fn lemma_last_profile_in_range(ids: Seq<Seq<char>>, id: Seq<char>, n: int)
    requires
        n <= ids.len(),
    ensures
        last_profile_with_id(ids, id, n) matches Some(i) ==> 0 <= i < n,
    decreases n,
{
    if n > 0 {
        lemma_last_profile_in_range(ids, id, n - 1);
    }
}

proof fn lemma_assigned_in_range(ids: Seq<Seq<char>>, assigns: Seq<(Seq<char>, Seq<char>)>, source: Seq<char>, n: int)
    ensures
        assigned_profile(ids, assigns, source, n) matches Some(i) ==> 0 <= i < ids.len(),
    decreases n,
{
    lemma_last_profile_in_range(ids, assigns[n - 1].1, ids.len() as int);
    if n > 0 {
        lemma_assigned_in_range(ids, assigns, source, n - 1);
    }
}

fn find_profile(profiles: &Vec<RoutingProfileRuntime>, id: &str) -> (r: Option<usize>)
    ensures
        match r {
            Some(i) => last_profile_with_id(profile_ids(profiles@), id@, profiles@.len() as int) == Some(i as int),
            None => last_profile_with_id(profile_ids(profiles@), id@, profiles@.len() as int) is None,
        },
        r matches Some(i) ==> i < profiles@.len(),
{
    let ghost ids = profile_ids(profiles@);
    let mut n: usize = profiles.len();
    while n > 0
        invariant
            n <= profiles@.len(),
            ids == profile_ids(profiles@),
            last_profile_with_id(ids, id@, profiles@.len() as int) == last_profile_with_id(ids, id@, n as int),
        decreases n,
    {
        if str_eq(profiles[n - 1].id.as_str(), id) {
            return Some(n - 1);
        }
        n = n - 1;
    }
    None
}

/// Resolves the routing profile assigned to `source`.
pub fn assigned_profile_index(config: &ConfigSnapshot, source: &str) -> (r: Option<usize>)
    ensures
        match r {
            Some(i) => assigned_profile(
                profile_ids(config.routing_profiles@),
                assignment_pairs(config.routing_assignments@),
                source@,
                config.routing_assignments@.len() as int,
            ) == Some(i as int),
            None => assigned_profile(
                profile_ids(config.routing_profiles@),
                assignment_pairs(config.routing_assignments@),
                source@,
                config.routing_assignments@.len() as int,
            ) is None,
        },
        r matches Some(i) ==> i < config.routing_profiles@.len(),
{
    let ghost ids = profile_ids(config.routing_profiles@);
    let ghost pairs = assignment_pairs(config.routing_assignments@);
    let mut n: usize = config.routing_assignments.len();
    while n > 0
        invariant
            n <= config.routing_assignments@.len(),
            ids == profile_ids(config.routing_profiles@),
            pairs == assignment_pairs(config.routing_assignments@),
            assigned_profile(ids, pairs, source@, config.routing_assignments@.len() as int)
                == assigned_profile(ids, pairs, source@, n as int),
        decreases n,
    {
        let a = &config.routing_assignments[n - 1];
        if str_eq(a.0.as_str(), source) {
            let found = find_profile(&config.routing_profiles, a.1.as_str());
            if found.is_some() {
                return found;
            }
        }
        n = n - 1;
    }
    None
}

/// Builds the pipeline settings from the configuration.
pub fn config_snapshot(midi: &MidiConfig, osc: &OscConfig, logging: &LoggingConfig) -> (r: ConfigSnapshot)
    ensures
        r.osc_target_ip@ == osc.target_ip@,
        r.osc_target_port == osc.target_port,
        r.osc_enabled == osc.enabled,
        r.channel_filter == midi.channel_filter,
        r.midi_thru == midi.thru_enabled,
        r.log_osc == osc.log_messages,
        r.verbose == logging.verbose,
        r.routing_profiles@.len() == midi.routing_profiles@.len(),
        forall|i: int| 0 <= i < r.routing_profiles@.len() ==> {
            let rp = #[trigger] r.routing_profiles@[i];
            let p = midi.routing_profiles@[i];
            &&& rp.well_formed()
            &&& rp.id@ == p.id@
            &&& rp.channel_filter == p.channel_filter
            &&& rp.note_min == p.note_min
            &&& rp.note_max == p.note_max
            &&& rp.cc_map@ == crate::routing::apply_mappings(p.cc_map@)
            &&& rp.program_map@ == crate::routing::apply_mappings(p.program_map@)
            &&& rp.enabled == p.enabled
        },
        assignment_pairs(r.routing_assignments@) == midi.routing_assignments@.map_values(
            |a: crate::config::RoutingAssignment| (a.source@, a.profile_id@),
        ),
{
    let mut profiles: Vec<RoutingProfileRuntime> = Vec::new();
    let mut i: usize = 0;
    while i < midi.routing_profiles.len()
        invariant
            i <= midi.routing_profiles@.len(),
            profiles@.len() == i,
            forall|j: int| 0 <= j < i ==> {
                let rp = #[trigger] profiles@[j];
                let p = midi.routing_profiles@[j];
                &&& rp.well_formed()
                &&& rp.id@ == p.id@
                &&& rp.channel_filter == p.channel_filter
                &&& rp.note_min == p.note_min
                &&& rp.note_max == p.note_max
                &&& rp.cc_map@ == crate::routing::apply_mappings(p.cc_map@)
                &&& rp.program_map@ == crate::routing::apply_mappings(p.program_map@)
                &&& rp.enabled == p.enabled
            },
        decreases midi.routing_profiles@.len() - i,
    {
        profiles.push(RoutingProfileRuntime::from_profile(&midi.routing_profiles[i]));
        i = i + 1;
    }
    let mut assigns: Vec<(String, String)> = Vec::new();
    let mut k: usize = 0;
    while k < midi.routing_assignments.len()
        invariant
            k <= midi.routing_assignments@.len(),
            assignment_pairs(assigns@) == midi.routing_assignments@.take(k as int).map_values(
                |a: crate::config::RoutingAssignment| (a.source@, a.profile_id@),
            ),
        decreases midi.routing_assignments@.len() - k,
    {
        let a = &midi.routing_assignments[k];
        let ghost before = assigns@;
        let pair = (a.source.clone(), a.profile_id.clone());
        assert(pair.0@ == a.source@ && pair.1@ == a.profile_id@);
        assigns.push(pair);
        assert(assigns@ == before.push(pair));
        assert(assignment_pairs(assigns@) =~= assignment_pairs(before).push((a.source@, a.profile_id@)));
        assert(midi.routing_assignments@.take(k + 1) =~= midi.routing_assignments@.take(k as int).push(*a));
        k = k + 1;
        assert(assignment_pairs(assigns@) =~= midi.routing_assignments@.take(k as int).map_values(
            |a: crate::config::RoutingAssignment| (a.source@, a.profile_id@),
        ));
    }
    assert(midi.routing_assignments@.take(k as int) =~= midi.routing_assignments@);
    ConfigSnapshot {
        osc_target_ip: osc.target_ip.clone(),
        osc_target_port: osc.target_port,
        osc_enabled: osc.enabled,
        channel_filter: midi.channel_filter,
        midi_thru: midi.thru_enabled,
        log_osc: osc.log_messages,
        verbose: logging.verbose,
        routing_profiles: profiles,
        routing_assignments: assigns,
    }
}

} // verus!

verus! {

// ---------------------------------------------------------------------------
// Per-frame decisions
// ---------------------------------------------------------------------------

/// The pipeline's routing of a frame through a profile: system messages
/// pass; the channel filter counts channels from 1; notes outside the range
/// are rejected; controller and program numbers are renumbered.
pub open spec fn spec_pipeline_route(p: RoutingProfileRuntime, data: Seq<u8>) -> Option<Seq<u8>> {
    if data.len() == 0 || data[0] >= 0xF0 {
        Some(data)
    } else {
        let channel = (data[0] & 0x0F) + 1;
        let st = data[0] & 0xF0;
        if p.channel_filter matches Some(f) && channel != f {
            None
        } else if (st == 0x80 || st == 0x90) && data.len() >= 2 && ((p.note_min matches Some(
            min,
        ) && data[1] < min) || (p.note_max matches Some(max) && data[1] > max)) {
            None
        } else if st == 0xB0 && data.len() >= 2 {
            Some(data.update(1, p.cc_map@[data[1] as int]))
        } else if st == 0xC0 && data.len() >= 2 {
            Some(data.update(1, p.program_map@[data[1] as int]))
        } else {
            Some(data)
        }
    }
}

/// The routing would index the 128-entry numbering with a data byte of 128
/// or more (the bridge stops with an index error there).
pub open spec fn spec_pipeline_route_overflows(p: RoutingProfileRuntime, data: Seq<u8>) -> bool {
    data.len() >= 2 && data[0] < 0xF0 && !(p.channel_filter matches Some(f) && (data[0] & 0x0F)
        + 1 != f) && ((data[0] & 0xF0) == 0xB0 || (data[0] & 0xF0) == 0xC0) && data[1] >= 128
}

fn apply_routing_profile(profile: &RoutingProfileRuntime, frame: &mut MidiFrame) -> (r: bool)
    requires
        profile.well_formed(),
        !spec_pipeline_route_overflows(*profile, old(frame).data@),
    ensures
        r == spec_pipeline_route(*profile, old(frame).data@) is Some,
        final(frame).source@ == old(frame).source@,
        final(frame).timestamp_ms == old(frame).timestamp_ms,
        match spec_pipeline_route(*profile, old(frame).data@) {
            Some(d) => final(frame).data@ == d,
            None => final(frame).data@ == old(frame).data@,
        },
{
    if frame.data.len() == 0 {
        return true;
    }
    let status = frame.data[0];
    if status >= 0xF0 {
        return true;
    }
    assert(status & 0x0F <= 15) by (bit_vector);
    let channel = (status & 0x0F) + 1;
    if let Some(filter) = profile.channel_filter {
        if channel != filter {
            return false;
        }
    }
    let st = status & 0xF0;
    if (st == 0x80 || st == 0x90) && frame.data.len() >= 2 {
        let note = frame.data[1];
        if let Some(min) = profile.note_min {
            if note < min {
                return false;
            }
        }
        if let Some(max) = profile.note_max {
            if note > max {
                return false;
            }
        }
    } else if st == 0xB0 && frame.data.len() >= 2 {
        let v = profile.cc_map[frame.data[1] as usize];
        frame.data.set(1, v);
    } else if st == 0xC0 && frame.data.len() >= 2 {
        let v = profile.program_map[frame.data[1] as usize];
        frame.data.set(1, v);
    }
    true
}

/// The settings are well formed: every prepared profile has full
/// numberings.
pub open spec fn snapshot_well_formed(config: &ConfigSnapshot) -> bool {
    forall|i: int| 0 <= i < config.routing_profiles@.len() ==> (#[trigger] config.routing_profiles@[i]).well_formed()
}

/// The profile that routes frames of `source`, when one is assigned and
/// enabled.
pub open spec fn active_profile(config: &ConfigSnapshot, source: Seq<char>) -> Option<RoutingProfileRuntime> {
    match assigned_profile(
        profile_ids(config.routing_profiles@),
        assignment_pairs(config.routing_assignments@),
        source,
        config.routing_assignments@.len() as int,
    ) {
        Some(i) => if 0 <= i < config.routing_profiles@.len() && config.routing_profiles@[i].enabled {
            Some(config.routing_profiles@[i])
        } else {
            None
        },
        None => None,
    }
}

/// The frame bytes after routing, or `None` when the routing rejects them.
pub open spec fn spec_routed(config: &ConfigSnapshot, source: Seq<char>, data: Seq<u8>) -> Option<Seq<u8>> {
    match active_profile(config, source) {
        Some(p) => spec_pipeline_route(p, data),
        None => Some(data),
    }
}

/// A frame that would stop the bridge in the routing step.
pub open spec fn spec_frame_overflows(config: &ConfigSnapshot, source: Seq<char>, data: Seq<u8>) -> bool {
    active_profile(config, source) matches Some(p) && spec_pipeline_route_overflows(p, data)
}

/// A note press or release shown in the user interface.
#[derive(Clone, Copy, Debug, PartialEq, Eq, Structural)]
pub struct NoteEvent {
    pub note: u8,
    pub channel: u8,
    pub pressed: bool,
}

/// An OSC message the pipeline sends.
#[derive(Clone, Copy, Debug, PartialEq, Eq, Structural)]
pub enum OscAction {
    /// The sustain pedal parameter.
    Sustain(bool),
    /// The parameter of the key at this keyboard index.
    Note { index: u8, pressed: bool },
}

/// What to do with one frame.
pub struct FramePlan {
    /// The frame after routing.
    pub frame: MidiFrame,
    /// The routing rejected the frame; nothing else happens.
    pub rejected: bool,
    /// Send the frame to the audio engine.
    pub to_audio: bool,
    /// Send the frame to the MIDI thru output.
    pub midi_thru: bool,
    /// Report a key to the user interface.
    pub note_event: Option<NoteEvent>,
    /// Send an OSC message.
    pub osc: Option<OscAction>,
}

/// The sustain slot of a channel: the channel number minus one, at least 0
/// and at most 15.
pub open spec fn sustain_slot(channel: u8) -> int {
    let c = if channel == 0 {
        0int
    } else {
        channel - 1
    };
    if c > 15 {
        15
    } else {
        c
    }
}

/// The OSC and user-interface part of the plan, and the new sustain state.
pub open spec fn spec_osc_part(
    config: &ConfigSnapshot,
    data: Seq<u8>,
    sustain: Seq<Option<bool>>,
    osc_ready: bool,
) -> (Option<NoteEvent>, Option<OscAction>, Seq<Option<bool>>) {
    match spec_parse_sustain(data) {
        Some(s) => {
            if config.channel_filter matches Some(f) && s.channel != f {
                (None, None, sustain)
            } else if sustain[sustain_slot(s.channel)] == Some(s.pressed) {
                (None, None, sustain)
            } else {
                let next = sustain.update(sustain_slot(s.channel), Some(s.pressed));
                if config.osc_enabled && osc_ready {
                    (None, Some(OscAction::Sustain(s.pressed)), next)
                } else {
                    (None, None, next)
                }
            }
        },
        None => match spec_parse_note(data) {
            Some(n) => {
                let pressed = n.kind == MidiKind::NoteOn;
                let event = if n.index is Some {
                    Some(NoteEvent { note: n.note, channel: n.channel, pressed })
                } else {
                    None
                };
                if config.channel_filter matches Some(f) && n.channel != f {
                    (event, None, sustain)
                } else {
                    match n.index {
                        Some(i) => if config.osc_enabled && osc_ready {
                            (event, Some(OscAction::Note { index: i, pressed }), sustain)
                        } else {
                            (event, None, sustain)
                        },
                        None => (event, None, sustain),
                    }
                }
            },
            None => (None, None, sustain),
        },
    }
}

/// A channel-voice status byte.
pub open spec fn is_channel_voice(data: Seq<u8>) -> bool {
    data.len() > 0 && 0x80 <= data[0] < 0xF0
}

/// Law: a key is reported pressed exactly for a note-on with a non-zero
/// velocity. A note-off (0x8n, whatever its release velocity) or a note-on
/// of velocity zero is reported released, to the user interface and over
/// OSC alike; both name the frame's key, and the pedal state is untouched.
pub proof fn lemma_key_pressed_only_on_note_on(
    config: &ConfigSnapshot,
    data: Seq<u8>,
    sustain: Seq<Option<bool>>,
    osc_ready: bool,
)
    requires
        data.len() >= 3,
        (data[0] & 0xF0) == 0x80 || (data[0] & 0xF0) == 0x90,
    ensures
        (spec_osc_part(config, data, sustain, osc_ready).0 is Some) == (crate::midi::NOTE_MIN <= data[1]
            <= crate::midi::NOTE_MAX),
        spec_osc_part(config, data, sustain, osc_ready).0 matches Some(e) ==> e.note == data[1]
            && e.channel == (data[0] & 0x0F) && e.pressed == ((data[0] & 0xF0) == 0x90 && data[2] > 0),
        spec_osc_part(config, data, sustain, osc_ready).1 matches Some(a) ==> (a matches OscAction::Note {
            index,
            pressed,
        } && index == data[1] - crate::midi::NOTE_MIN && pressed == ((data[0] & 0xF0) == 0x90 && data[2]
            > 0)),
        spec_osc_part(config, data, sustain, osc_ready).2 == sustain,
{
}

fn osc_part(
    config: &ConfigSnapshot,
    data: &[u8],
    sustain: &mut Vec<Option<bool>>,
    osc_ready: bool,
) -> (r: (Option<NoteEvent>, Option<OscAction>))
    requires
        old(sustain)@.len() == 16,
    ensures
        (r.0, r.1, final(sustain)@) == spec_osc_part(config, data@, old(sustain)@, osc_ready),
{
    if let Some(s) = parse_sustain(data) {
        if let Some(f) = config.channel_filter {
            if s.channel != f {
                return (None, None);
            }
        }
        let c: u8 = if s.channel == 0 { 0 } else { s.channel - 1 };
        let slot: usize = if c > 15 { 15 } else { c as usize };
        if sustain[slot] == Some(s.pressed) {
            return (None, None);
        }
        sustain.set(slot, Some(s.pressed));
        if config.osc_enabled && osc_ready {
            (None, Some(OscAction::Sustain(s.pressed)))
        } else {
            (None, None)
        }
    } else if let Some(n) = parse_note(data) {
        let pressed = n.kind == MidiKind::NoteOn;
        let event = if n.index.is_some() {
            Some(NoteEvent { note: n.note, channel: n.channel, pressed })
        } else {
            None
        };
        if let Some(f) = config.channel_filter {
            if n.channel != f {
                return (event, None);
            }
        }
        match n.index {
            Some(i) => {
                if config.osc_enabled && osc_ready {
                    (event, Some(OscAction::Note { index: i, pressed }))
                } else {
                    (event, None)
                }
            },
            None => (event, None),
        }
    } else {
        (None, None)
    }
}

/// Decides what happens to one frame, and updates the counters and the
/// per-channel sustain state.
///
/// The routing profile assigned to the frame's source (if enabled) filters
/// and renumbers it; a rejected frame is counted as filtered and goes
/// nowhere. Otherwise: channel-voice messages go to the audio engine when
/// audio delivery is on (counted out), other messages except real-time ones
/// are counted as filtered; the frame goes to the MIDI thru output when thru
/// is on and an output is open; and, when user-interface delivery is on, a
/// sustain change or a key press/release on the filtered channel becomes an
/// OSC message (when OSC is on and a client is ready) and keys within the
/// keyboard range are reported to the interface. Counters count only frames
/// delivered to audio.
pub fn handle_midi_frame(
    config: &ConfigSnapshot,
    frame: MidiFrame,
    sustain_pressed_state: &mut Vec<Option<bool>>,
    stats: &mut PipelineStats,
    deliver_audio: bool,
    deliver_midi_thru: bool,
    deliver_osc_ui: bool,
    midi_out_open: bool,
    osc_ready: bool,
) -> (plan: FramePlan)
    requires
        snapshot_well_formed(config),
        old(sustain_pressed_state)@.len() == 16,
        !spec_frame_overflows(config, frame.source@, frame.data@),
    ensures
        final(sustain_pressed_state)@.len() == 16,
        plan.frame.source@ == frame.source@,
        plan.frame.timestamp_ms == frame.timestamp_ms,
        final(stats).messages_in == (if deliver_audio {
            bump(old(stats).messages_in)
        } else {
            old(stats).messages_in
        }),
        final(stats).queue_depth == old(stats).queue_depth,
        final(stats).queue_max_depth == old(stats).queue_max_depth,
        final(stats).messages_dropped == old(stats).messages_dropped,
        final(stats).critical_reset_requested == old(stats).critical_reset_requested,
        final(stats).debug_sample_last_ms == old(stats).debug_sample_last_ms,
        match spec_routed(config, frame.source@, frame.data@) {
            None => {
                &&& plan.rejected
                &&& plan.frame.data@ == frame.data@
                &&& !plan.to_audio && !plan.midi_thru
                &&& plan.note_event is None && plan.osc is None
                &&& final(sustain_pressed_state)@ == old(sustain_pressed_state)@
                &&& final(stats).messages_out == old(stats).messages_out
                &&& final(stats).messages_filtered == (if deliver_audio {
                    bump(old(stats).messages_filtered)
                } else {
                    old(stats).messages_filtered
                })
            },
            Some(d) => {
                let to_audio = deliver_audio && is_channel_voice(d);
                let counted_filtered = deliver_audio && d.len() > 0 && !is_channel_voice(d) && d[0] < 0xF8;
                &&& !plan.rejected
                &&& plan.frame.data@ == d
                &&& plan.to_audio == to_audio
                &&& plan.midi_thru == (deliver_midi_thru && config.midi_thru && midi_out_open)
                &&& final(stats).messages_out == (if to_audio {
                    bump(old(stats).messages_out)
                } else {
                    old(stats).messages_out
                })
                &&& final(stats).messages_filtered == (if counted_filtered {
                    bump(old(stats).messages_filtered)
                } else {
                    old(stats).messages_filtered
                })
                &&& if deliver_osc_ui {
                    (plan.note_event, plan.osc, final(sustain_pressed_state)@) == spec_osc_part(
                        config,
                        d,
                        old(sustain_pressed_state)@,
                        osc_ready,
                    )
                } else {
                    plan.note_event is None && plan.osc is None && final(sustain_pressed_state)@
                        == old(sustain_pressed_state)@
                }
            },
        },
{
    if deliver_audio {
        stats.messages_in = stats.messages_in.wrapping_add(1);
    }
    let ghost source = frame.source@;
    let ghost data = frame.data@;
    proof {
        lemma_assigned_in_range(
            profile_ids(config.routing_profiles@),
            assignment_pairs(config.routing_assignments@),
            source,
            config.routing_assignments@.len() as int,
        );
    }
    let mut frame = frame;
    let found = assigned_profile_index(config, frame.source.as_str());
    if let Some(idx) = found {
        let profile = &config.routing_profiles[idx];
        proof {
            let ids = profile_ids(config.routing_profiles@);
            let pairs = assignment_pairs(config.routing_assignments@);
            let a = assigned_profile(ids, pairs, source, config.routing_assignments@.len() as int);
            assert(a == Some(idx as int));
            if profile.enabled {
                assert(active_profile(config, source) == Some(*profile));
            }
        }
        if profile.enabled && !apply_routing_profile(profile, &mut frame) {
            if deliver_audio {
                stats.messages_filtered = stats.messages_filtered.wrapping_add(1);
            }
            return FramePlan {
                frame,
                rejected: true,
                to_audio: false,
                midi_thru: false,
                note_event: None,
                osc: None,
            };
        }
    }
    let mut to_audio = false;
    if deliver_audio && frame.data.len() > 0 {
        let status = frame.data[0];
        if 0x80 <= status && status < 0xF0 {
            to_audio = true;
            stats.messages_out = stats.messages_out.wrapping_add(1);
        } else if status < 0xF8 {
            stats.messages_filtered = stats.messages_filtered.wrapping_add(1);
        }
    }
    let midi_thru = deliver_midi_thru && config.midi_thru && midi_out_open;
    if !deliver_osc_ui {
        return FramePlan { frame, rejected: false, to_audio, midi_thru, note_event: None, osc: None };
    }
    let (note_event, osc) = osc_part(config, frame.data.as_slice(), sustain_pressed_state, osc_ready);
    FramePlan { frame, rejected: false, to_audio, midi_thru, note_event, osc }
}

/// What the OSC worker does with its client before handling a frame.
#[derive(Clone, Copy, Debug, PartialEq, Eq, Structural)]
pub enum OscClientAction {
    /// The client matches the configuration.
    Keep,
    /// Open a client for the configured target.
    Connect,
    /// OSC is disabled: drop the client, if any.
    Suspend,
}

/// Whether the configured target differs from the one the client was made
/// for.
pub open spec fn osc_target_changed(config: ConfigSnapshot, current: (Seq<char>, u16)) -> bool {
    current.1 != config.osc_target_port || current.0 != config.osc_target_ip@
}

/// Decides what to do with the OSC client: when OSC is enabled, a client is
/// opened if there is none or the target changed; when disabled, the client
/// is dropped.
pub fn osc_client_action(config: &ConfigSnapshot, has_client: bool, current_target: &(String, u16)) -> (r: OscClientAction)
    ensures
        r == (if config.osc_enabled {
            if osc_target_changed(*config, (current_target.0@, current_target.1)) || !has_client {
                OscClientAction::Connect
            } else {
                OscClientAction::Keep
            }
        } else {
            OscClientAction::Suspend
        }),
{
    let changed = current_target.1 != config.osc_target_port || !str_eq(
        current_target.0.as_str(),
        config.osc_target_ip.as_str(),
    );
    if config.osc_enabled {
        if changed || !has_client {
            OscClientAction::Connect
        } else {
            OscClientAction::Keep
        }
    } else {
        OscClientAction::Suspend
    }
}

/// Applies the outcome of the action: after a successful connection, or
/// when suspending, the current target becomes the configured one; a failed
/// connection leaves no client and the target as it was. Returns whether a
/// client exists afterwards.
pub fn finish_osc_client_action(
    action: OscClientAction,
    connected: bool,
    had_client: bool,
    config: &ConfigSnapshot,
    current_target: &mut (String, u16),
) -> (r: bool)
    ensures
        r == match action {
            OscClientAction::Keep => had_client,
            OscClientAction::Connect => connected,
            OscClientAction::Suspend => false,
        },
        match action {
            OscClientAction::Keep => *final(current_target) == *old(current_target),
            OscClientAction::Connect => if connected {
                final(current_target).0@ == config.osc_target_ip@ && final(current_target).1
                    == config.osc_target_port
            } else {
                *final(current_target) == *old(current_target)
            },
            OscClientAction::Suspend => final(current_target).0@ == config.osc_target_ip@
                && final(current_target).1 == config.osc_target_port,
        },
{
    match action {
        OscClientAction::Keep => had_client,
        OscClientAction::Connect => {
            if connected {
                *current_target = (config.osc_target_ip.clone(), config.osc_target_port);
            }
            connected
        },
        OscClientAction::Suspend => {
            *current_target = (config.osc_target_ip.clone(), config.osc_target_port);
            false
        },
    }
}

} // verus!
