//! Audio engine telemetry: the lifecycle state as stored in one byte, the
//! DSP timing histogram and its percentiles, and the callback deadline
//! counters.

use vstd::prelude::*;

verus! {

pub const DSP_HISTOGRAM_BUCKETS: usize = 256;
pub const DSP_HISTOGRAM_BUCKET_US: u32 = 250;

/// The engine's lifecycle.
#[derive(Clone, Copy, Debug, PartialEq, Eq, Structural)]
pub enum AudioLifecycleState {
    Stopped,
    Loading,
    Running,
    Stopping,
    Faulted,
}

pub open spec fn spec_state_code(s: AudioLifecycleState) -> u8 {
    match s {
        AudioLifecycleState::Stopped => 0,
        AudioLifecycleState::Loading => 1,
        AudioLifecycleState::Running => 2,
        AudioLifecycleState::Stopping => 3,
        AudioLifecycleState::Faulted => 4,
    }
}

pub open spec fn spec_state_from_u8(v: u8) -> AudioLifecycleState {
    if v == 1 {
        AudioLifecycleState::Loading
    } else if v == 2 {
        AudioLifecycleState::Running
    } else if v == 3 {
        AudioLifecycleState::Stopping
    } else if v == 4 {
        AudioLifecycleState::Faulted
    } else {
        AudioLifecycleState::Stopped
    }
}

impl AudioLifecycleState {
    /// The state a stored byte encodes; unknown bytes read as stopped.
    pub fn from_u8(value: u8) -> (r: AudioLifecycleState)
        ensures
            r == spec_state_from_u8(value),
    {
        if value == 1 {
            AudioLifecycleState::Loading
        } else if value == 2 {
            AudioLifecycleState::Running
        } else if value == 3 {
            AudioLifecycleState::Stopping
        } else if value == 4 {
            AudioLifecycleState::Faulted
        } else {
            AudioLifecycleState::Stopped
        }
    }

    /// The byte that stores this state.
    pub fn code(self) -> (r: u8)
        ensures
            r == spec_state_code(self),
    {
        match self {
            AudioLifecycleState::Stopped => 0,
            AudioLifecycleState::Loading => 1,
            AudioLifecycleState::Running => 2,
            AudioLifecycleState::Stopping => 3,
            AudioLifecycleState::Faulted => 4,
        }
    }

    /// The state's name in status reports.
    pub fn as_str(self) -> (r: &'static str)
        ensures
            r@ == (match self {
                AudioLifecycleState::Stopped => "stopped"@,
                AudioLifecycleState::Loading => "loading"@,
                AudioLifecycleState::Running => "running"@,
                AudioLifecycleState::Stopping => "stopping"@,
                AudioLifecycleState::Faulted => "faulted"@,
            }),
    {
        match self {
            AudioLifecycleState::Stopped => "stopped",
            AudioLifecycleState::Loading => "loading",
            AudioLifecycleState::Running => "running",
            AudioLifecycleState::Stopping => "stopping",
            AudioLifecycleState::Faulted => "faulted",
        }
    }
}

/// Law: a state stored as its byte reads back as itself.
pub proof fn lemma_state_code_round_trip(s: AudioLifecycleState)
    ensures
        spec_state_from_u8(spec_state_code(s)) == s,
{
}

/// Sum of the first `n` buckets.
pub open spec fn prefix_sum(h: Seq<u32>, n: int) -> int
    decreases n,
{
    if n <= 0 {
        0
    } else {
        prefix_sum(h, n - 1) + h[n - 1] as int
    }
}

proof fn lemma_prefix_sum_bounds(h: Seq<u32>, n: int)
    requires
        0 <= n <= h.len(),
    ensures
        0 <= prefix_sum(h, n) <= n * (u32::MAX as int),
    decreases n,
{
    if n > 0 {
        lemma_prefix_sum_bounds(h, n - 1);
    }
}

proof fn lemma_prefix_sum_monotone(h: Seq<u32>, a: int, b: int)
    requires
        0 <= a <= b <= h.len(),
    ensures
        prefix_sum(h, a) <= prefix_sum(h, b),
    decreases b - a,
{
    if a < b {
        lemma_prefix_sum_monotone(h, a, b - 1);
    }
}

/// The percentile rank clamped to 1..=100.
pub open spec fn clamp_percentile(p: u32) -> int {
    if p < 1 {
        1
    } else if p > 100 {
        100
    } else {
        p as int
    }
}

/// The number of samples at or below the percentile: the total times the
/// rank, divided by 100 and rounded up.
pub open spec fn percentile_target(total: int, p: u32) -> int {
    (total * clamp_percentile(p) + 99) / 100
}

/// The first bucket count `n` whose prefix sum reaches `target`, searching
/// from `n`.
pub open spec fn first_reaching(h: Seq<u32>, target: int, n: int) -> Option<int>
    decreases h.len() + 1 - n,
{
    if n < 1 || n > h.len() {
        None
    } else if prefix_sum(h, n) >= target {
        Some(n)
    } else {
        first_reaching(h, target, n + 1)
    }
}

/// The DSP time at the percentile: the upper edge of the first bucket at
/// which the samples seen reach the target; 0 without samples.
pub open spec fn spec_dsp_percentile(h: Seq<u32>, p: u32) -> u32 {
    let total = prefix_sum(h, h.len() as int);
    if total == 0 {
        0
    } else {
        match first_reaching(h, percentile_target(total, p), 1) {
            Some(n) => (n * DSP_HISTOGRAM_BUCKET_US as int) as u32,
            None => (h.len() * DSP_HISTOGRAM_BUCKET_US as int) as u32,
        }
    }
}

/// The bucket count a search result stands for: the whole histogram when
/// no prefix reaches the target.
pub open spec fn reached_or_all(r: Option<int>, len: int) -> int {
    match r {
        Some(n) => n,
        None => len,
    }
}

proof fn lemma_first_reaching_range(h: Seq<u32>, target: int, n: int)
    requires
        1 <= n,
    ensures
        first_reaching(h, target, n) matches Some(m) ==> n <= m <= h.len(),
    decreases h.len() + 1 - n,
{
    if n <= h.len() && prefix_sum(h, n) < target {
        lemma_first_reaching_range(h, target, n + 1);
    }
}

proof fn lemma_first_reaching_monotone(h: Seq<u32>, t1: int, t2: int, n: int)
    requires
        1 <= n,
        t1 <= t2,
    ensures
        reached_or_all(first_reaching(h, t1, n), h.len() as int) <= reached_or_all(
            first_reaching(h, t2, n),
            h.len() as int,
        ),
    decreases h.len() + 1 - n,
{
    if n <= h.len() {
        if prefix_sum(h, n) < t1 {
            lemma_first_reaching_monotone(h, t1, t2, n + 1);
        } else if prefix_sum(h, n) < t2 {
            lemma_first_reaching_range(h, t2, n + 1);
        }
    }
}

/// Law: a higher percentile never gives a shorter DSP time.
pub proof fn lemma_dsp_percentile_monotone(h: Seq<u32>, p: u32, q: u32)
    requires
        h.len() == DSP_HISTOGRAM_BUCKETS,
        p <= q,
    ensures
        spec_dsp_percentile(h, p) <= spec_dsp_percentile(h, q),
{
    let total = prefix_sum(h, h.len() as int);
    lemma_prefix_sum_bounds(h, h.len() as int);
    if total != 0 {
        let cp = clamp_percentile(p);
        let cq = clamp_percentile(q);
        assert(cp <= cq);
        assert(percentile_target(total, p) <= percentile_target(total, q)) by (nonlinear_arith)
            requires
                total >= 0,
                cp <= cq,
                percentile_target(total, p) == (total * cp + 99) / 100,
                percentile_target(total, q) == (total * cq + 99) / 100,
        ;
        let tp = percentile_target(total, p);
        let tq = percentile_target(total, q);
        lemma_first_reaching_monotone(h, tp, tq, 1);
        lemma_first_reaching_range(h, tp, 1);
        lemma_first_reaching_range(h, tq, 1);
        let np = reached_or_all(first_reaching(h, tp, 1), h.len() as int);
        let nq = reached_or_all(first_reaching(h, tq, 1), h.len() as int);
        assert(np * 250 <= nq * 250 <= 256 * 250) by (nonlinear_arith)
            requires
                np <= nq <= 256,
        ;
    }
}

/// Computes a percentile of the DSP timing histogram.
pub fn dsp_percentile_us(histogram: &[u32], percentile: u32) -> (r: u32)
    requires
        histogram@.len() == DSP_HISTOGRAM_BUCKETS,
    ensures
        r == spec_dsp_percentile(histogram@, percentile),
{
    let ghost h = histogram@;
    let mut total: u64 = 0;
    let mut i: usize = 0;
    while i < histogram.len()
        invariant
            h == histogram@,
            h.len() == DSP_HISTOGRAM_BUCKETS,
            i <= h.len(),
            total == prefix_sum(h, i as int),
        decreases h.len() - i,
    {
        proof {
            lemma_prefix_sum_bounds(h, i as int + 1);
        }
        total = total + histogram[i] as u64;
        i = i + 1;
    }
    if total == 0 {
        return 0;
    }
    let p: u64 = if percentile < 1 { 1 } else if percentile > 100 { 100 } else { percentile as u64 };
    proof {
        lemma_prefix_sum_bounds(h, h.len() as int);
    }
    assert(total * p <= 256 * 0xffff_ffffu64 * 100) by (nonlinear_arith)
        requires
            total <= 256 * 0xffff_ffffu64,
            p <= 100,
    ;
    let target: u64 = (total * p + 99) / 100;
    let mut seen: u64 = 0;
    let mut n: usize = 0;
    while n < histogram.len()
        invariant
            h == histogram@,
            h.len() == DSP_HISTOGRAM_BUCKETS,
            n <= h.len(),
            seen == prefix_sum(h, n as int),
            target == percentile_target(total as int, percentile),
            total == prefix_sum(h, h.len() as int),
            first_reaching(h, target as int, 1) == first_reaching(h, target as int, n as int + 1),
            total > 0,
        decreases h.len() - n,
    {
        proof {
            lemma_prefix_sum_bounds(h, n as int + 1);
        }
        seen = seen + histogram[n] as u64;
        if seen >= target {
            return ((n as u32) + 1) * DSP_HISTOGRAM_BUCKET_US;
        }
        n = n + 1;
    }
    (DSP_HISTOGRAM_BUCKETS as u32) * DSP_HISTOGRAM_BUCKET_US
}

/// The timing counters the audio callback maintains.
pub struct CallbackTiming {
    pub dsp_process_last_us: u32,
    pub dsp_process_max_us: u32,
    pub dsp_histogram: Vec<u32>,
    pub callback_last_us: u32,
    pub callback_max_us: u32,
    pub callback_over_budget_count: u32,
    pub consecutive_deadline_misses: u32,
}

pub open spec fn bump32(x: u32) -> u32 {
    if x == u32::MAX {
        0
    } else {
        (x + 1) as u32
    }
}

/// The histogram bucket of a DSP time: one per 250 microseconds, the last
/// bucket collecting everything longer.
pub open spec fn dsp_bucket(elapsed_us: u32) -> int {
    let b = elapsed_us as int / DSP_HISTOGRAM_BUCKET_US as int;
    if b > DSP_HISTOGRAM_BUCKETS - 1 {
        DSP_HISTOGRAM_BUCKETS - 1
    } else {
        b
    }
}

/// The time budget of a callback of `frames` at `sample_rate`, in
/// microseconds (truncated to 32 bits).
pub open spec fn callback_budget_us(frames: usize, sample_rate: u32) -> u32 {
    ((frames as int * 1_000_000) / sample_rate as int) as u32
}

impl CallbackTiming {
    /// All counters zero, an empty histogram.
    pub fn new() -> (r: CallbackTiming)
        ensures
            r.dsp_histogram@.len() == DSP_HISTOGRAM_BUCKETS,
            forall|i: int| 0 <= i < DSP_HISTOGRAM_BUCKETS ==> #[trigger] r.dsp_histogram@[i] == 0,
            r.dsp_process_last_us == 0 && r.dsp_process_max_us == 0,
            r.callback_last_us == 0 && r.callback_max_us == 0,
            r.callback_over_budget_count == 0 && r.consecutive_deadline_misses == 0,
    {
        let mut h: Vec<u32> = Vec::new();
        while h.len() < DSP_HISTOGRAM_BUCKETS
            invariant
                h@.len() <= DSP_HISTOGRAM_BUCKETS,
                forall|i: int| 0 <= i < h@.len() ==> #[trigger] h@[i] == 0,
            decreases DSP_HISTOGRAM_BUCKETS - h@.len(),
        {
            h.push(0);
        }
        CallbackTiming {
            dsp_process_last_us: 0,
            dsp_process_max_us: 0,
            dsp_histogram: h,
            callback_last_us: 0,
            callback_max_us: 0,
            callback_over_budget_count: 0,
            consecutive_deadline_misses: 0,
        }
    }

    /// Records one plug-in processing time.
    pub fn record_dsp_timing(&mut self, elapsed_us: u32)
        requires
            old(self).dsp_histogram@.len() == DSP_HISTOGRAM_BUCKETS,
        ensures
            final(self).dsp_process_last_us == elapsed_us,
            final(self).dsp_process_max_us == (if elapsed_us > old(self).dsp_process_max_us {
                elapsed_us
            } else {
                old(self).dsp_process_max_us
            }),
            final(self).dsp_histogram@ == old(self).dsp_histogram@.update(
                dsp_bucket(elapsed_us),
                bump32(old(self).dsp_histogram@[dsp_bucket(elapsed_us)]),
            ),
            final(self).callback_last_us == old(self).callback_last_us,
            final(self).callback_max_us == old(self).callback_max_us,
            final(self).callback_over_budget_count == old(self).callback_over_budget_count,
            final(self).consecutive_deadline_misses == old(self).consecutive_deadline_misses,
    {
        self.dsp_process_last_us = elapsed_us;
        if elapsed_us > self.dsp_process_max_us {
            self.dsp_process_max_us = elapsed_us;
        }
        let b = elapsed_us / DSP_HISTOGRAM_BUCKET_US;
        let bucket: usize = if b > (DSP_HISTOGRAM_BUCKETS - 1) as u32 {
            DSP_HISTOGRAM_BUCKETS - 1
        } else {
            b as usize
        };
        let v = self.dsp_histogram[bucket];
        self.dsp_histogram.set(bucket, v.wrapping_add(1));
    }

    /// Records one callback's duration against its budget: over budget
    /// counts a miss and extends the run of consecutive misses; within
    /// budget ends the run. Nothing is judged without frames or a rate.
    pub fn finish_callback_timing(&mut self, frames: usize, sample_rate: u32, elapsed_us: u32)
        ensures
            final(self).callback_last_us == elapsed_us,
            final(self).callback_max_us == (if elapsed_us > old(self).callback_max_us {
                elapsed_us
            } else {
                old(self).callback_max_us
            }),
            ({
                let judged = frames > 0 && sample_rate > 0;
                let budget = callback_budget_us(frames, sample_rate);
                let missed = judged && budget > 0 && elapsed_us > budget;
                &&& final(self).callback_over_budget_count == (if missed {
                    bump32(old(self).callback_over_budget_count)
                } else {
                    old(self).callback_over_budget_count
                })
                &&& final(self).consecutive_deadline_misses == (if missed {
                    bump32(old(self).consecutive_deadline_misses)
                } else if judged {
                    0
                } else {
                    old(self).consecutive_deadline_misses
                })
            }),
            final(self).dsp_histogram@ == old(self).dsp_histogram@,
            final(self).dsp_process_last_us == old(self).dsp_process_last_us,
            final(self).dsp_process_max_us == old(self).dsp_process_max_us,
    {
        self.callback_last_us = elapsed_us;
        if elapsed_us > self.callback_max_us {
            self.callback_max_us = elapsed_us;
        }
        if frames > 0 && sample_rate > 0 {
            let product: u128 = (frames as u128) * 1_000_000u128;
            let budget: u32 = #[verifier::truncate] ((product / (sample_rate as u128)) as u32);
            if budget > 0 && elapsed_us > budget {
                self.callback_over_budget_count = self.callback_over_budget_count.wrapping_add(1);
                self.consecutive_deadline_misses = self.consecutive_deadline_misses.wrapping_add(1);
            } else {
                self.consecutive_deadline_misses = 0;
            }
        }
    }
}

/// The transport position reported to VST2 plug-ins, in samples.
pub struct Vst2TimeContext {
    sample_position: u64,
}

impl Vst2TimeContext {
    /// The position, as plain value.
    pub closed spec fn position(&self) -> u64 {
        self.sample_position
    }

    /// A transport at sample 0.
    pub fn new() -> (r: Vst2TimeContext)
        ensures
            r.position() == 0,
    {
        Vst2TimeContext { sample_position: 0 }
    }

    /// The current position.
    pub fn sample_position(&self) -> (r: u64)
        ensures
            r == self.position(),
    {
        self.sample_position
    }

    /// Moves the transport on by `frames`, wrapping around past the largest
    /// position.
    pub fn advance(&mut self, frames: usize)
        ensures
            final(self).position() as int == (old(self).position() as int + frames as int) % 0x1_0000_0000_0000_0000,
    {
        let step = frames as u64;
        let room = u64::MAX - self.sample_position;
        if step <= room {
            self.sample_position = self.sample_position + step;
        } else {
            self.sample_position = step - room - 1;
        }
    }
}

/// The reason reported for a fatal stream error code; codes outside 1 to 11
/// report none.
pub open spec fn spec_stream_fault_reason(code: u32) -> Option<Seq<char>> {
    if code == 1 {
        Some("audio device busy"@)
    } else if code == 2 {
        Some("audio device unavailable"@)
    } else if code == 3 {
        Some("audio host unavailable"@)
    } else if code == 4 {
        Some("audio stream invalidated (driver reset, sample-rate or buffer change)"@)
    } else if code == 5 {
        Some("audio stream configuration is no longer supported"@)
    } else if code == 6 {
        Some("audio backend resource exhaustion"@)
    } else if code == 7 {
        Some("audio device permission denied"@)
    } else if code == 8 {
        Some("audio backend error"@)
    } else if code == 9 {
        Some("audio operation unsupported"@)
    } else if code == 10 {
        Some("invalid audio stream configuration"@)
    } else if code == 11 {
        Some("unclassified audio stream failure"@)
    } else {
        None
    }
}

/// Names the fatal stream error recorded by the callback.
pub fn stream_fault_reason(code: u32) -> (r: Option<String>)
    ensures
        match r {
            Some(s) => spec_stream_fault_reason(code) == Some(s@),
            None => spec_stream_fault_reason(code) is None,
        },
{
    let reason = if code == 1 {
        "audio device busy"
    } else if code == 2 {
        "audio device unavailable"
    } else if code == 3 {
        "audio host unavailable"
    } else if code == 4 {
        "audio stream invalidated (driver reset, sample-rate or buffer change)"
    } else if code == 5 {
        "audio stream configuration is no longer supported"
    } else if code == 6 {
        "audio backend resource exhaustion"
    } else if code == 7 {
        "audio device permission denied"
    } else if code == 8 {
        "audio backend error"
    } else if code == 9 {
        "audio operation unsupported"
    } else if code == 10 {
        "invalid audio stream configuration"
    } else if code == 11 {
        "unclassified audio stream failure"
    } else {
        return None;
    };
    Some(reason.to_string())
}

/// The stream's block size as last seen by the callback; 0 means that no
/// callback has run yet, and nothing is reported.
pub fn reported_buffer_size(block_size_frames: u32) -> (r: Option<u32>)
    ensures
        r == (if block_size_frames == 0 { None } else { Some(block_size_frames) }),
{
    if block_size_frames == 0 {
        None
    } else {
        Some(block_size_frames)
    }
}

/// Whether the stream runs with another block size than the one asked for;
/// unknown before the first callback.
pub fn buffer_size_mismatch(block_size_frames: u32, requested_buffer_size: u32) -> (r: Option<bool>)
    ensures
        r == (if block_size_frames == 0 {
            None
        } else {
            Some(block_size_frames != requested_buffer_size)
        }),
{
    if block_size_frames == 0 {
        None
    } else {
        Some(block_size_frames != requested_buffer_size)
    }
}

/// The latency reported for the plug-in itself: behind the DSP bridge, the
/// block of delay the bridge adds is reported separately and taken off.
pub fn reported_plugin_latency(plugin_latency_samples: u32, requested_buffer_size: u32, bridged: bool) -> (r: u32)
    ensures
        r == (if bridged {
            if plugin_latency_samples >= requested_buffer_size {
                (plugin_latency_samples - requested_buffer_size) as u32
            } else {
                0
            }
        } else {
            plugin_latency_samples
        }),
{
    if bridged {
        plugin_latency_samples.saturating_sub(requested_buffer_size)
    } else {
        plugin_latency_samples
    }
}

/// The latency the DSP bridge adds: one requested block when bridged.
pub fn reported_bridge_latency(requested_buffer_size: u32, bridged: bool) -> (r: u32)
    ensures
        r == (if bridged { requested_buffer_size } else { 0 }),
{
    if bridged {
        requested_buffer_size
    } else {
        0
    }
}

/// How the plug-in is hosted, as reported in status.
pub fn hosting_mode_name(bridged_x86: bool) -> (r: String)
    ensures
        r@ == (if bridged_x86 { "bridgedX86"@ } else { "directX64"@ }),
{
    if bridged_x86 {
        "bridgedX86".to_string()
    } else {
        "directX64".to_string()
    }
}

} // verus!
