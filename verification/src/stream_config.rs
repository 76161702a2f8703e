//! Choosing the audio stream's buffer size and output configuration from
//! what the device supports.

use vstd::prelude::*;
use vstd::utf8::encode_utf8;
use crate::platform::{contains, contains_bytes};
use crate::text::{to_lowercase, unicode_lowercase};

verus! {

/// The buffer sizes a device accepts.
#[derive(Clone, Copy, Debug, PartialEq, Eq, Structural)]
pub enum SupportedBufferSize {
    Range { min: u32, max: u32 },
    Unknown,
}

pub open spec fn max_u32(a: u32, b: u32) -> u32 {
    if a >= b {
        a
    } else {
        b
    }
}

pub open spec fn min_u32(a: u32, b: u32) -> u32 {
    if a <= b {
        a
    } else {
        b
    }
}

/// The requested size raised to the minimum, then lowered to the maximum.
pub fn choose_buffer_size(supported: &SupportedBufferSize, requested: u32) -> (r: u32)
    ensures
        r == (match *supported {
            SupportedBufferSize::Range { min, max } => min_u32(max_u32(requested, min), max),
            SupportedBufferSize::Unknown => requested,
        }),
{
    match supported {
        SupportedBufferSize::Range { min, max } => {
            let raised = if requested >= *min { requested } else { *min };
            if raised <= *max { raised } else { *max }
        },
        SupportedBufferSize::Unknown => requested,
    }
}

/// The largest block the plug-in must be prepared for: the largest of the
/// request and the supported range (2048 frames when the range is unknown).
pub fn max_plugin_block_size(supported: &SupportedBufferSize, requested: u32) -> (r: u32)
    ensures
        r == (match *supported {
            SupportedBufferSize::Range { min, max } => max_u32(max_u32(requested, min), max),
            SupportedBufferSize::Unknown => max_u32(requested, 2048),
        }),
{
    match supported {
        SupportedBufferSize::Range { min, max } => {
            let a = if requested >= *min { requested } else { *min };
            if a >= *max { a } else { *max }
        },
        SupportedBufferSize::Unknown => if requested >= 2048 { requested } else { 2048 },
    }
}

/// The common buffer sizes tried after the preferred one.
pub open spec fn common_sizes() -> Seq<u32> {
    seq![64u32, 96, 128, 192, 256, 384, 480, 512, 768, 1024, 1536, 2048]
}

pub open spec fn distance(a: u32, b: u32) -> int {
    if a >= b {
        a - b
    } else {
        b - a
    }
}

/// `a` comes before `b` among fallback sizes: closer to the preferred
/// size first, the smaller first at equal distance.
pub open spec fn before(a: u32, b: u32, preferred: u32) -> bool {
    distance(a, preferred) < distance(b, preferred) || (distance(a, preferred) == distance(
        b,
        preferred,
    ) && a < b)
}

pub open spec fn in_range(size: u32, supported: SupportedBufferSize) -> bool {
    match supported {
        SupportedBufferSize::Range { min, max } => min <= size <= max,
        SupportedBufferSize::Unknown => true,
    }
}

/// A fallback size: a common size within the supported range, other than
/// the preferred one.
pub open spec fn is_fallback(size: u32, supported: SupportedBufferSize, preferred: u32) -> bool {
    common_sizes().contains(size) && in_range(size, supported) && size != preferred
}

fn insert_sorted(v: &mut Vec<u32>, x: u32, preferred: u32)
    requires
        forall|i: int, j: int| 0 <= i < j < old(v)@.len() ==> before(#[trigger] old(v)@[i], #[trigger] old(v)@[j], preferred),
        !old(v)@.contains(x),
    ensures
        forall|i: int, j: int| 0 <= i < j < final(v)@.len() ==> before(#[trigger] final(v)@[i], #[trigger] final(v)@[j], preferred),
        forall|y: u32| #[trigger] final(v)@.contains(y) <==> (old(v)@.contains(y) || y == x),
        final(v)@.len() == old(v)@.len() + 1,
{
    let mut pos: usize = 0;
    while pos < v.len() && before_exec(v[pos], x, preferred)
        invariant
            pos <= v@.len(),
            v@ == old(v)@,
            forall|k: int| 0 <= k < pos ==> before(#[trigger] v@[k], x, preferred),
        decreases v@.len() - pos,
    {
        pos = pos + 1;
    }
    proof {
        if pos < v@.len() {
            assert(!before(v@[pos as int], x, preferred));
            assert(v@[pos as int] != x);
        }
    }
    v.insert(pos, x);
    proof {
        assert forall|y: u32| #[trigger] v@.contains(y) <==> (old(v)@.contains(y) || y == x) by {
            if v@.contains(y) {
                let k = choose|k: int| 0 <= k < v@.len() && #[trigger] v@[k] == y;
                if k < pos {
                    assert(old(v)@[k] == y);
                } else if k > pos {
                    assert(old(v)@[k - 1] == y);
                }
            }
            if old(v)@.contains(y) {
                let k = choose|k: int| 0 <= k < old(v)@.len() && #[trigger] old(v)@[k] == y;
                if k < pos {
                    assert(v@[k] == y);
                } else {
                    assert(v@[k + 1] == y);
                }
            }
            if y == x {
                assert(v@[pos as int] == x);
            }
        }
    }
}

fn before_exec(a: u32, b: u32, preferred: u32) -> (r: bool)
    ensures
        r == before(a, b, preferred),
{
    let da = if a >= preferred { a - preferred } else { preferred - a };
    let db = if b >= preferred { b - preferred } else { preferred - b };
    da < db || (da == db && a < b)
}

/// The buffer sizes to try when opening the stream: the preferred one,
/// then every other common size in the supported range, closest to the
/// preferred first (the smaller first at equal distance).
pub fn buffer_fallback_candidates(supported: &SupportedBufferSize, preferred: u32) -> (r: Vec<u32>)
    ensures
        r@.len() >= 1,
        r@[0] == preferred,
        forall|i: int, j: int| 1 <= i < j < r@.len() ==> before(#[trigger] r@[i], #[trigger] r@[j], preferred),
        forall|y: u32| r@.subrange(1, r@.len() as int).contains(y) <==> is_fallback(y, *supported, preferred),
{
    let sizes: Vec<u32> = vec![64u32, 96, 128, 192, 256, 384, 480, 512, 768, 1024, 1536, 2048];
    assert(sizes@ =~= common_sizes());
    let mut extras: Vec<u32> = Vec::new();
    let mut i: usize = 0;
    while i < sizes.len()
        invariant
            sizes@ == common_sizes(),
            i <= sizes@.len(),
            forall|a: int, b: int| 0 <= a < b < extras@.len() ==> before(#[trigger] extras@[a], #[trigger] extras@[b], preferred),
            forall|y: u32| #[trigger] extras@.contains(y) <==> (sizes@.take(i as int).contains(y) && in_range(y, *supported) && y != preferred),
        decreases sizes@.len() - i,
    {
        let s = sizes[i];
        let ok = match supported {
            SupportedBufferSize::Range { min, max } => *min <= s && s <= *max,
            SupportedBufferSize::Unknown => true,
        };
        proof {
            assert forall|y: u32| #[trigger] sizes@.take(i as int + 1).contains(y) <==> (sizes@.take(i as int).contains(y) || y == s) by {
                if sizes@.take(i as int + 1).contains(y) {
                    let k = choose|k: int| 0 <= k < i + 1 && #[trigger] sizes@.take(i as int + 1)[k] == y;
                    if k < i {
                        assert(sizes@.take(i as int)[k] == y);
                    }
                }
                if sizes@.take(i as int).contains(y) {
                    let k = choose|k: int| 0 <= k < i && #[trigger] sizes@.take(i as int)[k] == y;
                    assert(sizes@.take(i as int + 1)[k] == y);
                }
                if y == s {
                    assert(sizes@.take(i as int + 1)[i as int] == y);
                }
            }
            assert(!sizes@.take(i as int).contains(s)) by {
                if sizes@.take(i as int).contains(s) {
                    let k = choose|k: int| 0 <= k < i && #[trigger] sizes@.take(i as int)[k] == s;
                    assert(sizes@[k] == sizes@[i as int]);
                    assert(sizes@[0] < sizes@[1] < sizes@[2] < sizes@[3] < sizes@[4] < sizes@[5]
                        < sizes@[6] < sizes@[7] < sizes@[8] < sizes@[9] < sizes@[10] < sizes@[11]);
                }
            }
        }
        let ghost before_extras = extras@;
        assert(ok == in_range(s, *supported));
        if ok && s != preferred {
            assert(!extras@.contains(s)) by {
                if extras@.contains(s) {
                    assert(sizes@.take(i as int).contains(s));
                }
            }
            insert_sorted(&mut extras, s, preferred);
        }
        proof {
            assert forall|y: u32| #[trigger] extras@.contains(y) <==> (sizes@.take(i as int + 1).contains(y) && in_range(y, *supported) && y != preferred) by {
                assert(before_extras.contains(y) <==> (sizes@.take(i as int).contains(y) && in_range(y, *supported) && y != preferred));
                assert(before_extras.contains(s) <==> (sizes@.take(i as int).contains(s) && in_range(s, *supported) && s != preferred));
                assert(sizes@.take(i as int + 1).contains(y) <==> (sizes@.take(i as int).contains(y) || y == s));
                if y == s {
                    assert(!before_extras.contains(s));
                } else {
                    assert(extras@.contains(y) <==> before_extras.contains(y));
                }
            }
        }
        i = i + 1;
    }
    assert(sizes@.take(i as int) =~= sizes@);
    let mut out: Vec<u32> = Vec::new();
    out.push(preferred);
    let mut k: usize = 0;
    while k < extras.len()
        invariant
            k <= extras@.len(),
            out@.len() == k + 1,
            out@[0] == preferred,
            out@.subrange(1, out@.len() as int) == extras@.take(k as int),
        decreases extras@.len() - k,
    {
        out.push(extras[k]);
        k = k + 1;
        assert(out@.subrange(1, out@.len() as int) =~= extras@.take(k as int));
    }
    assert(extras@.take(k as int) =~= extras@);
    assert(out@.subrange(1, out@.len() as int) == extras@);
    assert(sizes@.take(i as int) == common_sizes());
    assert forall|y: u32| out@.subrange(1, out@.len() as int).contains(y) <==> is_fallback(y, *supported, preferred) by {
        assert(extras@.contains(y) <==> (sizes@.take(i as int).contains(y) && in_range(y, *supported) && y != preferred));
    }
    assert forall|a: int, b: int| 1 <= a < b < out@.len() implies before(#[trigger] out@[a], #[trigger] out@[b], preferred) by {
        assert(out@[a] == out@.subrange(1, out@.len() as int)[a - 1]);
        assert(out@[b] == out@.subrange(1, out@.len() as int)[b - 1]);
    }
    out
}

/// One output configuration range a device offers.
#[derive(Clone, Copy, Debug, PartialEq, Eq, Structural)]
pub struct StreamConfigRange {
    pub min_sample_rate: u32,
    pub max_sample_rate: u32,
    pub channels: u16,
    /// The sample format is 32-bit float.
    pub is_f32: bool,
}

/// The rate the configuration would run at for a request, and how far it
/// is from the request.
pub open spec fn spec_pick_rate(cfg: StreamConfigRange, requested: u32) -> (u32, u32) {
    if requested < cfg.min_sample_rate {
        (cfg.min_sample_rate, (cfg.min_sample_rate - requested) as u32)
    } else if requested > cfg.max_sample_rate {
        (cfg.max_sample_rate, (requested - cfg.max_sample_rate) as u32)
    } else {
        (requested, 0)
    }
}

/// Clamps the requested rate into the configuration's range.
pub fn pick_sample_rate(cfg: &StreamConfigRange, requested: u32) -> (r: (u32, u32))
    ensures
        r == spec_pick_rate(*cfg, requested),
{
    if requested < cfg.min_sample_rate {
        (cfg.min_sample_rate, cfg.min_sample_rate - requested)
    } else if requested > cfg.max_sample_rate {
        (cfg.max_sample_rate, requested - cfg.max_sample_rate)
    } else {
        (requested, 0)
    }
}

/// How well a configuration fits: rate distance, then float format, then
/// stereo (smaller is better, compared in that order).
pub open spec fn score(cfg: StreamConfigRange, requested: u32) -> (u32, u8, u8) {
    (spec_pick_rate(cfg, requested).1, if cfg.is_f32 { 0u8 } else { 1u8 }, if cfg.channels == 2 {
        0u8
    } else {
        1u8
    })
}

pub open spec fn score_less(a: (u32, u8, u8), b: (u32, u8, u8)) -> bool {
    a.0 < b.0 || (a.0 == b.0 && (a.1 < b.1 || (a.1 == b.1 && a.2 < b.2)))
}

fn score_of(cfg: &StreamConfigRange, requested: u32) -> (r: (u32, u8, u8))
    ensures
        r == score(*cfg, requested),
{
    let (_, d) = pick_sample_rate(cfg, requested);
    (d, if cfg.is_f32 { 0u8 } else { 1u8 }, if cfg.channels == 2 { 0u8 } else { 1u8 })
}

/// Picks the best-fitting configuration (the first of the best when
/// several fit equally) and the rate it runs at; fails when the device
/// offers none.
pub fn select_output_config(supported: &[StreamConfigRange], requested_rate: u32) -> (r: Result<(StreamConfigRange, u32), String>)
    ensures
        supported@.len() == 0 <==> r is Err,
        r matches Err(e) ==> e@ == "No supported output config found."@,
        r matches Ok((cfg, rate)) ==> exists|k: int| 0 <= k < supported@.len() && supported@[k] == cfg
            && rate == spec_pick_rate(cfg, requested_rate).0
            && (forall|j: int| 0 <= j < k ==> score_less(score(cfg, requested_rate), #[trigger] score(supported@[j], requested_rate)))
            && (forall|j: int| k < j < supported@.len() ==> !score_less(#[trigger] score(supported@[j], requested_rate), score(cfg, requested_rate))),
{
    if supported.len() == 0 {
        return Err("No supported output config found.".to_string());
    }
    let mut best: usize = 0;
    let mut best_score = score_of(&supported[0], requested_rate);
    let mut i: usize = 1;
    while i < supported.len()
        invariant
            1 <= i <= supported@.len(),
            best < i,
            best_score == score(supported@[best as int], requested_rate),
            forall|j: int| 0 <= j < best ==> score_less(best_score, #[trigger] score(supported@[j], requested_rate)),
            forall|j: int| best < j < i ==> !score_less(#[trigger] score(supported@[j], requested_rate), best_score),
        decreases supported@.len() - i,
    {
        let s = score_of(&supported[i], requested_rate);
        if s.0 < best_score.0 || (s.0 == best_score.0 && (s.1 < best_score.1 || (s.1 == best_score.1 && s.2 < best_score.2))) {
            proof {
                assert forall|j: int| 0 <= j < i implies score_less(s, #[trigger] score(supported@[j], requested_rate)) by {
                    if j < best {
                        assert(score_less(best_score, score(supported@[j], requested_rate)));
                    } else if j > best {
                        assert(!score_less(score(supported@[j], requested_rate), best_score));
                    }
                }
            }
            best = i;
            best_score = s;
        }
        i = i + 1;
    }
    let cfg = supported[best];
    let (rate, _) = pick_sample_rate(&cfg, requested_rate);
    Ok((cfg, rate))
}

/// The configurations with at least two channels, in order.
pub open spec fn stereo_only(s: Seq<StreamConfigRange>) -> Seq<StreamConfigRange>
    decreases s.len(),
{
    if s.len() == 0 {
        Seq::empty()
    } else if s.last().channels >= 2 {
        stereo_only(s.drop_last()).push(s.last())
    } else {
        stereo_only(s.drop_last())
    }
}

/// Keeps the configurations that can carry the plug-in's stereo output;
/// fails when there is none.
pub fn stereo_configs(supported: &[StreamConfigRange]) -> (r: Result<Vec<StreamConfigRange>, String>)
    ensures
        match r {
            Ok(v) => v@ == stereo_only(supported@) && v@.len() > 0,
            Err(e) => stereo_only(supported@).len() == 0
                && e@ == "Device does not support stereo output, which is required for the VST plugin."@,
        },
{
    let mut out: Vec<StreamConfigRange> = Vec::new();
    let mut i: usize = 0;
    while i < supported.len()
        invariant
            i <= supported@.len(),
            out@ == stereo_only(supported@.take(i as int)),
        decreases supported@.len() - i,
    {
        proof {
            assert(supported@.take(i as int + 1).drop_last() =~= supported@.take(i as int));
        }
        if supported[i].channels >= 2 {
            out.push(supported[i]);
        }
        i = i + 1;
    }
    assert(supported@.take(i as int) =~= supported@);
    if out.len() == 0 {
        Err("Device does not support stereo output, which is required for the VST plugin.".to_string())
    } else {
        Ok(out)
    }
}

pub open spec fn spec_choose_buffer(supported: SupportedBufferSize, requested: u32) -> u32 {
    match supported {
        SupportedBufferSize::Range { min, max } => min_u32(max_u32(requested, min), max),
        SupportedBufferSize::Unknown => requested,
    }
}

/// Whether a backend name designates WASAPI (its lower-cased form contains
/// "wasapi").
pub open spec fn is_wasapi_name(name: Seq<char>) -> bool {
    contains(encode_utf8(unicode_lowercase(name)), encode_utf8("wasapi"@))
}

/// The buffer size the stream is built with: the request fitted to the
/// device; under WASAPI, at least 512 frames before fitting again.
pub fn stream_buffer_size(supported: &SupportedBufferSize, requested: u32, backend_name: &str) -> (r: u32)
    ensures
        r == (if is_wasapi_name(backend_name@) {
            spec_choose_buffer(*supported, max_u32(spec_choose_buffer(*supported, requested), 512))
        } else {
            spec_choose_buffer(*supported, requested)
        }),
{
    let target = choose_buffer_size(supported, requested);
    let lower = to_lowercase(backend_name);
    if contains_bytes(lower.as_str().as_bytes(), "wasapi".as_bytes()) {
        let raised = if target >= 512 { target } else { 512 };
        choose_buffer_size(supported, raised)
    } else {
        target
    }
}

} // verus!
