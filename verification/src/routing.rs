//! Routing profiles at run time: channel and note-range filters, and the
//! renumbering of controllers and programs, applied to incoming frames.

use vstd::prelude::*;
use crate::config::{RoutingMapping, RoutingProfile};
use crate::midi::MidiFrame;

verus! {

/// The identity numbering 0..128.
pub open spec fn identity_map() -> Seq<u8> {
    Seq::new(128, |i: int| i as u8)
}

/// A 128-entry numbering after the mappings are applied in order: a mapping
/// whose ends are both below 128 sends `from` to `to`; a later mapping of
/// the same number wins; others are ignored.
pub open spec fn apply_mappings(ms: Seq<RoutingMapping>) -> Seq<u8>
    decreases ms.len(),
{
    if ms.len() == 0 {
        identity_map()
    } else {
        let prev = apply_mappings(ms.drop_last());
        let m = ms.last();
        if m.from < 128 && m.to < 128 {
            prev.update(m.from as int, m.to)
        } else {
            prev
        }
    }
}

proof fn lemma_apply_mappings_shape(ms: Seq<RoutingMapping>)
    ensures
        apply_mappings(ms).len() == 128,
        forall|i: int| 0 <= i < 128 ==> #[trigger] apply_mappings(ms)[i] < 128,
    decreases ms.len(),
{
    if ms.len() > 0 {
        lemma_apply_mappings_shape(ms.drop_last());
    }
}

/// Whether mapping `m` renumbers `i`.
pub open spec fn maps_number(m: RoutingMapping, i: int) -> bool {
    m.from as int == i && m.to < 128
}

/// The position of the last mapping in `ms` that renumbers `i`.
pub open spec fn last_mapping(ms: Seq<RoutingMapping>, i: int) -> Option<int>
    decreases ms.len(),
{
    if ms.len() == 0 {
        None
    } else if maps_number(ms.last(), i) {
        Some(ms.len() - 1)
    } else {
        last_mapping(ms.drop_last(), i)
    }
}

/// Law: in a prepared numbering, each number below 128 goes where the last
/// mapping of it sends it (a mapping counts when its target is below 128),
/// and stays itself when no mapping renumbers it.
pub proof fn lemma_last_mapping_wins(ms: Seq<RoutingMapping>, i: int)
    requires
        0 <= i < 128,
    ensures
        match last_mapping(ms, i) {
            Some(k) => {
                &&& 0 <= k < ms.len()
                &&& maps_number(ms[k], i)
                &&& forall|j: int| k < j < ms.len() ==> !maps_number(#[trigger] ms[j], i)
                &&& apply_mappings(ms)[i] == ms[k].to
            },
            None => {
                &&& forall|j: int| 0 <= j < ms.len() ==> !maps_number(#[trigger] ms[j], i)
                &&& apply_mappings(ms)[i] == i
            },
        },
    decreases ms.len(),
{
    lemma_apply_mappings_shape(ms);
    if ms.len() > 0 {
        let prev = ms.drop_last();
        lemma_last_mapping_wins(prev, i);
        lemma_apply_mappings_shape(prev);
        assert forall|j: int| 0 <= j < prev.len() implies prev[j] == ms[j] by {}
    }
}

/// A routing profile prepared for use on frames.
#[derive(Clone)]
pub struct RoutingProfileRuntime {
    pub id: String,
    pub channel_filter: Option<u8>,
    pub note_min: Option<u8>,
    pub note_max: Option<u8>,
    /// New number of each controller (128 entries).
    pub cc_map: Vec<u8>,
    /// New number of each program (128 entries).
    pub program_map: Vec<u8>,
    pub enabled: bool,
}

impl RoutingProfileRuntime {
    /// Both numberings have 128 entries, each below 128.
    pub open spec fn well_formed(&self) -> bool {
        &&& self.cc_map@.len() == 128
        &&& self.program_map@.len() == 128
        &&& forall|i: int| 0 <= i < 128 ==> #[trigger] self.cc_map@[i] < 128
        &&& forall|i: int| 0 <= i < 128 ==> #[trigger] self.program_map@[i] < 128
    }
}

fn build_map(ms: &Vec<RoutingMapping>) -> (r: Vec<u8>)
    ensures
        r@ == apply_mappings(ms@),
{
    let mut map: Vec<u8> = Vec::new();
    let mut i: u8 = 0;
    while i < 128
        invariant
            i <= 128,
            map@ == identity_map().take(i as int),
        decreases 128 - i,
    {
        map.push(i);
        i = i + 1;
        assert(map@ =~= identity_map().take(i as int));
    }
    assert(map@ =~= identity_map());
    let mut k: usize = 0;
    while k < ms.len()
        invariant
            k <= ms@.len(),
            map@ == apply_mappings(ms@.take(k as int)),
        decreases ms@.len() - k,
    {
        proof {
            lemma_apply_mappings_shape(ms@.take(k as int));
            assert(ms@.take(k as int + 1).drop_last() =~= ms@.take(k as int));
        }
        let m = ms[k];
        if m.from < 128 && m.to < 128 {
            map.set(m.from as usize, m.to);
        }
        k = k + 1;
    }
    assert(ms@.take(k as int) =~= ms@);
    map
}

/// Where `data` goes through a profile (0-based channel filter): `None` if
/// the profile rejects it, else the frame bytes with the controller or
/// program number renumbered.
pub open spec fn spec_apply_profile(p: RoutingProfileRuntime, data: Seq<u8>) -> Option<Seq<u8>> {
    if data.len() == 0 {
        Some(data)
    } else {
        let status = data[0];
        let channel = status & 0x0F;
        let st = status & 0xF0;
        if p.channel_filter matches Some(f) && channel != f {
            None
        } else if (st == 0x80 || st == 0x90) && data.len() >= 2 && ((p.note_min matches Some(
            min,
        ) && data[1] < min) || (p.note_max matches Some(max) && data[1] > max)) {
            None
        } else if st == 0xB0 && data.len() >= 2 && data[1] < 128 {
            Some(data.update(1, p.cc_map@[data[1] as int]))
        } else if st == 0xC0 && data.len() >= 2 && data[1] < 128 {
            Some(data.update(1, p.program_map@[data[1] as int]))
        } else {
            Some(data)
        }
    }
}

/// Law: a profile filters notes by channel and by its note range. A
/// note-on or note-off is rejected when its channel is not the profile's
/// channel, when its note lies below `note_min`, or when it lies above
/// `note_max`; otherwise it passes with its bytes unchanged.
pub proof fn lemma_note_filtering(p: RoutingProfileRuntime, data: Seq<u8>)
    requires
        data.len() >= 2,
        (data[0] & 0xF0) == 0x80 || (data[0] & 0xF0) == 0x90,
    ensures
        (p.channel_filter matches Some(f) && (data[0] & 0x0F) != f) ==> spec_apply_profile(p, data) is None,
        (p.note_min matches Some(m) && data[1] < m) ==> spec_apply_profile(p, data) is None,
        (p.note_max matches Some(m) && data[1] > m) ==> spec_apply_profile(p, data) is None,
        !(p.channel_filter matches Some(f) && (data[0] & 0x0F) != f) && !(p.note_min matches Some(
            m,
        ) && data[1] < m) && !(p.note_max matches Some(m) && data[1] > m) ==> spec_apply_profile(p, data)
            == Some(data),
{
}

/// Law: controllers and programs are renumbered through the profile's
/// maps, on frames of the profile's channel; nothing else of the frame
/// changes.
pub proof fn lemma_renumbering(p: RoutingProfileRuntime, data: Seq<u8>)
    requires
        data.len() >= 2,
        data[1] < 128,
        (data[0] & 0xF0) == 0xB0 || (data[0] & 0xF0) == 0xC0,
        !(p.channel_filter matches Some(f) && (data[0] & 0x0F) != f),
    ensures
        spec_apply_profile(p, data) matches Some(out) && out.len() == data.len() && out[0] == data[0]
            && out[1] == (if (data[0] & 0xF0) == 0xB0 {
            p.cc_map@[data[1] as int]
        } else {
            p.program_map@[data[1] as int]
        }) && (forall|i: int| 2 <= i < data.len() ==> out[i] == data[i]),
{
}

impl RoutingProfileRuntime {
    /// Prepares `profile`: the numberings start as the identity, and the
    /// profile's mappings are applied in order.
    pub fn from_profile(profile: &RoutingProfile) -> (r: RoutingProfileRuntime)
        ensures
            r.well_formed(),
            r.id@ == profile.id@,
            r.channel_filter == profile.channel_filter,
            r.note_min == profile.note_min,
            r.note_max == profile.note_max,
            r.cc_map@ == apply_mappings(profile.cc_map@),
            r.program_map@ == apply_mappings(profile.program_map@),
            r.enabled == profile.enabled,
    {
        let cc_map = build_map(&profile.cc_map);
        let program_map = build_map(&profile.program_map);
        proof {
            lemma_apply_mappings_shape(profile.cc_map@);
            lemma_apply_mappings_shape(profile.program_map@);
        }
        RoutingProfileRuntime {
            id: profile.id.clone(),
            channel_filter: profile.channel_filter,
            note_min: profile.note_min,
            note_max: profile.note_max,
            cc_map,
            program_map,
            enabled: profile.enabled,
        }
    }

    /// Applies the profile to `frame`; returns whether the frame passes.
    /// A rejected frame is left as it was.
    pub fn apply_to_frame(&self, frame: &mut MidiFrame) -> (r: bool)
        requires
            self.well_formed(),
        ensures
            r == spec_apply_profile(*self, old(frame).data@) is Some,
            final(frame).source@ == old(frame).source@,
            final(frame).timestamp_ms == old(frame).timestamp_ms,
            match spec_apply_profile(*self, old(frame).data@) {
                Some(d) => final(frame).data@ == d,
                None => final(frame).data@ == old(frame).data@,
            },
    {
        if frame.data.len() == 0 {
            return true;
        }
        let status = frame.data[0];
        let channel = status & 0x0F;
        let st = status & 0xF0;
        if let Some(filter) = self.channel_filter {
            if channel != filter {
                return false;
            }
        }
        if (st == 0x80 || st == 0x90) && frame.data.len() >= 2 {
            let note = frame.data[1];
            if let Some(min) = self.note_min {
                if note < min {
                    return false;
                }
            }
            if let Some(max) = self.note_max {
                if note > max {
                    return false;
                }
            }
        }
        if st == 0xB0 && frame.data.len() >= 2 {
            let cc = frame.data[1];
            if cc < 128 {
                let v = self.cc_map[cc as usize];
                frame.data.set(1, v);
            }
        }
        if st == 0xC0 && frame.data.len() >= 2 {
            let program = frame.data[1];
            if program < 128 {
                let v = self.program_map[program as usize];
                frame.data.set(1, v);
            }
        }
        true
    }
}

} // verus!
