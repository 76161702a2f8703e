//! Per-source MIDI activity shown in the user interface: message counts
//! per second, the last key seen, and when the source was last heard.

use vstd::prelude::*;
use crate::midi::{parse_note, spec_parse_note};
use crate::text::str_eq;

verus! {

/// Sources silent for this long are forgotten, in milliseconds.
pub const ACTIVITY_RETENTION_MS: u64 = 300000;

/// What is known of one source.
#[derive(Clone, Copy, Debug, PartialEq, Eq, Structural)]
pub struct MidiActivityState {
    pub messages: u32,
    pub last_note: Option<u8>,
    pub last_channel: Option<u8>,
    pub last_seen_ms: Option<u64>,
}

/// One line of the activity report.
pub struct MidiActivityInfo {
    pub source: String,
    pub messages_per_sec: u32,
    pub last_note: Option<u8>,
    pub last_channel: Option<u8>,
    pub last_seen_ms: Option<u64>,
}

pub open spec fn spec_record(s: MidiActivityState, data: Seq<u8>, ts: u64) -> MidiActivityState {
    MidiActivityState {
        messages: if s.messages == u32::MAX { u32::MAX } else { (s.messages + 1) as u32 },
        last_seen_ms: Some(ts),
        last_note: match spec_parse_note(data) {
            Some(n) => Some(n.note),
            None => s.last_note,
        },
        last_channel: match spec_parse_note(data) {
            Some(n) => Some(n.channel),
            None => s.last_channel,
        },
    }
}

pub open spec fn fresh_state() -> MidiActivityState {
    MidiActivityState { messages: 0, last_note: None, last_channel: None, last_seen_ms: None }
}

impl MidiActivityState {
    /// Counts one message seen at `ts` and remembers its key, if any.
    pub fn record(&mut self, data: &[u8], ts: u64)
        ensures
            *final(self) == spec_record(*old(self), data@, ts),
    {
        self.messages = self.messages.saturating_add(1);
        self.last_seen_ms = Some(ts);
        if let Some(note) = parse_note(data) {
            self.last_note = Some(note.note);
            self.last_channel = Some(note.channel);
        }
    }
}

/// Activity per source, each source once.
pub struct MidiActivityTracker {
    entries: Vec<(String, MidiActivityState)>,
}

pub open spec fn sources_distinct(e: Seq<(Seq<char>, MidiActivityState)>) -> bool {
    forall|i: int, j: int| 0 <= i < j < e.len() ==> #[trigger] e[i].0 != #[trigger] e[j].0
}

pub open spec fn find_source(e: Seq<(Seq<char>, MidiActivityState)>, source: Seq<char>) -> Option<int> {
    if exists|i: int| 0 <= i < e.len() && #[trigger] e[i].0 == source {
        Some(choose|i: int| 0 <= i < e.len() && #[trigger] e[i].0 == source)
    } else {
        None
    }
}

/// The tracker after a message from `source`: its entry is updated, or a
/// new entry is added at the end.
pub open spec fn spec_track(e: Seq<(Seq<char>, MidiActivityState)>, source: Seq<char>, data: Seq<u8>, ts: u64) -> Seq<(Seq<char>, MidiActivityState)> {
    match find_source(e, source) {
        Some(i) => e.update(i, (source, spec_record(e[i].1, data, ts))),
        None => e.push((source, spec_record(fresh_state(), data, ts))),
    }
}

/// Whether a source is kept after a report at `now`.
pub open spec fn retained(s: MidiActivityState, now: u64) -> bool {
    match s.last_seen_ms {
        Some(last) => (if now >= last { now - last } else { 0 }) < ACTIVITY_RETENTION_MS,
        None => true,
    }
}

/// The entries kept after a report at `now`, their counts reset.
pub open spec fn retain_reset(e: Seq<(Seq<char>, MidiActivityState)>, now: u64) -> Seq<(Seq<char>, MidiActivityState)>
    decreases e.len(),
{
    if e.len() == 0 {
        Seq::empty()
    } else {
        let r = retain_reset(e.drop_last(), now);
        let x = e.last();
        if retained(x.1, now) {
            r.push((x.0, MidiActivityState { messages: 0, ..x.1 }))
        } else {
            r
        }
    }
}

proof fn lemma_retain_reset_sources(e: Seq<(Seq<char>, MidiActivityState)>, now: u64)
    ensures
        forall|k: int| 0 <= k < retain_reset(e, now).len() ==> exists|j: int| 0 <= j < e.len() && #[trigger] retain_reset(e, now)[k].0 == e[j].0,
        sources_distinct(e) ==> sources_distinct(retain_reset(e, now)),
    decreases e.len(),
{
    if e.len() > 0 {
        let init = e.drop_last();
        lemma_retain_reset_sources(init, now);
        let r = retain_reset(init, now);
        assert forall|k: int| 0 <= k < r.len() implies exists|j: int| 0 <= j < e.len() && #[trigger] r[k].0 == e[j].0 by {
            let j = choose|j: int| 0 <= j < init.len() && #[trigger] r[k].0 == init[j].0;
            assert(e[j] == init[j]);
        }
        if retained(e.last().1, now) {
            let rr = retain_reset(e, now);
            assert(rr[rr.len() - 1].0 == e[e.len() - 1].0);
        }
        if sources_distinct(e) {
            assert(sources_distinct(init)) by {
                assert forall|a: int, b: int| 0 <= a < b < init.len() implies #[trigger] init[a].0 != #[trigger] init[b].0 by {
                    assert(init[a] == e[a] && init[b] == e[b]);
                }
            }
            if retained(e.last().1, now) {
                let rr = retain_reset(e, now);
                assert forall|a: int, b: int| 0 <= a < b < rr.len() implies #[trigger] rr[a].0 != #[trigger] rr[b].0 by {
                    if b == rr.len() - 1 {
                        let j = choose|j: int| 0 <= j < init.len() && #[trigger] r[a].0 == init[j].0;
                        assert(e[j] == init[j]);
                        assert(e[j].0 != e[e.len() - 1].0);
                    } else {
                        assert(rr[a] == r[a] && rr[b] == r[b]);
                    }
                }
            }
        }
    }
}

impl MidiActivityTracker {
    pub closed spec fn view_entries(&self) -> Seq<(Seq<char>, MidiActivityState)> {
        self.entries@.map_values(|e: (String, MidiActivityState)| (e.0@, e.1))
    }

    pub closed spec fn well_formed(&self) -> bool {
        sources_distinct(self.view_entries())
    }

    /// No source yet.
    pub fn new() -> (r: MidiActivityTracker)
        ensures
            r.view_entries().len() == 0,
            r.well_formed(),
    {
        MidiActivityTracker { entries: Vec::new() }
    }

    /// Records one message from `source` at time `now_ms`.
    pub fn record(&mut self, source: &str, data: &[u8], now_ms: u64)
        requires
            old(self).well_formed(),
        ensures
            final(self).well_formed(),
            final(self).view_entries() == spec_track(old(self).view_entries(), source@, data@, now_ms),
    {
        let ghost e = self.view_entries();
        let mut i: usize = 0;
        while i < self.entries.len()
            invariant
                i <= self.entries@.len(),
                e == self.view_entries(),
                e == old(self).view_entries(),
                self.entries@.len() == e.len(),
                sources_distinct(e),
                forall|k: int| 0 <= k < i ==> #[trigger] e[k].0 != source@,
            decreases self.entries@.len() - i,
        {
            if str_eq(self.entries[i].0.as_str(), source) {
                assert(e[i as int].0 == source@);
                assert(find_source(e, source@) == Some(i as int)) by {
                    let c = choose|k: int| 0 <= k < e.len() && #[trigger] e[k].0 == source@;
                    if c != i as int {
                        assert(sources_distinct(e));
                        if c < i {
                            assert(e[c].0 != e[i as int].0);
                        } else {
                            assert(e[i as int].0 != e[c].0);
                        }
                    }
                }
                assert(spec_track(e, source@, data@, now_ms) == e.update(i as int, (source@, spec_record(e[i as int].1, data@, now_ms))));
                let mut st = self.entries[i].1;
                st.record(data, now_ms);
                let name = self.entries[i].0.clone();
                self.entries.set(i, (name, st));
                assert(self.view_entries() =~= e.update(i as int, (source@, spec_record(e[i as int].1, data@, now_ms))));
                assert forall|a: int, b: int| 0 <= a < b < self.view_entries().len() implies #[trigger] self.view_entries()[a].0 != #[trigger] self.view_entries()[b].0 by {
                    assert(self.view_entries()[a].0 == e[a].0);
                    assert(self.view_entries()[b].0 == e[b].0);
                }
                return;
            }
            i = i + 1;
        }
        assert(find_source(e, source@) is None);
        let mut st = MidiActivityState { messages: 0, last_note: None, last_channel: None, last_seen_ms: None };
        st.record(data, now_ms);
        self.entries.push((source.to_string(), st));
        assert(self.view_entries() =~= e.push((source@, spec_record(fresh_state(), data@, now_ms))));
    }

    /// The report for the last second: every source with its count, in
    /// order; afterwards the counts restart from zero and sources silent
    /// for `ACTIVITY_RETENTION_MS` or more are forgotten.
    pub fn snapshot_and_reset(&mut self, now_ms: u64) -> (r: Vec<MidiActivityInfo>)
        requires
            old(self).well_formed(),
        ensures
            final(self).well_formed(),
            r@.len() == old(self).view_entries().len(),
            forall|i: int| 0 <= i < r@.len() ==> {
                let e = old(self).view_entries()[i];
                &&& (#[trigger] r@[i]).source@ == e.0
                &&& r@[i].messages_per_sec == e.1.messages
                &&& r@[i].last_note == e.1.last_note
                &&& r@[i].last_channel == e.1.last_channel
                &&& r@[i].last_seen_ms == e.1.last_seen_ms
            },
            final(self).view_entries() == retain_reset(old(self).view_entries(), now_ms),
    {
        let ghost e = self.view_entries();
        let mut out: Vec<MidiActivityInfo> = Vec::new();
        let mut kept: Vec<(String, MidiActivityState)> = Vec::new();
        let mut i: usize = 0;
        while i < self.entries.len()
            invariant
                i <= self.entries@.len(),
                e == self.view_entries(),
                self.entries@.len() == e.len(),
                sources_distinct(e),
                out@.len() == i,
                forall|k: int| 0 <= k < i ==> {
                    let x = e[k];
                    &&& (#[trigger] out@[k]).source@ == x.0
                    &&& out@[k].messages_per_sec == x.1.messages
                    &&& out@[k].last_note == x.1.last_note
                    &&& out@[k].last_channel == x.1.last_channel
                    &&& out@[k].last_seen_ms == x.1.last_seen_ms
                },
                kept@.map_values(|x: (String, MidiActivityState)| (x.0@, x.1)) == retain_reset(e.take(i as int), now_ms),
            decreases self.entries@.len() - i,
        {
            let name = self.entries[i].0.clone();
            let st = self.entries[i].1;
            out.push(MidiActivityInfo {
                source: name.clone(),
                messages_per_sec: st.messages,
                last_note: st.last_note,
                last_channel: st.last_channel,
                last_seen_ms: st.last_seen_ms,
            });
            let keep = match st.last_seen_ms {
                Some(last) => now_ms.saturating_sub(last) < ACTIVITY_RETENTION_MS,
                None => true,
            };
            let ghost before = kept@.map_values(|x: (String, MidiActivityState)| (x.0@, x.1));
            proof {
                assert(e.take(i as int + 1).drop_last() =~= e.take(i as int));
            }
            if keep {
                kept.push((name, MidiActivityState { messages: 0, ..st }));
                assert(kept@.map_values(|x: (String, MidiActivityState)| (x.0@, x.1)) =~= before.push((e[i as int].0, MidiActivityState { messages: 0, ..e[i as int].1 })));
            }
            i = i + 1;
        }
        assert(e.take(i as int) =~= e);
        self.entries = kept;
        proof {
            lemma_retain_reset_sources(e, now_ms);
        }
        out
    }
}

} // verus!
