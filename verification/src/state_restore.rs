//! Decisions taken when plug-in state is saved and restored: which saved
//! file to use, which parameters to write back and with what value, what
//! a diagnostic restore does, and how state files are named.

use vstd::prelude::*;
use vstd::utf8::encode_utf8;
use crate::fnv::{fnv1a64, spec_fnv1a64};
use crate::state_codec::{
    state_policy_for_entry, spec_state_policy_for_entry, vst3_format_name, ARCH_X64, ARCH_X86,
    FORMAT_VST2, FORMAT_VST3, STATE_VERSION_V3, bytes_eq_ignore_ascii_case, ascii_eq_ignore_case, bits_finite, count_zero_like, eq_ignore_ascii_case, parameter_bits,
    spec_dense_zero, spec_unsafe_legacy_snapshot, unsafe_legacy_parameter_snapshot,
    unsafe_legacy_parameter_values, DocumentModel, ParameterModel, SavedModel, SavedState,
    StateDocument, StateParameter, StatePolicy, VST3_PARAMETER_IS_READ_ONLY,
};
use crate::text::{str_eq, to_lowercase, unicode_lowercase};
use vstd::string::StringExecFns;

verus! {

// ---------------------------------------------------------------------------
// Parameter values
// ---------------------------------------------------------------------------

/// The bits of a finite single-precision value clamped to [0, 1]: negative
/// values (not -0.0) become 0.0, values above 1.0 become 1.0.
pub open spec fn spec_clamp_unit(bits: u32) -> u32 {
    if bits & 0x8000_0000 != 0 && bits & 0x7fff_ffff != 0 {
        0
    } else if bits & 0x8000_0000 == 0 && bits > 0x3f80_0000 {
        0x3f80_0000
    } else {
        bits
    }
}

/// Clamps a finite value to [0, 1].
pub fn clamp_unit_bits(bits: u32) -> (r: u32)
    ensures
        r == spec_clamp_unit(bits),
{
    if bits & 0x8000_0000 != 0 && bits & 0x7fff_ffff != 0 {
        0
    } else if bits & 0x8000_0000 == 0 && bits > 0x3f80_0000 {
        0x3f80_0000
    } else {
        bits
    }
}

/// What the plug-in reports of one of its parameters.
pub struct ParameterInfo {
    pub index: u32,
    pub id: u32,
    pub flags: u32,
    pub name: String,
}

/// A value to write into the plug-in.
#[derive(Clone, Copy, Debug, PartialEq, Eq, Structural)]
pub struct ParameterWrite {
    pub index: u32,
    pub value_bits: u32,
}

pub open spec fn info_view(i: ParameterInfo) -> (u32, u32, u32, Seq<char>) {
    (i.index, i.id, i.flags, i.name@)
}

/// The first current parameter with the saved id.
pub open spec fn find_by_id(cur: Seq<(u32, u32, u32, Seq<char>)>, id: u32, k: int) -> Option<int>
    decreases cur.len() - k,
{
    if k < 0 || k >= cur.len() {
        None
    } else if cur[k].1 == id {
        Some(k)
    } else {
        find_by_id(cur, id, k + 1)
    }
}

/// The first current parameter at the saved index whose name matches
/// (ignoring ASCII case), when the saved name is not empty.
pub open spec fn find_by_index(cur: Seq<(u32, u32, u32, Seq<char>)>, index: u32, name: Seq<char>, k: int) -> Option<int>
    decreases cur.len() - k,
{
    if k < 0 || k >= cur.len() {
        None
    } else if cur[k].0 == index && (name.len() == 0 || ascii_eq_ignore_case(encode_utf8(cur[k].3), encode_utf8(name))) {
        Some(k)
    } else {
        find_by_index(cur, index, name, k + 1)
    }
}

/// The write for one saved parameter, if any: the current parameter with
/// its id, else the one at its index with a matching name; read-only
/// parameters and non-finite values are skipped.
pub open spec fn vst3_write_for(cur: Seq<(u32, u32, u32, Seq<char>)>, p: ParameterModel) -> Option<ParameterWrite> {
    let selected = match find_by_id(cur, p.id, 0) {
        Some(k) => Some(k),
        None => find_by_index(cur, p.index, p.name, 0),
    };
    match selected {
        Some(k) => if cur[k].2 & VST3_PARAMETER_IS_READ_ONLY != 0 || !bits_finite(p.value_bits) {
            None
        } else {
            Some(ParameterWrite { index: cur[k].0, value_bits: spec_clamp_unit(p.value_bits) })
        },
        None => None,
    }
}

pub open spec fn vst3_writes(cur: Seq<(u32, u32, u32, Seq<char>)>, saved: Seq<ParameterModel>) -> Seq<ParameterWrite>
    decreases saved.len(),
{
    if saved.len() == 0 {
        Seq::empty()
    } else {
        let rest = vst3_writes(cur, saved.drop_last());
        match vst3_write_for(cur, saved.last()) {
            Some(w) => rest.push(w),
            None => rest,
        }
    }
}

fn find_id(current: &[ParameterInfo], id: u32) -> (r: Option<usize>)
    ensures
        match r {
            Some(k) => find_by_id(current@.map_values(|i: ParameterInfo| info_view(i)), id, 0) == Some(k as int),
            None => find_by_id(current@.map_values(|i: ParameterInfo| info_view(i)), id, 0) is None,
        },
        r matches Some(k) ==> k < current@.len(),
{
    let ghost cur = current@.map_values(|i: ParameterInfo| info_view(i));
    let mut k: usize = 0;
    while k < current.len()
        invariant
            k <= current@.len(),
            cur == current@.map_values(|i: ParameterInfo| info_view(i)),
            find_by_id(cur, id, 0) == find_by_id(cur, id, k as int),
        decreases current@.len() - k,
    {
        if current[k].id == id {
            return Some(k);
        }
        k = k + 1;
    }
    None
}

fn find_index(current: &[ParameterInfo], index: u32, name: &String) -> (r: Option<usize>)
    ensures
        match r {
            Some(k) => find_by_index(current@.map_values(|i: ParameterInfo| info_view(i)), index, name@, 0) == Some(k as int),
            None => find_by_index(current@.map_values(|i: ParameterInfo| info_view(i)), index, name@, 0) is None,
        },
        r matches Some(k) ==> k < current@.len(),
{
    let ghost cur = current@.map_values(|i: ParameterInfo| info_view(i));
    let mut k: usize = 0;
    while k < current.len()
        invariant
            k <= current@.len(),
            cur == current@.map_values(|i: ParameterInfo| info_view(i)),
            find_by_index(cur, index, name@, 0) == find_by_index(cur, index, name@, k as int),
        decreases current@.len() - k,
    {
        if current[k].index == index && (name.as_str().unicode_len() == 0 || eq_ignore_ascii_case(current[k].name.as_str(), name.as_str())) {
            return Some(k);
        }
        k = k + 1;
    }
    None
}

/// The values to write back into a VST3 plug-in for saved parameters.
pub fn vst3_parameter_writes(current: &[ParameterInfo], saved: &[StateParameter]) -> (r: Vec<ParameterWrite>)
    ensures
        r@ == vst3_writes(current@.map_values(|i: ParameterInfo| info_view(i)), saved@.map_values(|p: StateParameter| p@)),
{
    let ghost cur = current@.map_values(|i: ParameterInfo| info_view(i));
    let ghost sv = saved@.map_values(|p: StateParameter| p@);
    let mut out: Vec<ParameterWrite> = Vec::new();
    let mut i: usize = 0;
    while i < saved.len()
        invariant
            i <= saved@.len(),
            cur == current@.map_values(|i: ParameterInfo| info_view(i)),
            sv == saved@.map_values(|p: StateParameter| p@),
            out@ == vst3_writes(cur, sv.take(i as int)),
        decreases saved@.len() - i,
    {
        assert(sv.take(i as int + 1).drop_last() =~= sv.take(i as int));
        let p = &saved[i];
        assert(sv.take(i as int + 1).last() == p@);
        let selected = match find_id(current, p.id) {
            Some(k) => Some(k),
            None => find_index(current, p.index, &p.name),
        };
        match selected {
            Some(k) => {
                let info = &current[k];
                assert(cur[k as int] == info_view(*info));
                if !(info.flags & VST3_PARAMETER_IS_READ_ONLY != 0 || p.value_bits & 0x7f80_0000 == 0x7f80_0000) {
                    out.push(ParameterWrite { index: info.index, value_bits: clamp_unit_bits(p.value_bits) });
                }
            },
            None => {},
        }
        i = i + 1;
    }
    assert(sv.take(i as int) =~= sv);
    out
}

/// The write for one saved VST2 parameter: its index must exist, its value
/// be finite, and a saved name must match the current one (ignoring ASCII
/// case) unless the plug-in reports no name.
pub open spec fn vst2_write_for(names: Seq<Seq<char>>, p: ParameterModel) -> Option<ParameterWrite> {
    if p.index >= names.len() || !bits_finite(p.value_bits) {
        None
    } else if p.name.len() != 0 && names[p.index as int].len() != 0 && !ascii_eq_ignore_case(
        encode_utf8(names[p.index as int]),
        encode_utf8(p.name),
    ) {
        None
    } else {
        Some(ParameterWrite { index: p.index, value_bits: spec_clamp_unit(p.value_bits) })
    }
}

pub open spec fn vst2_writes(names: Seq<Seq<char>>, saved: Seq<ParameterModel>) -> Seq<ParameterWrite>
    decreases saved.len(),
{
    if saved.len() == 0 {
        Seq::empty()
    } else {
        let rest = vst2_writes(names, saved.drop_last());
        match vst2_write_for(names, saved.last()) {
            Some(w) => rest.push(w),
            None => rest,
        }
    }
}

/// The values to write back into a VST2 plug-in whose parameters have the
/// given current names.
pub fn vst2_parameter_writes(current_names: &[String], saved: &[StateParameter]) -> (r: Vec<ParameterWrite>)
    ensures
        r@ == vst2_writes(current_names@.map_values(|s: String| s@), saved@.map_values(|p: StateParameter| p@)),
{
    let ghost names = current_names@.map_values(|s: String| s@);
    let ghost sv = saved@.map_values(|p: StateParameter| p@);
    let mut out: Vec<ParameterWrite> = Vec::new();
    let mut i: usize = 0;
    while i < saved.len()
        invariant
            i <= saved@.len(),
            names == current_names@.map_values(|s: String| s@),
            sv == saved@.map_values(|p: StateParameter| p@),
            out@ == vst2_writes(names, sv.take(i as int)),
        decreases saved@.len() - i,
    {
        assert(sv.take(i as int + 1).drop_last() =~= sv.take(i as int));
        let p = &saved[i];
        let idx = p.index as usize;
        if idx < current_names.len() && p.value_bits & 0x7f80_0000 != 0x7f80_0000 {
            let current = &current_names[idx];
            let skip = p.name.as_str().unicode_len() != 0 && current.as_str().unicode_len() != 0
                && !eq_ignore_ascii_case(current.as_str(), p.name.as_str());
            if !skip {
                out.push(ParameterWrite { index: p.index, value_bits: clamp_unit_bits(p.value_bits) });
            }
        }
        i = i + 1;
    }
    assert(sv.take(i as int) =~= sv);
    out
}

/// Version-1 values as saved parameters: the position is both id and
/// index, with no name or flags.
pub fn values_as_parameters(values: &[u32]) -> (r: Vec<StateParameter>)
    requires
        values@.len() <= u32::MAX,
    ensures
        r@.len() == values@.len(),
        forall|i: int| 0 <= i < r@.len() ==> (#[trigger] r@[i])@ == (ParameterModel {
            id: i as u32,
            index: i as u32,
            flags: 0,
            name: Seq::empty(),
            value_bits: values@[i],
        }),
{
    let mut out: Vec<StateParameter> = Vec::new();
    let mut i: usize = 0;
    while i < values.len()
        invariant
            i <= values@.len() <= u32::MAX,
            out@.len() == i,
            forall|k: int| 0 <= k < i ==> (#[trigger] out@[k])@ == (ParameterModel {
                id: k as u32,
                index: k as u32,
                flags: 0,
                name: Seq::empty(),
                value_bits: values@[k],
            }),
        decreases values@.len() - i,
    {
        out.push(StateParameter { id: i as u32, index: i as u32, flags: 0, name: String::new(), value_bits: values[i] });
        i = i + 1;
    }
    out
}

/// The reported parameters worth saving: known, writable, finite, clamped.
pub open spec fn sparse_entry(meta: Seq<(u32, u32, u32, Seq<char>)>, id: u32, bits: u32) -> Option<ParameterModel> {
    match find_by_id(meta, id, 0) {
        Some(k) => if meta[k].2 & VST3_PARAMETER_IS_READ_ONLY == 0 && bits_finite(bits) {
            Some(ParameterModel { id, index: meta[k].0, flags: meta[k].2, name: meta[k].3, value_bits: spec_clamp_unit(bits) })
        } else {
            None
        },
        None => None,
    }
}

pub open spec fn sparse_entries(meta: Seq<(u32, u32, u32, Seq<char>)>, reported: Seq<(u32, u32)>) -> Seq<ParameterModel>
    decreases reported.len(),
{
    if reported.len() == 0 {
        Seq::empty()
    } else {
        let rest = sparse_entries(meta, reported.drop_last());
        match sparse_entry(meta, reported.last().0, reported.last().1) {
            Some(p) => rest.push(p),
            None => rest,
        }
    }
}

/// The parameters saved for a plug-in restored from reported parameters.
pub fn sparse_parameters_to_save(metadata: &[ParameterInfo], reported: &[(u32, u32)]) -> (r: Vec<StateParameter>)
    ensures
        r@.map_values(|p: StateParameter| p@) == sparse_entries(metadata@.map_values(|i: ParameterInfo| info_view(i)), reported@),
{
    let ghost meta = metadata@.map_values(|i: ParameterInfo| info_view(i));
    let mut out: Vec<StateParameter> = Vec::new();
    let mut i: usize = 0;
    while i < reported.len()
        invariant
            i <= reported@.len(),
            meta == metadata@.map_values(|i: ParameterInfo| info_view(i)),
            out@.map_values(|p: StateParameter| p@) == sparse_entries(meta, reported@.take(i as int)),
        decreases reported@.len() - i,
    {
        assert(reported@.take(i as int + 1).drop_last() =~= reported@.take(i as int));
        let (id, bits) = reported[i];
        assert(reported@.take(i as int + 1).last() == (id, bits));
        let ghost before = out@.map_values(|p: StateParameter| p@);
        match find_id(metadata, id) {
            Some(k) => {
                let info = &metadata[k];
                assert(meta[k as int] == info_view(*info));
                if info.flags & VST3_PARAMETER_IS_READ_ONLY == 0 && bits & 0x7f80_0000 != 0x7f80_0000 {
                    let p = StateParameter {
                        id,
                        index: info.index,
                        flags: info.flags,
                        name: info.name.clone(),
                        value_bits: clamp_unit_bits(bits),
                    };
                    out.push(p);
                    assert(out@.map_values(|p: StateParameter| p@) =~= before.push(p@));
                }
            },
            None => {},
        }
        i = i + 1;
    }
    assert(reported@.take(i as int) =~= reported@);
    out
}

// ---------------------------------------------------------------------------
// Choosing and applying a saved file
// ---------------------------------------------------------------------------

/// What to do with a candidate state file.
#[derive(Clone, Copy, Debug, PartialEq, Eq, Structural)]
pub enum CandidateVerdict {
    /// Restore from it.
    Use,
    /// It belongs to another plug-in identity; try the next file.
    OtherPlugin,
    /// It is an unsafe exhaustive snapshot; set it aside and try the next.
    ArchiveUnsafe,
}

pub open spec fn spec_candidate_verdict(state: SavedModel, entry_id: Seq<char>, policy: StatePolicy) -> CandidateVerdict {
    match state {
        SavedModel::V2(d) => if d.plugin_id.len() != 0 && d.plugin_id != entry_id {
            CandidateVerdict::OtherPlugin
        } else if spec_unsafe_legacy_snapshot(d, policy) {
            CandidateVerdict::ArchiveUnsafe
        } else {
            CandidateVerdict::Use
        },
        SavedModel::Params(v) => if policy == StatePolicy::TrackedParametersOnly && spec_dense_zero(
            v.len() as usize,
            count_zero_like(v) as usize,
        ) {
            CandidateVerdict::ArchiveUnsafe
        } else {
            CandidateVerdict::Use
        },
        _ => CandidateVerdict::Use,
    }
}

/// Judges a decoded candidate file for the plug-in `entry_id` whose policy
/// is `policy`.
pub fn candidate_verdict(state: &SavedState, entry_id: &str, policy: StatePolicy) -> (r: CandidateVerdict)
    ensures
        r == spec_candidate_verdict(state@, entry_id@, policy),
{
    match state {
        SavedState::V2(d) => {
            if d.plugin_id.as_str().unicode_len() != 0 && !str_eq(d.plugin_id.as_str(), entry_id) {
                CandidateVerdict::OtherPlugin
            } else if unsafe_legacy_parameter_snapshot(d, policy) {
                CandidateVerdict::ArchiveUnsafe
            } else {
                CandidateVerdict::Use
            }
        },
        SavedState::Params(v) => {
            if unsafe_legacy_parameter_values(v.as_slice(), policy) {
                CandidateVerdict::ArchiveUnsafe
            } else {
                CandidateVerdict::Use
            }
        },
        _ => CandidateVerdict::Use,
    }
}

/// What a diagnostic restore into a VST3 plug-in does.
pub enum DiagnosticRestore {
    /// Load this native state; no parameter is reported.
    Native(Vec<u8>),
    /// Write these parameters; their number is reported.
    Parameters(Vec<StateParameter>),
}

/// Plans a diagnostic restore of `state` into the VST3 plug-in `entry_id`.
/// A document of another identity, or an unsafe snapshot, is refused; a
/// document's native state is used when there is one and the policy prefers
/// it, its parameters otherwise; version-1 values become parameters by
/// position, unless unsafe; a native chunk is refused unless the policy
/// prefers native state.
pub fn diagnostic_restore_plan(state: SavedState, entry_id: &str, policy: StatePolicy) -> (r: Result<DiagnosticRestore, String>)
    requires
        state@ matches SavedModel::Params(v) ==> v.len() <= u32::MAX,
    ensures
        match state@ {
            SavedModel::V2(d) => if d.plugin_id.len() != 0 && d.plugin_id != entry_id@ {
                r matches Err(e) && e@ == "state belongs to a different plug-in identity"@
            } else if spec_unsafe_legacy_snapshot(d, policy) {
                r matches Err(e) && e@ == "unsafe exhaustive legacy parameter snapshot rejected"@
            } else if d.vst3_state.len() != 0 && policy == StatePolicy::NativePreferred {
                r matches Ok(DiagnosticRestore::Native(b)) && b@ == d.vst3_state
            } else {
                r matches Ok(DiagnosticRestore::Parameters(ps)) && ps@.map_values(|p: StateParameter| p@) == d.parameters
            },
            SavedModel::Params(v) => if policy == StatePolicy::TrackedParametersOnly && spec_dense_zero(
                v.len() as usize,
                count_zero_like(v) as usize,
            ) {
                r matches Err(e) && e@ == "unsafe exhaustive legacy parameter snapshot rejected"@
            } else {
                r matches Ok(DiagnosticRestore::Parameters(ps)) && ps@.len() == v.len() && forall|i: int|
                    0 <= i < v.len() ==> (#[trigger] ps@[i])@ == (ParameterModel {
                        id: i as u32,
                        index: i as u32,
                        flags: 0,
                        name: Seq::empty(),
                        value_bits: v[i],
                    })
            },
            SavedModel::Chunk(b) => if policy != StatePolicy::NativePreferred {
                r matches Err(e) && e@ == "legacy native state is disabled by the compatibility profile"@
            } else {
                r matches Ok(DiagnosticRestore::Native(x)) && x@ == b
            },
            SavedModel::Raw(b) => if policy != StatePolicy::NativePreferred {
                r matches Err(e) && e@ == "legacy native state is disabled by the compatibility profile"@
            } else {
                r matches Ok(DiagnosticRestore::Native(x)) && x@ == b
            },
        },
{
    match state {
        SavedState::V2(document) => {
            if document.plugin_id.as_str().unicode_len() != 0 && !str_eq(document.plugin_id.as_str(), entry_id) {
                return Err("state belongs to a different plug-in identity".to_string());
            }
            if unsafe_legacy_parameter_snapshot(&document, policy) {
                return Err("unsafe exhaustive legacy parameter snapshot rejected".to_string());
            }
            if document.vst3_state.len() != 0 && policy == StatePolicy::NativePreferred {
                Ok(DiagnosticRestore::Native(document.vst3_state))
            } else {
                Ok(DiagnosticRestore::Parameters(document.parameters))
            }
        },
        SavedState::Params(values) => {
            if unsafe_legacy_parameter_values(values.as_slice(), policy) {
                return Err("unsafe exhaustive legacy parameter snapshot rejected".to_string());
            }
            Ok(DiagnosticRestore::Parameters(values_as_parameters(values.as_slice())))
        },
        SavedState::Chunk(bytes) => {
            if policy != StatePolicy::NativePreferred {
                return Err("legacy native state is disabled by the compatibility profile".to_string());
            }
            Ok(DiagnosticRestore::Native(bytes))
        },
        SavedState::Raw(bytes) => {
            if policy != StatePolicy::NativePreferred {
                return Err("legacy native state is disabled by the compatibility profile".to_string());
            }
            Ok(DiagnosticRestore::Native(bytes))
        },
    }
}

/// A captured document is saved only when it holds something.
pub fn document_has_state(document: &StateDocument) -> (r: bool)
    ensures
        r == (document@.parameters.len() != 0 || document@.vst2_bank.len() != 0
            || document@.vst2_preset.len() != 0 || document@.vst3_state.len() != 0),
{
    document.parameters.len() != 0 || document.vst2_bank.len() != 0 || document.vst2_preset.len() != 0
        || document.vst3_state.len() != 0
}

/// A VST2 program to select on restore: one of the plug-in's presets.
pub fn vst2_program_in_range(program: i32, presets: i32) -> (r: bool)
    ensures
        r == (program >= 0 && program < (if presets < 0 { 0 } else { presets })),
{
    let count = if presets < 0 { 0 } else { presets };
    program >= 0 && program < count
}

// ---------------------------------------------------------------------------
// File names
// ---------------------------------------------------------------------------

pub open spec fn hex_digit(d: u64) -> char {
    if d < 10 {
        ((d + 48) as u8) as char
    } else {
        ((d + 87) as u8) as char
    }
}

/// The 16 lower-case hexadecimal digits of `x`, most significant first.
pub open spec fn hex16(x: u64) -> Seq<char> {
    Seq::new(16, |i: int| hex_digit(((x as int / pow16(15 - i)) % 16) as u64))
}

pub open spec fn pow16(n: int) -> int
    decreases n,
{
    if n <= 0 {
        1
    } else {
        16 * pow16(n - 1)
    }
}

fn hex_char(d: u64) -> (c: char)
    requires
        d < 16,
    ensures
        c == hex_digit(d),
{
    let b: u8 = if d < 10 { (d + 48) as u8 } else { (d + 87) as u8 };
    b as char
}

/// The name of a plug-in's state file: its file name, a dash, the FNV-1a
/// hash of its catalogue id in 16 hexadecimal digits, and ".state".
pub open spec fn spec_state_file_name(file_name: Seq<char>, id: Seq<char>) -> Seq<char> {
    file_name + "-"@ + hex16(spec_fnv1a64(encode_utf8(id))) + ".state"@
}

proof fn lemma_pow16_positive(n: int)
    ensures
        pow16(n) >= 1,
    decreases n,
{
    if n > 0 {
        lemma_pow16_positive(n - 1);
    }
}

/// Names the state file of a plug-in.
pub fn state_file_name(file_name: &str, id: &str) -> (r: String)
    ensures
        r@ == spec_state_file_name(file_name@, id@),
{
    let hash = fnv1a64(id.as_bytes());
    let mut s = file_name.to_string();
    s.append("-");
    let ghost start = s@;
    let mut i: usize = 0;
    let mut divisor: u64 = 0x1000_0000_0000_0000;
    assert(pow16(15) == 0x1000_0000_0000_0000) by {
        reveal_with_fuel(pow16, 16);
    }
    while i < 16
        invariant
            i <= 16,
            divisor as int == pow16(15 - i as int) || (i == 16 && divisor == 0),
            s@ == start + hex16(hash).take(i as int),
        decreases 16 - i,
    {
        proof {
            lemma_pow16_positive(15 - i as int);
        }
        let d = (hash / divisor) % 16;
        crate::text::push_char(&mut s, hex_char(d));
        assert(hex16(hash)[i as int] == hex_digit(d));
        i = i + 1;
        assert(s@ =~= start + hex16(hash).take(i as int));
        divisor = divisor / 16;
        proof {
            if i < 16 {
                assert(pow16(16 - i as int) == 16 * pow16(15 - i as int));
            }
        }
    }
    assert(hex16(hash).take(16) =~= hex16(hash));
    s.append(".state");
    s
}

/// The identity under which earlier versions keyed a plug-in's state:
/// "vst3" or "vst2", a colon and the lower-cased canonical path, then a colon
/// and the class id when there is one.
pub open spec fn spec_old_stable_identity(canonical_path: Seq<char>, is_vst3: bool, uid: Option<Seq<char>>) -> Seq<char> {
    let base = (if is_vst3 {
        "vst3"@
    } else {
        "vst2"@
    }) + ":"@ + unicode_lowercase(canonical_path);
    match uid {
        Some(u) => base + ":"@ + u,
        None => base,
    }
}

/// Builds the identity of earlier versions.
pub fn old_stable_identity(canonical_path: &str, is_vst3: bool, uid: Option<&str>) -> (r: String)
    ensures
        r@ == spec_old_stable_identity(
            canonical_path@,
            is_vst3,
            match uid {
                Some(u) => Some(u@),
                None => None,
            },
        ),
{
    let mut s = if is_vst3 {
        "vst3".to_string()
    } else {
        "vst2".to_string()
    };
    s.append(":");
    let lower = to_lowercase(canonical_path);
    s.append(lower.as_str());
    match uid {
        Some(u) => {
            s.append(":");
            s.append(u);
        },
        None => {},
    }
    s
}

/// The state file name of earlier versions: keyed by the old identity.
pub fn old_state_file_name(file_name: &str, canonical_path: &str, is_vst3: bool, uid: Option<&str>) -> (r: String)
    ensures
        r@ == spec_state_file_name(
            file_name@,
            spec_old_stable_identity(
                canonical_path@,
                is_vst3,
                match uid {
                    Some(u) => Some(u@),
                    None => None,
                },
            ),
        ),
{
    let identity = old_stable_identity(canonical_path, is_vst3, uid);
    state_file_name(file_name, identity.as_str())
}

/// The state file name of the first versions: the plug-in's file name and
/// ".state".
pub fn legacy_state_file_name(file_name: &str) -> (r: String)
    ensures
        r@ == file_name@ + ".state"@,
{
    let mut s = file_name.to_string();
    s.append(".state");
    s
}

// ---------------------------------------------------------------------------
// Capturing
// ---------------------------------------------------------------------------

/// The encoding of "x86".
pub open spec fn x86_name() -> Seq<u8> {
    seq![0x78u8, 0x38u8, 0x36u8]
}

/// The document a capture starts from: version 3, the plug-in's policy and
/// identity, VST3 or VST2 by its format name and x86 or x64 by its
/// architecture name (both ignoring ASCII case), its file facts (0 when
/// unknown), no program (-1), and nothing captured yet.
pub open spec fn spec_new_document(
    plugin_id: Seq<char>,
    class_uid: Option<Seq<char>>,
    format: Seq<char>,
    architecture: Seq<char>,
    file_modified_ms: Option<u64>,
    file_size: Option<u64>,
    native_state_disabled: bool,
) -> DocumentModel {
    DocumentModel {
        state_version: STATE_VERSION_V3,
        state_policy: spec_state_policy_for_entry(format, native_state_disabled),
        plugin_id,
        class_uid: match class_uid {
            Some(u) => u,
            None => Seq::empty(),
        },
        format: if ascii_eq_ignore_case(encode_utf8(format), vst3_format_name()) {
            FORMAT_VST3
        } else {
            FORMAT_VST2
        },
        architecture: if ascii_eq_ignore_case(encode_utf8(architecture), x86_name()) {
            ARCH_X86
        } else {
            ARCH_X64
        },
        file_modified_ms: match file_modified_ms {
            Some(v) => v,
            None => 0,
        },
        file_size: match file_size {
            Some(v) => v,
            None => 0,
        },
        program: -1i32,
        vst2_bank: Seq::empty(),
        vst2_preset: Seq::empty(),
        vst3_state: Seq::empty(),
        parameters: Seq::empty(),
    }
}

/// Starts the document for capturing a plug-in's state.
pub fn new_state_document(
    plugin_id: &str,
    class_uid: Option<&str>,
    format: &str,
    architecture: &str,
    file_modified_ms: Option<u64>,
    file_size: Option<u64>,
    native_state_disabled: bool,
) -> (r: StateDocument)
    ensures
        r@ == spec_new_document(
            plugin_id@,
            match class_uid {
                Some(u) => Some(u@),
                None => None,
            },
            format@,
            architecture@,
            file_modified_ms,
            file_size,
            native_state_disabled,
        ),
{
    let vst3: Vec<u8> = vec![0x56u8, 0x53u8, 0x54u8, 0x33u8];
    let x86: Vec<u8> = vec![0x78u8, 0x38u8, 0x36u8];
    assert(vst3@ =~= vst3_format_name());
    assert(x86@ =~= x86_name());
    let r = StateDocument {
        state_version: STATE_VERSION_V3,
        state_policy: state_policy_for_entry(format, native_state_disabled),
        plugin_id: plugin_id.to_string(),
        class_uid: match class_uid {
            Some(u) => u.to_string(),
            None => String::new(),
        },
        format: if bytes_eq_ignore_ascii_case(format.as_bytes(), vst3.as_slice()) {
            FORMAT_VST3
        } else {
            FORMAT_VST2
        },
        architecture: if bytes_eq_ignore_ascii_case(architecture.as_bytes(), x86.as_slice()) {
            ARCH_X86
        } else {
            ARCH_X64
        },
        file_modified_ms: match file_modified_ms {
            Some(v) => v,
            None => 0,
        },
        file_size: match file_size {
            Some(v) => v,
            None => 0,
        },
        program: -1,
        vst2_bank: Vec::new(),
        vst2_preset: Vec::new(),
        vst3_state: Vec::new(),
        parameters: Vec::new(),
    };
    assert(r@.parameters =~= Seq::<ParameterModel>::empty());
    r
}

/// What is captured from a VST3 plug-in under a policy.
#[derive(Clone, Copy, Debug, PartialEq, Eq, Structural)]
pub enum Vst3Capture {
    /// Every parameter, and the native state when the plug-in gives it.
    ParametersAndNative,
    /// The parameters the plug-in reports as changed.
    TrackedParameters,
    /// Nothing.
    Nothing,
}

/// The capture for a policy.
pub fn vst3_capture_for(policy: StatePolicy) -> (r: Vst3Capture)
    ensures
        r == (match policy {
            StatePolicy::NativePreferred => Vst3Capture::ParametersAndNative,
            StatePolicy::LegacyFullSnapshot => Vst3Capture::ParametersAndNative,
            StatePolicy::TrackedParametersOnly => Vst3Capture::TrackedParameters,
            StatePolicy::StateUnsupported => Vst3Capture::Nothing,
        }),
{
    match policy {
        StatePolicy::NativePreferred | StatePolicy::LegacyFullSnapshot => Vst3Capture::ParametersAndNative,
        StatePolicy::TrackedParametersOnly => Vst3Capture::TrackedParameters,
        StatePolicy::StateUnsupported => Vst3Capture::Nothing,
    }
}

// ---------------------------------------------------------------------------
// The order in which saved files are tried
// ---------------------------------------------------------------------------

/// A state file found for a plug-in: its path, whether it exists, and when
/// it was last modified, if that could be read.
pub struct StateFileCandidate {
    pub path: String,
    pub exists: bool,
    pub modified_ms: Option<u64>,
}

/// A candidate as plain values.
pub open spec fn file_view(c: StateFileCandidate) -> (Seq<char>, bool, Option<u64>) {
    (c.path@, c.exists, c.modified_ms)
}

/// The position of a file in the order of trial: files whose time is unknown
/// first, then the most recently modified.
pub open spec fn time_rank(m: Option<u64>) -> int {
    match m {
        None => -0x1_0000_0000_0000_0000,
        Some(ms) => -(ms as int),
    }
}

/// A historical file worth trying: it exists and is not the primary file.
pub open spec fn keep_file(primary: Seq<char>) -> spec_fn((Seq<char>, bool, Option<u64>)) -> bool {
    |f: (Seq<char>, bool, Option<u64>)| f.1 && f.0 != primary
}

/// The historical files worth trying, in their order.
pub open spec fn retained_files(files: Seq<(Seq<char>, bool, Option<u64>)>, primary: Seq<char>) -> Seq<(Seq<char>, bool, Option<u64>)> {
    files.filter(keep_file(primary))
}

/// `out` is `items` in the order of trial, files of equal rank keeping
/// their order.
pub open spec fn stably_ordered(items: Seq<(Seq<char>, bool, Option<u64>)>, out: Seq<(Seq<char>, bool, Option<u64>)>) -> bool {
    exists|perm: Seq<int>|
        #![trigger perm.len()]
        {
            &&& perm.len() == items.len()
            &&& out.len() == items.len()
            &&& (forall|k: int| 0 <= k < perm.len() ==> 0 <= #[trigger] perm[k] < items.len())
            &&& (forall|k: int, l: int| 0 <= k < l < perm.len() ==> #[trigger] perm[k] != #[trigger] perm[l])
            &&& (forall|k: int| 0 <= k < out.len() ==> #[trigger] out[k] == items[perm[k]])
            &&& (forall|k: int, l: int|
                0 <= k < l < out.len() ==> time_rank((#[trigger] out[k]).2) <= time_rank((#[trigger] out[l]).2))
            &&& (forall|k: int, l: int|
                0 <= k < l < out.len() && time_rank((#[trigger] out[k]).2) == time_rank((#[trigger] out[l]).2)
                    ==> perm[k] < perm[l])
        }
}

/// The paths of `s`, each at its first occurrence.
pub open spec fn first_occurrences(s: Seq<Seq<char>>) -> Seq<Seq<char>>
    decreases s.len(),
{
    if s.len() == 0 {
        Seq::empty()
    } else {
        let d = first_occurrences(s.drop_last());
        if d.contains(s.last()) {
            d
        } else {
            d.push(s.last())
        }
    }
}

/// The files to try: the primary file (not historical), then the
/// historical ones in the given order, each path once.
pub open spec fn trial_list(primary: Seq<char>, ordered: Seq<(Seq<char>, bool, Option<u64>)>) -> Seq<(Seq<char>, bool)> {
    seq![(primary, false)] + first_occurrences(
        ordered.map_values(|f: (Seq<char>, bool, Option<u64>)| f.0),
    ).map_values(|p: Seq<char>| (p, true))
}

/// Orders `items` for trial (a stable insertion by rank).
fn order_by_time(items: Vec<StateFileCandidate>) -> (out: Vec<StateFileCandidate>)
    ensures
        stably_ordered(
            items@.map_values(|c: StateFileCandidate| file_view(c)),
            out@.map_values(|c: StateFileCandidate| file_view(c)),
        ),
{
    let ghost iv = items@.map_values(|c: StateFileCandidate| file_view(c));
    let n = items.len();
    let mut out: Vec<StateFileCandidate> = Vec::new();
    let ghost mut perm: Seq<int> = Seq::empty();
    let mut rest = items;
    // The items are reversed first, so that popping from the back of `rev`
    // takes them in the order they came in.
    let mut rev: Vec<StateFileCandidate> = Vec::new();
    let mut r: usize = 0;
    while r < n
        invariant
            r <= n,
            n == iv.len(),
            rest@.len() == n - r,
            rev@.len() == r,
            forall|k: int| 0 <= k < n - r ==> file_view(#[trigger] rest@[k]) == iv[k],
            forall|k: int| 0 <= k < r ==> file_view(#[trigger] rev@[k]) == iv[n - 1 - k],
        decreases n - r,
    {
        let c = rest.pop().unwrap();
        rev.push(c);
        r = r + 1;
    }
    let mut i: usize = 0;
    while i < n
        invariant
            i <= n,
            n == iv.len(),
            rev@.len() == n - i,
            forall|k: int| 0 <= k < n - i ==> file_view(#[trigger] rev@[k]) == iv[n - 1 - k],
            out@.len() == i,
            perm.len() == i,
            forall|k: int| 0 <= k < i ==> 0 <= #[trigger] perm[k] < i,
            forall|k: int, l: int| 0 <= k < l < i ==> #[trigger] perm[k] != #[trigger] perm[l],
            forall|k: int| 0 <= k < i ==> file_view(#[trigger] out@[k]) == iv[perm[k]],
            forall|k: int, l: int|
                0 <= k < l < i ==> time_rank((#[trigger] out@[k]).modified_ms) <= time_rank(
                    (#[trigger] out@[l]).modified_ms,
                ),
            forall|k: int, l: int|
                0 <= k < l < i && time_rank((#[trigger] out@[k]).modified_ms) == time_rank(
                    (#[trigger] out@[l]).modified_ms,
                ) ==> perm[k] < perm[l],
        decreases n - i,
    {
        let c = rev.pop().unwrap();
        assert(file_view(c) == iv[i as int]);
        // The first position whose file comes strictly after `c`.
        let mut p: usize = 0;
        while p < out.len() && !later(&c, &out[p])
            invariant
                p <= out@.len(),
                forall|k: int| 0 <= k < p ==> time_rank((#[trigger] out@[k]).modified_ms) <= time_rank(c.modified_ms),
            decreases out@.len() - p,
        {
            p = p + 1;
        }
        let ghost old_out = out@;
        let ghost old_perm = perm;
        out.insert(p, c);
        proof {
            perm = old_perm.insert(p as int, i as int);
            assert forall|k: int, l: int| 0 <= k < l < i + 1 implies time_rank(
                (#[trigger] out@[k]).modified_ms,
            ) <= time_rank((#[trigger] out@[l]).modified_ms) by {
                if p < old_out.len() {
                    assert(time_rank(c.modified_ms) < time_rank(old_out[p as int].modified_ms));
                }
                if l > p && k < p {
                    assert(out@[k] == old_out[k] && out@[l] == old_out[l - 1]);
                } else if l > p && k > p {
                    assert(out@[k] == old_out[k - 1] && out@[l] == old_out[l - 1]);
                } else if l > p && k == p {
                    assert(out@[l] == old_out[l - 1]);
                    assert(time_rank(old_out[p as int].modified_ms) <= time_rank(old_out[l - 1].modified_ms)
                        || l - 1 == p);
                } else if l == p {
                    assert(out@[k] == old_out[k]);
                } else {
                    assert(out@[k] == old_out[k] && out@[l] == old_out[l]);
                }
            }
            assert forall|k: int, l: int|
                0 <= k < l < i + 1 && time_rank((#[trigger] out@[k]).modified_ms) == time_rank(
                    (#[trigger] out@[l]).modified_ms,
                ) implies perm[k] < perm[l] by {
                if p < old_out.len() {
                    assert(time_rank(c.modified_ms) < time_rank(old_out[p as int].modified_ms));
                }
                if l > p && k < p {
                    assert(out@[k] == old_out[k] && out@[l] == old_out[l - 1]);
                } else if l > p && k > p {
                    assert(out@[k] == old_out[k - 1] && out@[l] == old_out[l - 1]);
                } else if l > p && k == p {
                    assert(out@[l] == old_out[l - 1]);
                    assert(time_rank(old_out[p as int].modified_ms) <= time_rank(old_out[l - 1].modified_ms)
                        || l - 1 == p);
                } else if l == p {
                    assert(out@[k] == old_out[k]);
                } else {
                    assert(out@[k] == old_out[k] && out@[l] == old_out[l]);
                }
            }
            assert forall|k: int| 0 <= k < i + 1 implies file_view(#[trigger] out@[k]) == iv[perm[k]] by {
                if k < p {
                    assert(out@[k] == old_out[k]);
                } else if k > p {
                    assert(out@[k] == old_out[k - 1]);
                }
            }
            assert forall|k: int, l: int| 0 <= k < l < i + 1 implies #[trigger] perm[k] != #[trigger] perm[l] by {
            }
        }
        i = i + 1;
    }
    proof {
        let ov = out@.map_values(|c: StateFileCandidate| file_view(c));
        assert(perm.len() == iv.len());
        assert forall|k: int| 0 <= k < ov.len() implies #[trigger] ov[k] == iv[perm[k]] by {
        }
        assert forall|k: int, l: int|
            0 <= k < l < ov.len() implies time_rank((#[trigger] ov[k]).2) <= time_rank((#[trigger] ov[l]).2) by {
            assert(ov[k].2 == out@[k].modified_ms && ov[l].2 == out@[l].modified_ms);
        }
        assert forall|k: int, l: int|
            0 <= k < l < ov.len() && time_rank((#[trigger] ov[k]).2) == time_rank((#[trigger] ov[l]).2)
                implies perm[k] < perm[l] by {
            assert(ov[k].2 == out@[k].modified_ms && ov[l].2 == out@[l].modified_ms);
        }
    }
    out
}

/// Whether `b` comes strictly after `a` in the order of trial.
fn later(a: &StateFileCandidate, b: &StateFileCandidate) -> (r: bool)
    ensures
        r == (time_rank(a.modified_ms) < time_rank(b.modified_ms)),
{
    match (a.modified_ms, b.modified_ms) {
        (None, Some(_)) => true,
        (Some(x), Some(y)) => x > y,
        _ => false,
    }
}

/// The files to try when restoring a plug-in's state: its primary file,
/// then the historical files that exist and are not the primary one,
/// ordered by `time_rank` (equal ranks keeping their order), each path once.
pub fn state_files_to_try(primary: String, historical: Vec<StateFileCandidate>) -> (r: Vec<(String, bool)>)
    ensures
        exists|ordered: Seq<(Seq<char>, bool, Option<u64>)>|
            stably_ordered(
                retained_files(historical@.map_values(|c: StateFileCandidate| file_view(c)), primary@),
                ordered,
            ) && r@.map_values(|e: (String, bool)| (e.0@, e.1)) == trial_list(primary@, ordered),
{
    let ghost hv = historical@.map_values(|c: StateFileCandidate| file_view(c));
    let mut kept: Vec<StateFileCandidate> = Vec::new();
    let mut rest = historical;
    let mut rev: Vec<StateFileCandidate> = Vec::new();
    let n = rest.len();
    let mut j: usize = 0;
    while j < n
        invariant
            j <= n,
            n == hv.len(),
            rest@.len() == n - j,
            rev@.len() == j,
            forall|k: int| 0 <= k < n - j ==> file_view(#[trigger] rest@[k]) == hv[k],
            forall|k: int| 0 <= k < j ==> file_view(#[trigger] rev@[k]) == hv[n - 1 - k],
        decreases n - j,
    {
        let c = rest.pop().unwrap();
        rev.push(c);
        j = j + 1;
    }
    let mut i: usize = 0;
    while i < n
        invariant
            i <= n,
            n == hv.len(),
            rev@.len() == n - i,
            forall|k: int| 0 <= k < n - i ==> file_view(#[trigger] rev@[k]) == hv[n - 1 - k],
            kept@.map_values(|c: StateFileCandidate| file_view(c)) == retained_files(hv.take(i as int), primary@),
        decreases n - i,
    {
        let c = rev.pop().unwrap();
        assert(file_view(c) == hv[i as int]);
        proof {
            reveal(Seq::filter);
            assert(hv.take(i + 1).drop_last() =~= hv.take(i as int));
            assert(hv.take(i + 1).last() == hv[i as int]);
        }
        let ghost before = kept@.map_values(|c: StateFileCandidate| file_view(c));
        if c.exists && !str_eq(c.path.as_str(), primary.as_str()) {
            kept.push(c);
            assert(kept@.map_values(|c: StateFileCandidate| file_view(c)) =~= before.push(
                file_view(kept@[i as int - (i as int - before.len())]),
            ));
        }
        i = i + 1;
    }
    assert(hv.take(n as int) =~= hv);
    let ordered = order_by_time(kept);
    let ghost ov = ordered@.map_values(|c: StateFileCandidate| file_view(c));
    let ghost paths = ov.map_values(|f: (Seq<char>, bool, Option<u64>)| f.0);
    let mut out: Vec<(String, bool)> = Vec::new();
    out.push((primary.clone(), false));
    let ghost mut seen: Seq<Seq<char>> = Seq::empty();
    let mut k: usize = 0;
    while k < ordered.len()
        invariant
            k <= ordered@.len(),
            ov == ordered@.map_values(|c: StateFileCandidate| file_view(c)),
            paths == ov.map_values(|f: (Seq<char>, bool, Option<u64>)| f.0),
            seen == first_occurrences(paths.take(k as int)),
            out@.map_values(|e: (String, bool)| (e.0@, e.1)) == seq![(primary@, false)]
                + seen.map_values(|p: Seq<char>| (p, true)),
        decreases ordered@.len() - k,
    {
        let path = &ordered[k].path;
        proof {
            assert(paths.take(k + 1).drop_last() =~= paths.take(k as int));
            assert(paths.take(k + 1).last() == path@);
        }
        let mut found = false;
        let mut m: usize = 1;
        proof {
            assert(out@.map_values(|e: (String, bool)| (e.0@, e.1)).len() == out@.len());
        }
        while m < out.len()
            invariant
                1 <= m <= out@.len(),
                out@.len() == seen.len() + 1,
                out@.map_values(|e: (String, bool)| (e.0@, e.1)) == seq![(primary@, false)]
                    + seen.map_values(|p: Seq<char>| (p, true)),
                found == (exists|q: int| 0 <= q < m - 1 && #[trigger] seen[q] == path@),
            decreases out@.len() - m,
        {
            proof {
                assert(out@.map_values(|e: (String, bool)| (e.0@, e.1))[m as int] == (seq![(primary@, false)]
                    + seen.map_values(|p: Seq<char>| (p, true)))[m as int]);
                assert(out@[m as int].0@ == seen[m - 1]);
            }
            if str_eq(out[m].0.as_str(), path.as_str()) {
                found = true;
            }
            m = m + 1;
        }
        proof {
            if found {
                let q = choose|q: int| 0 <= q < seen.len() && #[trigger] seen[q] == path@;
                assert(seen.contains(path@));
            } else {
                assert(!seen.contains(path@));
            }
        }
        let ghost before = out@.map_values(|e: (String, bool)| (e.0@, e.1));
        let ghost old_out = out@;
        if !found {
            let copy = path.clone();
            out.push((copy, true));
            proof {
                let old_seen = seen;
                seen = seen.push(path@);
                let rhs = seq![(primary@, false)] + seen.map_values(|p: Seq<char>| (p, true));
                let now = out@.map_values(|e: (String, bool)| (e.0@, e.1));
                assert(now.len() == rhs.len());
                assert forall|q: int| 0 <= q < now.len() implies now[q] == rhs[q] by {
                    if q < old_out.len() {
                        assert(out@[q] == old_out[q]);
                        assert(before[q] == (seq![(primary@, false)] + old_seen.map_values(
                            |p: Seq<char>| (p, true),
                        ))[q]);
                        if q > 0 {
                            assert(old_seen[q - 1] == seen[q - 1]);
                        }
                    } else {
                        assert(out@[q] == (copy, true));
                    }
                }
                assert(now =~= rhs);
            }
        }
        k = k + 1;
    }
    proof {
        assert(paths.take(ordered@.len() as int) =~= paths);
        assert(out@.map_values(|e: (String, bool)| (e.0@, e.1)) =~= trial_list(primary@, ov));
    }
    out
}

proof fn lemma_first_occurrences(s: Seq<Seq<char>>)
    ensures
        forall|i: int, j: int|
            0 <= i < j < first_occurrences(s).len() ==> #[trigger] first_occurrences(s)[i]
                != #[trigger] first_occurrences(s)[j],
        forall|i: int| 0 <= i < first_occurrences(s).len() ==> s.contains(#[trigger] first_occurrences(s)[i]),
        forall|i: int| 0 <= i < s.len() ==> first_occurrences(s).contains(#[trigger] s[i]),
    decreases s.len(),
{
    if s.len() > 0 {
        let d = first_occurrences(s.drop_last());
        lemma_first_occurrences(s.drop_last());
        assert forall|i: int| 0 <= i < first_occurrences(s).len() implies s.contains(
            #[trigger] first_occurrences(s)[i],
        ) by {
            if i < d.len() {
                let k = choose|k: int| 0 <= k < s.drop_last().len() && s.drop_last()[k] == d[i];
                assert(s[k] == d[i]);
            } else {
                assert(s[s.len() - 1] == first_occurrences(s)[i]);
            }
        }
        assert forall|i: int| 0 <= i < s.len() implies first_occurrences(s).contains(#[trigger] s[i]) by {
            if i < s.len() - 1 {
                assert(s.drop_last()[i] == s[i]);
                assert(d.contains(s[i]));
                let k = choose|k: int| 0 <= k < d.len() && d[k] == s[i];
                assert(first_occurrences(s)[k] == s[i]);
            } else if !d.contains(s.last()) {
                assert(first_occurrences(s)[d.len() as int] == s[i]);
            }
        }
    }
}

/// Law: the primary file is tried first and marked as such; every other
/// file tried is historical, is not the primary file, and is tried once.
pub proof fn lemma_trial_list_shape(
    primary: Seq<char>,
    files: Seq<(Seq<char>, bool, Option<u64>)>,
    ordered: Seq<(Seq<char>, bool, Option<u64>)>,
)
    requires
        stably_ordered(retained_files(files, primary), ordered),
    ensures
        trial_list(primary, ordered).len() >= 1,
        trial_list(primary, ordered)[0] == (primary, false),
        forall|i: int|
            1 <= i < trial_list(primary, ordered).len() ==> (#[trigger] trial_list(primary, ordered)[i]).1
                && trial_list(primary, ordered)[i].0 != primary,
        forall|i: int, j: int|
            1 <= i < j < trial_list(primary, ordered).len() ==> (#[trigger] trial_list(primary, ordered)[i]).0
                != (#[trigger] trial_list(primary, ordered)[j]).0,
{
    let kept = retained_files(files, primary);
    let perm = choose|perm: Seq<int>|
        #![trigger perm.len()]
        {
            &&& perm.len() == kept.len()
            &&& ordered.len() == kept.len()
            &&& (forall|k: int| 0 <= k < perm.len() ==> 0 <= #[trigger] perm[k] < kept.len())
            &&& (forall|k: int, l: int| 0 <= k < l < perm.len() ==> #[trigger] perm[k] != #[trigger] perm[l])
            &&& (forall|k: int| 0 <= k < ordered.len() ==> #[trigger] ordered[k] == kept[perm[k]])
            &&& (forall|k: int, l: int|
                0 <= k < l < ordered.len() ==> time_rank((#[trigger] ordered[k]).2) <= time_rank((#[trigger] ordered[l]).2))
            &&& (forall|k: int, l: int|
                0 <= k < l < ordered.len() && time_rank((#[trigger] ordered[k]).2) == time_rank((#[trigger] ordered[l]).2)
                    ==> perm[k] < perm[l])
        };
    let paths = ordered.map_values(|f: (Seq<char>, bool, Option<u64>)| f.0);
    let fo = first_occurrences(paths);
    lemma_first_occurrences(paths);
    let t = trial_list(primary, ordered);
    assert forall|i: int| 1 <= i < t.len() implies (#[trigger] t[i]).1 && t[i].0 != primary by {
        assert(t[i] == (fo[i - 1], true));
        assert(paths.contains(fo[i - 1]));
        let k = choose|k: int| 0 <= k < paths.len() && paths[k] == fo[i - 1];
        assert(ordered[k] == kept[perm[k]]);
        files.lemma_filter_pred(keep_file(primary), perm[k]);
    }
    assert forall|i: int, j: int| 1 <= i < j < t.len() implies (#[trigger] t[i]).0 != (#[trigger] t[j]).0 by {
        assert(t[i] == (fo[i - 1], true) && t[j] == (fo[j - 1], true));
    }
}

/// A plug-in as the catalogue lists it.
pub struct VstPluginEntry {
    pub name: String,
    pub path: String,
    pub format: String,
    pub kind: String,
    pub architecture: String,
    pub supported: bool,
    pub unsupported_reason: Option<String>,
    pub midi_compatible: Option<bool>,
    pub has_editor: bool,
    pub channel_layout: Option<String>,
    pub class_uid: Option<String>,
    pub file_modified_ms: Option<u64>,
    pub file_size: Option<u64>,
    pub host_abi_version: u32,
}

/// Starts the document for capturing the state of the catalogued plug-in
/// `entry`, whose catalogue id is `id`.
pub fn new_state_document_for(entry: &VstPluginEntry, id: &str, native_state_disabled: bool) -> (r: StateDocument)
    ensures
        r@ == spec_new_document(
            id@,
            match entry.class_uid {
                Some(u) => Some(u@),
                None => None,
            },
            entry.format@,
            entry.architecture@,
            entry.file_modified_ms,
            entry.file_size,
            native_state_disabled,
        ),
{
    let uid = match &entry.class_uid {
        Some(u) => Some(u.as_str()),
        None => None,
    };
    new_state_document(
        id,
        uid,
        entry.format.as_str(),
        entry.architecture.as_str(),
        entry.file_modified_ms,
        entry.file_size,
        native_state_disabled,
    )
}

} // verus!
