//! Persisted plug-in state: the versioned, checksummed document format that
//! stores a plug-in's native state blobs and parameter values, and the
//! older formats that it replaces.
//!
//! Parameter values are IEEE-754 single-precision numbers; the codec only
//! moves their bit patterns, so they are held here as `u32` bits.

use vstd::prelude::*;
use vstd::utf8::{valid_utf8, decode_utf8, encode_utf8};
use crate::fnv::{fnv1a64, spec_fnv1a64};
use crate::le::{le16, le32, le64, from_le16, from_le32, from_le64, push_bytes, push_u16, push_u32, push_u64};

verus! {

/// The four bytes "OSVS" that open every versioned state file.
pub open spec fn state_magic() -> Seq<u8> {
    seq![0x4fu8, 0x53u8, 0x56u8, 0x53u8]
}

pub const STATE_VERSION_V1: u8 = 1;
pub const STATE_VERSION_V2: u8 = 2;
pub const STATE_VERSION_V3: u8 = 3;
pub const STATE_KIND_CHUNK: u8 = 0;
pub const STATE_KIND_PARAMS: u8 = 1;
pub const FORMAT_VST2: u8 = 2;
pub const FORMAT_VST3: u8 = 3;
pub const ARCH_X86: u8 = 1;
pub const ARCH_X64: u8 = 2;
/// VST3 parameter flag: the host must not write this parameter.
pub const VST3_PARAMETER_IS_READ_ONLY: u32 = 2;
pub const MAX_STATE_BYTES: usize = 268435456;
pub const MAX_PARAMETERS: usize = 65536;
pub const MAX_TEXT_BYTES: usize = 65536;

/// How the state of a plug-in is captured and restored.
#[derive(Clone, Copy, Debug, PartialEq, Eq, Structural)]
pub enum StatePolicy {
    NativePreferred,
    TrackedParametersOnly,
    StateUnsupported,
    LegacyFullSnapshot,
}

pub open spec fn policy_code(p: StatePolicy) -> u16 {
    match p {
        StatePolicy::NativePreferred => 0,
        StatePolicy::TrackedParametersOnly => 1,
        StatePolicy::StateUnsupported => 2,
        StatePolicy::LegacyFullSnapshot => 3,
    }
}

pub open spec fn spec_policy_from_code(code: u16) -> Option<StatePolicy> {
    if code == 0 {
        Some(StatePolicy::NativePreferred)
    } else if code == 1 {
        Some(StatePolicy::TrackedParametersOnly)
    } else if code == 2 {
        Some(StatePolicy::StateUnsupported)
    } else if code == 3 {
        Some(StatePolicy::LegacyFullSnapshot)
    } else {
        None
    }
}

impl StatePolicy {
    /// The policy that `value` encodes, if any.
    pub fn from_u16(value: u16) -> (r: Option<StatePolicy>)
        ensures
            r == spec_policy_from_code(value),
    {
        match value {
            0 => Some(StatePolicy::NativePreferred),
            1 => Some(StatePolicy::TrackedParametersOnly),
            2 => Some(StatePolicy::StateUnsupported),
            3 => Some(StatePolicy::LegacyFullSnapshot),
            _ => None,
        }
    }

    /// The number that encodes this policy.
    pub fn code(self) -> (r: u16)
        ensures
            r == policy_code(self),
    {
        match self {
            StatePolicy::NativePreferred => 0,
            StatePolicy::TrackedParametersOnly => 1,
            StatePolicy::StateUnsupported => 2,
            StatePolicy::LegacyFullSnapshot => 3,
        }
    }
}

/// One saved parameter value.
pub struct StateParameter {
    pub id: u32,
    pub index: u32,
    pub flags: u32,
    pub name: String,
    /// Bit pattern of the single-precision value.
    pub value_bits: u32,
}

/// Mathematical form of a saved parameter.
pub struct ParameterModel {
    pub id: u32,
    pub index: u32,
    pub flags: u32,
    pub name: Seq<char>,
    pub value_bits: u32,
}

impl View for StateParameter {
    type V = ParameterModel;

    open spec fn view(&self) -> ParameterModel {
        ParameterModel {
            id: self.id,
            index: self.index,
            flags: self.flags,
            name: self.name@,
            value_bits: self.value_bits,
        }
    }
}

/// A versioned state document.
pub struct StateDocument {
    pub state_version: u8,
    pub state_policy: StatePolicy,
    pub plugin_id: String,
    pub class_uid: String,
    pub format: u8,
    pub architecture: u8,
    pub file_modified_ms: u64,
    pub file_size: u64,
    pub program: i32,
    pub vst2_bank: Vec<u8>,
    pub vst2_preset: Vec<u8>,
    pub vst3_state: Vec<u8>,
    pub parameters: Vec<StateParameter>,
}

/// Mathematical form of a state document.
pub struct DocumentModel {
    pub state_version: u8,
    pub state_policy: StatePolicy,
    pub plugin_id: Seq<char>,
    pub class_uid: Seq<char>,
    pub format: u8,
    pub architecture: u8,
    pub file_modified_ms: u64,
    pub file_size: u64,
    pub program: i32,
    pub vst2_bank: Seq<u8>,
    pub vst2_preset: Seq<u8>,
    pub vst3_state: Seq<u8>,
    pub parameters: Seq<ParameterModel>,
}

impl View for StateDocument {
    type V = DocumentModel;

    open spec fn view(&self) -> DocumentModel {
        DocumentModel {
            state_version: self.state_version,
            state_policy: self.state_policy,
            plugin_id: self.plugin_id@,
            class_uid: self.class_uid@,
            format: self.format,
            architecture: self.architecture,
            file_modified_ms: self.file_modified_ms,
            file_size: self.file_size,
            program: self.program,
            vst2_bank: self.vst2_bank@,
            vst2_preset: self.vst2_preset@,
            vst3_state: self.vst3_state@,
            parameters: self.parameters@.map_values(|p: StateParameter| p@),
        }
    }
}

pub open spec fn sat_u32(n: nat) -> u32 {
    if n > u32::MAX {
        u32::MAX
    } else {
        n as u32
    }
}

pub open spec fn sat_u16(n: nat) -> u16 {
    if n > u16::MAX {
        u16::MAX
    } else {
        n as u16
    }
}

/// A length-prefixed byte string; the prefix saturates at `u32::MAX`.
pub open spec fn spec_blob(b: Seq<u8>) -> Seq<u8> {
    le32(sat_u32(b.len())) + b
}

/// One parameter: id, index, flags, value bits, then the UTF-8 name with a
/// 16-bit length prefix (names are cut at 65535 bytes).
pub open spec fn spec_encode_parameter(p: ParameterModel) -> Seq<u8> {
    let name = encode_utf8(p.name);
    let n = sat_u16(name.len());
    le32(p.id) + le32(p.index) + le32(p.flags) + le32(p.value_bits) + le16(n) + name.take(
        n as int,
    )
}

pub open spec fn spec_encode_parameters(ps: Seq<ParameterModel>) -> Seq<u8>
    decreases ps.len(),
{
    if ps.len() == 0 {
        Seq::empty()
    } else {
        spec_encode_parameters(ps.drop_last()) + spec_encode_parameter(ps.last())
    }
}

/// The body of a document: header fields, identity strings, native blobs
/// and the parameter list.
pub open spec fn spec_encode_body(d: DocumentModel) -> Seq<u8> {
    seq![d.format, d.architecture] + le16(policy_code(d.state_policy)) + le64(d.file_modified_ms)
        + le64(d.file_size) + le32(d.program as u32) + spec_blob(encode_utf8(d.plugin_id))
        + spec_blob(encode_utf8(d.class_uid)) + spec_blob(d.vst2_bank) + spec_blob(d.vst2_preset)
        + spec_blob(d.vst3_state) + le32(sat_u32(d.parameters.len())) + spec_encode_parameters(
        d.parameters,
    )
}

/// A whole document file: magic, version 3, body length, body, and the
/// FNV-1a checksum of the body.
pub open spec fn spec_encode_document(d: DocumentModel) -> Seq<u8> {
    let body = spec_encode_body(d);
    state_magic() + seq![STATE_VERSION_V3] + le32(sat_u32(body.len())) + body + le64(
        spec_fnv1a64(body),
    )
}

fn saturating_u32(n: usize) -> (r: u32)
    ensures
        r == sat_u32(n as nat),
{
    if n > 0xffff_ffffusize {
        0xffff_ffffu32
    } else {
        n as u32
    }
}

fn text_bytes(s: &String) -> (b: &[u8])
    ensures
        b@ == encode_utf8(s@),
{
    s.as_str().as_bytes()
}

fn push_blob(out: &mut Vec<u8>, value: &[u8])
    ensures
        final(out)@ == old(out)@ + spec_blob(value@),
{
    push_u32(out, saturating_u32(value.len()));
    push_bytes(out, value);
    assert(out@ =~= old(out)@ + spec_blob(value@));
}

fn push_prefix(out: &mut Vec<u8>, bytes: &[u8], n: usize)
    requires
        n <= bytes@.len(),
    ensures
        final(out)@ == old(out)@ + bytes@.take(n as int),
{
    let ghost start = out@;
    let mut i: usize = 0;
    while i < n
        invariant
            i <= n <= bytes@.len(),
            out@ == start + bytes@.take(i as int),
        decreases n - i,
    {
        out.push(bytes[i]);
        i = i + 1;
        assert(out@ =~= start + bytes@.take(i as int));
    }
}

fn push_parameter(out: &mut Vec<u8>, parameter: &StateParameter)
    ensures
        final(out)@ == old(out)@ + spec_encode_parameter(parameter@),
{
    push_u32(out, parameter.id);
    push_u32(out, parameter.index);
    push_u32(out, parameter.flags);
    push_u32(out, parameter.value_bits);
    let name = text_bytes(&parameter.name);
    let n: usize = if name.len() > 0xffff {
        0xffff
    } else {
        name.len()
    };
    push_u16(out, n as u16);
    push_prefix(out, name, n);
    assert(out@ =~= old(out)@ + spec_encode_parameter(parameter@));
}

/// Encodes `document` as a version-3 state file.
pub fn encode_state_document(document: &StateDocument) -> (out: Vec<u8>)
    ensures
        out@ == spec_encode_document(document@),
{
    let mut body: Vec<u8> = Vec::new();
    body.push(document.format);
    body.push(document.architecture);
    push_u16(&mut body, document.state_policy.code());
    push_u64(&mut body, document.file_modified_ms);
    push_u64(&mut body, document.file_size);
    push_u32(&mut body, document.program as u32);
    push_blob(&mut body, text_bytes(&document.plugin_id));
    push_blob(&mut body, text_bytes(&document.class_uid));
    push_blob(&mut body, document.vst2_bank.as_slice());
    push_blob(&mut body, document.vst2_preset.as_slice());
    push_blob(&mut body, document.vst3_state.as_slice());
    push_u32(&mut body, saturating_u32(document.parameters.len()));
    let ghost head = body@;
    let ghost params = document@.parameters;
    let mut i: usize = 0;
    while i < document.parameters.len()
        invariant
            i <= document.parameters@.len(),
            params == document@.parameters,
            body@ == head + spec_encode_parameters(params.take(i as int)),
        decreases document.parameters@.len() - i,
    {
        push_parameter(&mut body, &document.parameters[i]);
        assert(params.take(i as int + 1).drop_last() =~= params.take(i as int));
        i = i + 1;
    }
    assert(params.take(i as int) =~= params);
    assert(body@ =~= spec_encode_body(document@));
    let mut out: Vec<u8> = Vec::new();
    out.push(0x4f);
    out.push(0x53);
    out.push(0x56);
    out.push(0x53);
    out.push(STATE_VERSION_V3);
    push_u32(&mut out, saturating_u32(body.len()));
    push_bytes(&mut out, body.as_slice());
    push_u64(&mut out, fnv1a64(body.as_slice()));
    assert(out@ =~= spec_encode_document(document@));
    out
}


pub open spec fn sp_take(data: Seq<u8>, off: int, n: int) -> Option<(Seq<u8>, int)> {
    if 0 <= off && 0 <= n && off + n <= data.len() {
        Some((data.subrange(off, off + n), off + n))
    } else {
        None
    }
}

pub open spec fn sp_u8(data: Seq<u8>, off: int) -> Option<(u8, int)> {
    if 0 <= off && off < data.len() {
        Some((data[off], off + 1))
    } else {
        None
    }
}

pub open spec fn sp_u16(data: Seq<u8>, off: int) -> Option<(u16, int)> {
    match sp_take(data, off, 2) {
        Some((b, o)) => Some((from_le16(b), o)),
        None => None,
    }
}

pub open spec fn sp_u32(data: Seq<u8>, off: int) -> Option<(u32, int)> {
    match sp_take(data, off, 4) {
        Some((b, o)) => Some((from_le32(b), o)),
        None => None,
    }
}

pub open spec fn sp_u64(data: Seq<u8>, off: int) -> Option<(u64, int)> {
    match sp_take(data, off, 8) {
        Some((b, o)) => Some((from_le64(b), o)),
        None => None,
    }
}

/// A length-prefixed byte string of at most `limit` bytes.
pub open spec fn sp_blob(data: Seq<u8>, off: int, limit: int) -> Option<(Seq<u8>, int)> {
    match sp_u32(data, off) {
        Some((len, o)) => if len > limit {
            None
        } else {
            sp_take(data, o, len as int)
        },
        None => None,
    }
}

/// A length-prefixed UTF-8 string of at most `MAX_TEXT_BYTES` bytes.
pub open spec fn sp_text(data: Seq<u8>, off: int) -> Option<(Seq<char>, int)> {
    match sp_blob(data, off, MAX_TEXT_BYTES as int) {
        Some((b, o)) => if valid_utf8(b) {
            Some((decode_utf8(b), o))
        } else {
            None
        },
        None => None,
    }
}

/// The bit pattern of a finite single-precision value (exponent not all ones).
pub open spec fn bits_finite(bits: u32) -> bool {
    bits & 0x7f80_0000 != 0x7f80_0000
}

pub open spec fn sp_parameter(data: Seq<u8>, off: int) -> Option<(ParameterModel, int)> {
    match sp_u32(data, off) {
        None => None,
        Some((id, o1)) => match sp_u32(data, o1) {
            None => None,
            Some((index, o2)) => match sp_u32(data, o2) {
                None => None,
                Some((flags, o3)) => match sp_u32(data, o3) {
                    None => None,
                    Some((bits, o4)) => if !bits_finite(bits) {
                        None
                    } else {
                        match sp_u16(data, o4) {
                            None => None,
                            Some((n, o5)) => match sp_take(data, o5, n as int) {
                                None => None,
                                Some((name, o6)) => if valid_utf8(name) {
                                    Some(
                                        (
                                            ParameterModel {
                                                id,
                                                index,
                                                flags,
                                                name: decode_utf8(name),
                                                value_bits: bits,
                                            },
                                            o6,
                                        ),
                                    )
                                } else {
                                    None
                                },
                            },
                        }
                    },
                },
            },
        },
    }
}

pub open spec fn sp_parameters(data: Seq<u8>, off: int, count: nat) -> Option<
    (Seq<ParameterModel>, int),
>
    decreases count,
{
    if count == 0 {
        Some((Seq::empty(), off))
    } else {
        match sp_parameters(data, off, (count - 1) as nat) {
            Some((ps, o)) => match sp_parameter(data, o) {
                Some((p, o2)) => Some((ps.push(p), o2)),
                None => None,
            },
            None => None,
        }
    }
}

/// The header fields of a body, up to the identity strings.
pub open spec fn sp_header(body: Seq<u8>, version: u8) -> Option<
    (u8, u8, StatePolicy, u64, u64, i32, int),
> {
    match sp_u8(body, 0) {
        None => None,
        Some((format, o1)) => match sp_u8(body, o1) {
            None => None,
            Some((architecture, o2)) => match sp_u16(body, o2) {
                None => None,
                Some((code, o3)) => match (if version == STATE_VERSION_V2 {
                    Some(StatePolicy::LegacyFullSnapshot)
                } else {
                    spec_policy_from_code(code)
                }) {
                    None => None,
                    Some(policy) => match sp_u64(body, o3) {
                        None => None,
                        Some((modified, o4)) => match sp_u64(body, o4) {
                            None => None,
                            Some((size, o5)) => match sp_u32(body, o5) {
                                None => None,
                                Some((program, o6)) => Some(
                                    (format, architecture, policy, modified, size, program as i32, o6),
                                ),
                            },
                        },
                    },
                },
            },
        },
    }
}

/// Decodes a document body written by `version` (2 or 3); every byte must
/// be used.
pub open spec fn spec_decode_body(body: Seq<u8>, version: u8) -> Option<DocumentModel> {
    match sp_header(body, version) {
        None => None,
        Some((format, architecture, policy, modified, size, program, o6)) => match sp_text(body, o6) {
            None => None,
            Some((plugin_id, o7)) => match sp_text(body, o7) {
                None => None,
                Some((class_uid, o8)) => match sp_blob(body, o8, MAX_STATE_BYTES as int) {
                    None => None,
                    Some((bank, o9)) => match sp_blob(body, o9, MAX_STATE_BYTES as int) {
                        None => None,
                        Some((preset, o10)) => match sp_blob(body, o10, MAX_STATE_BYTES as int) {
                            None => None,
                            Some((vst3, o11)) => match sp_u32(body, o11) {
                                None => None,
                                Some((count, o12)) => if count > MAX_PARAMETERS {
                                    None
                                } else {
                                    match sp_parameters(body, o12, count as nat) {
                                        None => None,
                                        Some((parameters, o13)) => if o13 != body.len() {
                                            None
                                        } else {
                                            Some(
                                                DocumentModel {
                                                    state_version: version,
                                                    state_policy: policy,
                                                    plugin_id,
                                                    class_uid,
                                                    format,
                                                    architecture,
                                                    file_modified_ms: modified,
                                                    file_size: size,
                                                    program,
                                                    vst2_bank: bank,
                                                    vst2_preset: preset,
                                                    vst3_state: vst3,
                                                    parameters,
                                                },
                                            )
                                        },
                                    }
                                },
                            },
                        },
                    },
                },
            },
        },
    }
}

/// Decodes a version-2 or version-3 document file: magic, version, a body
/// length of at most `MAX_STATE_BYTES` that accounts for the whole file, a
/// checksum that matches the body, and a body that decodes.
pub open spec fn spec_decode_document(data: Seq<u8>) -> Option<DocumentModel> {
    if data.len() < 17 || data.take(4) != state_magic() || !(data[4] == STATE_VERSION_V2
        || data[4] == STATE_VERSION_V3) {
        None
    } else {
        let body_len = from_le32(data.subrange(5, 9)) as int;
        if body_len > MAX_STATE_BYTES || data.len() != 9 + body_len + 8 {
            None
        } else {
            let body = data.subrange(9, 9 + body_len);
            if spec_fnv1a64(body) != from_le64(data.subrange(9 + body_len, data.len() as int)) {
                None
            } else {
                spec_decode_body(body, data[4])
            }
        }
    }
}

/// Trusted: `String::from_utf8` accepts exactly the well-formed UTF-8 byte
/// strings and yields the characters they encode.
#[verifier::external_body]
fn string_from_utf8(bytes: Vec<u8>) -> (r: Option<String>)
    ensures
        r is Some <==> valid_utf8(bytes@),
        r matches Some(s) ==> s@ == decode_utf8(bytes@),
{
    String::from_utf8(bytes).ok()
}

/// A cursor over a byte slice.
struct StateReader<'a> {
    data: &'a [u8],
    offset: usize,
}

impl<'a> StateReader<'a> {
    fn take(&mut self, count: usize) -> (r: Option<Vec<u8>>)
        requires
            old(self).offset <= old(self).data@.len(),
        ensures
            final(self).data@ == old(self).data@,
            final(self).offset <= final(self).data@.len(),
            match sp_take(old(self).data@, old(self).offset as int, count as int) {
                Some((b, o)) => r matches Some(v) && v@ == b && final(self).offset == o,
                None => r is None && final(self).offset == old(self).offset,
            },
    {
        if self.data.len() - self.offset < count {
            return None;
        }
        let out = body_from(self.data, self.offset, count);
        self.offset = self.offset + count;
        Some(out)
    }

    fn u8(&mut self) -> (r: Option<u8>)
        requires
            old(self).offset <= old(self).data@.len(),
        ensures
            final(self).data@ == old(self).data@,
            final(self).offset <= final(self).data@.len(),
            match sp_u8(old(self).data@, old(self).offset as int) {
                Some((v, o)) => r == Some(v) && final(self).offset == o,
                None => r is None && final(self).offset == old(self).offset,
            },
    {
        if self.offset >= self.data.len() {
            return None;
        }
        let v = self.data[self.offset];
        self.offset = self.offset + 1;
        Some(v)
    }

    fn u16(&mut self) -> (r: Option<u16>)
        requires
            old(self).offset <= old(self).data@.len(),
        ensures
            final(self).data@ == old(self).data@,
            final(self).offset <= final(self).data@.len(),
            match sp_u16(old(self).data@, old(self).offset as int) {
                Some((v, o)) => r == Some(v) && final(self).offset == o,
                None => r is None && final(self).offset == old(self).offset,
            },
    {
        if self.data.len() - self.offset < 2 {
            return None;
        }
        let o = self.offset;
        let v: u16 = ((self.data[o] as u16) | ((self.data[o + 1] as u16) << 8)) as u16;
        proof {
            let b = self.data@.subrange(o as int, o + 2);
            assert(b[0] == self.data@[o as int] && b[1] == self.data@[o + 1]);
        }
        self.offset = o + 2;
        Some(v)
    }

    fn u32(&mut self) -> (r: Option<u32>)
        requires
            old(self).offset <= old(self).data@.len(),
        ensures
            final(self).data@ == old(self).data@,
            final(self).offset <= final(self).data@.len(),
            match sp_u32(old(self).data@, old(self).offset as int) {
                Some((v, o)) => r == Some(v) && final(self).offset == o,
                None => r is None && final(self).offset == old(self).offset,
            },
    {
        if self.data.len() - self.offset < 4 {
            return None;
        }
        let o = self.offset;
        let v: u32 = ((self.data[o] as u32) | ((self.data[o + 1] as u32) << 8) | ((self.data[o
            + 2] as u32) << 16) | ((self.data[o + 3] as u32) << 24)) as u32;
        proof {
            let b = self.data@.subrange(o as int, o + 4);
            assert(b[0] == self.data@[o as int] && b[1] == self.data@[o + 1] && b[2]
                == self.data@[o + 2] && b[3] == self.data@[o + 3]);
        }
        self.offset = o + 4;
        Some(v)
    }

    fn u64(&mut self) -> (r: Option<u64>)
        requires
            old(self).offset <= old(self).data@.len(),
        ensures
            final(self).data@ == old(self).data@,
            final(self).offset <= final(self).data@.len(),
            match sp_u64(old(self).data@, old(self).offset as int) {
                Some((v, o)) => r == Some(v) && final(self).offset == o,
                None => r is None && final(self).offset == old(self).offset,
            },
    {
        if self.data.len() - self.offset < 8 {
            return None;
        }
        let o = self.offset;
        let d = self.data;
        let v: u64 = ((d[o] as u64) | ((d[o + 1] as u64) << 8) | ((d[o + 2] as u64) << 16) | ((
        d[o + 3] as u64) << 24) | ((d[o + 4] as u64) << 32) | ((d[o + 5] as u64) << 40) | ((d[o
            + 6] as u64) << 48) | ((d[o + 7] as u64) << 56)) as u64;
        proof {
            let b = d@.subrange(o as int, o + 8);
            assert(b[0] == d@[o as int] && b[1] == d@[o + 1] && b[2] == d@[o + 2] && b[3] == d@[o
                + 3] && b[4] == d@[o + 4] && b[5] == d@[o + 5] && b[6] == d@[o + 6] && b[7]
                == d@[o + 7]);
        }
        self.offset = o + 8;
        Some(v)
    }

    fn blob(&mut self, limit: usize) -> (r: Option<Vec<u8>>)
        requires
            old(self).offset <= old(self).data@.len(),
        ensures
            final(self).data@ == old(self).data@,
            final(self).offset <= final(self).data@.len(),
            match sp_blob(old(self).data@, old(self).offset as int, limit as int) {
                Some((b, o)) => r matches Some(v) && v@ == b && final(self).offset == o,
                None => r is None,
            },
    {
        let len = self.u32()?;
        if len as usize > limit {
            return None;
        }
        self.take(len as usize)
    }

    fn text(&mut self) -> (r: Option<String>)
        requires
            old(self).offset <= old(self).data@.len(),
        ensures
            final(self).data@ == old(self).data@,
            final(self).offset <= final(self).data@.len(),
            match sp_text(old(self).data@, old(self).offset as int) {
                Some((t, o)) => r matches Some(s) && s@ == t && final(self).offset == o,
                None => r is None,
            },
    {
        let bytes = self.blob(MAX_TEXT_BYTES)?;
        string_from_utf8(bytes)
    }

    fn parameter(&mut self) -> (r: Option<StateParameter>)
        requires
            old(self).offset <= old(self).data@.len(),
        ensures
            final(self).data@ == old(self).data@,
            final(self).offset <= final(self).data@.len(),
            match sp_parameter(old(self).data@, old(self).offset as int) {
                Some((p, o)) => r matches Some(x) && x@ == p && final(self).offset == o,
                None => r is None,
            },
    {
        let id = self.u32()?;
        let index = self.u32()?;
        let flags = self.u32()?;
        let value_bits = self.u32()?;
        if value_bits & 0x7f80_0000 == 0x7f80_0000 {
            return None;
        }
        let n = self.u16()?;
        let name_bytes = self.take(n as usize)?;
        let name = string_from_utf8(name_bytes)?;
        Some(StateParameter { id, index, flags, name, value_bits })
    }
}

proof fn lemma_parameters_none_stays(data: Seq<u8>, off: int, i: nat, n: nat)
    requires
        i <= n,
        sp_parameters(data, off, i) is None,
    ensures
        sp_parameters(data, off, n) is None,
    decreases n - i,
{
    if n > i {
        lemma_parameters_none_stays(data, off, i, (n - 1) as nat);
    }
}

fn body_from(data: &[u8], start: usize, len: usize) -> (r: Vec<u8>)
    requires
        start + len <= data@.len(),
    ensures
        r@ == data@.subrange(start as int, start + len),
{
    let n = data.len();
    let mut out: Vec<u8> = Vec::new();
    let mut i: usize = 0;
    while i < len
        invariant
            n == data@.len(),
            start + len <= data@.len(),
            i <= len,
            out@ == data@.subrange(start as int, start + i),
        decreases len - i,
    {
        out.push(data[start + i]);
        i = i + 1;
        assert(out@ =~= data@.subrange(start as int, start + i));
    }
    out
}

fn decode_body(body: &[u8], version: u8) -> (r: Option<StateDocument>)
    ensures
        match spec_decode_body(body@, version) {
            Some(d) => r matches Some(x) && x@ == d,
            None => r is None,
        },
{
    let mut reader = StateReader { data: body, offset: 0 };
    let format = reader.u8()?;
    let architecture = reader.u8()?;
    let encoded_policy = reader.u16()?;
    let state_policy = if version == STATE_VERSION_V2 {
        StatePolicy::LegacyFullSnapshot
    } else {
        StatePolicy::from_u16(encoded_policy)?
    };
    let file_modified_ms = reader.u64()?;
    let file_size = reader.u64()?;
    let program_bits = reader.u32()?;
    let program = #[verifier::truncate] (program_bits as i32);
    let plugin_id = reader.text()?;
    let class_uid = reader.text()?;
    let vst2_bank = reader.blob(MAX_STATE_BYTES)?;
    let vst2_preset = reader.blob(MAX_STATE_BYTES)?;
    let vst3_state = reader.blob(MAX_STATE_BYTES)?;
    let parameter_count = reader.u32()? as usize;
    if parameter_count > MAX_PARAMETERS {
        return None;
    }
    let ghost o12 = reader.offset as int;
    let mut parameters: Vec<StateParameter> = Vec::new();
    let mut i: usize = 0;
    while i < parameter_count
        invariant
            reader.data@ == body@,
            reader.offset <= reader.data@.len(),
            i <= parameter_count,
            sp_parameters(body@, o12, i as nat) == Some(
                (parameters@.map_values(|p: StateParameter| p@), reader.offset as int),
            ),
            sp_parameters(body@, o12, parameter_count as nat) is None ==> spec_decode_body(
                body@,
                version,
            ) is None,
        decreases parameter_count - i,
    {
        let ghost before = parameters@.map_values(|p: StateParameter| p@);
        let ghost off_before = reader.offset as int;
        let p = match reader.parameter() {
            Some(p) => p,
            None => {
                proof {
                    assert(sp_parameter(body@, off_before) is None);
                    assert(sp_parameters(body@, o12, (i + 1) as nat) is None);
                    lemma_parameters_none_stays(body@, o12, (i + 1) as nat, parameter_count as nat);
                }
                return None;
            },
        };
        parameters.push(p);
        assert(parameters@.map_values(|p: StateParameter| p@) =~= before.push(p@));
        i = i + 1;
    }
    if reader.offset != body.len() {
        return None;
    }
    Some(
        StateDocument {
            state_version: version,
            state_policy,
            plugin_id,
            class_uid,
            format,
            architecture,
            file_modified_ms,
            file_size,
            program,
            vst2_bank,
            vst2_preset,
            vst3_state,
            parameters,
        },
    )
}

/// Decodes a version-2 or version-3 state document.
pub fn decode_document(data: &[u8]) -> (r: Option<StateDocument>)
    ensures
        match spec_decode_document(data@) {
            Some(d) => r matches Some(x) && x@ == d,
            None => r is None,
        },
{
    if data.len() < 17 {
        return None;
    }
    if !(data[0] == 0x4f && data[1] == 0x53 && data[2] == 0x56 && data[3] == 0x53) {
        assert(data@.take(4)[0] == data@[0] && data@.take(4)[1] == data@[1] && data@.take(4)[2]
            == data@[2] && data@.take(4)[3] == data@[3]);
        assert(data@.take(4) != state_magic());
        return None;
    }
    assert(data@.take(4) =~= state_magic());
    let version = data[4];
    if !(version == STATE_VERSION_V2 || version == STATE_VERSION_V3) {
        return None;
    }
    let body_len = ((data[5] as u32) | ((data[6] as u32) << 8) | ((data[7] as u32) << 16) | ((
    data[8] as u32) << 24)) as u32;
    proof {
        let b = data@.subrange(5, 9);
        assert(b[0] == data@[5] && b[1] == data@[6] && b[2] == data@[7] && b[3] == data@[8]);
    }
    let body_len = body_len as usize;
    if body_len > MAX_STATE_BYTES || data.len() != 9 + body_len + 8 {
        return None;
    }
    let body = body_from(data, 9, body_len);
    let mut tail = StateReader { data, offset: 9 + body_len };
    let checksum = match tail.u64() {
        Some(v) => v,
        None => {
            return None;
        },
    };
    assert(data@.subrange(9 + body_len, 9 + body_len + 8) =~= data@.subrange(
        9 + body_len,
        data@.len() as int,
    ));
    if fnv1a64(body.as_slice()) != checksum {
        return None;
    }
    decode_body(body.as_slice(), version)
}

} // verus!

verus! {

/// What a state file holds.
pub enum SavedState {
    /// Bytes in no known format, handed to the plug-in as they are.
    Raw(Vec<u8>),
    /// A version-1 native chunk.
    Chunk(Vec<u8>),
    /// Version-1 parameter values, as single-precision bit patterns.
    Params(Vec<u32>),
    /// A version-2 or version-3 document.
    V2(StateDocument),
}

/// Mathematical form of a saved state.
pub enum SavedModel {
    Raw(Seq<u8>),
    Chunk(Seq<u8>),
    Params(Seq<u32>),
    V2(DocumentModel),
}

impl View for SavedState {
    type V = SavedModel;

    open spec fn view(&self) -> SavedModel {
        match self {
            SavedState::Raw(b) => SavedModel::Raw(b@),
            SavedState::Chunk(b) => SavedModel::Chunk(b@),
            SavedState::Params(v) => SavedModel::Params(v@),
            SavedState::V2(d) => SavedModel::V2(d@),
        }
    }
}

/// The version-1 parameter values in `data`: little-endian 32-bit words
/// from offset 10 on.
pub open spec fn v1_values(data: Seq<u8>, count: nat) -> Seq<u32> {
    Seq::new(count, |i: int| from_le32(data.subrange(10 + 4 * i, 14 + 4 * i)))
}

/// How `decode_state` reads a state file.
pub open spec fn spec_decode_state(data: Seq<u8>) -> SavedModel {
    match spec_decode_document(data) {
        Some(d) => SavedModel::V2(d),
        None => if data.len() < 6 || data.take(4) != state_magic() || data[4] != STATE_VERSION_V1 {
            SavedModel::Raw(data)
        } else if data[5] == STATE_KIND_CHUNK {
            SavedModel::Chunk(data.skip(6))
        } else if data[5] == STATE_KIND_PARAMS {
            if data.len() < 10 {
                SavedModel::Raw(data)
            } else {
                let count = from_le32(data.subrange(6, 10));
                if count > MAX_PARAMETERS || data.len() != 10 + 4 * count {
                    SavedModel::Raw(data)
                } else {
                    SavedModel::Params(v1_values(data, count as nat))
                }
            }
        } else {
            SavedModel::Raw(data)
        },
    }
}

/// A version-1 chunk file: magic, version 1, kind 0, then the chunk.
pub open spec fn spec_encode_chunk(data: Seq<u8>) -> Seq<u8> {
    state_magic() + seq![STATE_VERSION_V1, STATE_KIND_CHUNK] + data
}

pub open spec fn spec_encode_values(values: Seq<u32>) -> Seq<u8>
    decreases values.len(),
{
    if values.len() == 0 {
        Seq::empty()
    } else {
        spec_encode_values(values.drop_last()) + le32(values.last())
    }
}

/// A version-1 parameter file: magic, version 1, kind 1, the count as 32
/// bits, then each value's bits.
pub open spec fn spec_encode_params(values: Seq<u32>) -> Seq<u8> {
    state_magic() + seq![STATE_VERSION_V1, STATE_KIND_PARAMS] + le32(values.len() as u32)
        + spec_encode_values(values)
}

fn copy_from(data: &[u8], start: usize) -> (r: Vec<u8>)
    requires
        start <= data@.len(),
    ensures
        r@ == data@.skip(start as int),
        start == 0 ==> r@ == data@,
{
    let r = body_from(data, start, data.len() - start);
    assert(r@ =~= data@.skip(start as int));
    assert(data@.skip(0) =~= data@);
    r
}

fn read_le32(data: &[u8], at: usize) -> (v: u32)
    requires
        at + 4 <= data@.len(),
    ensures
        v == from_le32(data@.subrange(at as int, at + 4)),
{
    let v: u32 = ((data[at] as u32) | ((data[at + 1] as u32) << 8) | ((data[at + 2] as u32) << 16)
        | ((data[at + 3] as u32) << 24)) as u32;
    proof {
        let b = data@.subrange(at as int, at + 4);
        assert(b[0] == data@[at as int] && b[1] == data@[at + 1] && b[2] == data@[at + 2] && b[3]
            == data@[at + 3]);
    }
    v
}

/// Reads a state file of any version; what is not a well-formed versioned
/// file comes back as `Raw`.
pub fn decode_state(data: &[u8]) -> (r: SavedState)
    ensures
        r@ == spec_decode_state(data@),
{
    if let Some(document) = decode_document(data) {
        return SavedState::V2(document);
    }
    if data.len() < 6 {
        return SavedState::Raw(copy_from(data, 0));
    }
    if !(data[0] == 0x4f && data[1] == 0x53 && data[2] == 0x56 && data[3] == 0x53) || data[4]
        != STATE_VERSION_V1 {
        proof {
            if data@.take(4) == state_magic() {
                assert(data@.take(4)[0] == data@[0] && data@.take(4)[1] == data@[1]
                    && data@.take(4)[2] == data@[2] && data@.take(4)[3] == data@[3]);
            }
        }
        return SavedState::Raw(copy_from(data, 0));
    }
    assert(data@.take(4) =~= state_magic());
    if data[5] == STATE_KIND_CHUNK {
        SavedState::Chunk(copy_from(data, 6))
    } else if data[5] == STATE_KIND_PARAMS {
        if data.len() < 10 {
            return SavedState::Raw(copy_from(data, 0));
        }
        let count = read_le32(data, 6);
        if count as usize > MAX_PARAMETERS || data.len() != 10 + 4 * (count as usize) {
            return SavedState::Raw(copy_from(data, 0));
        }
        let n = count as usize;
        let mut values: Vec<u32> = Vec::new();
        let mut i: usize = 0;
        while i < n
            invariant
                n == count,
                count <= MAX_PARAMETERS,
                data@.len() == 10 + 4 * n,
                i <= n,
                values@ == v1_values(data@, count as nat).take(i as int),
            decreases n - i,
        {
            let v = read_le32(data, 10 + 4 * i);
            values.push(v);
            i = i + 1;
            assert(values@ =~= v1_values(data@, count as nat).take(i as int));
        }
        assert(values@ =~= v1_values(data@, count as nat));
        SavedState::Params(values)
    } else {
        SavedState::Raw(copy_from(data, 0))
    }
}

/// Writes a version-1 chunk file.
pub fn encode_state_chunk(data: &[u8]) -> (out: Vec<u8>)
    ensures
        out@ == spec_encode_chunk(data@),
{
    let mut out: Vec<u8> = Vec::new();
    out.push(0x4f);
    out.push(0x53);
    out.push(0x56);
    out.push(0x53);
    out.push(STATE_VERSION_V1);
    out.push(STATE_KIND_CHUNK);
    push_bytes(&mut out, data);
    assert(out@ =~= spec_encode_chunk(data@));
    out
}

/// Writes a version-1 parameter file; the count is the length truncated to
/// 32 bits.
pub fn encode_state_params(values: &[u32]) -> (out: Vec<u8>)
    ensures
        out@ == spec_encode_params(values@),
{
    let mut out: Vec<u8> = Vec::new();
    out.push(0x4f);
    out.push(0x53);
    out.push(0x56);
    out.push(0x53);
    out.push(STATE_VERSION_V1);
    out.push(STATE_KIND_PARAMS);
    push_u32(&mut out, values.len() as u32);
    let ghost head = out@;
    let mut i: usize = 0;
    while i < values.len()
        invariant
            i <= values@.len(),
            out@ == head + spec_encode_values(values@.take(i as int)),
        decreases values@.len() - i,
    {
        push_u32(&mut out, values[i]);
        assert(values@.take(i as int + 1).drop_last() =~= values@.take(i as int));
        i = i + 1;
    }
    assert(values@.take(i as int) =~= values@);
    assert(out@ =~= spec_encode_params(values@));
    out
}

} // verus!

verus! {

/// ASCII lower-casing of one byte.
pub open spec fn ascii_lower(b: u8) -> u8 {
    if 0x41 <= b <= 0x5a {
        (b + 0x20) as u8
    } else {
        b
    }
}

/// `a` and `b` are equal up to ASCII case.
pub open spec fn ascii_eq_ignore_case(a: Seq<u8>, b: Seq<u8>) -> bool {
    a.len() == b.len() && forall|i: int| 0 <= i < a.len() ==> ascii_lower(#[trigger] a[i]) == ascii_lower(b[i])
}

fn lower_byte(b: u8) -> (r: u8)
    ensures
        r == ascii_lower(b),
{
    if 0x41 <= b && b <= 0x5a {
        b + 0x20
    } else {
        b
    }
}

pub(crate) fn bytes_eq_ignore_ascii_case(x: &[u8], y: &[u8]) -> (r: bool)
    ensures
        r == ascii_eq_ignore_case(x@, y@),
{
    if x.len() != y.len() {
        return false;
    }
    let mut i: usize = 0;
    while i < x.len()
        invariant
            x@.len() == y@.len(),
            i <= x@.len(),
            forall|j: int| 0 <= j < i ==> ascii_lower(#[trigger] x@[j]) == ascii_lower(y@[j]),
        decreases x@.len() - i,
    {
        if lower_byte(x[i]) != lower_byte(y[i]) {
            assert(ascii_lower(x@[i as int]) != ascii_lower(y@[i as int]));
            return false;
        }
        i = i + 1;
    }
    true
}

/// Compares two strings byte by byte, ignoring ASCII case.
pub fn eq_ignore_ascii_case(a: &str, b: &str) -> (r: bool)
    ensures
        r == ascii_eq_ignore_case(encode_utf8(a@), encode_utf8(b@)),
{
    bytes_eq_ignore_ascii_case(a.as_bytes(), b.as_bytes())
}

/// The encoding of "VST3".
pub open spec fn vst3_format_name() -> Seq<u8> {
    seq![0x56u8, 0x53u8, 0x54u8, 0x33u8]
}

/// The policy for a plug-in: VST3 plug-ins whose native state is known to be
/// unreliable are restored from the parameters it reports; everything else prefers
/// native state.
pub open spec fn spec_state_policy_for_entry(format: Seq<char>, native_state_disabled: bool) -> StatePolicy {
    if ascii_eq_ignore_case(encode_utf8(format), vst3_format_name()) && native_state_disabled {
        StatePolicy::TrackedParametersOnly
    } else {
        StatePolicy::NativePreferred
    }
}

/// Chooses how a plug-in's state is captured and restored, from its format
/// name and whether its native VST3 state is known to be unreliable.
pub fn state_policy_for_entry(format: &str, native_state_disabled: bool) -> (p: StatePolicy)
    ensures
        p == spec_state_policy_for_entry(format@, native_state_disabled),
{
    let vst3: Vec<u8> = vec![0x56u8, 0x53u8, 0x54u8, 0x33u8];
    assert(vst3@ =~= vst3_format_name());
    if !bytes_eq_ignore_ascii_case(format.as_bytes(), vst3.as_slice()) {
        return StatePolicy::NativePreferred;
    }
    if native_state_disabled {
        StatePolicy::TrackedParametersOnly
    } else {
        StatePolicy::NativePreferred
    }
}

/// `min(x, usize::MAX)`.
pub open spec fn sat_usize(x: int) -> int {
    if x > usize::MAX {
        usize::MAX as int
    } else {
        x
    }
}

/// At least 512 values, nine tenths or more of them zero (products saturate
/// at `usize::MAX`).
pub open spec fn spec_dense_zero(total: usize, zero_like: usize) -> bool {
    total >= 512 && sat_usize(zero_like * 10) >= sat_usize(total * 9)
}

fn saturating_mul(x: usize, k: usize) -> (r: usize)
    ensures
        r == sat_usize(x * k),
{
    match x.checked_mul(k) {
        Some(v) => v,
        None => usize::MAX,
    }
}

/// A snapshot of mostly-zero values, which a known plug-in fault produces.
pub fn unsafe_dense_zero_values(total: usize, zero_like: usize) -> (r: bool)
    ensures
        r == spec_dense_zero(total, zero_like),
{
    total >= 512 && saturating_mul(zero_like, 10) >= saturating_mul(total, 9)
}

/// The value is within single-precision epsilon of zero: the magnitude bits
/// are at most those of 2^-23 (NaN never is).
pub open spec fn zero_like_bits(bits: u32) -> bool {
    bits & 0x7fff_ffff <= 0x3400_0000
}

/// Whether the value with these bits is within epsilon of zero.
pub fn is_zero_like(bits: u32) -> (r: bool)
    ensures
        r == zero_like_bits(bits),
{
    bits & 0x7fff_ffff <= 0x3400_0000
}

pub open spec fn count_zero_like(values: Seq<u32>) -> nat
    decreases values.len(),
{
    if values.len() == 0 {
        0
    } else {
        count_zero_like(values.drop_last()) + if zero_like_bits(values.last()) {
            1nat
        } else {
            0nat
        }
    }
}

proof fn lemma_count_zero_like_bound(values: Seq<u32>)
    ensures
        count_zero_like(values) <= values.len(),
    decreases values.len(),
{
    if values.len() > 0 {
        lemma_count_zero_like_bound(values.drop_last());
    }
}

fn count_zero_like_values(values: &[u32]) -> (n: usize)
    ensures
        n == count_zero_like(values@),
{
    let mut n: usize = 0;
    let mut i: usize = 0;
    while i < values.len()
        invariant
            i <= values@.len(),
            n == count_zero_like(values@.take(i as int)),
        decreases values@.len() - i,
    {
        proof {
            assert(values@.take(i as int + 1).drop_last() =~= values@.take(i as int));
            lemma_count_zero_like_bound(values@.take(i as int));
        }
        if is_zero_like(values[i]) {
            n = n + 1;
        }
        i = i + 1;
    }
    assert(values@.take(i as int) =~= values@);
    n
}

pub open spec fn parameter_bits(ps: Seq<ParameterModel>) -> Seq<u32> {
    ps.map_values(|p: ParameterModel| p.value_bits)
}

/// A legacy full snapshot with no native state that the plug-in fault
/// produced: only a concern for plug-ins restored from the parameters it reports.
pub open spec fn spec_unsafe_legacy_snapshot(d: DocumentModel, entry_policy: StatePolicy) -> bool {
    entry_policy == StatePolicy::TrackedParametersOnly && d.state_policy
        == StatePolicy::LegacyFullSnapshot && d.vst3_state.len() == 0 && d.parameters.len() >= 512
        && spec_dense_zero(
        d.parameters.len() as usize,
        count_zero_like(parameter_bits(d.parameters)) as usize,
    )
}

/// Whether `document` is a legacy exhaustive snapshot that must not be
/// restored into a plug-in whose policy is `entry_policy`.
pub fn unsafe_legacy_parameter_snapshot(document: &StateDocument, entry_policy: StatePolicy) -> (r: bool)
    ensures
        r == spec_unsafe_legacy_snapshot(document@, entry_policy),
{
    if entry_policy != StatePolicy::TrackedParametersOnly || document.state_policy
        != StatePolicy::LegacyFullSnapshot || document.vst3_state.len() != 0
        || document.parameters.len() < 512 {
        return false;
    }
    let mut bits: Vec<u32> = Vec::new();
    let mut i: usize = 0;
    while i < document.parameters.len()
        invariant
            i <= document.parameters@.len(),
            bits@ == parameter_bits(document@.parameters).take(i as int),
        decreases document.parameters@.len() - i,
    {
        bits.push(document.parameters[i].value_bits);
        i = i + 1;
        assert(bits@ =~= parameter_bits(document@.parameters).take(i as int));
    }
    assert(bits@ =~= parameter_bits(document@.parameters));
    let zero = count_zero_like_values(bits.as_slice());
    unsafe_dense_zero_values(document.parameters.len(), zero)
}

/// Whether version-1 parameter values must not be restored into a plug-in
/// whose policy is `entry_policy`.
pub fn unsafe_legacy_parameter_values(values: &[u32], entry_policy: StatePolicy) -> (r: bool)
    ensures
        r == (entry_policy == StatePolicy::TrackedParametersOnly && spec_dense_zero(
            values@.len() as usize,
            count_zero_like(values@) as usize,
        )),
{
    entry_policy == StatePolicy::TrackedParametersOnly && unsafe_dense_zero_values(
        values.len(),
        count_zero_like_values(values),
    )
}

} // verus!
