//! What the state codec promises across calls: a document written by the
//! encoder is read back unchanged.

use vstd::prelude::*;
use vstd::utf8::{valid_utf8, decode_utf8, encode_utf8, encode_utf8_valid_utf8, encode_utf8_decode_utf8};
use crate::fnv::spec_fnv1a64;
use crate::le::{le16, le32, le64, from_le16, from_le32, from_le64, lemma_le16_roundtrip, lemma_le32_roundtrip, lemma_le64_roundtrip};
use crate::state_codec::{
    DocumentModel, ParameterModel, StatePolicy, MAX_PARAMETERS, MAX_STATE_BYTES, MAX_TEXT_BYTES,
    STATE_VERSION_V2, STATE_VERSION_V3, STATE_VERSION_V1, STATE_KIND_CHUNK, STATE_KIND_PARAMS, SavedModel,
    spec_decode_state, spec_encode_chunk, spec_encode_params, spec_encode_values, v1_values,
    bits_finite, policy_code, sat_u32, sat_u16, spec_blob, spec_decode_body,
    spec_decode_document, spec_encode_body, spec_encode_document, spec_encode_parameter,
    spec_encode_parameters, spec_policy_from_code, sp_blob, sp_header, sp_parameter,
    sp_parameters, sp_take, sp_text, sp_u16, sp_u32, sp_u64, sp_u8, state_magic,
};

verus! {

/// `part` occurs in `data` at offset `off`.
#[verifier::opaque]
pub open spec fn occurs_at(data: Seq<u8>, off: int, part: Seq<u8>) -> bool {
    0 <= off && off + part.len() <= data.len() && data.subrange(off, off + part.len()) == part
}

/// A parameter that the encoder writes in full and the decoder accepts.
pub open spec fn parameter_storable(p: ParameterModel) -> bool {
    encode_utf8(p.name).len() <= 0xffff && bits_finite(p.value_bits)
}

/// A document whose every field fits the file format's limits.
pub open spec fn document_storable(d: DocumentModel) -> bool {
    &&& encode_utf8(d.plugin_id).len() <= MAX_TEXT_BYTES
    &&& encode_utf8(d.class_uid).len() <= MAX_TEXT_BYTES
    &&& d.vst2_bank.len() <= MAX_STATE_BYTES
    &&& d.vst2_preset.len() <= MAX_STATE_BYTES
    &&& d.vst3_state.len() <= MAX_STATE_BYTES
    &&& d.parameters.len() <= MAX_PARAMETERS
    &&& forall|i: int| 0 <= i < d.parameters.len() ==> parameter_storable(#[trigger] d.parameters[i])
    &&& spec_encode_body(d).len() <= MAX_STATE_BYTES
}

proof fn lemma_split(data: Seq<u8>, off: int, a: Seq<u8>, b: Seq<u8>)
    requires
        occurs_at(data, off, a + b),
    ensures
        occurs_at(data, off, a),
        occurs_at(data, off + a.len(), b),
{
    reveal(occurs_at);
    assert(data.subrange(off, off + a.len()) =~= (a + b).subrange(0, a.len() as int));
    assert((a + b).subrange(0, a.len() as int) =~= a);
    assert(data.subrange(off + a.len(), off + a.len() + b.len()) =~= (a + b).subrange(
        a.len() as int,
        (a.len() + b.len()) as int,
    ));
    assert((a + b).subrange(a.len() as int, (a.len() + b.len()) as int) =~= b);
}

proof fn lemma_read_u16(data: Seq<u8>, off: int, x: u16)
    requires
        occurs_at(data, off, le16(x)),
    ensures
        sp_u16(data, off) == Some((x, off + 2)),
{
    reveal(occurs_at);
    lemma_le16_roundtrip(x);
}

proof fn lemma_read_u32(data: Seq<u8>, off: int, x: u32)
    requires
        occurs_at(data, off, le32(x)),
    ensures
        sp_u32(data, off) == Some((x, off + 4)),
{
    reveal(occurs_at);
    lemma_le32_roundtrip(x);
}

proof fn lemma_read_u64(data: Seq<u8>, off: int, x: u64)
    requires
        occurs_at(data, off, le64(x)),
    ensures
        sp_u64(data, off) == Some((x, off + 8)),
{
    reveal(occurs_at);
    lemma_le64_roundtrip(x);
}

proof fn lemma_read_blob(data: Seq<u8>, off: int, b: Seq<u8>, limit: int)
    requires
        occurs_at(data, off, spec_blob(b)),
        b.len() <= limit,
        b.len() <= u32::MAX,
    ensures
        sp_blob(data, off, limit) == Some((b, off + 4 + b.len())),
{
    reveal(occurs_at);
    lemma_le32_roundtrip(sat_u32(b.len()));
    lemma_split(data, off, le32(sat_u32(b.len())), b);
    lemma_read_u32(data, off, sat_u32(b.len()));
}

proof fn lemma_read_text(data: Seq<u8>, off: int, s: Seq<char>)
    requires
        occurs_at(data, off, spec_blob(encode_utf8(s))),
        encode_utf8(s).len() <= MAX_TEXT_BYTES,
    ensures
        sp_text(data, off) == Some((s, off + 4 + encode_utf8(s).len())),
{
    lemma_read_blob(data, off, encode_utf8(s), MAX_TEXT_BYTES as int);
    encode_utf8_valid_utf8(s);
    encode_utf8_decode_utf8(s);
}

proof fn lemma_read_parameter(data: Seq<u8>, off: int, p: ParameterModel)
    requires
        occurs_at(data, off, spec_encode_parameter(p)),
        parameter_storable(p),
    ensures
        sp_parameter(data, off) == Some((p, off + spec_encode_parameter(p).len())),
{
    let name = encode_utf8(p.name);
    let n = sat_u16(name.len());
    assert(name.take(n as int) =~= name);
    reveal(occurs_at);
    let a = le32(p.id);
    let b = le32(p.index);
    let c = le32(p.flags);
    let d = le32(p.value_bits);
    let e = le16(n);
    lemma_le32_roundtrip(p.id);
    lemma_le32_roundtrip(p.index);
    lemma_le32_roundtrip(p.flags);
    lemma_le32_roundtrip(p.value_bits);
    lemma_le16_roundtrip(n);
    assert(spec_encode_parameter(p) == a + b + c + d + e + name);
    lemma_split(data, off, a + b + c + d + e, name);
    lemma_split(data, off, a + b + c + d, e);
    lemma_split(data, off, a + b + c, d);
    lemma_split(data, off, a + b, c);
    lemma_split(data, off, a, b);
    lemma_read_u32(data, off, p.id);
    lemma_read_u32(data, off + 4, p.index);
    lemma_read_u32(data, off + 8, p.flags);
    lemma_read_u32(data, off + 12, p.value_bits);
    lemma_read_u16(data, off + 16, n);
    encode_utf8_valid_utf8(p.name);
    encode_utf8_decode_utf8(p.name);
    assert(sp_take(data, off + 18, n as int) == Some((name, off + 18 + name.len())));
}

proof fn lemma_read_parameters(data: Seq<u8>, off: int, ps: Seq<ParameterModel>)
    requires
        occurs_at(data, off, spec_encode_parameters(ps)),
        forall|i: int| 0 <= i < ps.len() ==> parameter_storable(#[trigger] ps[i]),
    ensures
        sp_parameters(data, off, ps.len()) == Some((ps, off + spec_encode_parameters(ps).len())),
    decreases ps.len(),
{
    if ps.len() == 0 {
        assert(ps =~= Seq::<ParameterModel>::empty());
    } else {
        let init = ps.drop_last();
        let last = ps.last();
        lemma_split(data, off, spec_encode_parameters(init), spec_encode_parameter(last));
        assert forall|i: int| 0 <= i < init.len() implies parameter_storable(#[trigger] init[i]) by {
            assert(init[i] == ps[i]);
        }
        lemma_read_parameters(data, off, init);
        assert(parameter_storable(ps[ps.len() - 1]));
        lemma_read_parameter(data, off + spec_encode_parameters(init).len(), last);
        assert(init.push(last) =~= ps);
    }
}

proof fn lemma_program_bits(x: i32)
    ensures
        ((x as u32) as i32) == x,
{
    assert(((x as u32) as i32) == x) by (bit_vector);
}

proof fn lemma_policy_code(p: StatePolicy)
    ensures
        spec_policy_from_code(policy_code(p)) == Some(p),
{
}

/// Offsets of the parts of an encoded body, after the fixed 24-byte header.
pub open spec fn body_offsets(d: DocumentModel) -> (int, int, int, int, int, int, int) {
    let o7: int = 24int + spec_blob(encode_utf8(d.plugin_id)).len();
    let o8: int = o7 + spec_blob(encode_utf8(d.class_uid)).len();
    let o9: int = o8 + spec_blob(d.vst2_bank).len();
    let o10: int = o9 + spec_blob(d.vst2_preset).len();
    let o11: int = o10 + spec_blob(d.vst3_state).len();
    let o12: int = o11 + 4;
    let end: int = o12 + spec_encode_parameters(d.parameters).len();
    (o7, o8, o9, o10, o11, o12, end)
}

/// Where each part of an encoded body lies in `body`.
pub open spec fn body_layout(body: Seq<u8>, d: DocumentModel) -> bool {
    let (o7, o8, o9, o10, o11, o12, end) = body_offsets(d);
    &&& occurs_at(body, 0, seq![d.format, d.architecture])
    &&& occurs_at(body, 2, le16(policy_code(d.state_policy)))
    &&& occurs_at(body, 4, le64(d.file_modified_ms))
    &&& occurs_at(body, 12, le64(d.file_size))
    &&& occurs_at(body, 20, le32(d.program as u32))
    &&& occurs_at(body, 24, spec_blob(encode_utf8(d.plugin_id)))
    &&& occurs_at(body, o7, spec_blob(encode_utf8(d.class_uid)))
    &&& occurs_at(body, o8, spec_blob(d.vst2_bank))
    &&& occurs_at(body, o9, spec_blob(d.vst2_preset))
    &&& occurs_at(body, o10, spec_blob(d.vst3_state))
    &&& occurs_at(body, o11, le32(sat_u32(d.parameters.len())))
    &&& occurs_at(body, o12, spec_encode_parameters(d.parameters))
    &&& end == body.len()
}

proof fn lemma_body_layout(d: DocumentModel)
    ensures
        body_layout(spec_encode_body(d), d),
{
    let body = spec_encode_body(d);
    let h0 = seq![d.format, d.architecture];
    let h1 = le16(policy_code(d.state_policy));
    let h2 = le64(d.file_modified_ms);
    let h3 = le64(d.file_size);
    let h4 = le32(d.program as u32);
    let t1 = spec_blob(encode_utf8(d.plugin_id));
    let t2 = spec_blob(encode_utf8(d.class_uid));
    let b1 = spec_blob(d.vst2_bank);
    let b2 = spec_blob(d.vst2_preset);
    let b3 = spec_blob(d.vst3_state);
    let c = le32(sat_u32(d.parameters.len()));
    let ps = spec_encode_parameters(d.parameters);
    assert(body == h0 + h1 + h2 + h3 + h4 + t1 + t2 + b1 + b2 + b3 + c + ps);
    assert(occurs_at(body, 0, body)) by {
        reveal(occurs_at);
        assert(body.subrange(0, body.len() as int) =~= body);
    }
    lemma_split(body, 0, h0 + h1 + h2 + h3 + h4 + t1 + t2 + b1 + b2 + b3 + c, ps);
    lemma_split(body, 0, h0 + h1 + h2 + h3 + h4 + t1 + t2 + b1 + b2 + b3, c);
    lemma_split(body, 0, h0 + h1 + h2 + h3 + h4 + t1 + t2 + b1 + b2, b3);
    lemma_split(body, 0, h0 + h1 + h2 + h3 + h4 + t1 + t2 + b1, b2);
    lemma_split(body, 0, h0 + h1 + h2 + h3 + h4 + t1 + t2, b1);
    lemma_split(body, 0, h0 + h1 + h2 + h3 + h4 + t1, t2);
    lemma_split(body, 0, h0 + h1 + h2 + h3 + h4, t1);
    lemma_split(body, 0, h0 + h1 + h2 + h3, h4);
    lemma_split(body, 0, h0 + h1 + h2, h3);
    lemma_split(body, 0, h0 + h1, h2);
    lemma_split(body, 0, h0, h1);
}

/// The policy a document reads back with: version-2 files predate the
/// policy field and count as full legacy snapshots.
pub open spec fn read_policy(version: u8, d: DocumentModel) -> StatePolicy {
    if version == STATE_VERSION_V2 {
        StatePolicy::LegacyFullSnapshot
    } else {
        d.state_policy
    }
}

proof fn lemma_read_header(body: Seq<u8>, d: DocumentModel, version: u8)
    requires
        body_layout(body, d),
        version == STATE_VERSION_V2 || version == STATE_VERSION_V3,
    ensures
        sp_header(body, version) == Some(
            (d.format, d.architecture, read_policy(version, d), d.file_modified_ms, d.file_size, d.program, 24int),
        ),
{
    assert(body[0] == d.format && body[1] == d.architecture) by {
        reveal(occurs_at);
        assert(body.subrange(0, 2)[0] == body[0]);
        assert(body.subrange(0, 2)[1] == body[1]);
    }
    lemma_read_u16(body, 2, policy_code(d.state_policy));
    lemma_policy_code(d.state_policy);
    lemma_read_u64(body, 4, d.file_modified_ms);
    lemma_read_u64(body, 12, d.file_size);
    lemma_read_u32(body, 20, d.program as u32);
    lemma_program_bits(d.program);
}

proof fn lemma_decode_body(body: Seq<u8>, d: DocumentModel, version: u8)
    requires
        body_layout(body, d),
        version == STATE_VERSION_V2 || version == STATE_VERSION_V3,
        encode_utf8(d.plugin_id).len() <= MAX_TEXT_BYTES,
        encode_utf8(d.class_uid).len() <= MAX_TEXT_BYTES,
        d.vst2_bank.len() <= MAX_STATE_BYTES,
        d.vst2_preset.len() <= MAX_STATE_BYTES,
        d.vst3_state.len() <= MAX_STATE_BYTES,
        d.parameters.len() <= MAX_PARAMETERS,
        forall|i: int| 0 <= i < d.parameters.len() ==> parameter_storable(#[trigger] d.parameters[i]),
    ensures
        spec_decode_body(body, version) == Some(
            DocumentModel { state_version: version, state_policy: read_policy(version, d), ..d },
        ),
{
    let (o7, o8, o9, o10, o11, o12, end) = body_offsets(d);
    lemma_read_header(body, d, version);
    lemma_read_text(body, 24, d.plugin_id);
    lemma_read_text(body, o7, d.class_uid);
    lemma_read_blob(body, o8, d.vst2_bank, MAX_STATE_BYTES as int);
    lemma_read_blob(body, o9, d.vst2_preset, MAX_STATE_BYTES as int);
    lemma_read_blob(body, o10, d.vst3_state, MAX_STATE_BYTES as int);
    lemma_read_u32(body, o11, sat_u32(d.parameters.len()));
    lemma_read_parameters(body, o12, d.parameters);
}

/// Round trip: reading back what `encode_state_document` writes for a
/// document within the format's limits gives the same document, marked as
/// version 3.
#[verifier::spinoff_prover]
#[verifier::rlimit(50)]
pub proof fn lemma_document_round_trip(d: DocumentModel)
    requires
        document_storable(d),
    ensures
        spec_decode_document(spec_encode_document(d)) == Some(
            DocumentModel { state_version: STATE_VERSION_V3, ..d },
        ),
{
    let body = spec_encode_body(d);
    let data = spec_encode_document(d);
    let len = sat_u32(body.len());
    lemma_le32_roundtrip(len);
    lemma_le64_roundtrip(spec_fnv1a64(body));
    let head = state_magic() + seq![STATE_VERSION_V3];
    assert(data == head + le32(len) + body + le64(spec_fnv1a64(body)));
    assert(data.take(4) =~= state_magic());
    assert(data[4] == STATE_VERSION_V3);
    assert(occurs_at(data, 0, data)) by {
        reveal(occurs_at);
        assert(data.subrange(0, data.len() as int) =~= data);
    }
    lemma_split(data, 0, head + le32(len) + body, le64(spec_fnv1a64(body)));
    lemma_split(data, 0, head + le32(len), body);
    lemma_split(data, 0, head, le32(len));
    assert(from_le32(data.subrange(5, 9)) == len);
    assert(len as int == body.len());
    assert(data.subrange(9, 9 + body.len() as int) == body);
    assert(from_le64(data.subrange(9 + body.len() as int, data.len() as int)) == spec_fnv1a64(body));
    lemma_body_layout(d);
    lemma_decode_body(body, d, STATE_VERSION_V3);
}

proof fn lemma_in_prefix(a: Seq<u8>, b: Seq<u8>, off: int, p: Seq<u8>)
    requires
        occurs_at(a, off, p),
    ensures
        occurs_at(a + b, off, p),
{
    reveal(occurs_at);
    assert((a + b).subrange(off, off + p.len()) =~= a.subrange(off, off + p.len()));
}

proof fn lemma_values_layout(values: Seq<u32>, i: int)
    requires
        0 <= i < values.len(),
    ensures
        spec_encode_values(values).len() == 4 * values.len(),
        occurs_at(spec_encode_values(values), 4 * i, le32(values[i])),
    decreases values.len(),
{
    let init = values.drop_last();
    let whole = spec_encode_values(values);
    lemma_le32_roundtrip(values.last());
    if init.len() > 0 {
        lemma_values_len(init);
    }
    assert(spec_encode_values(init).len() == 4 * init.len()) by {
        lemma_values_len(init);
    }
    if i < init.len() {
        lemma_values_layout(init, i);
        lemma_in_prefix(spec_encode_values(init), le32(values.last()), 4 * i, le32(init[i]));
    } else {
        assert(occurs_at(whole, 0, whole)) by {
            reveal(occurs_at);
            assert(whole.subrange(0, whole.len() as int) =~= whole);
        }
        lemma_split(whole, 0, spec_encode_values(init), le32(values.last()));
    }
}

proof fn lemma_values_len(values: Seq<u32>)
    ensures
        spec_encode_values(values).len() == 4 * values.len(),
    decreases values.len(),
{
    if values.len() > 0 {
        lemma_values_len(values.drop_last());
        lemma_le32_roundtrip(values.last());
    }
}

/// Round trip: a version-1 chunk file reads back as the same chunk.
pub proof fn lemma_chunk_round_trip(chunk: Seq<u8>)
    ensures
        spec_decode_state(spec_encode_chunk(chunk)) == SavedModel::Chunk(chunk),
{
    let data = spec_encode_chunk(chunk);
    assert(data[4] == STATE_VERSION_V1);
    assert(spec_decode_document(data) is None);
    assert(data.take(4) =~= state_magic());
    assert(data.skip(6) =~= chunk);
}

/// Round trip: a version-1 parameter file with at most `MAX_PARAMETERS`
/// values reads back as the same values.
pub proof fn lemma_params_round_trip(values: Seq<u32>)
    requires
        values.len() <= MAX_PARAMETERS,
    ensures
        spec_decode_state(spec_encode_params(values)) == SavedModel::Params(values),
{
    let data = spec_encode_params(values);
    let head = state_magic() + seq![STATE_VERSION_V1, STATE_KIND_PARAMS];
    let n = values.len() as u32;
    let enc = spec_encode_values(values);
    lemma_values_len(values);
    lemma_le32_roundtrip(n);
    assert(data == head + le32(n) + enc);
    assert(data[4] == STATE_VERSION_V1);
    assert(spec_decode_document(data) is None);
    assert(data.take(4) =~= state_magic());
    assert(data.subrange(6, 10) =~= le32(n));
    assert forall|i: int| 0 <= i < values.len() implies v1_values(data, values.len())[i]
        == values[i] by {
        lemma_values_layout(values, i);
        lemma_le32_roundtrip(values[i]);
        reveal(occurs_at);
        assert(data.subrange(10 + 4 * i, 14 + 4 * i) =~= enc.subrange(4 * i, 4 * i + 4));
        assert(enc.subrange(4 * i, 4 * i + 4) == le32(values[i]));
    }
    assert(v1_values(data, values.len()) =~= values);
}

/// Round trip through `decode_state`: a stored document comes back as a
/// versioned document.
pub proof fn lemma_state_document_round_trip(d: DocumentModel)
    requires
        document_storable(d),
    ensures
        spec_decode_state(spec_encode_document(d)) == SavedModel::V2(
            DocumentModel { state_version: STATE_VERSION_V3, ..d },
        ),
{
    lemma_document_round_trip(d);
}

/// The frame around a body: magic, version byte, length, body, checksum.
pub open spec fn framed(version: u8, body: Seq<u8>) -> Seq<u8> {
    state_magic() + seq![version] + le32(sat_u32(body.len())) + body + le64(spec_fnv1a64(body))
}

#[verifier::spinoff_prover]
#[verifier::rlimit(50)]
proof fn lemma_framed_decode(version: u8, body: Seq<u8>)
    requires
        version == STATE_VERSION_V2 || version == STATE_VERSION_V3,
        body.len() <= MAX_STATE_BYTES,
    ensures
        spec_decode_document(framed(version, body)) == spec_decode_body(body, version),
{
    let data = framed(version, body);
    let len = sat_u32(body.len());
    lemma_le32_roundtrip(len);
    lemma_le64_roundtrip(spec_fnv1a64(body));
    let head = state_magic() + seq![version];
    assert(data == head + le32(len) + body + le64(spec_fnv1a64(body)));
    assert(data.take(4) =~= state_magic());
    assert(data[4] == version);
    assert(occurs_at(data, 0, data)) by {
        reveal(occurs_at);
        assert(data.subrange(0, data.len() as int) =~= data);
    }
    lemma_split(data, 0, head + le32(len) + body, le64(spec_fnv1a64(body)));
    lemma_split(data, 0, head + le32(len), body);
    lemma_split(data, 0, head, le32(len));
    assert(from_le32(data.subrange(5, 9)) == len);
    assert(len as int == body.len());
    assert(data.subrange(9, 9 + body.len() as int) == body);
    assert(from_le64(data.subrange(9 + body.len() as int, data.len() as int)) == spec_fnv1a64(body));
}

/// Round trip for files of the previous release: what `encode_state_document`
/// writes for a document within the format's limits, marked as version 2
/// (the checksum covers only the body, so it stays valid), reads back as
/// the same document, as version 2 and as a full legacy snapshot; the state
/// file as a whole reads back as that versioned document, not as raw bytes.
pub proof fn lemma_version2_document_round_trip(d: DocumentModel)
    requires
        document_storable(d),
    ensures
        spec_decode_document(spec_encode_document(d).update(4, STATE_VERSION_V2)) == Some(
            DocumentModel {
                state_version: STATE_VERSION_V2,
                state_policy: StatePolicy::LegacyFullSnapshot,
                ..d
            },
        ),
        spec_decode_state(spec_encode_document(d).update(4, STATE_VERSION_V2)) == SavedModel::V2(
            DocumentModel {
                state_version: STATE_VERSION_V2,
                state_policy: StatePolicy::LegacyFullSnapshot,
                ..d
            },
        ),
{
    let body = spec_encode_body(d);
    assert(spec_encode_document(d).update(4, STATE_VERSION_V2) =~= framed(STATE_VERSION_V2, body));
    lemma_framed_decode(STATE_VERSION_V2, body);
    lemma_body_layout(d);
    lemma_decode_body(body, d, STATE_VERSION_V2);
}

} // verus!
