//! Launching the isolated DSP worker: the names of the shared objects, the
//! worker's command line, how the worker reads it back, and the checks made
//! on either side of the launch.

use vstd::prelude::*;
use vstd::utf8::{encode_utf8, is_ascii_chars, is_ascii_chars_encode_utf8};
use vstd::string::StringExecFns;
use crate::fnv::spec_fnv1a64;
use crate::remote::stable_token;
use crate::text::{append_decimal, decimal, digit_char, str_eq};

verus! {

// ---------------------------------------------------------------------------
// Unsigned decimal numbers
// ---------------------------------------------------------------------------

/// An ASCII digit.
pub open spec fn is_digit_byte(b: u8) -> bool {
    0x30 <= b <= 0x39
}

/// The value of a run of ASCII digits.
pub open spec fn digits_value(s: Seq<u8>) -> nat
    decreases s.len(),
{
    if s.len() == 0 {
        0
    } else {
        digits_value(s.drop_last()) * 10 + (s.last() - 0x30) as nat
    }
}

/// The digits of a number text: what follows an optional leading '+'.
pub open spec fn unsigned_body(s: Seq<u8>) -> Seq<u8> {
    if s.len() > 0 && s[0] == 0x2b {
        s.subrange(1, s.len() as int)
    } else {
        s
    }
}

/// An unsigned number as `str::parse` reads it: an optional '+' and at
/// least one ASCII digit, nothing else, with a value at most `max`.
pub open spec fn spec_parse_unsigned(s: Seq<u8>, max: int) -> Option<nat> {
    let body = unsigned_body(s);
    if body.len() == 0 || !(forall|i: int| 0 <= i < body.len() ==> is_digit_byte(#[trigger] body[i]))
        || digits_value(body) > max {
        None
    } else {
        Some(digits_value(body))
    }
}

proof fn lemma_digits_value_grows(s: Seq<u8>, n: int)
    requires
        0 <= n <= s.len(),
        forall|i: int| 0 <= i < s.len() ==> is_digit_byte(#[trigger] s[i]),
    ensures
        digits_value(s.take(n)) <= digits_value(s),
    decreases s.len() - n,
{
    if n < s.len() {
        lemma_digits_value_grows(s, n + 1);
        assert(s.take(n + 1).drop_last() =~= s.take(n));
    } else {
        assert(s.take(n) =~= s);
    }
}

/// Reads an unsigned number no larger than `max`.
pub fn parse_unsigned(s: &str, max: u64) -> (r: Option<u64>)
    ensures
        match r {
            Some(v) => spec_parse_unsigned(encode_utf8(s@), max as int) == Some(v as nat),
            None => spec_parse_unsigned(encode_utf8(s@), max as int) is None,
        },
{
    let bytes = s.as_bytes();
    let ghost all = bytes@;
    let start: usize = if bytes.len() > 0 && bytes[0] == 0x2b {
        1
    } else {
        0
    };
    let ghost body = unsigned_body(all);
    assert(body =~= all.subrange(start as int, all.len() as int));
    if bytes.len() == start {
        return None;
    }
    let mut acc: u64 = 0;
    let mut i: usize = start;
    while i < bytes.len()
        invariant
            all == bytes@,
            all == encode_utf8(s@),
            body == all.subrange(start as int, all.len() as int),
            body == unsigned_body(all),
            start <= i <= all.len(),
            forall|k: int| 0 <= k < i - start ==> is_digit_byte(#[trigger] body[k]),
            acc as int == digits_value(body.take(i - start)),
            acc <= max,
        decreases all.len() - i,
    {
        let b = bytes[i];
        assert(body[i - start] == b);
        if b < 0x30 || b > 0x39 {
            assert(!is_digit_byte(body[i - start]));
            return None;
        }
        assert(body.take(i - start + 1).drop_last() =~= body.take(i - start));
        let d = (b - 0x30) as u64;
        if d > max || acc > (max - d) / 10 {
            proof {
                assert(digits_value(body.take(i - start + 1)) > max) by (nonlinear_arith)
                    requires
                        digits_value(body.take(i - start + 1)) == acc * 10 + d,
                        d > max || acc > (max - d) / 10,
                        d <= 9,
                ;
                if forall|k: int| 0 <= k < body.len() ==> is_digit_byte(#[trigger] body[k]) {
                    lemma_digits_value_grows(body, i - start + 1);
                }
            }
            return None;
        }
        proof {
            assert(acc * 10 + d <= max) by (nonlinear_arith)
                requires
                    acc <= (max - d) / 10,
                    d <= max,
            ;
        }
        acc = acc * 10 + d;
        i = i + 1;
    }
    assert(body.take(body.len() as int) =~= body);
    Some(acc)
}

proof fn lemma_decimal_ascii(n: nat)
    ensures
        is_ascii_chars(decimal(n)),
        decimal(n).len() > 0,
        forall|i: int| 0 <= i < decimal(n).len() ==> is_digit_byte(#[trigger] decimal(n)[i] as u8),
    decreases n,
{
    if n >= 10 {
        lemma_decimal_ascii(n / 10);
        assert(decimal(n) == decimal(n / 10).push(digit_char(n % 10)));
    }
}

/// The bytes of an ASCII text.
pub open spec fn ascii_bytes(s: Seq<char>) -> Seq<u8> {
    s.map_values(|c: char| c as u8)
}

proof fn lemma_digit_char_value(d: nat)
    requires
        d < 10,
    ensures
        digit_char(d) as u8 == 0x30 + d,
{
}

proof fn lemma_decimal_value(n: nat)
    ensures
        digits_value(ascii_bytes(decimal(n))) == n,
    decreases n,
{
    lemma_digit_char_value(n % 10);
    let x = ascii_bytes(decimal(n));
    if n < 10 {
        assert(decimal(n) == seq![digit_char(n)]);
        assert(x.last() == digit_char(n) as u8);
        assert(x.drop_last() =~= Seq::<u8>::empty());
        assert(digits_value(x) == digits_value(x.drop_last()) * 10 + (x.last() - 0x30) as nat);
    } else {
        lemma_decimal_value(n / 10);
        assert(decimal(n) == decimal(n / 10).push(digit_char(n % 10)));
        assert(x.last() == digit_char(n % 10) as u8);
        assert(x.drop_last() =~= ascii_bytes(decimal(n / 10)));
        assert(digits_value(x) == digits_value(x.drop_last()) * 10 + (x.last() - 0x30) as nat);
    }
}

/// Law: the decimal text of a number reads back as that number, when it is
/// within the bound.
pub proof fn lemma_parse_decimal(n: nat, max: int)
    requires
        n <= max,
    ensures
        spec_parse_unsigned(encode_utf8(decimal(n)), max) == Some(n),
{
    lemma_decimal_ascii(n);
    is_ascii_chars_encode_utf8(decimal(n));
    let e = encode_utf8(decimal(n));
    assert(e =~= ascii_bytes(decimal(n)));
    lemma_decimal_value(n);
    assert(unsigned_body(e) == e) by {
        assert(is_digit_byte(decimal(n)[0] as u8));
    }
    assert forall|i: int| 0 <= i < e.len() implies is_digit_byte(#[trigger] e[i]) by {
        assert(is_digit_byte(decimal(n)[i] as u8));
    }
}

// ---------------------------------------------------------------------------
// The worker's command line
// ---------------------------------------------------------------------------

/// What the worker is started with.
pub struct DspArgs {
    pub mapping_name: String,
    pub event_name: String,
    pub token: u64,
    pub plugin: String,
    pub plugin_id: String,
    pub sample_rate: u32,
    pub max_block_size: usize,
    pub class_uid: Option<String>,
}

/// The start parameters as plain values.
pub struct DspArgsModel {
    pub mapping_name: Seq<char>,
    pub event_name: Seq<char>,
    pub token: u64,
    pub plugin: Seq<char>,
    pub plugin_id: Seq<char>,
    pub sample_rate: u32,
    pub max_block_size: usize,
    pub class_uid: Option<Seq<char>>,
}

impl View for DspArgs {
    type V = DspArgsModel;

    open spec fn view(&self) -> DspArgsModel {
        DspArgsModel {
            mapping_name: self.mapping_name@,
            event_name: self.event_name@,
            token: self.token,
            plugin: self.plugin@,
            plugin_id: self.plugin_id@,
            sample_rate: self.sample_rate,
            max_block_size: self.max_block_size,
            class_uid: match self.class_uid {
                Some(u) => Some(u@),
                None => None,
            },
        }
    }
}

/// The command line, flag and value in turn; the class id only when known.
pub open spec fn spec_worker_arguments(d: DspArgsModel) -> Seq<Seq<char>> {
    seq![
        "--dsp-bridge"@,
        d.mapping_name,
        "--request-event"@,
        d.event_name,
        "--bridge-token"@,
        decimal(d.token as nat),
        "--plugin"@,
        d.plugin,
        "--plugin-id"@,
        d.plugin_id,
        "--sample-rate"@,
        decimal(d.sample_rate as nat),
        "--max-block-size"@,
        decimal(d.max_block_size as nat),
    ] + match d.class_uid {
        Some(u) => seq!["--class-uid"@, u],
        None => Seq::empty(),
    }
}

/// Texts as plain values.
pub open spec fn texts_view(args: Seq<String>) -> Seq<Seq<char>> {
    args.map_values(|a: String| a@)
}

fn decimal_string(n: u64) -> (r: String)
    ensures
        r@ == decimal(n as nat),
{
    let mut s = String::new();
    append_decimal(&mut s, n);
    s
}

/// Builds the worker's command line (without the program name).
pub fn worker_arguments(d: &DspArgs) -> (r: Vec<String>)
    ensures
        texts_view(r@) == spec_worker_arguments(d@),
{
    let mut v: Vec<String> = Vec::new();
    v.push("--dsp-bridge".to_string());
    v.push(d.mapping_name.clone());
    v.push("--request-event".to_string());
    v.push(d.event_name.clone());
    v.push("--bridge-token".to_string());
    v.push(decimal_string(d.token));
    v.push("--plugin".to_string());
    v.push(d.plugin.clone());
    v.push("--plugin-id".to_string());
    v.push(d.plugin_id.clone());
    v.push("--sample-rate".to_string());
    v.push(decimal_string(d.sample_rate as u64));
    v.push("--max-block-size".to_string());
    v.push(decimal_string(d.max_block_size as u64));
    match &d.class_uid {
        Some(u) => {
            v.push("--class-uid".to_string());
            v.push(u.clone());
        },
        None => {},
    }
    assert(texts_view(v@) =~= spec_worker_arguments(d@));
    v
}

/// The first position, from `i` on, of `flag` among `args`.
pub open spec fn flag_pos(args: Seq<Seq<char>>, flag: Seq<char>, i: int) -> Option<int>
    decreases args.len() - i,
{
    if i < 0 || i >= args.len() {
        None
    } else if args[i] == flag {
        Some(i)
    } else {
        flag_pos(args, flag, i + 1)
    }
}

/// The value that follows `flag`, or the message for its absence.
pub open spec fn flag_value(args: Seq<Seq<char>>, flag: Seq<char>) -> Result<Seq<char>, Seq<char>> {
    match flag_pos(args, flag, 0) {
        None => Err("Missing "@ + flag),
        Some(i) => if i + 1 < args.len() {
            Ok(args[i + 1])
        } else {
            Err("Missing value for "@ + flag)
        },
    }
}

/// The number that follows `flag` as text, at most `max`.
pub open spec fn flag_number(args: Seq<Seq<char>>, flag: Seq<char>, max: int, invalid: Seq<char>) -> Result<nat, Seq<char>> {
    match flag_value(args, flag) {
        Err(e) => Err(e),
        Ok(t) => match spec_parse_unsigned(encode_utf8(t), max) {
            Some(n) => Ok(n),
            None => Err(invalid),
        },
    }
}

/// How the worker reads its command line: nothing when it is not started as
/// a DSP bridge; else each value in turn, the first missing or invalid one
/// giving the error.
pub open spec fn spec_parse_dsp_args(args: Seq<Seq<char>>) -> Option<Result<DspArgsModel, Seq<char>>> {
    if flag_pos(args, "--dsp-bridge"@, 0) is None {
        None
    } else {
        Some(
            match flag_value(args, "--dsp-bridge"@) {
                Err(e) => Err(e),
                Ok(mapping_name) => match flag_value(args, "--request-event"@) {
                    Err(e) => Err(e),
                    Ok(event_name) => match flag_number(args, "--bridge-token"@, u64::MAX as int, "Invalid bridge token"@) {
                        Err(e) => Err(e),
                        Ok(token) => match flag_value(args, "--plugin"@) {
                            Err(e) => Err(e),
                            Ok(plugin) => match flag_value(args, "--plugin-id"@) {
                                Err(e) => Err(e),
                                Ok(plugin_id) => match flag_number(args, "--sample-rate"@, u32::MAX as int, "Invalid sample rate"@) {
                                    Err(e) => Err(e),
                                    Ok(sample_rate) => match flag_number(args, "--max-block-size"@, usize::MAX as int, "Invalid max block size"@) {
                                        Err(e) => Err(e),
                                        Ok(max_block_size) => Ok(DspArgsModel {
                                            mapping_name,
                                            event_name,
                                            token: token as u64,
                                            plugin,
                                            plugin_id,
                                            sample_rate: sample_rate as u32,
                                            max_block_size: max_block_size as usize,
                                            class_uid: match flag_pos(args, "--class-uid"@, 0) {
                                                Some(i) => if i + 1 < args.len() {
                                                    Some(args[i + 1])
                                                } else {
                                                    None
                                                },
                                                None => None,
                                            },
                                        }),
                                    },
                                },
                            },
                        },
                    },
                },
            },
        )
    }
}

fn find_flag(args: &[String], flag: &str) -> (r: Option<usize>)
    ensures
        r matches Some(k) ==> k < args@.len(),
        match r {
            Some(k) => flag_pos(texts_view(args@), flag@, 0) == Some(k as int),
            None => flag_pos(texts_view(args@), flag@, 0) is None,
        },
{
    let ghost v = texts_view(args@);
    let mut i: usize = 0;
    while i < args.len()
        invariant
            i <= args@.len(),
            v == texts_view(args@),
            flag_pos(v, flag@, 0) == flag_pos(v, flag@, i as int),
        decreases args@.len() - i,
    {
        if str_eq(args[i].as_str(), flag) {
            return Some(i);
        }
        i = i + 1;
    }
    None
}

fn value_of(args: &[String], flag: &str) -> (r: Result<String, String>)
    ensures
        match r {
            Ok(v) => flag_value(texts_view(args@), flag@) == Ok::<Seq<char>, Seq<char>>(v@),
            Err(e) => flag_value(texts_view(args@), flag@) == Err::<Seq<char>, Seq<char>>(e@),
        },
{
    match find_flag(args, flag) {
        None => {
            let mut e = "Missing ".to_string();
            e.append(flag);
            Err(e)
        },
        Some(i) => {
            if args.len() - i > 1 {
                Ok(args[i + 1].clone())
            } else {
                let mut e = "Missing value for ".to_string();
                e.append(flag);
                Err(e)
            }
        },
    }
}

fn number_of(args: &[String], flag: &str, max: u64, invalid: &str) -> (r: Result<u64, String>)
    ensures
        match r {
            Ok(n) => flag_number(texts_view(args@), flag@, max as int, invalid@) == Ok::<nat, Seq<char>>(n as nat),
            Err(e) => flag_number(texts_view(args@), flag@, max as int, invalid@) == Err::<nat, Seq<char>>(e@),
        },
{
    match value_of(args, flag) {
        Err(e) => Err(e),
        Ok(t) => match parse_unsigned(t.as_str(), max) {
            Some(n) => Ok(n),
            None => Err(invalid.to_string()),
        },
    }
}

/// Reads the worker's command line (without the program name).
pub fn parse_dsp_args(args: &[String]) -> (r: Option<Result<DspArgs, String>>)
    ensures
        match r {
            None => spec_parse_dsp_args(texts_view(args@)) is None,
            Some(Ok(d)) => spec_parse_dsp_args(texts_view(args@)) == Some(Ok::<DspArgsModel, Seq<char>>(d@)),
            Some(Err(e)) => spec_parse_dsp_args(texts_view(args@)) == Some(Err::<DspArgsModel, Seq<char>>(e@)),
        },
{
    if find_flag(args, "--dsp-bridge").is_none() {
        return None;
    }
    let mapping_name = match value_of(args, "--dsp-bridge") {
        Ok(v) => v,
        Err(e) => {
            return Some(Err(e));
        },
    };
    let event_name = match value_of(args, "--request-event") {
        Ok(v) => v,
        Err(e) => {
            return Some(Err(e));
        },
    };
    let token = match number_of(args, "--bridge-token", u64::MAX, "Invalid bridge token") {
        Ok(v) => v,
        Err(e) => {
            return Some(Err(e));
        },
    };
    let plugin = match value_of(args, "--plugin") {
        Ok(v) => v,
        Err(e) => {
            return Some(Err(e));
        },
    };
    let plugin_id = match value_of(args, "--plugin-id") {
        Ok(v) => v,
        Err(e) => {
            return Some(Err(e));
        },
    };
    let sample_rate = match number_of(args, "--sample-rate", u32::MAX as u64, "Invalid sample rate") {
        Ok(v) => v as u32,
        Err(e) => {
            return Some(Err(e));
        },
    };
    let max_block_size = match number_of(args, "--max-block-size", usize::MAX as u64, "Invalid max block size") {
        Ok(v) => v as usize,
        Err(e) => {
            return Some(Err(e));
        },
    };
    let class_uid = match find_flag(args, "--class-uid") {
        Some(i) => if args.len() - i > 1 {
            Some(args[i + 1].clone())
        } else {
            None
        },
        None => None,
    };
    Some(Ok(DspArgs { mapping_name, event_name, token, plugin, plugin_id, sample_rate, max_block_size, class_uid }))
}

/// The flags of the worker's command line.
pub open spec fn dsp_flags() -> Seq<Seq<char>> {
    seq![
        "--dsp-bridge"@,
        "--request-event"@,
        "--bridge-token"@,
        "--plugin"@,
        "--plugin-id"@,
        "--sample-rate"@,
        "--max-block-size"@,
        "--class-uid"@,
    ]
}

proof fn lemma_flag_pos_from(a: Seq<Seq<char>>, f: Seq<char>, i: int, k: int)
    requires
        0 <= i <= k,
        k < a.len(),
        a[k] == f,
        forall|j: int| i <= j < k ==> a[j] != f,
    ensures
        flag_pos(a, f, i) == Some(k),
    decreases k - i,
{
    if i < k {
        lemma_flag_pos_from(a, f, i + 1, k);
    }
}

proof fn lemma_flag_pos_absent(a: Seq<Seq<char>>, f: Seq<char>, i: int)
    requires
        0 <= i,
        forall|j: int| i <= j < a.len() ==> a[j] != f,
    ensures
        flag_pos(a, f, i) is None,
    decreases a.len() - i,
{
    if i < a.len() {
        lemma_flag_pos_absent(a, f, i + 1);
    }
}

proof fn lemma_decimal_not_flag(n: nat)
    ensures
        !dsp_flags().contains(decimal(n)),
{
    lemma_decimal_ascii(n);
    reveal_strlit("--dsp-bridge");
    reveal_strlit("--request-event");
    reveal_strlit("--bridge-token");
    reveal_strlit("--plugin");
    reveal_strlit("--plugin-id");
    reveal_strlit("--sample-rate");
    reveal_strlit("--max-block-size");
    reveal_strlit("--class-uid");
    if dsp_flags().contains(decimal(n)) {
        let k = choose|k: int| 0 <= k < dsp_flags().len() && dsp_flags()[k] == decimal(n);
        assert(is_digit_byte(decimal(n)[0] as u8));
        assert(dsp_flags()[k][0] == '-');
    }
}

/// Law: the worker reads back exactly what the host put on its command
/// line, as long as no text value is itself one of the flags.
pub proof fn lemma_worker_arguments_round_trip(d: DspArgsModel)
    requires
        !dsp_flags().contains(d.mapping_name),
        !dsp_flags().contains(d.event_name),
        !dsp_flags().contains(d.plugin),
        !dsp_flags().contains(d.plugin_id),
        d.class_uid matches Some(u) ==> !dsp_flags().contains(u),
    ensures
        spec_parse_dsp_args(spec_worker_arguments(d)) == Some(Ok::<DspArgsModel, Seq<char>>(d)),
{
    let a = spec_worker_arguments(d);
    let fl = dsp_flags();
    reveal_strlit("--dsp-bridge");
    reveal_strlit("--request-event");
    reveal_strlit("--bridge-token");
    reveal_strlit("--plugin");
    reveal_strlit("--plugin-id");
    reveal_strlit("--sample-rate");
    reveal_strlit("--max-block-size");
    reveal_strlit("--class-uid");
    lemma_decimal_not_flag(d.token as nat);
    lemma_decimal_not_flag(d.sample_rate as nat);
    lemma_decimal_not_flag(d.max_block_size as nat);
    assert(a[0] == fl[0] && a[2] == fl[1] && a[4] == fl[2] && a[6] == fl[3]);
    assert(a[8] == fl[4] && a[10] == fl[5] && a[12] == fl[6]);
    assert(a[1] == d.mapping_name && a[3] == d.event_name && a[5] == decimal(d.token as nat));
    assert(a[7] == d.plugin && a[9] == d.plugin_id && a[11] == decimal(d.sample_rate as nat));
    assert(a[13] == decimal(d.max_block_size as nat));
    // No value in an odd position is a flag.
    assert forall|j: int, m: int| 0 <= j < a.len() && j % 2 == 1 && 0 <= m < fl.len() implies #[trigger] a[j]
        != #[trigger] fl[m] by {
        if a[j] == fl[m] {
            assert(fl.contains(a[j]));
            if j == 15 {
                assert(a[15] == d.class_uid->0);
            }
        }
    }
    // The flags are different from each other.
    assert forall|m: int, q: int| 0 <= m < fl.len() && 0 <= q < fl.len() && m != q implies #[trigger] fl[m]
        != #[trigger] fl[q] by {
        assert(fl[0].len() == 12 && fl[1].len() == 15 && fl[2].len() == 14 && fl[3].len() == 8);
        assert(fl[4].len() == 11 && fl[5].len() == 13 && fl[6].len() == 16 && fl[7].len() == 11);
        assert(fl[4][2] != fl[7][2]);
    }
    assert forall|m: int| 0 <= m < 7 implies flag_pos(a, #[trigger] fl[m], 0) == Some(2 * m) by {
        assert forall|j: int| 0 <= j < 2 * m implies a[j] != fl[m] by {
            if j % 2 == 0 {
                assert(a[j] == fl[j / 2]);
            }
        }
        lemma_flag_pos_from(a, fl[m], 0, 2 * m);
    }
    lemma_parse_decimal(d.token as nat, u64::MAX as int);
    lemma_parse_decimal(d.sample_rate as nat, u32::MAX as int);
    lemma_parse_decimal(d.max_block_size as nat, usize::MAX as int);
    match d.class_uid {
        Some(u) => {
            assert(a[14] == fl[7] && a[15] == u);
            assert forall|j: int| 0 <= j < 14 implies a[j] != fl[7] by {
                if j % 2 == 0 {
                    assert(a[j] == fl[j / 2]);
                }
            }
            lemma_flag_pos_from(a, fl[7], 0, 14);
        },
        None => {
            assert forall|j: int| 0 <= j < a.len() implies a[j] != fl[7] by {
                if j % 2 == 0 {
                    assert(a[j] == fl[j / 2]);
                }
            }
            lemma_flag_pos_absent(a, fl[7], 0);
        },
    }
}

// ---------------------------------------------------------------------------
// Checks around the launch
// ---------------------------------------------------------------------------

/// The worker renders blocks of at most `BRIDGE_MAX_FRAMES`; a larger
/// maximum is refused before anything is created.
pub fn check_bridge_block_size(max_block_size: usize) -> (r: Result<(), String>)
    ensures
        max_block_size <= crate::dsp_slots::BRIDGE_MAX_FRAMES ==> r is Ok,
        max_block_size > crate::dsp_slots::BRIDGE_MAX_FRAMES ==> (r matches Err(e) && e@
            == "x86 bridge supports blocks up to "@ + decimal(crate::dsp_slots::BRIDGE_MAX_FRAMES as nat)
            + " frames, requested "@ + decimal(max_block_size as nat)),
{
    if max_block_size > crate::dsp_slots::BRIDGE_MAX_FRAMES {
        let mut e = "x86 bridge supports blocks up to ".to_string();
        append_decimal(&mut e, crate::dsp_slots::BRIDGE_MAX_FRAMES as u64);
        e.append(" frames, requested ");
        append_decimal(&mut e, max_block_size as u64);
        return Err(e);
    }
    Ok(())
}

/// The names of the shared objects of one worker, and the token both sides
/// check.
pub struct BridgeObjectNames {
    pub mapping_name: String,
    pub event_name: String,
    pub token: u64,
}

/// The names for the nonce `nonce`: the mapping "Local\\OSCMidi-VST-" and
/// the request event "Local\\OSCMidi-VST-Request-", each followed by the
/// nonce; the token is the FNV-1a hash of the nonce.
pub fn bridge_object_names(nonce: &str) -> (r: BridgeObjectNames)
    ensures
        r.mapping_name@ == "Local\\OSCMidi-VST-"@ + nonce@,
        r.event_name@ == "Local\\OSCMidi-VST-Request-"@ + nonce@,
        r.token == spec_fnv1a64(encode_utf8(nonce@)),
{
    let mut mapping_name = "Local\\OSCMidi-VST-".to_string();
    mapping_name.append(nonce);
    let mut event_name = "Local\\OSCMidi-VST-Request-".to_string();
    event_name.append(nonce);
    BridgeObjectNames { mapping_name, event_name, token: stable_token(nonce) }
}

/// Most output channels a worker may report.
pub const BRIDGE_MAX_CHANNELS: usize = 64;

/// A worker that reports no output, or more than `BRIDGE_MAX_CHANNELS`, is
/// refused.
pub fn check_worker_output_channels(output_channels: usize) -> (r: Result<(), String>)
    ensures
        (output_channels == 0 || output_channels > BRIDGE_MAX_CHANNELS) ==> (r matches Err(e) && e@
            == "Unsupported x86 plugin output count: "@ + decimal(output_channels as nat)),
        !(output_channels == 0 || output_channels > BRIDGE_MAX_CHANNELS) ==> r is Ok,
{
    if output_channels == 0 || output_channels > BRIDGE_MAX_CHANNELS {
        let mut e = "Unsupported x86 plugin output count: ".to_string();
        append_decimal(&mut e, output_channels as u64);
        return Err(e);
    }
    Ok(())
}

} // verus!
