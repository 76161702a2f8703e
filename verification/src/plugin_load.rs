//! Decisions taken when a plug-in is loaded: which backend hosts it, the
//! identifier of a VST2 shell sub-plug-in, the channel-count limit and the
//! latency a VST2 plug-in reports.

use vstd::prelude::*;
use vstd::utf8::encode_utf8;
use crate::state_codec::{ascii_eq_ignore_case, eq_ignore_ascii_case};
use crate::text::{append_decimal, bytes_start_with, decimal};

verus! {

/// How a plug-in is hosted.
#[derive(Clone, Copy, Debug, PartialEq, Eq, Structural)]
pub enum BackendKind {
    /// A 32-bit plug-in run in the isolated x86 DSP worker.
    X86Bridge,
    Vst3,
    Vst2,
}

/// A plug-in whose probe found it 32-bit (architecture "x86", in any ASCII
/// case) goes to the x86 worker when this build has one; otherwise a VST3
/// path is loaded as VST3 and anything else as VST2.
pub open spec fn spec_backend_kind(probe_architecture: Option<Seq<char>>, is_vst3: bool, x86_bridge_available: bool) -> BackendKind {
    if x86_bridge_available && (probe_architecture matches Some(a) && ascii_eq_ignore_case(
        encode_utf8(a),
        encode_utf8("x86"@),
    )) {
        BackendKind::X86Bridge
    } else if is_vst3 {
        BackendKind::Vst3
    } else {
        BackendKind::Vst2
    }
}

/// Chooses the backend for a plug-in (see `spec_backend_kind`).
pub fn backend_kind(probe_architecture: Option<&str>, is_vst3: bool, x86_bridge_available: bool) -> (r: BackendKind)
    ensures
        r == spec_backend_kind(
            match probe_architecture {
                Some(a) => Some(a@),
                None => None,
            },
            is_vst3,
            x86_bridge_available,
        ),
{
    let x86 = match probe_architecture {
        Some(a) => eq_ignore_ascii_case(a, "x86"),
        None => false,
    };
    if x86_bridge_available && x86 {
        BackendKind::X86Bridge
    } else if is_vst3 {
        BackendKind::Vst3
    } else {
        BackendKind::Vst2
    }
}

/// The value of a hexadecimal digit (either case).
pub open spec fn hex_digit(b: u8) -> Option<nat> {
    if 0x30 <= b <= 0x39 {
        Some((b - 0x30) as nat)
    } else if 0x61 <= b <= 0x66 {
        Some((b - 0x61 + 10) as nat)
    } else if 0x41 <= b <= 0x46 {
        Some((b - 0x41 + 10) as nat)
    } else {
        None
    }
}

/// The number a run of hexadecimal digits stands for; `None` when a byte
/// is not a digit.
pub open spec fn hex_value(s: Seq<u8>) -> Option<nat>
    decreases s.len(),
{
    if s.len() == 0 {
        Some(0)
    } else {
        match (hex_value(s.drop_last()), hex_digit(s.last())) {
            (Some(v), Some(d)) => Some(16 * v + d),
            _ => None,
        }
    }
}

/// `i32::from_str_radix(text, 16)` on the text's bytes: an optional sign,
/// then at least one hexadecimal digit, the value within the `i32` range.
pub open spec fn spec_parse_hex_i32(s: Seq<u8>) -> Option<i32> {
    if s.len() > 0 && s[0] == 0x2d {
        let d = s.drop_first();
        if d.len() == 0 {
            None
        } else {
            match hex_value(d) {
                Some(v) => if v <= 0x8000_0000 {
                    Some((-(v as int)) as i32)
                } else {
                    None
                },
                None => None,
            }
        }
    } else {
        let d = if s.len() > 0 && s[0] == 0x2b {
            s.drop_first()
        } else {
            s
        };
        if d.len() == 0 {
            None
        } else {
            match hex_value(d) {
                Some(v) => if v <= 0x7fff_ffff {
                    Some(v as i32)
                } else {
                    None
                },
                None => None,
            }
        }
    }
}

fn hex_digit_of(b: u8) -> (r: Option<u8>)
    ensures
        match r {
            Some(d) => hex_digit(b) == Some(d as nat) && d < 16,
            None => hex_digit(b) is None,
        },
{
    if 0x30 <= b && b <= 0x39 {
        Some(b - 0x30)
    } else if 0x61 <= b && b <= 0x66 {
        Some(b - 0x61 + 10)
    } else if 0x41 <= b && b <= 0x46 {
        Some(b - 0x41 + 10)
    } else {
        None
    }
}

/// The value of the digits `b[start..]`, capped at `0x8000_0001`, when they
/// are all hexadecimal digits.
fn hex_digits_capped(b: &[u8], start: usize) -> (r: Option<u64>)
    requires
        start <= b@.len(),
    ensures
        match hex_value(b@.skip(start as int)) {
            Some(v) => r == Some((if v < 0x8000_0001 { v } else { 0x8000_0001 }) as u64),
            None => r is None,
        },
{
    let ghost s = b@.skip(start as int);
    let mut acc: u64 = 0;
    let mut valid = true;
    let mut i: usize = start;
    assert(s.take(0) =~= Seq::<u8>::empty());
    while i < b.len()
        invariant
            s == b@.skip(start as int),
            start <= i <= b@.len(),
            valid == hex_value(s.take(i - start)) is Some,
            valid ==> (hex_value(s.take(i - start)) matches Some(v) && acc == (if v < 0x8000_0001 {
                v
            } else {
                0x8000_0001
            })),
            acc <= 0x8000_0001,
        decreases b@.len() - i,
    {
        proof {
            assert(s.take(i - start + 1).drop_last() =~= s.take(i - start));
            assert(s.take(i - start + 1).last() == b@[i as int]);
        }
        match hex_digit_of(b[i]) {
            Some(d) => {
                if valid {
                    let next = acc * 16 + d as u64;
                    let ghost v = hex_value(s.take(i - start))->0;
                    assert((if 16 * v + d < 0x8000_0001 { 16 * v + d } else { 0x8000_0001 }) == (if next
                        < 0x8000_0001 {
                        next as int
                    } else {
                        0x8000_0001
                    })) by (nonlinear_arith)
                        requires
                            acc == (if v < 0x8000_0001 { v } else { 0x8000_0001 }),
                            next == acc * 16 + d,
                            d < 16,
                            v >= 0,
                    ;
                    acc = if next < 0x8000_0001 { next } else { 0x8000_0001 };
                }
            },
            None => {
                valid = false;
            },
        }
        i = i + 1;
    }
    assert(s.take(i - start) =~= s);
    if valid {
        Some(acc)
    } else {
        None
    }
}

/// Parses `b[start..]` as `i32::from_str_radix(.., 16)` does.
fn parse_hex_i32_from(b: &[u8], start: usize) -> (r: Option<i32>)
    requires
        start <= b@.len(),
    ensures
        r == spec_parse_hex_i32(b@.skip(start as int)),
{
    let ghost s = b@.skip(start as int);
    if start < b.len() && b[start] == 0x2d {
        assert(s.drop_first() =~= b@.skip(start + 1));
        if start + 1 == b.len() {
            return None;
        }
        match hex_digits_capped(b, start + 1) {
            Some(v) => if v <= 0x8000_0000 {
                Some((-(v as i64)) as i32)
            } else {
                None
            },
            None => None,
        }
    } else {
        let digits_start = if start < b.len() && b[start] == 0x2b { start + 1 } else { start };
        assert(b@.skip(digits_start as int) =~= (if s.len() > 0 && s[0] == 0x2b {
            s.drop_first()
        } else {
            s
        }));
        if digits_start == b.len() {
            return None;
        }
        match hex_digits_capped(b, digits_start) {
            Some(v) => if v <= 0x7fff_ffff {
                Some(v as i32)
            } else {
                None
            },
            None => None,
        }
    }
}

pub open spec fn shell_prefix() -> Seq<u8> {
    encode_utf8("vst2shell:"@)
}

/// The sub-plug-in a VST2 shell loads: the class identifier
/// "vst2shell:<hex>" read as a hexadecimal `i32`; 0 for anything else.
pub open spec fn spec_shell_plugin_id(class_uid: Option<Seq<char>>) -> i32 {
    match class_uid {
        Some(u) => {
            let b = encode_utf8(u);
            if shell_prefix().len() <= b.len() && b.take(shell_prefix().len() as int) == shell_prefix() {
                match spec_parse_hex_i32(b.skip(shell_prefix().len() as int)) {
                    Some(v) => v,
                    None => 0,
                }
            } else {
                0
            }
        },
        None => 0,
    }
}

/// The plug-in identifier a VST2 host announces (see `spec_shell_plugin_id`).
pub fn vst2_shell_plugin_id(class_uid: Option<&str>) -> (r: i32)
    ensures
        r == spec_shell_plugin_id(
            match class_uid {
                Some(u) => Some(u@),
                None => None,
            },
        ),
{
    match class_uid {
        Some(u) => {
            let b = u.as_bytes();
            let prefix = "vst2shell:".as_bytes();
            if bytes_start_with(b, prefix) {
                match parse_hex_i32_from(b, prefix.len()) {
                    Some(v) => v,
                    None => 0,
                }
            } else {
                0
            }
        },
        None => 0,
    }
}

/// Refuses a plug-in with more inputs or outputs than the real-time-safe
/// `limit`.
pub fn validate_plugin_channel_count(inputs: usize, outputs: usize, limit: usize) -> (r: Result<(), String>)
    ensures
        r is Ok <==> (inputs <= limit && outputs <= limit),
        r matches Err(e) ==> e@ == "Plugin channel count exceeds the real-time-safe limit ("@
            + decimal(inputs as nat) + " inputs, "@ + decimal(outputs as nat) + " outputs, limit "@
            + decimal(limit as nat) + ")"@,
{
    if inputs > limit || outputs > limit {
        let mut msg = String::new();
        msg.append("Plugin channel count exceeds the real-time-safe limit (");
        append_decimal(&mut msg, inputs as u64);
        msg.append(" inputs, ");
        append_decimal(&mut msg, outputs as u64);
        msg.append(" outputs, limit ");
        append_decimal(&mut msg, limit as u64);
        msg.append(")");
        return Err(msg);
    }
    Ok(())
}

/// The latency of a VST2 plug-in: its reported initial delay, negative
/// values counting as none.
pub fn vst2_latency_samples(initial_delay: i32) -> (r: u32)
    ensures
        r == (if initial_delay < 0 { 0 } else { initial_delay as int }),
{
    if initial_delay < 0 {
        0
    } else {
        initial_delay as u32
    }
}

} // verus!
