//! MIDI ports of the bridge: which port a configured name selects, the
//! messages that reset an output, and the test messages the user can send.

use vstd::prelude::*;
use vstd::utf8::encode_utf8;
use crate::platform::{contains, contains_bytes};

verus! {

/// The port a configured name selects: the first port whose name could be
/// read and contains the configured one (an equal name contains it).
pub open spec fn first_port(names: Seq<Option<Seq<char>>>, want: Seq<char>, i: int) -> Option<int>
    decreases names.len() - i,
{
    if i >= names.len() {
        None
    } else if names[i] matches Some(n) && contains(encode_utf8(n), encode_utf8(want)) {
        Some(i)
    } else {
        first_port(names, want, i + 1)
    }
}

proof fn lemma_first_port_skip(names: Seq<Option<Seq<char>>>, want: Seq<char>, a: int, b: int)
    requires
        0 <= a <= b <= names.len(),
        forall|j: int|
            a <= j < b ==> !(#[trigger] names[j] matches Some(n) && contains(
                encode_utf8(n),
                encode_utf8(want),
            )),
    ensures
        first_port(names, want, a) == first_port(names, want, b),
    decreases b - a,
{
    if a < b {
        lemma_first_port_skip(names, want, a + 1, b);
    }
}

/// The port names as plain values.
pub open spec fn port_names_view(names: Seq<Option<String>>) -> Seq<Option<Seq<char>>> {
    names.map_values(
        |o: Option<String>|
            match o {
                Some(s) => Some(s@),
                None => None,
            },
    )
}

/// Selects the port for the configured name `preferred`; none without one.
pub fn select_port(names: &[Option<String>], preferred: Option<&str>) -> (r: Option<usize>)
    ensures
        match preferred {
            None => r is None,
            Some(want) => match r {
                Some(k) => first_port(port_names_view(names@), want@, 0) == Some(k as int),
                None => first_port(port_names_view(names@), want@, 0) is None,
            },
        },
{
    let want = match preferred {
        Some(w) => w,
        None => {
            return None;
        },
    };
    let ghost v = port_names_view(names@);
    let mut i: usize = 0;
    while i < names.len()
        invariant
            i <= names@.len(),
            preferred == Some(want),
            v == port_names_view(names@),
            forall|j: int|
                0 <= j < i ==> !(#[trigger] v[j] matches Some(n) && contains(
                    encode_utf8(n),
                    encode_utf8(want@),
                )),
        decreases names@.len() - i,
    {
        let hit = match &names[i] {
            Some(n) => contains_bytes(n.as_str().as_bytes(), want.as_bytes()),
            None => false,
        };
        if hit {
            proof {
                lemma_first_port_skip(v, want@, 0, i as int);
            }
            return Some(i);
        }
        i = i + 1;
    }
    proof {
        lemma_first_port_skip(v, want@, 0, names@.len() as int);
    }
    None
}

/// The `i`-th message that resets an output: for each channel in order,
/// sustain off, all sound off, reset all controllers, all notes off, and
/// pitch bend back to its centre.
pub open spec fn reset_output_message(i: int) -> Seq<u8> {
    let ch = (i / 5) as u8;
    let k = i % 5;
    if k == 0 {
        seq![0xB0u8 | ch, 64u8, 0u8]
    } else if k == 1 {
        seq![0xB0u8 | ch, 120u8, 0u8]
    } else if k == 2 {
        seq![0xB0u8 | ch, 121u8, 0u8]
    } else if k == 3 {
        seq![0xB0u8 | ch, 123u8, 0u8]
    } else {
        seq![0xE0u8 | ch, 0x00u8, 0x40u8]
    }
}

/// The messages sent to reset a MIDI output, 5 per channel.
pub fn reset_output_messages() -> (r: Vec<[u8; 3]>)
    ensures
        r@.len() == 80,
        forall|i: int| 0 <= i < 80 ==> (#[trigger] r@[i])@ == reset_output_message(i),
{
    let mut out: Vec<[u8; 3]> = Vec::new();
    let mut ch: u8 = 0;
    while ch < 16
        invariant
            ch <= 16,
            out@.len() == 5 * ch,
            forall|i: int| 0 <= i < 5 * ch ==> (#[trigger] out@[i])@ == reset_output_message(i),
        decreases 16 - ch,
    {
        let base = out.len();
        out.push([0xB0 | ch, 64, 0]);
        out.push([0xB0 | ch, 120, 0]);
        out.push([0xB0 | ch, 121, 0]);
        out.push([0xB0 | ch, 123, 0]);
        out.push([0xE0 | ch, 0x00, 0x40]);
        proof {
            assert forall|i: int| 0 <= i < 5 * (ch + 1) implies (#[trigger] out@[i])@
                == reset_output_message(i) by {
                if i >= 5 * ch {
                    assert(i / 5 == ch as int);
                    assert(out@[i]@ =~= reset_output_message(i));
                }
            }
        }
        ch = ch + 1;
    }
    out
}

/// The channel byte for a channel numbered 1 to 16; numbers outside are
/// taken as the nearest.
pub open spec fn test_channel(channel: u8) -> u8 {
    if channel < 1 {
        0
    } else if channel > 16 {
        15
    } else {
        (channel - 1) as u8
    }
}

fn channel_index(channel: u8) -> (r: u8)
    ensures
        r == test_channel(channel),
{
    if channel < 1 {
        0
    } else if channel > 16 {
        15
    } else {
        channel - 1
    }
}

fn data_byte(v: u8) -> (r: u8)
    ensures
        r == (if v < 127 { v } else { 127 }),
{
    if v < 127 {
        v
    } else {
        127
    }
}

/// The test note: a note-on now and its note-off later, on the channel
/// numbered `channel`, with note and velocity at most 127.
pub fn test_note_messages(note: u8, velocity: u8, channel: u8) -> (r: ([u8; 3], [u8; 3]))
    ensures
        r.0@ == seq![
            0x90u8 | test_channel(channel),
            if note < 127 { note } else { 127u8 },
            if velocity < 127 { velocity } else { 127u8 },
        ],
        r.1@ == seq![0x80u8 | test_channel(channel), if note < 127 { note } else { 127u8 }, 0u8],
{
    let ch = channel_index(channel);
    let n = data_byte(note);
    let v = data_byte(velocity);
    let on = [0x90 | ch, n, v];
    let off = [0x80 | ch, n, 0];
    assert(on@ =~= seq![0x90u8 | ch, n, v]);
    assert(off@ =~= seq![0x80u8 | ch, n, 0u8]);
    (on, off)
}

/// The test control change on the channel numbered `channel`, with
/// controller and value at most 127.
pub fn test_cc_message(cc: u8, value: u8, channel: u8) -> (r: [u8; 3])
    ensures
        r@ == seq![
            0xB0u8 | test_channel(channel),
            if cc < 127 { cc } else { 127u8 },
            if value < 127 { value } else { 127u8 },
        ],
{
    let ch = channel_index(channel);
    let c = data_byte(cc);
    let v = data_byte(value);
    let m = [0xB0 | ch, c, v];
    assert(m@ =~= seq![0xB0u8 | ch, c, v]);
    m
}

} // verus!
