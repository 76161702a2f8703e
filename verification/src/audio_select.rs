//! Choosing the audio backend and output device: the backends tried in
//! order (ASIO attempts with back-off, then WASAPI), whether a device handle
//! kept across a plug-in reload may be reused, and which output device of a
//! host is picked by name.

use vstd::prelude::*;
use vstd::utf8::encode_utf8;
use crate::platform::{contains, contains_bytes};
use crate::state_codec::{ascii_eq_ignore_case, eq_ignore_ascii_case};
use crate::text::{str_eq, to_lowercase, unicode_lowercase};

verus! {

/// Delays before each ASIO acquisition attempt, in milliseconds.
pub const ASIO_RETRY_DELAYS_MS: [u64; 6] = [0, 100, 250, 500, 1000, 1500];

/// The text of an optional string.
pub open spec fn opt_text(o: Option<String>) -> Option<Seq<char>> {
    match o {
        Some(s) => Some(s@),
        None => None,
    }
}

fn clone_text(o: &Option<String>) -> (r: Option<String>)
    ensures
        opt_text(r) == opt_text(*o),
{
    match o {
        Some(s) => Some(s.clone()),
        None => None,
    }
}

/// One attempt to open an audio backend.
pub struct BackendCandidate {
    /// The backend asked for; `None` lets the host pick.
    pub backend: Option<String>,
    /// The device asked for; `None` takes the default.
    pub device: Option<String>,
    /// The attempt's number; an attempt after the first waits first.
    pub attempt: u8,
    pub prefer_low_latency: bool,
}

/// A candidate as plain values.
pub open spec fn candidate_view(c: BackendCandidate) -> (Option<Seq<char>>, Option<Seq<char>>, u8, bool) {
    (opt_text(c.backend), opt_text(c.device), c.attempt, c.prefer_low_latency)
}

/// The ASIO attempts: one per retry delay, when an ASIO host exists.
pub open spec fn asio_candidates(device: Option<Seq<char>>, asio_available: bool) -> Seq<
    (Option<Seq<char>>, Option<Seq<char>>, u8, bool),
> {
    if asio_available {
        Seq::new(6, |i: int| (Some("asio"@), device, i as u8, true))
    } else {
        Seq::empty()
    }
}

/// The single WASAPI attempt.
pub open spec fn wasapi_candidate(device: Option<Seq<char>>) -> Seq<
    (Option<Seq<char>>, Option<Seq<char>>, u8, bool),
> {
    seq![(Some("wasapi"@), device, 0u8, false)]
}

/// The attempts for a lower-cased backend preference: "auto" or the empty
/// name tries ASIO then WASAPI; a name with "asio" tries ASIO, and WASAPI only
/// when no ASIO host exists; a name with "wasapi" tries WASAPI; any other
/// name is tried as given.
pub open spec fn spec_backend_candidates(
    preferred: Seq<char>,
    backend: Option<Seq<char>>,
    device: Option<Seq<char>>,
    asio_available: bool,
) -> Seq<(Option<Seq<char>>, Option<Seq<char>>, u8, bool)> {
    let p = encode_utf8(preferred);
    if preferred == "auto"@ || p.len() == 0 {
        asio_candidates(device, asio_available) + wasapi_candidate(device)
    } else if contains(p, encode_utf8("asio"@)) {
        asio_candidates(device, asio_available) + if asio_available {
            Seq::empty()
        } else {
            wasapi_candidate(device)
        }
    } else if contains(p, encode_utf8("wasapi"@)) {
        wasapi_candidate(device)
    } else {
        seq![(backend, device, 0u8, false)]
    }
}

/// The candidates list matches `expected` entry by entry.
pub open spec fn candidates_are(
    r: Seq<BackendCandidate>,
    expected: Seq<(Option<Seq<char>>, Option<Seq<char>>, u8, bool)>,
) -> bool {
    r.len() == expected.len() && forall|i: int|
        0 <= i < r.len() ==> #[trigger] candidate_view(r[i]) == expected[i]
}

fn push_asio_candidates(list: &mut Vec<BackendCandidate>, device: &Option<String>, asio_available: bool)
    ensures
        final(list)@.len() == old(list)@.len() + asio_candidates(opt_text(*device), asio_available).len(),
        forall|i: int|
            0 <= i < old(list)@.len() ==> #[trigger] final(list)@[i] == old(list)@[i],
        forall|i: int|
            0 <= i < asio_candidates(opt_text(*device), asio_available).len() ==> candidate_view(
                #[trigger] final(list)@[old(list)@.len() + i],
            ) == asio_candidates(opt_text(*device), asio_available)[i],
{
    if asio_available {
        let ghost start = list@;
        let mut attempt: u8 = 0;
        while attempt < 6
            invariant
                attempt <= 6,
                asio_available,
                list@.len() == start.len() + attempt,
                forall|i: int| 0 <= i < start.len() ==> #[trigger] list@[i] == start[i],
                forall|i: int|
                    0 <= i < attempt ==> candidate_view(#[trigger] list@[start.len() + i])
                        == asio_candidates(opt_text(*device), asio_available)[i],
            decreases 6 - attempt,
        {
            list.push(
                BackendCandidate {
                    backend: Some("asio".to_string()),
                    device: clone_text(device),
                    attempt,
                    prefer_low_latency: true,
                },
            );
            attempt = attempt + 1;
        }
    }
}

fn wasapi(device: &Option<String>) -> (c: BackendCandidate)
    ensures
        candidate_view(c) == wasapi_candidate(opt_text(*device))[0],
{
    BackendCandidate {
        backend: Some("wasapi".to_string()),
        device: clone_text(device),
        attempt: 0,
        prefer_low_latency: false,
    }
}

/// The backend attempts for the lower-cased preference `preferred`.
pub fn candidates_for_preference(
    preferred: &str,
    backend: &Option<String>,
    device: &Option<String>,
    asio_available: bool,
) -> (r: Vec<BackendCandidate>)
    ensures
        candidates_are(
            r@,
            spec_backend_candidates(preferred@, opt_text(*backend), opt_text(*device), asio_available),
        ),
{
    let ghost dev = opt_text(*device);
    let ghost expected = spec_backend_candidates(
        preferred@,
        opt_text(*backend),
        dev,
        asio_available,
    );
    let mut list: Vec<BackendCandidate> = Vec::new();
    let p = preferred.as_bytes();
    if str_eq(preferred, "auto") || p.len() == 0 {
        push_asio_candidates(&mut list, device, asio_available);
        list.push(wasapi(device));
        proof {
            let a = asio_candidates(dev, asio_available);
            assert forall|i: int| 0 <= i < list@.len() implies #[trigger] candidate_view(list@[i])
                == expected[i] by {
                if i < a.len() {
                    assert(candidate_view(list@[0 + i]) == a[i]);
                }
            }
        }
    } else if contains_bytes(p, "asio".as_bytes()) {
        push_asio_candidates(&mut list, device, asio_available);
        if !asio_available {
            list.push(wasapi(device));
        }
        proof {
            let a = asio_candidates(dev, asio_available);
            assert forall|i: int| 0 <= i < list@.len() implies #[trigger] candidate_view(list@[i])
                == expected[i] by {
                if i < a.len() {
                    assert(candidate_view(list@[0 + i]) == a[i]);
                }
            }
        }
    } else if contains_bytes(p, "wasapi".as_bytes()) {
        list.push(wasapi(device));
        assert(candidates_are(list@, expected));
    } else {
        list.push(
            BackendCandidate {
                backend: clone_text(backend),
                device: clone_text(device),
                attempt: 0,
                prefer_low_latency: false,
            },
        );
        assert(candidates_are(list@, expected));
    }
    list
}

/// The backend preference, lower-cased ("auto" when none is set), and the
/// backend attempts it gives.
pub fn backend_candidates(backend: &Option<String>, device: &Option<String>, asio_available: bool) -> (r: (
    String,
    Vec<BackendCandidate>,
))
    ensures
        r.0@ == unicode_lowercase(
            match opt_text(*backend) {
                Some(b) => b,
                None => "auto"@,
            },
        ),
        candidates_are(
            r.1@,
            spec_backend_candidates(r.0@, opt_text(*backend), opt_text(*device), asio_available),
        ),
{
    let preferred = match backend {
        Some(b) => to_lowercase(b.as_str()),
        None => to_lowercase("auto"),
    };
    let list = candidates_for_preference(preferred.as_str(), backend, device, asio_available);
    (preferred, list)
}

/// The wait before ASIO attempt `attempt`.
pub fn asio_retry_delay_ms(attempt: u8) -> (r: u64)
    requires
        attempt < 6,
    ensures
        r == ASIO_RETRY_DELAYS_MS@[attempt as int],
{
    let delays = ASIO_RETRY_DELAYS_MS;
    delays[attempt as usize]
}

/// Whether a device kept from the previous run may be reused: its backend
/// is the one preferred (ASIO when the preference is "auto"), ignoring ASCII
/// case, and it is the device asked for, if one is.
pub open spec fn spec_retained_matches(
    retained_backend: Seq<char>,
    retained_name: Seq<char>,
    preferred: Seq<char>,
    requested: Option<Seq<char>>,
) -> bool {
    (ascii_eq_ignore_case(encode_utf8(retained_backend), encode_utf8(preferred)) || (preferred
        == "auto"@ && ascii_eq_ignore_case(encode_utf8(retained_backend), encode_utf8("asio"@))))
        && match requested {
        Some(d) => d == retained_name,
        None => true,
    }
}

/// Decides whether the retained device handle is reused.
pub fn retained_device_matches(
    retained_backend: &str,
    retained_name: &str,
    preferred: &str,
    requested: &Option<String>,
) -> (r: bool)
    ensures
        r == spec_retained_matches(retained_backend@, retained_name@, preferred@, opt_text(*requested)),
{
    let backend_matches = eq_ignore_ascii_case(retained_backend, preferred) || (str_eq(
        preferred,
        "auto",
    ) && eq_ignore_ascii_case(retained_backend, "asio"));
    let device_matches = match requested {
        Some(d) => str_eq(d.as_str(), retained_name),
        None => true,
    };
    backend_matches && device_matches
}

/// The device names of a host as plain values; `None` where a name could
/// not be read.
pub open spec fn names_view(names: Seq<Option<String>>) -> Seq<Option<Seq<char>>> {
    names.map_values(|o: Option<String>| opt_text(o))
}

/// The first name, from `i` on, that satisfies `p`.
pub open spec fn first_where(names: Seq<Option<Seq<char>>>, p: spec_fn(Option<Seq<char>>) -> bool, i: int) -> Option<int>
    decreases names.len() - i,
{
    if i >= names.len() {
        None
    } else if p(names[i]) {
        Some(i)
    } else {
        first_where(names, p, i + 1)
    }
}

proof fn lemma_first_where_skip(names: Seq<Option<Seq<char>>>, p: spec_fn(Option<Seq<char>>) -> bool, a: int, b: int)
    requires
        0 <= a <= b <= names.len(),
        forall|j: int| a <= j < b ==> !p(#[trigger] names[j]),
    ensures
        first_where(names, p, a) == first_where(names, p, b),
    decreases b - a,
{
    if a < b {
        lemma_first_where_skip(names, p, a + 1, b);
    }
}

/// The lower-cased bytes of a name.
pub open spec fn lowered(n: Seq<char>) -> Seq<u8> {
    encode_utf8(unicode_lowercase(n))
}

/// `hay` contains one of `keywords`.
pub open spec fn has_keyword(hay: Seq<u8>, keywords: Seq<Seq<char>>) -> bool {
    exists|k: int| 0 <= k < keywords.len() && #[trigger] contains(hay, encode_utf8(keywords[k]))
}

/// Virtual devices preferred on an ASIO host.
pub open spec fn asio_keywords() -> Seq<Seq<char>> {
    seq!["voicemeeter"@, "vb-audio"@, "virtual asio"@, "virtual cable"@]
}

/// Virtual devices preferred on another host.
pub open spec fn wasapi_keywords() -> Seq<Seq<char>> {
    seq!["voicemeeter"@, "vb-audio"@, "virtual cable"@, "hifi cable"@, "hifi-cable"@]
}

/// A readable name whose lower-cased form holds one of `keywords`.
pub open spec fn keyword_name(keywords: Seq<Seq<char>>) -> spec_fn(Option<Seq<char>>) -> bool {
    |n: Option<Seq<char>>| n matches Some(x) && has_keyword(lowered(x), keywords)
}

/// Physical speakers: the lower-cased name mentions speakers and none of
/// the virtual or capture devices.
pub open spec fn is_speaker_name(l: Seq<u8>) -> bool {
    &&& (contains(l, encode_utf8("speakers"@)) || contains(l, encode_utf8("haut-parleurs"@)))
    &&& !contains(l, encode_utf8("voicemeeter"@))
    &&& !contains(l, encode_utf8("cable"@))
    &&& !contains(l, encode_utf8("steam"@))
    &&& !contains(l, encode_utf8("microphone"@))
}

/// A readable name of physical speakers.
pub open spec fn speaker_name() -> spec_fn(Option<Seq<char>>) -> bool {
    |n: Option<Seq<char>>| n matches Some(x) && is_speaker_name(lowered(x))
}

/// The name asked for, exactly.
pub open spec fn exact_name(want: Seq<char>) -> spec_fn(Option<Seq<char>>) -> bool {
    |n: Option<Seq<char>>| n == Some(want)
}

/// A name containing the one asked for.
pub open spec fn partial_name(want: Seq<char>) -> spec_fn(Option<Seq<char>>) -> bool {
    |n: Option<Seq<char>>| n matches Some(x) && contains(encode_utf8(x), encode_utf8(want))
}

/// The output device chosen on a host.
#[derive(Clone, Copy, Debug, PartialEq, Eq, Structural)]
pub enum DeviceChoice {
    /// The device at this index of the host's list.
    Listed(usize),
    /// The host's default output device.
    HostDefault,
    /// No device.
    NoDevice,
}

/// The device chosen among `names`: the one asked for, by exact name, then
/// by a name containing it; else on ASIO the first virtual device, else the
/// first device; elsewhere the first virtual device, then physical speakers,
/// then the host's default.
pub open spec fn spec_select_device(names: Seq<Option<Seq<char>>>, preferred: Option<Seq<char>>, is_asio: bool) -> DeviceChoice {
    let exact = match preferred {
        Some(p) => first_where(names, exact_name(p), 0),
        None => None,
    };
    let partial = match preferred {
        Some(p) => first_where(names, partial_name(p), 0),
        None => None,
    };
    if exact is Some {
        DeviceChoice::Listed(exact->0 as usize)
    } else if partial is Some {
        DeviceChoice::Listed(partial->0 as usize)
    } else if is_asio {
        match first_where(names, keyword_name(asio_keywords()), 0) {
            Some(k) => DeviceChoice::Listed(k as usize),
            None => if names.len() > 0 {
                DeviceChoice::Listed(0)
            } else {
                DeviceChoice::NoDevice
            },
        }
    } else {
        match first_where(names, keyword_name(wasapi_keywords()), 0) {
            Some(k) => DeviceChoice::Listed(k as usize),
            None => match first_where(names, speaker_name(), 0) {
                Some(k) => DeviceChoice::Listed(k as usize),
                None => DeviceChoice::HostDefault,
            },
        }
    }
}

proof fn lemma_first_where_at(names: Seq<Option<Seq<char>>>, p: spec_fn(Option<Seq<char>>) -> bool, k: int)
    requires
        0 <= k < names.len(),
        p(names[k]),
        forall|j: int| 0 <= j < k ==> !p(#[trigger] names[j]),
    ensures
        first_where(names, p, 0) == Some(k),
{
    lemma_first_where_skip(names, p, 0, k);
}

/// Law: the device asked for wins on every host. When some listed name is
/// exactly the preferred one, the first such device is chosen, whether the
/// host is ASIO or not.
pub proof fn lemma_requested_device_chosen(names: Seq<Option<Seq<char>>>, preferred: Seq<char>, is_asio: bool, k: int)
    requires
        0 <= k < names.len(),
        names[k] == Some(preferred),
        forall|j: int| 0 <= j < k ==> #[trigger] names[j] != Some(preferred),
    ensures
        spec_select_device(names, Some(preferred), is_asio) == DeviceChoice::Listed(k as usize),
{
    assert forall|j: int| 0 <= j < k implies !exact_name(preferred)(#[trigger] names[j]) by {}
    lemma_first_where_at(names, exact_name(preferred), k);
}

/// Law: without an exact match, the first device whose name contains the
/// one asked for is chosen, on every host.
pub proof fn lemma_partially_named_device_chosen(names: Seq<Option<Seq<char>>>, preferred: Seq<char>, is_asio: bool, k: int)
    requires
        0 <= k < names.len(),
        forall|j: int| 0 <= j < names.len() ==> #[trigger] names[j] != Some(preferred),
        names[k] matches Some(x) && contains(encode_utf8(x), encode_utf8(preferred)),
        forall|j: int| 0 <= j < k ==> !((#[trigger] names[j]) matches Some(x) && contains(encode_utf8(x), encode_utf8(preferred))),
    ensures
        spec_select_device(names, Some(preferred), is_asio) == DeviceChoice::Listed(k as usize),
{
    assert forall|j: int| 0 <= j < names.len() implies !exact_name(preferred)(#[trigger] names[j]) by {}
    lemma_first_where_skip(names, exact_name(preferred), 0, names.len() as int);
    assert forall|j: int| 0 <= j < k implies !partial_name(preferred)(#[trigger] names[j]) by {}
    lemma_first_where_at(names, partial_name(preferred), k);
}

fn keyword_hit(lower: &[u8], keywords: &[&str]) -> (r: bool)
    ensures
        r == has_keyword(lower@, keywords@.map_values(|k: &str| k@)),
{
    let ghost kws = keywords@.map_values(|k: &str| k@);
    let mut i: usize = 0;
    while i < keywords.len()
        invariant
            i <= keywords@.len(),
            kws == keywords@.map_values(|k: &str| k@),
            forall|k: int| 0 <= k < i ==> !#[trigger] contains(lower@, encode_utf8(kws[k])),
        decreases keywords@.len() - i,
    {
        if contains_bytes(lower, keywords[i].as_bytes()) {
            assert(contains(lower@, encode_utf8(kws[i as int])));
            return true;
        }
        i = i + 1;
    }
    false
}


fn find_exact(names: &[Option<String>], want: &str) -> (r: Option<usize>)
    ensures
        match r {
            Some(k) => first_where(names_view(names@), exact_name(want@), 0) == Some(k as int),
            None => first_where(names_view(names@), exact_name(want@), 0) is None,
        },
{
    let ghost v = names_view(names@);
    let mut i: usize = 0;
    while i < names.len()
        invariant
            i <= names@.len(),
            v == names_view(names@),
            forall|j: int| 0 <= j < i ==> !exact_name(want@)(#[trigger] v[j]),
        decreases names@.len() - i,
    {
        let hit = match &names[i] {
            Some(n) => str_eq(n.as_str(), want),
            None => false,
        };
        if hit {
            proof {
                lemma_first_where_skip(v, exact_name(want@), 0, i as int);
            }
            return Some(i);
        }
        i = i + 1;
    }
    proof {
        lemma_first_where_skip(v, exact_name(want@), 0, names@.len() as int);
    }
    None
}

fn find_partial(names: &[Option<String>], want: &str) -> (r: Option<usize>)
    ensures
        match r {
            Some(k) => first_where(names_view(names@), partial_name(want@), 0) == Some(k as int),
            None => first_where(names_view(names@), partial_name(want@), 0) is None,
        },
{
    let ghost v = names_view(names@);
    let mut i: usize = 0;
    while i < names.len()
        invariant
            i <= names@.len(),
            v == names_view(names@),
            forall|j: int| 0 <= j < i ==> !partial_name(want@)(#[trigger] v[j]),
        decreases names@.len() - i,
    {
        let hit = match &names[i] {
            Some(n) => contains_bytes(n.as_str().as_bytes(), want.as_bytes()),
            None => false,
        };
        if hit {
            proof {
                lemma_first_where_skip(v, partial_name(want@), 0, i as int);
            }
            return Some(i);
        }
        i = i + 1;
    }
    proof {
        lemma_first_where_skip(v, partial_name(want@), 0, names@.len() as int);
    }
    None
}

fn find_keyword(names: &[Option<String>], keywords: &[&str]) -> (r: Option<usize>)
    ensures
        match r {
            Some(k) => first_where(
                names_view(names@),
                keyword_name(keywords@.map_values(|k: &str| k@)),
                0,
            ) == Some(k as int),
            None => first_where(
                names_view(names@),
                keyword_name(keywords@.map_values(|k: &str| k@)),
                0,
            ) is None,
        },
{
    let ghost v = names_view(names@);
    let ghost p = keyword_name(keywords@.map_values(|k: &str| k@));
    let mut i: usize = 0;
    while i < names.len()
        invariant
            i <= names@.len(),
            v == names_view(names@),
            p == keyword_name(keywords@.map_values(|k: &str| k@)),
            forall|j: int| 0 <= j < i ==> !p(#[trigger] v[j]),
        decreases names@.len() - i,
    {
        let hit = match &names[i] {
            Some(n) => {
                let l = to_lowercase(n.as_str());
                keyword_hit(l.as_str().as_bytes(), keywords)
            },
            None => false,
        };
        if hit {
            proof {
                lemma_first_where_skip(v, p, 0, i as int);
            }
            return Some(i);
        }
        i = i + 1;
    }
    proof {
        lemma_first_where_skip(v, p, 0, names@.len() as int);
    }
    None
}

fn speaker_hit(l: &[u8]) -> (r: bool)
    ensures
        r == is_speaker_name(l@),
{
    (contains_bytes(l, "speakers".as_bytes()) || contains_bytes(l, "haut-parleurs".as_bytes()))
        && !contains_bytes(l, "voicemeeter".as_bytes()) && !contains_bytes(l, "cable".as_bytes())
        && !contains_bytes(l, "steam".as_bytes()) && !contains_bytes(l, "microphone".as_bytes())
}

fn find_speakers(names: &[Option<String>]) -> (r: Option<usize>)
    ensures
        match r {
            Some(k) => first_where(names_view(names@), speaker_name(), 0) == Some(k as int),
            None => first_where(names_view(names@), speaker_name(), 0) is None,
        },
{
    let ghost v = names_view(names@);
    let mut i: usize = 0;
    while i < names.len()
        invariant
            i <= names@.len(),
            v == names_view(names@),
            forall|j: int| 0 <= j < i ==> !speaker_name()(#[trigger] v[j]),
        decreases names@.len() - i,
    {
        let hit = match &names[i] {
            Some(n) => {
                let l = to_lowercase(n.as_str());
                speaker_hit(l.as_str().as_bytes())
            },
            None => false,
        };
        if hit {
            proof {
                lemma_first_where_skip(v, speaker_name(), 0, i as int);
            }
            return Some(i);
        }
        i = i + 1;
    }
    proof {
        lemma_first_where_skip(v, speaker_name(), 0, names@.len() as int);
    }
    None
}

/// Chooses the output device of a host from the names of its devices.
pub fn select_device(names: &[Option<String>], preferred: Option<&str>, is_asio: bool) -> (r: DeviceChoice)
    ensures
        r == spec_select_device(
            names_view(names@),
            match preferred {
                Some(p) => Some(p@),
                None => None,
            },
            is_asio,
        ),
{
    if let Some(want) = preferred {
        if let Some(k) = find_exact(names, want) {
            return DeviceChoice::Listed(k);
        }
        if let Some(k) = find_partial(names, want) {
            return DeviceChoice::Listed(k);
        }
    }
    if is_asio {
        let keywords: [&str; 4] = ["voicemeeter", "vb-audio", "virtual asio", "virtual cable"];
        assert(keywords@.map_values(|k: &str| k@) =~= asio_keywords());
        if let Some(k) = find_keyword(names, keywords.as_slice()) {
            return DeviceChoice::Listed(k);
        }
        if names.len() > 0 {
            DeviceChoice::Listed(0)
        } else {
            DeviceChoice::NoDevice
        }
    } else {
        let keywords: [&str; 5] = [
            "voicemeeter",
            "vb-audio",
            "virtual cable",
            "hifi cable",
            "hifi-cable",
        ];
        assert(keywords@.map_values(|k: &str| k@) =~= wasapi_keywords());
        if let Some(k) = find_keyword(names, keywords.as_slice()) {
            return DeviceChoice::Listed(k);
        }
        match find_speakers(names) {
            Some(k) => DeviceChoice::Listed(k),
            None => DeviceChoice::HostDefault,
        }
    }
}

/// An audio host API.
#[derive(Clone, Copy, Debug, PartialEq, Eq, Structural)]
pub enum HostKind {
    Asio,
    Wasapi,
}

/// The host a backend name asks for, by its lower-cased form.
pub open spec fn spec_requested_host(lowered_name: Seq<u8>) -> Option<HostKind> {
    if contains(lowered_name, encode_utf8("asio"@)) {
        Some(HostKind::Asio)
    } else if contains(lowered_name, encode_utf8("wasapi"@)) {
        Some(HostKind::Wasapi)
    } else {
        None
    }
}

/// The hosts to open, in order, until one opens: the host asked for alone
/// when it is available; else ASIO, then WASAPI, those available.
pub open spec fn spec_host_attempts(requested: Option<HostKind>, asio_available: bool, wasapi_available: bool) -> Seq<HostKind> {
    let available = |h: HostKind| if h == HostKind::Asio { asio_available } else { wasapi_available };
    if requested is Some && available(requested->0) {
        seq![requested->0]
    } else {
        (if asio_available { seq![HostKind::Asio] } else { Seq::empty() }) + (if wasapi_available {
            seq![HostKind::Wasapi]
        } else {
            Seq::empty()
        })
    }
}

/// The hosts to open for the backend name `name`.
pub fn host_attempts(name: Option<&str>, asio_available: bool, wasapi_available: bool) -> (r: Vec<HostKind>)
    ensures
        r@ == spec_host_attempts(
            match name {
                Some(n) => spec_requested_host(lowered(n@)),
                None => None,
            },
            asio_available,
            wasapi_available,
        ),
{
    let requested = match name {
        Some(n) => {
            let l = to_lowercase(n);
            let b = l.as_str().as_bytes();
            if contains_bytes(b, "asio".as_bytes()) {
                Some(HostKind::Asio)
            } else if contains_bytes(b, "wasapi".as_bytes()) {
                Some(HostKind::Wasapi)
            } else {
                None
            }
        },
        None => None,
    };
    let mut hosts: Vec<HostKind> = Vec::new();
    match requested {
        Some(HostKind::Asio) if asio_available => {
            hosts.push(HostKind::Asio);
            assert(hosts@ =~= seq![HostKind::Asio]);
            return hosts;
        },
        Some(HostKind::Wasapi) if wasapi_available => {
            hosts.push(HostKind::Wasapi);
            assert(hosts@ =~= seq![HostKind::Wasapi]);
            return hosts;
        },
        _ => {},
    }
    if asio_available {
        hosts.push(HostKind::Asio);
    }
    if wasapi_available {
        hosts.push(HostKind::Wasapi);
    }
    let ghost a: Seq<HostKind> = if asio_available { seq![HostKind::Asio] } else { Seq::empty() };
    let ghost w: Seq<HostKind> = if wasapi_available { seq![HostKind::Wasapi] } else { Seq::empty() };
    assert(hosts@ =~= a + w);
    hosts
}

} // verus!
