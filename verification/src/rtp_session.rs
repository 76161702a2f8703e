//! Keeping the RTP-MIDI session in line with the configuration: which
//! configured remotes are worth resolving, the remote targets made of their
//! resolved addresses, and when the session has to be restarted.

use vstd::prelude::*;
use crate::config::{RtpConfig, RtpRemoteEntry, rtp_active};
use crate::rtp::SocketAddress;
use crate::text::str_eq;

verus! {

/// Unicode White_Space, the white space `str::trim` removes (as
/// `char::is_whitespace` documents it).
pub open spec fn is_unicode_white_space(c: char) -> bool {
    let u = c as u32;
    (0x09 <= u <= 0x0d) || u == 0x20 || u == 0x85 || u == 0xa0 || u == 0x1680 || (0x2000 <= u
        <= 0x200a) || u == 0x2028 || u == 0x2029 || u == 0x202f || u == 0x205f || u == 0x3000
}

/// `s` without its leading white space.
pub open spec fn trim_start_chars(s: Seq<char>) -> Seq<char>
    decreases s.len(),
{
    if s.len() > 0 && is_unicode_white_space(s[0]) {
        trim_start_chars(s.drop_first())
    } else {
        s
    }
}

/// `s` without its trailing white space.
pub open spec fn trim_end_chars(s: Seq<char>) -> Seq<char>
    decreases s.len(),
{
    if s.len() > 0 && is_unicode_white_space(s.last()) {
        trim_end_chars(s.drop_last())
    } else {
        s
    }
}

/// A string with its leading and trailing white space removed, as
/// `str::trim` gives it.
pub open spec fn trimmed(s: Seq<char>) -> Seq<char> {
    trim_end_chars(trim_start_chars(s))
}

/// Trusted: `str::trim` gives `s` without its leading and trailing
/// characters of the Unicode White_Space property.
#[verifier::external_body]
fn trim(s: &str) -> (r: &str)
    ensures
        r@ == trimmed(s@),
{
    s.trim()
}

/// A configured remote worth resolving: its trimmed name and host, and its
/// port.
pub struct RemoteCandidate {
    pub name: String,
    pub host: String,
    pub port: u16,
}

/// A candidate as plain values.
pub open spec fn candidate_view(c: RemoteCandidate) -> (Seq<char>, Seq<char>, u16) {
    (c.name@, c.host@, c.port)
}

/// Whether a configured remote is resolved at all: it connects
/// automatically, its trimmed host is not empty, and its port is not 0.
pub open spec fn remote_wanted(e: RtpRemoteEntry) -> bool {
    e.auto_connect && trimmed(e.host@).len() > 0 && e.port != 0
}

/// The candidates among `entries`, in order.
pub open spec fn candidates_of(entries: Seq<RtpRemoteEntry>) -> Seq<(Seq<char>, Seq<char>, u16)>
    decreases entries.len(),
{
    if entries.len() == 0 {
        Seq::empty()
    } else {
        let e = entries.last();
        candidates_of(entries.drop_last()) + if remote_wanted(e) {
            seq![(trimmed(e.name@), trimmed(e.host@), e.port)]
        } else {
            Seq::empty()
        }
    }
}

/// The remotes to resolve: none when remote sessions are off.
pub open spec fn spec_remote_candidates(rtp: RtpConfig) -> Seq<(Seq<char>, Seq<char>, u16)> {
    if rtp.remote_enabled {
        candidates_of(rtp.remotes@)
    } else {
        Seq::empty()
    }
}

/// Lists the configured remotes worth resolving.
pub fn remote_candidates(rtp: &RtpConfig) -> (r: Vec<RemoteCandidate>)
    ensures
        r@.map_values(|c: RemoteCandidate| candidate_view(c)) == spec_remote_candidates(*rtp),
{
    let mut out: Vec<RemoteCandidate> = Vec::new();
    if !rtp.remote_enabled {
        assert(out@.map_values(|c: RemoteCandidate| candidate_view(c)) =~= Seq::empty());
        return out;
    }
    let entries = &rtp.remotes;
    let mut i: usize = 0;
    while i < entries.len()
        invariant
            i <= entries@.len(),
            out@.map_values(|c: RemoteCandidate| candidate_view(c)) == candidates_of(
                entries@.take(i as int),
            ),
        decreases entries@.len() - i,
    {
        let e = &entries[i];
        let ghost before = out@;
        proof {
            assert(entries@.take(i + 1).drop_last() =~= entries@.take(i as int));
        }
        if e.auto_connect {
            let host = trim(e.host.as_str());
            if host.as_bytes().len() > 0 && e.port != 0 {
                proof {
                    assert(trimmed(e.host@).len() > 0) by {
                        if trimmed(e.host@).len() == 0 {
                            assert(host@ =~= Seq::<char>::empty());
                            assert(vstd::utf8::encode_utf8(host@) =~= Seq::<u8>::empty()) by {
                                reveal_with_fuel(vstd::utf8::encode_utf8, 2);
                            }
                        }
                    }
                }
                let name = trim(e.name.as_str());
                out.push(
                    RemoteCandidate { name: name.to_string(), host: host.to_string(), port: e.port },
                );
                assert(out@.map_values(|c: RemoteCandidate| candidate_view(c)) =~= before.map_values(
                    |c: RemoteCandidate| candidate_view(c),
                ).push(candidate_view(out@[before.len() as int])));
            } else {
                proof {
                    if vstd::utf8::encode_utf8(host@).len() == 0 {
                        assert(trimmed(e.host@).len() == 0) by {
                            if host@.len() > 0 {
                                vstd::utf8::encode_utf8_first_scalar(host@);
                            }
                        }
                    }
                }
            }
        }
        i = i + 1;
    }
    assert(entries@.take(entries@.len() as int) =~= entries@);
    out
}

/// A remote target of the RTP-MIDI session.
pub struct SessionTarget {
    pub name: String,
    pub addr: SocketAddress,
}

/// A target as plain values.
pub open spec fn target_view(t: SessionTarget) -> (Seq<char>, SocketAddress) {
    (t.name@, t.addr)
}

/// The addresses of some targets.
pub open spec fn target_addrs(ts: Seq<(Seq<char>, SocketAddress)>) -> Seq<SocketAddress> {
    ts.map_values(|t: (Seq<char>, SocketAddress)| t.1)
}

/// The targets made of the first `n` candidates and their resolved
/// addresses: a candidate that did not resolve, or resolved to an address
/// already taken, is left out; a target without a name is named after its
/// host.
pub open spec fn targets_of(
    cands: Seq<(Seq<char>, Seq<char>, u16)>,
    resolved: Seq<Option<SocketAddress>>,
    n: int,
) -> Seq<(Seq<char>, SocketAddress)>
    decreases n,
{
    if n <= 0 {
        Seq::empty()
    } else {
        let before = targets_of(cands, resolved, n - 1);
        let c = cands[n - 1];
        match resolved[n - 1] {
            Some(a) => if target_addrs(before).contains(a) {
                before
            } else {
                before.push((if c.0.len() == 0 { c.1 } else { c.0 }, a))
            },
            None => before,
        }
    }
}

/// Builds the session's remote targets from the candidates and what each
/// resolved to (`resolved[i]` for `cands[i]`).
pub fn session_targets(cands: &Vec<RemoteCandidate>, resolved: &Vec<Option<SocketAddress>>) -> (r: Vec<SessionTarget>)
    requires
        cands@.len() == resolved@.len(),
    ensures
        r@.map_values(|t: SessionTarget| target_view(t)) == targets_of(
            cands@.map_values(|c: RemoteCandidate| candidate_view(c)),
            resolved@,
            cands@.len() as int,
        ),
{
    let ghost cv = cands@.map_values(|c: RemoteCandidate| candidate_view(c));
    let mut out: Vec<SessionTarget> = Vec::new();
    let mut i: usize = 0;
    while i < cands.len()
        invariant
            i <= cands@.len(),
            cands@.len() == resolved@.len(),
            cv == cands@.map_values(|c: RemoteCandidate| candidate_view(c)),
            out@.map_values(|t: SessionTarget| target_view(t)) == targets_of(cv, resolved@, i as int),
        decreases cands@.len() - i,
    {
        let ghost before = out@.map_values(|t: SessionTarget| target_view(t));
        if let Some(a) = resolved[i] {
            let mut seen = false;
            let mut j: usize = 0;
            while j < out.len()
                invariant
                    j <= out@.len(),
                    before == out@.map_values(|t: SessionTarget| target_view(t)),
                    seen == (exists|k: int| 0 <= k < j && #[trigger] out@[k].addr == a),
                decreases out@.len() - j,
            {
                if out[j].addr == a {
                    seen = true;
                }
                j = j + 1;
            }
            proof {
                if seen {
                    let k = choose|k: int| 0 <= k < out@.len() && #[trigger] out@[k].addr == a;
                    assert(target_addrs(before)[k] == a);
                } else {
                    assert forall|k: int| 0 <= k < target_addrs(before).len() implies target_addrs(
                        before,
                    )[k] != a by {
                        assert(out@[k].addr == target_addrs(before)[k]);
                    }
                }
            }
            if !seen {
                let c = &cands[i];
                let name = if c.name.as_str().as_bytes().len() == 0 {
                    proof {
                        assert(c.name@.len() == 0) by {
                            if c.name@.len() > 0 {
                                vstd::utf8::encode_utf8_first_scalar(c.name@);
                            }
                        }
                    }
                    c.host.clone()
                } else {
                    proof {
                        assert(c.name@.len() != 0) by {
                            if c.name@.len() == 0 {
                                assert(vstd::utf8::encode_utf8(c.name@) =~= Seq::<u8>::empty()) by {
                                    reveal_with_fuel(vstd::utf8::encode_utf8, 2);
                                }
                            }
                        }
                    }
                    c.name.clone()
                };
                out.push(SessionTarget { name, addr: a });
                assert(out@.map_values(|t: SessionTarget| target_view(t)) =~= before.push(
                    target_view(out@[before.len() as int]),
                ));
            }
        }
        i = i + 1;
    }
    out
}

/// What the running session was started with.
pub struct RtpSessionSnapshot {
    pub name: String,
    pub requested_port: u16,
    pub bound_port: u16,
    pub remote_enabled: bool,
    pub remote_targets: Vec<SessionTarget>,
    pub log_rtp: bool,
}

/// The targets as plain values.
pub open spec fn targets_view(ts: Seq<SessionTarget>) -> Seq<(Seq<char>, SocketAddress)> {
    ts.map_values(|t: SessionTarget| target_view(t))
}

/// Whether the running session differs from the configuration and the
/// targets just resolved.
pub open spec fn snapshot_differs(c: RtpSessionSnapshot, rtp: RtpConfig, targets: Seq<SessionTarget>) -> bool {
    ||| c.name@ != rtp.session_name@
    ||| c.requested_port != rtp.port
    ||| c.remote_enabled != rtp.remote_enabled
    ||| targets_view(c.remote_targets@) != targets_view(targets)
    ||| c.log_rtp != rtp.log_messages
}

/// The session is restarted when asked to, when no server runs, when
/// nothing is known of it, or when it differs from the configuration.
pub open spec fn spec_needs_restart(
    force_restart: bool,
    server_running: bool,
    current: Option<RtpSessionSnapshot>,
    rtp: RtpConfig,
    targets: Seq<SessionTarget>,
) -> bool {
    force_restart || !server_running || match current {
        Some(c) => snapshot_differs(c, rtp, targets),
        None => true,
    }
}

fn same_targets(a: &Vec<SessionTarget>, b: &Vec<SessionTarget>) -> (r: bool)
    ensures
        r == (targets_view(a@) == targets_view(b@)),
{
    if a.len() != b.len() {
        proof {
            assert(targets_view(a@).len() != targets_view(b@).len());
        }
        return false;
    }
    let mut i: usize = 0;
    while i < a.len()
        invariant
            a@.len() == b@.len(),
            i <= a@.len(),
            forall|k: int| 0 <= k < i ==> #[trigger] target_view(a@[k]) == target_view(b@[k]),
        decreases a@.len() - i,
    {
        if !str_eq(a[i].name.as_str(), b[i].name.as_str()) || a[i].addr != b[i].addr {
            proof {
                assert(targets_view(a@)[i as int] != targets_view(b@)[i as int]);
            }
            return false;
        }
        i = i + 1;
    }
    assert(targets_view(a@) =~= targets_view(b@));
    true
}

/// Whether the RTP-MIDI session has to be (re)started.
pub fn rtp_needs_restart(
    force_restart: bool,
    server_running: bool,
    current: &Option<RtpSessionSnapshot>,
    rtp: &RtpConfig,
    targets: &Vec<SessionTarget>,
) -> (r: bool)
    ensures
        r == spec_needs_restart(force_restart, server_running, *current, *rtp, targets@),
{
    if force_restart || !server_running {
        return true;
    }
    match current {
        None => true,
        Some(c) => {
            !str_eq(c.name.as_str(), rtp.session_name.as_str()) || c.requested_port != rtp.port
                || c.remote_enabled != rtp.remote_enabled || !same_targets(
                &c.remote_targets,
                targets,
            ) || c.log_rtp != rtp.log_messages
        },
    }
}

/// What keeping the session in line with the configuration asks for.
#[derive(Clone, Copy, Debug, PartialEq, Eq, Structural)]
pub enum RtpSyncAction {
    /// The running session already matches.
    Keep,
    /// Stop the running server, if any, and start a new one.
    Restart,
    /// No session is wanted: stop the server, forget the snapshot, and
    /// report no participants.
    Shutdown,
}

/// Decides how to bring the session in line: a session is wanted when RTP-MIDI
/// is active for the configuration, and then restarted when
/// `rtp_needs_restart` says so.
pub fn sync_rtp_action(
    rtp: &RtpConfig,
    midi_input: &Option<String>,
    force_restart: bool,
    server_running: bool,
    current: &Option<RtpSessionSnapshot>,
    targets: &Vec<SessionTarget>,
) -> (r: RtpSyncAction)
    ensures
        r == (if !(rtp.enabled || rtp.remote_enabled || (midi_input matches Some(name) && name@
            == crate::config::RTP_VIRTUAL_INPUT@)) {
            RtpSyncAction::Shutdown
        } else if spec_needs_restart(force_restart, server_running, *current, *rtp, targets@) {
            RtpSyncAction::Restart
        } else {
            RtpSyncAction::Keep
        }),
{
    if !rtp_active(rtp, midi_input) {
        RtpSyncAction::Shutdown
    } else if rtp_needs_restart(force_restart, server_running, current, rtp, targets) {
        RtpSyncAction::Restart
    } else {
        RtpSyncAction::Keep
    }
}

/// Whether the running session holds `port`, the one it asked for or the
/// one it got.
pub fn owns_rtp_port(server_running: bool, current: &Option<RtpSessionSnapshot>, port: u16) -> (r: bool)
    ensures
        r == (server_running && match *current {
            Some(c) => c.bound_port == port || c.requested_port == port,
            None => false,
        }),
{
    if !server_running {
        return false;
    }
    match current {
        Some(c) => c.bound_port == port || c.requested_port == port,
        None => false,
    }
}

} // verus!
