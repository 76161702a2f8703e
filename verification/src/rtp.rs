//! RTP-MIDI: remote targets, their validation and statistics, and the state
//! of the RTP-MIDI server as the bridge manages it.

use vstd::prelude::*;
use vstd::string::StringExecFns;
use crate::midi::MidiFrame;
use crate::text::{append_decimal, decimal};

verus! {

/// A socket address: an IPv4 address (as its 32-bit value) or an IPv6
/// address (as its 128-bit value), with a port.
#[derive(Clone, Copy, Debug, PartialEq, Eq, Structural)]
pub enum SocketAddress {
    V4 { ip: u32, port: u16 },
    V6 { ip6: u128, port: u16 },
}

impl SocketAddress {
    /// Whether this is an IPv4 address.
    pub fn is_ipv4(&self) -> (r: bool)
        ensures
            r == (*self is V4),
    {
        match self {
            SocketAddress::V4 { .. } => true,
            SocketAddress::V6 { .. } => false,
        }
    }
}

/// A remote RTP-MIDI peer and, once resolved, its address.
#[derive(Clone)]
pub struct RtpRemoteTarget {
    pub host: String,
    pub port: u16,
    pub resolved_addr: Option<SocketAddress>,
}

/// The preference key of an address.
pub open spec fn spec_sort_key(a: SocketAddress) -> (u8, u128, u16) {
    match a {
        SocketAddress::V4 { ip, port } => (0u8, ip as u128, port),
        SocketAddress::V6 { ip6, port } => (1u8, ip6, port),
    }
}

/// Lexicographic order of preference keys.
pub open spec fn key_less(a: (u8, u128, u16), b: (u8, u128, u16)) -> bool {
    a.0 < b.0 || (a.0 == b.0 && (a.1 < b.1 || (a.1 == b.1 && a.2 < b.2)))
}

/// Statistics over a list of remote targets.
#[derive(Clone, Copy, Debug, PartialEq, Eq, Structural)]
pub struct RtpTargetStats {
    pub total: usize,
    pub resolved: usize,
    pub ipv4: usize,
    pub ipv6: usize,
}

/// Validation and statistics of remote targets.
pub struct RtpTargetResolver;

/// Why a target is refused.
pub open spec fn spec_target_error(host: Seq<char>, port: u32) -> Option<Seq<char>> {
    if host.len() == 0 {
        Some("Le nom de la cible RTP ne peut pas être vide"@)
    } else if port == 0 {
        Some("Le port de la cible RTP ne peut pas être 0"@)
    } else if port > 65535 {
        Some("Le port de la cible RTP doit être inférieur à 65536"@)
    } else {
        None
    }
}

pub open spec fn count_resolved(ts: Seq<RtpRemoteTarget>) -> nat
    decreases ts.len(),
{
    if ts.len() == 0 {
        0
    } else {
        count_resolved(ts.drop_last()) + if ts.last().resolved_addr is Some { 1nat } else { 0nat }
    }
}

pub open spec fn count_v4(ts: Seq<RtpRemoteTarget>) -> nat
    decreases ts.len(),
{
    if ts.len() == 0 {
        0
    } else {
        count_v4(ts.drop_last()) + if ts.last().resolved_addr matches Some(a) && a is V4 {
            1nat
        } else {
            0nat
        }
    }
}

pub open spec fn count_v6(ts: Seq<RtpRemoteTarget>) -> nat
    decreases ts.len(),
{
    if ts.len() == 0 {
        0
    } else {
        count_v6(ts.drop_last()) + if ts.last().resolved_addr matches Some(a) && a is V6 {
            1nat
        } else {
            0nat
        }
    }
}

proof fn lemma_counts(ts: Seq<RtpRemoteTarget>)
    ensures
        count_v4(ts) + count_v6(ts) == count_resolved(ts),
        count_resolved(ts) <= ts.len(),
    decreases ts.len(),
{
    if ts.len() > 0 {
        lemma_counts(ts.drop_last());
    }
}

/// The text of `description`.
pub open spec fn spec_description(s: RtpTargetStats) -> Seq<char> {
    decimal(s.resolved as nat) + "/"@ + decimal(s.total as nat) + " cibles résolues (IPv4: "@
        + decimal(s.ipv4 as nat) + ", IPv6: "@ + decimal(s.ipv6 as nat) + ")"@
}

impl RtpTargetResolver {
    /// Checks a target: the host must not be empty and the port not 0.
    pub fn validate_target(target: &RtpRemoteTarget) -> (r: Result<(), String>)
        ensures
            match spec_target_error(target.host@, target.port as u32) {
                Some(msg) => r matches Err(e) && e@ == msg,
                None => r is Ok,
            },
    {
        if target.host.as_str().unicode_len() == 0 {
            return Err("Le nom de la cible RTP ne peut pas être vide".to_string());
        }
        if target.port == 0 {
            return Err("Le port de la cible RTP ne peut pas être 0".to_string());
        }
        Ok(())
    }

    /// A validated, not yet resolved target; the port must be between 1
    /// and 65535.
    pub fn create_target(host: String, port: u32) -> (r: Result<RtpRemoteTarget, String>)
        ensures
            match spec_target_error(host@, port) {
                Some(msg) => r matches Err(e) && e@ == msg,
                None => r matches Ok(t) && t.host@ == host@ && t.port == port
                    && t.resolved_addr is None,
            },
    {
        if host.as_str().unicode_len() == 0 {
            return Err("Le nom de la cible RTP ne peut pas être vide".to_string());
        }
        if port > 65535 {
            return Err("Le port de la cible RTP doit être inférieur à 65536".to_string());
        }
        let target = RtpRemoteTarget { host, port: port as u16, resolved_addr: None };
        match Self::validate_target(&target) {
            Err(e) => Err(e),
            Ok(()) => Ok(target),
        }
    }

    /// Counts the targets, the resolved ones, and these by address family.
    pub fn get_target_stats(targets: &[RtpRemoteTarget]) -> (r: RtpTargetStats)
        ensures
            r.total == targets@.len(),
            r.resolved == count_resolved(targets@),
            r.ipv4 == count_v4(targets@),
            r.ipv6 == count_v6(targets@),
    {
        let mut resolved: usize = 0;
        let mut ipv4: usize = 0;
        let mut ipv6: usize = 0;
        let mut i: usize = 0;
        while i < targets.len()
            invariant
                i <= targets@.len(),
                resolved == count_resolved(targets@.take(i as int)),
                ipv4 == count_v4(targets@.take(i as int)),
                ipv6 == count_v6(targets@.take(i as int)),
            decreases targets@.len() - i,
        {
            proof {
                assert(targets@.take(i as int + 1).drop_last() =~= targets@.take(i as int));
                lemma_counts(targets@.take(i as int));
            }
            match targets[i].resolved_addr {
                Some(a) => {
                    resolved = resolved + 1;
                    if a.is_ipv4() {
                        ipv4 = ipv4 + 1;
                    } else {
                        ipv6 = ipv6 + 1;
                    }
                },
                None => {},
            }
            i = i + 1;
        }
        assert(targets@.take(i as int) =~= targets@);
        RtpTargetStats { total: targets.len(), resolved, ipv4, ipv6 }
    }

    /// The order in which resolved addresses are preferred: IPv4 before
    /// IPv6, then by address, then by port.
    pub fn socket_addr_sort_key(addr: &SocketAddress) -> (r: (u8, u128, u16))
        ensures
            r == spec_sort_key(*addr),
    {
        match addr {
            SocketAddress::V4 { ip, port } => (0u8, *ip as u128, *port),
            SocketAddress::V6 { ip6, port } => (1u8, *ip6, *port),
        }
    }

    /// The address a host name resolves to among `addrs`: the first in the
    /// order of `socket_addr_sort_key`.
    pub fn preferred_socket_address(addrs: &[SocketAddress]) -> (r: Option<SocketAddress>)
        ensures
            addrs@.len() == 0 <==> r is None,
            r matches Some(a) ==> addrs@.contains(a) && forall|j: int|
                0 <= j < addrs@.len() ==> !key_less(spec_sort_key(#[trigger] addrs@[j]), spec_sort_key(a)),
    {
        if addrs.len() == 0 {
            return None;
        }
        let mut best = addrs[0];
        let mut i: usize = 1;
        while i < addrs.len()
            invariant
                1 <= i <= addrs@.len(),
                addrs@.contains(best),
                forall|j: int| 0 <= j < i ==> !key_less(spec_sort_key(#[trigger] addrs@[j]), spec_sort_key(best)),
            decreases addrs@.len() - i,
        {
            let a = addrs[i];
            let ka = Self::socket_addr_sort_key(&a);
            let kb = Self::socket_addr_sort_key(&best);
            if ka.0 < kb.0 || (ka.0 == kb.0 && (ka.1 < kb.1 || (ka.1 == kb.1 && ka.2 < kb.2))) {
                best = a;
            }
            i = i + 1;
        }
        Some(best)
    }

    /// Picks the address to use among those a host name resolved to: the
    /// first IPv4 one, or the only one, or else the first.
    pub fn choose_resolved_addr(addrs: &[SocketAddress]) -> (r: Option<SocketAddress>)
        ensures
            addrs@.len() == 0 ==> r is None,
            addrs@.len() == 1 ==> r == Some(addrs@[0]),
            addrs@.len() > 1 ==> (match r {
                Some(a) => (exists|i: int| 0 <= i < addrs@.len() && addrs@[i] == a && a is V4 && (
                    forall|j: int| 0 <= j < i ==> !(#[trigger] addrs@[j] is V4))) || ((forall|j: int|
                    0 <= j < addrs@.len() ==> !(#[trigger] addrs@[j] is V4)) && a == addrs@[0]),
                None => false,
            }),
    {
        if addrs.len() == 0 {
            return None;
        }
        if addrs.len() == 1 {
            return Some(addrs[0]);
        }
        let mut i: usize = 0;
        while i < addrs.len()
            invariant
                i <= addrs@.len(),
                addrs@.len() > 1,
                forall|j: int| 0 <= j < i ==> !(#[trigger] addrs@[j] is V4),
            decreases addrs@.len() - i,
        {
            if addrs[i].is_ipv4() {
                return Some(addrs[i]);
            }
            i = i + 1;
        }
        Some(addrs[0])
    }
}

impl RtpTargetStats {
    /// "<resolved>/<total> cibles résolues (IPv4: <ipv4>, IPv6: <ipv6>)".
    pub fn description(&self) -> (r: String)
        ensures
            r@ == spec_description(*self),
    {
        let mut s = String::new();
        append_decimal(&mut s, self.resolved as u64);
        s.append("/");
        append_decimal(&mut s, self.total as u64);
        s.append(" cibles résolues (IPv4: ");
        append_decimal(&mut s, self.ipv4 as u64);
        s.append(", IPv6: ");
        append_decimal(&mut s, self.ipv6 as u64);
        s.append(")");
        s
    }
}

/// The bridge's view of the RTP-MIDI server and its remote targets.
pub struct RtpManager {
    /// The server's bound port while it runs.
    server_port: Option<u16>,
    enabled: bool,
    port: u16,
    remote_enabled: bool,
    remote_targets: Vec<RtpRemoteTarget>,
    log_enabled: bool,
}

impl RtpManager {
    pub closed spec fn spec_server_port(&self) -> Option<u16> {
        self.server_port
    }

    pub closed spec fn spec_enabled(&self) -> bool {
        self.enabled
    }

    pub closed spec fn spec_port(&self) -> u16 {
        self.port
    }

    pub closed spec fn spec_remote_enabled(&self) -> bool {
        self.remote_enabled
    }

    pub closed spec fn spec_target_count(&self) -> nat {
        self.remote_targets@.len()
    }

    pub closed spec fn spec_log_enabled(&self) -> bool {
        self.log_enabled
    }

    /// No server, disabled, port 5000, no remote targets.
    pub fn new() -> (r: RtpManager)
        ensures
            r.spec_server_port() is None,
            !r.spec_enabled(),
            r.spec_port() == 5000,
            !r.spec_remote_enabled(),
            r.spec_target_count() == 0,
            !r.spec_log_enabled(),
    {
        RtpManager {
            server_port: None,
            enabled: false,
            port: 5000,
            remote_enabled: false,
            remote_targets: Vec::new(),
            log_enabled: false,
        }
    }

    /// Applies new settings. `start_result` is the outcome of starting the
    /// server on `port` (its bound port, or the error), which the caller
    /// attempts exactly when `enabled` holds. A failed start keeps any
    /// earlier server and is reported; disabling drops the server.
    pub fn initialize(
        &mut self,
        enabled: bool,
        port: u16,
        remote_enabled: bool,
        remote_targets: Vec<RtpRemoteTarget>,
        log_enabled: bool,
        start_result: Option<Result<u16, String>>,
    ) -> (r: Result<(), String>)
        requires
            start_result is Some <==> enabled,
        ensures
            final(self).spec_enabled() == enabled,
            final(self).spec_port() == port,
            final(self).spec_remote_enabled() == remote_enabled,
            final(self).spec_target_count() == remote_targets@.len(),
            final(self).spec_log_enabled() == log_enabled,
            match start_result {
                Some(Ok(bound)) => r is Ok && final(self).spec_server_port() == Some(bound),
                Some(Err(e)) => r matches Err(msg) && msg@ == "Erreur démarrage serveur RTP: "@ + e@
                    && final(self).spec_server_port() == old(self).spec_server_port(),
                None => r is Ok && final(self).spec_server_port() is None,
            },
    {
        self.enabled = enabled;
        self.port = port;
        self.remote_enabled = remote_enabled;
        self.remote_targets = remote_targets;
        self.log_enabled = log_enabled;
        match start_result {
            Some(Ok(bound)) => {
                self.server_port = Some(bound);
                Ok(())
            },
            Some(Err(e)) => {
                let mut msg = "Erreur démarrage serveur RTP: ".to_string();
                msg.append(e.as_str());
                Err(msg)
            },
            None => {
                self.server_port = None;
                Ok(())
            },
        }
    }

    /// The number of remote targets a frame is addressed to: all of them
    /// when RTP and remote sending are enabled and the server runs, else
    /// none.
    pub fn send_midi_frame(&self, frame: &MidiFrame) -> (r: usize)
        ensures
            r == (if self.spec_enabled() && self.spec_server_port() is Some
                && self.spec_remote_enabled() {
                self.spec_target_count()
            } else {
                0
            }),
    {
        if !self.enabled || self.server_port.is_none() || !self.remote_enabled {
            return 0;
        }
        self.remote_targets.len()
    }

    /// The participants shown for the RTP-MIDI session: those the running
    /// server reports (`server_participants`, read from the server by the
    /// caller), and none while no server runs.
    pub fn get_participants<P>(&self, server_participants: Vec<P>) -> (r: Vec<P>)
        ensures
            r@ == (if self.spec_server_port() is Some {
                server_participants@
            } else {
                Seq::<P>::empty()
            }),
    {
        if self.server_port.is_some() {
            server_participants
        } else {
            Vec::new()
        }
    }

    /// The server's bound port while it runs.
    pub fn bound_port(&self) -> (r: Option<u16>)
        ensures
            r == self.spec_server_port(),
    {
        self.server_port
    }

    /// The number of remote targets.
    pub fn remote_target_count(&self) -> (r: usize)
        ensures
            r == self.spec_target_count(),
    {
        self.remote_targets.len()
    }

    /// Whether RTP is enabled.
    pub fn is_enabled(&self) -> (r: bool)
        ensures
            r == self.spec_enabled(),
    {
        self.enabled
    }

    /// Whether sending to remote targets is enabled.
    pub fn is_remote_enabled(&self) -> (r: bool)
        ensures
            r == self.spec_remote_enabled(),
    {
        self.remote_enabled
    }

    /// Stops the server and disables RTP; the other settings are kept.
    pub fn close(&mut self)
        ensures
            final(self).spec_server_port() is None,
            !final(self).spec_enabled(),
            final(self).spec_port() == old(self).spec_port(),
            final(self).spec_remote_enabled() == old(self).spec_remote_enabled(),
            final(self).spec_target_count() == old(self).spec_target_count(),
            final(self).spec_log_enabled() == old(self).spec_log_enabled(),
    {
        self.server_port = None;
        self.enabled = false;
    }

    /// Replaces the remote targets.
    pub fn update_remote_targets(&mut self, targets: Vec<RtpRemoteTarget>)
        ensures
            final(self).spec_target_count() == targets@.len(),
            final(self).spec_server_port() == old(self).spec_server_port(),
            final(self).spec_enabled() == old(self).spec_enabled(),
            final(self).spec_port() == old(self).spec_port(),
            final(self).spec_remote_enabled() == old(self).spec_remote_enabled(),
            final(self).spec_log_enabled() == old(self).spec_log_enabled(),
    {
        self.remote_targets = targets;
    }
}

} // verus!
