//! The bridge's run-time settings and the snapshot that its workers read.

use vstd::prelude::*;
use crate::routing::RoutingProfileRuntime;
use crate::rtp::{RtpRemoteTarget, SocketAddress};

verus! {

/// Settings of a running bridge.
pub struct BridgeConfig {
    pub midi_in: Option<String>,
    pub midi_out: Option<String>,
    pub rtp_enabled: bool,
    pub rtp_port: u16,
    pub rtp_remote_enabled: bool,
    pub rtp_remote_targets: Vec<RtpRemoteTarget>,
    pub rtp_log: bool,
    pub osc_enabled: bool,
    pub osc_target: Option<String>,
    pub routing_profiles: Vec<RoutingProfileRuntime>,
    /// Source name and the position of its routing assignment.
    pub routing_assignments: Vec<(String, usize)>,
}

/// A copy of the settings, taken for one worker.
pub struct ConfigSnapshot {
    pub midi_in: Option<String>,
    pub midi_out: Option<String>,
    pub rtp_enabled: bool,
    pub rtp_port: u16,
    pub rtp_remote_enabled: bool,
    pub rtp_remote_targets: Vec<RtpRemoteTarget>,
    pub rtp_log: bool,
    pub osc_enabled: bool,
    pub osc_target: Option<String>,
    pub routing_profiles: Vec<RoutingProfileRuntime>,
    pub routing_assignments: Vec<(String, usize)>,
}

pub open spec fn opt_view(o: Option<String>) -> Option<Seq<char>> {
    match o {
        Some(s) => Some(s@),
        None => None,
    }
}

/// The abstract content of a remote target.
pub open spec fn target_view(t: RtpRemoteTarget) -> (Seq<char>, u16, Option<SocketAddress>) {
    (t.host@, t.port, t.resolved_addr)
}

/// The abstract content of a prepared profile.
pub open spec fn profile_view(p: RoutingProfileRuntime) -> (Seq<char>, Option<u8>, Option<u8>, Option<u8>, Seq<u8>, Seq<u8>, bool) {
    (p.id@, p.channel_filter, p.note_min, p.note_max, p.cc_map@, p.program_map@, p.enabled)
}

fn copy_opt(o: &Option<String>) -> (r: Option<String>)
    ensures
        opt_view(r) == opt_view(*o),
{
    match o {
        Some(s) => Some(s.clone()),
        None => None,
    }
}

fn copy_bytes(v: &Vec<u8>) -> (r: Vec<u8>)
    ensures
        r@ == v@,
{
    let mut r: Vec<u8> = Vec::new();
    let mut i: usize = 0;
    while i < v.len()
        invariant
            i <= v@.len(),
            r@ == v@.take(i as int),
        decreases v@.len() - i,
    {
        r.push(v[i]);
        i = i + 1;
        assert(r@ =~= v@.take(i as int));
    }
    assert(v@.take(i as int) =~= v@);
    r
}

fn copy_target(t: &RtpRemoteTarget) -> (r: RtpRemoteTarget)
    ensures
        target_view(r) == target_view(*t),
{
    RtpRemoteTarget { host: t.host.clone(), port: t.port, resolved_addr: t.resolved_addr }
}

fn copy_profile(p: &RoutingProfileRuntime) -> (r: RoutingProfileRuntime)
    ensures
        profile_view(r) == profile_view(*p),
{
    RoutingProfileRuntime {
        id: p.id.clone(),
        channel_filter: p.channel_filter,
        note_min: p.note_min,
        note_max: p.note_max,
        cc_map: copy_bytes(&p.cc_map),
        program_map: copy_bytes(&p.program_map),
        enabled: p.enabled,
    }
}

impl ConfigSnapshot {
    /// Copies every setting of `config`.
    pub fn from_bridge_config(config: &BridgeConfig) -> (r: ConfigSnapshot)
        ensures
            opt_view(r.midi_in) == opt_view(config.midi_in),
            opt_view(r.midi_out) == opt_view(config.midi_out),
            r.rtp_enabled == config.rtp_enabled,
            r.rtp_port == config.rtp_port,
            r.rtp_remote_enabled == config.rtp_remote_enabled,
            r.rtp_remote_targets@.map_values(|t: RtpRemoteTarget| target_view(t))
                == config.rtp_remote_targets@.map_values(|t: RtpRemoteTarget| target_view(t)),
            r.rtp_log == config.rtp_log,
            r.osc_enabled == config.osc_enabled,
            opt_view(r.osc_target) == opt_view(config.osc_target),
            r.routing_profiles@.map_values(|p: RoutingProfileRuntime| profile_view(p))
                == config.routing_profiles@.map_values(|p: RoutingProfileRuntime| profile_view(p)),
            r.routing_assignments@.map_values(|a: (String, usize)| (a.0@, a.1))
                == config.routing_assignments@.map_values(|a: (String, usize)| (a.0@, a.1)),
    {
        let mut targets: Vec<RtpRemoteTarget> = Vec::new();
        let mut i: usize = 0;
        while i < config.rtp_remote_targets.len()
            invariant
                i <= config.rtp_remote_targets@.len(),
                targets@.map_values(|t: RtpRemoteTarget| target_view(t))
                    == config.rtp_remote_targets@.take(i as int).map_values(|t: RtpRemoteTarget| target_view(t)),
            decreases config.rtp_remote_targets@.len() - i,
        {
            let ghost before = targets@;
            let t = copy_target(&config.rtp_remote_targets[i]);
            targets.push(t);
            assert(targets@.map_values(|t: RtpRemoteTarget| target_view(t)) =~= before.map_values(|t: RtpRemoteTarget| target_view(t)).push(target_view(t)));
            assert(config.rtp_remote_targets@.take(i + 1) =~= config.rtp_remote_targets@.take(i as int).push(config.rtp_remote_targets@[i as int]));
            i = i + 1;
            assert(targets@.map_values(|t: RtpRemoteTarget| target_view(t)) =~= config.rtp_remote_targets@.take(i as int).map_values(|t: RtpRemoteTarget| target_view(t)));
        }
        assert(config.rtp_remote_targets@.take(i as int) =~= config.rtp_remote_targets@);
        let mut profiles: Vec<RoutingProfileRuntime> = Vec::new();
        let mut j: usize = 0;
        while j < config.routing_profiles.len()
            invariant
                j <= config.routing_profiles@.len(),
                profiles@.map_values(|p: RoutingProfileRuntime| profile_view(p))
                    == config.routing_profiles@.take(j as int).map_values(|p: RoutingProfileRuntime| profile_view(p)),
            decreases config.routing_profiles@.len() - j,
        {
            let ghost before = profiles@;
            let p = copy_profile(&config.routing_profiles[j]);
            profiles.push(p);
            assert(profiles@.map_values(|p: RoutingProfileRuntime| profile_view(p)) =~= before.map_values(|p: RoutingProfileRuntime| profile_view(p)).push(profile_view(p)));
            assert(config.routing_profiles@.take(j + 1) =~= config.routing_profiles@.take(j as int).push(config.routing_profiles@[j as int]));
            j = j + 1;
            assert(profiles@.map_values(|p: RoutingProfileRuntime| profile_view(p)) =~= config.routing_profiles@.take(j as int).map_values(|p: RoutingProfileRuntime| profile_view(p)));
        }
        assert(config.routing_profiles@.take(j as int) =~= config.routing_profiles@);
        let mut assigns: Vec<(String, usize)> = Vec::new();
        let mut k: usize = 0;
        while k < config.routing_assignments.len()
            invariant
                k <= config.routing_assignments@.len(),
                assigns@.map_values(|a: (String, usize)| (a.0@, a.1))
                    == config.routing_assignments@.take(k as int).map_values(|a: (String, usize)| (a.0@, a.1)),
            decreases config.routing_assignments@.len() - k,
        {
            let ghost before = assigns@;
            let a = &config.routing_assignments[k];
            let pair = (a.0.clone(), a.1);
            assigns.push(pair);
            assert(assigns@.map_values(|a: (String, usize)| (a.0@, a.1)) =~= before.map_values(|a: (String, usize)| (a.0@, a.1)).push((a.0@, a.1)));
            assert(config.routing_assignments@.take(k + 1) =~= config.routing_assignments@.take(k as int).push(*a));
            k = k + 1;
            assert(assigns@.map_values(|a: (String, usize)| (a.0@, a.1)) =~= config.routing_assignments@.take(k as int).map_values(|a: (String, usize)| (a.0@, a.1)));
        }
        assert(config.routing_assignments@.take(k as int) =~= config.routing_assignments@);
        ConfigSnapshot {
            midi_in: copy_opt(&config.midi_in),
            midi_out: copy_opt(&config.midi_out),
            rtp_enabled: config.rtp_enabled,
            rtp_port: config.rtp_port,
            rtp_remote_enabled: config.rtp_remote_enabled,
            rtp_remote_targets: targets,
            rtp_log: config.rtp_log,
            osc_enabled: config.osc_enabled,
            osc_target: copy_opt(&config.osc_target),
            routing_profiles: profiles,
            routing_assignments: assigns,
        }
    }
}

} // verus!
