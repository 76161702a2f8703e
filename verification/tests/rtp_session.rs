use oscmidi::config::{RtpConfig, RtpRemoteEntry, RTP_VIRTUAL_INPUT};
use oscmidi::rtp::{RtpTargetResolver, SocketAddress};
use oscmidi::rtp_session::{
    owns_rtp_port, remote_candidates, rtp_needs_restart, session_targets, sync_rtp_action,
    RemoteCandidate, RtpSessionSnapshot, RtpSyncAction, SessionTarget,
};

fn entry(name: &str, host: &str, port: u16, auto_connect: bool) -> RtpRemoteEntry {
    RtpRemoteEntry { id: name.to_string(), name: name.to_string(), host: host.to_string(), port, auto_connect }
}

fn v4(a: u8, b: u8, c: u8, d: u8, port: u16) -> SocketAddress {
    SocketAddress::V4 { ip: u32::from_be_bytes([a, b, c, d]), port }
}

fn v6_loopback(port: u16) -> SocketAddress {
    SocketAddress::V6 { ip6: 1, port }
}

#[test]
fn socket_addr_sort_prefers_ipv4_before_ipv6() {
    let ipv4 = v4(127, 0, 0, 1, 5004);
    let ipv6 = v6_loopback(5004);
    assert!(RtpTargetResolver::socket_addr_sort_key(&ipv4) < RtpTargetResolver::socket_addr_sort_key(&ipv6));
}

#[test]
fn test_socket_addr_sorting() {
    let addr_v4 = v4(127, 0, 0, 1, 5000);
    let addr_v6 = v6_loopback(5000);
    let key_v4 = RtpTargetResolver::socket_addr_sort_key(&addr_v4);
    let key_v6 = RtpTargetResolver::socket_addr_sort_key(&addr_v6);
    assert!(key_v4 < key_v6);
}

#[test]
fn resolved_host_prefers_the_smallest_ipv4_address() {
    let addrs = vec![v6_loopback(5004), v4(10, 0, 0, 2, 5004), v4(10, 0, 0, 1, 5004)];
    assert_eq!(RtpTargetResolver::preferred_socket_address(&addrs), Some(v4(10, 0, 0, 1, 5004)));
    assert_eq!(RtpTargetResolver::preferred_socket_address(&[]), None);
}

#[test]
fn only_wanted_remotes_are_resolved() {
    let mut rtp = RtpConfig::default();
    rtp.remotes = vec![
        entry(" Studio ", " studio.local ", 5004, true),
        entry("Off", "off.local", 5004, false),
        entry("Blank", "   ", 5004, true),
        entry("NoPort", "host", 0, true),
    ];
    assert!(remote_candidates(&rtp).is_empty());
    rtp.remote_enabled = true;
    let cands = remote_candidates(&rtp);
    assert_eq!(cands.len(), 1);
    assert_eq!(cands[0].name, "Studio");
    assert_eq!(cands[0].host, "studio.local");
    assert_eq!(cands[0].port, 5004);
}

#[test]
fn session_targets_skip_unresolved_and_duplicate_addresses() {
    let cands = vec![
        RemoteCandidate { name: String::new(), host: "a.local".to_string(), port: 5004 },
        RemoteCandidate { name: "B".to_string(), host: "b.local".to_string(), port: 5004 },
        RemoteCandidate { name: "C".to_string(), host: "c.local".to_string(), port: 5004 },
    ];
    let resolved = vec![Some(v4(10, 0, 0, 1, 5004)), None, Some(v4(10, 0, 0, 1, 5004))];
    let targets = session_targets(&cands, &resolved);
    assert_eq!(targets.len(), 1);
    assert_eq!(targets[0].name, "a.local");
    assert_eq!(targets[0].addr, v4(10, 0, 0, 1, 5004));
}

fn snapshot(rtp: &RtpConfig, targets: Vec<SessionTarget>) -> RtpSessionSnapshot {
    RtpSessionSnapshot {
        name: rtp.session_name.clone(),
        requested_port: rtp.port,
        bound_port: 5006,
        remote_enabled: rtp.remote_enabled,
        remote_targets: targets,
        log_rtp: rtp.log_messages,
    }
}

#[test]
fn session_restarts_only_when_something_changed() {
    let rtp = RtpConfig::default();
    let targets = vec![SessionTarget { name: "A".to_string(), addr: v4(10, 0, 0, 1, 5004) }];
    let current = Some(snapshot(&rtp, vec![SessionTarget { name: "A".to_string(), addr: v4(10, 0, 0, 1, 5004) }]));
    assert!(!rtp_needs_restart(false, true, &current, &rtp, &targets));
    assert!(rtp_needs_restart(true, true, &current, &rtp, &targets));
    assert!(rtp_needs_restart(false, false, &current, &rtp, &targets));
    assert!(rtp_needs_restart(false, true, &None, &rtp, &targets));
    let moved = vec![SessionTarget { name: "A".to_string(), addr: v4(10, 0, 0, 2, 5004) }];
    assert!(rtp_needs_restart(false, true, &current, &rtp, &moved));
    let mut renamed = RtpConfig::default();
    renamed.session_name = "Other".to_string();
    assert!(rtp_needs_restart(false, true, &current, &renamed, &targets));
}

#[test]
fn sync_shuts_the_session_down_when_nothing_needs_it() {
    let mut rtp = RtpConfig::default();
    let current = Some(snapshot(&rtp, Vec::new()));
    assert_eq!(sync_rtp_action(&rtp, &None, false, true, &current, &Vec::new()), RtpSyncAction::Keep);
    rtp.enabled = false;
    assert_eq!(sync_rtp_action(&rtp, &None, false, true, &current, &Vec::new()), RtpSyncAction::Shutdown);
    let input = Some(RTP_VIRTUAL_INPUT.to_string());
    assert_eq!(sync_rtp_action(&rtp, &input, false, false, &current, &Vec::new()), RtpSyncAction::Restart);
}

#[test]
fn session_owns_its_requested_and_bound_ports() {
    let rtp = RtpConfig::default();
    let current = Some(snapshot(&rtp, Vec::new()));
    assert!(owns_rtp_port(true, &current, 5004));
    assert!(owns_rtp_port(true, &current, 5006));
    assert!(!owns_rtp_port(true, &current, 5008));
    assert!(!owns_rtp_port(false, &current, 5004));
    assert!(!owns_rtp_port(true, &None, 5004));
}
