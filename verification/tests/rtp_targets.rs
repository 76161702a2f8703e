use oscmidi::rtp::{RtpManager, RtpRemoteTarget, RtpTargetResolver, SocketAddress};

#[test]
fn test_rtp_target_validation() {
    let valid_target = RtpTargetResolver::create_target("localhost".to_string(), 5000);
    assert!(valid_target.is_ok());

    let empty_host = RtpTargetResolver::create_target("".to_string(), 5000);
    assert!(empty_host.is_err());

    let invalid_port = RtpTargetResolver::create_target("localhost".to_string(), 0);
    assert!(invalid_port.is_err());

    let too_high_port = RtpTargetResolver::create_target("localhost".to_string(), 70000);
    assert!(too_high_port.is_err());
}

#[test]
fn test_target_stats() {
    let targets = vec![
        RtpRemoteTarget {
            host: "127.0.0.1".to_string(),
            port: 5000,
            resolved_addr: Some(SocketAddress::V4 { ip: 0x7f00_0001, port: 5000 }),
        },
        RtpRemoteTarget {
            host: "::1".to_string(),
            port: 5000,
            resolved_addr: Some(SocketAddress::V6 { ip6: 1, port: 5000 }),
        },
        RtpRemoteTarget { host: "unresolved".to_string(), port: 5000, resolved_addr: None },
    ];

    let stats = RtpTargetResolver::get_target_stats(&targets);

    assert_eq!(stats.total, 3);
    assert_eq!(stats.resolved, 2);
    assert_eq!(stats.ipv4, 1);
    assert_eq!(stats.ipv6, 1);
    assert_eq!(stats.resolved as f32 / stats.total as f32, 2.0 / 3.0);
    assert_eq!(stats.description(), "2/3 cibles résolues (IPv4: 1, IPv6: 1)");
}

#[test]
fn test_rtp_manager_lifecycle() {
    let mut manager = RtpManager::new();

    let result = manager.initialize(true, 5000, false, Vec::new(), false, Some(Ok(5000)));
    assert!(result.is_ok());
    assert!(manager.is_enabled());
    assert!(!manager.is_remote_enabled());
    assert_eq!(manager.remote_target_count(), 0);

    let targets = vec![RtpRemoteTarget { host: "localhost".to_string(), port: 5001, resolved_addr: None }];

    manager.update_remote_targets(targets);
    assert_eq!(manager.remote_target_count(), 1);

    manager.close();
    assert!(!manager.is_enabled());
}

#[test]
fn rtp_errors_carry_their_messages() {
    let e = RtpTargetResolver::create_target("".to_string(), 5000).err().unwrap();
    assert_eq!(e, "Le nom de la cible RTP ne peut pas être vide");
    let e = RtpTargetResolver::create_target("h".to_string(), 0).err().unwrap();
    assert_eq!(e, "Le port de la cible RTP ne peut pas être 0");
    let mut manager = RtpManager::new();
    let err = manager.initialize(true, 6000, true, Vec::new(), false, Some(Err("port busy".to_string())));
    assert_eq!(err, Err("Erreur démarrage serveur RTP: port busy".to_string()));
    assert_eq!(manager.bound_port(), None);
    manager.initialize(true, 6000, true, Vec::new(), false, Some(Ok(6001))).unwrap();
    assert_eq!(manager.bound_port(), Some(6001));
    manager.initialize(false, 6000, true, Vec::new(), false, None).unwrap();
    assert_eq!(manager.bound_port(), None);
}

#[test]
fn resolved_address_prefers_ipv4() {
    let v6 = SocketAddress::V6 { ip6: 1, port: 5004 };
    let v4 = SocketAddress::V4 { ip: 0x7f00_0001, port: 5004 };
    assert_eq!(RtpTargetResolver::choose_resolved_addr(&[v6, v4]), Some(v4));
    assert_eq!(RtpTargetResolver::choose_resolved_addr(&[v6]), Some(v6));
    assert_eq!(RtpTargetResolver::choose_resolved_addr(&[]), None);
}
