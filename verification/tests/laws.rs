use aingle_minimal::bluetooth::{BleConfig, BleManager, BleState};
use aingle_minimal::coap::{
    block1_option, block1_option_value, block_count, block_range, next_message_id, packet_action, plan_retransmissions,
    retransmit_action, PacketAction, PendingAck, RetransmitAction, ACK_TIMEOUT_MS, BLOCK_SIZE,
};
use aingle_minimal::config::{validate_limits, ConfigError};
use aingle_minimal::discovery::{instance_name, DiscoveryEvent, PeerDirectory};
use aingle_minimal::dtls::{DtlsConfig, DtlsSession, DtlsSessionManager};
use aingle_minimal::encoding::base64_encode;
use aingle_minimal::network::peers::{rank_for_gossip, PeerInfo};
use aingle_minimal::network::MeshManager;
use aingle_minimal::power::PowerProfile;
use aingle_minimal::quic::{frame_message, framed_len, QUIC_MAX_MESSAGE_SIZE};
use aingle_minimal::rest::{route_request, route_static_request, HttpMethod, RestRoute};
use aingle_minimal::sensors::SensorStats;
use aingle_minimal::crypto::{verify, Keypair};
use aingle_minimal::node::{action_signing_data, new_create_record, new_create_records};
use aingle_minimal::types::{ActionType, Entry, EntryType, Timestamp};
use std::time::{Duration, Instant};

#[test]
fn base64_known_values() {
    assert_eq!(base64_encode(b""), "");
    assert_eq!(base64_encode(b"f"), "Zg==");
    assert_eq!(base64_encode(b"fo"), "Zm8=");
    assert_eq!(base64_encode(b"foo"), "Zm9v");
    assert_eq!(base64_encode(b"hello"), "aGVsbG8=");
    assert_eq!(base64_encode(&[0xff, 0xfe, 0xfd]), "//79");
}

#[test]
fn coap_message_id_wraps() {
    assert_eq!(next_message_id(0), 1);
    assert_eq!(next_message_id(65535), 0);
}

#[test]
fn coap_block_layout() {
    assert_eq!(block_count(0), 0);
    assert_eq!(block_count(1), 1);
    assert_eq!(block_count(BLOCK_SIZE), 1);
    assert_eq!(block_count(BLOCK_SIZE + 1), 2);
    assert_eq!(block_range(600, 0), (0, 256));
    assert_eq!(block_range(600, 2), (512, 600));
}

#[test]
fn coap_block1_option_encoding() {
    assert_eq!(block1_option_value(0, true), 0x0a);
    assert_eq!(block1_option_value(1, false), 0x12);
    assert_eq!(block1_option(0, true), vec![0x0a]);
    assert_eq!(block1_option(16, true), vec![0x01, 0x0a]);
    assert_eq!(block1_option(4096, false), vec![0x00, 0x01, 0x00, 0x02]);
}

#[test]
fn coap_retransmission_decisions() {
    let early = Duration::from_millis(ACK_TIMEOUT_MS);
    let late = Duration::from_millis(ACK_TIMEOUT_MS + 1);
    assert_eq!(retransmit_action(&early, 0), RetransmitAction::Wait);
    assert_eq!(retransmit_action(&late, 0), RetransmitAction::Resend);
    assert_eq!(retransmit_action(&late, 4), RetransmitAction::GiveUp);

    let pending = vec![
        PendingAck { message_id: 1, since_sent: late, retransmits: 4 },
        PendingAck { message_id: 2, since_sent: early, retransmits: 0 },
        PendingAck { message_id: 3, since_sent: late, retransmits: 1 },
        PendingAck { message_id: 4, since_sent: late, retransmits: 9 },
    ];
    let (drop, resend) = plan_retransmissions(&pending);
    assert_eq!(drop, vec![1, 4]);
    assert_eq!(resend, vec![3]);
}

#[test]
fn coap_packet_actions() {
    assert_eq!(packet_action("/ping", true), PacketAction::PingUnknown);
    assert_eq!(packet_action("/ping", false), PacketAction::PingFrom);
    assert_eq!(packet_action("/gossip", false), PacketAction::DecodeMessage);
    assert_eq!(packet_action("/record", true), PacketAction::Ignore);
    assert_eq!(packet_action("/announce", false), PacketAction::DecodeMessage);
    assert_eq!(packet_action("/.well-known/core", false), PacketAction::Ignore);
    assert_eq!(packet_action("/unknown", false), PacketAction::Ignore);
}

#[test]
fn rest_routes() {
    assert_eq!(route_request(HttpMethod::Get, "/api/v1/info"), RestRoute::Info);
    assert_eq!(route_request(HttpMethod::Post, "/api/v1/entries"), RestRoute::CreateEntry);
    assert_eq!(route_request(HttpMethod::Get, "/api/v1/entries/abc123"), RestRoute::GetEntry("abc123".to_string()));
    assert_eq!(route_request(HttpMethod::Get, "/api/v1/peers"), RestRoute::Peers);
    assert_eq!(route_request(HttpMethod::Get, "/api/v1/stats"), RestRoute::Stats);
    assert_eq!(route_request(HttpMethod::Options, "/anything"), RestRoute::Preflight);
    assert_eq!(route_request(HttpMethod::Get, "/"), RestRoute::Health);
    assert_eq!(route_request(HttpMethod::Post, "/api/v1/info"), RestRoute::NotFound);
    assert_eq!(route_static_request(HttpMethod::Get, "/api/v1/info"), RestRoute::Info);
    assert_eq!(route_static_request(HttpMethod::Get, "/api/v1/peers"), RestRoute::Unavailable);
    assert_eq!(route_static_request(HttpMethod::Get, "/health"), RestRoute::Health);
}

#[test]
fn gossip_ranking_best_first_stable() {
    let now = Instant::now();
    let peer = |addr: &str, quality: u8| PeerInfo { addr: addr.to_string(), last_seen: now, latest_seq: 0, quality };
    let peers = vec![peer("a", 50), peer("b", 80), peer("c", 50), peer("d", 90)];
    assert_eq!(rank_for_gossip(&peers, 10), vec!["d", "b", "a", "c"]);
    assert_eq!(rank_for_gossip(&peers, 2), vec!["d", "b"]);
    assert!(rank_for_gossip(&peers, 0).is_empty());
}

#[test]
fn dtls_replay_window() {
    let mut session = DtlsSession::new("10.0.0.1:5684".to_string(), vec![1, 2, 3]);
    for _ in 0..100 {
        session.next_sequence();
    }
    assert!(session.is_valid_sequence(101, 64));
    assert!(session.is_valid_sequence(100, 64));
    assert!(session.is_valid_sequence(50, 64));
    assert!(session.is_valid_sequence(36, 64));
    assert!(!session.is_valid_sequence(35, 64));
    assert!(!session.is_valid_sequence(10, 64));
}

#[test]
fn dtls_session_for_keeps_or_replaces() {
    let config = DtlsConfig::psk(vec![1, 2, 3, 4], "id".to_string());
    let mut manager = DtlsSessionManager::new(config).unwrap();
    let first = manager.session_for("10.0.0.1:5684".to_string(), false, vec![7; 32]);
    assert_eq!(first.session_id, vec![7; 32]);
    assert_eq!(manager.session_count(), 1);
    let kept = manager.session_for("10.0.0.1:5684".to_string(), false, vec![8; 32]);
    assert_eq!(kept.session_id, vec![7; 32]);
    let replaced = manager.session_for("10.0.0.1:5684".to_string(), true, vec![9; 32]);
    assert_eq!(replaced.session_id, vec![9; 32]);
    assert_eq!(manager.session_count(), 1);
}

#[test]
fn ble_connect_send_disconnect() {
    let mut manager = BleManager::new(BleConfig::default());
    manager.init().unwrap();
    assert_eq!(manager.state(), BleState::Idle);
    manager.start().unwrap();
    assert!(manager.is_running());

    let err = manager.connect("11:22:33:44:55:66").unwrap_err();
    assert_eq!(err.to_string(), "Network error: Unknown peer: 11:22:33:44:55:66");

    manager.on_peer_discovered("AA:BB:CC:DD:EE:FF", -50, None);
    assert!(manager.send("AA:BB:CC:DD:EE:FF", 10).is_err());
    manager.connect("AA:BB:CC:DD:EE:FF").unwrap();
    assert_eq!(manager.connected_count(), 1);
    manager.send("AA:BB:CC:DD:EE:FF", 10).unwrap();
    assert_eq!(manager.stats().messages_sent, 1);
    assert_eq!(manager.stats().bytes_sent, 10);

    manager.disconnect("AA:BB:CC:DD:EE:FF").unwrap();
    assert_eq!(manager.connected_count(), 0);
    manager.stop().unwrap();
    assert!(!manager.is_running());
}

#[test]
fn discovery_directory_events() {
    let mut dir = PeerDirectory::new("me".to_string());
    dir.handle_event(DiscoveryEvent::Resolved {
        node_id: Some("alpha".to_string()),
        fullname: "aingle-alpha._aingle._udp.local.".to_string(),
        addresses: vec!["10.0.0.1".to_string()],
        port: 5683,
        properties: vec![],
    });
    dir.handle_event(DiscoveryEvent::Resolved {
        node_id: None,
        fullname: "beta._aingle._udp.local.".to_string(),
        addresses: vec![],
        port: 5683,
        properties: vec![],
    });
    dir.handle_event(DiscoveryEvent::Resolved {
        node_id: Some("me".to_string()),
        fullname: "aingle-me._aingle._udp.local.".to_string(),
        addresses: vec![],
        port: 5683,
        properties: vec![],
    });
    assert_eq!(dir.peer_ids(), vec!["alpha".to_string(), "beta._aingle._udp.local.".to_string()]);
    dir.handle_event(DiscoveryEvent::Removed { fullname: "aingle-alpha._aingle._udp.local.".to_string() });
    assert_eq!(dir.peer_ids(), vec!["beta._aingle._udp.local.".to_string()]);
    dir.handle_event(DiscoveryEvent::SearchStopped);
    assert_eq!(dir.peer_count(), 1);
    dir.register_coap_peer("gamma".to_string(), "10.0.0.3".to_string(), 5683);
    assert_eq!(dir.peer_addrs(), vec!["10.0.0.3:5683".to_string()]);
}

#[test]
fn discovery_re_resolution_replaces_peer() {
    let mut dir = PeerDirectory::new("me".to_string());
    dir.handle_event(DiscoveryEvent::Resolved {
        node_id: Some("alpha".to_string()),
        fullname: "aingle-alpha._aingle._udp.local.".to_string(),
        addresses: vec!["10.0.0.1".to_string()],
        port: 5683,
        properties: vec![],
    });
    dir.handle_event(DiscoveryEvent::Resolved {
        node_id: Some("beta".to_string()),
        fullname: "aingle-beta._aingle._udp.local.".to_string(),
        addresses: vec!["10.0.0.2".to_string()],
        port: 5683,
        properties: vec![],
    });
    dir.handle_event(DiscoveryEvent::Resolved {
        node_id: Some("alpha".to_string()),
        fullname: "aingle-alpha._aingle._udp.local.".to_string(),
        addresses: vec!["10.0.0.9".to_string()],
        port: 6000,
        properties: vec![],
    });
    assert_eq!(dir.peer_ids(), vec!["alpha".to_string(), "beta".to_string()]);
    assert_eq!(dir.peer_addrs(), vec!["10.0.0.9:6000".to_string(), "10.0.0.2:5683".to_string()]);
}

#[test]
fn config_limit_errors() {
    match validate_limits(1000, 1_000_000) {
        Err(ConfigError::MemoryTooLow(n)) => assert_eq!(n, 1000),
        other => panic!("unexpected {:?}", other),
    }
    match validate_limits(65536, 1000) {
        Err(e @ ConfigError::StorageTooLow(_)) => {
            assert_eq!(e.to_string(), "Storage limit too low: 1000 bytes (minimum 256KB)")
        }
        other => panic!("unexpected {:?}", other),
    }
    assert!(validate_limits(65536, 262144).is_ok());
    assert_eq!(ConfigError::MemoryTooLow(5).to_string(), "Memory limit too low: 5 bytes (minimum 64KB)");
}

#[test]
fn mesh_message_ids_at() {
    assert_eq!(MeshManager::message_id_at("node", 0), "node:0");
    assert_eq!(MeshManager::message_id_at("n1", 1234567890123), "n1:1234567890123");
}

#[test]
fn power_profiles_exact() {
    assert_eq!(PowerProfile::HighPerformance.estimated_power_consumption_mw(), 1000);
    assert_eq!(PowerProfile::Balanced.estimated_power_consumption_mw(), 500);
    assert_eq!(PowerProfile::LowPower.estimated_power_consumption_mw(), 200);
    assert_eq!(PowerProfile::UltraLowPower.estimated_power_consumption_mw(), 50);
}

#[test]
fn sensor_stats_counts() {
    let mut stats = SensorStats::new();
    stats.record_success_at(42);
    stats.record_failure();
    assert_eq!(stats.total_readings, 1);
    assert_eq!(stats.failed_readings, 1);
    assert_eq!(stats.last_reading, 42);
}

#[test]
fn discovery_instance_names() {
    assert_eq!(instance_name("0123456789abcdef"), "aingle-01234567");
    assert_eq!(instance_name("abc"), "aingle-abc");
    assert_eq!(instance_name(""), "aingle-");
}

#[test]
fn created_records_are_signed_and_numbered() {
    let keypair = Keypair::from_seed(&[7u8; 32]);
    let entry = Entry { entry_type: EntryType::App, content: b"{\"temp\":21}".to_vec() };
    let record = new_create_record(&keypair, entry.clone(), 0, Timestamp(1000));
    assert_eq!(record.action.seq, 1);
    assert_eq!(record.action.action_type, ActionType::Create);
    assert!(record.action.prev_action.is_none());
    assert_eq!(record.action.timestamp.0, 1000);
    assert_eq!(record.action.author, keypair.public_key());
    let entry_hash = record.action.entry_hash.expect("entry hash");
    assert_eq!(entry_hash, entry.hash());
    let data = action_signing_data(1, &entry_hash);
    assert_eq!(&data[..4], &[0, 0, 0, 1]);
    assert!(verify(&record.action.author, &data, &record.action.signature).is_ok());
    assert!(verify(&record.action.author, &action_signing_data(2, &entry_hash), &record.action.signature).is_err());

    let entries = vec![
        Entry { entry_type: EntryType::App, content: vec![1] },
        Entry { entry_type: EntryType::App, content: vec![2] },
        Entry { entry_type: EntryType::App, content: vec![3] },
    ];
    let records = new_create_records(&keypair, entries, 41, Timestamp(5));
    let seqs: Vec<u32> = records.iter().map(|r| r.action.seq).collect();
    assert_eq!(seqs, vec![42, 43, 44]);
    assert_eq!(records[2].entry.as_ref().unwrap().content, vec![3]);
}

#[test]
fn quic_framing() {
    assert_eq!(frame_message(b"hi"), vec![0, 0, 0, 2, b'h', b'i']);
    assert_eq!(frame_message(b""), vec![0, 0, 0, 0]);
    let big = vec![7u8; 300];
    let framed = frame_message(&big);
    assert_eq!(&framed[..4], &[0, 0, 1, 44]);
    assert_eq!(framed_len(&[0, 0, 1, 44]), Some(300));
    assert_eq!(framed_len(&[0, 16, 0, 0]), Some(QUIC_MAX_MESSAGE_SIZE));
    assert_eq!(framed_len(&[0, 16, 0, 1]), None);
    assert_eq!(framed_len(&[255, 255, 255, 255]), None);
}

#[test]
fn ble_cleanup_with_readings() {
    let mut manager = BleManager::new(BleConfig::default());
    manager.init().unwrap();
    manager.start().unwrap();
    manager.on_peer_discovered("AA:00:00:00:00:01", -50, None);
    manager.on_peer_discovered("AA:00:00:00:00:02", -50, None);
    manager.on_peer_discovered("AA:00:00:00:00:03", -50, None);
    manager.connect("AA:00:00:00:00:02").unwrap();
    assert_eq!(manager.peer_since_seen().len(), 3);
    let since = vec![Duration::from_secs(100), Duration::from_secs(100), Duration::from_secs(30)];
    manager.cleanup_stale_peers_at(Duration::from_secs(30), &since);
    let left: Vec<String> = manager.peers().iter().map(|p| p.address.clone()).collect();
    assert_eq!(left, vec!["AA:00:00:00:00:02".to_string(), "AA:00:00:00:00:03".to_string()]);
}

#[test]
fn dtls_cleanup_with_readings() {
    let mut manager = DtlsSessionManager::new(DtlsConfig::no_security()).unwrap();
    manager.session_for("10.0.0.1:5684".to_string(), false, vec![1; 32]);
    manager.session_for("10.0.0.2:5684".to_string(), false, vec![2; 32]);
    let timeout = DtlsConfig::no_security().session_timeout;
    let idle = vec![timeout + Duration::from_secs(1), timeout];
    manager.cleanup_expired_at(&idle, &vec![]);
    assert_eq!(manager.session_count(), 1);
    assert!(manager.get_session("10.0.0.1:5684").is_none());
    assert!(manager.get_session("10.0.0.2:5684").is_some());
}
