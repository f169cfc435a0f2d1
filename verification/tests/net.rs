use aingle_minimal::config::TransportConfig;
use aingle_minimal::discovery::{DiscoveredPeer, DiscoveryEvent};
use aingle_minimal::network::rpc::{request_id_for, RpcTable};
use aingle_minimal::network::{GossipManager, MeshManager, Message, Network};
use aingle_minimal::node::RestoreOutcome;
use std::time::{Duration, Instant};

fn memory_network(max_peers: usize) -> Network {
    Network::new(TransportConfig::Memory, max_peers, "test-node".to_string())
}

#[test]
fn test_network_creation() {
    let network = memory_network(8);
    assert_eq!(network.peer_count(), 0);
}

#[test]
fn test_peer_management() {
    let mut network = memory_network(8);
    let addr = "127.0.0.1:8080";
    network.add_peer(addr.to_string());
    assert_eq!(network.peer_count(), 1);

    network.remove_peer(addr);
    assert_eq!(network.peer_count(), 0);
}

#[test]
fn test_network_update_peer() {
    let mut network = memory_network(8);
    let addr = "127.0.0.1:8080";
    network.add_peer(addr.to_string());

    network.update_peer(addr, 100);

    let peers = network.active_peers();
    assert_eq!(peers.len(), 1);
    assert_eq!(peers[0].latest_seq, 100);
    assert!(peers[0].quality > 50);
}

#[test]
fn test_network_update_nonexistent_peer() {
    let mut network = memory_network(8);
    network.update_peer("127.0.0.1:8080", 100);
    assert_eq!(network.peer_count(), 0);
}

#[test]
fn test_network_mark_peer_failed() {
    let mut network = memory_network(8);
    let addr = "127.0.0.1:8080";
    network.add_peer(addr.to_string());

    let initial_quality = network.active_peers()[0].quality;
    network.mark_peer_failed(addr);

    let peers = network.active_peers();
    assert!(peers[0].quality < initial_quality);
}

#[test]
fn test_network_mark_nonexistent_peer_failed() {
    let mut network = memory_network(8);
    network.mark_peer_failed("127.0.0.1:8080");
    assert_eq!(network.peer_count(), 0);
}

#[test]
fn test_network_active_peers_timeout() {
    let mut network = memory_network(8);
    network.add_peer("127.0.0.1:8080".to_string());
    let active = network.active_peers();
    assert_eq!(active.len(), 1);
}

#[test]
fn test_network_gossip_peers_sorting() {
    let mut network = memory_network(10);
    for i in 0..5 {
        network.add_peer(format!("127.0.0.1:808{}", i));
    }
    network.update_peer("127.0.0.1:8081", 10);
    network.update_peer("127.0.0.1:8081", 20);

    let gossip_peers = network.gossip_peers();
    assert!(!gossip_peers.is_empty());
    assert_eq!(gossip_peers[0], "127.0.0.1:8081");
}

#[test]
fn test_network_gossip_peers_limited() {
    let mut network = memory_network(2);
    for i in 0..5 {
        network.add_peer(format!("127.0.0.1:808{}", i));
    }
    let gossip_peers = network.gossip_peers();
    assert_eq!(gossip_peers.len(), 2);
}

#[test]
fn test_network_quality_caps_at_100() {
    let mut network = memory_network(8);
    let addr = "127.0.0.1:8080";
    network.add_peer(addr.to_string());
    for _ in 0..50 {
        network.update_peer(addr, 1);
    }
    let peers = network.active_peers();
    assert_eq!(peers[0].quality, 100);
}

#[test]
fn test_network_quality_floor_at_0() {
    let mut network = memory_network(8);
    let addr = "127.0.0.1:8080";
    network.add_peer(addr.to_string());
    for _ in 0..20 {
        network.mark_peer_failed(addr);
    }
    let peers = network.active_peers();
    assert_eq!(peers[0].quality, 0);
}

#[test]
fn test_network_multiple_peers() {
    let mut network = memory_network(8);
    let addrs = vec!["127.0.0.1:8080", "127.0.0.1:8081", "127.0.0.1:8082"];
    for addr in &addrs {
        network.add_peer(addr.to_string());
    }
    assert_eq!(network.peer_count(), 3);

    network.remove_peer(addrs[1]);
    assert_eq!(network.peer_count(), 2);
}

#[test]
fn test_network_is_running_false() {
    let network = memory_network(8);
    assert!(!network.is_running());
}

#[test]
fn test_network_discovered_peer_count_no_discovery() {
    let network = memory_network(8);
    assert_eq!(network.discovered_peer_count(), 0);
}

#[test]
fn test_network_sync_discovered_peers_no_discovery() {
    let mut network = memory_network(8);
    network.sync_discovered_peers();
    assert_eq!(network.peer_count(), 0);
}

#[test]
fn test_gossip_manager_creation() {
    let manager = GossipManager::new(Duration::from_millis(1000));
    assert_eq!(manager.pending_len(), 0);
}

#[test]
fn network_test_gossip_manager_announce() {
    let mut manager = GossipManager::new(Duration::from_millis(1000));
    let hash = aingle_minimal::types::Hash::from_raw(&[1u8; 32]);
    manager.announce(hash.clone());
    assert_eq!(manager.pending_len(), 1);
}

#[test]
fn network_test_gossip_manager_take_announcements() {
    let mut manager = GossipManager::new(Duration::from_millis(1000));
    let hash1 = aingle_minimal::types::Hash::from_raw(&[1u8; 32]);
    let hash2 = aingle_minimal::types::Hash::from_raw(&[2u8; 32]);
    manager.announce(hash1);
    manager.announce(hash2);

    let announcements = manager.take_announcements();
    assert_eq!(announcements.len(), 2);

    assert_eq!(manager.pending_len(), 0);
    assert!(manager.take_announcements().is_empty());
}

#[test]
fn test_network_gossip_manager_multiple_announces() {
    let mut manager = GossipManager::new(Duration::from_millis(1000));
    for i in 0..10 {
        let mut bytes = [0u8; 32];
        bytes[0] = i;
        manager.announce(aingle_minimal::types::Hash::from_raw(&bytes));
    }
    assert_eq!(manager.pending_len(), 10);

    let taken = manager.take_announcements();
    assert_eq!(taken.len(), 10);
    assert_eq!(manager.pending_len(), 0);
}

#[test]
fn test_gossip_manager_config() {
    let manager = GossipManager::new(Duration::from_millis(100));
    assert_eq!(*manager.loop_delay(), Duration::from_millis(100));
}

#[test]
fn test_gossip_manager_complete_failure() {
    let mut manager = GossipManager::new(Duration::from_millis(10));
    assert!(manager.should_gossip_after(&Duration::from_millis(20)));
    manager.gossip_complete(false);
    assert!(!manager.should_gossip());
}

#[test]
fn test_gossip_timing() {
    let mut gossip = GossipManager::new(Duration::from_millis(10));
    assert!(!gossip.should_gossip());
    assert!(gossip.should_gossip_after(&Duration::from_millis(20)));
    assert!(!gossip.should_gossip_after(&Duration::from_millis(5)));
    gossip.gossip_complete(true);
    assert!(!gossip.should_gossip());
}

#[test]
fn test_generate_request_id() {
    let id1 = request_id_for(4242, 1);
    let id2 = request_id_for(4242, 2);
    assert_ne!(id1, id2);
    assert!(id1.starts_with("rpc-"));
    assert!(id2.starts_with("rpc-"));
    assert_eq!(request_id_for(42, 7), "rpc-42-7");
}

#[test]
fn test_pending_rpc_count() {
    let network = memory_network(8);
    assert_eq!(network.pending_rpc_count(), 0);
}

#[test]
fn test_handle_rpc_response_unknown_request() {
    let mut network = memory_network(8);
    let r = network.handle_rpc_response("unknown-id", true, vec![1, 2, 3]);
    assert!(r.is_none());
    assert_eq!(network.pending_rpc_count(), 0);
}

#[test]
fn test_cleanup_stale_rpcs_empty() {
    let mut network = memory_network(8);
    let removed = network.cleanup_stale_rpcs(Duration::from_secs(10));
    assert!(removed.is_empty());
    assert_eq!(network.pending_rpc_count(), 0);
}

#[test]
fn test_network_mesh_manager_access() {
    let network = memory_network(8);
    let mesh = network.mesh_manager();
    assert_eq!(mesh.stats.messages_relayed, 0);
}

#[test]
fn rpc_response_delivered_once() {
    let mut network = memory_network(8);
    network.register_rpc("rpc-1-1".to_string(), "get_entry".to_string());
    network.register_rpc("rpc-1-2".to_string(), "ping".to_string());
    assert_eq!(network.pending_rpc_count(), 2);

    let r = network.handle_rpc_response("rpc-1-1", true, vec![9]);
    let r = r.expect("pending call answered");
    assert!(r.success);
    assert_eq!(r.data, vec![9]);
    assert_eq!(network.pending_rpc_count(), 1);

    assert!(network.handle_rpc_response("rpc-1-1", true, vec![9]).is_none());
    assert_eq!(network.pending_rpc_count(), 1);
}

#[test]
fn rpc_register_same_id_replaces() {
    let mut table = RpcTable::new();
    table.register("a".to_string(), "m1".to_string());
    table.register("a".to_string(), "m2".to_string());
    assert_eq!(table.pending_count(), 1);
    let p = table.complete("a").unwrap();
    assert_eq!(p.method, "m2");
    assert!(!table.contains("a"));
}

#[test]
fn rpc_drop_stale_by_age() {
    let mut table = RpcTable::new();
    table.register("old".to_string(), "m".to_string());
    table.register("new".to_string(), "m".to_string());
    table.register("older".to_string(), "m".to_string());
    let ages = vec![Duration::from_secs(30), Duration::from_secs(1), Duration::from_secs(60)];
    let removed = table.drop_stale(&ages, &Duration::from_secs(10));
    assert_eq!(removed, vec!["old".to_string(), "older".to_string()]);
    assert_eq!(table.pending_count(), 1);
    assert!(table.contains("new"));

    let removed = table.cleanup_stale(&Duration::from_secs(3600));
    assert!(removed.is_empty());
    assert!(table.contains("new"));
}

#[test]
fn mesh_relay_plan_excludes_sender() {
    let mut network = memory_network(8);
    network.add_peer("10.0.0.1:5683".to_string());
    network.add_peer("10.0.0.2:5683".to_string());
    network.add_peer("10.0.0.3:5683".to_string());

    let plan = network.process_mesh_message("10.0.0.2:5683", "origin:1", 3);
    assert!(plan.deliver);
    assert_eq!(plan.relay_ttl, Some(2));
    assert_eq!(plan.targets, vec!["10.0.0.1:5683".to_string(), "10.0.0.3:5683".to_string()]);

    let again = network.process_mesh_message("10.0.0.1:5683", "origin:1", 3);
    assert!(!again.deliver);
    assert_eq!(again.relay_ttl, None);
    assert!(again.targets.is_empty());
    assert_eq!(network.mesh_stats().duplicates_ignored, 1);

    let last_hop = network.process_mesh_message("10.0.0.1:5683", "origin:2", 1);
    assert!(last_hop.deliver);
    assert_eq!(last_hop.relay_ttl, None);
    assert!(last_hop.targets.is_empty());
}

#[test]
fn mesh_broadcast_marks_own_message() {
    let mut network = memory_network(8);
    network.add_peer("10.0.0.1:5683".to_string());
    let (wrapped, targets) = network.mesh_broadcast(Message::Ping { node_id: "test-node".to_string() });
    assert_eq!(targets, vec!["10.0.0.1:5683".to_string()]);
    assert_eq!(network.mesh_stats().messages_originated, 1);
    let id = match &wrapped {
        Message::MeshRelay { message_id, origin, ttl, .. } => {
            assert_eq!(origin, "test-node");
            assert_eq!(*ttl, 5);
            message_id.clone()
        }
        _ => panic!("expected a mesh relay"),
    };
    assert!(id.starts_with("test-node:"));
    let echo = network.process_mesh_message("10.0.0.1:5683", &id, 5);
    assert!(!echo.deliver);
}

#[test]
fn mesh_manager_originate_counts() {
    let mut mesh = MeshManager::new();
    let m = mesh.originate("n1", Message::Ping { node_id: "n1".to_string() });
    assert_eq!(mesh.stats.messages_originated, 1);
    if let Message::MeshRelay { message_id, .. } = m {
        assert!(mesh.is_seen(&message_id));
    } else {
        panic!("expected a mesh relay");
    }
}

#[test]
fn network_discovery_sync_adds_socket_addrs() {
    let mut network = memory_network(8);
    network.start_discovery();
    network.handle_discovery_event(DiscoveryEvent::Resolved {
        node_id: Some("peer-a".to_string()),
        fullname: "aingle-peer-a._aingle._udp.local.".to_string(),
        addresses: vec!["192.168.1.10".to_string(), "fe80::1".to_string()],
        port: 5683,
        properties: vec![],
    });
    network.handle_discovery_event(DiscoveryEvent::Resolved {
        node_id: Some("test-node".to_string()),
        fullname: "aingle-test-node._aingle._udp.local.".to_string(),
        addresses: vec!["192.168.1.11".to_string()],
        port: 5683,
        properties: vec![],
    });
    assert_eq!(network.discovered_peer_count(), 1);
    network.sync_discovered_peers();
    assert_eq!(network.peer_count(), 2);
    let peers: Vec<String> = network.active_peers().into_iter().map(|p| p.addr).collect();
    assert_eq!(peers, vec!["192.168.1.10:5683".to_string(), "[fe80::1]:5683".to_string()]);

    network.sync_discovered_peers();
    assert_eq!(network.peer_count(), 2);

    network.stop();
    assert_eq!(network.peer_count(), 0);
    assert_eq!(network.discovered_peer_count(), 0);
}

#[test]
fn test_discovered_peer_socket_addrs() {
    let peer = DiscoveredPeer {
        node_id: "test123".to_string(),
        addresses: vec!["192.168.1.100".to_string(), "192.168.1.101".to_string()],
        port: 5683,
        discovered_at: Instant::now(),
        last_seen: Instant::now(),
        properties: vec![],
    };

    let addrs = peer.socket_addrs();
    assert_eq!(addrs.len(), 2);
    assert_eq!(addrs[0], "192.168.1.100:5683");
    assert!(addrs[1].ends_with(":5683"));
}

#[test]
fn test_discovered_peer_is_alive() {
    let peer = DiscoveredPeer {
        node_id: "test123".to_string(),
        addresses: vec!["192.168.1.100".to_string()],
        port: 5683,
        discovered_at: Instant::now(),
        last_seen: Instant::now(),
        properties: vec![],
    };

    assert!(peer.is_alive(Duration::from_secs(60)));
    assert!(peer.is_alive(Duration::from_millis(100)));
}

fn unix_now() -> u64 {
    std::time::SystemTime::now().duration_since(std::time::UNIX_EPOCH).unwrap().as_secs()
}

fn record(addr: &str, latest_seq: u32, quality: u8, last_seen_secs: u64) -> aingle_minimal::node::PeerRecord {
    aingle_minimal::node::PeerRecord { addr: addr.to_string(), latest_seq, quality, last_seen_secs }
}

#[test]
fn test_peer_persistence_skips_low_quality() {
    let mut network = memory_network(8);
    let rec = record("192.168.1.100:5683", 0, 5, unix_now());
    assert_eq!(network.restore_peer(&rec, unix_now(), true), RestoreOutcome::LowQuality);
    assert!(network.known_peer_records(unix_now()).is_empty());
}

#[test]
fn test_peer_persistence_skips_stale() {
    let mut network = memory_network(8);
    let now = unix_now();
    let rec = record("192.168.1.100:5683", 100, 80, now.saturating_sub(25 * 60 * 60));
    assert_eq!(network.restore_peer(&rec, now, true), RestoreOutcome::Stale);
    assert!(network.known_peer_records(now).is_empty());
}

#[test]
fn test_peer_persistence_accepts_recent_quality_peer() {
    let mut network = memory_network(8);
    let now = unix_now();
    let rec = record("192.168.1.100:5683", 50, 60, now);
    assert_eq!(network.restore_peer(&rec, now, true), RestoreOutcome::Restored);
    let peers = network.known_peer_records(now);
    assert_eq!(peers.len(), 1);
    assert_eq!(peers[0].addr, "192.168.1.100:5683");
    assert_eq!(peers[0].quality, 60);
    assert_eq!(peers[0].latest_seq, 50);
}

#[test]
fn test_peer_persistence_invalid_address() {
    let mut network = memory_network(8);
    let now = unix_now();
    let rec = record("not-a-valid-address", 50, 80, now);
    assert_eq!(network.restore_peer(&rec, now, false), RestoreOutcome::InvalidAddress);
    assert!(network.known_peer_records(now).is_empty());
}

#[test]
fn test_get_known_peers_with_peers() {
    let mut network = memory_network(8);
    network.add_peer("192.168.1.100:5683".to_string());
    network.add_peer("192.168.1.101:5683".to_string());

    let peers = network.known_peer_records(unix_now());
    assert_eq!(peers.len(), 2);
    let addrs: Vec<&str> = peers.iter().map(|p| p.addr.as_str()).collect();
    assert!(addrs.contains(&"192.168.1.100:5683"));
    assert!(addrs.contains(&"192.168.1.101:5683"));
    for peer in &peers {
        assert!(peer.quality > 0);
    }
}

#[test]
fn test_get_known_peers_empty() {
    let network = memory_network(8);
    assert!(network.known_peer_records(unix_now()).is_empty());
}

#[test]
fn restore_caps_quality_and_keeps_seq() {
    let mut network = memory_network(8);
    let now = 1_000_000;
    let rec = record("10.0.0.1:1", 7, 250, now - 10);
    assert_eq!(network.restore_peer(&rec, now, true), RestoreOutcome::Restored);
    let rec2 = record("10.0.0.2:1", 7, 50, now);
    assert_eq!(network.restore_peer(&rec2, now, true), RestoreOutcome::Restored);
    let peers = network.known_peer_records(now);
    assert_eq!(peers[0].quality, 100);
    assert_eq!(peers[0].latest_seq, 7);
    assert_eq!(peers[1].quality, 50);
    assert_eq!(peers[1].latest_seq, 0);
    assert_eq!(rec.quality_boosts(), 40);
    let exactly_a_day = record("10.0.0.3:1", 0, 10, now - 86400);
    assert_eq!(exactly_a_day.restore_outcome(now, true), RestoreOutcome::Restored);
    let over_a_day = record("10.0.0.3:1", 0, 10, now - 86401);
    assert_eq!(over_a_day.restore_outcome(now, true), RestoreOutcome::Stale);
}

#[test]
fn network_clock_filters_take_readings() {
    let mut network = memory_network(8);
    network.add_peer("10.0.0.1:5683".to_string());
    network.add_peer("10.0.0.2:5683".to_string());
    network.add_peer("10.0.0.3:5683".to_string());
    let since = vec![Duration::from_secs(10), Duration::from_secs(400), Duration::from_secs(299)];
    let active = network.active_peers_at(&since);
    let addrs: Vec<String> = active.iter().map(|p| p.addr.clone()).collect();
    assert_eq!(addrs, vec!["10.0.0.1:5683".to_string(), "10.0.0.3:5683".to_string()]);
    assert_eq!(network.peer_count_at(&since), 2);
    assert_eq!(network.gossip_peers_at(&since).len(), 2);
    let exactly_timeout = vec![Duration::from_secs(300), Duration::from_secs(300), Duration::from_secs(300)];
    assert_eq!(network.peer_count_at(&exactly_timeout), 0);
    let records = network.known_peer_records_at(1_000, &since);
    assert_eq!(records.len(), 2);
    assert_eq!(records[0].last_seen_secs, 990);
    assert_eq!(records[1].last_seen_secs, 701);
    assert_eq!(network.peer_since_seen().len(), 3);
}
