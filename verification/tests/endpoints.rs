use aingle_minimal::bluetooth::{BleConfig, BleManager, BleState};
use aingle_minimal::coap::{
    extract_path, packet_action, path_segments, CoapServer, PacketAction,
};
use aingle_minimal::dtls::{DtlsConfig, DtlsSessionManager, SecureCoap, SecurityMode};
use aingle_minimal::network::Message;

fn segs(parts: &[&str]) -> Vec<String> {
    parts.iter().map(|p| p.to_string()).collect()
}

#[test]
fn test_coap_server_creation() {
    let server = CoapServer::new("127.0.0.1".to_string(), 5684, "node1".to_string());
    assert!(!server.is_running(false));
    assert_eq!(server.bind_address(), "127.0.0.1:5684");
}

#[test]
fn test_core_link_format() {
    let server = CoapServer::new("0.0.0.0".to_string(), 5683, "test".to_string());
    let links = server.get_core_link_format();
    assert!(links.contains("/gossip"));
    assert!(links.contains("/record"));
    assert!(links.contains("/announce"));
    assert!(links.contains("/ping"));
    assert!(links.contains("rt="));
    assert!(links.contains("ct=50"));
}

#[test]
fn test_message_to_path_all_variants() {
    assert_eq!(CoapServer::message_to_path(&Message::Ping { node_id: "test".to_string() }), "/ping");
    assert_eq!(
        CoapServer::message_to_path(&Message::Pong { node_id: "test".to_string(), latest_seq: 0 }),
        "/ping"
    );
    assert_eq!(CoapServer::message_to_path(&Message::GossipRequest { from_seq: 0, limit: 10 }), "/gossip");
    assert_eq!(CoapServer::message_to_path(&Message::GossipResponse { records: vec![] }), "/gossip");
    let test_hash = aingle_minimal::types::Hash::from_bytes(&[0u8; 32]);
    assert_eq!(CoapServer::message_to_path(&Message::NewRecord { hash: test_hash.clone() }), "/announce");
    assert_eq!(CoapServer::message_to_path(&Message::GetRecord { hash: test_hash.clone() }), "/record");
}

#[test]
fn message_paths_of_newer_messages() {
    let rpc = Message::RemoteCall {
        request_id: "rpc-1-1".to_string(),
        from: "n".to_string(),
        method: "m".to_string(),
        payload: vec![],
    };
    assert_eq!(CoapServer::message_to_path(&rpc), "/gossip");
    let relay = Message::MeshRelay {
        message_id: "n:1".to_string(),
        origin: "n".to_string(),
        ttl: 3,
        inner: Box::new(Message::Ping { node_id: "n".to_string() }),
    };
    let path = CoapServer::message_to_path(&relay);
    assert_eq!(path, "/gossip");
    assert_eq!(packet_action(&path, false), PacketAction::DecodeMessage);
}

#[test]
fn test_extract_path_empty() {
    let path = extract_path(&Vec::new());
    assert_eq!(path, "/.well-known/core");
}

#[test]
fn test_extract_path_single_segment() {
    let path = extract_path(&segs(&["ping"]));
    assert_eq!(path, "/ping");
}

#[test]
fn test_extract_path_multiple_segments() {
    let path = extract_path(&segs(&[".well-known", "core"]));
    assert_eq!(path, "/.well-known/core");
}

#[test]
fn test_create_request_packet_with_path_segments() {
    let segments = path_segments("/a/b/c");
    assert_eq!(segments.len(), 3);
    assert_eq!(extract_path(&segments), "/a/b/c");
}

#[test]
fn test_coap_server_next_message_id() {
    let mut server = CoapServer::new("0.0.0.0".to_string(), 5683, "test".to_string());
    let id1 = server.next_message_id();
    let id2 = server.next_message_id();
    assert_eq!(id2, id1.wrapping_add(1));
}

#[test]
fn test_coap_server_generate_token() {
    let server = CoapServer::new("0.0.0.0".to_string(), 5683, "test".to_string());
    let token1 = server.generate_token();
    let token2 = server.generate_token();
    assert_eq!(token1.len(), 4);
    assert_eq!(token2.len(), 4);
}

#[test]
fn test_coap_server_message_id_wrapping() {
    let mut server = CoapServer::with_message_id("0.0.0.0".to_string(), 5683, "test".to_string(), u16::MAX);
    let id = server.next_message_id();
    assert_eq!(id, 0);
}

#[test]
fn test_coap_server_is_running_no_socket() {
    let mut server = CoapServer::new("0.0.0.0".to_string(), 5683, "test".to_string());
    assert!(!server.is_running(false));
    server.mark_started();
    assert!(!server.is_running(false));
    assert!(server.is_running(true));
    server.mark_stopped();
    assert!(!server.is_running(true));
}

#[test]
fn test_secure_coap_creation() {
    let config = DtlsConfig::psk(vec![1, 2, 3, 4], "test".to_string());
    let server = SecureCoap::new("0.0.0.0".to_string(), 5684, "node-123".to_string(), Some(config));
    assert!(server.is_ok());
}

#[test]
fn test_session_manager_security_mode() {
    let config = DtlsConfig::psk(vec![1, 2, 3, 4], "test".to_string());
    let manager = DtlsSessionManager::new(config).unwrap();
    assert_eq!(manager.security_mode(), &SecurityMode::PreSharedKey);
}

#[test]
fn test_secure_coap_no_dtls() {
    let server = SecureCoap::new("0.0.0.0".to_string(), 5684, "node-123".to_string(), None).unwrap();
    assert!(!server.is_secure());
    assert_eq!(server.security_mode(), SecurityMode::NoSec);
    assert_eq!(server.session_count(), 0);
}

#[test]
fn test_secure_coap_coap_server() {
    let server = SecureCoap::new("0.0.0.0".to_string(), 5684, "node-123".to_string(), None).unwrap();
    let coap = server.coap_server();
    assert!(!coap.is_running(false));
}

#[test]
fn test_secure_coap_coap_server_mut() {
    let mut server = SecureCoap::new("0.0.0.0".to_string(), 5684, "node-123".to_string(), None).unwrap();
    let coap_mut = server.coap_server_mut();
    coap_mut.mark_started();
    assert!(server.coap_server().is_running(true));
}

#[test]
fn test_secure_coap_invalid_config() {
    let config = DtlsConfig {
        mode: SecurityMode::PreSharedKey,
        psk: Vec::new(),
        psk_identity: "test".to_string(),
        ..Default::default()
    };
    let result = SecureCoap::new("0.0.0.0".to_string(), 5684, "node-123".to_string(), Some(config));
    assert!(result.is_err());
}

#[test]
fn test_ble_manager_creation() {
    let config = BleConfig::default();
    let manager = BleManager::new(config);
    assert_eq!(manager.state(), BleState::Uninitialized);
    assert!(!manager.is_running());
    assert_eq!(manager.connected_count(), 0);
}

#[test]
fn test_ble_manager_peer_discovery() {
    let mut manager = BleManager::new(BleConfig::default());
    manager.on_peer_discovered("AA:BB:CC:DD:EE:FF", -50, Some("Test Device"));

    assert_eq!(manager.peers().len(), 1);
    let peer = manager.get_peer("AA:BB:CC:DD:EE:FF").unwrap();
    assert_eq!(peer.rssi, -50);
    assert_eq!(peer.name, Some("Test Device".to_string()));
}

#[test]
fn test_ble_manager_peer_update() {
    let mut manager = BleManager::new(BleConfig::default());
    manager.on_peer_discovered("AA:BB:CC:DD:EE:FF", -50, None);
    manager.on_peer_discovered("AA:BB:CC:DD:EE:FF", -40, Some("Updated Name"));

    let peer = manager.get_peer("AA:BB:CC:DD:EE:FF").unwrap();
    assert_eq!(peer.rssi, -40);
    assert_eq!(peer.name, Some("Updated Name".to_string()));
}
