use aingle_minimal::config::{MeshMode, TransportConfig};
use aingle_minimal::network::{MeshManager, MeshStats, Message, RpcResponse};

#[test]
fn test_message_clone() {
    let msg1 = Message::Ping { node_id: "test".to_string() };
    let msg2 = msg1.clone();

    if let (Message::Ping { node_id: n1 }, Message::Ping { node_id: n2 }) = (&msg1, &msg2) {
        assert_eq!(n1, n2);
    } else {
        panic!("Clone failed");
    }
}

#[test]
fn test_message_debug() {
    let msg = Message::Ping { node_id: "debug-test".to_string() };
    let debug_str = format!("{:?}", msg);
    assert!(debug_str.contains("Ping"));
    assert!(debug_str.contains("debug-test"));
}

#[test]
fn test_transport_config_memory() {
    let config = TransportConfig::Memory;
    let debug_str = format!("{:?}", config);
    assert!(debug_str.contains("Memory"));
}

#[test]
fn test_transport_config_coap() {
    let config = TransportConfig::Coap { bind_addr: "0.0.0.0".to_string(), port: 5683 };
    let debug_str = format!("{:?}", config);
    assert!(debug_str.contains("Coap"));
    assert!(debug_str.contains("5683"));
}

#[test]
fn test_transport_config_quic() {
    let config = TransportConfig::Quic { bind_addr: "0.0.0.0".to_string(), port: 5684 };
    let debug_str = format!("{:?}", config);
    assert!(debug_str.contains("Quic"));
}

#[test]
fn test_transport_config_mesh() {
    let config = TransportConfig::Mesh { mode: MeshMode::WiFiDirect };
    let debug_str = format!("{:?}", config);
    assert!(debug_str.contains("Mesh"));
    assert!(debug_str.contains("WiFiDirect"));
}

#[test]
fn test_rpc_response_struct() {
    let response = RpcResponse { success: true, data: vec![1, 2, 3, 4] };
    assert!(response.success);
    assert_eq!(response.data, vec![1, 2, 3, 4]);
}

#[test]
fn test_rpc_response_clone() {
    let response1 = RpcResponse { success: false, data: b"error message".to_vec() };
    let response2 = response1.clone();
    assert_eq!(response1.success, response2.success);
    assert_eq!(response1.data, response2.data);
}

#[test]
fn test_rpc_response_debug() {
    let response = RpcResponse { success: true, data: vec![] };
    let debug_str = format!("{:?}", response);
    assert!(debug_str.contains("RpcResponse"));
    assert!(debug_str.contains("success: true"));
}

#[test]
fn test_mesh_manager_new() {
    let mesh = MeshManager::new();
    assert_eq!(mesh.stats.messages_relayed, 0);
    assert_eq!(mesh.stats.duplicates_ignored, 0);
}

#[test]
fn test_mesh_manager_seen_tracking() {
    let mut mesh = MeshManager::new();

    assert!(!mesh.is_seen("msg-1"));
    mesh.mark_seen("msg-1".to_string());
    assert!(mesh.is_seen("msg-1"));
    assert!(!mesh.is_seen("msg-2"));
}

#[test]
fn test_mesh_manager_process_relay_new() {
    let mut mesh = MeshManager::new();

    let (should_process, should_relay, new_ttl) = mesh.process_relay("msg-1", 5);

    assert!(should_process);
    assert!(should_relay);
    assert_eq!(new_ttl, 4);
}

#[test]
fn test_mesh_manager_process_relay_duplicate() {
    let mut mesh = MeshManager::new();

    let (should_process, _, _) = mesh.process_relay("msg-1", 5);
    assert!(should_process);

    let (should_process, should_relay, _) = mesh.process_relay("msg-1", 5);
    assert!(!should_process);
    assert!(!should_relay);
    assert_eq!(mesh.stats.duplicates_ignored, 1);
}

#[test]
fn test_mesh_manager_process_relay_ttl_zero() {
    let mut mesh = MeshManager::new();

    let (should_process, should_relay, _) = mesh.process_relay("msg-1", 0);
    assert!(!should_process);
    assert!(!should_relay);
    assert_eq!(mesh.stats.messages_dropped_ttl, 1);
}

#[test]
fn test_mesh_manager_process_relay_ttl_one() {
    let mut mesh = MeshManager::new();

    let (should_process, should_relay, new_ttl) = mesh.process_relay("msg-1", 1);

    assert!(should_process);
    assert!(!should_relay);
    assert_eq!(new_ttl, 0);
}

#[test]
fn test_mesh_manager_generate_message_id() {
    let id1 = MeshManager::generate_message_id("node-1");
    let id2 = MeshManager::generate_message_id("node-1");

    assert!(id1.starts_with("node-1:"));
    assert!(id2.starts_with("node-1:"));
    assert_ne!(id1, id2);
}

#[test]
fn test_mesh_manager_wrap_for_relay() {
    let inner = Message::Ping { node_id: "source".to_string() };

    let wrapped = MeshManager::wrap_for_relay("relay-node", inner, Some(3));

    if let Message::MeshRelay { message_id, origin, ttl, inner } = wrapped {
        assert!(message_id.starts_with("relay-node:"));
        assert_eq!(origin, "relay-node");
        assert_eq!(ttl, 3);
        assert!(matches!(*inner, Message::Ping { .. }));
    } else {
        panic!("Expected MeshRelay message");
    }
}

#[test]
fn test_mesh_stats_default() {
    let stats = MeshStats::default();
    assert_eq!(stats.messages_relayed, 0);
    assert_eq!(stats.messages_dropped_ttl, 0);
    assert_eq!(stats.duplicates_ignored, 0);
    assert_eq!(stats.messages_originated, 0);
}
