use aingle_minimal::bluetooth::{BleConfig, BlePeer, BleState, BleStats};
use aingle_minimal::coap::{
    BlockState, CoapConfig, ACK_TIMEOUT_MS, BLOCK_SIZE, COAP_DEFAULT_PORT, COAP_MAX_MESSAGE_SIZE,
    COAP_MULTICAST_IPV4, COAP_MULTICAST_IPV6, MAX_RETRANSMIT,
};
use aingle_minimal::coap::packet::{
    response_packet, CoapType, Received, CODE_CONTENT, CODE_GET, CODE_POST, OPTION_BLOCK1,
    OPTION_CONTENT_FORMAT, OPTION_URI_PATH,
};
use aingle_minimal::coap::{CoapServer, PacketAction};
use aingle_minimal::error::{Error, NetworkError};
use aingle_minimal::quic::QuicConfig;
use aingle_minimal::rest::RestConfig;
use std::time::Duration;

#[test]
fn test_ble_config_default() {
    let config = BleConfig::default();
    assert_eq!(config.device_name, "AIngle-Node");
    assert!(config.mesh_relay);
    assert_eq!(config.tx_power, 0);
    assert_eq!(config.max_connections, 4);
}

#[test]
fn test_ble_config_low_power() {
    let config = BleConfig::low_power();
    assert_eq!(config.device_name, "AIngle-LP");
    assert!(!config.mesh_relay);
    assert_eq!(config.tx_power, -12);
    assert!(config.passive_scan);
}

#[test]
fn test_ble_config_mesh_relay() {
    let config = BleConfig::mesh_relay();
    assert!(config.mesh_relay);
    assert_eq!(config.tx_power, 4);
    assert_eq!(config.max_connections, 8);
}

#[test]
fn test_ble_peer_creation() {
    let peer = BlePeer::new("AA:BB:CC:DD:EE:FF", -50);
    assert_eq!(peer.address, "AA:BB:CC:DD:EE:FF");
    assert_eq!(peer.rssi, -50);
    assert!(!peer.connected);
    assert!(peer.name.is_none());
}

#[test]
fn test_ble_peer_update_rssi() {
    let mut peer = BlePeer::new("AA:BB:CC:DD:EE:FF", -50);
    peer.update_rssi(-40);
    assert_eq!(peer.rssi, -40);
}

#[test]
fn test_ble_peer_stale() {
    let peer = BlePeer::new("AA:BB:CC:DD:EE:FF", -50);
    assert!(!peer.is_stale(Duration::from_secs(60)));
}

#[test]
fn test_ble_stats_default() {
    let stats = BleStats::default();
    assert_eq!(stats.messages_sent, 0);
    assert_eq!(stats.messages_received, 0);
    assert_eq!(stats.messages_relayed, 0);
    assert_eq!(stats.connections_established, 0);
}

#[test]
fn test_ble_state_equality() {
    assert_eq!(BleState::Idle, BleState::Idle);
    assert_ne!(BleState::Connected, BleState::Scanning);
}

#[test]
fn test_coap_config_default() {
    let config = CoapConfig::default();
    assert_eq!(config.port, 5683);
    assert_eq!(config.bind_addr, "0.0.0.0");
    assert!(config.enable_multicast);
    assert!(!config.default_confirmable);
    assert_eq!(config.ack_timeout_ms, ACK_TIMEOUT_MS);
    assert_eq!(config.max_retransmit, MAX_RETRANSMIT);
}

#[test]
fn test_coap_config_iot() {
    let config = CoapConfig::iot_mode();
    assert_eq!(config.ack_timeout_ms, 1000);
    assert_eq!(config.max_retransmit, 2);
    assert!(config.enable_multicast);
    assert!(!config.default_confirmable);
}

#[test]
fn test_coap_config_clone() {
    let config1 = CoapConfig::default();
    let config2 = config1.clone();
    assert_eq!(config1.port, config2.port);
    assert_eq!(config1.bind_addr, config2.bind_addr);
}

#[test]
fn test_coap_config_debug() {
    let config = CoapConfig::default();
    let debug_str = format!("{:?}", config);
    assert!(debug_str.contains("CoapConfig"));
    assert!(debug_str.contains("5683"));
}

#[test]
fn test_constants() {
    assert_eq!(COAP_MAX_MESSAGE_SIZE, 1024);
    assert_eq!(COAP_DEFAULT_PORT, 5683);
    assert_eq!(COAP_MULTICAST_IPV4, "224.0.1.187");
    assert_eq!(BLOCK_SIZE, 256);
    assert_eq!(MAX_RETRANSMIT, 4);
    assert_eq!(ACK_TIMEOUT_MS, 2000);
}

#[test]
fn test_block_state_debug() {
    let state = BlockState { data: vec![1, 2, 3], block_num: 5, more: true };
    let debug_str = format!("{:?}", state);
    assert!(debug_str.contains("BlockState"));
    assert!(debug_str.contains("block_num: 5"));
    assert!(debug_str.contains("more: true"));
}

#[test]
fn test_block_state_clone() {
    let state1 = BlockState { data: vec![1, 2, 3], block_num: 10, more: false };
    let state2 = state1.clone();
    assert_eq!(state1.data, state2.data);
    assert_eq!(state1.block_num, state2.block_num);
    assert_eq!(state1.more, state2.more);
}

#[test]
fn test_coap_multicast_ipv6_constant() {
    assert_eq!(COAP_MULTICAST_IPV6, "ff02::fd");
}

#[test]
fn test_block_state_fields() {
    let state = BlockState { data: vec![10, 20, 30, 40, 50], block_num: 42, more: true };

    assert_eq!(state.data.len(), 5);
    assert_eq!(state.block_num, 42);
    assert!(state.more);
}

#[test]
fn test_coap_config_custom() {
    let config = CoapConfig {
        bind_addr: "192.168.1.100".to_string(),
        port: 5700,
        enable_multicast: false,
        default_confirmable: true,
        ack_timeout_ms: 5000,
        max_retransmit: 10,
    };

    assert_eq!(config.port, 5700);
    assert!(!config.enable_multicast);
    assert!(config.default_confirmable);
    assert_eq!(config.ack_timeout_ms, 5000);
    assert_eq!(config.max_retransmit, 10);
}

#[test]
fn test_quic_config_default() {
    let config = QuicConfig::default();
    assert_eq!(config.port, 8443);
    assert_eq!(config.max_concurrent_streams, 100);
}

#[test]
fn test_quic_config_iot_mode() {
    let config = QuicConfig::iot_mode();
    assert_eq!(config.max_concurrent_streams, 10);
    assert_eq!(config.max_connections, 100);
}

#[test]
fn test_quic_config_production() {
    let config = QuicConfig::production();
    assert_eq!(config.max_concurrent_streams, 1000);
    assert_eq!(config.max_connections, 10000);
}

#[test]
fn test_rest_config_default() {
    let config = RestConfig::default();
    assert_eq!(config.bind_addr, "0.0.0.0");
    assert_eq!(config.port, 8080);
    assert!(config.enable_cors);
}

#[test]
fn test_rest_config_with_port() {
    let config = RestConfig::with_port(3000);
    assert_eq!(config.port, 3000);
    assert_eq!(config.bind_addr, "0.0.0.0");
}

#[test]
fn test_rest_config_bind_address() {
    let config = RestConfig { bind_addr: "127.0.0.1".to_string(), port: 9000, enable_cors: false };
    assert_eq!(config.bind_address(), "127.0.0.1:9000");
}

#[test]
fn test_api_response_success() {
    let response = aingle_minimal::rest::ApiResponse::success("test data");
    assert!(response.success);
    assert!(response.data.is_some());
    assert!(response.error.is_none());
}

#[test]
fn test_api_response_error() {
    let response = aingle_minimal::rest::ApiResponse::<()>::error("something went wrong");
    assert!(!response.success);
    assert!(response.data.is_none());
    assert!(response.error.is_some());
    assert_eq!(response.error.unwrap(), "something went wrong");
}

#[test]
fn coap_request_packet_round_trip() {
    let mut server = CoapServer::with_message_id("0.0.0.0".to_string(), 5683, "node".to_string(), 41);
    let packet = server.request_packet("/gossip", b"{\"x\":1}", true);
    assert_eq!(packet.version, 1);
    assert_eq!(packet.msg_type, CoapType::Confirmable);
    assert_eq!(packet.code, CODE_POST);
    assert_eq!(packet.message_id, 42);
    assert_eq!(packet.token.len(), 4);
    assert_eq!(packet.options, vec![(OPTION_URI_PATH, b"gossip".to_vec()), (OPTION_CONTENT_FORMAT, vec![50])]);
    let bytes = packet.to_bytes("Failed to serialize packet").unwrap();
    assert_eq!(bytes[0], 0x44);
    assert_eq!(bytes[1], CODE_POST);
    assert_eq!(&bytes[2..4], &[0, 42]);
    match server.receive(&bytes).unwrap() {
        Received::Request { packet: got, path, action } => {
            assert_eq!(path, "/gossip");
            assert_eq!(action, PacketAction::DecodeMessage);
            assert_eq!(got.message_id, 42);
            assert_eq!(got.token, packet.token);
            assert_eq!(got.payload, b"{\"x\":1}".to_vec());
            assert_eq!(got.segments(), vec!["gossip".to_string()]);
        }
        other => panic!("unexpected {:?}", other),
    }
}

#[test]
fn coap_ping_and_ack_and_garbage() {
    let mut server = CoapServer::with_message_id("0.0.0.0".to_string(), 5683, "node".to_string(), 7);
    let ping = server.request_packet("/ping", b"peer-1", false);
    let bytes = ping.to_bytes("ctx").unwrap();
    match server.receive(&bytes).unwrap() {
        Received::Request { packet, action, .. } => {
            assert_eq!(action, PacketAction::PingFrom);
            assert_eq!(packet.payload_text(), "peer-1");
            assert_eq!(packet.msg_type, CoapType::NonConfirmable);
        }
        other => panic!("unexpected {:?}", other),
    }
    let ack = response_packet(&ping, CODE_CONTENT, None);
    assert_eq!(ack.msg_type, CoapType::Acknowledgement);
    assert!(ack.options.is_empty());
    let ack_bytes = ack.to_bytes("ctx").unwrap();
    match server.receive(&ack_bytes).unwrap() {
        Received::Ack { message_id } => assert_eq!(message_id, 8),
        other => panic!("unexpected {:?}", other),
    }
    match server.receive(&[0x40]) {
        Err(Error::Network(NetworkError::Other(m))) => assert!(m.starts_with("Failed to parse CoAP packet: ")),
        other => panic!("unexpected {:?}", other),
    }
}

#[test]
fn coap_discovery_and_blocks() {
    let mut server = CoapServer::with_message_id("0.0.0.0".to_string(), 5683, "node".to_string(), 65535);
    let d = server.discovery_packet();
    assert_eq!(d.message_id, 0);
    assert_eq!(d.code, CODE_GET);
    let bytes = d.to_bytes("ctx").unwrap();
    match server.receive(&bytes).unwrap() {
        Received::Request { path, action, .. } => {
            assert_eq!(path, "/.well-known/core");
            assert_eq!(action, PacketAction::Ignore);
        }
        other => panic!("unexpected {:?}", other),
    }
    let mut block = server.request_packet("/record", &[1, 2, 3], true);
    block.add_option(OPTION_BLOCK1, vec![8]);
    let again = server.receive(&block.to_bytes("ctx").unwrap()).unwrap();
    match again {
        Received::Request { packet, .. } => assert!(packet.options.contains(&(OPTION_BLOCK1, vec![8]))),
        other => panic!("unexpected {:?}", other),
    }
    let big = server.request_packet("/gossip", &vec![0u8; 5000], false);
    match big.to_bytes("Failed to serialize packet") {
        Err(Error::Network(NetworkError::Other(m))) => assert!(m.starts_with("Failed to serialize packet: ")),
        other => panic!("unexpected {:?}", other),
    }
}
