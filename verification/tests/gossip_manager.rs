use aingle_minimal::gossip::{BloomFilter, GossipManager, GossipMessage, MessagePriority};
use std::time::Duration;

fn manager() -> GossipManager {
    GossipManager::new(Duration::from_millis(1000))
}

#[test]
fn gossip_test_gossip_manager_announce() {
    let mut manager = manager();
    let hash = aingle_minimal::types::Hash::from_bytes(&[42; 32]);
    manager.announce(hash.clone());

    assert!(manager.is_known(&hash));
    assert_eq!(manager.pending_len(), 1);
}

#[test]
fn test_gossip_manager_find_missing() {
    let manager = manager();

    let mut peer_filter = BloomFilter::new();
    let hash1 = aingle_minimal::types::Hash::from_bytes(&[1; 32]);
    let hash2 = aingle_minimal::types::Hash::from_bytes(&[2; 32]);

    peer_filter.insert(&hash1);

    let our_hashes = vec![hash1.clone(), hash2.clone()];
    let missing = manager.find_missing(&peer_filter, &our_hashes);

    assert_eq!(missing.len(), 1);
    assert_eq!(missing[0], hash2);
}

#[test]
fn gossip_test_gossip_manager_take_announcements() {
    let mut manager = manager();
    let hash1 = aingle_minimal::types::Hash::from_bytes(&[1; 32]);
    let hash2 = aingle_minimal::types::Hash::from_bytes(&[2; 32]);

    manager.announce(hash1.clone());
    manager.announce(hash2.clone());

    let taken = manager.take_announcements(10);
    assert_eq!(taken.len(), 2);
    assert_eq!(manager.pending_len(), 0);
}

#[test]
fn test_gossip_manager_take_announcements_limited() {
    let mut manager = manager();
    for i in 0..10 {
        let hash = aingle_minimal::types::Hash::from_bytes(&[i as u8; 32]);
        manager.announce(hash);
    }

    let taken = manager.take_announcements(5);
    assert_eq!(taken.len(), 5);
    assert_eq!(manager.pending_len(), 5);
}

#[test]
fn test_gossip_manager_gossip_complete() {
    let mut manager = manager();
    assert_eq!(manager.round(), 0);
    manager.gossip_complete(true);
    assert_eq!(manager.round(), 1);
    manager.gossip_complete(false);
    assert_eq!(manager.round(), 2);
}

#[test]
fn test_gossip_manager_queue_len() {
    let mut manager = manager();
    assert_eq!(manager.queue_len(), 0);

    let hash = aingle_minimal::types::Hash::from_bytes(&[0; 32]);
    manager.queue_message(GossipMessage::Announce { hash }, MessagePriority::Low);
    assert_eq!(manager.queue_len(), 1);
}

#[test]
fn test_gossip_manager_reset_bloom_filter() {
    let mut manager = manager();
    let hash = aingle_minimal::types::Hash::from_bytes(&[1; 32]);
    manager.announce(hash.clone());
    assert!(manager.is_known(&hash));

    manager.reset_bloom_filter();
    assert!(!manager.get_bloom_filter().may_contain(&hash));
    assert!(!manager.is_known(&hash));
}

#[test]
fn test_gossip_manager_get_bloom_filter() {
    let mut manager = manager();
    let hash = aingle_minimal::types::Hash::from_bytes(&[42; 32]);
    manager.announce(hash.clone());

    let filter = manager.get_bloom_filter();
    assert!(filter.may_contain(&hash));
}

#[test]
fn gossip_manager_next_message_by_priority() {
    let mut manager = manager();
    let low = aingle_minimal::types::Hash::from_bytes(&[1; 32]);
    let high = aingle_minimal::types::Hash::from_bytes(&[2; 32]);
    manager.queue_message(GossipMessage::Announce { hash: low }, MessagePriority::Low);
    manager.queue_message(GossipMessage::Announce { hash: high }, MessagePriority::High);
    match manager.next_message() {
        Some(GossipMessage::Announce { hash }) => assert_eq!(hash, high),
        other => panic!("unexpected {:?}", other),
    }
    match manager.next_message() {
        Some(GossipMessage::Announce { hash }) => assert_eq!(hash, low),
        other => panic!("unexpected {:?}", other),
    }
    assert!(manager.next_message().is_none());
}
