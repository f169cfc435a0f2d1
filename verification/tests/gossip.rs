use aingle_minimal::gossip::{
    BloomFilter, GossipMessage, MessagePriority, MessageQueue, PeerGossipState, MAX_BACKOFF_MS, MIN_BACKOFF_MS,
};
use std::time::Duration;

#[test]
fn test_bloom_filter_insert_contains() {
    let mut filter = BloomFilter::new();
    let hash = aingle_minimal::types::Hash::from_bytes(&[
        1, 2, 3, 4, 5, 6, 7, 8, 9, 10, 11, 12, 13, 14, 15, 16, 17, 18, 19, 20, 21, 22, 23, 24, 25, 26, 27,
        28, 29, 30, 31, 32,
    ]);

    assert!(!filter.may_contain(&hash));
    filter.insert(&hash);
    assert!(filter.may_contain(&hash));
    assert_eq!(filter.len(), 1);
}

#[test]
fn test_bloom_filter_serialization() {
    let mut filter = BloomFilter::new();
    let hash = aingle_minimal::types::Hash::from_bytes(&[1; 32]);
    filter.insert(&hash);

    let bytes = filter.to_bytes();
    let restored = BloomFilter::from_bytes(&bytes);

    assert!(restored.may_contain(&hash));
}

#[test]
fn test_message_priority_ordering() {
    let mut queue: MessageQueue<String> = MessageQueue::new(10);

    queue.push("low".to_string(), MessagePriority::Low);
    queue.push("critical".to_string(), MessagePriority::Critical);
    queue.push("normal".to_string(), MessagePriority::Normal);
    queue.push("high".to_string(), MessagePriority::High);

    assert_eq!(queue.pop(), Some("critical".to_string()));
    assert_eq!(queue.pop(), Some("high".to_string()));
    assert_eq!(queue.pop(), Some("normal".to_string()));
    assert_eq!(queue.pop(), Some("low".to_string()));
}

#[test]
fn test_bloom_filter_default() {
    let filter = BloomFilter::default();
    assert!(filter.is_empty());
    assert_eq!(filter.len(), 0);
}

#[test]
fn test_bloom_filter_with_capacity() {
    let filter = BloomFilter::with_capacity(512, 5);
    assert!(filter.is_empty());
    assert_eq!(filter.len(), 0);
}

#[test]
fn bloom_filter_width_rounds_up_to_words() {
    assert_eq!(BloomFilter::with_capacity(100, 3).bit_count(), 128);
    assert_eq!(BloomFilter::with_capacity(64, 3).bit_count(), 64);
    assert_eq!(BloomFilter::with_capacity(1, 3).bit_count(), 64);
    assert_eq!(BloomFilter::with_capacity(5000, 3).bit_count(), 1024);
    assert_eq!(BloomFilter::with_capacity(1000, 3).bit_count(), 1024);
}

#[test]
fn test_bloom_filter_clear() {
    let mut filter = BloomFilter::new();
    let hash = aingle_minimal::types::Hash::from_bytes(&[1; 32]);
    filter.insert(&hash);
    assert!(!filter.is_empty());

    filter.clear();
    assert!(filter.is_empty());
    assert!(!filter.may_contain(&hash));
}

#[test]
fn test_bloom_filter_clone() {
    let mut filter = BloomFilter::new();
    let hash = aingle_minimal::types::Hash::from_bytes(&[1; 32]);
    filter.insert(&hash);

    let cloned = filter.clone();
    assert!(cloned.may_contain(&hash));
    assert_eq!(cloned.len(), 1);
}

#[test]
fn test_bloom_filter_debug() {
    let filter = BloomFilter::new();
    let debug = format!("{:?}", filter);
    assert!(debug.contains("BloomFilter"));
}

#[test]
fn test_message_priority_all_variants() {
    let priorities = [
        MessagePriority::Low,
        MessagePriority::Normal,
        MessagePriority::High,
        MessagePriority::Critical,
    ];
    for priority in priorities {
        let cloned = priority;
        assert_eq!(priority, cloned);
    }
}

#[test]
fn test_message_queue_len_is_empty() {
    let mut queue: MessageQueue<String> = MessageQueue::new(10);
    assert!(queue.is_empty());
    assert_eq!(queue.len(), 0);

    queue.push("test".to_string(), MessagePriority::Normal);
    assert!(!queue.is_empty());
    assert_eq!(queue.len(), 1);
}

#[test]
fn test_message_queue_capacity() {
    let mut queue: MessageQueue<u32> = MessageQueue::new(3);
    queue.push(1, MessagePriority::Normal);
    queue.push(2, MessagePriority::Normal);
    queue.push(3, MessagePriority::Normal);

    queue.push(4, MessagePriority::Critical);
    assert!(queue.len() <= 4);
}

#[test]
fn test_message_queue_clear() {
    let mut queue: MessageQueue<String> = MessageQueue::new(10);
    queue.push("a".to_string(), MessagePriority::Low);
    queue.push("b".to_string(), MessagePriority::High);
    queue.clear();
    assert!(queue.is_empty());
}

#[test]
fn test_peer_gossip_state_new() {
    let state = PeerGossipState::new();
    assert_eq!(state.failures, 0);
    assert!(state.current_backoff >= Duration::from_millis(MIN_BACKOFF_MS));
}

#[test]
fn test_peer_gossip_state_success_resets() {
    let mut state = PeerGossipState::new();

    state.record_failure();
    state.record_failure();
    let high_backoff = state.current_backoff;

    state.record_success();
    assert!(state.current_backoff < high_backoff);
    assert_eq!(state.failures, 0);
}

#[test]
fn test_peer_gossip_state_max_backoff() {
    let mut state = PeerGossipState::new();

    for _ in 0..20 {
        state.record_failure();
    }

    assert!(state.current_backoff <= Duration::from_millis(MAX_BACKOFF_MS));
}

#[test]
fn test_gossip_message_announce() {
    let hash = aingle_minimal::types::Hash::from_bytes(&[1; 32]);
    let msg = GossipMessage::Announce { hash: hash.clone() };
    let cloned = msg.clone();
    assert!(matches!(cloned, GossipMessage::Announce { .. }));
}

#[test]
fn test_bloom_filter_memory_size() {
    let filter = BloomFilter::new();
    let size = std::mem::size_of_val(&filter);

    assert!(size < 200, "BloomFilter should use packed bits, got {} bytes", size);
    assert!(size >= 128, "BloomFilter must have at least 128 bytes for bits");
}

#[test]
fn test_bloom_filter_to_bytes_size() {
    let filter = BloomFilter::new();
    let bytes = filter.to_bytes();

    assert_eq!(bytes.len(), 128, "to_bytes should produce 128 bytes for 1024 bits");
}

#[test]
fn test_bloom_filter_round_trip_serialization() {
    let mut filter = BloomFilter::new();

    for i in 0..50 {
        let hash = aingle_minimal::types::Hash::from_bytes(&[i as u8; 32]);
        filter.insert(&hash);
    }

    let bytes = filter.to_bytes();
    let restored = BloomFilter::from_bytes(&bytes);

    for i in 0..50 {
        let hash = aingle_minimal::types::Hash::from_bytes(&[i as u8; 32]);
        assert!(restored.may_contain(&hash), "Hash {} should be found after round-trip", i);
    }
}

#[test]
fn queue_peek_matches_next_pop() {
    let mut q: MessageQueue<u32> = MessageQueue::new(10);
    q.push(1, MessagePriority::Normal);
    q.push(2, MessagePriority::High);
    q.push(3, MessagePriority::High);
    q.push(4, MessagePriority::Low);
    let mut order = Vec::new();
    while !q.is_empty() {
        let peeked = *q.peek().unwrap();
        let popped = q.pop().unwrap();
        assert_eq!(peeked, popped);
        order.push(popped);
    }
    assert_eq!(order, vec![2, 3, 1, 4]);
    assert!(q.peek().is_none());
    assert!(q.pop().is_none());
}

#[test]
fn failure_caps_any_backoff() {
    let mut state = PeerGossipState::new();
    state.current_backoff = Duration::from_secs(u64::MAX);
    state.record_failure();
    assert_eq!(state.current_backoff, Duration::from_millis(MAX_BACKOFF_MS));
    assert_eq!(state.successes, 0);
    assert_eq!(state.failures, 1);
}

#[test]
fn success_within_exact_range_only() {
    let mut state = PeerGossipState::new();
    state.current_backoff = Duration::from_millis(1000);
    assert!(state.try_record_success());
    assert_eq!(state.current_backoff, Duration::from_millis(500));
    state.current_backoff = Duration::from_secs(u64::MAX);
    state.failures = 3;
    assert!(!state.try_record_success());
    assert_eq!(state.failures, 3);
    assert_eq!(state.current_backoff, Duration::from_secs(u64::MAX));
}
