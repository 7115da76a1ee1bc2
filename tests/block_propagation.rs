use ionova_core::block_propagation::{BlockData, BlockFormat, BlockPriority, BlockPropagation, PropagationConfig};

fn block(hash: &str) -> BlockData {
    BlockData {
        hash: hash.to_string(),
        height: 1,
        parent_hash: "p".to_string(),
        transactions: vec![],
        validator_signature: vec![],
        timestamp: 0,
    }
}

#[test]
fn new_block_goes_to_peers_that_lack_it() {
    let mut p = BlockPropagation::new(PropagationConfig::default());
    p.mark_sent_to_peer("a", "old");
    p.mark_sent_to_peer("b", "b1");
    p.mark_sent_to_peer("c", "b1");
    let d = p.add_block(block("b1"));
    assert_eq!(d.block_hash, "b1");
    assert_eq!(d.peers, vec!["a".to_string()]);
    assert_eq!(d.format, BlockFormat::Compact);
    assert_eq!(d.priority, BlockPriority::High);
    assert!(p.known_blocks.contains_key("b1"));
}

#[test]
fn peers_are_capped_and_format_follows_config() {
    let config = PropagationConfig { max_peers: 2, compact_blocks: false, validation_timeout_ms: 500 };
    let mut p = BlockPropagation::new(config);
    for peer in ["a", "b", "c"] {
        p.mark_sent_to_peer(peer, "x");
    }
    let d = p.add_block(block("y"));
    assert_eq!(d.peers, vec!["a".to_string(), "b".to_string()]);
    assert_eq!(d.format, BlockFormat::Full);
}

#[test]
fn sent_blocks_are_remembered_per_peer() {
    let mut p = BlockPropagation::new(PropagationConfig::default());
    assert!(!p.peer_has_block("a", "h"));
    p.mark_sent_to_peer("a", "h");
    p.mark_sent_to_peer("a", "h");
    assert!(p.peer_has_block("a", "h"));
    assert!(!p.peer_has_block("a", "g"));
    assert!(!p.peer_has_block("b", "h"));
    assert_eq!(p.peer_blocks.get("a").unwrap().len(), 1);
}
