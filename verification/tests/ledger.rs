use tabula_blockchain::block::hash_meets_difficulty;
use tabula_blockchain::decimal::{i64_to_string, u64_to_string};
use tabula_blockchain::{AppState, Block, Blockchain};

fn hex_len_ok(h: &str) -> bool {
    h.len() == 64 && h.chars().all(|c| c.is_ascii_hexdigit() && !c.is_ascii_uppercase())
}

#[test]
fn decimal_renderings() {
    assert_eq!(u64_to_string(0), "0");
    assert_eq!(u64_to_string(7), "7");
    assert_eq!(u64_to_string(1337), "1337");
    assert_eq!(u64_to_string(u64::MAX), "18446744073709551615");
    assert_eq!(i64_to_string(0), "0");
    assert_eq!(i64_to_string(42), "42");
    assert_eq!(i64_to_string(-42), "-42");
    assert_eq!(i64_to_string(i64::MIN), "-9223372036854775808");
    assert_eq!(i64_to_string(i64::MAX), "9223372036854775807");
}

#[test]
fn genesis_block_shape() {
    let ledger = Blockchain::new(2);
    assert_eq!(ledger.difficulty, 2);
    assert_eq!(ledger.chain.len(), 1);
    let genesis = &ledger.chain[0];
    assert_eq!(genesis.index, 0);
    assert_eq!(genesis.data, "Genesis Block");
    assert_eq!(genesis.previous_hash, "0");
    assert_eq!(genesis.nonce, 0);
    assert!(hex_len_ok(&genesis.hash));
    assert_eq!(genesis.hash, genesis.calculate_hash());
}

#[test]
fn calculate_hash_is_pure() {
    let block = Block::new(1, "payload".to_string(), "0".to_string());
    let first = block.calculate_hash();
    let second = block.calculate_hash();
    assert_eq!(first, second);
    assert_eq!(block.hash, first);
}

#[test]
fn calculate_hash_known_values() {
    let block = Block {
        index: 7,
        timestamp: -3,
        data: "abc".to_string(),
        previous_hash: "prev".to_string(),
        hash: String::new(),
        nonce: 42,
    };
    // SHA-256 of the preimage "7-3abcprev42".
    assert_eq!(
        block.calculate_hash(),
        "ffd4caac9c1e5dc56148f26e0316aaf589a32fe7a27f75ed46a203ec388fa4fc"
    );
    let genesis_shaped = Block {
        index: 0,
        timestamp: 0,
        data: "Genesis Block".to_string(),
        previous_hash: "0".to_string(),
        hash: String::new(),
        nonce: 0,
    };
    // SHA-256 of the preimage "00Genesis Block00".
    assert_eq!(
        genesis_shaped.calculate_hash(),
        "4ab3cbc31380fe9b088b1e7a92a344692b086eaac010b8c56e8c5e975fb6463a"
    );
}

#[test]
fn calculate_hash_at_integer_extremes() {
    let block = Block {
        index: u64::MAX,
        timestamp: i64::MIN,
        data: String::new(),
        previous_hash: String::new(),
        hash: String::new(),
        nonce: u64::MAX,
    };
    // SHA-256 of "18446744073709551615-922337203685477580818446744073709551615".
    assert_eq!(
        block.calculate_hash(),
        "f4bbda92b210de9b3b18f743277c186046421d2ca6cee7f74596032a3272bcf8"
    );
}

#[test]
fn hash_changes_with_each_field() {
    let base = Block {
        index: 7,
        timestamp: -3,
        data: "abc".to_string(),
        previous_hash: "prev".to_string(),
        hash: String::new(),
        nonce: 42,
    };
    let reference = base.calculate_hash();
    let mut changed = base.duplicate();
    changed.index = 8;
    assert_ne!(changed.calculate_hash(), reference);
    let mut changed = base.duplicate();
    changed.timestamp = 3;
    assert_ne!(changed.calculate_hash(), reference);
    let mut changed = base.duplicate();
    changed.data = "abd".to_string();
    assert_ne!(changed.calculate_hash(), reference);
    let mut changed = base.duplicate();
    changed.previous_hash = "prew".to_string();
    assert_ne!(changed.calculate_hash(), reference);
    let mut changed = base.duplicate();
    changed.nonce = 43;
    assert_ne!(changed.calculate_hash(), reference);
}

#[test]
fn mine_block_reaches_target() {
    let mut block = Block::new(1, "payload".to_string(), "0".to_string());
    let timestamp = block.timestamp;
    block.mine_block(3);
    assert!(block.hash.starts_with("000"));
    assert_eq!(block.hash, block.calculate_hash());
    assert_eq!(block.index, 1);
    assert_eq!(block.timestamp, timestamp);
    assert_eq!(block.data, "payload");
    assert_eq!(block.previous_hash, "0");
}

#[test]
fn mining_is_idempotent() {
    let mut block = Block::new(1, "payload".to_string(), "0".to_string());
    block.mine_block(2);
    let nonce = block.nonce;
    let hash = block.hash.clone();
    block.mine_block(2);
    assert_eq!(block.nonce, nonce);
    assert_eq!(block.hash, hash);
}

#[test]
fn mine_block_with_zero_difficulty_keeps_nonce() {
    let mut block = Block::new(1, "payload".to_string(), "0".to_string());
    block.mine_block(0);
    assert_eq!(block.nonce, 0);
    assert_eq!(block.hash, block.calculate_hash());
}

#[test]
fn target_check_reads_leading_zeros() {
    assert!(hash_meets_difficulty("00ab", 2));
    assert!(hash_meets_difficulty("00ab", 0));
    assert!(!hash_meets_difficulty("00ab", 3));
    assert!(!hash_meets_difficulty("0a0b", 2));
    // A target longer than the hash is unattainable, not an error.
    assert!(!hash_meets_difficulty("000", 4));
    assert!(hash_meets_difficulty("", 0));
}

#[test]
fn appended_blocks_link_and_count() {
    let mut ledger = Blockchain::new(2);
    ledger.add_block("A".to_string());
    ledger.add_block("B".to_string());
    ledger.add_block("C".to_string());
    assert_eq!(ledger.chain.len(), 4);
    assert!(ledger.is_chain_valid());
    for (position, block) in ledger.chain.iter().enumerate() {
        assert_eq!(block.index, position as u64);
        assert!(hex_len_ok(&block.hash));
        if position > 0 {
            assert!(block.hash.starts_with("00"));
            assert_eq!(block.previous_hash, ledger.chain[position - 1].hash);
        }
    }
    assert_eq!(ledger.chain[1].data, "A");
    assert_eq!(ledger.chain[2].data, "B");
    assert_eq!(ledger.chain[3].data, "C");
    assert_eq!(ledger.get_latest_block().data, "C");
}

#[test]
fn tampered_data_is_detected() {
    let mut ledger = Blockchain::new(2);
    ledger.add_block("A".to_string());
    assert!(ledger.is_chain_valid());
    ledger.chain[1].data = "X".to_string();
    assert!(!ledger.is_chain_valid());
}

#[test]
fn tampered_fields_are_detected() {
    let mut ledger = Blockchain::new(2);
    ledger.add_block("A".to_string());
    ledger.add_block("B".to_string());

    let mut tampered = ledger.clone();
    tampered.chain[1].nonce += 1;
    assert!(!tampered.is_chain_valid());

    let mut tampered = ledger.clone();
    tampered.chain[1].timestamp += 1;
    assert!(!tampered.is_chain_valid());

    let mut tampered = ledger.clone();
    tampered.chain[1].index = 5;
    assert!(!tampered.is_chain_valid());

    let mut tampered = ledger.clone();
    tampered.chain[1].previous_hash = "0".repeat(64);
    assert!(!tampered.is_chain_valid());
}

#[test]
fn broken_link_is_detected() {
    let mut ledger = Blockchain::new(2);
    ledger.add_block("A".to_string());
    ledger.add_block("B".to_string());
    assert!(ledger.is_chain_valid());
    // Replace a stored hash so it no longer equals the successor's
    // previous_hash.
    ledger.chain[1].hash = "deadbeef".to_string();
    assert!(!ledger.is_chain_valid());
}

#[test]
fn snapshot_is_an_independent_copy() {
    let mut ledger = Blockchain::new(2);
    ledger.add_block("A".to_string());
    let mut snapshot = ledger.get_chain();
    assert_eq!(snapshot.len(), 2);
    assert_eq!(snapshot[1].data, "A");
    assert_eq!(snapshot[1].hash, ledger.chain[1].hash);
    snapshot[1].data = "X".to_string();
    assert_eq!(ledger.chain[1].data, "A");
    assert!(ledger.is_chain_valid());
}

#[test]
fn zero_difficulty_ledger_accepts_first_digest() {
    let mut ledger = Blockchain::new(0);
    ledger.add_block("A".to_string());
    assert_eq!(ledger.chain.len(), 2);
    assert_eq!(ledger.chain[1].nonce, 0);
    assert!(ledger.is_chain_valid());
}

#[test]
fn app_state_holds_fresh_ledger() {
    let state = AppState::new(2);
    let ledger = state.blockchain.lock().unwrap();
    assert_eq!(ledger.difficulty, 2);
    assert_eq!(ledger.chain.len(), 1);
    assert_eq!(ledger.chain[0].previous_hash, "0");
}
