use ledger::block::Block;
use ledger::block::HasheableDataBlock;
use ledger::block::LedgerError;
use ledger::chain::Blockchain;

const TS: u64 = 1_700_000_000;

fn digest_of(data: &str, timestamp: u64, nonce: u32) -> String {
    Block::calculate_hash(HasheableDataBlock::new(data.to_string(), timestamp, nonce))
}

#[test]
fn digest_is_deterministic() {
    let a = digest_of("some payload", 123_456, 42);
    let b = digest_of("some payload", 123_456, 42);
    assert_eq!(a, b);
}

#[test]
fn digest_matches_known_values() {
    assert_eq!(digest_of("a", 0, 0), "16735744805199364839");
    assert_eq!(digest_of("", 5, 7), "14393256747142138900");
    assert_eq!(digest_of("Genesis Block", TS, 0), "12346855706434113567");
}

#[test]
fn digest_depends_on_every_field() {
    let base = digest_of("a", 0, 0);
    assert_ne!(digest_of("b", 0, 0), base);
    assert_ne!(digest_of("a", 1, 0), base);
    assert_ne!(digest_of("a", 0, 1), base);
}

#[test]
fn hasheable_data_block_holds_fields() {
    let h = HasheableDataBlock::new("x".to_string(), 9, 3);
    assert_eq!(h.data, "x");
    assert_eq!(h.timestamp, 9);
    assert_eq!(h.nonce, 3);
}

#[test]
fn new_block_is_unmined() {
    let b = Block::new("abc", "prev".to_string(), 11);
    assert_eq!(b.data, "abc");
    assert_eq!(b.timestamp, 11);
    assert_eq!(b.hash, "0");
    assert_eq!(b.previous_hash, "prev");
    assert_eq!(b.nonce, 0);
}

#[test]
fn genesis_previous_digest_is_sentinel() {
    for difficulty in [0usize, 1] {
        let chain = Blockchain::new(difficulty, TS).unwrap();
        assert_eq!(chain.chain.len(), 1);
        assert_eq!(chain.chain[0].previous_hash, "0");
        assert_eq!(chain.chain[0].data, "Genesis Block");
        assert_eq!(chain.difficulty, difficulty);
    }
}

#[test]
fn mining_meets_difficulty() {
    let mut b = Block::new("abc", "0".to_string(), 42);
    assert_eq!(Block::mine(&mut b, 2), Ok(()));
    assert!(b.hash.starts_with("11"));
    assert_eq!(b.nonce, 2);
    assert_eq!(b.hash, "11031505946299366591");
    let recomputed = digest_of(&b.data, b.timestamp, b.nonce);
    assert_eq!(recomputed, b.hash);
}

#[test]
fn mining_terminates_at_difficulty_one() {
    for i in 0..100u32 {
        let payload = format!("payload {}", i);
        let mut b = Block::new(&payload, "0".to_string(), TS);
        assert_eq!(Block::mine(&mut b, 1), Ok(()));
        assert!(b.hash.starts_with('1'));
        assert_eq!(digest_of(&b.data, b.timestamp, b.nonce), b.hash);
    }
}

#[test]
fn mining_resumes_from_current_nonce() {
    let mut b = Block::new("abc", "0".to_string(), 42);
    b.nonce = 5;
    assert_eq!(Block::mine(&mut b, 0), Ok(()));
    assert_eq!(b.nonce, 5);
    assert_eq!(digest_of("abc", 42, 5), b.hash);
}

#[test]
fn nonce_exhaustion_reports_error() {
    // A digest holds at most twenty decimal digits, so a difficulty of 25
    // can never be met and the remaining nonce space is searched in vain.
    let mut b = Block::new("abc", "0".to_string(), 42);
    b.nonce = u32::MAX - 1000;
    assert_eq!(Block::mine(&mut b, 25), Err(LedgerError::NonceExhausted));
    assert_eq!(b.nonce, u32::MAX - 1000);
    assert_eq!(b.hash, "0");
    assert_eq!(b.data, "abc");
    assert_eq!(b.timestamp, 42);
}

#[test]
fn fresh_chains_validate() {
    for extra in 0..4usize {
        let mut chain = Blockchain::new(0, TS).unwrap();
        for i in 0..extra {
            let payload = format!("record {}", i);
            chain.add_block(&payload, TS + 1 + i as u64).unwrap();
        }
        assert_eq!(chain.chain.len(), extra + 1);
        assert!(chain.is_valid());
    }
}

#[test]
fn fresh_mined_chain_validates() {
    let mut chain = Blockchain::new(1, TS).unwrap();
    chain.add_block("First Block", TS + 1).unwrap();
    chain.add_block("Second Block", TS + 2).unwrap();
    assert_eq!(chain.chain.len(), 3);
    for block in &chain.chain {
        assert!(block.hash.starts_with('1'));
    }
    assert!(chain.is_valid());
}

#[test]
fn append_links_to_tail() {
    let mut chain = Blockchain::new(0, TS).unwrap();
    chain.add_block("First Block", TS + 1).unwrap();
    chain.add_block("Second Block", TS + 2).unwrap();
    for i in 1..chain.chain.len() {
        assert_eq!(chain.chain[i].previous_hash, chain.chain[i - 1].hash);
        assert_eq!(
            chain.chain[i].hash,
            digest_of(
                &chain.chain[i].data,
                chain.chain[i].timestamp,
                chain.chain[i].nonce
            )
        );
    }
}

#[test]
fn demo_sequence_detects_tamper() {
    let mut chain = Blockchain::new(0, TS).unwrap();
    chain.add_block("First Block", TS + 1).unwrap();
    chain.add_block("Second Block", TS + 2).unwrap();
    assert_eq!(chain.chain.len(), 3);
    assert!(chain.is_valid());

    chain.chain[0].data = "Third Block".to_string();
    assert!(!chain.is_valid());
}

#[test]
fn tampered_timestamp_detected() {
    let mut chain = Blockchain::new(0, TS).unwrap();
    chain.add_block("First Block", TS + 1).unwrap();
    chain.add_block("Second Block", TS + 2).unwrap();
    chain.chain[1].timestamp += 1;
    assert!(!chain.is_valid());
}

#[test]
fn tampered_nonce_detected() {
    let mut chain = Blockchain::new(0, TS).unwrap();
    chain.add_block("First Block", TS + 1).unwrap();
    chain.add_block("Second Block", TS + 2).unwrap();
    chain.chain[1].nonce = 7;
    assert!(!chain.is_valid());
}

#[test]
fn validator_repairs_first_offender() {
    let mut chain = Blockchain::new(0, TS).unwrap();
    chain.add_block("First Block", TS + 1).unwrap();
    chain.add_block("Second Block", TS + 2).unwrap();
    let untouched_tail = chain.chain[2].hash.clone();

    chain.chain[0].data = "Third Block".to_string();
    assert!(!chain.is_valid());

    // The offending record's stored digest was overwritten with the digest
    // recomputed from its tampered fields; the rest of the chain is as it was.
    let repaired = digest_of("Third Block", chain.chain[0].timestamp, chain.chain[0].nonce);
    assert_eq!(chain.chain[0].hash, repaired);
    assert_eq!(chain.chain[2].hash, untouched_tail);
}

#[test]
fn validator_starts_at_second_record() {
    // The walk runs from position 1, so a single-record chain has nothing
    // to check: even a tampered genesis record goes unnoticed.
    let mut chain = Blockchain::new(0, TS).unwrap();
    chain.chain[0].data = "edited".to_string();
    assert!(chain.is_valid());
}
