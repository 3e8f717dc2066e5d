use mentat::{Block, Blockchain, ChainError, NodeId, Timestamp, Transaction};

fn at(secs: u64) -> Timestamp {
    Timestamp { secs_since_epoch: secs, nanos_since_epoch: 0 }
}

fn miner() -> NodeId {
    NodeId { value: 0x2a }
}

#[test]
fn fresh_ledger_holds_only_the_genesis_block() {
    let ledger = Blockchain::new_at(at(7));

    assert_eq!(ledger.chain().len(), 1);
    assert!(ledger.transactions().is_empty());
    assert!(ledger.nodes().is_empty());
    assert_eq!(
        ledger.chain()[0],
        Block {
            index: 1,
            timestamp: at(7),
            transactions: vec![],
            proof: 100,
            previous_hash: String::from("1"),
        }
    );
}

#[test]
fn genesis_block_has_the_fixed_fields() {
    let block = Blockchain::genesis_block(at(3));

    assert_eq!(block.index, 1);
    assert_eq!(block.timestamp, at(3));
    assert!(block.transactions.is_empty());
    assert_eq!(block.proof, 100);
    assert_eq!(block.previous_hash, "1");
}

#[test]
fn last_block_of_a_fresh_ledger_is_the_genesis_block() {
    let ledger = Blockchain::new_at(at(7));

    assert_eq!(ledger.last_block(), Some(&Blockchain::genesis_block(at(7))));
}

#[test]
fn new_transaction_joins_the_pool_and_returns_the_index_of_the_next_block() {
    let mut ledger = Blockchain::new_at(at(7));

    let index = ledger.new_transaction("alice", "bob", 5);

    assert_eq!(index, Ok(2));
    assert_eq!(ledger.transactions(), &vec![Transaction::new("alice", "bob", 5)]);
    assert_eq!(ledger.chain().len(), 1);

    let mined = ledger.mine_at(&miner(), at(8)).unwrap().clone();
    assert_eq!(Ok(mined.index), index);
    assert_eq!(mined.transactions[0], Transaction::new("alice", "bob", 5));

    assert_eq!(ledger.new_transaction("bob", "carol", 0), Ok(3));
    assert_eq!(ledger.new_transaction("carol", "dave", 1), Ok(3));
    assert_eq!(ledger.transactions().len(), 2);
}

#[test]
fn transaction_then_mine_empties_the_pool_into_the_block() {
    let mut ledger = Blockchain::new_at(at(7));
    ledger.new_transaction("alice", "bob", 5).unwrap();

    let mined = ledger.mine_at(&miner(), at(8)).unwrap().clone();

    assert!(ledger.transactions().is_empty());
    assert_eq!(ledger.chain().len(), 2);
    assert_eq!(ledger.last_block(), Some(&mined));
    assert_eq!(
        mined.transactions,
        vec![
            Transaction::new("alice", "bob", 5),
            Transaction::new("0", "0000000000000000000000000000002a", 1),
        ]
    );
    assert_eq!(mined.index, 2);
    assert_eq!(mined.timestamp, at(8));
    assert_eq!(mined.proof, 35293);
    assert_eq!(Some(mined.previous_hash), Blockchain::hash_block(&ledger.chain()[0]));
}

#[test]
fn mining_without_pending_transactions_holds_only_the_reward() {
    let mut ledger = Blockchain::new_at(at(7));

    let mined = ledger.mine_at(&miner(), at(8)).unwrap().clone();

    assert_eq!(
        mined.transactions,
        vec![Transaction::new("0", "0000000000000000000000000000002a", 1)]
    );
}

#[test]
fn mining_twice_gives_a_valid_chain() {
    let mut ledger = Blockchain::new_at(at(7));

    ledger.mine_at(&miner(), at(8)).unwrap();
    ledger.mine_at(&miner(), at(9)).unwrap();

    let chain = ledger.chain();
    assert_eq!(chain.len(), 3);
    assert!(Blockchain::valid_chain(chain));
    assert_eq!(Some(chain[1].previous_hash.clone()), Blockchain::hash_block(&chain[0]));
    assert_eq!(Some(chain[2].previous_hash.clone()), Blockchain::hash_block(&chain[1]));
    assert_eq!(chain[1].proof, 35293);
    assert_eq!(chain[2].proof, 35089);
    assert_eq!(chain[2].index, 3);
}

#[test]
fn mine_stamps_the_block_with_the_clock() {
    let mut ledger = Blockchain::new();

    let mined = ledger.mine(&miner()).unwrap().clone();

    assert_eq!(mined.index, 2);
    assert_eq!(mined.proof, 35293);
    assert!(mined.timestamp.nanos_since_epoch < 1_000_000_000);
    assert!(mined.timestamp.secs_since_epoch >= ledger.chain()[0].timestamp.secs_since_epoch);
    assert!(Blockchain::valid_chain(ledger.chain()));
}

#[test]
fn proof_of_work_finds_the_smallest_proof() {
    let ledger = Blockchain::new_at(at(7));

    assert_eq!(ledger.proof_of_work(), Ok(35293));
}

#[test]
fn last_block_hash_is_the_digest_of_the_newest_block() {
    let mut ledger = Blockchain::new_at(at(7));
    ledger.mine_at(&miner(), at(8)).unwrap();

    assert_eq!(ledger.last_block_hash(), Blockchain::hash_block(&ledger.chain()[1]));
}

#[test]
fn new_block_appends_a_block_that_links() {
    let mut ledger = Blockchain::new_at(at(7));
    ledger.new_transaction("alice", "bob", 5).unwrap();
    let digest = ledger.last_block_hash().unwrap();

    let block = ledger.new_block_at(digest.clone(), 35293, at(8)).unwrap().clone();

    assert_eq!(
        block,
        Block {
            index: 2,
            timestamp: at(8),
            transactions: vec![Transaction::new("alice", "bob", 5)],
            proof: 35293,
            previous_hash: digest,
        }
    );
    assert_eq!(ledger.chain().len(), 2);
    assert!(ledger.transactions().is_empty());
}

#[test]
fn new_block_stamped_now_appends_a_block_that_links() {
    let mut ledger = Blockchain::new_at(at(7));
    let digest = ledger.last_block_hash().unwrap();

    let block = ledger.new_block(digest.clone(), 35293).unwrap().clone();

    assert_eq!(block.index, 2);
    assert_eq!(block.previous_hash, digest);
    assert_eq!(ledger.chain().len(), 2);
}

#[test]
fn new_block_refuses_a_wrong_digest() {
    let mut ledger = Blockchain::new_at(at(7));
    ledger.new_transaction("alice", "bob", 5).unwrap();

    let refused = ledger.new_block_at(String::from("1"), 35293, at(8)).map(|b| b.clone());

    assert_eq!(refused, Err(ChainError::ChainInvariantViolation));
    assert_eq!(ledger.chain().len(), 1);
    assert_eq!(ledger.transactions().len(), 1);
}

#[test]
fn new_block_refuses_a_wrong_proof() {
    let mut ledger = Blockchain::new_at(at(7));
    let digest = ledger.last_block_hash().unwrap();

    let refused = ledger.new_block_at(digest, 35292, at(8)).map(|b| b.clone());

    assert_eq!(refused, Err(ChainError::ChainInvariantViolation));
    assert_eq!(ledger.chain().len(), 1);
}

#[test]
fn block_index_counts_from_one_and_stops_at_the_limit() {
    assert_eq!(Blockchain::block_index(0), Ok(1));
    assert_eq!(Blockchain::block_index(41), Ok(42));
    assert_eq!(Blockchain::block_index(u32::MAX as usize - 1), Ok(u32::MAX));
    assert_eq!(Blockchain::block_index(u32::MAX as usize), Err(ChainError::IndexOverflow));
}

#[test]
fn registering_an_address_twice_keeps_one_entry() {
    let mut ledger = Blockchain::new_at(at(7));

    ledger.register_node(String::from("http://10.0.0.1:8000/chain"));
    ledger.register_node(String::from("http://10.0.0.1:8000/chain"));

    assert_eq!(ledger.nodes().len(), 1);
    assert_eq!(ledger.nodes()[0], "http://10.0.0.1:8000/chain");
}

#[test]
fn addresses_keep_the_order_of_first_registration() {
    let mut ledger = Blockchain::new_at(at(7));

    ledger.register_nodes(&vec![
        String::from("b"),
        String::from("a"),
        String::from("b"),
        String::from("c"),
        String::from("a"),
    ]);

    assert_eq!(ledger.nodes(), &vec![String::from("b"), String::from("a"), String::from("c")]);
}

#[test]
fn error_messages_name_the_failure() {
    assert_eq!(ChainError::ChainInvariantViolation.message(), "block does not link to the chain");
    assert_eq!(ChainError::ProofSpaceExhausted.message(), "no proof solves the puzzle");
    assert_eq!(ChainError::IndexOverflow.message(), "block index out of range");
}
