use mentat::consensus::select_chain;
use mentat::{Block, Blockchain, ChainResponse, NodeId, PeerError, Timestamp};

fn at(secs: u64) -> Timestamp {
    Timestamp { secs_since_epoch: secs, nanos_since_epoch: 0 }
}

fn ledger_of(length: usize, started: u64) -> Blockchain {
    let mut ledger = Blockchain::new_at(at(started));
    let miner = NodeId { value: started as u128 };
    while ledger.chain().len() < length {
        ledger.mine_at(&miner, at(started + 1)).unwrap();
    }
    ledger
}

fn chain_of(length: usize, started: u64) -> Vec<Block> {
    ledger_of(length, started).chain().clone()
}

fn answer(chain: Vec<Block>) -> Result<ChainResponse, PeerError> {
    Ok(ChainResponse { chain })
}

#[test]
fn chains_of_no_or_one_block_are_valid() {
    assert!(Blockchain::valid_chain(&vec![]));
    assert!(Blockchain::valid_chain(&chain_of(1, 10)));

    let mut odd = chain_of(1, 10);
    odd[0].previous_hash = String::from("anything");
    odd[0].proof = 1;
    assert!(Blockchain::valid_chain(&odd));
}

#[test]
fn mined_chains_are_valid() {
    assert!(Blockchain::valid_chain(&chain_of(2, 10)));
    assert!(Blockchain::valid_chain(&chain_of(4, 10)));
}

#[test]
fn changing_a_previous_hash_breaks_the_chain() {
    for position in 0..3 {
        let mut chain = chain_of(3, 10);
        chain[position].previous_hash.push('0');
        assert!(!Blockchain::valid_chain(&chain), "position {}", position);
    }
}

#[test]
fn changing_a_proof_breaks_the_chain() {
    for position in 0..3 {
        let mut chain = chain_of(3, 10);
        chain[position].proof += 1;
        assert!(!Blockchain::valid_chain(&chain), "position {}", position);
    }
}

#[test]
fn another_solution_in_the_newest_block_keeps_the_chain_valid() {
    let mut chain = chain_of(2, 10);
    assert_eq!(chain[1].proof, 35293);

    chain[1].proof = 88145;

    assert!(Blockchain::valid_chain(&chain));
}

#[test]
fn block_that_names_no_digest_does_not_link() {
    for named in ["", "1", "0000", "027231D2AFF901815B6E06305C1B1ED4F3A18882CA3789188A5B747CB57CB1D3"] {
        let mut chain = chain_of(2, 10);
        chain[1].previous_hash = String::from(named);
        assert!(!Blockchain::valid_chain(&chain), "named {:?}", named);
    }
}

#[test]
fn changing_a_transaction_breaks_the_chain() {
    let mut chain = chain_of(3, 10);

    chain[1].transactions[0].amount = 1000;

    assert!(!Blockchain::valid_chain(&chain));
}

#[test]
fn new_consensus_asks_for_a_longer_valid_chain() {
    let chain = chain_of(3, 10);

    assert!(Blockchain::new_consensus(2, &chain));
    assert!(!Blockchain::new_consensus(3, &chain));
    assert!(!Blockchain::new_consensus(4, &chain));

    let mut broken = chain_of(3, 10);
    broken[2].previous_hash = String::from("1");
    assert!(!Blockchain::new_consensus(2, &broken));
}

#[test]
fn longer_valid_chain_of_a_peer_is_adopted() {
    let mut local = ledger_of(3, 10);
    local.new_transaction("alice", "bob", 5).unwrap();
    local.register_node(String::from("a"));
    local.register_node(String::from("b"));
    let pending = local.transactions().clone();
    let peer_a = chain_of(5, 20);

    let replaced =
        local.resolve_conflicts(vec![answer(peer_a.clone()), Err(PeerError::PeerUnreachable)]);

    assert!(replaced);
    assert_eq!(local.chain().len(), 5);
    assert_eq!(local.chain(), &peer_a);
    assert_eq!(local.transactions(), &pending);
    assert_eq!(local.nodes().len(), 2);
}

#[test]
fn longer_invalid_chain_is_never_adopted() {
    let mut local = ledger_of(2, 10);
    let before = local.chain().clone();
    let mut forged = chain_of(4, 20);
    forged[2].proof += 1;

    let replaced = local.resolve_conflicts(vec![answer(forged)]);

    assert!(!replaced);
    assert_eq!(local.chain(), &before);
}

#[test]
fn valid_chain_wins_over_a_longer_invalid_one() {
    let mut local = ledger_of(2, 10);
    let mut forged = chain_of(5, 20);
    forged[4].previous_hash = String::from("1");
    let honest = chain_of(3, 30);

    let replaced = local.resolve_conflicts(vec![answer(forged), answer(honest.clone())]);

    assert!(replaced);
    assert_eq!(local.chain(), &honest);
}

#[test]
fn chain_of_equal_length_does_not_replace_the_local_one() {
    let mut local = ledger_of(3, 10);
    let before = local.chain().clone();

    let replaced = local.resolve_conflicts(vec![answer(chain_of(3, 20)), answer(chain_of(2, 30))]);

    assert!(!replaced);
    assert_eq!(local.chain(), &before);
}

#[test]
fn failing_peers_leave_the_chain_untouched() {
    let mut local = ledger_of(2, 10);
    let before = local.chain().clone();

    let replaced = local.resolve_conflicts(vec![
        Err(PeerError::PeerUnreachable),
        Err(PeerError::PeerMalformedResponse),
    ]);

    assert!(!replaced);
    assert_eq!(local.chain(), &before);
    assert!(!local.resolve_conflicts(vec![]));
}

#[test]
fn malformed_answer_is_passed_over_like_an_unreachable_peer() {
    let mut local = ledger_of(2, 10);
    let honest = chain_of(3, 20);

    let replaced =
        local.resolve_conflicts(vec![Err(PeerError::PeerMalformedResponse), answer(honest.clone())]);

    assert!(replaced);
    assert_eq!(local.chain(), &honest);
}

#[test]
fn first_of_the_longest_chains_wins() {
    let first = chain_of(4, 20);
    let second = chain_of(4, 30);
    assert_ne!(first, second);
    let responses = vec![
        answer(chain_of(3, 40)),
        answer(first.clone()),
        Err(PeerError::PeerUnreachable),
        answer(second),
        answer(chain_of(2, 50)),
    ];

    assert_eq!(select_chain(2, &responses), Some(1));

    let mut local = ledger_of(2, 10);
    assert!(local.resolve_conflicts(responses));
    assert_eq!(local.chain(), &first);
}

#[test]
fn later_longer_chain_wins_over_an_earlier_shorter_one() {
    let responses = vec![answer(chain_of(3, 20)), answer(chain_of(4, 30)), answer(chain_of(3, 40))];

    assert_eq!(select_chain(2, &responses), Some(1));
    assert_eq!(select_chain(3, &responses), Some(1));
    assert_eq!(select_chain(4, &responses), None);
}
