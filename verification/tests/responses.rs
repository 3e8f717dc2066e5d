use mentat::response_types::{
    chain, mine_response, node_reg, node_resolve, resolve_message, transaction_response,
};
use mentat::{
    Blockchain, FullChainResponse, MineResponse, NewTransactionResponse, NodeId, Timestamp,
};

fn ledger() -> Blockchain {
    let mut ledger =
        Blockchain::new_at(Timestamp { secs_since_epoch: 7, nanos_since_epoch: 0 });
    ledger.new_transaction("alice", "bob", 5).unwrap();
    ledger
        .mine_at(&NodeId { value: 1 }, Timestamp { secs_since_epoch: 8, nanos_since_epoch: 0 })
        .unwrap();
    ledger
}

#[test]
fn full_chain_response_holds_the_chain_and_its_length() {
    let ledger = ledger();

    let response = chain(&ledger);

    assert_eq!(response, FullChainResponse { chain: ledger.chain(), length: 2 });
}

#[test]
fn node_registration_response_lists_the_peers() {
    let mut ledger = ledger();
    ledger.register_node(String::from("a"));

    let response = node_reg(&ledger);

    assert_eq!(response.message, "New Nodes have been added");
    assert_eq!(response.nodes, &vec![String::from("a")]);
}

#[test]
fn resolve_response_holds_the_message_and_the_chain() {
    let ledger = ledger();

    let response = node_resolve(resolve_message(true), &ledger);

    assert_eq!(response.message, "Our chain was replaced");
    assert_eq!(response.full_chain_response.chain, ledger.chain());
    assert_eq!(response.full_chain_response.length, 2);
    assert_eq!(resolve_message(false), "Our chain is authoritative");
}

#[test]
fn mine_response_copies_the_block() {
    let ledger = ledger();
    let block = &ledger.chain()[1];

    let response = mine_response(block);

    assert_eq!(
        response,
        MineResponse {
            message: String::from("Returning Block"),
            index: 2,
            transactions: block.transactions.clone(),
            proof: 35293,
            previous_hash: block.previous_hash.clone(),
        }
    );
    assert_eq!(response.transactions.len(), 2);
}

#[test]
fn transaction_response_holds_the_index() {
    assert_eq!(
        transaction_response(3),
        NewTransactionResponse {
            message: String::from("New transaction added to block"),
            index: 3,
        }
    );
}
