use mentat::Blockchain;

#[test]
fn create_blockchain() {
    let ledger = Blockchain::new();

    assert_eq!(ledger.chain().len(), 1);
    assert!(ledger.transactions().is_empty());
}

#[test]
fn valid_proof_check_fail() {
    let last_proof = 23;
    let proof = 42;

    assert_eq!(Blockchain::valid_proof(last_proof, proof), false);
}

#[test]
fn valid_proof_pass() {
    let last_proof = 88;
    let proof = 484; // 88484 generates a SHA256 with 4 leading 0's

    assert_eq!(Blockchain::valid_proof(last_proof, proof), true);
}
