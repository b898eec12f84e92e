use blockchain::blockchain::{Blockchain, LedgerError};

fn lookup(balances: &Vec<(String, i128)>, account: &str) -> Option<i128> {
    for (name, bal) in balances {
        if name.as_str() == account {
            return Some(*bal);
        }
    }
    None
}

#[test]
fn genesis_shape() {
    let chain = Blockchain::new();
    assert_eq!(chain.chain.len(), 1);
    assert_eq!(chain.chain[0].index, 0);
    assert_eq!(chain.chain[0].proof, 100);
    assert_eq!(chain.chain[0].previous_hash, "".to_string());
    assert_eq!(chain.chain[0].transactions.len(), 2);
    assert_eq!(chain.chain[0].transactions[0].sender, "Genesis".to_string());
    assert_eq!(chain.chain[0].transactions[0].recipient, "senderA".to_string());
    assert_eq!(chain.chain[0].transactions[0].amount, 5000);
    assert_eq!(chain.chain[0].transactions[1].recipient, "senderC".to_string());
    assert_eq!(chain.chain[0].transactions[1].amount, 5000);
    assert_eq!(chain.current_transactions.len(), 0);
}

#[test]
fn genesis_balances() {
    let chain = Blockchain::new();
    let balances = chain.balances();
    assert_eq!(balances.len(), 3);
    assert_eq!(lookup(&balances, "Genesis"), Some(-10000));
    assert_eq!(lookup(&balances, "senderA"), Some(5000));
    assert_eq!(lookup(&balances, "senderC"), Some(5000));
    assert_eq!(lookup(&balances, "anyoneElse"), None);
}

#[test]
fn end_to_end_scenario() {
    let mut chain = Blockchain::new();
    let r1 = chain.new_transaction("senderA".to_string(), "recipientA".to_string(), 5);
    assert_eq!(r1, Ok(1));
    let r2 = chain.new_transaction("senderC".to_string(), "recipientC".to_string(), 12);
    assert_eq!(r2, Ok(1));
    let last_proof = chain.last_proof().unwrap();
    let new_proof = Blockchain::proof_of_work(last_proof).unwrap();
    assert!(Blockchain::valid_proof(last_proof, new_proof));
    let r3 = chain.create_coin("minerA".to_string(), 1);
    assert_eq!(r3, Ok(1));
    assert_eq!(chain.new_block(new_proof), Ok(()));
    assert_eq!(chain.chain.len(), 2);
    assert_eq!(chain.current_transactions.len(), 0);
    let block = &chain.chain[1];
    assert_eq!(block.index, 1);
    assert_eq!(block.proof, new_proof);
    assert_eq!(block.transactions.len(), 3);
    assert_eq!(block.transactions[0].sender, "senderA".to_string());
    assert_eq!(block.transactions[0].recipient, "recipientA".to_string());
    assert_eq!(block.transactions[0].amount, 5);
    assert_eq!(block.transactions[1].sender, "senderC".to_string());
    assert_eq!(block.transactions[1].amount, 12);
    assert_eq!(block.transactions[2].sender, "Genesis".to_string());
    assert_eq!(block.transactions[2].recipient, "minerA".to_string());
    assert_eq!(block.transactions[2].amount, 1);
    let balances = chain.balances();
    assert_eq!(lookup(&balances, "senderA"), Some(4995));
    assert_eq!(lookup(&balances, "recipientA"), Some(5));
    assert_eq!(lookup(&balances, "minerA"), Some(1));
}

#[test]
fn rejection_scenario() {
    let mut chain = Blockchain::new();
    let r = chain.new_transaction("unknownX".to_string(), "recipientY".to_string(), 1);
    assert_eq!(r, Err(LedgerError::InsufficientBalance));
    assert_eq!(chain.current_transactions.len(), 0);
    assert_eq!(chain.chain.len(), 1);
}

#[test]
fn admission_boundary() {
    let mut chain = Blockchain::new();
    let too_much = chain.new_transaction("senderA".to_string(), "r".to_string(), 5001);
    assert_eq!(too_much, Err(LedgerError::InsufficientBalance));
    assert_eq!(chain.current_transactions.len(), 0);
    let exact = chain.new_transaction("senderA".to_string(), "r".to_string(), 5000);
    assert_eq!(exact, Ok(1));
    assert_eq!(chain.current_transactions.len(), 1);
}

#[test]
fn pending_excluded_from_balances() {
    let mut chain = Blockchain::new();
    chain
        .new_transaction("senderA".to_string(), "recipientA".to_string(), 500)
        .unwrap();
    let balances = chain.balances();
    assert_eq!(lookup(&balances, "senderA"), Some(5000));
    assert_eq!(lookup(&balances, "recipientA"), None);
}

#[test]
fn seal_atomicity() {
    let mut chain = Blockchain::new();
    chain
        .new_transaction("senderA".to_string(), "recipientA".to_string(), 7)
        .unwrap();
    let last_proof = chain.last_proof().unwrap();
    let mut bad: u64 = 0;
    while Blockchain::valid_proof(last_proof, bad) {
        bad += 1;
    }
    let r = chain.new_block(bad);
    assert_eq!(r, Err(LedgerError::InvalidProof));
    assert_eq!(chain.chain.len(), 1);
    assert_eq!(chain.current_transactions.len(), 1);
    assert_eq!(chain.current_transactions[0].sender, "senderA".to_string());
    assert_eq!(chain.current_transactions[0].recipient, "recipientA".to_string());
    assert_eq!(chain.current_transactions[0].amount, 7);

    let good = Blockchain::proof_of_work(last_proof).unwrap();
    assert_eq!(chain.new_block(good), Ok(()));
    assert_eq!(chain.chain.len(), 2);
    assert_eq!(chain.current_transactions.len(), 0);
    assert_eq!(chain.chain[1].transactions.len(), 1);
    assert_eq!(chain.chain[1].transactions[0].amount, 7);
}

#[test]
fn conservation_of_value() {
    let mut chain = Blockchain::new();
    chain
        .new_transaction("senderA".to_string(), "recipientA".to_string(), 123)
        .unwrap();
    chain.create_coin("minerA".to_string(), 9).unwrap();
    let proof = Blockchain::proof_of_work(chain.last_proof().unwrap()).unwrap();
    chain.new_block(proof).unwrap();
    chain
        .new_transaction("recipientA".to_string(), "senderC".to_string(), 23)
        .unwrap();
    let proof = Blockchain::proof_of_work(chain.last_proof().unwrap()).unwrap();
    chain.new_block(proof).unwrap();
    let balances = chain.balances();
    let total: i128 = balances.iter().map(|(_, b)| *b).sum();
    assert_eq!(total, 0);
}

#[test]
fn empty_chain_error() {
    let chain = Blockchain {
        chain: vec![],
        current_transactions: vec![],
    };
    assert_eq!(chain.last_proof(), Err(LedgerError::EmptyChain));
}

#[test]
fn mint_always_succeeds() {
    let mut chain = Blockchain::new();
    let r = chain.create_coin("brandNew".to_string(), 1000000);
    assert_eq!(r, Ok(1));
    assert_eq!(chain.current_transactions.len(), 1);
    assert_eq!(chain.current_transactions[0].sender, "Genesis".to_string());
}
