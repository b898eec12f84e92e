use blockchain::blockchain::{Blockchain, Transaction};
use blockchain::display::u64_to_string;

#[test]
fn decimal_rendering_exact() {
    assert_eq!(u64_to_string(0), "0".to_string());
    assert_eq!(u64_to_string(7), "7".to_string());
    assert_eq!(u64_to_string(10), "10".to_string());
    assert_eq!(u64_to_string(23), "23".to_string());
    assert_eq!(u64_to_string(1234567890), "1234567890".to_string());
    assert_eq!(
        u64_to_string(18446744073709551615),
        "18446744073709551615".to_string()
    );
}

#[test]
fn transaction_rendering_exact() {
    let t = Transaction {
        sender: "alice".to_string(),
        recipient: "bob".to_string(),
        amount: 5,
    };
    assert_eq!(
        t.render(),
        "Transaction for 5: alice (sender) -> bob (recipient)".to_string()
    );
}

#[test]
fn block_rendering_deterministic() {
    let chain = Blockchain::new();
    let first = chain.chain[0].render();
    let second = chain.chain[0].render();
    assert_eq!(first, second);
    assert!(first.starts_with("------ Block: 0 ------\n| Time: "));
    assert!(first.contains("\n| Proof: 100\n"));
    assert!(first.contains("\n| #Transactions: 2\n"));
    assert!(first.contains(
        "|-| Transaction for 5000: Genesis (sender) -> senderA (recipient)\n"
    ));
    assert!(first.ends_with("----------------------"));
}

#[test]
fn ledger_rendering_deterministic() {
    let mut chain = Blockchain::new();
    chain
        .new_transaction("senderA".to_string(), "recipientA".to_string(), 5)
        .unwrap();
    let first = chain.render();
    let second = chain.render();
    assert_eq!(first, second);
    assert!(first.contains("Current transactions pending: 1\n"));
    assert!(first.ends_with(
        "Transaction for 5: senderA (sender) -> recipientA (recipient)\n"
    ));
}
