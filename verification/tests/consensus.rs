use blockchain::blockchain::Blockchain;

#[test]
fn search_is_idempotent() {
    let p1 = Blockchain::proof_of_work(100).unwrap();
    let p2 = Blockchain::proof_of_work(100).unwrap();
    assert_eq!(p1, p2);
    assert!(Blockchain::valid_proof(100, p1));
}

#[test]
fn search_returns_least_accepted_candidate() {
    let p = Blockchain::proof_of_work(100).unwrap();
    for q in 0..p {
        assert!(!Blockchain::valid_proof(100, q));
    }
}

#[test]
fn search_depends_on_last_proof() {
    let p0 = Blockchain::proof_of_work(0).unwrap();
    let p1 = Blockchain::proof_of_work(1).unwrap();
    assert!(Blockchain::valid_proof(0, p0));
    assert!(Blockchain::valid_proof(1, p1));
}

#[test]
fn validity_check_is_deterministic() {
    for q in 0..50u64 {
        assert_eq!(
            Blockchain::valid_proof(100, q),
            Blockchain::valid_proof(100, q)
        );
    }
}

#[test]
fn digest_scrambles_its_input() {
    // If the digest handed its input back unchanged, acceptance would be a
    // bare divisibility test on the sum; the real digest disagrees with that
    // somewhere among small candidates.
    let naive = |p: u64| (p % 23) == 0;
    assert!((0..100u64).any(|p| Blockchain::valid_proof(0, p) != naive(p)));
}
