use ironfish_wasm::records::{copy_bytes, same_bytes, PostedSpend, ReceiptProof, NOTE_SIZE};

#[test]
fn note_record_has_its_fixed_length() {
    assert_eq!(NOTE_SIZE, 275);
}

#[test]
fn copy_of_bytes_holds_the_same_bytes() {
    assert_eq!(copy_bytes(&vec![3, 1, 4, 1, 5]), vec![3, 1, 4, 1, 5]);
    assert_eq!(copy_bytes(&vec![]), Vec::<u8>::new());
}

#[test]
fn same_bytes_compares_byte_for_byte() {
    assert!(same_bytes(&vec![], &vec![]));
    assert!(same_bytes(&vec![1, 2, 3], &vec![1, 2, 3]));
    assert!(!same_bytes(&vec![1, 2, 3], &vec![1, 2, 4]));
    assert!(!same_bytes(&vec![0, 2, 3], &vec![1, 2, 3]));
    assert!(!same_bytes(&vec![1, 2, 3], &vec![1, 2]));
    assert!(!same_bytes(&vec![1, 2], &vec![1, 2, 3]));
}

#[test]
fn duplicate_of_a_receipt_proof() {
    let proof = ReceiptProof { merkle_note: vec![9; NOTE_SIZE], proof: vec![1, 2, 3] };
    assert_eq!(proof.duplicate(), proof);
}

#[test]
fn duplicate_of_a_posted_spend() {
    let spend = PostedSpend {
        root_hash: vec![1; 32],
        tree_size: 12,
        nullifier: vec![2; 32],
        proof: vec![3; 192],
        authorizing_signature: vec![4; 64],
    };
    assert_eq!(spend.duplicate(), spend);
}
