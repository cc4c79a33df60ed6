use ironfish_wasm::errors::ProofError;
use ironfish_wasm::records::{Note, ReceiptProof, Signatures, SpendProof, Witness, NOTE_SIZE};
use ironfish_wasm::simple::WasmSimpleTransaction;

fn place(root: u8) -> Witness {
    Witness { root_hash: vec![root; 32], tree_size: 3 }
}

fn proved_spend(tag: u8) -> SpendProof {
    SpendProof { nullifier: vec![tag; 32], proof: vec![tag; 192] }
}

fn proved_receipt(tag: u8) -> ReceiptProof {
    ReceiptProof { merkle_note: vec![tag; NOTE_SIZE], proof: vec![tag; 192] }
}

fn signed(spends: usize) -> Signatures {
    Signatures {
        spend_signatures: vec![vec![5; 64]; spends],
        binding_signature: vec![6; 64],
        signature_hash: vec![7; 32],
    }
}

#[test]
fn simple_transaction_begins_empty() {
    let tx = WasmSimpleTransaction::new(vec![1; 43], 5);
    assert_eq!(tx.spends_length(), 0);
    assert_eq!(tx.receipts_length(), 0);
}

#[test]
fn simple_post_returns_the_change_to_the_spender() {
    let mut tx = WasmSimpleTransaction::new(vec![1; 43], 5);
    assert_eq!(
        tx.spend(&Note { owner: vec![1; 43], value: 50 }, &place(9), Ok(proved_spend(1))),
        Ok(())
    );
    assert_eq!(
        tx.receive(&Note { owner: vec![2; 43], value: 20 }, Ok(proved_receipt(2))),
        Ok(())
    );
    assert_eq!(
        tx.change_note(),
        Ok(Some(Note { owner: vec![1; 43], value: 25 }))
    );
    let posted = tx.post(Some(Ok(proved_receipt(3))), Ok(signed(1))).unwrap();
    assert_eq!(posted.notes_length(), 2);
    assert_eq!(posted.spends_length(), 1);
    assert_eq!(posted.transaction_fee(), 5);
    assert_eq!(posted.get_note(1), vec![3; NOTE_SIZE]);
}

#[test]
fn simple_post_without_change() {
    let mut tx = WasmSimpleTransaction::new(vec![1; 43], 30);
    tx.spend(&Note { owner: vec![1; 43], value: 50 }, &place(9), Ok(proved_spend(1))).unwrap();
    tx.receive(&Note { owner: vec![2; 43], value: 20 }, Ok(proved_receipt(2))).unwrap();
    assert_eq!(tx.change_note(), Ok(None));
    let posted = tx.post(None, Ok(signed(1))).unwrap();
    assert_eq!(posted.notes_length(), 1);
    assert_eq!(posted.transaction_fee(), 30);
}

#[test]
fn simple_post_with_a_fee_above_the_balance_fails() {
    let mut tx = WasmSimpleTransaction::new(vec![1; 43], 51);
    tx.spend(&Note { owner: vec![1; 43], value: 50 }, &place(9), Ok(proved_spend(1))).unwrap();
    assert_eq!(tx.change_note(), Err(ProofError::VerificationFailed));
    assert_eq!(
        tx.post(None, Ok(signed(1))),
        Err(ProofError::VerificationFailed)
    );
}

#[test]
fn simple_spend_against_another_root_is_an_inconsistent_witness() {
    let mut tx = WasmSimpleTransaction::new(vec![1; 43], 5);
    tx.spend(&Note { owner: vec![1; 43], value: 50 }, &place(9), Ok(proved_spend(1))).unwrap();
    assert_eq!(
        tx.spend(&Note { owner: vec![1; 43], value: 50 }, &place(8), Ok(proved_spend(2))),
        Err(ProofError::InconsistentWitness)
    );
    assert_eq!(tx.spends_length(), 1);
    assert!(!tx.is_consistent());
    assert_eq!(tx.change_note(), Err(ProofError::InconsistentWitness));
    assert_eq!(
        tx.post(Some(Ok(proved_receipt(3))), Ok(signed(1))),
        Err(ProofError::InconsistentWitness)
    );
}

#[test]
fn simple_failures_change_nothing() {
    let mut tx = WasmSimpleTransaction::new(vec![1; 43], 5);
    tx.spend(&Note { owner: vec![1; 43], value: 50 }, &place(9), Ok(proved_spend(1))).unwrap();
    let before = tx.clone();
    assert_eq!(
        tx.receive(
            &Note { owner: vec![2; 43], value: 20 },
            Err(ProofError::ReceiptCircuitProofError)
        ),
        Err(ProofError::ReceiptCircuitProofError)
    );
    assert_eq!(
        tx.spend(
            &Note { owner: vec![1; 43], value: 1 },
            &place(9),
            Err(ProofError::SpendCircuitProofError("unproved".to_string()))
        ),
        Err(ProofError::SpendCircuitProofError("unproved".to_string()))
    );
    assert_eq!(tx, before);
}

#[test]
fn simple_post_hands_on_failures() {
    let mut tx = WasmSimpleTransaction::new(vec![1; 43], 5);
    tx.spend(&Note { owner: vec![1; 43], value: 50 }, &place(9), Ok(proved_spend(1))).unwrap();
    assert_eq!(
        tx.clone().post(Some(Err(ProofError::ReceiptCircuitProofError)), Ok(signed(1))),
        Err(ProofError::ReceiptCircuitProofError)
    );
    assert_eq!(
        tx.clone().post(Some(Ok(proved_receipt(3))), Err(ProofError::SigningError)),
        Err(ProofError::SigningError)
    );
    assert_eq!(
        tx.post(None, Ok(signed(1))),
        Err(ProofError::ReceiptCircuitProofError)
    );
}
