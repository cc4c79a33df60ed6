use ironfish_wasm::errors::ProofError;
use ironfish_wasm::posted::WasmTransactionPosted;
use ironfish_wasm::records::{Note, ReceiptProof, Signatures, SpendProof, Witness, NOTE_SIZE};
use ironfish_wasm::transaction::WasmTransaction;

fn sample() -> WasmTransactionPosted {
    let mut tx = WasmTransaction::new();
    let place = Witness { root_hash: vec![0xa1, 0xa2], tree_size: 0x01020304 };
    tx.spend(
        &Note { owner: vec![1], value: 50 },
        &place,
        Ok(SpendProof { nullifier: vec![0xb1], proof: vec![0xc1, 0xc2, 0xc3] }),
    )
    .unwrap();
    tx.receive(
        &Note { owner: vec![2], value: 20 },
        Ok(ReceiptProof { merkle_note: vec![0x11; NOTE_SIZE], proof: vec![0xd1] }),
    )
    .unwrap();
    tx.post(
        Some(vec![1]),
        5,
        Some(Ok(ReceiptProof { merkle_note: vec![0x22; NOTE_SIZE], proof: vec![] })),
        Ok(Signatures {
            spend_signatures: vec![vec![0xe1, 0xe2]],
            binding_signature: vec![0xf1],
            signature_hash: vec![0x99, 0x98],
        }),
    )
    .unwrap()
}

fn sample_bytes() -> Vec<u8> {
    let mut bytes = vec![1u8];
    bytes.extend_from_slice(&[1, 0, 0, 0, 0, 0, 0, 0]);
    bytes.extend_from_slice(&[2, 0, 0, 0, 0, 0, 0, 0, 0xa1, 0xa2]);
    bytes.extend_from_slice(&[0x04, 0x03, 0x02, 0x01]);
    bytes.extend_from_slice(&[1, 0, 0, 0, 0, 0, 0, 0, 0xb1]);
    bytes.extend_from_slice(&[3, 0, 0, 0, 0, 0, 0, 0, 0xc1, 0xc2, 0xc3]);
    bytes.extend_from_slice(&[2, 0, 0, 0, 0, 0, 0, 0, 0xe1, 0xe2]);
    bytes.extend_from_slice(&[2, 0, 0, 0, 0, 0, 0, 0]);
    bytes.extend_from_slice(&[0x11; NOTE_SIZE]);
    bytes.extend_from_slice(&[1, 0, 0, 0, 0, 0, 0, 0, 0xd1]);
    bytes.extend_from_slice(&[0x22; NOTE_SIZE]);
    bytes.extend_from_slice(&[0, 0, 0, 0, 0, 0, 0, 0]);
    bytes.extend_from_slice(&[1, 0, 0, 0, 0, 0, 0, 0, 0xf1]);
    bytes.extend_from_slice(&[5, 0, 0, 0, 0, 0, 0, 0]);
    bytes.extend_from_slice(&[2, 0, 0, 0, 0, 0, 0, 0, 0x99, 0x98]);
    bytes
}

fn miners_fee(value: u64) -> WasmTransactionPosted {
    let mut tx = WasmTransaction::new();
    tx.receive(
        &Note { owner: vec![2], value },
        Ok(ReceiptProof { merkle_note: vec![0x33; NOTE_SIZE], proof: vec![] }),
    )
    .unwrap();
    tx.post_miners_fee(Ok(Signatures {
        spend_signatures: vec![],
        binding_signature: vec![],
        signature_hash: vec![],
    }))
    .unwrap()
}

#[test]
fn serialize_gives_the_frame_byte_for_byte() {
    assert_eq!(sample().serialize(), sample_bytes());
}

#[test]
fn serialize_of_an_empty_transaction() {
    let posted = WasmTransaction::new()
        .post(
            None,
            0,
            None,
            Ok(Signatures {
                spend_signatures: vec![],
                binding_signature: vec![],
                signature_hash: vec![],
            }),
        )
        .unwrap();
    let mut expected = vec![1u8];
    expected.extend_from_slice(&[0; 40]);
    assert_eq!(posted.serialize(), expected);
}

#[test]
fn serialize_writes_a_negative_fee_in_twos_complement() {
    let bytes = miners_fee(10).serialize();
    let mut expected = vec![1u8];
    expected.extend_from_slice(&[0; 8]);
    expected.extend_from_slice(&[1, 0, 0, 0, 0, 0, 0, 0]);
    expected.extend_from_slice(&[0x33; NOTE_SIZE]);
    expected.extend_from_slice(&[0; 8]);
    expected.extend_from_slice(&[0; 8]);
    expected.extend_from_slice(&[0xf6, 0xff, 0xff, 0xff, 0xff, 0xff, 0xff, 0xff]);
    expected.extend_from_slice(&[0; 8]);
    assert_eq!(bytes, expected);
}

#[test]
fn deserialize_reads_the_frame() {
    let posted = WasmTransactionPosted::deserialize(&sample_bytes()).unwrap();
    assert_eq!(posted, sample());
    assert_eq!(posted.spends_length(), 1);
    assert_eq!(posted.notes_length(), 2);
    assert_eq!(posted.transaction_fee(), 5);
    assert_eq!(posted.transaction_signature(), vec![0xf1]);
    assert_eq!(posted.transaction_hash(), vec![0x99, 0x98]);
    assert_eq!(posted.get_note(1), vec![0x22; NOTE_SIZE]);
    let spend = posted.get_spend(0);
    assert_eq!(spend.root_hash, vec![0xa1, 0xa2]);
    assert_eq!(spend.tree_size, 0x01020304);
    assert_eq!(spend.nullifier, vec![0xb1]);
    assert_eq!(spend.proof, vec![0xc1, 0xc2, 0xc3]);
    assert_eq!(spend.authorizing_signature, vec![0xe1, 0xe2]);
}

#[test]
fn round_trip_gives_the_transaction_and_the_bytes_back() {
    let posted = sample();
    let bytes = posted.serialize();
    let decoded = WasmTransactionPosted::deserialize(&bytes).unwrap();
    assert_eq!(decoded, posted);
    assert_eq!(decoded.serialize(), bytes);
    assert_eq!(decoded.verify(&Ok(())), posted.verify(&Ok(())));
    assert!(decoded.verify(&Ok(())));
}

#[test]
fn round_trip_of_a_miners_fee() {
    let posted = miners_fee(u64::MAX >> 1);
    let decoded = WasmTransactionPosted::deserialize(&posted.serialize()).unwrap();
    assert_eq!(decoded, posted);
    assert_eq!(decoded.transaction_fee(), -(i64::MAX));
}

#[test]
fn round_trip_of_the_lowest_fee() {
    let posted = miners_fee(1 << 63);
    let decoded = WasmTransactionPosted::deserialize(&posted.serialize()).unwrap();
    assert_eq!(decoded.transaction_fee(), i64::MIN);
}

#[test]
fn deserialize_refuses_every_truncation() {
    let bytes = sample_bytes();
    for length in 0..bytes.len() {
        assert_eq!(
            WasmTransactionPosted::deserialize(&bytes[..length]),
            Err(ProofError::IOError)
        );
    }
}

#[test]
fn deserialize_refuses_bytes_behind_the_frame() {
    let mut bytes = sample_bytes();
    bytes.push(0);
    assert_eq!(
        WasmTransactionPosted::deserialize(&bytes),
        Err(ProofError::IOError)
    );
}

#[test]
fn deserialize_refuses_another_version() {
    let mut bytes = sample_bytes();
    bytes[0] = 2;
    assert_eq!(
        WasmTransactionPosted::deserialize(&bytes),
        Err(ProofError::IOError)
    );
}

#[test]
fn deserialize_refuses_a_count_that_the_bytes_do_not_hold() {
    let mut bytes = vec![1u8];
    bytes.extend_from_slice(&[0xff; 8]);
    bytes.extend_from_slice(&[0; 32]);
    assert_eq!(
        WasmTransactionPosted::deserialize(&bytes),
        Err(ProofError::IOError)
    );
}

#[test]
fn deserialize_refuses_a_length_that_the_bytes_do_not_hold() {
    let mut bytes = vec![1u8];
    bytes.extend_from_slice(&[0; 8]);
    bytes.extend_from_slice(&[0; 8]);
    bytes.extend_from_slice(&[0xff; 8]);
    bytes.extend_from_slice(&[0; 16]);
    assert_eq!(
        WasmTransactionPosted::deserialize(&bytes),
        Err(ProofError::IOError)
    );
}

#[test]
fn changing_a_byte_of_a_proof_changes_the_transaction() {
    let bytes = sample_bytes();
    let posted = sample();
    let mut changed = bytes.clone();
    changed[40] ^= 1;
    let decoded = WasmTransactionPosted::deserialize(&changed).unwrap();
    assert_ne!(decoded, posted);
    assert_eq!(decoded.get_spend(0).proof, vec![0xc0, 0xc2, 0xc3]);
}

#[test]
fn verify_follows_the_check() {
    let posted = sample();
    assert!(posted.verify(&Ok(())));
    assert!(!posted.verify(&Err(ProofError::VerificationFailed)));
    assert!(!posted.verify(&Err(ProofError::SigningError)));
    assert!(!posted.verify(&Err(ProofError::SpendCircuitProofError("bad".to_string()))));
}

#[test]
fn receipt_of_a_posted_transaction() {
    let posted = sample();
    assert_eq!(
        posted.get_receipt(0),
        ReceiptProof { merkle_note: vec![0x11; NOTE_SIZE], proof: vec![0xd1] }
    );
    assert_eq!(
        posted.get_receipt(1),
        ReceiptProof { merkle_note: vec![0x22; NOTE_SIZE], proof: vec![] }
    );
}

#[test]
fn clone_of_a_posted_transaction() {
    let posted = sample();
    let copy = posted.clone();
    assert_eq!(copy, posted);
    assert_eq!(copy.serialize(), sample_bytes());
}

#[test]
fn accessors_of_a_posted_transaction() {
    let posted = sample();
    assert_eq!(posted.notes_length(), 2);
    assert_eq!(posted.spends_length(), 1);
    assert_eq!(posted.get_note(0), vec![0x11; NOTE_SIZE]);
    assert_eq!(posted.get_note(0).len(), 275);
    assert_eq!(posted.transaction_fee(), 5);
    assert_eq!(posted.transaction_signature(), vec![0xf1]);
    assert_eq!(posted.transaction_hash(), vec![0x99, 0x98]);
}
