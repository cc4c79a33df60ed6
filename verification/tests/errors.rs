use ironfish_wasm::errors::{outcome_identifier, ProofError};

#[test]
fn identifiers_of_the_plain_errors() {
    assert_eq!(ProofError::InconsistentWitness.identifier(), "InconsistentWitness");
    assert_eq!(ProofError::IOError.identifier(), "IOError");
    assert_eq!(
        ProofError::ReceiptCircuitProofError.identifier(),
        "ReceiptCircuitProofError"
    );
    assert_eq!(ProofError::SaplingKeyError.identifier(), "SaplingKeyError");
    assert_eq!(ProofError::SigningError.identifier(), "SigningError");
    assert_eq!(ProofError::VerificationFailed.identifier(), "VerificationFailed");
}

#[test]
fn identifier_of_a_spend_proof_error_carries_the_detail() {
    let error = ProofError::SpendCircuitProofError("constraint 17 unsatisfied".to_string());
    assert_eq!(
        error.identifier(),
        "SpendCircuitProofError - constraint 17 unsatisfied"
    );
}

#[test]
fn identifier_of_a_spend_proof_error_without_detail() {
    let error = ProofError::SpendCircuitProofError(String::new());
    assert_eq!(error.identifier(), "SpendCircuitProofError - ");
}

#[test]
fn outcome_of_a_success_is_the_empty_text() {
    assert_eq!(outcome_identifier(&Ok(())), "");
}

#[test]
fn outcome_of_a_failure_is_its_identifier() {
    assert_eq!(
        outcome_identifier(&Err(ProofError::SigningError)),
        "SigningError"
    );
    assert_eq!(
        outcome_identifier(&Err(ProofError::SpendCircuitProofError("x".to_string()))),
        "SpendCircuitProofError - x"
    );
}
