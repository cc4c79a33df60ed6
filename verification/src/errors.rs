//! The failures that building and posting a transaction can end in, and the
//! stable identifiers under which they cross a foreign boundary.

use vstd::prelude::*;
use vstd::string::StringExecFns;

verus! {

/// Why a spend, a receipt or a posting failed.
#[derive(Clone, Debug, PartialEq, Eq)]
pub enum ProofError {
    /// A witness authenticates against another tree root than the spends
    /// already in the transaction.
    InconsistentWitness,
    /// Proof material could not be written or read.
    IOError,
    /// The prover could not prove a receipt.
    ReceiptCircuitProofError,
    /// The prover could not prove a spend; the text is the prover's own.
    SpendCircuitProofError(String),
    /// A key is malformed or is not the key of the note.
    SaplingKeyError,
    /// The signer could not sign.
    SigningError,
    /// The transaction did not pass the check made before it is handed out.
    VerificationFailed,
}

/// The identifier of an error, as a sequence of characters.
pub open spec fn spec_identifier(e: ProofError) -> Seq<char> {
    match e {
        ProofError::InconsistentWitness => "InconsistentWitness"@,
        ProofError::IOError => "IOError"@,
        ProofError::ReceiptCircuitProofError => "ReceiptCircuitProofError"@,
        ProofError::SpendCircuitProofError(detail) => "SpendCircuitProofError - "@ + detail@,
        ProofError::SaplingKeyError => "SaplingKeyError"@,
        ProofError::SigningError => "SigningError"@,
        ProofError::VerificationFailed => "VerificationFailed"@,
    }
}

/// What a caller across a foreign boundary is told of an operation: nothing
/// when it succeeded, the error's identifier when it failed.
pub open spec fn spec_outcome_identifier(outcome: Result<(), ProofError>) -> Seq<char> {
    match outcome {
        Ok(_) => Seq::<char>::empty(),
        Err(e) => spec_identifier(e),
    }
}

impl ProofError {
    /// The stable identifier of this error. The failure of a spend proof
    /// carries the prover's text behind its name.
    pub fn identifier(&self) -> (name: String)
        ensures
            name@ == spec_identifier(*self),
    {
        match self {
            ProofError::InconsistentWitness => "InconsistentWitness".to_owned(),
            ProofError::IOError => "IOError".to_owned(),
            ProofError::ReceiptCircuitProofError => "ReceiptCircuitProofError".to_owned(),
            ProofError::SpendCircuitProofError(detail) => {
                "SpendCircuitProofError - ".to_owned().concat(detail.as_str())
            },
            ProofError::SaplingKeyError => "SaplingKeyError".to_owned(),
            ProofError::SigningError => "SigningError".to_owned(),
            ProofError::VerificationFailed => "VerificationFailed".to_owned(),
        }
    }
}

/// The text handed across a foreign boundary for the outcome of an
/// operation: empty on success, the error's identifier on failure.
pub fn outcome_identifier(outcome: &Result<(), ProofError>) -> (text: String)
    ensures
        text@ == spec_outcome_identifier(*outcome),
{
    match outcome {
        Ok(_) => String::new(),
        Err(e) => e.identifier(),
    }
}

} // verus!
