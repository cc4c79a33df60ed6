//! The transaction of a single spender who pays the fee and takes the
//! change: the fee and the spender's address are fixed when the transaction
//! is begun.

use vstd::prelude::*;

use crate::errors::ProofError;
use crate::posted::{PostedView, WasmTransactionPosted};
use crate::records::{copy_bytes, Note, NoteView, ReceiptProof, Signatures, SpendProof, Witness};
use crate::transaction::{
    post_outcome, receive_effect, receive_outcome, spend_effect, spend_outcome, TransactionView,
    WasmTransaction,
};

verus! {

/// A transaction under construction by a single spender.
#[derive(Clone, Debug, PartialEq, Eq)]
pub struct WasmSimpleTransaction {
    transaction: WasmTransaction,
    spender_address: Vec<u8>,
    intended_transaction_fee: u64,
}

/// A single spender's transaction, as its contracts see it.
pub struct SimpleTransactionView {
    pub transaction: TransactionView,
    pub spender_address: Seq<u8>,
    pub intended_transaction_fee: u64,
}

impl View for WasmSimpleTransaction {
    type V = SimpleTransactionView;

    closed spec fn view(&self) -> SimpleTransactionView {
        SimpleTransactionView {
            transaction: self.transaction@,
            spender_address: self.spender_address@,
            intended_transaction_fee: self.intended_transaction_fee,
        }
    }
}

impl WasmSimpleTransaction {
    /// An empty transaction of the spender at `spender_address`, who will
    /// pay `intended_transaction_fee`.
    pub fn new(spender_address: Vec<u8>, intended_transaction_fee: u64) -> (tx:
        WasmSimpleTransaction)
        ensures
            tx@ == (SimpleTransactionView {
                transaction: TransactionView::empty(),
                spender_address: spender_address@,
                intended_transaction_fee,
            }),
            tx@.transaction.wf(),
            tx@.transaction.balance() == 0,
    {
        WasmSimpleTransaction {
            transaction: WasmTransaction::new(),
            spender_address,
            intended_transaction_fee,
        }
    }

    /// The number of spends.
    pub fn spends_length(&self) -> (count: usize)
        ensures
            count == self@.transaction.spends.len(),
    {
        self.transaction.spends_length()
    }

    /// The number of receipts.
    pub fn receipts_length(&self) -> (count: usize)
        ensures
            count == self@.transaction.receipts.len(),
    {
        self.transaction.receipts_length()
    }

    /// Whether no spend was refused for its witness so far.
    pub fn is_consistent(&self) -> (consistent: bool)
        ensures
            consistent == !self@.transaction.inconsistent,
    {
        self.transaction.is_consistent()
    }

    /// Adds the spend of `note` at the place that `witness` gives, given
    /// what the prover returned for it, as `WasmTransaction::spend` does.
    pub fn spend(
        &mut self,
        note: &Note,
        witness: &Witness,
        proved: Result<SpendProof, ProofError>,
    ) -> (outcome: Result<(), ProofError>)
        ensures
            old(self)@.transaction.wf(),
            final(self)@.transaction.wf(),
            outcome == spend_outcome(old(self)@.transaction, witness@, proved),
            final(self)@.transaction == spend_effect(
                old(self)@.transaction,
                note@,
                witness@,
                proved,
            ),
            final(self)@.spender_address == old(self)@.spender_address,
            final(self)@.intended_transaction_fee == old(self)@.intended_transaction_fee,
            outcome is Err ==> {
                &&& final(self)@.transaction.spends == old(self)@.transaction.spends
                &&& final(self)@.transaction.receipts == old(self)@.transaction.receipts
            },
    {
        self.transaction.spend(note, witness, proved)
    }

    /// Adds the receipt of `note`, given what the prover returned for it,
    /// as `WasmTransaction::receive` does.
    pub fn receive(&mut self, note: &Note, proved: Result<ReceiptProof, ProofError>) -> (outcome:
        Result<(), ProofError>)
        ensures
            old(self)@.transaction.wf(),
            final(self)@.transaction.wf(),
            outcome == receive_outcome(old(self)@.transaction, proved),
            final(self)@.transaction == receive_effect(old(self)@.transaction, note@, proved),
            final(self)@.spender_address == old(self)@.spender_address,
            final(self)@.intended_transaction_fee == old(self)@.intended_transaction_fee,
            outcome is Err ==> final(self)@ == old(self)@,
    {
        self.transaction.receive(note, proved)
    }

    /// The note that has to be proved for the change before the transaction
    /// is posted: what is left when the fee is paid, going to the spender.
    ///
    /// Fails with `InconsistentWitness` on a transaction that met one, and
    /// with `VerificationFailed` where the fee exceeds the balance or
    /// cannot be declared, or what is left does not fit in one note.
    pub fn change_note(&self) -> (due: Result<Option<Note>, ProofError>)
        ensures
            match due {
                Ok(Some(note)) => {
                    &&& !self@.transaction.inconsistent
                    &&& self@.transaction.postable(true, self@.intended_transaction_fee)
                    &&& self@.transaction.change(self@.intended_transaction_fee) > 0
                    &&& note@ == (NoteView {
                        owner: self@.spender_address,
                        value: self@.transaction.change(self@.intended_transaction_fee) as u64,
                    })
                },
                Ok(None) => {
                    &&& !self@.transaction.inconsistent
                    &&& self@.transaction.postable(true, self@.intended_transaction_fee)
                    &&& self@.transaction.change(self@.intended_transaction_fee) == 0
                },
                Err(e) => if self@.transaction.inconsistent {
                    e == ProofError::InconsistentWitness
                } else {
                    &&& !self@.transaction.postable(true, self@.intended_transaction_fee)
                    &&& e == ProofError::VerificationFailed
                },
            },
    {
        self.transaction.change_note(
            Some(copy_bytes(&self.spender_address)),
            self.intended_transaction_fee,
        )
    }

    /// Posts the transaction with the fee that it was begun with, the
    /// change going to the spender, given what the prover returned for the
    /// change note and what the signer returned for the whole transaction,
    /// as `WasmTransaction::post` does. The transaction is used up,
    /// whatever the outcome.
    pub fn post(
        self,
        change_proved: Option<Result<ReceiptProof, ProofError>>,
        signed: Result<Signatures, ProofError>,
    ) -> (result: Result<WasmTransactionPosted, ProofError>)
        ensures
            match result {
                Ok(posted) => {
                    &&& posted@.wf()
                    &&& post_outcome(
                        self@.transaction,
                        true,
                        self@.intended_transaction_fee,
                        change_proved,
                        signed,
                    ) == Ok::<PostedView, ProofError>(posted@)
                },
                Err(e) => post_outcome(
                    self@.transaction,
                    true,
                    self@.intended_transaction_fee,
                    change_proved,
                    signed,
                ) == Err::<PostedView, ProofError>(e),
            },
    {
        self.transaction.post(
            Some(self.spender_address),
            self.intended_transaction_fee,
            change_proved,
            signed,
        )
    }
}

} // verus!
