//! The proposed transaction: spends and receipts gathered one by one, with
//! the running value balance, until the transaction is posted.
//!
//! The prover and the signer work outside. `spend` and `receive` take what
//! the prover returned for the descriptor at hand; `change_note` says which
//! note, if any, has to be proved for the change; `post` and
//! `post_miners_fee` take what the prover returned for that note and what
//! the signer returned for the whole transaction.

use vstd::prelude::*;

use crate::balance::{lemma_sum_fits, lemma_sum_push, sum};
use crate::errors::ProofError;
use crate::posted::{PostedView, WasmTransactionPosted};
use crate::records::{
    copy_bytes, same_bytes, views, Note, NoteView, PostedSpend, PostedSpendView, ReceiptProof,
    ReceiptProofView, Signatures, SpendProof, Witness, WitnessView, NOTE_SIZE,
};

verus! {

/// A proved spend that waits for its signature.
#[derive(Debug, PartialEq, Eq)]
pub(crate) struct Spend {
    pub(crate) value: u64,
    pub(crate) root_hash: Vec<u8>,
    pub(crate) tree_size: u32,
    pub(crate) nullifier: Vec<u8>,
    pub(crate) proof: Vec<u8>,
}

/// A proved spend that waits for its signature, as contracts see it.
pub struct SpendView {
    pub value: u64,
    pub root_hash: Seq<u8>,
    pub tree_size: u32,
    pub nullifier: Seq<u8>,
    pub proof: Seq<u8>,
}

impl View for Spend {
    type V = SpendView;

    closed spec fn view(&self) -> SpendView {
        SpendView {
            value: self.value,
            root_hash: self.root_hash@,
            tree_size: self.tree_size,
            nullifier: self.nullifier@,
            proof: self.proof@,
        }
    }
}

/// A proved receipt, with the note that it was proved for.
#[derive(Debug, PartialEq, Eq)]
pub(crate) struct Receipt {
    pub(crate) note: Note,
    pub(crate) proof: ReceiptProof,
}

/// A proved receipt with its note, as contracts see it.
pub struct ReceiptView {
    pub note: NoteView,
    pub proof: ReceiptProofView,
}

impl View for Receipt {
    type V = ReceiptView;

    closed spec fn view(&self) -> ReceiptView {
        ReceiptView { note: self.note@, proof: self.proof@ }
    }
}

/// A transaction under construction, as its contracts see it.
pub struct TransactionView {
    pub spends: Seq<SpendView>,
    pub receipts: Seq<ReceiptView>,
    /// A spend was refused for its witness: the transaction is to be
    /// abandoned, and nothing more can be done with it.
    pub inconsistent: bool,
}

impl TransactionView {
    /// The transaction without a spend or a receipt.
    pub open spec fn empty() -> TransactionView {
        TransactionView { spends: Seq::empty(), receipts: Seq::empty(), inconsistent: false }
    }

    /// The values of the spent notes, in the order of the spends.
    pub open spec fn spend_values(self) -> Seq<u64> {
        Seq::new(self.spends.len(), |i: int| self.spends[i].value)
    }

    /// The values of the received notes, in the order of the receipts.
    pub open spec fn receipt_values(self) -> Seq<u64> {
        Seq::new(self.receipts.len(), |i: int| self.receipts[i].note.value)
    }

    /// The value that the spends bring in.
    pub open spec fn spent(self) -> nat {
        sum(self.spend_values())
    }

    /// The value that the receipts take out.
    pub open spec fn received(self) -> nat {
        sum(self.receipt_values())
    }

    /// The running balance: what is spent less what is received.
    pub open spec fn balance(self) -> int {
        self.spent() - self.received()
    }

    /// The proofs of the receipts, in order.
    pub open spec fn receipt_proofs(self) -> Seq<ReceiptProofView> {
        Seq::new(self.receipts.len(), |i: int| self.receipts[i].proof)
    }

    /// Whether a spend against the tree root `root` agrees with the spends
    /// that are there.
    pub open spec fn admits_root(self, root: Seq<u8>) -> bool {
        self.spends.len() > 0 ==> self.spends[0].root_hash == root
    }

    /// All spends authenticate against one tree root, every receipt holds a
    /// note record of the fixed length, and only a transaction with a spend
    /// can have met an inconsistent witness.
    pub open spec fn wf(self) -> bool {
        &&& self.inconsistent ==> self.spends.len() > 0
        &&& forall|i: int|
            0 <= i < self.spends.len() ==> (#[trigger] self.spends[i]).root_hash
                == self.spends[0].root_hash
        &&& forall|i: int| 0 <= i < self.receipts.len() ==> (#[trigger] self.receipts[i]).proof.wf()
    }

    /// What is left for the spender when `fee` is paid.
    pub open spec fn change(self, fee: u64) -> int {
        self.balance() - fee
    }

    /// The transaction with the mark of an inconsistent witness.
    pub open spec fn abandoned(self) -> TransactionView {
        TransactionView { spends: self.spends, receipts: self.receipts, inconsistent: true }
    }

    /// Whether the transaction can be posted with `fee`: the fee can be
    /// declared, it does not exceed the balance, what is left fits in one
    /// note, and there is an address for it to go to.
    pub open spec fn postable(self, has_address: bool, fee: u64) -> bool {
        &&& fee <= i64::MAX
        &&& 0 <= self.change(fee) <= u64::MAX
        &&& self.change(fee) > 0 ==> has_address
    }

    /// Whether the transaction can be posted as a miner's fee: it has no
    /// spend, and the value that it mints can be declared as a fee.
    pub open spec fn mintable(self) -> bool {
        &&& self.spends.len() == 0
        &&& self.received() <= 0x8000_0000_0000_0000
    }
}

/// The spend that `spend` adds for a note and a witness, once proved.
pub open spec fn proved_spend(note: NoteView, witness: WitnessView, proof: SpendProof) -> SpendView {
    SpendView {
        value: note.value,
        root_hash: witness.root_hash,
        tree_size: witness.tree_size,
        nullifier: proof.nullifier@,
        proof: proof.proof@,
    }
}

/// What `spend` returns.
pub open spec fn spend_outcome(
    tx: TransactionView,
    witness: WitnessView,
    proved: Result<SpendProof, ProofError>,
) -> Result<(), ProofError> {
    if tx.inconsistent || !tx.admits_root(witness.root_hash) {
        Err(ProofError::InconsistentWitness)
    } else {
        match proved {
            Err(e) => Err(e),
            Ok(_) => Ok(()),
        }
    }
}

/// The transaction after `spend`.
pub open spec fn spend_effect(
    tx: TransactionView,
    note: NoteView,
    witness: WitnessView,
    proved: Result<SpendProof, ProofError>,
) -> TransactionView {
    if tx.inconsistent {
        tx
    } else if !tx.admits_root(witness.root_hash) {
        tx.abandoned()
    } else if proved is Ok {
        TransactionView {
            spends: tx.spends.push(proved_spend(note, witness, proved->Ok_0)),
            receipts: tx.receipts,
            inconsistent: false,
        }
    } else {
        tx
    }
}

/// What `receive` returns.
pub open spec fn receive_outcome(tx: TransactionView, proved: Result<ReceiptProof, ProofError>)
    -> Result<(), ProofError> {
    if tx.inconsistent {
        Err(ProofError::InconsistentWitness)
    } else {
        match proved {
            Err(e) => Err(e),
            Ok(p) => if p@.wf() {
                Ok(())
            } else {
                Err(ProofError::IOError)
            },
        }
    }
}

/// The transaction after `receive`.
pub open spec fn receive_effect(
    tx: TransactionView,
    note: NoteView,
    proved: Result<ReceiptProof, ProofError>,
) -> TransactionView {
    if receive_outcome(tx, proved) is Ok {
        TransactionView {
            spends: tx.spends,
            receipts: tx.receipts.push(ReceiptView { note, proof: (proved->Ok_0)@ }),
            inconsistent: false,
        }
    } else {
        tx
    }
}

/// The note that has to be proved for the change of a posting, if any.
pub open spec fn change_note_due(tx: TransactionView, change_goes_to: Option<Seq<u8>>, fee: u64)
    -> Option<NoteView> {
    if !tx.inconsistent && tx.postable(change_goes_to is Some, fee) && tx.change(fee) > 0 {
        Some(NoteView { owner: change_goes_to->Some_0, value: tx.change(fee) as u64 })
    } else {
        None
    }
}

/// The spends of a posted transaction: each proved spend with its
/// authorizing signature.
pub open spec fn signed_spends(spends: Seq<SpendView>, signatures: Seq<Seq<u8>>) -> Seq<
    PostedSpendView,
> {
    Seq::new(
        spends.len(),
        |i: int|
            PostedSpendView {
                root_hash: spends[i].root_hash,
                tree_size: spends[i].tree_size,
                nullifier: spends[i].nullifier,
                proof: spends[i].proof,
                authorizing_signature: signatures[i],
            },
    )
}

/// What becomes of proved spends and receipts under what the signer
/// returned: the signer's failure, a signing error where the signatures do
/// not match the spends one for one, else the posted transaction.
pub open spec fn sealed(
    spends: Seq<SpendView>,
    receipts: Seq<ReceiptProofView>,
    fee: i64,
    signed: Result<Signatures, ProofError>,
) -> Result<PostedView, ProofError> {
    match signed {
        Err(e) => Err(e),
        Ok(s) => if s@.spend_signatures.len() == spends.len() {
            Ok(
                PostedView {
                    spends: signed_spends(spends, s@.spend_signatures),
                    receipts,
                    binding_signature: s@.binding_signature,
                    transaction_fee: fee,
                    signature_hash: s@.signature_hash,
                },
            )
        } else {
            Err(ProofError::SigningError)
        },
    }
}

/// What `post` returns.
pub open spec fn post_outcome(
    tx: TransactionView,
    has_address: bool,
    fee: u64,
    change_proved: Option<Result<ReceiptProof, ProofError>>,
    signed: Result<Signatures, ProofError>,
) -> Result<PostedView, ProofError> {
    if tx.inconsistent {
        Err(ProofError::InconsistentWitness)
    } else if !tx.postable(has_address, fee) {
        Err(ProofError::VerificationFailed)
    } else if tx.change(fee) == 0 {
        match change_proved {
            Some(_) => Err(ProofError::VerificationFailed),
            None => sealed(tx.spends, tx.receipt_proofs(), fee as i64, signed),
        }
    } else {
        match change_proved {
            None => Err(ProofError::ReceiptCircuitProofError),
            Some(Err(e)) => Err(e),
            Some(Ok(p)) => if p@.wf() {
                sealed(tx.spends, tx.receipt_proofs().push(p@), fee as i64, signed)
            } else {
                Err(ProofError::IOError)
            },
        }
    }
}

/// What `post_miners_fee` returns.
pub open spec fn miners_fee_outcome(tx: TransactionView, signed: Result<Signatures, ProofError>)
    -> Result<PostedView, ProofError> {
    if tx.inconsistent {
        Err(ProofError::InconsistentWitness)
    } else if !tx.mintable() {
        Err(ProofError::VerificationFailed)
    } else {
        sealed(tx.spends, tx.receipt_proofs(), (-(tx.received() as int)) as i64, signed)
    }
}

/// A transaction under construction.
#[derive(Debug, PartialEq, Eq)]
pub struct WasmTransaction {
    spends: Vec<Spend>,
    receipts: Vec<Receipt>,
    spent: u128,
    received: u128,
    inconsistent: bool,
}

impl View for WasmTransaction {
    type V = TransactionView;

    closed spec fn view(&self) -> TransactionView {
        TransactionView {
            spends: views(self.spends@),
            receipts: views(self.receipts@),
            inconsistent: self.inconsistent,
        }
    }
}

/// Puts the signatures on the spends and makes the posted transaction.
fn seal(
    spends: &Vec<Spend>,
    receipts: Vec<ReceiptProof>,
    fee: i64,
    signed: Result<Signatures, ProofError>,
) -> (result: Result<WasmTransactionPosted, ProofError>)
    requires
        forall|i: int| 0 <= i < receipts@.len() ==> (#[trigger] receipts@[i])@.wf(),
    ensures
        match result {
            Ok(posted) => sealed(views(spends@), views(receipts@), fee, signed) == Ok::<
                PostedView,
                ProofError,
            >(posted@),
            Err(e) => sealed(views(spends@), views(receipts@), fee, signed) == Err::<
                PostedView,
                ProofError,
            >(e),
        },
{
    match signed {
        Err(e) => Err(e),
        Ok(signatures) => {
            if signatures.spend_signatures.len() != spends.len() {
                return Err(ProofError::SigningError);
            }
            let ghost wanted = signed_spends(views(spends@), signatures@.spend_signatures);
            let mut posted_spends: Vec<PostedSpend> = Vec::new();
            let mut i: usize = 0;
            while i < spends.len()
                invariant
                    i <= spends.len(),
                    signatures.spend_signatures.len() == spends.len(),
                    wanted == signed_spends(views(spends@), signatures@.spend_signatures),
                    posted_spends@.len() == i,
                    forall|j: int| 0 <= j < i ==> (#[trigger] posted_spends@[j])@ == wanted[j],
                decreases spends.len() - i,
            {
                let spend = &spends[i];
                posted_spends.push(
                    PostedSpend {
                        root_hash: copy_bytes(&spend.root_hash),
                        tree_size: spend.tree_size,
                        nullifier: copy_bytes(&spend.nullifier),
                        proof: copy_bytes(&spend.proof),
                        authorizing_signature: copy_bytes(&signatures.spend_signatures[i]),
                    },
                );
                i += 1;
            }
            assert(views(posted_spends@) == wanted);
            Ok(
                WasmTransactionPosted::assemble(
                    posted_spends,
                    receipts,
                    signatures.binding_signature,
                    fee,
                    signatures.signature_hash,
                ),
            )
        },
    }
}

impl WasmTransaction {
    /// The totals are those of the descriptors, all spends authenticate
    /// against one tree root, and every receipt holds a note record of the
    /// fixed length.
    #[verifier::type_invariant]
    spec fn well_formed(self) -> bool {
        &&& self@.wf()
        &&& self.spent == self@.spent()
        &&& self.received == self@.received()
    }

    /// An empty transaction: no spend, no receipt, balance zero.
    pub fn new() -> (tx: WasmTransaction)
        ensures
            tx@ == TransactionView::empty(),
            tx@.wf(),
            tx@.balance() == 0,
    {
        let tx = WasmTransaction {
            spends: Vec::new(),
            receipts: Vec::new(),
            spent: 0,
            received: 0,
            inconsistent: false,
        };
        assert(tx@.spend_values() == Seq::<u64>::empty());
        assert(tx@.receipt_values() == Seq::<u64>::empty());
        assert(tx@.spends == Seq::<SpendView>::empty());
        assert(tx@.receipts == Seq::<ReceiptView>::empty());
        tx
    }

    /// The number of spends.
    pub fn spends_length(&self) -> (count: usize)
        ensures
            count == self@.spends.len(),
    {
        self.spends.len()
    }

    /// The number of receipts.
    pub fn receipts_length(&self) -> (count: usize)
        ensures
            count == self@.receipts.len(),
    {
        self.receipts.len()
    }

    /// Whether no spend was refused for its witness so far. A transaction
    /// that met an inconsistent witness is to be abandoned.
    pub fn is_consistent(&self) -> (consistent: bool)
        ensures
            consistent == !self@.inconsistent,
    {
        !self.inconsistent
    }

    /// The value that the spends bring in.
    pub fn total_spent(&self) -> (total: u128)
        ensures
            total == self@.spent(),
    {
        proof {
            use_type_invariant(self);
        }
        self.spent
    }

    /// The value that the receipts take out.
    pub fn total_received(&self) -> (total: u128)
        ensures
            total == self@.received(),
    {
        proof {
            use_type_invariant(self);
        }
        self.received
    }

    /// Adds the receipt of `note`, given what the prover returned for it.
    ///
    /// A transaction that met an inconsistent witness takes nothing more.
    /// Else the prover's failure is handed on, and a proof whose note record
    /// has not the fixed length is an I/O error. After a failure the
    /// transaction is as it was. Otherwise the receipt is added behind the
    /// others, and the balance goes down by the value of the note.
    pub fn receive(&mut self, note: &Note, proved: Result<ReceiptProof, ProofError>) -> (outcome:
        Result<(), ProofError>)
        ensures
            old(self)@.wf(),
            final(self)@.wf(),
            outcome == receive_outcome(old(self)@, proved),
            final(self)@ == receive_effect(old(self)@, note@, proved),
            outcome is Err ==> final(self)@ == old(self)@,
            outcome is Ok ==> final(self)@.balance() == old(self)@.balance() - note.value,
    {
        proof {
            use_type_invariant(&*self);
        }
        if self.inconsistent {
            return Err(ProofError::InconsistentWitness);
        }
        match proved {
            Err(e) => Err(e),
            Ok(proof) => {
                if proof.merkle_note.len() != NOTE_SIZE {
                    return Err(ProofError::IOError);
                }
                let receipt = Receipt {
                    note: Note { owner: copy_bytes(&note.owner), value: note.value },
                    proof,
                };
                let mut taken = WasmTransaction::new();
                std::mem::swap(self, &mut taken);
                let WasmTransaction { spends, mut receipts, spent, received, inconsistent } = taken;
                receipts.push(receipt);
                proof {
                    let before = old(self)@;
                    let after = TransactionView {
                        spends: views(spends@),
                        receipts: views(receipts@),
                        inconsistent,
                    };
                    assert(after.receipts == before.receipts.push(receipt@));
                    assert(after.receipt_values() == before.receipt_values().push(note.value));
                    lemma_sum_push(before.receipt_values(), note.value);
                    assert(after.receipt_values().len() == receipts.len());
                    lemma_sum_fits(after.receipt_values());
                    assert forall|i: int| 0 <= i < after.receipts.len() implies #[trigger] after
                        .receipts[i].proof.wf() by {
                        if i < before.receipts.len() {
                            assert(before.receipts[i].proof.wf());
                        }
                    }
                }
                *self = WasmTransaction {
                    spends,
                    receipts,
                    spent,
                    received: received + note.value as u128,
                    inconsistent,
                };
                Ok(())
            },
        }
    }

    /// Adds the spend of `note` at the place that `witness` gives, given
    /// what the prover returned for it.
    ///
    /// A witness against another tree root than that of the spends already
    /// there is an inconsistent witness, whatever the prover returned: the
    /// transaction keeps its spends and receipts, but it is to be abandoned,
    /// and every later operation on it fails in the same way. Else the
    /// prover's failure is handed on, and the transaction is as it was.
    /// Otherwise the spend is added behind the others, and the balance goes
    /// up by the value of the note.
    pub fn spend(
        &mut self,
        note: &Note,
        witness: &Witness,
        proved: Result<SpendProof, ProofError>,
    ) -> (outcome: Result<(), ProofError>)
        ensures
            old(self)@.wf(),
            final(self)@.wf(),
            outcome == spend_outcome(old(self)@, witness@, proved),
            final(self)@ == spend_effect(old(self)@, note@, witness@, proved),
            outcome is Err ==> {
                &&& final(self)@.spends == old(self)@.spends
                &&& final(self)@.receipts == old(self)@.receipts
            },
            outcome is Ok ==> final(self)@.balance() == old(self)@.balance() + note.value,
    {
        proof {
            use_type_invariant(&*self);
        }
        if self.inconsistent {
            return Err(ProofError::InconsistentWitness);
        }
        if self.spends.len() > 0 && !same_bytes(&self.spends[0].root_hash, &witness.root_hash) {
            self.inconsistent = true;
            return Err(ProofError::InconsistentWitness);
        }
        match proved {
            Err(e) => Err(e),
            Ok(proof) => {
                let spend = Spend {
                    value: note.value,
                    root_hash: copy_bytes(&witness.root_hash),
                    tree_size: witness.tree_size,
                    nullifier: proof.nullifier,
                    proof: proof.proof,
                };
                let mut taken = WasmTransaction::new();
                std::mem::swap(self, &mut taken);
                let WasmTransaction { mut spends, receipts, spent, received, inconsistent } = taken;
                spends.push(spend);
                proof {
                    let before = old(self)@;
                    let after = TransactionView {
                        spends: views(spends@),
                        receipts: views(receipts@),
                        inconsistent,
                    };
                    assert(spend@ == proved_spend(note@, witness@, proof));
                    assert(after.spends == before.spends.push(spend@));
                    assert(after.spend_values() == before.spend_values().push(note.value));
                    lemma_sum_push(before.spend_values(), note.value);
                    assert(after.spend_values().len() == spends.len());
                    lemma_sum_fits(after.spend_values());
                    assert forall|i: int| 0 <= i < after.spends.len() implies (#[trigger] after
                        .spends[i]).root_hash == after.spends[0].root_hash by {
                        if i < before.spends.len() {
                            assert(before.spends[i].root_hash == before.spends[0].root_hash);
                        }
                    }
                }
                *self = WasmTransaction {
                    spends,
                    receipts,
                    spent: spent + note.value as u128,
                    received,
                    inconsistent,
                };
                Ok(())
            },
        }
    }

    /// The note that has to be proved for the change before the transaction
    /// is posted with `intended_transaction_fee`, the change going to
    /// `change_goes_to`.
    ///
    /// Fails with `InconsistentWitness` on a transaction that met one, and
    /// with `VerificationFailed` where the transaction cannot be posted so:
    /// the fee exceeds the balance or cannot be declared, value is left
    /// over and there is no address for it, or what is left does not fit in
    /// one note. Otherwise there is no note where nothing is left, and else
    /// the note that gives what is left to the address.
    pub fn change_note(&self, change_goes_to: Option<Vec<u8>>, intended_transaction_fee: u64) -> (due:
        Result<Option<Note>, ProofError>)
        ensures
            match due {
                Ok(Some(note)) => {
                    &&& !self@.inconsistent
                    &&& change_goes_to is Some
                    &&& self@.postable(true, intended_transaction_fee)
                    &&& self@.change(intended_transaction_fee) > 0
                    &&& note@ == (NoteView {
                        owner: change_goes_to->Some_0@,
                        value: self@.change(intended_transaction_fee) as u64,
                    })
                },
                Ok(None) => {
                    &&& !self@.inconsistent
                    &&& self@.postable(change_goes_to is Some, intended_transaction_fee)
                    &&& self@.change(intended_transaction_fee) == 0
                },
                Err(e) => if self@.inconsistent {
                    e == ProofError::InconsistentWitness
                } else {
                    &&& !self@.postable(change_goes_to is Some, intended_transaction_fee)
                    &&& e == ProofError::VerificationFailed
                },
            },
    {
        if self.inconsistent {
            return Err(ProofError::InconsistentWitness);
        }
        match self.change(change_goes_to.is_some(), intended_transaction_fee) {
            None => Err(ProofError::VerificationFailed),
            Some(change) => {
                if change == 0 {
                    Ok(None)
                } else {
                    match change_goes_to {
                        Some(owner) => Ok(Some(Note { owner, value: change })),
                        None => Err(ProofError::VerificationFailed),
                    }
                }
            },
        }
    }

    /// What is left for the spender when the transaction is posted with
    /// `fee`, where it can be posted so.
    fn change(&self, has_address: bool, fee: u64) -> (change: Option<u64>)
        ensures
            match change {
                Some(left) => self@.postable(has_address, fee) && left == self@.change(fee),
                None => !self@.postable(has_address, fee),
            },
    {
        proof {
            use_type_invariant(self);
        }
        if fee > i64::MAX as u64 || self.received > self.spent {
            return None;
        }
        let surplus: u128 = self.spent - self.received;
        if surplus < fee as u128 {
            return None;
        }
        let left: u128 = surplus - fee as u128;
        if left > u64::MAX as u128 || (left > 0 && !has_address) {
            return None;
        }
        Some(left as u64)
    }

    /// The proofs of the receipts, in order.
    fn receipt_proofs(&self) -> (proofs: Vec<ReceiptProof>)
        ensures
            views(proofs@) == self@.receipt_proofs(),
            forall|i: int| 0 <= i < proofs@.len() ==> (#[trigger] proofs@[i])@.wf(),
    {
        proof {
            use_type_invariant(self);
        }
        let mut proofs: Vec<ReceiptProof> = Vec::new();
        let mut i: usize = 0;
        while i < self.receipts.len()
            invariant
                i <= self.receipts.len(),
                proofs@.len() == i,
                self@.wf(),
                forall|j: int| 0 <= j < i ==> (#[trigger] proofs@[j])@ == self.receipts@[j].proof@,
            decreases self.receipts.len() - i,
        {
            proofs.push(self.receipts[i].proof.duplicate());
            i += 1;
        }
        assert(views(proofs@) == self@.receipt_proofs());
        assert forall|i: int| 0 <= i < proofs@.len() implies (#[trigger] proofs@[i])@.wf() by {
            assert(self@.receipts[i].proof.wf());
        }
        proofs
    }

    /// Posts the transaction with `intended_transaction_fee`, the change
    /// going to `change_goes_to`, given what the prover returned for the
    /// change note and what the signer returned for the whole transaction.
    ///
    /// `change_proved` is the prover's answer for the note that
    /// `change_note` asks for, and is absent where it asks for none;
    /// `signed` is the signer's answer over the spends and the receipts,
    /// that of the change among them. The transaction is used up, whatever
    /// the outcome.
    ///
    /// Fails as `change_note` does, and with `VerificationFailed` where a
    /// proof comes for a change that is not due. Where change is due, a
    /// missing proof is a receipt proof error, the prover's failure is
    /// handed on, and a proof whose note record has not the fixed length is
    /// an I/O error. Then the signer's failure is handed on, and signatures
    /// that do not match the spends one for one are a signing error.
    /// Otherwise the posted transaction holds the spends with their
    /// signatures, the receipts with that of the change behind them, the
    /// binding signature, the fee as declared, and the signed hash.
    pub fn post(
        self,
        change_goes_to: Option<Vec<u8>>,
        intended_transaction_fee: u64,
        change_proved: Option<Result<ReceiptProof, ProofError>>,
        signed: Result<Signatures, ProofError>,
    ) -> (result: Result<WasmTransactionPosted, ProofError>)
        ensures
            match result {
                Ok(posted) => {
                    &&& posted@.wf()
                    &&& post_outcome(
                        self@,
                        change_goes_to is Some,
                        intended_transaction_fee,
                        change_proved,
                        signed,
                    ) == Ok::<PostedView, ProofError>(posted@)
                },
                Err(e) => post_outcome(
                    self@,
                    change_goes_to is Some,
                    intended_transaction_fee,
                    change_proved,
                    signed,
                ) == Err::<PostedView, ProofError>(e),
            },
    {
        if self.inconsistent {
            return Err(ProofError::InconsistentWitness);
        }
        let change = match self.change(change_goes_to.is_some(), intended_transaction_fee) {
            None => {
                return Err(ProofError::VerificationFailed);
            },
            Some(change) => change,
        };
        let mut receipts = self.receipt_proofs();
        if change == 0 {
            if change_proved.is_some() {
                return Err(ProofError::VerificationFailed);
            }
        } else {
            match change_proved {
                None => {
                    return Err(ProofError::ReceiptCircuitProofError);
                },
                Some(Err(e)) => {
                    return Err(e);
                },
                Some(Ok(proof)) => {
                    if proof.merkle_note.len() != NOTE_SIZE {
                        return Err(ProofError::IOError);
                    }
                    receipts.push(proof);
                    assert(views(receipts@) == self@.receipt_proofs().push(proof@));
                },
            }
        }
        assert(views(self.spends@) == self@.spends);
        seal(&self.spends, receipts, intended_transaction_fee as i64, signed)
    }

    /// Posts the transaction as a miner's fee, given what the signer
    /// returned for it. The transaction is used up, whatever the outcome.
    ///
    /// Fails with `InconsistentWitness` on a transaction that met one, and
    /// with `VerificationFailed` where the transaction holds a spend, or
    /// mints more than a fee can declare. Then the signer's failure is
    /// handed on, and a signer that returns a spend signature gives a
    /// signing error. Otherwise the posted transaction holds the receipts,
    /// no spend, and as its fee the value of the receipts, negated.
    pub fn post_miners_fee(self, signed: Result<Signatures, ProofError>) -> (result: Result<
        WasmTransactionPosted,
        ProofError,
    >)
        ensures
            match result {
                Ok(posted) => {
                    &&& posted@.wf()
                    &&& miners_fee_outcome(self@, signed) == Ok::<PostedView, ProofError>(posted@)
                },
                Err(e) => miners_fee_outcome(self@, signed) == Err::<PostedView, ProofError>(e),
            },
            self@.spends.len() > 0 ==> result is Err,
    {
        proof {
            use_type_invariant(&self);
        }
        if self.inconsistent {
            return Err(ProofError::InconsistentWitness);
        }
        if self.spends.len() > 0 || self.received > 0x8000_0000_0000_0000 {
            return Err(ProofError::VerificationFailed);
        }
        let fee: i64 = if self.received == 0x8000_0000_0000_0000 {
            i64::MIN
        } else {
            -(self.received as i64)
        };
        let receipts = self.receipt_proofs();
        assert(views(self.spends@) == self@.spends);
        seal(&self.spends, receipts, fee, signed)
    }
}

impl Default for WasmTransaction {
    /// An empty transaction, as `new` gives it.
    fn default() -> (tx: WasmTransaction)
        ensures
            tx@ == TransactionView::empty(),
            tx@.wf(),
            tx@.balance() == 0,
    {
        WasmTransaction::new()
    }
}

impl Clone for WasmTransaction {
    /// A copy of the transaction.
    fn clone(&self) -> (copy: WasmTransaction)
        ensures
            copy@ == self@,
    {
        proof {
            use_type_invariant(self);
        }
        let mut spends: Vec<Spend> = Vec::new();
        let mut i: usize = 0;
        while i < self.spends.len()
            invariant
                i <= self.spends.len(),
                spends@.len() == i,
                forall|k: int| 0 <= k < i ==> (#[trigger] spends@[k])@ == self.spends@[k]@,
            decreases self.spends.len() - i,
        {
            let spend = &self.spends[i];
            spends.push(
                Spend {
                    value: spend.value,
                    root_hash: copy_bytes(&spend.root_hash),
                    tree_size: spend.tree_size,
                    nullifier: copy_bytes(&spend.nullifier),
                    proof: copy_bytes(&spend.proof),
                },
            );
            i += 1;
        }
        let mut receipts: Vec<Receipt> = Vec::new();
        let mut j: usize = 0;
        while j < self.receipts.len()
            invariant
                j <= self.receipts.len(),
                receipts@.len() == j,
                forall|k: int| 0 <= k < j ==> (#[trigger] receipts@[k])@ == self.receipts@[k]@,
            decreases self.receipts.len() - j,
        {
            let receipt = &self.receipts[j];
            receipts.push(
                Receipt {
                    note: Note { owner: copy_bytes(&receipt.note.owner), value: receipt.note.value },
                    proof: receipt.proof.duplicate(),
                },
            );
            j += 1;
        }
        assert(views(spends@) == views(self.spends@));
        assert(views(receipts@) == views(self.receipts@));
        WasmTransaction {
            spends,
            receipts,
            spent: self.spent,
            received: self.received,
            inconsistent: self.inconsistent,
        }
    }
}

} // verus!
