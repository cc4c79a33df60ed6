//! The plain values that a transaction is made of: notes and witnesses as
//! the builder reads them, what the prover and the signer return, and the
//! signed spend that a posted transaction holds. Each has a view over
//! sequences of bytes, and the contracts of this library speak of the views.

use vstd::prelude::*;

verus! {

/// The length in bytes of the public record of a note.
pub const NOTE_SIZE: usize = 275;

/// A note as the builder reads it: who owns it and what it is worth.
#[derive(Clone, Debug, PartialEq, Eq)]
pub struct Note {
    /// The public address of the owner.
    pub owner: Vec<u8>,
    /// The value that the note carries.
    pub value: u64,
}

/// A note, as contracts see it.
pub struct NoteView {
    pub owner: Seq<u8>,
    pub value: u64,
}

impl View for Note {
    type V = NoteView;

    open spec fn view(&self) -> NoteView {
        NoteView { owner: self.owner@, value: self.value }
    }
}

/// Where a witness places a note: the root of the tree that it authenticates
/// against, and the size of that tree.
#[derive(Clone, Debug, PartialEq, Eq)]
pub struct Witness {
    pub root_hash: Vec<u8>,
    pub tree_size: u32,
}

/// A witness, as contracts see it.
pub struct WitnessView {
    pub root_hash: Seq<u8>,
    pub tree_size: u32,
}

impl View for Witness {
    type V = WitnessView;

    open spec fn view(&self) -> WitnessView {
        WitnessView { root_hash: self.root_hash@, tree_size: self.tree_size }
    }
}

/// What the prover returns for a spend: the nullifier of the spent note and
/// the proof.
#[derive(Clone, Debug, PartialEq, Eq)]
pub struct SpendProof {
    pub nullifier: Vec<u8>,
    pub proof: Vec<u8>,
}

/// What the prover returns for a spend, as contracts see it.
pub struct SpendProofView {
    pub nullifier: Seq<u8>,
    pub proof: Seq<u8>,
}

impl View for SpendProof {
    type V = SpendProofView;

    open spec fn view(&self) -> SpendProofView {
        SpendProofView { nullifier: self.nullifier@, proof: self.proof@ }
    }
}

/// What the prover returns for a receipt: the public record of the new note
/// and the proof.
#[derive(Clone, Debug, PartialEq, Eq)]
pub struct ReceiptProof {
    pub merkle_note: Vec<u8>,
    pub proof: Vec<u8>,
}

/// What the prover returns for a receipt, as contracts see it.
pub struct ReceiptProofView {
    pub merkle_note: Seq<u8>,
    pub proof: Seq<u8>,
}

impl ReceiptProofView {
    /// The public record of the note has its fixed length.
    pub open spec fn wf(self) -> bool {
        self.merkle_note.len() == NOTE_SIZE
    }
}

impl View for ReceiptProof {
    type V = ReceiptProofView;

    open spec fn view(&self) -> ReceiptProofView {
        ReceiptProofView { merkle_note: self.merkle_note@, proof: self.proof@ }
    }
}

/// What the signer returns: one authorizing signature for each spend, in the
/// order of the spends, the binding signature over the whole transaction,
/// and the hash that was signed.
#[derive(Clone, Debug, PartialEq, Eq)]
pub struct Signatures {
    pub spend_signatures: Vec<Vec<u8>>,
    pub binding_signature: Vec<u8>,
    pub signature_hash: Vec<u8>,
}

/// What the signer returns, as contracts see it.
pub struct SignaturesView {
    pub spend_signatures: Seq<Seq<u8>>,
    pub binding_signature: Seq<u8>,
    pub signature_hash: Seq<u8>,
}

impl View for Signatures {
    type V = SignaturesView;

    open spec fn view(&self) -> SignaturesView {
        SignaturesView {
            spend_signatures: Seq::new(
                self.spend_signatures@.len(),
                |i: int| self.spend_signatures@[i]@,
            ),
            binding_signature: self.binding_signature@,
            signature_hash: self.signature_hash@,
        }
    }
}

/// A spend as a posted transaction holds it: proved and signed.
#[derive(Clone, Debug, PartialEq, Eq)]
pub struct PostedSpend {
    pub root_hash: Vec<u8>,
    pub tree_size: u32,
    pub nullifier: Vec<u8>,
    pub proof: Vec<u8>,
    pub authorizing_signature: Vec<u8>,
}

/// A signed spend, as contracts see it.
pub struct PostedSpendView {
    pub root_hash: Seq<u8>,
    pub tree_size: u32,
    pub nullifier: Seq<u8>,
    pub proof: Seq<u8>,
    pub authorizing_signature: Seq<u8>,
}

impl View for PostedSpend {
    type V = PostedSpendView;

    open spec fn view(&self) -> PostedSpendView {
        PostedSpendView {
            root_hash: self.root_hash@,
            tree_size: self.tree_size,
            nullifier: self.nullifier@,
            proof: self.proof@,
            authorizing_signature: self.authorizing_signature@,
        }
    }
}

/// The views of the items of a sequence, in order.
pub open spec fn views<T: View>(items: Seq<T>) -> Seq<T::V> {
    Seq::new(items.len(), |i: int| items[i]@)
}

/// A copy of a byte vector.
pub fn copy_bytes(bytes: &Vec<u8>) -> (copy: Vec<u8>)
    ensures
        copy@ == bytes@,
{
    let mut copy: Vec<u8> = Vec::new();
    let mut i: usize = 0;
    while i < bytes.len()
        invariant
            i <= bytes.len(),
            copy@ == bytes@.subrange(0, i as int),
        decreases bytes.len() - i,
    {
        copy.push(bytes[i]);
        i += 1;
    }
    assert(bytes@.subrange(0, bytes.len() as int) == bytes@);
    copy
}

/// Whether two byte vectors hold the same bytes.
pub fn same_bytes(a: &Vec<u8>, b: &Vec<u8>) -> (same: bool)
    ensures
        same == (a@ == b@),
{
    if a.len() != b.len() {
        return false;
    }
    let mut i: usize = 0;
    while i < a.len()
        invariant
            i <= a.len(),
            a.len() == b.len(),
            a@.subrange(0, i as int) == b@.subrange(0, i as int),
        decreases a.len() - i,
    {
        if a[i] != b[i] {
            return false;
        }
        assert(a@.subrange(0, i + 1) == a@.subrange(0, i as int).push(a@[i as int]));
        assert(b@.subrange(0, i + 1) == b@.subrange(0, i as int).push(b@[i as int]));
        i += 1;
    }
    assert(a@.subrange(0, a.len() as int) == a@);
    assert(b@.subrange(0, b.len() as int) == b@);
    true
}

impl ReceiptProof {
    /// A copy of this proof.
    pub fn duplicate(&self) -> (copy: ReceiptProof)
        ensures
            copy@ == self@,
    {
        ReceiptProof {
            merkle_note: copy_bytes(&self.merkle_note),
            proof: copy_bytes(&self.proof),
        }
    }
}

impl PostedSpend {
    /// A copy of this spend.
    pub fn duplicate(&self) -> (copy: PostedSpend)
        ensures
            copy@ == self@,
    {
        PostedSpend {
            root_hash: copy_bytes(&self.root_hash),
            tree_size: self.tree_size,
            nullifier: copy_bytes(&self.nullifier),
            proof: copy_bytes(&self.proof),
            authorizing_signature: copy_bytes(&self.authorizing_signature),
        }
    }
}

} // verus!
