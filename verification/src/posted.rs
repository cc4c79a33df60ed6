//! The posted transaction: proved, signed, and never changed again.

use vstd::prelude::*;

use crate::codec::{
    decode, encodable, encode, frame, lemma_frame_parse, lemma_parse_frame, parse,
    receipt_encodable, spend_encodable,
};
use crate::errors::ProofError;
use crate::records::{
    copy_bytes, views, PostedSpend, PostedSpendView, ReceiptProof, ReceiptProofView, NOTE_SIZE,
};

verus! {

/// A posted transaction: its signed spends and its proved receipts in their
/// order, the binding signature, the declared fee, and the hash that was
/// signed.
#[derive(Debug, PartialEq, Eq)]
pub struct WasmTransactionPosted {
    pub(crate) spends: Vec<PostedSpend>,
    pub(crate) receipts: Vec<ReceiptProof>,
    pub(crate) binding_signature: Vec<u8>,
    pub(crate) transaction_fee: i64,
    pub(crate) signature_hash: Vec<u8>,
}

/// A posted transaction, as contracts see it.
pub struct PostedView {
    pub spends: Seq<PostedSpendView>,
    pub receipts: Seq<ReceiptProofView>,
    pub binding_signature: Seq<u8>,
    pub transaction_fee: i64,
    pub signature_hash: Seq<u8>,
}

impl PostedView {
    /// Every receipt holds a note record of the fixed length.
    pub open spec fn wf(self) -> bool {
        forall|i: int| 0 <= i < self.receipts.len() ==> (#[trigger] self.receipts[i]).wf()
    }
}

impl View for WasmTransactionPosted {
    type V = PostedView;

    closed spec fn view(&self) -> PostedView {
        PostedView {
            spends: views(self.spends@),
            receipts: views(self.receipts@),
            binding_signature: self.binding_signature@,
            transaction_fee: self.transaction_fee,
            signature_hash: self.signature_hash@,
        }
    }
}

impl WasmTransactionPosted {
    /// Every receipt of a posted transaction holds a note record of the
    /// fixed length.
    #[verifier::type_invariant]
    spec fn well_formed(self) -> bool {
        self@.wf()
    }

    /// The transaction made of the given parts.
    pub(crate) fn assemble(
        spends: Vec<PostedSpend>,
        receipts: Vec<ReceiptProof>,
        binding_signature: Vec<u8>,
        transaction_fee: i64,
        signature_hash: Vec<u8>,
    ) -> (posted: WasmTransactionPosted)
        requires
            forall|i: int| 0 <= i < receipts@.len() ==> (#[trigger] receipts@[i])@.wf(),
        ensures
            posted@ == (PostedView {
                spends: views(spends@),
                receipts: views(receipts@),
                binding_signature: binding_signature@,
                transaction_fee,
                signature_hash: signature_hash@,
            }),
    {
        WasmTransactionPosted {
            spends,
            receipts,
            binding_signature,
            transaction_fee,
            signature_hash,
        }
    }

    /// A transaction that a machine holds has an encoding as soon as it is
    /// well formed.
    pub proof fn lemma_encodable(&self)
        requires
            self@.wf(),
        ensures
            encodable(self@),
    {
        let posted = self@;
        assert(self.spends.len() <= usize::MAX);
        assert(self.receipts.len() <= usize::MAX);
        assert(self.binding_signature.len() <= usize::MAX);
        assert(self.signature_hash.len() <= usize::MAX);
        assert forall|i: int| 0 <= i < posted.spends.len() implies spend_encodable(
            #[trigger] posted.spends[i],
        ) by {
            let spend = self.spends@[i];
            assert(spend.root_hash.len() <= usize::MAX);
            assert(spend.nullifier.len() <= usize::MAX);
            assert(spend.proof.len() <= usize::MAX);
            assert(spend.authorizing_signature.len() <= usize::MAX);
        }
        assert forall|i: int| 0 <= i < posted.receipts.len() implies receipt_encodable(
            #[trigger] posted.receipts[i],
        ) by {
            let receipt = self.receipts@[i];
            assert(receipt.proof.len() <= usize::MAX);
        }
    }

    /// The transaction that `bytes` stand for.
    ///
    /// Succeeds exactly on the encodings of posted transactions, and then
    /// gives the one transaction that is encoded so. Bytes that are cut
    /// short, that go on behind the transaction, or that are no encoding
    /// for another reason, are an I/O error.
    pub fn deserialize(bytes: &[u8]) -> (result: Result<WasmTransactionPosted, ProofError>)
        ensures
            match result {
                Ok(posted) => {
                    &&& parse(bytes@) == Some(posted@)
                    &&& frame(posted@) == bytes@
                    &&& encodable(posted@)
                },
                Err(e) => {
                    &&& e == ProofError::IOError
                    &&& parse(bytes@) is None
                    &&& forall|posted: PostedView|
                        encodable(posted) ==> #[trigger] frame(posted) != bytes@
                },
            },
    {
        match decode(bytes) {
            Some(posted) => {
                proof {
                    lemma_frame_parse(bytes@);
                }
                Ok(posted)
            },
            None => {
                proof {
                    assert forall|posted: PostedView| encodable(posted) implies #[trigger] frame(
                        posted,
                    ) != bytes@ by {
                        if frame(posted) == bytes@ {
                            lemma_parse_frame(posted);
                        }
                    }
                }
                Err(ProofError::IOError)
            },
        }
    }

    /// The encoding of the transaction. Decoding it gives the transaction
    /// back.
    pub fn serialize(&self) -> (bytes: Vec<u8>)
        ensures
            bytes@ == frame(self@),
            parse(bytes@) == Some(self@),
            encodable(self@),
    {
        proof {
            use_type_invariant(self);
            self.lemma_encodable();
            lemma_parse_frame(self@);
        }
        encode(
            &self.spends,
            &self.receipts,
            &self.binding_signature,
            self.transaction_fee,
            &self.signature_hash,
        )
    }

    /// Whether the transaction is valid, given what the cryptographic check
    /// of its proofs and of its binding signature ended in: valid when the
    /// check passed, invalid whatever the failure was.
    pub fn verify(&self, checked: &Result<(), ProofError>) -> (valid: bool)
        ensures
            valid == (*checked is Ok),
    {
        match checked {
            Ok(_) => true,
            Err(_) => false,
        }
    }

    /// The number of receipts.
    pub fn notes_length(&self) -> (count: usize)
        ensures
            count == self@.receipts.len(),
    {
        self.receipts.len()
    }

    /// The public record of the note of the receipt at `index`.
    pub fn get_note(&self, index: usize) -> (note: Vec<u8>)
        requires
            index < self@.receipts.len(),
        ensures
            note@ == self@.receipts[index as int].merkle_note,
            note@.len() == NOTE_SIZE,
    {
        proof {
            use_type_invariant(self);
        }
        assert(self@.receipts[index as int].wf());
        copy_bytes(&self.receipts[index].merkle_note)
    }

    /// The receipt at `index`: the note record and the proof.
    pub fn get_receipt(&self, index: usize) -> (receipt: ReceiptProof)
        requires
            index < self@.receipts.len(),
        ensures
            receipt@ == self@.receipts[index as int],
            receipt@.wf(),
    {
        proof {
            use_type_invariant(self);
        }
        assert(self@.receipts[index as int].wf());
        self.receipts[index].duplicate()
    }

    /// The number of spends.
    pub fn spends_length(&self) -> (count: usize)
        ensures
            count == self@.spends.len(),
    {
        self.spends.len()
    }

    /// The spend at `index`.
    pub fn get_spend(&self, index: usize) -> (spend: PostedSpend)
        requires
            index < self@.spends.len(),
        ensures
            spend@ == self@.spends[index as int],
    {
        self.spends[index].duplicate()
    }

    /// The declared fee. It is negative only where the transaction mints
    /// value.
    pub fn transaction_fee(&self) -> (fee: i64)
        ensures
            fee == self@.transaction_fee,
    {
        self.transaction_fee
    }

    /// The binding signature.
    pub fn transaction_signature(&self) -> (signature: Vec<u8>)
        ensures
            signature@ == self@.binding_signature,
    {
        copy_bytes(&self.binding_signature)
    }

    /// The hash that was signed.
    pub fn transaction_hash(&self) -> (hash: Vec<u8>)
        ensures
            hash@ == self@.signature_hash,
    {
        copy_bytes(&self.signature_hash)
    }
}

impl Clone for WasmTransactionPosted {
    /// A copy of the transaction.
    fn clone(&self) -> (copy: WasmTransactionPosted)
        ensures
            copy@ == self@,
    {
        proof {
            use_type_invariant(self);
        }
        let mut spends: Vec<PostedSpend> = Vec::new();
        let mut i: usize = 0;
        while i < self.spends.len()
            invariant
                i <= self.spends.len(),
                spends@.len() == i,
                forall|k: int| 0 <= k < i ==> (#[trigger] spends@[k])@ == self.spends@[k]@,
            decreases self.spends.len() - i,
        {
            spends.push(self.spends[i].duplicate());
            i += 1;
        }
        let mut receipts: Vec<ReceiptProof> = Vec::new();
        let mut j: usize = 0;
        while j < self.receipts.len()
            invariant
                j <= self.receipts.len(),
                receipts@.len() == j,
                forall|k: int| 0 <= k < j ==> (#[trigger] receipts@[k])@ == self.receipts@[k]@,
            decreases self.receipts.len() - j,
        {
            receipts.push(self.receipts[j].duplicate());
            j += 1;
        }
        assert(views(spends@) == views(self.spends@));
        assert(views(receipts@) == views(self.receipts@));
        assert forall|k: int| 0 <= k < receipts@.len() implies (#[trigger] receipts@[k])@.wf() by {
            assert(self@.receipts[k].wf());
        }
        WasmTransactionPosted::assemble(
            spends,
            receipts,
            copy_bytes(&self.binding_signature),
            self.transaction_fee,
            copy_bytes(&self.signature_hash),
        )
    }
}

} // verus!
