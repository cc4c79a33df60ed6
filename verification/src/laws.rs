//! What holds of every transaction, whatever the prover and the signer
//! return: the value balance of a posting, that a failure changes nothing,
//! that a miner's fee has no spend, and that encoding and decoding undo
//! each other.

use vstd::prelude::*;

use crate::codec::{encodable, frame, lemma_frame_parse, lemma_parse_frame, parse};
use crate::errors::ProofError;
use crate::posted::PostedView;
use crate::records::{NoteView, ReceiptProof, Signatures, SpendProof, WitnessView};
use crate::transaction::{
    change_note_due, miners_fee_outcome, post_outcome, receive_effect, receive_outcome,
    spend_effect, spend_outcome, TransactionView,
};

verus! {

/// The value balance. Where a posting succeeds, what is spent, less what is
/// received, less the fee, less the change, is nothing, and the change is
/// not negative. The posted transaction declares the fee that was intended
/// and holds every spend. Where there is no change, it holds the receipts
/// as they were. Where there is change, the note that is due for it gives
/// exactly the change to the address named for it, and the posted
/// transaction holds, behind the receipts as they were, the proof that was
/// handed in for that note.
pub proof fn lemma_post_balances(
    tx: TransactionView,
    change_goes_to: Option<Seq<u8>>,
    fee: u64,
    change_proved: Option<Result<ReceiptProof, ProofError>>,
    signed: Result<Signatures, ProofError>,
)
    requires
        post_outcome(tx, change_goes_to is Some, fee, change_proved, signed) is Ok,
    ensures
        ({
            let change = tx.change(fee);
            let posted = post_outcome(tx, change_goes_to is Some, fee, change_proved, signed)->Ok_0;
            &&& change >= 0
            &&& tx.spent() - tx.received() - fee - change == 0
            &&& posted.transaction_fee == fee
            &&& posted.spends.len() == tx.spends.len()
            &&& change == 0 ==> {
                &&& change_note_due(tx, change_goes_to, fee) is None
                &&& posted.receipts == tx.receipt_proofs()
            }
            &&& change > 0 ==> {
                &&& change_goes_to is Some
                &&& change_note_due(tx, change_goes_to, fee) == Some(
                    NoteView { owner: change_goes_to->Some_0, value: change as u64 },
                )
                &&& change_proved matches Some(Ok(proof))
                &&& posted.receipts == tx.receipt_proofs().push(proof@)
                &&& posted.receipts.len() == tx.receipts.len() + 1
            }
        }),
{
}

/// A posting keeps well-formed receipts well formed.
pub proof fn lemma_post_well_formed(
    tx: TransactionView,
    has_address: bool,
    fee: u64,
    change_proved: Option<Result<ReceiptProof, ProofError>>,
    signed: Result<Signatures, ProofError>,
)
    requires
        tx.wf(),
        post_outcome(tx, has_address, fee, change_proved, signed) is Ok,
    ensures
        post_outcome(tx, has_address, fee, change_proved, signed)->Ok_0.wf(),
{
    let posted = post_outcome(tx, has_address, fee, change_proved, signed)->Ok_0;
    assert forall|i: int| 0 <= i < posted.receipts.len() implies (#[trigger] posted.receipts[i]).wf() by {
        if i < tx.receipts.len() {
            assert(tx.receipts[i].proof.wf());
        }
    }
}

/// A spend that fails leaves the spends and the receipts as they were, and
/// one that succeeds adds one spend and no receipt.
pub proof fn lemma_spend_all_or_nothing(
    tx: TransactionView,
    note: NoteView,
    witness: WitnessView,
    proved: Result<SpendProof, ProofError>,
)
    ensures
        spend_outcome(tx, witness, proved) is Err ==> {
            &&& spend_effect(tx, note, witness, proved).spends == tx.spends
            &&& spend_effect(tx, note, witness, proved).receipts == tx.receipts
        },
        spend_outcome(tx, witness, proved) is Ok ==> {
            &&& spend_effect(tx, note, witness, proved).spends.len() == tx.spends.len() + 1
            &&& spend_effect(tx, note, witness, proved).receipts == tx.receipts
        },
{
}

/// A receipt that fails leaves the transaction as it was, and one that
/// succeeds adds one receipt and no spend.
pub proof fn lemma_receive_all_or_nothing(
    tx: TransactionView,
    note: NoteView,
    proved: Result<ReceiptProof, ProofError>,
)
    ensures
        receive_outcome(tx, proved) is Err ==> receive_effect(tx, note, proved) == tx,
        receive_outcome(tx, proved) is Ok ==> {
            &&& receive_effect(tx, note, proved).receipts.len() == tx.receipts.len() + 1
            &&& receive_effect(tx, note, proved).spends == tx.spends
        },
{
}

/// A spend against another tree root than that of the spends already there
/// is refused as an inconsistent witness, whatever the prover returned, and
/// the transaction can then be posted no more, whatever the prover and the
/// signer return.
pub proof fn lemma_inconsistent_witness(
    tx: TransactionView,
    note: NoteView,
    witness: WitnessView,
    proved: Result<SpendProof, ProofError>,
    has_address: bool,
    fee: u64,
    change_proved: Option<Result<ReceiptProof, ProofError>>,
    signed: Result<Signatures, ProofError>,
)
    requires
        tx.spends.len() > 0,
        tx.spends[0].root_hash != witness.root_hash,
    ensures
        spend_outcome(tx, witness, proved) == Err::<(), ProofError>(
            ProofError::InconsistentWitness,
        ),
        post_outcome(
            spend_effect(tx, note, witness, proved),
            has_address,
            fee,
            change_proved,
            signed,
        ) == Err::<PostedView, ProofError>(ProofError::InconsistentWitness),
        miners_fee_outcome(spend_effect(tx, note, witness, proved), signed) == Err::<
            PostedView,
            ProofError,
        >(ProofError::InconsistentWitness),
{
}

/// A miner's fee has no spend. Posting one fails on a transaction that
/// holds a spend; where it succeeds, the posted transaction holds no spend
/// and the receipts as they were, and declares as its fee the value of the
/// receipts, negated.
pub proof fn lemma_miners_fee_has_no_spend(tx: TransactionView, signed: Result<Signatures, ProofError>)
    ensures
        tx.spends.len() > 0 ==> miners_fee_outcome(tx, signed) is Err,
        miners_fee_outcome(tx, signed) is Ok ==> ({
            let posted = miners_fee_outcome(tx, signed)->Ok_0;
            &&& tx.spends.len() == 0
            &&& posted.spends.len() == 0
            &&& posted.receipts == tx.receipt_proofs()
            &&& posted.transaction_fee == -tx.received()
            &&& posted.transaction_fee <= 0
        }),
{
}

/// The round trip. The encoding of a posted transaction is decoded to that
/// transaction, and encoding what was decoded gives the same bytes again.
pub proof fn lemma_round_trip(posted: PostedView)
    requires
        encodable(posted),
    ensures
        parse(frame(posted)) == Some(posted),
        frame(parse(frame(posted))->Some_0) == frame(posted),
{
    lemma_parse_frame(posted);
}

/// No two posted transactions share an encoding.
pub proof fn lemma_frame_is_injective(first: PostedView, second: PostedView)
    requires
        encodable(first),
        encodable(second),
        frame(first) == frame(second),
    ensures
        first == second,
{
    lemma_parse_frame(first);
    lemma_parse_frame(second);
}

/// Bytes that differ stand for transactions that differ: where a byte of an
/// encoding is changed and the bytes still decode, they decode to another
/// transaction than before.
pub proof fn lemma_changed_bytes_change_the_transaction(before: Seq<u8>, after: Seq<u8>)
    requires
        parse(before) is Some,
        parse(after) is Some,
        before != after,
    ensures
        parse(before) != parse(after),
{
    lemma_frame_parse(before);
    lemma_frame_parse(after);
}

/// Bytes that decode are the encoding of what they decode to.
pub proof fn lemma_decoded_bytes_are_canonical(bytes: Seq<u8>)
    requires
        parse(bytes) is Some,
    ensures
        frame(parse(bytes)->Some_0) == bytes,
{
    lemma_frame_parse(bytes);
}

} // verus!
