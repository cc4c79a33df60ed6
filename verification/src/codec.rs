//! The binary encoding of a posted transaction.
//!
//! All integers are little-endian. A *blob* is a byte string behind its
//! length as a 64-bit integer. The frame is, in this order:
//!
//! - the format version, one byte;
//! - the number of spends as a 64-bit integer, then each spend: the blob of
//!   its tree root, the tree size as a 32-bit integer, and the blobs of its
//!   nullifier, its proof and its authorizing signature;
//! - the number of receipts as a 64-bit integer, then each receipt: the note
//!   record of 275 bytes and the blob of its proof;
//! - the blob of the binding signature;
//! - the fee as a 64-bit integer in two's complement;
//! - the blob of the signed hash.
//!
//! Nothing may follow the frame. Each posted transaction has one encoding,
//! and each encoding stands for one posted transaction.

use vstd::bytes::{
    spec_u32_from_le_bytes, spec_u32_to_le_bytes, spec_u64_from_le_bytes, spec_u64_to_le_bytes,
    u32_from_le_bytes, u32_to_le_bytes, u64_from_le_bytes, u64_to_le_bytes,
};
use vstd::prelude::*;
use vstd::slice::{slice_subrange, slice_to_vec};

use crate::posted::{PostedView, WasmTransactionPosted};
use crate::records::{
    views, PostedSpend, PostedSpendView, ReceiptProof, ReceiptProofView, NOTE_SIZE,
};

verus! {

/// The version of the format.
pub const FORMAT_VERSION: u8 = 1;

/// A fee as the 64-bit word that stands for it in two's complement.
pub open spec fn fee_word(fee: i64) -> u64 {
    if fee >= 0 {
        fee as u64
    } else {
        (fee + 0x1_0000_0000_0000_0000) as u64
    }
}

/// The fee that a 64-bit word stands for in two's complement.
pub open spec fn word_fee(word: u64) -> i64 {
    if word < 0x8000_0000_0000_0000 {
        word as i64
    } else {
        (word - 0x1_0000_0000_0000_0000) as i64
    }
}

/// A byte string behind its length.
pub open spec fn blob(bytes: Seq<u8>) -> Seq<u8> {
    spec_u64_to_le_bytes(bytes.len() as u64) + bytes
}

/// The encoding of a spend.
pub open spec fn spend_bytes(spend: PostedSpendView) -> Seq<u8> {
    blob(spend.root_hash) + spec_u32_to_le_bytes(spend.tree_size) + blob(spend.nullifier) + blob(
        spend.proof,
    ) + blob(spend.authorizing_signature)
}

/// The encodings of spends, one behind the other.
pub open spec fn spends_bytes(spends: Seq<PostedSpendView>) -> Seq<u8>
    decreases spends.len(),
{
    if spends.len() == 0 {
        Seq::empty()
    } else {
        spend_bytes(spends[0]) + spends_bytes(spends.drop_first())
    }
}

/// The encoding of a receipt.
pub open spec fn receipt_bytes(receipt: ReceiptProofView) -> Seq<u8> {
    receipt.merkle_note + blob(receipt.proof)
}

/// The encodings of receipts, one behind the other.
pub open spec fn receipts_bytes(receipts: Seq<ReceiptProofView>) -> Seq<u8>
    decreases receipts.len(),
{
    if receipts.len() == 0 {
        Seq::empty()
    } else {
        receipt_bytes(receipts[0]) + receipts_bytes(receipts.drop_first())
    }
}

/// The encoding of a posted transaction.
pub open spec fn frame(posted: PostedView) -> Seq<u8> {
    seq![FORMAT_VERSION] + spec_u64_to_le_bytes(posted.spends.len() as u64) + spends_bytes(
        posted.spends,
    ) + spec_u64_to_le_bytes(posted.receipts.len() as u64) + receipts_bytes(posted.receipts)
        + blob(posted.binding_signature) + spec_u64_to_le_bytes(fee_word(posted.transaction_fee))
        + blob(posted.signature_hash)
}

/// Whether the lengths of a spend can be written down.
pub open spec fn spend_encodable(spend: PostedSpendView) -> bool {
    &&& spend.root_hash.len() <= u64::MAX
    &&& spend.nullifier.len() <= u64::MAX
    &&& spend.proof.len() <= u64::MAX
    &&& spend.authorizing_signature.len() <= u64::MAX
}

/// Whether a receipt can be written down: its note record has the fixed
/// length, and the length of its proof fits.
pub open spec fn receipt_encodable(receipt: ReceiptProofView) -> bool {
    &&& receipt.wf()
    &&& receipt.proof.len() <= u64::MAX
}

/// Whether a posted transaction has an encoding: every note record has the
/// fixed length, and every count and length fits in 64 bits. This holds of
/// every well-formed transaction that a machine can hold.
pub open spec fn encodable(posted: PostedView) -> bool {
    &&& posted.spends.len() <= u64::MAX
    &&& posted.receipts.len() <= u64::MAX
    &&& posted.binding_signature.len() <= u64::MAX
    &&& posted.signature_hash.len() <= u64::MAX
    &&& forall|i: int| 0 <= i < posted.spends.len() ==> spend_encodable(#[trigger] posted.spends[i])
    &&& forall|i: int|
        0 <= i < posted.receipts.len() ==> receipt_encodable(#[trigger] posted.receipts[i])
}

/// The 64-bit integer at `at`, and where it ends.
pub open spec fn read_u64(bytes: Seq<u8>, at: int) -> Option<(u64, int)> {
    if 0 <= at && at + 8 <= bytes.len() {
        Some((spec_u64_from_le_bytes(bytes.subrange(at, at + 8)), at + 8))
    } else {
        None
    }
}

/// The 32-bit integer at `at`, and where it ends.
pub open spec fn read_u32(bytes: Seq<u8>, at: int) -> Option<(u32, int)> {
    if 0 <= at && at + 4 <= bytes.len() {
        Some((spec_u32_from_le_bytes(bytes.subrange(at, at + 4)), at + 4))
    } else {
        None
    }
}

/// The blob at `at`, and where it ends.
pub open spec fn read_blob(bytes: Seq<u8>, at: int) -> Option<(Seq<u8>, int)> {
    match read_u64(bytes, at) {
        Some((length, start)) => if start + length <= bytes.len() {
            Some((bytes.subrange(start, start + length), start + length))
        } else {
            None
        },
        None => None,
    }
}

/// The note record at `at`, and where it ends.
pub open spec fn read_note(bytes: Seq<u8>, at: int) -> Option<(Seq<u8>, int)> {
    if 0 <= at && at + NOTE_SIZE <= bytes.len() {
        Some((bytes.subrange(at, at + NOTE_SIZE), at + NOTE_SIZE))
    } else {
        None
    }
}

/// The spend at `at`, and where it ends.
pub open spec fn read_spend(bytes: Seq<u8>, at: int) -> Option<(PostedSpendView, int)> {
    match read_blob(bytes, at) {
        Some((root_hash, p1)) => match read_u32(bytes, p1) {
            Some((tree_size, p2)) => match read_blob(bytes, p2) {
                Some((nullifier, p3)) => match read_blob(bytes, p3) {
                    Some((proof, p4)) => match read_blob(bytes, p4) {
                        Some((authorizing_signature, p5)) => Some(
                            (
                                PostedSpendView {
                                    root_hash,
                                    tree_size,
                                    nullifier,
                                    proof,
                                    authorizing_signature,
                                },
                                p5,
                            ),
                        ),
                        None => None,
                    },
                    None => None,
                },
                None => None,
            },
            None => None,
        },
        None => None,
    }
}

/// The `count` spends from `at` on, and where they end.
pub open spec fn read_spends(bytes: Seq<u8>, at: int, count: nat) -> Option<
    (Seq<PostedSpendView>, int),
>
    decreases count,
{
    if count == 0 {
        Some((Seq::empty(), at))
    } else {
        match read_spend(bytes, at) {
            Some((spend, next)) => match read_spends(bytes, next, (count - 1) as nat) {
                Some((rest, end)) => Some((seq![spend] + rest, end)),
                None => None,
            },
            None => None,
        }
    }
}

/// The receipt at `at`, and where it ends.
pub open spec fn read_receipt(bytes: Seq<u8>, at: int) -> Option<(ReceiptProofView, int)> {
    match read_note(bytes, at) {
        Some((merkle_note, p1)) => match read_blob(bytes, p1) {
            Some((proof, p2)) => Some((ReceiptProofView { merkle_note, proof }, p2)),
            None => None,
        },
        None => None,
    }
}

/// The `count` receipts from `at` on, and where they end.
pub open spec fn read_receipts(bytes: Seq<u8>, at: int, count: nat) -> Option<
    (Seq<ReceiptProofView>, int),
>
    decreases count,
{
    if count == 0 {
        Some((Seq::empty(), at))
    } else {
        match read_receipt(bytes, at) {
            Some((receipt, next)) => match read_receipts(bytes, next, (count - 1) as nat) {
                Some((rest, end)) => Some((seq![receipt] + rest, end)),
                None => None,
            },
            None => None,
        }
    }
}

/// What follows the version byte of a frame, read to the end of the bytes.
pub open spec fn read_body(bytes: Seq<u8>) -> Option<PostedView> {
    match read_u64(bytes, 1) {
        Some((spend_count, p1)) => match read_spends(bytes, p1, spend_count as nat) {
            Some((spends, p2)) => match read_u64(bytes, p2) {
                Some((receipt_count, p3)) => match read_receipts(bytes, p3, receipt_count as nat) {
                    Some((receipts, p4)) => match read_blob(bytes, p4) {
                        Some((binding_signature, p5)) => match read_u64(bytes, p5) {
                            Some((word, p6)) => match read_blob(bytes, p6) {
                                Some((signature_hash, p7)) => if p7 == bytes.len() {
                                    Some(
                                        PostedView {
                                            spends,
                                            receipts,
                                            binding_signature,
                                            transaction_fee: word_fee(word),
                                            signature_hash,
                                        },
                                    )
                                } else {
                                    None
                                },
                                None => None,
                            },
                            None => None,
                        },
                        None => None,
                    },
                    None => None,
                },
                None => None,
            },
            None => None,
        },
        None => None,
    }
}

/// The posted transaction that bytes stand for, if they are a frame.
pub open spec fn parse(bytes: Seq<u8>) -> Option<PostedView> {
    if bytes.len() >= 1 && bytes[0] == FORMAT_VERSION {
        read_body(bytes)
    } else {
        None
    }
}

/// The word that stands for a fee.
fn word_of_fee(fee: i64) -> (word: u64)
    ensures
        word == fee_word(fee),
{
    if fee >= 0 {
        fee as u64
    } else {
        u64::MAX - ((-(fee + 1)) as u64)
    }
}

/// The fee that a word stands for.
fn fee_of_word(word: u64) -> (fee: i64)
    ensures
        fee == word_fee(word),
{
    if word < 0x8000_0000_0000_0000 {
        word as i64
    } else {
        -((u64::MAX - word) as i64) - 1
    }
}

fn put_u64(out: &mut Vec<u8>, value: u64)
    ensures
        final(out)@ == old(out)@ + spec_u64_to_le_bytes(value),
{
    let mut word = u64_to_le_bytes(value);
    out.append(&mut word);
}

fn put_u32(out: &mut Vec<u8>, value: u32)
    ensures
        final(out)@ == old(out)@ + spec_u32_to_le_bytes(value),
{
    let mut word = u32_to_le_bytes(value);
    out.append(&mut word);
}

fn put_bytes(out: &mut Vec<u8>, bytes: &Vec<u8>)
    ensures
        final(out)@ == old(out)@ + bytes@,
{
    let mut i: usize = 0;
    while i < bytes.len()
        invariant
            i <= bytes.len(),
            out@ == old(out)@ + bytes@.subrange(0, i as int),
        decreases bytes.len() - i,
    {
        out.push(bytes[i]);
        i += 1;
    }
    assert(bytes@.subrange(0, bytes.len() as int) == bytes@);
}

fn put_blob(out: &mut Vec<u8>, bytes: &Vec<u8>)
    ensures
        final(out)@ == old(out)@ + blob(bytes@),
{
    put_u64(out, bytes.len() as u64);
    put_bytes(out, bytes);
}

fn put_spend(out: &mut Vec<u8>, spend: &PostedSpend)
    ensures
        final(out)@ == old(out)@ + spend_bytes(spend@),
{
    put_blob(out, &spend.root_hash);
    put_u32(out, spend.tree_size);
    put_blob(out, &spend.nullifier);
    put_blob(out, &spend.proof);
    put_blob(out, &spend.authorizing_signature);
}

fn put_receipt(out: &mut Vec<u8>, receipt: &ReceiptProof)
    ensures
        final(out)@ == old(out)@ + receipt_bytes(receipt@),
{
    put_bytes(out, &receipt.merkle_note);
    put_blob(out, &receipt.proof);
}

/// Spends encoded behind spends are the encoding of all of them.
proof fn lemma_spends_bytes_push(spends: Seq<PostedSpendView>, spend: PostedSpendView)
    ensures
        spends_bytes(spends.push(spend)) == spends_bytes(spends) + spend_bytes(spend),
    decreases spends.len(),
{
    let all = spends.push(spend);
    if spends.len() == 0 {
        assert(all.drop_first() == Seq::<PostedSpendView>::empty());
        assert(spends_bytes(all.drop_first()) == Seq::<u8>::empty());
    } else {
        assert(all.drop_first() == spends.drop_first().push(spend));
        lemma_spends_bytes_push(spends.drop_first(), spend);
    }
}

/// Receipts encoded behind receipts are the encoding of all of them.
proof fn lemma_receipts_bytes_push(receipts: Seq<ReceiptProofView>, receipt: ReceiptProofView)
    ensures
        receipts_bytes(receipts.push(receipt)) == receipts_bytes(receipts) + receipt_bytes(receipt),
    decreases receipts.len(),
{
    let all = receipts.push(receipt);
    if receipts.len() == 0 {
        assert(all.drop_first() == Seq::<ReceiptProofView>::empty());
        assert(receipts_bytes(all.drop_first()) == Seq::<u8>::empty());
    } else {
        assert(all.drop_first() == receipts.drop_first().push(receipt));
        lemma_receipts_bytes_push(receipts.drop_first(), receipt);
    }
}

/// The encoding of the posted transaction made of the given parts.
pub(crate) fn encode(
    spends: &Vec<PostedSpend>,
    receipts: &Vec<ReceiptProof>,
    binding_signature: &Vec<u8>,
    transaction_fee: i64,
    signature_hash: &Vec<u8>,
) -> (out: Vec<u8>)
    ensures
        out@ == frame(
            PostedView {
                spends: views(spends@),
                receipts: views(receipts@),
                binding_signature: binding_signature@,
                transaction_fee,
                signature_hash: signature_hash@,
            },
        ),
{
    let mut out: Vec<u8> = Vec::new();
    out.push(FORMAT_VERSION);
    put_u64(&mut out, spends.len() as u64);
    let ghost head = out@;
    let mut i: usize = 0;
    while i < spends.len()
        invariant
            i <= spends.len(),
            out@ == head + spends_bytes(views(spends@).subrange(0, i as int)),
        decreases spends.len() - i,
    {
        put_spend(&mut out, &spends[i]);
        proof {
            let all = views(spends@);
            assert(all.subrange(0, i + 1) == all.subrange(0, i as int).push(spends[i as int]@));
            lemma_spends_bytes_push(all.subrange(0, i as int), spends[i as int]@);
        }
        i += 1;
    }
    assert(views(spends@).subrange(0, spends.len() as int) == views(spends@));
    put_u64(&mut out, receipts.len() as u64);
    let ghost middle = out@;
    let mut j: usize = 0;
    while j < receipts.len()
        invariant
            j <= receipts.len(),
            out@ == middle + receipts_bytes(views(receipts@).subrange(0, j as int)),
        decreases receipts.len() - j,
    {
        put_receipt(&mut out, &receipts[j]);
        proof {
            let all = views(receipts@);
            assert(all.subrange(0, j + 1) == all.subrange(0, j as int).push(receipts[j as int]@));
            lemma_receipts_bytes_push(all.subrange(0, j as int), receipts[j as int]@);
        }
        j += 1;
    }
    assert(views(receipts@).subrange(0, receipts.len() as int) == views(receipts@));
    put_blob(&mut out, binding_signature);
    put_u64(&mut out, word_of_fee(transaction_fee));
    put_blob(&mut out, signature_hash);
    out
}

fn take_u64(bytes: &[u8], at: usize) -> (taken: Option<(u64, usize)>)
    requires
        at <= bytes@.len(),
    ensures
        match taken {
            Some((value, end)) => read_u64(bytes@, at as int) == Some((value, end as int)),
            None => read_u64(bytes@, at as int) is None,
        },
{
    if bytes.len() - at < 8 {
        return None;
    }
    let word = slice_subrange(bytes, at, at + 8);
    Some((u64_from_le_bytes(word), at + 8))
}

fn take_u32(bytes: &[u8], at: usize) -> (taken: Option<(u32, usize)>)
    requires
        at <= bytes@.len(),
    ensures
        match taken {
            Some((value, end)) => read_u32(bytes@, at as int) == Some((value, end as int)),
            None => read_u32(bytes@, at as int) is None,
        },
{
    if bytes.len() - at < 4 {
        return None;
    }
    let word = slice_subrange(bytes, at, at + 4);
    Some((u32_from_le_bytes(word), at + 4))
}

fn take_blob(bytes: &[u8], at: usize) -> (taken: Option<(Vec<u8>, usize)>)
    requires
        at <= bytes@.len(),
    ensures
        match taken {
            Some((blob, end)) => read_blob(bytes@, at as int) == Some((blob@, end as int)),
            None => read_blob(bytes@, at as int) is None,
        },
{
    let (length, start) = match take_u64(bytes, at) {
        Some(taken) => taken,
        None => {
            return None;
        },
    };
    if length > (bytes.len() - start) as u64 {
        return None;
    }
    let end = start + length as usize;
    Some((slice_to_vec(slice_subrange(bytes, start, end)), end))
}

fn take_note(bytes: &[u8], at: usize) -> (taken: Option<(Vec<u8>, usize)>)
    requires
        at <= bytes@.len(),
    ensures
        match taken {
            Some((note, end)) => read_note(bytes@, at as int) == Some((note@, end as int)),
            None => read_note(bytes@, at as int) is None,
        },
{
    if bytes.len() - at < NOTE_SIZE {
        return None;
    }
    let end = at + NOTE_SIZE;
    Some((slice_to_vec(slice_subrange(bytes, at, end)), end))
}

fn take_spend(bytes: &[u8], at: usize) -> (taken: Option<(PostedSpend, usize)>)
    requires
        at <= bytes@.len(),
    ensures
        match taken {
            Some((spend, end)) => read_spend(bytes@, at as int) == Some((spend@, end as int)),
            None => read_spend(bytes@, at as int) is None,
        },
{
    let (root_hash, p1) = match take_blob(bytes, at) {
        Some(taken) => taken,
        None => {
            return None;
        },
    };
    let (tree_size, p2) = match take_u32(bytes, p1) {
        Some(taken) => taken,
        None => {
            return None;
        },
    };
    let (nullifier, p3) = match take_blob(bytes, p2) {
        Some(taken) => taken,
        None => {
            return None;
        },
    };
    let (proof, p4) = match take_blob(bytes, p3) {
        Some(taken) => taken,
        None => {
            return None;
        },
    };
    let (authorizing_signature, p5) = match take_blob(bytes, p4) {
        Some(taken) => taken,
        None => {
            return None;
        },
    };
    Some((PostedSpend { root_hash, tree_size, nullifier, proof, authorizing_signature }, p5))
}

fn take_receipt(bytes: &[u8], at: usize) -> (taken: Option<(ReceiptProof, usize)>)
    requires
        at <= bytes@.len(),
    ensures
        match taken {
            Some((receipt, end)) => read_receipt(bytes@, at as int) == Some((receipt@, end as int)),
            None => read_receipt(bytes@, at as int) is None,
        },
{
    let (merkle_note, p1) = match take_note(bytes, at) {
        Some(taken) => taken,
        None => {
            return None;
        },
    };
    let (proof, p2) = match take_blob(bytes, p1) {
        Some(taken) => taken,
        None => {
            return None;
        },
    };
    Some((ReceiptProof { merkle_note, proof }, p2))
}

/// Items that were read, with those that are read behind them.
pub open spec fn behind<T>(front: Seq<T>, rest: Option<(Seq<T>, int)>) -> Option<(Seq<T>, int)> {
    match rest {
        Some((items, end)) => Some((front + items, end)),
        None => None,
    }
}

fn take_spends(bytes: &[u8], at: usize, count: u64) -> (taken: Option<(Vec<PostedSpend>, usize)>)
    requires
        at <= bytes@.len(),
    ensures
        match taken {
            Some((spends, end)) => end <= bytes@.len() && read_spends(
                bytes@,
                at as int,
                count as nat,
            ) == Some((views(spends@), end as int)),
            None => read_spends(bytes@, at as int, count as nat) is None,
        },
{
    let mut spends: Vec<PostedSpend> = Vec::new();
    let mut position: usize = at;
    let mut i: u64 = 0;
    assert(views(spends@) == Seq::<PostedSpendView>::empty());
    assert(behind(views(spends@), read_spends(bytes@, at as int, count as nat)) == read_spends(
        bytes@,
        at as int,
        count as nat,
    )) by {
        match read_spends(bytes@, at as int, count as nat) {
            Some((items, end)) => {
                assert(Seq::<PostedSpendView>::empty() + items == items);
            },
            None => {},
        }
    }
    while i < count
        invariant
            i <= count,
            position <= bytes@.len(),
            read_spends(bytes@, at as int, count as nat) == behind(
                views(spends@),
                read_spends(bytes@, position as int, (count - i) as nat),
            ),
        decreases count - i,
    {
        match take_spend(bytes, position) {
            None => {
                return None;
            },
            Some((spend, next)) => {
                proof {
                    let front = views(spends@);
                    let rest = read_spends(bytes@, next as int, (count - i - 1) as nat);
                    assert(views(spends@.push(spend)) == front.push(spend@));
                    match rest {
                        Some((items, end)) => {
                            assert(front + (seq![spend@] + items) == front.push(spend@) + items);
                        },
                        None => {},
                    }
                }
                spends.push(spend);
                position = next;
                i += 1;
            },
        }
    }
    assert(views(spends@) + Seq::<PostedSpendView>::empty() == views(spends@));
    Some((spends, position))
}

fn take_receipts(bytes: &[u8], at: usize, count: u64) -> (taken: Option<
    (Vec<ReceiptProof>, usize),
>)
    requires
        at <= bytes@.len(),
    ensures
        match taken {
            Some((receipts, end)) => end <= bytes@.len() && read_receipts(
                bytes@,
                at as int,
                count as nat,
            ) == Some((views(receipts@), end as int)),
            None => read_receipts(bytes@, at as int, count as nat) is None,
        },
{
    let mut receipts: Vec<ReceiptProof> = Vec::new();
    let mut position: usize = at;
    let mut i: u64 = 0;
    assert(views(receipts@) == Seq::<ReceiptProofView>::empty());
    assert(behind(views(receipts@), read_receipts(bytes@, at as int, count as nat))
        == read_receipts(bytes@, at as int, count as nat)) by {
        match read_receipts(bytes@, at as int, count as nat) {
            Some((items, end)) => {
                assert(Seq::<ReceiptProofView>::empty() + items == items);
            },
            None => {},
        }
    }
    while i < count
        invariant
            i <= count,
            position <= bytes@.len(),
            read_receipts(bytes@, at as int, count as nat) == behind(
                views(receipts@),
                read_receipts(bytes@, position as int, (count - i) as nat),
            ),
        decreases count - i,
    {
        match take_receipt(bytes, position) {
            None => {
                return None;
            },
            Some((receipt, next)) => {
                proof {
                    let front = views(receipts@);
                    let rest = read_receipts(bytes@, next as int, (count - i - 1) as nat);
                    assert(views(receipts@.push(receipt)) == front.push(receipt@));
                    match rest {
                        Some((items, end)) => {
                            assert(front + (seq![receipt@] + items) == front.push(receipt@)
                                + items);
                        },
                        None => {},
                    }
                }
                receipts.push(receipt);
                position = next;
                i += 1;
            },
        }
    }
    assert(views(receipts@) + Seq::<ReceiptProofView>::empty() == views(receipts@));
    Some((receipts, position))
}

/// The posted transaction that bytes stand for, if they are a frame.
pub(crate) fn decode(bytes: &[u8]) -> (decoded: Option<WasmTransactionPosted>)
    ensures
        match decoded {
            Some(posted) => parse(bytes@) == Some(posted@),
            None => parse(bytes@) is None,
        },
{
    if bytes.len() < 1 || bytes[0] != FORMAT_VERSION {
        return None;
    }
    let (spend_count, p1) = match take_u64(bytes, 1) {
        Some(taken) => taken,
        None => {
            return None;
        },
    };
    let (spends, p2) = match take_spends(bytes, p1, spend_count) {
        Some(taken) => taken,
        None => {
            return None;
        },
    };
    let (receipt_count, p3) = match take_u64(bytes, p2) {
        Some(taken) => taken,
        None => {
            return None;
        },
    };
    let (receipts, p4) = match take_receipts(bytes, p3, receipt_count) {
        Some(taken) => taken,
        None => {
            return None;
        },
    };
    let (binding_signature, p5) = match take_blob(bytes, p4) {
        Some(taken) => taken,
        None => {
            return None;
        },
    };
    let (word, p6) = match take_u64(bytes, p5) {
        Some(taken) => taken,
        None => {
            return None;
        },
    };
    let (signature_hash, p7) = match take_blob(bytes, p6) {
        Some(taken) => taken,
        None => {
            return None;
        },
    };
    if p7 != bytes.len() {
        return None;
    }
    proof {
        lemma_receipts_read(bytes@, p3 as int, receipt_count as nat);
        assert forall|i: int| 0 <= i < receipts@.len() implies (#[trigger] receipts@[i])@.wf() by {
            assert(receipt_encodable(views(receipts@)[i]));
        }
    }
    Some(
        WasmTransactionPosted::assemble(
            spends,
            receipts,
            binding_signature,
            fee_of_word(word),
            signature_hash,
        ),
    )
}

/// Whether `part` stands in `bytes` from `at` on.
pub open spec fn holds(bytes: Seq<u8>, at: int, part: Seq<u8>) -> bool {
    &&& 0 <= at
    &&& at + part.len() <= bytes.len()
    &&& bytes.subrange(at, at + part.len()) == part
}

proof fn lemma_holds_split(bytes: Seq<u8>, at: int, first: Seq<u8>, second: Seq<u8>)
    requires
        holds(bytes, at, first + second),
    ensures
        holds(bytes, at, first),
        holds(bytes, at + first.len(), second),
{
    let whole = first + second;
    let window = bytes.subrange(at, at + whole.len());
    assert(bytes.subrange(at, at + first.len()) == window.subrange(0, first.len() as int));
    assert(whole.subrange(0, first.len() as int) == first);
    assert(bytes.subrange(at + first.len(), at + first.len() + second.len()) == window.subrange(
        first.len() as int,
        whole.len() as int,
    ));
    assert(whole.subrange(first.len() as int, whole.len() as int) == second);
}

proof fn lemma_join(bytes: Seq<u8>, from: int, middle: int, to: int)
    requires
        0 <= from <= middle <= to <= bytes.len(),
    ensures
        bytes.subrange(from, middle) + bytes.subrange(middle, to) == bytes.subrange(from, to),
{
}

proof fn lemma_read_u64(bytes: Seq<u8>, at: int, value: u64)
    requires
        holds(bytes, at, spec_u64_to_le_bytes(value)),
    ensures
        spec_u64_to_le_bytes(value).len() == 8,
        read_u64(bytes, at) == Some((value, at + 8)),
{
    vstd::bytes::lemma_auto_spec_u64_to_from_le_bytes();
}

proof fn lemma_read_u32(bytes: Seq<u8>, at: int, value: u32)
    requires
        holds(bytes, at, spec_u32_to_le_bytes(value)),
    ensures
        spec_u32_to_le_bytes(value).len() == 4,
        read_u32(bytes, at) == Some((value, at + 4)),
{
    vstd::bytes::lemma_auto_spec_u32_to_from_le_bytes();
}

proof fn lemma_read_blob(bytes: Seq<u8>, at: int, content: Seq<u8>)
    requires
        holds(bytes, at, blob(content)),
        content.len() <= u64::MAX,
    ensures
        blob(content).len() == 8 + content.len(),
        read_blob(bytes, at) == Some((content, at + blob(content).len())),
{
    let length = content.len() as u64;
    lemma_holds_split(bytes, at, spec_u64_to_le_bytes(length), content);
    lemma_read_u64(bytes, at, length);
}

proof fn lemma_read_spend(bytes: Seq<u8>, at: int, spend: PostedSpendView)
    requires
        holds(bytes, at, spend_bytes(spend)),
        spend_encodable(spend),
    ensures
        read_spend(bytes, at) == Some((spend, at + spend_bytes(spend).len())),
{
    let a = blob(spend.root_hash);
    let b = spec_u32_to_le_bytes(spend.tree_size);
    let c = blob(spend.nullifier);
    let d = blob(spend.proof);
    let e = blob(spend.authorizing_signature);
    lemma_holds_split(bytes, at, a + b + c + d, e);
    lemma_holds_split(bytes, at, a + b + c, d);
    lemma_holds_split(bytes, at, a + b, c);
    lemma_holds_split(bytes, at, a, b);
    lemma_read_blob(bytes, at, spend.root_hash);
    let p1 = at + a.len();
    lemma_read_u32(bytes, p1, spend.tree_size);
    let p2 = p1 + 4;
    lemma_read_blob(bytes, p2, spend.nullifier);
    let p3 = p2 + c.len();
    lemma_read_blob(bytes, p3, spend.proof);
    let p4 = p3 + d.len();
    lemma_read_blob(bytes, p4, spend.authorizing_signature);
}

proof fn lemma_read_spends(bytes: Seq<u8>, at: int, spends: Seq<PostedSpendView>)
    requires
        holds(bytes, at, spends_bytes(spends)),
        forall|i: int| 0 <= i < spends.len() ==> spend_encodable(#[trigger] spends[i]),
    ensures
        read_spends(bytes, at, spends.len()) == Some((spends, at + spends_bytes(spends).len())),
    decreases spends.len(),
{
    if spends.len() > 0 {
        let first = spends[0];
        let rest = spends.drop_first();
        lemma_holds_split(bytes, at, spend_bytes(first), spends_bytes(rest));
        lemma_read_spend(bytes, at, first);
        assert forall|i: int| 0 <= i < rest.len() implies spend_encodable(#[trigger] rest[i]) by {
            assert(rest[i] == spends[i + 1]);
        }
        lemma_read_spends(bytes, at + spend_bytes(first).len(), rest);
        assert(seq![first] + rest == spends);
    }
}

proof fn lemma_read_receipt(bytes: Seq<u8>, at: int, receipt: ReceiptProofView)
    requires
        holds(bytes, at, receipt_bytes(receipt)),
        receipt_encodable(receipt),
    ensures
        read_receipt(bytes, at) == Some((receipt, at + receipt_bytes(receipt).len())),
{
    lemma_holds_split(bytes, at, receipt.merkle_note, blob(receipt.proof));
    lemma_read_blob(bytes, at + NOTE_SIZE, receipt.proof);
}

proof fn lemma_read_receipts(bytes: Seq<u8>, at: int, receipts: Seq<ReceiptProofView>)
    requires
        holds(bytes, at, receipts_bytes(receipts)),
        forall|i: int| 0 <= i < receipts.len() ==> receipt_encodable(#[trigger] receipts[i]),
    ensures
        read_receipts(bytes, at, receipts.len()) == Some(
            (receipts, at + receipts_bytes(receipts).len()),
        ),
    decreases receipts.len(),
{
    if receipts.len() > 0 {
        let first = receipts[0];
        let rest = receipts.drop_first();
        lemma_holds_split(bytes, at, receipt_bytes(first), receipts_bytes(rest));
        lemma_read_receipt(bytes, at, first);
        assert forall|i: int| 0 <= i < rest.len() implies receipt_encodable(
            #[trigger] rest[i],
        ) by {
            assert(rest[i] == receipts[i + 1]);
        }
        lemma_read_receipts(bytes, at + receipt_bytes(first).len(), rest);
        assert(seq![first] + rest == receipts);
    }
}

/// The word of a fee stands for that fee, and the fee of a word is written
/// as that word.
pub proof fn lemma_fee_word(fee: i64, word: u64)
    ensures
        word_fee(fee_word(fee)) == fee,
        fee_word(word_fee(word)) == word,
{
}

/// Decoding undoes encoding: the bytes of a posted transaction stand for
/// that transaction and for no other.
pub proof fn lemma_parse_frame(posted: PostedView)
    requires
        encodable(posted),
    ensures
        parse(frame(posted)) == Some(posted),
{
    let bytes = frame(posted);
    let v = seq![FORMAT_VERSION];
    let c1 = spec_u64_to_le_bytes(posted.spends.len() as u64);
    let s = spends_bytes(posted.spends);
    let c2 = spec_u64_to_le_bytes(posted.receipts.len() as u64);
    let r = receipts_bytes(posted.receipts);
    let b = blob(posted.binding_signature);
    let f = spec_u64_to_le_bytes(fee_word(posted.transaction_fee));
    let h = blob(posted.signature_hash);
    assert(bytes.subrange(0, bytes.len() as int) == bytes);
    assert(holds(bytes, 0, v + c1 + s + c2 + r + b + f + h));
    lemma_holds_split(bytes, 0, v + c1 + s + c2 + r + b + f, h);
    lemma_holds_split(bytes, 0, v + c1 + s + c2 + r + b, f);
    lemma_holds_split(bytes, 0, v + c1 + s + c2 + r, b);
    lemma_holds_split(bytes, 0, v + c1 + s + c2, r);
    lemma_holds_split(bytes, 0, v + c1 + s, c2);
    lemma_holds_split(bytes, 0, v + c1, s);
    lemma_holds_split(bytes, 0, v, c1);
    assert(bytes[0] == bytes.subrange(0, 1)[0]);
    lemma_read_u64(bytes, 1, posted.spends.len() as u64);
    let p1 = 9;
    lemma_read_spends(bytes, p1, posted.spends);
    let p2 = p1 + s.len();
    lemma_read_u64(bytes, p2, posted.receipts.len() as u64);
    let p3 = p2 + 8;
    lemma_read_receipts(bytes, p3, posted.receipts);
    let p4 = p3 + r.len();
    lemma_read_blob(bytes, p4, posted.binding_signature);
    let p5 = p4 + b.len();
    lemma_read_u64(bytes, p5, fee_word(posted.transaction_fee));
    let p6 = p5 + 8;
    lemma_read_blob(bytes, p6, posted.signature_hash);
    lemma_fee_word(posted.transaction_fee, 0);
}

proof fn lemma_u64_read(bytes: Seq<u8>, at: int)
    requires
        read_u64(bytes, at) is Some,
    ensures
        read_u64(bytes, at)->Some_0.1 == at + 8,
        bytes.subrange(at, at + 8) == spec_u64_to_le_bytes(read_u64(bytes, at)->Some_0.0),
{
    vstd::bytes::lemma_auto_spec_u64_to_from_le_bytes();
    let window = bytes.subrange(at, at + 8);
    assert(spec_u64_to_le_bytes(spec_u64_from_le_bytes(window)) == window);
}

proof fn lemma_u32_read(bytes: Seq<u8>, at: int)
    requires
        read_u32(bytes, at) is Some,
    ensures
        read_u32(bytes, at)->Some_0.1 == at + 4,
        bytes.subrange(at, at + 4) == spec_u32_to_le_bytes(read_u32(bytes, at)->Some_0.0),
{
    vstd::bytes::lemma_auto_spec_u32_to_from_le_bytes();
    let window = bytes.subrange(at, at + 4);
    assert(spec_u32_to_le_bytes(spec_u32_from_le_bytes(window)) == window);
}

proof fn lemma_blob_read(bytes: Seq<u8>, at: int)
    requires
        read_blob(bytes, at) is Some,
    ensures
        ({
            let (content, end) = read_blob(bytes, at)->Some_0;
            &&& 0 <= at <= end <= bytes.len()
            &&& content.len() <= u64::MAX
            &&& bytes.subrange(at, end) == blob(content)
        }),
{
    let (content, end) = read_blob(bytes, at)->Some_0;
    lemma_u64_read(bytes, at);
    lemma_join(bytes, at, at + 8, end);
}

proof fn lemma_spend_read(bytes: Seq<u8>, at: int)
    requires
        read_spend(bytes, at) is Some,
    ensures
        ({
            let (spend, end) = read_spend(bytes, at)->Some_0;
            &&& 0 <= at <= end <= bytes.len()
            &&& spend_encodable(spend)
            &&& bytes.subrange(at, end) == spend_bytes(spend)
        }),
{
    let (spend, end) = read_spend(bytes, at)->Some_0;
    let p1 = read_blob(bytes, at)->Some_0.1;
    let p2 = read_u32(bytes, p1)->Some_0.1;
    let p3 = read_blob(bytes, p2)->Some_0.1;
    let p4 = read_blob(bytes, p3)->Some_0.1;
    lemma_blob_read(bytes, at);
    lemma_u32_read(bytes, p1);
    lemma_blob_read(bytes, p2);
    lemma_blob_read(bytes, p3);
    lemma_blob_read(bytes, p4);
    lemma_join(bytes, at, p1, p2);
    lemma_join(bytes, at, p2, p3);
    lemma_join(bytes, at, p3, p4);
    lemma_join(bytes, at, p4, end);
}

proof fn lemma_spends_read(bytes: Seq<u8>, at: int, count: nat)
    requires
        0 <= at <= bytes.len(),
        read_spends(bytes, at, count) is Some,
    ensures
        ({
            let (spends, end) = read_spends(bytes, at, count)->Some_0;
            &&& at <= end <= bytes.len()
            &&& spends.len() == count
            &&& forall|i: int| 0 <= i < spends.len() ==> spend_encodable(#[trigger] spends[i])
            &&& bytes.subrange(at, end) == spends_bytes(spends)
        }),
    decreases count,
{
    let (spends, end) = read_spends(bytes, at, count)->Some_0;
    if count == 0 {
        assert(bytes.subrange(at, at) == Seq::<u8>::empty());
    } else {
        let (first, next) = read_spend(bytes, at)->Some_0;
        lemma_spend_read(bytes, at);
        lemma_spends_read(bytes, next, (count - 1) as nat);
        let rest = read_spends(bytes, next, (count - 1) as nat)->Some_0.0;
        assert(spends == seq![first] + rest);
        assert(spends[0] == first);
        assert(spends.drop_first() == rest);
        assert forall|i: int| 0 <= i < spends.len() implies spend_encodable(
            #[trigger] spends[i],
        ) by {
            if i > 0 {
                assert(spends[i] == rest[i - 1]);
            }
        }
        lemma_join(bytes, at, next, end);
    }
}

proof fn lemma_receipt_read(bytes: Seq<u8>, at: int)
    requires
        read_receipt(bytes, at) is Some,
    ensures
        ({
            let (receipt, end) = read_receipt(bytes, at)->Some_0;
            &&& 0 <= at <= end <= bytes.len()
            &&& receipt_encodable(receipt)
            &&& bytes.subrange(at, end) == receipt_bytes(receipt)
        }),
{
    let (receipt, end) = read_receipt(bytes, at)->Some_0;
    let p1 = at + NOTE_SIZE;
    lemma_blob_read(bytes, p1);
    lemma_join(bytes, at, p1, end);
}

proof fn lemma_receipts_read(bytes: Seq<u8>, at: int, count: nat)
    requires
        0 <= at <= bytes.len(),
        read_receipts(bytes, at, count) is Some,
    ensures
        ({
            let (receipts, end) = read_receipts(bytes, at, count)->Some_0;
            &&& at <= end <= bytes.len()
            &&& receipts.len() == count
            &&& forall|i: int|
                0 <= i < receipts.len() ==> receipt_encodable(#[trigger] receipts[i])
            &&& bytes.subrange(at, end) == receipts_bytes(receipts)
        }),
    decreases count,
{
    let (receipts, end) = read_receipts(bytes, at, count)->Some_0;
    if count == 0 {
        assert(bytes.subrange(at, at) == Seq::<u8>::empty());
    } else {
        let (first, next) = read_receipt(bytes, at)->Some_0;
        lemma_receipt_read(bytes, at);
        lemma_receipts_read(bytes, next, (count - 1) as nat);
        let rest = read_receipts(bytes, next, (count - 1) as nat)->Some_0.0;
        assert(receipts == seq![first] + rest);
        assert(receipts[0] == first);
        assert(receipts.drop_first() == rest);
        assert forall|i: int| 0 <= i < receipts.len() implies receipt_encodable(
            #[trigger] receipts[i],
        ) by {
            if i > 0 {
                assert(receipts[i] == rest[i - 1]);
            }
        }
        lemma_join(bytes, at, next, end);
    }
}

/// Encoding undoes decoding: bytes that stand for a posted transaction are
/// the encoding of that transaction, byte for byte, and the transaction is
/// one that has an encoding.
pub proof fn lemma_frame_parse(bytes: Seq<u8>)
    requires
        parse(bytes) is Some,
    ensures
        encodable(parse(bytes)->Some_0),
        frame(parse(bytes)->Some_0) == bytes,
{
    let posted = parse(bytes)->Some_0;
    let (spend_count, p1) = read_u64(bytes, 1)->Some_0;
    let (spends, p2) = read_spends(bytes, p1, spend_count as nat)->Some_0;
    let (receipt_count, p3) = read_u64(bytes, p2)->Some_0;
    let (receipts, p4) = read_receipts(bytes, p3, receipt_count as nat)->Some_0;
    let (binding_signature, p5) = read_blob(bytes, p4)->Some_0;
    let (word, p6) = read_u64(bytes, p5)->Some_0;
    let (signature_hash, p7) = read_blob(bytes, p6)->Some_0;
    lemma_u64_read(bytes, 1);
    lemma_spends_read(bytes, p1, spend_count as nat);
    lemma_u64_read(bytes, p2);
    lemma_receipts_read(bytes, p3, receipt_count as nat);
    lemma_blob_read(bytes, p4);
    lemma_u64_read(bytes, p5);
    lemma_blob_read(bytes, p6);
    lemma_fee_word(0, word);
    assert(bytes.subrange(0, 1) == seq![FORMAT_VERSION]);
    lemma_join(bytes, 0, 1, p1);
    lemma_join(bytes, 0, p1, p2);
    lemma_join(bytes, 0, p2, p3);
    lemma_join(bytes, 0, p3, p4);
    lemma_join(bytes, 0, p4, p5);
    lemma_join(bytes, 0, p5, p6);
    lemma_join(bytes, 0, p6, p7);
    assert(bytes.subrange(0, bytes.len() as int) == bytes);
}

} // verus!
