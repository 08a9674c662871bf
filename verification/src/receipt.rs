//! Receipts and what may be believed of them.
//!
//! A receipt carries the output that a program committed and the identity of
//! the program that its seal vouches for. The output counts for nothing
//! until that identity has been found to be the expected one.
//!
//! What a seal vouches for is for the proof system to say. Whoever opens the
//! raw bytes of a receipt asks its verifier and records the answer in
//! [`Receipt::binding`]; from there on this module decides.

use vstd::prelude::*;

use crate::encoding::{
    be_u64, be_value, lemma_bytes_u64, lemma_u64_bytes, read_be_u64, same_digest, take_digest,
};
use crate::error::{Error, ErrorView};

verus! {

/// Length of a committed output record.
pub const JOURNAL_LEN: usize = 64;

/// The one thing a job hands back: a chain height and the hash of the block
/// at that height.
#[derive(Debug, Clone, Copy, PartialEq, Eq)]
pub struct VerifiedOutput {
    pub height: u64,
    pub block_hash: [u8; 32],
}

/// Mathematical value of a [`VerifiedOutput`].
pub struct VerifiedOutputView {
    pub height: u64,
    pub block_hash: Seq<u8>,
}

impl View for VerifiedOutput {
    type V = VerifiedOutputView;

    open spec fn view(&self) -> VerifiedOutputView {
        VerifiedOutputView { height: self.height, block_hash: self.block_hash@ }
    }
}

/// What a proving backend returned, as far as this library reads it.
#[derive(Debug, Clone, PartialEq, Eq)]
pub struct Receipt {
    /// The bytes that the program committed.
    pub journal: Vec<u8>,
    /// Identity of the program that the seal was found to bind the journal
    /// to; `None` where it binds the journal to nothing.
    pub binding: Option<[u8; 32]>,
}

/// Mathematical value of a [`Receipt`].
pub struct ReceiptView {
    pub journal: Seq<u8>,
    pub binding: Option<Seq<u8>>,
}

impl View for Receipt {
    type V = ReceiptView;

    open spec fn view(&self) -> ReceiptView {
        ReceiptView {
            journal: self.journal@,
            binding: match self.binding {
                Some(identity) => Some(identity@),
                None => None,
            },
        }
    }
}

/// The record that a program commits for `height` and `hash`: two words of
/// 32 bytes, the height as a big-endian number in the first, the hash in the
/// second.
pub open spec fn output_record(height: u64, hash: Seq<u8>) -> Seq<u8> {
    Seq::new(24, |i: int| 0u8) + be_u64(height) + hash
}

/// The output that `journal` records, where it is a record of one.
pub open spec fn decoded_journal(journal: Seq<u8>) -> Option<VerifiedOutputView> {
    if journal.len() == JOURNAL_LEN && forall|i: int| 0 <= i < 24 ==> journal[i] == 0 {
        Some(
            VerifiedOutputView {
                height: be_value(journal.subrange(24, 32)) as u64,
                block_hash: journal.subrange(32, 64),
            },
        )
    } else {
        None
    }
}

/// What is to be made of `receipt` when the program `expected` was asked
/// for. The identity is judged first and alone; only a receipt bound to
/// `expected` has its journal read.
pub open spec fn verdict(receipt: ReceiptView, expected: Seq<u8>) -> Result<
    VerifiedOutputView,
    ErrorView,
> {
    if receipt.binding != Some(expected) {
        Err(ErrorView::IdentityMismatch)
    } else {
        match decoded_journal(receipt.journal) {
            Some(output) => Ok(output),
            None => Err(ErrorView::MalformedJournal),
        }
    }
}

/// Value of the result of a verification.
pub open spec fn verdict_view(result: Result<VerifiedOutput, Error>) -> Result<
    VerifiedOutputView,
    ErrorView,
> {
    match result {
        Ok(output) => Ok(output@),
        Err(error) => Err(error@),
    }
}

/// `identity` with the bit `bit` of its byte `at` inverted.
pub open spec fn with_bit_flipped(identity: Seq<u8>, at: int, bit: u8) -> Seq<u8>
    recommends
        0 <= at < identity.len(),
        bit < 8,
{
    identity.update(at, identity[at] ^ (1u8 << bit))
}

/// Reading a record gives back what was recorded.
pub proof fn lemma_record_decodes(height: u64, hash: Seq<u8>)
    requires
        hash.len() == 32,
    ensures
        decoded_journal(output_record(height, hash)) == Some(
            VerifiedOutputView { height, block_hash: hash },
        ),
{
    let record = output_record(height, hash);
    lemma_u64_bytes(height);
    assert(record.subrange(24, 32) =~= be_u64(height));
    assert(record.subrange(32, 64) =~= hash);
}

/// A journal that decodes is the record of what it decodes to: no two
/// journals stand for the same output.
pub proof fn lemma_decoded_is_recorded(journal: Seq<u8>)
    requires
        decoded_journal(journal) is Some,
    ensures
        journal == output_record(
            decoded_journal(journal)->0.height,
            decoded_journal(journal)->0.block_hash,
        ),
        decoded_journal(journal)->0.block_hash.len() == 32,
{
    let output = decoded_journal(journal)->0;
    lemma_bytes_u64(journal.subrange(24, 32));
    assert(journal =~= output_record(output.height, output.block_hash));
}

/// A receipt is accepted only when the identity it is bound to equals the
/// expected one exactly.
pub proof fn lemma_accepted_means_bound(receipt: ReceiptView, expected: Seq<u8>)
    requires
        verdict(receipt, expected) is Ok,
    ensures
        receipt.binding == Some(expected),
{
}

/// A receipt bound to any other identity is an identity mismatch, whatever
/// its journal holds: a journal that does not decode changes nothing.
pub proof fn lemma_identity_is_judged_first(receipt: ReceiptView, expected: Seq<u8>)
    requires
        receipt.binding != Some(expected),
    ensures
        verdict(receipt, expected) == Err::<VerifiedOutputView, ErrorView>(
            ErrorView::IdentityMismatch,
        ),
{
}

/// Inverting any single bit of the identity that a receipt is bound to
/// turns an accepted receipt into an identity mismatch.
pub proof fn lemma_flipped_bit_is_mismatch(journal: Seq<u8>, expected: Seq<u8>, at: int, bit: u8)
    requires
        0 <= at < expected.len(),
        bit < 8,
    ensures
        verdict(
            ReceiptView { journal, binding: Some(with_bit_flipped(expected, at, bit)) },
            expected,
        ) == Err::<VerifiedOutputView, ErrorView>(ErrorView::IdentityMismatch),
{
    let byte = expected[at];
    assert(byte ^ (1u8 << bit) != byte) by (bit_vector)
        requires
            bit < 8,
    ;
    assert(with_bit_flipped(expected, at, bit)[at] != expected[at]);
}

/// Reads a committed output record.
pub fn decode_journal(journal: &[u8]) -> (output: Option<VerifiedOutput>)
    ensures
        match output {
            Some(read) => decoded_journal(journal@) == Some(read@),
            None => decoded_journal(journal@) is None,
        },
{
    if journal.len() != JOURNAL_LEN {
        return None;
    }
    let mut i: usize = 0;
    while i < 24
        invariant
            i <= 24,
            journal@.len() == JOURNAL_LEN,
            forall|j: int| 0 <= j < i ==> journal@[j] == 0,
        decreases 24 - i,
    {
        if journal[i] != 0 {
            return None;
        }
        i += 1;
    }
    Some(VerifiedOutput { height: read_be_u64(journal, 24), block_hash: take_digest(journal, 32) })
}

/// Decides what is to be made of `receipt` when the program with the
/// identity `expected_identity` was asked for.
///
/// The identity comes first: a receipt that is bound to another identity,
/// or to none, is an [`Error::IdentityMismatch`] and its journal is never
/// read. A receipt bound to the expected identity yields the output that its
/// journal records, and [`Error::MalformedJournal`] where it records none.
pub fn verify(receipt: &Receipt, expected_identity: &[u8; 32]) -> (result: Result<
    VerifiedOutput,
    Error,
>)
    ensures
        verdict_view(result) == verdict(receipt@, expected_identity@),
{
    match &receipt.binding {
        None => Err(Error::IdentityMismatch),
        Some(bound) => {
            if !same_digest(bound, expected_identity) {
                return Err(Error::IdentityMismatch);
            }
            match decode_journal(receipt.journal.as_slice()) {
                Some(output) => Ok(output),
                None => Err(Error::MalformedJournal),
            }
        },
    }
}

} // verus!
