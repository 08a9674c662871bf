//! What the proven program computes from its input buffer: it has the
//! header chain validated and commits the height together with the hash of
//! the last header.
//!
//! Validation and hashing are the chain validator's business. This module
//! decides what is handed to it, what becomes of its answer, and what is
//! committed.

use vstd::prelude::*;
use vstd::slice::slice_subrange;

use crate::encoding::{le_u64, le_value, lemma_u64_bytes, read_le_u64};
use crate::error::{Error, ErrorView};
use crate::packager::{
    all_header_sized, joined, lemma_joined_len, packaged, HEADER_LEN, HEIGHT_LEN,
};
use crate::receipt::{decoded_journal, lemma_record_decodes, output_record, VerifiedOutputView};

verus! {

/// Most header records that the validator can total the work of.
pub const MAX_HEADERS: usize = 0xffff_ffff;

/// Whether the chain validator accepts the header records in `headers`:
/// every record but the first names the hash of the one before it as its
/// parent, the hash of every record is below the target that the first
/// record states and, with `constant_difficulty`, every record states that
/// same target.
pub uninterp spec fn chain_accepted(headers: Seq<u8>, constant_difficulty: bool) -> bool;

/// The hash of a block header: SHA-256 applied twice, in the byte order in
/// which a header names its parent.
pub uninterp spec fn block_hash(header: Seq<u8>) -> Seq<u8>;

/// The record number `i` of `data`.
pub open spec fn record(data: Seq<u8>, i: int) -> Seq<u8> {
    data.subrange(HEADER_LEN * i, HEADER_LEN * i + HEADER_LEN)
}

/// Whether the compact target in `header` stands for a number below 2^256.
///
/// The target is the three bytes from 72 on, as a little-endian number,
/// times 256 to the power of byte 75 less three. The validator cannot
/// compute a target of 2^256 or more.
pub open spec fn target_fits(header: Seq<u8>) -> bool
    recommends
        header.len() == HEADER_LEN,
{
    ||| header[75] <= 32
    ||| header[75] == 33 && header[74] == 0
    ||| header[75] == 34 && header[74] == 0 && header[73] == 0
}

/// Whether the validator can be asked about `data`: a whole, not too large
/// number of records, with every target that it will compute below 2^256.
/// It computes the target of the first record and, with
/// `constant_difficulty`, of every other.
pub open spec fn validator_applies(data: Seq<u8>, constant_difficulty: bool) -> bool {
    &&& data.len() % HEADER_LEN as nat == 0
    &&& data.len() / HEADER_LEN as nat <= MAX_HEADERS
    &&& forall|i: int|
        0 <= i < data.len() / HEADER_LEN as nat && (i == 0 || constant_difficulty)
            ==> target_fits(#[trigger] record(data, i))
}

/// What the program commits for the buffer `buf`, where it commits
/// anything: the height that the buffer begins with and the hash of its last
/// header record, once the validator has accepted the records.
pub open spec fn committed(buf: Seq<u8>, constant_difficulty: bool) -> Option<Seq<u8>> {
    let data = buf.subrange(HEIGHT_LEN as int, buf.len() as int);
    if buf.len() >= HEIGHT_LEN + HEADER_LEN && validator_applies(data, constant_difficulty)
        && chain_accepted(data, constant_difficulty) {
        Some(
            output_record(
                le_value(buf.subrange(0, HEIGHT_LEN as int)) as u64,
                block_hash(data.subrange(data.len() - HEADER_LEN, data.len() as int)),
            ),
        )
    } else {
        None
    }
}

/// `bitcoin_spv::validatespv::validate_header_chain` on the records in
/// `headers`, asked only whether it accepts them. It panics on a target of
/// 2^256 or more and when the total work exceeds 2^256, which the
/// preconditions rule out.
#[verifier::external_body]
fn validate_chain(headers: &[u8], constant_difficulty: bool) -> (accepted: bool)
    requires
        validator_applies(headers@, constant_difficulty),
    ensures
        accepted == chain_accepted(headers@, constant_difficulty),
{
    match bitcoin_spv::types::HeaderArray::new(headers) {
        Ok(array) => bitcoin_spv::validatespv::validate_header_chain(
            &array,
            constant_difficulty,
        ).is_ok(),
        Err(_) => false,
    }
}

/// `bitcoin_spv::types::RawHeader::digest` of the header record `header`.
#[verifier::external_body]
fn hash_header(header: &[u8]) -> (hash: [u8; 32])
    requires
        header@.len() == HEADER_LEN,
    ensures
        hash@ == block_hash(header@),
{
    match bitcoin_spv::types::RawHeader::new(&header) {
        Ok(raw) => *raw.digest().as_ref(),
        Err(_) => [0u8; 32],
    }
}

/// `ethabi::encode` of the unsigned number `height` and the 32 fixed bytes
/// `hash`: one word of 32 bytes for each, the number big-endian.
#[verifier::external_body]
pub(crate) fn encode_record(height: u64, hash: &[u8; 32]) -> (encoded: Vec<u8>)
    ensures
        encoded@ == output_record(height, hash@),
{
    ethabi::encode(
        &[
            ethabi::Token::Uint(ethabi::ethereum_types::U256::from(height)),
            ethabi::Token::FixedBytes(hash.to_vec()),
        ],
    )
}

/// Whether the compact target of the header record `header` can be
/// computed.
pub fn check_target(header: &[u8]) -> (fits: bool)
    requires
        header@.len() == HEADER_LEN,
    ensures
        fits == target_fits(header@),
{
    let exponent = header[75];
    exponent <= 32 || (exponent == 33 && header[74] == 0) || (exponent == 34 && header[74] == 0
        && header[73] == 0)
}

/// Whether the validator can be asked about `data`.
pub fn check_applies(data: &[u8], constant_difficulty: bool) -> (applies: bool)
    ensures
        applies == validator_applies(data@, constant_difficulty),
{
    let len = data.len();
    if len % HEADER_LEN != 0 || len / HEADER_LEN > MAX_HEADERS {
        return false;
    }
    let count = len / HEADER_LEN;
    let mut i: usize = 0;
    while i < count && (i == 0 || constant_difficulty)
        invariant
            i <= count,
            len == data@.len(),
            len == HEADER_LEN * count,
            forall|j: int| 0 <= j < i ==> target_fits(#[trigger] record(data@, j)),
        decreases count - i,
    {
        let header = slice_subrange(data, HEADER_LEN * i, HEADER_LEN * i + HEADER_LEN);
        if !check_target(header) {
            assert(!target_fits(record(data@, i as int)));
            return false;
        }
        i += 1;
    }
    true
}

/// What the program commits once the validator has spoken: the record of
/// `height` and `tip` where it accepted the chain, and nothing where it did
/// not.
pub fn commit(height: u64, accepted: bool, tip: &[u8; 32]) -> (result: Result<Vec<u8>, Error>)
    ensures
        match result {
            Ok(journal) => accepted && journal@ == output_record(height, tip@),
            Err(error) => !accepted && error@ == ErrorView::ExecutionFailed,
        },
{
    if accepted {
        Ok(encode_record(height, tip))
    } else {
        Err(Error::ExecutionFailed)
    }
}

/// Runs the program on the buffer `buf`.
///
/// The buffer is a height followed by header records. The records must be
/// at least one, whole, and fit for the validator; the validator must accept
/// them. Then the program commits the height and the hash of the last
/// record. In every other case it halts with [`Error::ExecutionFailed`] and
/// commits nothing.
pub fn execute(buf: &[u8], constant_difficulty: bool) -> (result: Result<Vec<u8>, Error>)
    ensures
        match result {
            Ok(journal) => committed(buf@, constant_difficulty) == Some(journal@),
            Err(error) => error@ == ErrorView::ExecutionFailed && committed(
                buf@,
                constant_difficulty,
            ) is None,
        },
{
    let len = buf.len();
    if len < HEIGHT_LEN + HEADER_LEN {
        return Err(Error::ExecutionFailed);
    }
    let data = slice_subrange(buf, HEIGHT_LEN, len);
    if !check_applies(data, constant_difficulty) {
        return Err(Error::ExecutionFailed);
    }
    let accepted = validate_chain(data, constant_difficulty);
    let last = slice_subrange(data, data.len() - HEADER_LEN, data.len());
    let tip = hash_header(last);
    commit(read_le_u64(buf, 0), accepted, &tip)
}

/// End to end: when the program commits on the package of `height` and a
/// chain of header records, it commits the record of `height` and the hash
/// of the last header, which decodes to just these two, a hash being 32
/// bytes long.
pub proof fn lemma_commits_height_and_tip(
    height: u64,
    headers: Seq<Seq<u8>>,
    constant_difficulty: bool,
)
    requires
        all_header_sized(headers),
        headers.len() > 0,
        committed(packaged(height, headers), constant_difficulty) is Some,
    ensures
        committed(packaged(height, headers), constant_difficulty) == Some(
            output_record(height, block_hash(headers.last())),
        ),
        block_hash(headers.last()).len() == 32 ==> decoded_journal(
            committed(packaged(height, headers), constant_difficulty)->0,
        ) == Some(VerifiedOutputView { height, block_hash: block_hash(headers.last()) }),
{
    let buf = packaged(height, headers);
    let data = buf.subrange(HEIGHT_LEN as int, buf.len() as int);
    lemma_u64_bytes(height);
    lemma_joined_len(headers);
    lemma_joined_len(headers.drop_last());
    assert(buf.subrange(0, HEIGHT_LEN as int) =~= le_u64(height));
    assert(data =~= joined(headers));
    assert(data.subrange(data.len() - HEADER_LEN, data.len() as int) =~= headers.last());
    if block_hash(headers.last()).len() == 32 {
        lemma_record_decodes(height, block_hash(headers.last()));
    }
}

/// A package without header records is never committed on.
pub proof fn lemma_nothing_without_headers(height: u64, constant_difficulty: bool)
    ensures
        committed(packaged(height, Seq::empty()), constant_difficulty) is None,
{
    lemma_u64_bytes(height);
    assert(joined(Seq::<Seq<u8>>::empty()) =~= Seq::<u8>::empty());
}

} // verus!
