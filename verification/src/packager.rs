//! The byte buffer that the proving sandbox consumes, and how it is read
//! back.
//!
//! ```text
//! +----------------+-----------+-----------+-----
//! | height (8, LE) | header 0  | header 1  | ...
//! +----------------+-----------+-----------+-----
//!                    80 bytes    80 bytes
//! ```
//!
//! The packager concatenates and encodes. It looks at the length of each
//! header record and at nothing else: whether the records form a chain is
//! for the program in the sandbox to decide.

use vstd::prelude::*;
use vstd::slice::{slice_subrange, slice_to_vec};
use vstd::utf8::encode_utf8;

use crate::encoding::{
    append_bytes, hex_bytes, hex_decode, is_hex, le_u64, le_value, lemma_bytes_u64, lemma_u64_bytes, push_le_u64, read_le_u64,
};
use crate::error::{Error, ErrorView};

verus! {

/// Length of a block header record.
pub const HEADER_LEN: usize = 80;

/// Length of the encoded height that precedes the header records.
pub const HEIGHT_LEN: usize = 8;

/// What a job proves something about: a height and the header records that
/// lead up to it, oldest first.
#[derive(Debug, Clone, PartialEq, Eq)]
pub struct PackagedInput {
    pub height: u64,
    pub headers: Vec<Vec<u8>>,
}

/// Mathematical value of a [`PackagedInput`].
pub struct PackagedInputView {
    pub height: u64,
    pub headers: Seq<Seq<u8>>,
}

/// The records held in `headers`, each as the bytes it holds.
pub open spec fn records(headers: Seq<Vec<u8>>) -> Seq<Seq<u8>> {
    Seq::new(headers.len(), |i: int| headers[i]@)
}

impl View for PackagedInput {
    type V = PackagedInputView;

    open spec fn view(&self) -> PackagedInputView {
        PackagedInputView { height: self.height, headers: records(self.headers@) }
    }
}

/// Whether every record is exactly as long as a block header.
pub open spec fn all_header_sized(headers: Seq<Seq<u8>>) -> bool {
    forall|i: int| 0 <= i < headers.len() ==> (#[trigger] headers[i]).len() == HEADER_LEN
}

/// The records one after another, in the given order.
pub open spec fn joined(headers: Seq<Seq<u8>>) -> Seq<u8>
    decreases headers.len(),
{
    if headers.len() == 0 {
        Seq::empty()
    } else {
        joined(headers.drop_last()) + headers.last()
    }
}

/// The buffer for `height` and `headers`: the height in eight bytes, least
/// significant first, then the records.
pub open spec fn packaged(height: u64, headers: Seq<Seq<u8>>) -> Seq<u8> {
    le_u64(height) + joined(headers)
}

/// `data` cut into records of the length of a block header; bytes beyond
/// the last full record are left out.
pub open spec fn cut(data: Seq<u8>) -> Seq<Seq<u8>> {
    Seq::new(
        (data.len() / HEADER_LEN as nat) as nat,
        |i: int| data.subrange(HEADER_LEN * i, HEADER_LEN * i + HEADER_LEN),
    )
}

/// What `buf` holds, where it is a height followed by whole records.
pub open spec fn unpackaged(buf: Seq<u8>) -> Option<PackagedInputView> {
    if buf.len() >= HEIGHT_LEN && (buf.len() - HEIGHT_LEN) % HEADER_LEN as int == 0 {
        Some(
            PackagedInputView {
                height: le_value(buf.subrange(0, HEIGHT_LEN as int)) as u64,
                headers: cut(buf.subrange(HEIGHT_LEN as int, buf.len() as int)),
            },
        )
    } else {
        None
    }
}

/// Records of the length of a block header, joined, take that length each.
pub proof fn lemma_joined_len(headers: Seq<Seq<u8>>)
    requires
        all_header_sized(headers),
    ensures
        joined(headers).len() == HEADER_LEN * headers.len(),
    decreases headers.len(),
{
    if headers.len() > 0 {
        lemma_joined_len(headers.drop_last());
    }
}

/// Cutting joined records gives the records back.
pub proof fn lemma_cut_joined(headers: Seq<Seq<u8>>)
    requires
        all_header_sized(headers),
    ensures
        cut(joined(headers)) == headers,
    decreases headers.len(),
{
    lemma_joined_len(headers);
    if headers.len() > 0 {
        let front = headers.drop_last();
        lemma_cut_joined(front);
        lemma_joined_len(front);
        let all = joined(headers);
        assert(cut(all).len() == headers.len());
        assert forall|i: int| 0 <= i < headers.len() implies cut(all)[i] == headers[i] by {
            if i < front.len() {
                assert(cut(joined(front))[i] == front[i]);
                assert(all.subrange(HEADER_LEN * i, HEADER_LEN * i + HEADER_LEN) =~= joined(
                    front,
                ).subrange(HEADER_LEN * i, HEADER_LEN * i + HEADER_LEN));
            } else {
                assert(all.subrange(HEADER_LEN * i, HEADER_LEN * i + HEADER_LEN)
                    =~= headers.last());
            }
        }
        assert(cut(all) =~= headers);
    } else {
        assert(cut(joined(headers)) =~= headers);
    }
}

/// Joining what was cut from whole records gives the bytes back.
pub proof fn lemma_joined_cut(data: Seq<u8>)
    requires
        data.len() % HEADER_LEN as nat == 0,
    ensures
        all_header_sized(cut(data)),
        joined(cut(data)) == data,
    decreases data.len(),
{
    let pieces = cut(data);
    if data.len() == 0 {
        assert(joined(pieces) =~= data);
    } else {
        let shorter = data.subrange(0, data.len() - HEADER_LEN);
        lemma_joined_cut(shorter);
        assert(data.len() >= HEADER_LEN);
        assert(shorter.len() / HEADER_LEN as nat == data.len() / HEADER_LEN as nat - 1);
        assert forall|i: int| 0 <= i < cut(shorter).len() implies cut(shorter)[i]
            == pieces.drop_last()[i] by {
            assert(shorter.subrange(HEADER_LEN * i, HEADER_LEN * i + HEADER_LEN)
                =~= data.subrange(HEADER_LEN * i, HEADER_LEN * i + HEADER_LEN));
        }
        assert(cut(shorter) =~= pieces.drop_last());
        assert(pieces.last() == data.subrange(data.len() - HEADER_LEN, data.len() as int));
        assert(joined(pieces) =~= data);
    }
}

/// Packaging and then unpackaging reproduces the height and the header
/// records exactly, for any height and any number of records of 80 bytes.
pub proof fn lemma_package_round_trip(height: u64, headers: Seq<Seq<u8>>)
    requires
        all_header_sized(headers),
    ensures
        unpackaged(packaged(height, headers)) == Some(PackagedInputView { height, headers }),
{
    let buf = packaged(height, headers);
    lemma_joined_len(headers);
    lemma_cut_joined(headers);
    lemma_u64_bytes(height);
    assert(buf.subrange(0, HEIGHT_LEN as int) =~= le_u64(height));
    assert(buf.subrange(HEIGHT_LEN as int, buf.len() as int) =~= joined(headers));
}

/// Unpackaging and then packaging reproduces the buffer: no two buffers
/// stand for the same input.
pub proof fn lemma_unpackage_round_trip(buf: Seq<u8>)
    requires
        unpackaged(buf) is Some,
    ensures
        all_header_sized(unpackaged(buf)->0.headers),
        packaged(unpackaged(buf)->0.height, unpackaged(buf)->0.headers) == buf,
{
    let tail = buf.subrange(HEIGHT_LEN as int, buf.len() as int);
    lemma_joined_cut(tail);
    lemma_bytes_u64(buf.subrange(0, HEIGHT_LEN as int));
    assert(packaged(unpackaged(buf)->0.height, unpackaged(buf)->0.headers) =~= buf);
}

/// Packages `height` and `headers` for the sandbox.
///
/// Fails with [`Error::MalformedInput`] when a record is not exactly 80
/// bytes long, and on nothing else: the content of the records is not looked
/// at. Every length is checked before a byte is written.
pub fn package(height: u64, headers: &Vec<Vec<u8>>) -> (result: Result<Vec<u8>, Error>)
    ensures
        match result {
            Ok(buf) => all_header_sized(records(headers@)) && buf@ == packaged(
                height,
                records(headers@),
            ),
            Err(error) => error@ == ErrorView::MalformedInput && !all_header_sized(
                records(headers@),
            ),
        },
{
    let mut i: usize = 0;
    while i < headers.len()
        invariant
            i <= headers@.len(),
            forall|j: int| 0 <= j < i ==> (#[trigger] records(headers@)[j]).len() == HEADER_LEN,
        decreases headers@.len() - i,
    {
        if headers[i].len() != HEADER_LEN {
            assert(records(headers@)[i as int].len() != HEADER_LEN);
            return Err(Error::MalformedInput);
        }
        i += 1;
    }
    let mut buf: Vec<u8> = Vec::new();
    push_le_u64(&mut buf, height);
    let mut k: usize = 0;
    while k < headers.len()
        invariant
            k <= headers@.len(),
            buf@ == le_u64(height) + joined(records(headers@).subrange(0, k as int)),
        decreases headers@.len() - k,
    {
        append_bytes(&mut buf, headers[k].as_slice());
        proof {
            let done = records(headers@).subrange(0, k + 1);
            assert(done.drop_last() =~= records(headers@).subrange(0, k as int));
            assert(done.last() == headers@[k as int]@);
            assert(buf@ =~= le_u64(height) + joined(done));
        }
        k += 1;
    }
    assert(records(headers@).subrange(0, k as int) =~= records(headers@));
    Ok(buf)
}

/// Reads a buffer back into the height and the header records that it was
/// packaged from.
///
/// Fails with [`Error::MalformedInput`] when `buf` is not eight bytes of
/// height followed by a whole number of records of 80 bytes.
pub fn unpackage(buf: &[u8]) -> (result: Result<PackagedInput, Error>)
    ensures
        match result {
            Ok(input) => unpackaged(buf@) == Some(input@),
            Err(error) => error@ == ErrorView::MalformedInput && unpackaged(buf@) is None,
        },
{
    let len = buf.len();
    if len < HEIGHT_LEN || (len - HEIGHT_LEN) % HEADER_LEN != 0 {
        return Err(Error::MalformedInput);
    }
    let height = read_le_u64(buf, 0);
    let count = (len - HEIGHT_LEN) / HEADER_LEN;
    let ghost tail = buf@.subrange(HEIGHT_LEN as int, len as int);
    let mut headers: Vec<Vec<u8>> = Vec::new();
    let mut i: usize = 0;
    while i < count
        invariant
            i <= count,
            len == buf@.len(),
            len == HEIGHT_LEN + HEADER_LEN * count,
            tail == buf@.subrange(HEIGHT_LEN as int, len as int),
            headers@.len() == i,
            forall|j: int| 0 <= j < i ==> (#[trigger] headers@[j])@ == cut(tail)[j],
        decreases count - i,
    {
        let from = HEIGHT_LEN + HEADER_LEN * i;
        let record = slice_to_vec(slice_subrange(buf, from, from + HEADER_LEN));
        assert(record@ =~= cut(tail)[i as int]);
        headers.push(record);
        i += 1;
    }
    assert(records(headers@) =~= cut(tail));
    Ok(PackagedInput { height, headers })
}

/// The header record of a block: the first 80 bytes of what `text` spells
/// in hexadecimal.
pub open spec fn header_in(text: Seq<u8>) -> Option<Seq<u8>> {
    if is_hex(text) && text.len() >= 2 * HEADER_LEN {
        Some(hex_bytes(text).subrange(0, HEADER_LEN as int))
    } else {
        None
    }
}

/// Takes the header record from a block given in hexadecimal, as a node
/// hands it out. Fails with [`Error::MalformedInput`] when `block` is not
/// hexadecimal or spells fewer than 80 bytes.
pub fn header_of_block(block: &str) -> (result: Result<Vec<u8>, Error>)
    ensures
        match result {
            Ok(header) => header_in(encode_utf8(block@)) == Some(header@),
            Err(error) => error@ == ErrorView::MalformedInput && header_in(encode_utf8(block@))
                is None,
        },
{
    match hex_decode(block.as_bytes()) {
        Some(bytes) => {
            if bytes.len() < HEADER_LEN {
                return Err(Error::MalformedInput);
            }
            Ok(slice_to_vec(slice_subrange(bytes.as_slice(), 0, HEADER_LEN)))
        },
        None => Err(Error::MalformedInput),
    }
}

impl PackagedInput {
    /// The buffer for this input: see [`package`].
    pub fn pack(&self) -> (result: Result<Vec<u8>, Error>)
        ensures
            match result {
                Ok(buf) => all_header_sized(self@.headers) && buf@ == packaged(
                    self@.height,
                    self@.headers,
                ),
                Err(error) => error@ == ErrorView::MalformedInput && !all_header_sized(
                    self@.headers,
                ),
            },
    {
        package(self.height, &self.headers)
    }
}

} // verus!
