//! Byte-level encodings that the other modules share: fixed-width
//! integers, digests and hexadecimal text.

use vstd::arithmetic::div_mod::{
    lemma_div_denominator, lemma_fundamental_div_mod, lemma_fundamental_div_mod_converse,
};
use vstd::prelude::*;
use vstd::utf8::{encode_utf8, is_ascii_chars, is_ascii_chars_encode_utf8};

verus! {

/// The eight bytes of `x`, least significant first.
pub open spec fn le_u64(x: u64) -> Seq<u8> {
    seq![
        (x % 0x100) as u8,
        (x / 0x100 % 0x100) as u8,
        (x / 0x1_0000 % 0x100) as u8,
        (x / 0x100_0000 % 0x100) as u8,
        (x / 0x1_0000_0000 % 0x100) as u8,
        (x / 0x100_0000_0000 % 0x100) as u8,
        (x / 0x1_0000_0000_0000 % 0x100) as u8,
        (x / 0x100_0000_0000_0000 % 0x100) as u8,
    ]
}

/// The eight bytes of `x`, most significant first.
pub open spec fn be_u64(x: u64) -> Seq<u8> {
    seq![
        (x / 0x100_0000_0000_0000 % 0x100) as u8,
        (x / 0x1_0000_0000_0000 % 0x100) as u8,
        (x / 0x100_0000_0000 % 0x100) as u8,
        (x / 0x1_0000_0000 % 0x100) as u8,
        (x / 0x100_0000 % 0x100) as u8,
        (x / 0x1_0000 % 0x100) as u8,
        (x / 0x100 % 0x100) as u8,
        (x % 0x100) as u8,
    ]
}

/// The number that eight bytes spell, least significant first.
pub open spec fn le_value(bytes: Seq<u8>) -> int
    recommends
        bytes.len() == 8,
{
    bytes[0] + bytes[1] * 0x100 + bytes[2] * 0x1_0000 + bytes[3] * 0x100_0000 + bytes[4]
        * 0x1_0000_0000 + bytes[5] * 0x100_0000_0000 + bytes[6] * 0x1_0000_0000_0000 + bytes[7]
        * 0x100_0000_0000_0000
}

/// The number that eight bytes spell, most significant first.
pub open spec fn be_value(bytes: Seq<u8>) -> int
    recommends
        bytes.len() == 8,
{
    bytes[7] + bytes[6] * 0x100 + bytes[5] * 0x1_0000 + bytes[4] * 0x100_0000 + bytes[3]
        * 0x1_0000_0000 + bytes[2] * 0x100_0000_0000 + bytes[1] * 0x1_0000_0000_0000 + bytes[0]
        * 0x100_0000_0000_0000
}

/// One step of long division by 256: the byte of `x` at weight `p`, and
/// what lies above it.
proof fn lemma_byte_step(x: int, p: int)
    requires
        0 <= x,
        0 < p,
    ensures
        x / (p * 0x100) == (x / p) / 0x100,
        x / p == 0x100 * (x / (p * 0x100)) + (x / p) % 0x100,
{
    lemma_div_denominator(x, p, 0x100);
    lemma_fundamental_div_mod(x / p, 0x100);
}

/// A number below 2^64 is the sum of its eight bytes, each at its weight.
proof fn lemma_sum_of_bytes(x: u64)
    ensures
        x == (x % 0x100) + (x / 0x100 % 0x100) * 0x100 + (x / 0x1_0000 % 0x100) * 0x1_0000 + (x
            / 0x100_0000 % 0x100) * 0x100_0000 + (x / 0x1_0000_0000 % 0x100) * 0x1_0000_0000 + (x
            / 0x100_0000_0000 % 0x100) * 0x100_0000_0000 + (x / 0x1_0000_0000_0000 % 0x100)
            * 0x1_0000_0000_0000 + (x / 0x100_0000_0000_0000 % 0x100) * 0x100_0000_0000_0000,
{
    let x = x as int;
    lemma_byte_step(x, 1);
    lemma_byte_step(x, 0x100);
    lemma_byte_step(x, 0x1_0000);
    lemma_byte_step(x, 0x100_0000);
    lemma_byte_step(x, 0x1_0000_0000);
    lemma_byte_step(x, 0x100_0000_0000);
    lemma_byte_step(x, 0x1_0000_0000_0000);
    lemma_byte_step(x, 0x100_0000_0000_0000);
    assert(x / 1 == x);
    assert(x / 0x1_0000_0000_0000_0000 == 0);
}

/// The bytes of a sum of eight weighted bytes are those bytes.
proof fn lemma_bytes_of_sum(b: Seq<u8>)
    requires
        b.len() == 8,
    ensures
        0 <= le_value(b) <= u64::MAX,
        le_value(b) % 0x100 == b[0],
        le_value(b) / 0x100 % 0x100 == b[1],
        le_value(b) / 0x1_0000 % 0x100 == b[2],
        le_value(b) / 0x100_0000 % 0x100 == b[3],
        le_value(b) / 0x1_0000_0000 % 0x100 == b[4],
        le_value(b) / 0x100_0000_0000 % 0x100 == b[5],
        le_value(b) / 0x1_0000_0000_0000 % 0x100 == b[6],
        le_value(b) / 0x100_0000_0000_0000 % 0x100 == b[7],
{
    let v = le_value(b);
    let t7 = b[7] as int;
    let t6 = b[6] + 0x100 * t7;
    let t5 = b[5] + 0x100 * t6;
    let t4 = b[4] + 0x100 * t5;
    let t3 = b[3] + 0x100 * t4;
    let t2 = b[2] + 0x100 * t3;
    let t1 = b[1] + 0x100 * t2;
    assert(v == b[0] + 0x100 * t1);
    lemma_fundamental_div_mod_converse(v, 0x100, t1, b[0] as int);
    lemma_fundamental_div_mod_converse(t1, 0x100, t2, b[1] as int);
    lemma_fundamental_div_mod_converse(t2, 0x100, t3, b[2] as int);
    lemma_fundamental_div_mod_converse(t3, 0x100, t4, b[3] as int);
    lemma_fundamental_div_mod_converse(t4, 0x100, t5, b[4] as int);
    lemma_fundamental_div_mod_converse(t5, 0x100, t6, b[5] as int);
    lemma_fundamental_div_mod_converse(t6, 0x100, t7, b[6] as int);
    lemma_byte_step(v, 1);
    lemma_byte_step(v, 0x100);
    lemma_byte_step(v, 0x1_0000);
    lemma_byte_step(v, 0x100_0000);
    lemma_byte_step(v, 0x1_0000_0000);
    lemma_byte_step(v, 0x100_0000_0000);
    lemma_byte_step(v, 0x1_0000_0000_0000);
    assert(v / 1 == v);
    assert(v / 0x100 == t1);
    assert(v / 0x1_0000 == t2);
    assert(v / 0x100_0000 == t3);
    assert(v / 0x1_0000_0000 == t4);
    assert(v / 0x100_0000_0000 == t5);
    assert(v / 0x1_0000_0000_0000 == t6);
    assert(v / 0x100_0000_0000_0000 == t7);
}

/// Eight bytes and the number they spell determine each other, in either
/// byte order.
pub proof fn lemma_u64_bytes(x: u64)
    ensures
        le_u64(x).len() == 8,
        be_u64(x).len() == 8,
        le_value(le_u64(x)) == x,
        be_value(be_u64(x)) == x,
{
    lemma_sum_of_bytes(x);
}

/// Every eight bytes are the encoding of the number they spell.
pub proof fn lemma_bytes_u64(bytes: Seq<u8>)
    requires
        bytes.len() == 8,
    ensures
        0 <= le_value(bytes) <= u64::MAX,
        0 <= be_value(bytes) <= u64::MAX,
        le_u64(le_value(bytes) as u64) == bytes,
        be_u64(be_value(bytes) as u64) == bytes,
{
    lemma_bytes_of_sum(bytes);
    assert(le_u64(le_value(bytes) as u64) =~= bytes);
    let mirrored = bytes.reverse();
    lemma_bytes_of_sum(mirrored);
    assert(le_value(mirrored) == be_value(bytes));
    assert(be_u64(be_value(bytes) as u64) =~= bytes);
}

/// Appends the eight bytes of `x` to `buf`, least significant first.
pub fn push_le_u64(buf: &mut Vec<u8>, x: u64)
    ensures
        final(buf)@ == old(buf)@ + le_u64(x),
{
    buf.push((x % 0x100) as u8);
    buf.push((x / 0x100 % 0x100) as u8);
    buf.push((x / 0x1_0000 % 0x100) as u8);
    buf.push((x / 0x100_0000 % 0x100) as u8);
    buf.push((x / 0x1_0000_0000 % 0x100) as u8);
    buf.push((x / 0x100_0000_0000 % 0x100) as u8);
    buf.push((x / 0x1_0000_0000_0000 % 0x100) as u8);
    buf.push((x / 0x100_0000_0000_0000 % 0x100) as u8);
    assert(buf@ =~= old(buf)@ + le_u64(x));
}

/// The number that the eight bytes of `bytes` from `at` on spell, least
/// significant first.
pub fn read_le_u64(bytes: &[u8], at: usize) -> (x: u64)
    requires
        at + 8 <= bytes@.len(),
    ensures
        x == le_value(bytes@.subrange(at as int, at + 8)),
{
    let b0 = bytes[at] as u64;
    let b1 = bytes[at + 1] as u64;
    let b2 = bytes[at + 2] as u64;
    let b3 = bytes[at + 3] as u64;
    let b4 = bytes[at + 4] as u64;
    let b5 = bytes[at + 5] as u64;
    let b6 = bytes[at + 6] as u64;
    let b7 = bytes[at + 7] as u64;
    b0 + b1 * 0x100 + b2 * 0x1_0000 + b3 * 0x100_0000 + b4 * 0x1_0000_0000 + b5
        * 0x100_0000_0000 + b6 * 0x1_0000_0000_0000 + b7 * 0x100_0000_0000_0000
}

/// The number that the eight bytes of `bytes` from `at` on spell, most
/// significant first.
pub fn read_be_u64(bytes: &[u8], at: usize) -> (x: u64)
    requires
        at + 8 <= bytes@.len(),
    ensures
        x == be_value(bytes@.subrange(at as int, at + 8)),
{
    let b0 = bytes[at] as u64;
    let b1 = bytes[at + 1] as u64;
    let b2 = bytes[at + 2] as u64;
    let b3 = bytes[at + 3] as u64;
    let b4 = bytes[at + 4] as u64;
    let b5 = bytes[at + 5] as u64;
    let b6 = bytes[at + 6] as u64;
    let b7 = bytes[at + 7] as u64;
    b7 + b6 * 0x100 + b5 * 0x1_0000 + b4 * 0x100_0000 + b3 * 0x1_0000_0000 + b2
        * 0x100_0000_0000 + b1 * 0x1_0000_0000_0000 + b0 * 0x100_0000_0000_0000
}

/// Whether two byte strings are the same.
pub fn same_bytes(a: &[u8], b: &[u8]) -> (same: bool)
    ensures
        same == (a@ == b@),
{
    if a.len() != b.len() {
        return false;
    }
    let mut i: usize = 0;
    while i < a.len()
        invariant
            a@.len() == b@.len(),
            i <= a@.len(),
            a@.subrange(0, i as int) == b@.subrange(0, i as int),
        decreases a@.len() - i,
    {
        if a[i] != b[i] {
            return false;
        }
        assert(a@.subrange(0, i + 1) =~= a@.subrange(0, i as int).push(a@[i as int]));
        assert(b@.subrange(0, i + 1) =~= b@.subrange(0, i as int).push(b@[i as int]));
        i += 1;
    }
    assert(a@ =~= a@.subrange(0, i as int));
    assert(b@ =~= b@.subrange(0, i as int));
    true
}

/// Appends `bytes` to `buf`.
pub fn append_bytes(buf: &mut Vec<u8>, bytes: &[u8])
    ensures
        final(buf)@ == old(buf)@ + bytes@,
{
    let mut i: usize = 0;
    while i < bytes.len()
        invariant
            i <= bytes@.len(),
            buf@ == old(buf)@ + bytes@.subrange(0, i as int),
        decreases bytes@.len() - i,
    {
        buf.push(bytes[i]);
        assert(bytes@.subrange(0, i + 1) =~= bytes@.subrange(0, i as int).push(bytes@[i as int]));
        i += 1;
    }
    assert(bytes@.subrange(0, i as int) =~= bytes@);
}

/// Whether two 32-byte digests are the same, byte for byte.
pub fn same_digest(a: &[u8; 32], b: &[u8; 32]) -> (same: bool)
    ensures
        same == (a@ == b@),
{
    same_bytes(a.as_slice(), b.as_slice())
}

/// The 32 bytes of `bytes` from `at` on.
pub fn take_digest(bytes: &[u8], at: usize) -> (digest: [u8; 32])
    requires
        at + 32 <= bytes@.len(),
    ensures
        digest@ == bytes@.subrange(at as int, at + 32),
{
    let len = bytes.len();
    let mut digest = [0u8; 32];
    let mut i: usize = 0;
    while i < 32
        invariant
            i <= 32,
            at + 32 <= bytes@.len() == len,
            forall|j: int| 0 <= j < i ==> digest@[j] == bytes@[at + j],
        decreases 32 - i,
    {
        digest[i] = bytes[at + i];
        i += 1;
    }
    assert(digest@ =~= bytes@.subrange(at as int, at + 32));
    digest
}

/// Value of the hexadecimal digit `c`, in either case; `None` for any
/// other byte.
pub open spec fn hex_digit(c: u8) -> Option<u8> {
    if 0x30 <= c <= 0x39 {
        Some((c - 0x30) as u8)
    } else if 0x61 <= c <= 0x66 {
        Some((c - 0x61 + 10) as u8)
    } else if 0x41 <= c <= 0x46 {
        Some((c - 0x41 + 10) as u8)
    } else {
        None
    }
}

/// Whether `text` spells bytes in hexadecimal: an even number of digits and
/// nothing else.
pub open spec fn is_hex(text: Seq<u8>) -> bool {
    &&& text.len() % 2 == 0
    &&& forall|i: int| 0 <= i < text.len() ==> hex_digit(#[trigger] text[i]) is Some
}

/// The bytes that `text` spells in hexadecimal, two digits to the byte, the
/// high one first.
pub open spec fn hex_bytes(text: Seq<u8>) -> Seq<u8>
    recommends
        is_hex(text),
{
    Seq::new(
        (text.len() / 2) as nat,
        |i: int| (hex_digit(text[2 * i])->0 * 16 + hex_digit(text[2 * i + 1])->0) as u8,
    )
}

/// The lower-case hexadecimal digit of a value below 16.
pub open spec fn hex_char(nibble: int) -> char
    recommends
        0 <= nibble < 16,
{
    if nibble < 10 {
        (0x30 + nibble) as char
    } else {
        (0x61 + nibble - 10) as char
    }
}

/// `bytes` spelled in lower-case hexadecimal, two digits to the byte, the
/// high one first.
pub open spec fn hex_text(bytes: Seq<u8>) -> Seq<char> {
    Seq::new(
        2 * bytes.len(),
        |i: int|
            if i % 2 == 0 {
                hex_char(bytes[i / 2] as int / 16)
            } else {
                hex_char(bytes[i / 2] as int % 16)
            },
    )
}

/// What is written in hexadecimal spells, read back, the bytes it was
/// written from.
pub proof fn lemma_hex_round_trip(bytes: Seq<u8>)
    ensures
        encode_utf8(hex_text(bytes)).len() == 2 * bytes.len(),
        is_hex(encode_utf8(hex_text(bytes))),
        hex_bytes(encode_utf8(hex_text(bytes))) == bytes,
{
    let text = hex_text(bytes);
    let spelled = encode_utf8(text);
    assert forall|i: int| 0 <= i < text.len() implies '\0' <= #[trigger] text[i] <= '\u{7f}' by {
        let nibble = if i % 2 == 0 {
            bytes[i / 2] as int / 16
        } else {
            bytes[i / 2] as int % 16
        };
        assert(text[i] == hex_char(nibble));
    }
    assert(is_ascii_chars(text));
    is_ascii_chars_encode_utf8(text);
    assert forall|i: int| 0 <= i < spelled.len() implies hex_digit(#[trigger] spelled[i]) == Some(
        (if i % 2 == 0 {
            bytes[i / 2] as int / 16
        } else {
            bytes[i / 2] as int % 16
        }) as u8,
    ) by {
        assert(spelled[i] == text[i] as u8);
    }
    assert forall|k: int| 0 <= k < bytes.len() implies hex_bytes(spelled)[k] == bytes[k] by {
        assert(hex_digit(spelled[2 * k]) == Some((bytes[k] as int / 16) as u8));
        assert(hex_digit(spelled[2 * k + 1]) == Some((bytes[k] as int % 16) as u8));
    }
    assert(hex_bytes(spelled) =~= bytes);
}

/// `hex::decode`: the bytes that `text` spells, where it is an even number
/// of hexadecimal digits in either case, and nothing for any other text.
#[verifier::external_body]
pub(crate) fn hex_decode(text: &[u8]) -> (bytes: Option<Vec<u8>>)
    ensures
        bytes is Some <==> is_hex(text@),
        bytes matches Some(spelled) ==> spelled@ == hex_bytes(text@),
{
    hex::decode(text).ok()
}

/// `hex::encode`: two lower-case digits for each byte, in order.
#[verifier::external_body]
pub(crate) fn hex_encode(bytes: &[u8]) -> (text: String)
    ensures
        text@ == hex_text(bytes@),
{
    hex::encode(bytes)
}

} // verus!
