//! The programs that can be proven, and how one is picked.
//!
//! A program is asked for by its name, in any mix of upper and lower case,
//! or by its identity written in hexadecimal. Either way the match is
//! exact: a part of a name is not the name, and a part of an identity is not
//! the identity.

use vstd::prelude::*;
use vstd::slice::slice_subrange;
use vstd::utf8::encode_utf8;

use crate::encoding::{
    hex_bytes, hex_decode, hex_digit, hex_text, is_hex, lemma_hex_round_trip, same_digest,
};
use crate::error::{Error, ErrorView};

verus! {

/// Length of a program identity.
pub const IDENTITY_LEN: usize = 32;

/// One program: its name, its compiled image, the identity derived from
/// that image, and where the image is kept for upload.
#[derive(Debug, Clone, PartialEq, Eq)]
pub struct ProgramEntry {
    pub name: String,
    pub image: Vec<u8>,
    pub identity: [u8; 32],
    pub storage_path: String,
}

/// Mathematical value of a [`ProgramEntry`].
pub struct ProgramEntryView {
    pub name: Seq<char>,
    pub image: Seq<u8>,
    pub identity: Seq<u8>,
    pub storage_path: Seq<char>,
}

impl View for ProgramEntry {
    type V = ProgramEntryView;

    open spec fn view(&self) -> ProgramEntryView {
        ProgramEntryView {
            name: self.name@,
            image: self.image@,
            identity: self.identity@,
            storage_path: self.storage_path@,
        }
    }
}

/// The fixed set of programs, in the order in which they are tried.
#[derive(Debug, Clone, PartialEq, Eq)]
pub struct Registry {
    entries: Vec<ProgramEntry>,
}

impl View for Registry {
    type V = Seq<ProgramEntryView>;

    closed spec fn view(&self) -> Seq<ProgramEntryView> {
        Seq::new(self.entries@.len(), |i: int| self.entries@[i]@)
    }
}

/// `b` with a lower-case ASCII letter turned into its upper-case form.
pub open spec fn upper(b: u8) -> u8 {
    if 0x61 <= b <= 0x7a {
        (b - 0x20) as u8
    } else {
        b
    }
}

/// Whether two names are the same but for the case of their ASCII letters.
pub open spec fn same_name(a: Seq<u8>, b: Seq<u8>) -> bool {
    &&& a.len() == b.len()
    &&& forall|i: int| 0 <= i < a.len() ==> upper(#[trigger] a[i]) == upper(b[i])
}

/// Whether `query` begins with the marker `0x`, in either case.
pub open spec fn marked(query: Seq<u8>) -> bool {
    query.len() >= 2 && query[0] == 0x30 && (query[1] == 0x78 || query[1] == 0x58)
}

/// `query` without the markers that it begins with.
pub open spec fn unmarked(query: Seq<u8>) -> Seq<u8>
    decreases query.len(),
{
    if marked(query) {
        unmarked(query.skip(2))
    } else {
        query
    }
}

/// The identity that `query` spells: 32 bytes in hexadecimal, after any
/// markers. No other query spells an identity.
pub open spec fn identity_asked(query: Seq<u8>) -> Option<Seq<u8>> {
    let digits = unmarked(query);
    if is_hex(digits) && digits.len() == 2 * IDENTITY_LEN {
        Some(hex_bytes(digits))
    } else {
        None
    }
}

/// Whether `entry` is what `query` asks for: by its name, or by its
/// identity.
pub open spec fn answers(entry: ProgramEntryView, query: Seq<u8>) -> bool {
    same_name(encode_utf8(entry.name), query) || identity_asked(query) == Some(entry.identity)
}

/// Whether the entry at `at` is the first of `entries` that answers
/// `query`.
pub open spec fn first_answer(entries: Seq<ProgramEntryView>, query: Seq<u8>, at: int) -> bool {
    &&& 0 <= at < entries.len()
    &&& answers(entries[at], query)
    &&& forall|j: int| 0 <= j < at ==> !answers(#[trigger] entries[j], query)
}

/// Whether no entry of `entries` answers `query`.
pub open spec fn unanswered(entries: Seq<ProgramEntryView>, query: Seq<u8>) -> bool {
    forall|j: int| 0 <= j < entries.len() ==> !answers(#[trigger] entries[j], query)
}

/// Whether the entry at `at` is the first of `entries` with the identity
/// `identity`.
pub open spec fn first_with_identity(
    entries: Seq<ProgramEntryView>,
    identity: Seq<u8>,
    at: int,
) -> bool {
    &&& 0 <= at < entries.len()
    &&& entries[at].identity == identity
    &&& forall|j: int| 0 <= j < at ==> (#[trigger] entries[j]).identity != identity
}

/// The byte of `word` at place `k`, the least significant being place 0.
pub open spec fn word_byte(word: u32, k: int) -> u8
    recommends
        0 <= k < 4,
{
    if k == 0 {
        (word % 0x100) as u8
    } else if k == 1 {
        (word / 0x100 % 0x100) as u8
    } else if k == 2 {
        (word / 0x1_0000 % 0x100) as u8
    } else {
        (word / 0x100_0000 % 0x100) as u8
    }
}

/// The bytes of `words` in order, each word least significant byte first.
pub open spec fn words_le(words: Seq<u32>) -> Seq<u8> {
    Seq::new(4 * words.len(), |i: int| word_byte(words[i / 4], i % 4))
}

/// The bytes of `words` in order, each word most significant byte first.
pub open spec fn words_be(words: Seq<u32>) -> Seq<u8> {
    Seq::new(4 * words.len(), |i: int| word_byte(words[i / 4], 3 - i % 4))
}

/// `bytemuck::cast` of eight 32-bit words to 32 bytes: the words as the
/// machine holds them in memory, which is every word least significant byte
/// first on some machines and most significant byte first on the others.
#[verifier::external_body]
fn words_as_bytes(words: [u32; 8]) -> (bytes: [u8; 32])
    ensures
        bytes@ == words_le(words@) || bytes@ == words_be(words@),
{
    bytemuck::cast(words)
}

/// A name matches only a name of its own length: never a part of a longer
/// one, and never a longer one.
pub proof fn lemma_name_match_is_whole(a: Seq<u8>, b: Seq<u8>)
    requires
        a.len() != b.len(),
    ensures
        !same_name(a, b),
{
}

/// Changing the case of the ASCII letters of a name changes nothing about
/// what it matches.
pub proof fn lemma_name_match_ignores_case(a: Seq<u8>, b: Seq<u8>, name: Seq<u8>)
    requires
        same_name(a, b),
    ensures
        same_name(a, name) == same_name(b, name),
        same_name(a, a.map_values(|c: u8| upper(c))),
{
    if same_name(a, name) {
        assert forall|i: int| 0 <= i < b.len() implies upper(#[trigger] b[i]) == upper(
            name[i],
        ) by {
            assert(upper(a[i]) == upper(b[i]));
        }
    }
    if same_name(b, name) {
        assert forall|i: int| 0 <= i < a.len() implies upper(#[trigger] a[i]) == upper(
            name[i],
        ) by {
            assert(upper(a[i]) == upper(b[i]));
        }
    }
}

/// Markers are markers in either case: queries that differ only in the case
/// of their letters differ only so once their markers are taken off.
proof fn lemma_unmarked_ignores_case(a: Seq<u8>, b: Seq<u8>)
    requires
        same_name(a, b),
    ensures
        same_name(unmarked(a), unmarked(b)),
    decreases a.len(),
{
    if a.len() >= 2 {
        assert(upper(a[0]) == upper(b[0]));
        assert(upper(a[1]) == upper(b[1]));
    }
    if marked(a) {
        assert(marked(b));
        assert forall|i: int| 0 <= i < a.skip(2).len() implies upper(#[trigger] a.skip(2)[i])
            == upper(b.skip(2)[i]) by {
            assert(upper(a[i + 2]) == upper(b[i + 2]));
        }
        lemma_unmarked_ignores_case(a.skip(2), b.skip(2));
    } else {
        assert(!marked(b));
    }
}

/// Resolving is blind to the case of ASCII letters throughout: two queries
/// that differ only in it ask for the same identity, if for any, are
/// answered by the same entries, and so resolve to the same entry or to
/// none.
pub proof fn lemma_resolution_ignores_case(
    entries: Seq<ProgramEntryView>,
    a: Seq<u8>,
    b: Seq<u8>,
)
    requires
        same_name(a, b),
    ensures
        identity_asked(a) == identity_asked(b),
        forall|j: int| 0 <= j < entries.len() ==> answers(entries[j], a) == answers(entries[j], b),
        forall|at: int| first_answer(entries, a, at) == first_answer(entries, b, at),
        unanswered(entries, a) == unanswered(entries, b),
{
    lemma_unmarked_ignores_case(a, b);
    let da = unmarked(a);
    let db = unmarked(b);
    assert forall|i: int| 0 <= i < da.len() implies hex_digit(#[trigger] da[i]) == hex_digit(
        db[i],
    ) by {
        assert(upper(da[i]) == upper(db[i]));
    }
    if is_hex(da) {
        assert forall|i: int| 0 <= i < db.len() implies hex_digit(#[trigger] db[i]) is Some by {
            assert(hex_digit(da[i]) is Some);
        }
    }
    if is_hex(db) {
        assert forall|i: int| 0 <= i < da.len() implies hex_digit(#[trigger] da[i]) is Some by {
            assert(hex_digit(db[i]) is Some);
        }
    }
    if is_hex(da) {
        assert(hex_bytes(da) =~= hex_bytes(db));
    }
    assert forall|j: int| 0 <= j < entries.len() implies answers(entries[j], a) == answers(
        entries[j],
        b,
    ) by {
        let name = encode_utf8(entries[j].name);
        lemma_name_match_ignores_case(a, b, name);
        assert(same_name(name, a) == same_name(a, name)) by {
            lemma_same_name_is_symmetric(name, a);
        }
        assert(same_name(name, b) == same_name(b, name)) by {
            lemma_same_name_is_symmetric(name, b);
        }
    }
}

/// Matching names is mutual.
proof fn lemma_same_name_is_symmetric(a: Seq<u8>, b: Seq<u8>)
    ensures
        same_name(a, b) == same_name(b, a),
{
    if same_name(a, b) {
        assert forall|i: int| 0 <= i < b.len() implies upper(#[trigger] b[i]) == upper(a[i]) by {
            assert(upper(a[i]) == upper(b[i]));
        }
    }
    if same_name(b, a) {
        assert forall|i: int| 0 <= i < a.len() implies upper(#[trigger] a[i]) == upper(b[i]) by {
            assert(upper(b[i]) == upper(a[i]));
        }
    }
}

/// An identity is spelled by all of its 32 bytes and is matched by all of
/// them: a query answers by identity only for the entry whose identity has,
/// at each of the 32 places, the byte that the query spells there.
pub proof fn lemma_identity_match_is_whole(entry: ProgramEntryView, query: Seq<u8>)
    requires
        identity_asked(query) == Some(entry.identity),
    ensures
        entry.identity.len() == IDENTITY_LEN,
        unmarked(query).len() == 2 * IDENTITY_LEN,
        forall|i: int|
            0 <= i < IDENTITY_LEN ==> #[trigger] entry.identity[i] == hex_bytes(
                unmarked(query),
            )[i],
{
}

/// An identity written in hexadecimal asks for that identity: every entry
/// is answered for by its own identity written out, so the registry never
/// leaves such a query unanswered.
pub proof fn lemma_written_identity_is_found(entries: Seq<ProgramEntryView>, at: int)
    requires
        0 <= at < entries.len(),
        entries[at].identity.len() == IDENTITY_LEN,
    ensures
        identity_asked(encode_utf8(hex_text(entries[at].identity))) == Some(
            entries[at].identity,
        ),
        answers(entries[at], encode_utf8(hex_text(entries[at].identity))),
        !unanswered(entries, encode_utf8(hex_text(entries[at].identity))),
{
    let identity = entries[at].identity;
    let query = encode_utf8(hex_text(identity));
    lemma_hex_round_trip(identity);
    assert(hex_digit(query[1]) is Some);
    assert(!marked(query));
}

/// Whether two names are the same but for the case of their ASCII letters.
pub fn names_match(a: &[u8], b: &[u8]) -> (same: bool)
    ensures
        same == same_name(a@, b@),
{
    if a.len() != b.len() {
        return false;
    }
    let mut i: usize = 0;
    while i < a.len()
        invariant
            a@.len() == b@.len(),
            i <= a@.len(),
            forall|j: int| 0 <= j < i ==> upper(#[trigger] a@[j]) == upper(b@[j]),
        decreases a@.len() - i,
    {
        let x = if 0x61 <= a[i] && a[i] <= 0x7a {
            a[i] - 0x20
        } else {
            a[i]
        };
        let y = if 0x61 <= b[i] && b[i] <= 0x7a {
            b[i] - 0x20
        } else {
            b[i]
        };
        if x != y {
            assert(upper(a@[i as int]) != upper(b@[i as int]));
            return false;
        }
        i += 1;
    }
    true
}

/// The identity that `query` spells, if it spells one.
pub fn parse_identity(query: &[u8]) -> (asked: Option<[u8; 32]>)
    ensures
        match asked {
            Some(identity) => identity_asked(query@) == Some(identity@),
            None => identity_asked(query@) is None,
        },
{
    let len = query.len();
    let mut at: usize = 0;
    assert(query@.skip(0) =~= query@);
    while len - at >= 2 && query[at] == 0x30 && (query[at + 1] == 0x78 || query[at + 1] == 0x58)
        invariant
            at <= len,
            len == query@.len(),
            unmarked(query@) == unmarked(query@.skip(at as int)),
        decreases len - at,
    {
        assert(marked(query@.skip(at as int)));
        assert(query@.skip(at as int).skip(2) =~= query@.skip(at + 2));
        at += 2;
    }
    assert(!marked(query@.skip(at as int)));
    let digits = slice_subrange(query, at, len);
    assert(digits@ =~= query@.skip(at as int));
    if digits.len() != 2 * IDENTITY_LEN {
        return None;
    }
    match hex_decode(digits) {
        Some(bytes) => Some(crate::encoding::take_digest(bytes.as_slice(), 0)),
        None => None,
    }
}

impl ProgramEntry {
    /// An entry for the program `name` with the given image, identity and
    /// storage location.
    pub fn new(name: String, image: Vec<u8>, identity: [u8; 32], storage_path: String) -> (entry:
        Self)
        ensures
            entry.name == name,
            entry.image == image,
            entry.identity == identity,
            entry.storage_path == storage_path,
    {
        Self { name, image, identity, storage_path }
    }

    /// An entry whose identity is given as eight 32-bit words, the form in
    /// which build tools emit it. The identity of the entry is the bytes of
    /// those words as this machine holds them.
    pub fn from_words(name: String, image: Vec<u8>, words: [u32; 8], storage_path: String) -> (entry:
        Self)
        ensures
            entry.name == name,
            entry.image == image,
            entry.identity@ == words_le(words@) || entry.identity@ == words_be(words@),
            entry.storage_path == storage_path,
    {
        Self { name, image, identity: words_as_bytes(words), storage_path }
    }

    /// Whether this entry is what `query` asks for.
    pub fn answers_to(&self, query: &str) -> (yes: bool)
        ensures
            yes == answers(self@, encode_utf8(query@)),
    {
        let asked = query.as_bytes();
        if names_match(self.name.as_str().as_bytes(), asked) {
            return true;
        }
        match parse_identity(asked) {
            Some(identity) => same_digest(&identity, &self.identity),
            None => false,
        }
    }
}

impl Registry {
    /// The registry of `entries`, tried in the order given.
    pub fn new(entries: Vec<ProgramEntry>) -> (registry: Self)
        ensures
            registry@ == Seq::new(entries@.len(), |i: int| entries@[i]@),
    {
        Self { entries }
    }

    /// The entries, in the order in which they are tried.
    pub fn entries(&self) -> (entries: &Vec<ProgramEntry>)
        ensures
            self@ == Seq::new(entries@.len(), |i: int| entries@[i]@),
    {
        &self.entries
    }

    /// Where the first entry stands that `query` asks for, by name or by
    /// identity.
    pub fn position(&self, query: &str) -> (found: Option<usize>)
        ensures
            match found {
                Some(at) => first_answer(self@, encode_utf8(query@), at as int),
                None => unanswered(self@, encode_utf8(query@)),
            },
    {
        let asked = query.as_bytes();
        let identity = parse_identity(asked);
        let mut i: usize = 0;
        while i < self.entries.len()
            invariant
                i <= self.entries@.len(),
                asked@ == encode_utf8(query@),
                match identity {
                    Some(spelled) => identity_asked(asked@) == Some(spelled@),
                    None => identity_asked(asked@) is None,
                },
                forall|j: int| 0 <= j < i ==> !answers(#[trigger] self@[j], asked@),
            decreases self.entries@.len() - i,
        {
            let entry = &self.entries[i];
            let by_name = names_match(entry.name.as_str().as_bytes(), asked);
            let by_identity = match &identity {
                Some(spelled) => same_digest(spelled, &entry.identity),
                None => false,
            };
            assert(self@[i as int] == entry@);
            if by_name || by_identity {
                return Some(i);
            }
            i += 1;
        }
        None
    }

    /// The first entry that `query` asks for, by name in any case or by
    /// identity in hexadecimal; [`Error::UnknownProgram`] when there is none.
    pub fn resolve(&self, query: &str) -> (result: Result<&ProgramEntry, Error>)
        ensures
            match result {
                Ok(entry) => exists|at: int|
                    first_answer(self@, encode_utf8(query@), at) && entry@ == self@[at],
                Err(error) => error@ == ErrorView::UnknownProgram && unanswered(
                    self@,
                    encode_utf8(query@),
                ),
            },
    {
        match self.position(query) {
            Some(at) => {
                assert(first_answer(self@, encode_utf8(query@), at as int));
                Ok(&self.entries[at])
            },
            None => Err(Error::UnknownProgram),
        }
    }

    /// The first entry with the identity `identity`;
    /// [`Error::UnknownProgram`] when there is none.
    pub fn resolve_identity(&self, identity: &[u8; 32]) -> (result: Result<&ProgramEntry, Error>)
        ensures
            match result {
                Ok(entry) => exists|at: int|
                    first_with_identity(self@, identity@, at) && entry@ == self@[at],
                Err(error) => error@ == ErrorView::UnknownProgram && forall|j: int|
                    0 <= j < self@.len() ==> (#[trigger] self@[j]).identity != identity@,
            },
    {
        let mut i: usize = 0;
        while i < self.entries.len()
            invariant
                i <= self.entries@.len(),
                forall|j: int| 0 <= j < i ==> (#[trigger] self@[j]).identity != identity@,
            decreases self.entries@.len() - i,
        {
            if same_digest(&self.entries[i].identity, identity) {
                assert(first_with_identity(self@, identity@, i as int));
                return Ok(&self.entries[i]);
            }
            i += 1;
        }
        Err(Error::UnknownProgram)
    }
}

} // verus!
