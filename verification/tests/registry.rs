use header_proof::error::Error;
use header_proof::registry::{names_match, parse_identity, ProgramEntry, Registry, IDENTITY_LEN};

fn id(seed: u8) -> [u8; 32] {
    let mut identity = [0u8; 32];
    for (i, byte) in identity.iter_mut().enumerate() {
        *byte = seed.wrapping_add(i as u8);
    }
    identity
}

fn entry(name: &str, seed: u8) -> ProgramEntry {
    ProgramEntry::new(
        String::from(name),
        vec![0x7f, b'E', b'L', b'F', seed],
        id(seed),
        format!("/images/{name}"),
    )
}

fn registry() -> Registry {
    Registry::new(vec![
        entry("BITCOIN_BLOCK_VERIFY", 0x10),
        entry("FIBONACCI", 0x40),
        entry("BITCOIN", 0x80),
    ])
}

#[test]
fn identity_is_32_bytes() {
    assert_eq!(IDENTITY_LEN, 32);
}

#[test]
fn resolves_by_name_in_any_case() {
    let registry = registry();
    for query in ["BITCOIN_BLOCK_VERIFY", "bitcoin_block_verify", "Bitcoin_Block_Verify"] {
        assert_eq!(registry.resolve(query), Ok(&entry("BITCOIN_BLOCK_VERIFY", 0x10)));
    }
    assert_eq!(registry.resolve("fibonacci").unwrap().name, "FIBONACCI");
}

#[test]
fn name_in_the_registry_may_be_in_any_case_too() {
    let registry = Registry::new(vec![entry("Mixed_Case", 1)]);
    assert_eq!(registry.position("MIXED_CASE"), Some(0));
    assert_eq!(registry.position("mixed_case"), Some(0));
}

#[test]
fn part_of_a_name_is_not_the_name() {
    let registry = registry();
    for query in ["BITCOIN_BLOCK", "BLOCK", "FIB", "IBONACCI", "BITCOIN_BLOCK_VERIFY_", "", " "] {
        assert_eq!(registry.resolve(query), Err(Error::UnknownProgram));
    }
    // a name that is a part of another name resolves to itself, not to the longer one
    assert_eq!(registry.position("bitcoin"), Some(2));
}

#[test]
fn unknown_program_is_reported() {
    assert_eq!(registry().resolve("DOES_NOT_EXIST"), Err(Error::UnknownProgram));
    assert_eq!(Registry::new(vec![]).resolve("FIBONACCI"), Err(Error::UnknownProgram));
}

#[test]
fn resolves_by_identity_in_hexadecimal() {
    let registry = registry();
    let lower = hex::encode(id(0x40));
    assert_eq!(registry.position(&lower), Some(1));
    assert_eq!(registry.position(&lower.to_uppercase()), Some(1));
    assert_eq!(registry.position(&format!("0x{lower}")), Some(1));
    assert_eq!(registry.position(&format!("0X{}", lower.to_uppercase())), Some(1));
    assert_eq!(registry.position(&format!("0x0x{lower}")), Some(1));
    assert_eq!(registry.resolve(&lower), Ok(&entry("FIBONACCI", 0x40)));
}

#[test]
fn part_of_an_identity_is_not_the_identity() {
    let registry = registry();
    let full = hex::encode(id(0x40));
    assert_eq!(registry.resolve(&full[..62]), Err(Error::UnknownProgram));
    assert_eq!(registry.resolve(&full[..63]), Err(Error::UnknownProgram));
    assert_eq!(registry.resolve(&full[2..]), Err(Error::UnknownProgram));
    assert_eq!(registry.resolve(&format!("{full}00")), Err(Error::UnknownProgram));
    assert_eq!(registry.resolve(&format!("{full} ")), Err(Error::UnknownProgram));
    assert_eq!(registry.resolve(&format!(" {full}")), Err(Error::UnknownProgram));
}

#[test]
fn identity_off_by_one_bit_is_unknown() {
    let registry = registry();
    for at in 0..32 {
        let mut other = id(0x40);
        other[at] ^= 1;
        assert_eq!(registry.resolve(&hex::encode(other)), Err(Error::UnknownProgram));
        assert_eq!(registry.resolve_identity(&other), Err(Error::UnknownProgram));
    }
}

#[test]
fn text_that_spells_no_identity_matches_no_identity() {
    // an entry with the all-zero identity is found by that identity only
    let registry = Registry::new(vec![ProgramEntry::new(
        String::from("ZERO"),
        vec![],
        [0; 32],
        String::new(),
    )]);
    assert_eq!(registry.resolve("not hexadecimal"), Err(Error::UnknownProgram));
    assert_eq!(registry.resolve("0x"), Err(Error::UnknownProgram));
    assert_eq!(registry.resolve("00"), Err(Error::UnknownProgram));
    assert_eq!(registry.position(&"0".repeat(64)), Some(0));
}

#[test]
fn first_entry_that_answers_wins() {
    let mut twin = entry("FIBONACCI", 0x41);
    twin.storage_path = String::from("/second");
    let registry = Registry::new(vec![entry("FIBONACCI", 0x40), twin.clone(), entry("X", 0x41)]);
    assert_eq!(registry.position("fibonacci"), Some(0));
    assert_eq!(registry.position(&hex::encode(id(0x41))), Some(1));
    assert_eq!(registry.resolve_identity(&id(0x41)), Ok(&twin));
}

#[test]
fn name_and_identity_are_tried_entry_by_entry() {
    // the query names the second entry and spells the identity of the first
    let spelled = hex::encode(id(0x40));
    let registry = Registry::new(vec![entry("A", 0x40), entry(&spelled, 0x50)]);
    assert_eq!(registry.position(&spelled), Some(0));
    let registry = Registry::new(vec![entry(&spelled, 0x50), entry("A", 0x40)]);
    assert_eq!(registry.position(&spelled), Some(0));
}

#[test]
fn resolves_by_digest_alone() {
    let registry = registry();
    assert_eq!(registry.resolve_identity(&id(0x80)), Ok(&entry("BITCOIN", 0x80)));
    assert_eq!(registry.resolve_identity(&[0; 32]), Err(Error::UnknownProgram));
}

#[test]
fn entries_are_kept_in_order() {
    let names: Vec<&str> = vec!["BITCOIN_BLOCK_VERIFY", "FIBONACCI", "BITCOIN"];
    let registry = registry();
    assert_eq!(registry.entries().len(), 3);
    for (entry, name) in registry.entries().iter().zip(names) {
        assert_eq!(entry.name, name);
    }
}

#[test]
fn answers_to_agrees_with_resolve() {
    let e = entry("FIBONACCI", 0x40);
    assert!(e.answers_to("Fibonacci"));
    assert!(e.answers_to(&hex::encode(id(0x40))));
    assert!(!e.answers_to("FIBONACC"));
    assert!(!e.answers_to(&hex::encode(id(0x41))));
}

#[test]
fn names_match_folds_ascii_letters_only() {
    assert!(names_match(b"abcXYZ09_", b"ABCxyz09_"));
    assert!(names_match(b"", b""));
    assert!(!names_match(b"a", b"b"));
    assert!(!names_match(b"a", b"aa"));
    // '@' and '`' differ by the same bit as 'A' and 'a' but are no letters
    assert!(!names_match(b"@", b"`"));
    assert!(!names_match(b"[", b"{"));
    assert!(!names_match("\u{e9}".as_bytes(), "\u{c9}".as_bytes()));
}

#[test]
fn parse_identity_reads_64_digits_after_any_markers() {
    let text = hex::encode(id(9));
    assert_eq!(parse_identity(text.as_bytes()), Some(id(9)));
    assert_eq!(parse_identity(format!("0x{text}").as_bytes()), Some(id(9)));
    assert_eq!(parse_identity(format!("0X0x{text}").as_bytes()), Some(id(9)));
    assert_eq!(parse_identity(format!("x{text}").as_bytes()), None);
    assert_eq!(parse_identity(format!("0x{}", &text[1..]).as_bytes()), None);
    assert_eq!(parse_identity(b""), None);
    assert_eq!(parse_identity(&[b'g'; 64]), None);
    let spelled = "0123456789abcdefABCDEF0123456789abcdefABCDEF0123456789abcdefABCD";
    assert_eq!(
        parse_identity(spelled.as_bytes()),
        Some([
            0x01, 0x23, 0x45, 0x67, 0x89, 0xab, 0xcd, 0xef, 0xab, 0xcd, 0xef, 0x01, 0x23, 0x45,
            0x67, 0x89, 0xab, 0xcd, 0xef, 0xab, 0xcd, 0xef, 0x01, 0x23, 0x45, 0x67, 0x89, 0xab,
            0xcd, 0xef, 0xab, 0xcd,
        ])
    );
}

#[test]
fn identity_from_words_is_the_bytes_of_the_words() {
    let words = [0x0403_0201u32, 0x0807_0605, 1, 0x8000_0000, 0, u32::MAX, 0x0a0b_0c0d, 0x1234_5678];
    let made = ProgramEntry::from_words(String::from("P"), vec![9], words, String::from("/p"));
    assert_eq!(made.name, "P");
    assert_eq!(made.image, vec![9]);
    assert_eq!(made.storage_path, "/p");
    let mut le = Vec::new();
    let mut be = Vec::new();
    for word in words {
        le.extend_from_slice(&word.to_le_bytes());
        be.extend_from_slice(&word.to_be_bytes());
    }
    assert!(made.identity.to_vec() == le || made.identity.to_vec() == be);
    assert_eq!(made.identity.to_vec(), words.iter().flat_map(|w| w.to_ne_bytes()).collect::<Vec<u8>>());
}
