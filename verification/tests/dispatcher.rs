use header_proof::client::Client;
use header_proof::dispatcher::{
    conclude, dispatch, parse_payload, render, Backend, Config, Plan,
};
use header_proof::error::Error;
use header_proof::packager::{package, PackagedInput};
use header_proof::receipt::{Receipt, VerifiedOutput};
use header_proof::registry::{ProgramEntry, Registry};
use header_proof::remote::RemoteJob;

fn id(seed: u8) -> [u8; 32] {
    let mut identity = [0u8; 32];
    for (i, byte) in identity.iter_mut().enumerate() {
        *byte = seed.wrapping_add(i as u8);
    }
    identity
}

fn registry() -> Registry {
    Registry::new(vec![
        ProgramEntry::new(String::from("FIBONACCI"), vec![1], id(0x20), String::from("/fib")),
        ProgramEntry::new(
            String::from("BITCOIN_BLOCK_VERIFY"),
            vec![2],
            id(0xf0),
            String::from("/btc"),
        ),
    ])
}

fn local(prove_locally: bool) -> Config {
    Config { backend: Backend::Local, prove_locally }
}

fn remote() -> Config {
    let client = Client::from_endpoint("https://api.example|key").unwrap();
    Config { backend: Backend::Remote(RemoteJob::new(client)), prove_locally: false }
}

fn input() -> PackagedInput {
    PackagedInput { height: 15, headers: vec![vec![7; 80], vec![8; 80]] }
}

#[test]
fn unknown_program_is_refused_before_anything_else() {
    let registry = registry();
    let bad = PackagedInput { height: 1, headers: vec![vec![0; 3]] };
    for config in [local(false), local(true), remote()] {
        assert_eq!(dispatch(&registry, &config, "DOES_NOT_EXIST", None), Err(Error::UnknownProgram));
        assert_eq!(
            dispatch(&registry, &config, "DOES_NOT_EXIST", Some(&input())),
            Err(Error::UnknownProgram)
        );
        assert_eq!(
            dispatch(&registry, &config, "DOES_NOT_EXIST", Some(&bad)),
            Err(Error::UnknownProgram)
        );
    }
}

#[test]
fn without_input_the_identity_is_shown() {
    let expected = Plan::ShowIdentity {
        text: String::from("f0f1f2f3f4f5f6f7f8f9fafbfcfdfeff000102030405060708090a0b0c0d0e0f"),
    };
    for config in [local(false), remote()] {
        assert_eq!(dispatch(&registry(), &config, "bitcoin_block_verify", None), Ok(expected.clone()));
    }
    assert_eq!(
        dispatch(
            &registry(),
            &local(false),
            "0xF0F1F2F3F4F5F6F7F8F9FAFBFCFDFEFF000102030405060708090A0B0C0D0E0F",
            None
        ),
        Ok(expected)
    );
}

#[test]
fn with_input_the_configured_backend_proves() {
    let buf = package(15, &input().headers).unwrap();
    assert_eq!(
        dispatch(&registry(), &local(false), "bitcoin_block_verify", Some(&input())),
        Ok(Plan::ProveLocally { entry: 1, input: buf.clone(), seal: false })
    );
    assert_eq!(
        dispatch(&registry(), &local(true), "fibonacci", Some(&input())),
        Ok(Plan::ProveLocally { entry: 0, input: buf.clone(), seal: true })
    );
    assert_eq!(
        dispatch(&registry(), &remote(), "bitcoin_block_verify", Some(&input())),
        Ok(Plan::ProveRemotely { entry: 1, input: buf })
    );
}

#[test]
fn malformed_input_is_refused_for_a_known_program() {
    let bad = PackagedInput { height: 15, headers: vec![vec![7; 80], vec![8; 81]] };
    for config in [local(false), remote()] {
        assert_eq!(
            dispatch(&registry(), &config, "fibonacci", Some(&bad)),
            Err(Error::MalformedInput)
        );
    }
}

#[test]
fn settings_without_endpoint_prove_locally() {
    assert_eq!(Config::from_settings(None, false), Some(local(false)));
    assert_eq!(Config::from_settings(None, true), Some(local(true)));
}

#[test]
fn settings_with_endpoint_prove_remotely() {
    assert_eq!(Config::from_settings(Some("https://api.example|key"), false), Some(remote()));
    let made = Config::from_settings(Some("https://api.example|key"), true).unwrap();
    assert!(made.prove_locally);
    match made.backend {
        Backend::Remote(job) => {
            assert_eq!(job.client.url(), "https://api.example");
            assert_eq!(job.client.key(), "key");
            assert_eq!(job.poll_interval_secs, 15);
        }
        Backend::Local => panic!("an endpoint was set"),
    }
}

#[test]
fn settings_with_a_bad_endpoint_are_refused() {
    for text in ["", "https://api.example", "a|b|c", "https://api.example|k\ney"] {
        assert_eq!(Config::from_settings(Some(text), false), None);
    }
}

#[test]
fn config_knows_its_backend() {
    assert!(remote().is_remote());
    assert!(!local(true).is_remote());
}

#[test]
fn output_is_rendered_as_its_record_in_hexadecimal() {
    let output = VerifiedOutput { height: 15, block_hash: id(0xa0) };
    assert_eq!(
        render(&output),
        "000000000000000000000000000000000000000000000000000000000000000f\
         a0a1a2a3a4a5a6a7a8a9aaabacadaeafb0b1b2b3b4b5b6b7b8b9babbbcbdbebf"
    );
    let output = VerifiedOutput { height: 0x0123_4567_89ab_cdef, block_hash: [0; 32] };
    assert_eq!(
        render(&output),
        "0000000000000000000000000000000000000000000000000123456789abcdef\
         0000000000000000000000000000000000000000000000000000000000000000"
    );
}

#[test]
fn conclude_renders_what_the_receipt_proves() {
    let registry = registry();
    let entry = registry.resolve("fibonacci").unwrap();
    let mut journal = vec![0u8; 24];
    journal.extend_from_slice(&15u64.to_be_bytes());
    journal.extend_from_slice(&id(0xa0));
    let receipt = Receipt { journal: journal.clone(), binding: Some(id(0x20)) };
    assert_eq!(conclude(entry, &receipt), Ok(hex::encode(&journal)));
}

#[test]
fn conclude_hands_on_the_reason_for_disbelief() {
    let registry = registry();
    let entry = registry.resolve("fibonacci").unwrap();
    let receipt = Receipt { journal: vec![0; 64], binding: Some(id(0xf0)) };
    assert_eq!(conclude(entry, &receipt), Err(Error::IdentityMismatch));
    let receipt = Receipt { journal: vec![0; 10], binding: Some(id(0xf0)) };
    assert_eq!(conclude(entry, &receipt), Err(Error::IdentityMismatch));
    let receipt = Receipt { journal: vec![0; 10], binding: Some(id(0x20)) };
    assert_eq!(conclude(entry, &receipt), Err(Error::MalformedJournal));
}

#[test]
fn payload_is_a_marker_and_a_package_in_hexadecimal() {
    let buf = package(15, &input().headers).unwrap();
    assert_eq!(parse_payload(&format!("0x{}", hex::encode(&buf))), Ok(input()));
    assert_eq!(parse_payload(&format!("0X{}", hex::encode(&buf).to_uppercase())), Ok(input()));
    assert_eq!(
        parse_payload("0x0f00000000000000"),
        Ok(PackagedInput { height: 15, headers: vec![] })
    );
}

#[test]
fn payload_that_is_no_package_is_malformed() {
    let buf = package(15, &input().headers).unwrap();
    let text = hex::encode(&buf);
    assert_eq!(parse_payload(""), Err(Error::MalformedInput));
    assert_eq!(parse_payload("0"), Err(Error::MalformedInput));
    assert_eq!(parse_payload("0x"), Err(Error::MalformedInput));
    assert_eq!(parse_payload(&text), Err(Error::MalformedInput));
    assert_eq!(parse_payload(&format!("0x{text}0")), Err(Error::MalformedInput));
    assert_eq!(parse_payload(&format!("0x{text}00")), Err(Error::MalformedInput));
    assert_eq!(parse_payload(&format!("0x{}", &text[..text.len() - 2])), Err(Error::MalformedInput));
    assert_eq!(parse_payload("0xzz00000000000000"), Err(Error::MalformedInput));
    assert_eq!(parse_payload("0\u{e9}0f00000000000000"), Err(Error::MalformedInput));
}

#[test]
fn marker_of_a_payload_is_two_bytes_that_are_not_read() {
    let expected = Ok(PackagedInput { height: 15, headers: vec![] });
    assert_eq!(parse_payload("0x0f00000000000000"), expected);
    assert_eq!(parse_payload("??0f00000000000000"), expected);
    assert_eq!(parse_payload("\u{e9}0f00000000000000"), expected);
}
