use header_proof::error::Error;
use header_proof::packager::package;
use header_proof::program::{check_applies, check_target, commit, execute, MAX_HEADERS};
use header_proof::receipt::{verify, Receipt, VerifiedOutput};

/// The headers of the first six blocks of the Bitcoin main chain.
const CHAIN: [&str; 6] = [
    "0100000000000000000000000000000000000000000000000000000000000000000000003ba3edfd7a7b12b27ac72c3e67768f617fc81bc3888a51323a9fb8aa4b1e5e4a29ab5f49ffff001d1dac2b7c",
    "010000006fe28c0ab6f1b372c1a6a246ae63f74f931e8365e15a089c68d6190000000000982051fd1e4ba744bbbe680e1fee14677ba1a3c3540bf7b1cdb606e857233e0e61bc6649ffff001d01e36299",
    "010000004860eb18bf1b1620e37e9490fc8a427514416fd75159ab86688e9a8300000000d5fdcc541e25de1c7a5addedf24858b8bb665c9f36ef744ee42c316022c90f9bb0bc6649ffff001d08d2bd61",
    "01000000bddd99ccfda39da1b108ce1a5d70038d0a967bacb68b6b63065f626a0000000044f672226090d85db9a9f2fbfe5f0f9609b387af7be5b7fbb7a1767c831c9e995dbe6649ffff001d05e0ed6d",
    "010000004944469562ae1c2c74d9a535e00b6f3e40ffbad4f2fda3895501b582000000007a06ea98cd40ba2e3288262b28638cec5337c1456aaf5eedc8e9e5a20f062bdf8cc16649ffff001d2bfee0a9",
    "0100000085144a84488ea88d221c8bd6c059da090e88f8a2c99690ee55dbba4e00000000e11c48fecdd9e72510ca84f023370c9a38bf91ac5cae88019bee94d24528526344c36649ffff001d1d03e477",
];

/// Hash of the sixth of them, as explorers print it.
const TIP: &str = "000000009b7262315dbf071787ad3656097b892abffd1f95a1a022f896f533fc";

fn chain() -> Vec<Vec<u8>> {
    CHAIN.iter().map(|h| hex::decode(h).unwrap()).collect()
}

fn tip() -> [u8; 32] {
    let mut hash: Vec<u8> = hex::decode(TIP).unwrap();
    hash.reverse();
    hash.try_into().unwrap()
}

fn record(height: u64, hash: [u8; 32]) -> Vec<u8> {
    let mut bytes = vec![0u8; 24];
    bytes.extend_from_slice(&height.to_be_bytes());
    bytes.extend_from_slice(&hash);
    bytes
}

#[test]
fn six_linked_headers_commit_height_and_hash_of_the_sixth() {
    let buf = package(15, &chain()).unwrap();
    let journal = execute(&buf, true).unwrap();
    assert_eq!(journal, record(15, tip()));
    let identity = [0x5a; 32];
    let receipt = Receipt { journal, binding: Some(identity) };
    assert_eq!(verify(&receipt, &identity), Ok(VerifiedOutput { height: 15, block_hash: tip() }));
}

#[test]
fn one_altered_byte_in_the_fifth_header_commits_nothing() {
    for at in [0usize, 3, 4, 35, 36, 67, 68, 71, 72, 76, 79] {
        let mut headers = chain();
        headers[4][at] ^= 0x01;
        let buf = package(15, &headers).unwrap();
        assert_eq!(execute(&buf, true), Err(Error::ExecutionFailed));
        assert_eq!(execute(&buf, false), Err(Error::ExecutionFailed));
    }
}

#[test]
fn one_altered_byte_anywhere_else_commits_nothing_either() {
    for header in 0..6 {
        let mut headers = chain();
        headers[header][40] ^= 0x80;
        let buf = package(15, &headers).unwrap();
        assert_eq!(execute(&buf, true), Err(Error::ExecutionFailed));
    }
}

#[test]
fn height_is_committed_as_given() {
    for height in [0u64, 5, 1 << 40, u64::MAX] {
        let buf = package(height, &chain()).unwrap();
        assert_eq!(execute(&buf, true), Ok(record(height, tip())));
    }
}

#[test]
fn shorter_chains_commit_the_hash_of_their_last_header() {
    let headers = chain();
    let buf = package(1, &headers[..2].to_vec()).unwrap();
    let mut second: Vec<u8> =
        hex::decode("00000000839a8e6886ab5951d76f411475428afc90947ee320161bbf18eb6048").unwrap();
    second.reverse();
    assert_eq!(execute(&buf, true), Ok(record(1, second.try_into().unwrap())));
    // a chain may start anywhere
    let buf = package(5, &headers[3..].to_vec()).unwrap();
    assert_eq!(execute(&buf, true), Ok(record(5, tip())));
}

#[test]
fn headers_out_of_order_commit_nothing() {
    let mut headers = chain();
    headers.swap(2, 3);
    let buf = package(15, &headers).unwrap();
    assert_eq!(execute(&buf, true), Err(Error::ExecutionFailed));
    let mut headers = chain();
    headers.remove(2);
    let buf = package(15, &headers).unwrap();
    assert_eq!(execute(&buf, true), Err(Error::ExecutionFailed));
}

#[test]
fn no_headers_commit_nothing() {
    let buf = package(15, &vec![]).unwrap();
    assert_eq!(execute(&buf, true), Err(Error::ExecutionFailed));
    assert_eq!(execute(&[], true), Err(Error::ExecutionFailed));
}

#[test]
fn buffer_that_is_no_package_commits_nothing() {
    let mut buf = package(15, &chain()).unwrap();
    buf.push(0);
    assert_eq!(execute(&buf, true), Err(Error::ExecutionFailed));
    buf.truncate(8 + 80 * 6 - 1);
    assert_eq!(execute(&buf, true), Err(Error::ExecutionFailed));
}

#[test]
fn target_that_cannot_be_computed_commits_nothing() {
    for exponent in [35u8, 36, 0x80, 0xff] {
        let mut headers = chain();
        headers[0][75] = exponent;
        let buf = package(15, &headers).unwrap();
        assert_eq!(execute(&buf, true), Err(Error::ExecutionFailed));
        assert_eq!(execute(&buf, false), Err(Error::ExecutionFailed));
        let mut headers = chain();
        headers[5][75] = exponent;
        let buf = package(15, &headers).unwrap();
        assert_eq!(execute(&buf, true), Err(Error::ExecutionFailed));
        assert_eq!(execute(&buf, false), Err(Error::ExecutionFailed));
    }
}

#[test]
fn largest_targets_that_can_be_computed_are_handed_to_the_validator() {
    // exponent and mantissa at the edge: the validator runs and refuses the work or the link
    for (exponent, high, mid) in [(32u8, 0xffu8, 0xffu8), (33, 0, 0xff), (34, 0, 0)] {
        let mut headers = chain();
        headers[0][75] = exponent;
        headers[0][74] = high;
        headers[0][73] = mid;
        let buf = package(15, &headers).unwrap();
        assert!(check_applies(&buf[8..], true));
        assert_eq!(execute(&buf, true), Err(Error::ExecutionFailed));
    }
}

#[test]
fn check_target_knows_the_edge() {
    let mut header = chain()[0].clone();
    assert!(check_target(&header));
    for (exponent, high, mid, fits) in [
        (0u8, 0xffu8, 0xffu8, true),
        (32, 0xff, 0xff, true),
        (33, 0, 0xff, true),
        (33, 1, 0, false),
        (34, 0, 0, true),
        (34, 0, 1, false),
        (34, 1, 0, false),
        (35, 0, 0, false),
        (255, 0, 0, false),
    ] {
        header[75] = exponent;
        header[74] = high;
        header[73] = mid;
        assert_eq!(check_target(&header), fits);
    }
}

#[test]
fn check_applies_reads_only_the_targets_the_validator_will() {
    let mut data: Vec<u8> = chain().concat();
    assert!(check_applies(&data, true));
    assert!(check_applies(&data, false));
    assert!(check_applies(&[], true));
    assert!(!check_applies(&data[1..], true));
    data[80 * 3 + 75] = 0xff;
    assert!(!check_applies(&data, true));
    assert!(check_applies(&data, false));
    data[75] = 0xff;
    assert!(!check_applies(&data, false));
    assert_eq!(MAX_HEADERS, 0xffff_ffff);
}

#[test]
fn difficulty_may_change_only_when_allowed() {
    // the second header claims an easier target than the first
    let mut headers = chain();
    headers[1][72] = 0xfe;
    let buf = package(1, &headers[..2].to_vec()).unwrap();
    assert_eq!(execute(&buf, true), Err(Error::ExecutionFailed));
}

#[test]
fn commit_records_only_what_was_accepted() {
    assert_eq!(commit(15, true, &[0xcd; 32]), Ok(record(15, [0xcd; 32])));
    assert_eq!(commit(15, false, &[0xcd; 32]), Err(Error::ExecutionFailed));
    assert_eq!(
        commit(0x0102_0304_0506_0708, true, &[0; 32]).unwrap()[..32],
        [
            0, 0, 0, 0, 0, 0, 0, 0, 0, 0, 0, 0, 0, 0, 0, 0, 0, 0, 0, 0, 0, 0, 0, 0, 1, 2, 3, 4, 5,
            6, 7, 8
        ]
    );
}
