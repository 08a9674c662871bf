use header_proof::client::{is_success, Client};
use header_proof::session::SessionId;

#[test]
fn success_is_the_range_200_to_299() {
    for status in [200u16, 201, 204, 250, 299] {
        assert!(is_success(status));
    }
    for status in [0u16, 99, 100, 199, 300, 301, 404, 500, 999, 1000, u16::MAX] {
        assert!(!is_success(status));
    }
}

#[test]
fn from_parts_keeps_address_and_key() {
    let client = Client::from_parts(String::from("https://a.example"), String::from("secret"))
        .unwrap();
    assert_eq!(client.url(), "https://a.example");
    assert_eq!(client.key(), "secret");
}

#[test]
fn from_parts_refuses_a_key_with_control_characters() {
    for key in ["a\nb", "\r", "tail\u{0}", "\u{7f}", "\u{1b}[0m"] {
        assert_eq!(Client::from_parts(String::from("u"), String::from(key)), None);
    }
}

#[test]
fn from_parts_accepts_tab_space_and_bytes_above_ascii() {
    for key in ["", " ", "a\tb", "~", "cl\u{e9}", "\u{1f511}"] {
        let client = Client::from_parts(String::from("u"), String::from(key)).unwrap();
        assert_eq!(client.key(), key);
    }
}

#[test]
fn from_endpoint_splits_at_the_one_separator() {
    let client = Client::from_endpoint("https://api.example/v1|abc123").unwrap();
    assert_eq!(client.url(), "https://api.example/v1");
    assert_eq!(client.key(), "abc123");
}

#[test]
fn from_endpoint_allows_empty_parts() {
    let client = Client::from_endpoint("|").unwrap();
    assert_eq!(client.url(), "");
    assert_eq!(client.key(), "");
    let client = Client::from_endpoint("https://x|").unwrap();
    assert_eq!(client.url(), "https://x");
    assert_eq!(client.key(), "");
}

#[test]
fn from_endpoint_counts_characters_not_bytes() {
    let client = Client::from_endpoint("https://\u{e9}.example|k\u{e9}y").unwrap();
    assert_eq!(client.url(), "https://\u{e9}.example");
    assert_eq!(client.key(), "k\u{e9}y");
}

#[test]
fn from_endpoint_needs_exactly_one_separator() {
    assert_eq!(Client::from_endpoint(""), None);
    assert_eq!(Client::from_endpoint("https://api.example"), None);
    assert_eq!(Client::from_endpoint("a|b|c"), None);
    assert_eq!(Client::from_endpoint("||"), None);
}

#[test]
fn from_endpoint_refuses_an_unsendable_key() {
    assert_eq!(Client::from_endpoint("https://api.example|bad\nkey"), None);
}

#[test]
fn locations_are_built_from_the_address() {
    let client = Client::from_endpoint("https://api.example|k").unwrap();
    assert_eq!(client.upload_url("images"), "https://api.example/images/upload");
    assert_eq!(client.upload_url("inputs"), "https://api.example/inputs/upload");
    assert_eq!(client.upload_url(""), "https://api.example//upload");
    assert_eq!(client.create_session_url(), "https://api.example/sessions/create");
    let session = SessionId::new(String::from("1234-abcd"));
    assert_eq!(session.status_url(&client), "https://api.example/sessions/status/1234-abcd");
}

#[test]
fn clone_is_an_equal_client() {
    let client = Client::from_endpoint("https://api.example|k").unwrap();
    assert_eq!(client.clone(), client);
}

#[test]
fn session_id_keeps_its_token() {
    let id = SessionId::new(String::from("abc-123"));
    assert_eq!(id.uuid, "abc-123");
}
