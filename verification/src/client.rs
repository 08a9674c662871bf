//! The remote proving service as this library addresses it: where it is,
//! the key that opens it, and the locations of its operations.

use vstd::prelude::*;
use vstd::string::*;
use vstd::utf8::encode_utf8;

use crate::session::SessionId;

verus! {

/// Whether `b` may stand in the value of a request header.
pub open spec fn header_byte(b: u8) -> bool {
    (b >= 32 && b != 127) || b == 9
}

/// Whether every byte of `bytes` may stand in the value of a request header.
pub open spec fn header_safe(bytes: Seq<u8>) -> bool {
    forall|i: int| 0 <= i < bytes.len() ==> header_byte(#[trigger] bytes[i])
}

/// Whether a response status reports success: the range 200 to 299.
pub open spec fn success_status(status: u16) -> bool {
    200 <= status < 300
}

/// Position of the separator in `<url>|<key>`, where there is exactly one.
pub open spec fn separator_at(text: Seq<char>, at: int) -> bool {
    &&& 0 <= at < text.len()
    &&& forall|i: int| 0 <= i < text.len() ==> ((#[trigger] text[i] == '|') <==> i == at)
}

/// Where a service at `base` issues upload locations for `route`.
pub open spec fn upload_location(base: Seq<char>, route: Seq<char>) -> Seq<char> {
    base + "/"@ + route + "/upload"@
}

/// Where a service at `base` creates sessions.
pub open spec fn create_location(base: Seq<char>) -> Seq<char> {
    base + "/sessions/create"@
}

/// Where a service at `base` reports on the session `uuid`.
pub open spec fn status_location(base: Seq<char>, uuid: Seq<char>) -> Seq<char> {
    base + "/sessions/status/"@ + uuid
}

/// Mathematical value of a [`Client`].
pub struct ClientView {
    pub url: Seq<char>,
    pub key: Seq<char>,
}

/// Address and credentials of the remote proving service.
///
/// A client only ever holds a key that can be sent as a request header.
#[derive(Debug, PartialEq, Eq)]
pub struct Client {
    url: String,
    key: String,
}

impl View for Client {
    type V = ClientView;

    closed spec fn view(&self) -> ClientView {
        ClientView { url: self.url@, key: self.key@ }
    }
}

/// `reqwest::header::HeaderValue::from_str`, asked only whether it accepts
/// `key`. It accepts a text exactly when none of its bytes is a control
/// character other than the tab.
#[verifier::external_body]
fn accepted_as_header(key: &str) -> (ok: bool)
    ensures
        ok == header_safe(encode_utf8(key@)),
{
    reqwest::header::HeaderValue::from_str(key).is_ok()
}

/// `reqwest::StatusCode::is_success` on the status with the number `status`:
/// true for 200 to 299, false for every other number, a status or not.
#[verifier::external_body]
fn status_in_success_class(status: u16) -> (ok: bool)
    ensures
        ok == success_status(status),
{
    match reqwest::StatusCode::from_u16(status) {
        Ok(code) => code.is_success(),
        Err(_) => false,
    }
}

/// Whether a response with this status reports success.
pub fn is_success(status: u16) -> (ok: bool)
    ensures
        ok == success_status(status),
{
    status_in_success_class(status)
}

impl Clone for Client {
    fn clone(&self) -> (copy: Self)
        ensures
            copy@ == self@,
    {
        proof {
            use_type_invariant(self);
        }
        Self { url: self.url.clone(), key: self.key.clone() }
    }
}

impl Client {
    #[verifier::type_invariant]
    spec fn sendable(self) -> bool {
        header_safe(encode_utf8(self.key@))
    }

    /// A client for the service at `url`, opened by `key`; `None` when `key`
    /// cannot be sent as a request header.
    pub fn from_parts(url: String, key: String) -> (made: Option<Self>)
        ensures
            made is Some <==> header_safe(encode_utf8(key@)),
            made matches Some(client) ==> client@.url == url@ && client@.key == key@,
    {
        if accepted_as_header(key.as_str()) {
            Some(Self { url, key })
        } else {
            None
        }
    }

    /// Reads the single configuration value `<url>|<key>`.
    ///
    /// The text must hold exactly one `|`; what stands before it is the
    /// address, what stands after it the key. `None` for any other text,
    /// and for a key that cannot be sent as a request header.
    pub fn from_endpoint(endpoint: &str) -> (made: Option<Self>)
        ensures
            made is Some <==> exists|at: int|
                separator_at(endpoint@, at) && header_safe(
                    encode_utf8(endpoint@.subrange(at + 1, endpoint@.len() as int)),
                ),
            made matches Some(client) ==> exists|at: int|
                separator_at(endpoint@, at) && client@.url == endpoint@.subrange(0, at)
                    && client@.key == endpoint@.subrange(at + 1, endpoint@.len() as int),
    {
        let len = endpoint.unicode_len();
        let mut at: usize = 0;
        let mut found = false;
        let mut i: usize = 0;
        while i < len
            invariant
                len == endpoint@.len(),
                i <= len,
                found ==> at < i && forall|j: int|
                    0 <= j < i ==> ((#[trigger] endpoint@[j] == '|') <==> j == at),
                !found ==> forall|j: int| 0 <= j < i ==> #[trigger] endpoint@[j] != '|',
            decreases len - i,
        {
            if endpoint.get_char(i) == '|' {
                if found {
                    assert forall|p: int| !separator_at(endpoint@, p) by {
                        if separator_at(endpoint@, p) {
                            assert(endpoint@[at as int] == '|');
                            assert(endpoint@[i as int] == '|');
                        }
                    }
                    return None;
                }
                found = true;
                at = i;
            }
            i += 1;
        }
        if !found {
            assert forall|p: int| !separator_at(endpoint@, p) by {
                if separator_at(endpoint@, p) {
                    assert(endpoint@[p] == '|');
                }
            }
            return None;
        }
        assert(separator_at(endpoint@, at as int));
        assert forall|p: int| separator_at(endpoint@, p) implies p == at by {
            assert(endpoint@[p] == '|');
        }
        let url = String::from_str(endpoint.substring_char(0, at));
        let key = String::from_str(endpoint.substring_char(at + 1, len));
        Self::from_parts(url, key)
    }

    /// Address of the service, as given.
    pub fn url(&self) -> (url: &str)
        ensures
            url@ == self@.url,
    {
        self.url.as_str()
    }

    /// Key of the service: always fit to be sent as a request header.
    pub fn key(&self) -> (key: &str)
        ensures
            key@ == self@.key,
            header_safe(encode_utf8(key@)),
    {
        proof {
            use_type_invariant(self);
        }
        self.key.as_str()
    }

    /// Where to ask for an upload location on `route`:
    /// `<url>/<route>/upload`.
    pub fn upload_url(&self, route: &str) -> (at: String)
        ensures
            at@ == upload_location(self@.url, route@),
    {
        let mut at = String::from_str(self.url.as_str());
        at.append("/");
        at.append(route);
        at.append("/upload");
        at
    }

    /// Where to create a session: `<url>/sessions/create`.
    pub fn create_session_url(&self) -> (at: String)
        ensures
            at@ == create_location(self@.url),
    {
        let mut at = String::from_str(self.url.as_str());
        at.append("/sessions/create");
        at
    }
}

impl SessionId {
    /// Where to ask `client`'s service for the status of this session:
    /// `<url>/sessions/status/<uuid>`.
    pub fn status_url(&self, client: &Client) -> (at: String)
        ensures
            at@ == status_location(client@.url, self@),
    {
        let mut at = String::from_str(client.url());
        at.append("/sessions/status/");
        at.append(self.uuid.as_str());
        at
    }
}

} // verus!
