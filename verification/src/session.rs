//! Values exchanged with the remote proving service.

use vstd::prelude::*;

verus! {

/// Answer to a request for an upload location.
#[derive(Debug, Clone, PartialEq, Eq)]
pub struct UploadRes {
    /// Presigned location that accepts the bytes in one transfer.
    pub url: String,
    /// Reference under which the service will know the uploaded bytes.
    pub uuid: String,
}

/// Mathematical value of an [`UploadRes`].
pub struct UploadResView {
    pub url: Seq<char>,
    pub uuid: Seq<char>,
}

impl View for UploadRes {
    type V = UploadResView;

    open spec fn view(&self) -> UploadResView {
        UploadResView { url: self.url@, uuid: self.uuid@ }
    }
}

/// Answer to the creation of a session.
#[derive(Debug, Clone, PartialEq, Eq)]
pub struct CreateSessRes {
    /// Token of the new session.
    pub uuid: String,
}

/// Mathematical value of a [`CreateSessRes`].
pub struct CreateSessResView {
    pub uuid: Seq<char>,
}

impl View for CreateSessRes {
    type V = CreateSessResView;

    open spec fn view(&self) -> CreateSessResView {
        CreateSessResView { uuid: self.uuid@ }
    }
}

/// Request that creates a session from two uploaded artifacts.
#[derive(Debug, Clone, PartialEq, Eq)]
pub struct ProofReq {
    /// Reference of the uploaded program image.
    pub img: String,
    /// Reference of the uploaded input buffer.
    pub input: String,
}

/// Mathematical value of a [`ProofReq`].
pub struct ProofReqView {
    pub img: Seq<char>,
    pub input: Seq<char>,
}

impl View for ProofReq {
    type V = ProofReqView;

    open spec fn view(&self) -> ProofReqView {
        ProofReqView { img: self.img@, input: self.input@ }
    }
}

/// What the service reports of a session.
#[derive(Debug, Clone, PartialEq, Eq)]
pub struct SessionStatusRes {
    /// One of `RUNNING`, `SUCCEEDED`, `FAILED`, `TIMED_OUT`, `ABORTED`.
    pub status: String,
    /// Where the receipt can be fetched; owed once `status` is `SUCCEEDED`.
    pub receipt_url: Option<String>,
}

/// Mathematical value of a [`SessionStatusRes`].
pub struct SessionStatusResView {
    pub status: Seq<char>,
    pub receipt_url: Option<Seq<char>>,
}

impl View for SessionStatusRes {
    type V = SessionStatusResView;

    open spec fn view(&self) -> SessionStatusResView {
        SessionStatusResView {
            status: self.status@,
            receipt_url: match self.receipt_url {
                Some(url) => Some(url@),
                None => None,
            },
        }
    }
}

/// A proving session on the remote service.
///
/// The token is all there is to it: the service alone knows how far the
/// session has come.
#[derive(Debug, Clone, PartialEq, Eq)]
pub struct SessionId {
    /// Token that the service issued for the session.
    pub uuid: String,
}

impl View for SessionId {
    type V = Seq<char>;

    open spec fn view(&self) -> Seq<char> {
        self.uuid@
    }
}

impl SessionId {
    /// Wraps a token issued by the service.
    pub fn new(uuid: String) -> (id: Self)
        ensures
            id.uuid == uuid,
            id@ == uuid@,
    {
        Self { uuid }
    }
}

} // verus!
