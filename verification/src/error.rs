//! The ways in which a proof job can end without a result.

use vstd::prelude::*;
use vstd::string::*;

verus! {

/// Why a job attempt ended without a verified output.
///
/// No kind is retried by this library, and none is ever turned into another:
/// whoever receives one sees what went wrong and where.
#[derive(Debug, Clone, PartialEq, Eq)]
pub enum Error {
    /// A header record handed to the packager is not exactly 80 bytes long,
    /// or a payload cannot be read as height and header records.
    MalformedInput,
    /// No registry entry answers to the name or identity asked for.
    UnknownProgram,
    /// The program halted abnormally on its input.
    ExecutionFailed,
    /// The service did not issue an upload location; `body` is what it sent.
    UploadLocationUnavailable { body: String },
    /// The transfer to an issued upload location did not succeed.
    UploadFailed,
    /// The service refused to create a session; `body` is what it sent.
    SessionCreationFailed { body: String },
    /// The service, or the transport in its name, broke the protocol.
    ProtocolViolation,
    /// The remote job ended in a state other than success; `status` is the
    /// status text exactly as the service reported it.
    RemoteJobFailed { status: String },
    /// The receipt could not be fetched from its locator.
    DownloadFailed,
    /// The receipt is not bound to the expected program identity.
    IdentityMismatch,
    /// The committed output does not decode into height and block hash.
    MalformedJournal,
}

/// Mathematical value of an [`Error`]: texts are sequences of characters.
pub enum ErrorView {
    MalformedInput,
    UnknownProgram,
    ExecutionFailed,
    UploadLocationUnavailable { body: Seq<char> },
    UploadFailed,
    SessionCreationFailed { body: Seq<char> },
    ProtocolViolation,
    RemoteJobFailed { status: Seq<char> },
    DownloadFailed,
    IdentityMismatch,
    MalformedJournal,
}

impl View for Error {
    type V = ErrorView;

    open spec fn view(&self) -> ErrorView {
        match self {
            Error::MalformedInput => ErrorView::MalformedInput,
            Error::UnknownProgram => ErrorView::UnknownProgram,
            Error::ExecutionFailed => ErrorView::ExecutionFailed,
            Error::UploadLocationUnavailable { body } => ErrorView::UploadLocationUnavailable {
                body: body@,
            },
            Error::UploadFailed => ErrorView::UploadFailed,
            Error::SessionCreationFailed { body } => ErrorView::SessionCreationFailed {
                body: body@,
            },
            Error::ProtocolViolation => ErrorView::ProtocolViolation,
            Error::RemoteJobFailed { status } => ErrorView::RemoteJobFailed { status: status@ },
            Error::DownloadFailed => ErrorView::DownloadFailed,
            Error::IdentityMismatch => ErrorView::IdentityMismatch,
            Error::MalformedJournal => ErrorView::MalformedJournal,
        }
    }
}

/// What is said of an error: its kind in words and, where the service sent
/// a text, that text after a colon, unchanged.
pub open spec fn message_of(error: ErrorView) -> Seq<char> {
    match error {
        ErrorView::MalformedInput => "malformed input"@,
        ErrorView::UnknownProgram => "unknown program"@,
        ErrorView::ExecutionFailed => "execution failed"@,
        ErrorView::UploadLocationUnavailable { body } => "upload location unavailable: "@ + body,
        ErrorView::UploadFailed => "upload failed"@,
        ErrorView::SessionCreationFailed { body } => "session creation failed: "@ + body,
        ErrorView::ProtocolViolation => "protocol violation"@,
        ErrorView::RemoteJobFailed { status } => "remote job failed: "@ + status,
        ErrorView::DownloadFailed => "download failed"@,
        ErrorView::IdentityMismatch => "identity mismatch"@,
        ErrorView::MalformedJournal => "malformed journal"@,
    }
}

impl Error {
    /// The text that is shown for this error.
    pub fn message(&self) -> (text: String)
        ensures
            text@ == message_of(self@),
    {
        match self {
            Error::MalformedInput => String::from_str("malformed input"),
            Error::UnknownProgram => String::from_str("unknown program"),
            Error::ExecutionFailed => String::from_str("execution failed"),
            Error::UploadLocationUnavailable { body } => {
                let mut text = String::from_str("upload location unavailable: ");
                text.append(body.as_str());
                text
            },
            Error::UploadFailed => String::from_str("upload failed"),
            Error::SessionCreationFailed { body } => {
                let mut text = String::from_str("session creation failed: ");
                text.append(body.as_str());
                text
            },
            Error::ProtocolViolation => String::from_str("protocol violation"),
            Error::RemoteJobFailed { status } => {
                let mut text = String::from_str("remote job failed: ");
                text.append(status.as_str());
                text
            },
            Error::DownloadFailed => String::from_str("download failed"),
            Error::IdentityMismatch => String::from_str("identity mismatch"),
            Error::MalformedJournal => String::from_str("malformed journal"),
        }
    }
}

} // verus!
