//! The top of the library: from a request to a plan, and from a receipt to
//! the text that is printed.
//!
//! The dispatcher routes and nothing more. It recovers from no error: what a
//! component reports is what the caller gets.

use vstd::prelude::*;
use vstd::slice::slice_subrange;
use vstd::utf8::encode_utf8;

use crate::client::{header_safe, separator_at, Client};
use crate::encoding::{hex_bytes, hex_decode, hex_encode, hex_text, is_hex};
use crate::error::{Error, ErrorView};
use crate::packager::{
    all_header_sized, package, packaged, records, unpackage, unpackaged, PackagedInput,
    PackagedInputView,
};
use crate::program::encode_record;
use crate::receipt::{
    output_record, verdict, verify, Receipt, ReceiptView, VerifiedOutput, VerifiedOutputView,
};
use crate::registry::{first_answer, unanswered, ProgramEntry, ProgramEntryView, Registry};
use crate::remote::{RemoteJob, DEFAULT_POLL_INTERVAL_SECS};

verus! {

/// Where proofs are made.
#[derive(Debug, Clone, PartialEq, Eq)]
pub enum Backend {
    /// On this machine.
    Local,
    /// On a remote proving service.
    Remote(RemoteJob),
}

/// What a dispatcher is set up with.
#[derive(Debug, Clone, PartialEq, Eq)]
pub struct Config {
    /// The backend that proves.
    pub backend: Backend,
    /// Whether the local backend is to produce a seal, or only to execute.
    pub prove_locally: bool,
}

/// What is to be done for a request.
#[derive(Debug, Clone, PartialEq, Eq)]
pub enum Plan {
    /// No input came with the request: print `text`, the identity of the
    /// program, and prove nothing.
    ShowIdentity { text: String },
    /// Run the program at `entry` on `input` on this machine, with a seal
    /// where `seal` says so.
    ProveLocally { entry: usize, input: Vec<u8>, seal: bool },
    /// Have the remote service run the program at `entry` on `input`.
    ProveRemotely { entry: usize, input: Vec<u8> },
}

/// Mathematical value of a [`Plan`].
pub enum PlanView {
    ShowIdentity { text: Seq<char> },
    ProveLocally { entry: int, input: Seq<u8>, seal: bool },
    ProveRemotely { entry: int, input: Seq<u8> },
}

impl View for Plan {
    type V = PlanView;

    open spec fn view(&self) -> PlanView {
        match self {
            Plan::ShowIdentity { text } => PlanView::ShowIdentity { text: text@ },
            Plan::ProveLocally { entry, input, seal } => PlanView::ProveLocally {
                entry: *entry as int,
                input: input@,
                seal: *seal,
            },
            Plan::ProveRemotely { entry, input } => PlanView::ProveRemotely {
                entry: *entry as int,
                input: input@,
            },
        }
    }
}

/// The plan for a request that asks for the program at `entry`, with
/// `input` if it brought one.
///
/// Without input the plan is to show the identity. With input, the input is
/// packaged, which fails on a record of the wrong length, and goes to the
/// backend that the configuration names.
pub open spec fn planned(
    entries: Seq<ProgramEntryView>,
    remote: bool,
    seal: bool,
    entry: int,
    input: Option<PackagedInputView>,
) -> Result<PlanView, ErrorView> {
    match input {
        None => Ok(PlanView::ShowIdentity { text: hex_text(entries[entry].identity) }),
        Some(given) => {
            if !all_header_sized(given.headers) {
                Err(ErrorView::MalformedInput)
            } else if remote {
                Ok(
                    PlanView::ProveRemotely {
                        entry,
                        input: packaged(given.height, given.headers),
                    },
                )
            } else {
                Ok(
                    PlanView::ProveLocally {
                        entry,
                        input: packaged(given.height, given.headers),
                        seal,
                    },
                )
            }
        },
    }
}

/// Value of the result of a dispatch.
pub open spec fn plan_view(result: Result<Plan, Error>) -> Result<PlanView, ErrorView> {
    match result {
        Ok(plan) => Ok(plan@),
        Err(error) => Err(error@),
    }
}

/// Value of an input that may be absent.
pub open spec fn input_view(input: Option<&PackagedInput>) -> Option<PackagedInputView> {
    match input {
        Some(given) => Some(given@),
        None => None,
    }
}

/// What a payload text holds: after its first two bytes, which mark it and
/// are not read, the hexadecimal spelling of a packaged input.
pub open spec fn payload(text: Seq<u8>) -> Option<PackagedInputView> {
    if text.len() >= 2 && is_hex(text.skip(2)) {
        unpackaged(hex_bytes(text.skip(2)))
    } else {
        None
    }
}

/// The text that is printed for `output`: its record in hexadecimal.
pub open spec fn rendered(output: VerifiedOutputView) -> Seq<char> {
    hex_text(output_record(output.height, output.block_hash))
}

impl Config {
    /// The configuration for the settings found at start: the endpoint of
    /// the remote service as `<url>|<key>`, if one is set, and whether the
    /// local backend is to seal.
    ///
    /// With an endpoint proofs are made remotely, at the default polling
    /// interval; without one, on this machine. `None` when there is an
    /// endpoint and it is not one: see [`Client::from_endpoint`].
    pub fn from_settings(endpoint: Option<&str>, prove_locally: bool) -> (made: Option<Self>)
        ensures
            match endpoint {
                None => made matches Some(config) && config.backend is Local
                    && config.prove_locally == prove_locally,
                Some(text) => match made {
                    Some(config) => config.prove_locally == prove_locally && (
                    config.backend matches Backend::Remote(job) && job.poll_interval_secs
                        == DEFAULT_POLL_INTERVAL_SECS && exists|at: int|
                        separator_at(text@, at) && job.client@.url == text@.subrange(0, at)
                            && job.client@.key == text@.subrange(at + 1, text@.len() as int)),
                    None => forall|at: int|
                        separator_at(text@, at) ==> !header_safe(
                            encode_utf8(text@.subrange(at + 1, text@.len() as int)),
                        ),
                },
            },
    {
        match endpoint {
            None => Some(Config { backend: Backend::Local, prove_locally }),
            Some(text) => match Client::from_endpoint(text) {
                Some(client) => Some(
                    Config { backend: Backend::Remote(RemoteJob::new(client)), prove_locally },
                ),
                None => {
                    assert forall|at: int| separator_at(text@, at) implies !header_safe(
                        encode_utf8(text@.subrange(at + 1, text@.len() as int)),
                    ) by {
                        if header_safe(encode_utf8(text@.subrange(at + 1, text@.len() as int))) {
                            assert(exists|p: int|
                                separator_at(text@, p) && header_safe(
                                    encode_utf8(text@.subrange(p + 1, text@.len() as int)),
                                ));
                        }
                    }
                    None
                },
            },
        }
    }

    /// Whether proofs are made remotely.
    pub fn is_remote(&self) -> (remote: bool)
        ensures
            remote == (self.backend is Remote),
    {
        match &self.backend {
            Backend::Remote(_) => true,
            Backend::Local => false,
        }
    }
}

/// Reads the payload of a request: two bytes of marker, then a packaged
/// input in hexadecimal. Anything else is [`Error::MalformedInput`].
pub fn parse_payload(text: &str) -> (result: Result<PackagedInput, Error>)
    ensures
        match result {
            Ok(input) => payload(encode_utf8(text@)) == Some(input@),
            Err(error) => error@ == ErrorView::MalformedInput && payload(encode_utf8(text@))
                is None,
        },
{
    let bytes = text.as_bytes();
    if bytes.len() < 2 {
        return Err(Error::MalformedInput);
    }
    let digits = slice_subrange(bytes, 2, bytes.len());
    assert(digits@ =~= bytes@.skip(2));
    match hex_decode(digits) {
        Some(buf) => unpackage(buf.as_slice()),
        None => Err(Error::MalformedInput),
    }
}

/// Decides what is to be done for a request.
///
/// The program is resolved first: a query that no entry answers is
/// [`Error::UnknownProgram`], whatever else the request holds, and nothing
/// is packaged or proven for it. See [`planned`] for the rest.
pub fn dispatch(
    registry: &Registry,
    config: &Config,
    query: &str,
    input: Option<&PackagedInput>,
) -> (result: Result<Plan, Error>)
    ensures
        unanswered(registry@, encode_utf8(query@)) ==> plan_view(result) == Err::<
            PlanView,
            ErrorView,
        >(ErrorView::UnknownProgram),
        forall|at: int|
            first_answer(registry@, encode_utf8(query@), at) ==> plan_view(result) == planned(
                registry@,
                config.backend is Remote,
                config.prove_locally,
                at,
                input_view(input),
            ),
{
    let at = match registry.position(query) {
        Some(at) => at,
        None => {
            return Err(Error::UnknownProgram);
        },
    };
    assert forall|other: int| first_answer(registry@, encode_utf8(query@), other) implies other
        == at by {
        assert(first_answer(registry@, encode_utf8(query@), at as int));
    }
    let entry = &registry.entries()[at];
    assert(entry@ == registry@[at as int]);
    match input {
        None => Ok(Plan::ShowIdentity { text: hex_encode(entry.identity.as_slice()) }),
        Some(given) => {
            match package(given.height, &given.headers) {
                Err(error) => Err(error),
                Ok(buf) => {
                    if config.is_remote() {
                        Ok(Plan::ProveRemotely { entry: at, input: buf })
                    } else {
                        Ok(Plan::ProveLocally { entry: at, input: buf, seal: config.prove_locally })
                    }
                },
            }
        },
    }
}

/// The text that is printed for `output`.
pub fn render(output: &VerifiedOutput) -> (text: String)
    ensures
        text@ == rendered(output@),
{
    let record = encode_record(output.height, &output.block_hash);
    hex_encode(record.as_slice())
}

/// What a job ends with once its backend has returned `receipt` for the
/// program `entry`: the text of the verified output, or the reason why the
/// receipt is not believed.
pub fn conclude(entry: &ProgramEntry, receipt: &Receipt) -> (result: Result<String, Error>)
    ensures
        match result {
            Ok(text) => verdict(receipt@, entry@.identity) matches Ok(output) && text@
                == rendered(output),
            Err(error) => verdict(receipt@, entry@.identity) == Err::<
                VerifiedOutputView,
                ErrorView,
            >(error@),
        },
{
    match verify(receipt, &entry.identity) {
        Ok(output) => Ok(render(&output)),
        Err(error) => Err(error),
    }
}

} // verus!
