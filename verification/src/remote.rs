//! The life of one remote proof job, as a machine that decides and never
//! waits: it is told what happened and answers with what to do next.
//!
//! ```text
//! Submitting -> UploadingImage -> UploadingInput -> CreatingSession
//!            -> Polling -> Downloading -> Succeeded
//! ```
//!
//! Every state can also end in `Failed`. Nothing is retried: a failure ends
//! the attempt, and whoever drives the machine may start a new one.
//!
//! The machine sets no deadline. As long as the service reports `RUNNING`
//! it sleeps and asks again; a driver that will not wait for ever stops
//! handing it events, which leaves the session on the service to itself.

use vstd::prelude::*;
use vstd::string::*;

use crate::client::{
    create_location, is_success, status_location, success_status, upload_location, Client,
};
use crate::error::{Error, ErrorView};
use crate::session::{
    CreateSessRes, CreateSessResView, ProofReq, ProofReqView, SessionId, SessionStatusRes,
    SessionStatusResView, UploadRes, UploadResView,
};

verus! {

/// Seconds between two status queries unless a job sets another interval.
pub const DEFAULT_POLL_INTERVAL_SECS: u64 = 15;

/// One of the two artifacts that a job uploads.
#[derive(Debug, Clone, Copy, PartialEq, Eq, Structural)]
pub enum Artifact {
    /// The compiled program image.
    Image,
    /// The packaged input buffer.
    Input,
}

/// How far a job has come.
#[derive(Debug, Clone, PartialEq, Eq)]
pub enum State {
    /// Nothing has been asked of the service yet.
    Submitting,
    /// The image is on its way: without `slot` its upload location has been
    /// asked for, with `slot` the transfer to that location is under way.
    UploadingImage { slot: Option<UploadRes> },
    /// The image is stored under `image` and the input is on its way, in
    /// the same two steps.
    UploadingInput { image: String, slot: Option<UploadRes> },
    /// Both artifacts are stored and the session has been asked for.
    CreatingSession,
    /// The session exists. Awake, a status query is under way; asleep, the
    /// job waits out the interval before the next one.
    Polling { session: SessionId, asleep: bool },
    /// The service reported success and the receipt is being fetched.
    Downloading,
    /// The receipt has been handed over.
    Succeeded,
    /// The attempt is over without a receipt.
    Failed,
}

/// What the driver reports back to the machine.
///
/// A response that should carry a value comes with its status, the text of
/// its body, and the value where the body decodes to one. The text is read
/// only where the response is a refusal.
#[derive(Debug, Clone, PartialEq, Eq)]
pub enum Event {
    /// The job is to begin.
    Start,
    /// The request under way got no response at all.
    TransportFailed,
    /// Response to a request for an upload location.
    UploadLocation { status: u16, body: String, issued: Option<UploadRes> },
    /// Response to the transfer of an artifact.
    Transferred { status: u16 },
    /// Response to the creation of a session.
    SessionReply { status: u16, body: String, created: Option<CreateSessRes> },
    /// Response to a status query.
    StatusReply { status: u16, body: String, report: Option<SessionStatusRes> },
    /// The sleep that was asked for is over.
    Woke,
    /// The download under way delivered these bytes.
    Downloaded { bytes: Vec<u8> },
}

/// What the machine asks of the driver.
#[derive(Debug, Clone, PartialEq, Eq)]
pub enum Action {
    /// GET `url` for an upload location.
    RequestUploadLocation { url: String },
    /// PUT the bytes of `artifact` to `url`.
    Transfer { artifact: Artifact, url: String },
    /// POST `request` to `url`.
    CreateSession { url: String, request: ProofReq },
    /// GET `url` for the status of the session.
    QueryStatus { url: String },
    /// Block for this long, then report `Woke`.
    Sleep { seconds: u64 },
    /// GET the receipt from `url`.
    Download { url: String },
    /// Done: these are the raw bytes of the receipt.
    Deliver { receipt: Vec<u8> },
    /// Done: the attempt failed.
    Fail { error: Error },
}

/// Mathematical value of a [`State`].
pub enum StateView {
    Submitting,
    UploadingImage { slot: Option<UploadResView> },
    UploadingInput { image: Seq<char>, slot: Option<UploadResView> },
    CreatingSession,
    Polling { session: Seq<char>, asleep: bool },
    Downloading,
    Succeeded,
    Failed,
}

/// Mathematical value of an [`Event`].
pub enum EventView {
    Start,
    TransportFailed,
    UploadLocation { status: u16, body: Seq<char>, issued: Option<UploadResView> },
    Transferred { status: u16 },
    SessionReply { status: u16, body: Seq<char>, created: Option<CreateSessResView> },
    StatusReply { status: u16, body: Seq<char>, report: Option<SessionStatusResView> },
    Woke,
    Downloaded { bytes: Seq<u8> },
}

/// Mathematical value of an [`Action`].
pub enum ActionView {
    RequestUploadLocation { url: Seq<char> },
    Transfer { artifact: Artifact, url: Seq<char> },
    CreateSession { url: Seq<char>, request: ProofReqView },
    QueryStatus { url: Seq<char> },
    Sleep { seconds: u64 },
    Download { url: Seq<char> },
    Deliver { receipt: Seq<u8> },
    Fail { error: ErrorView },
}

/// Value of an upload location that may not have been issued yet.
pub open spec fn slot_view(slot: Option<UploadRes>) -> Option<UploadResView> {
    match slot {
        Some(issued) => Some(issued@),
        None => None,
    }
}

impl View for State {
    type V = StateView;

    open spec fn view(&self) -> StateView {
        match self {
            State::Submitting => StateView::Submitting,
            State::UploadingImage { slot } => StateView::UploadingImage { slot: slot_view(*slot) },
            State::UploadingInput { image, slot } => StateView::UploadingInput {
                image: image@,
                slot: slot_view(*slot),
            },
            State::CreatingSession => StateView::CreatingSession,
            State::Polling { session, asleep } => StateView::Polling {
                session: session@,
                asleep: *asleep,
            },
            State::Downloading => StateView::Downloading,
            State::Succeeded => StateView::Succeeded,
            State::Failed => StateView::Failed,
        }
    }
}

impl View for Event {
    type V = EventView;

    open spec fn view(&self) -> EventView {
        match self {
            Event::Start => EventView::Start,
            Event::TransportFailed => EventView::TransportFailed,
            Event::UploadLocation { status, body, issued } => EventView::UploadLocation {
                status: *status,
                body: body@,
                issued: slot_view(*issued),
            },
            Event::Transferred { status } => EventView::Transferred { status: *status },
            Event::SessionReply { status, body, created } => EventView::SessionReply {
                status: *status,
                body: body@,
                created: match created {
                    Some(session) => Some(session@),
                    None => None,
                },
            },
            Event::StatusReply { status, body, report } => EventView::StatusReply {
                status: *status,
                body: body@,
                report: match report {
                    Some(told) => Some(told@),
                    None => None,
                },
            },
            Event::Woke => EventView::Woke,
            Event::Downloaded { bytes } => EventView::Downloaded { bytes: bytes@ },
        }
    }
}

impl View for Action {
    type V = ActionView;

    open spec fn view(&self) -> ActionView {
        match self {
            Action::RequestUploadLocation { url } => ActionView::RequestUploadLocation {
                url: url@,
            },
            Action::Transfer { artifact, url } => ActionView::Transfer {
                artifact: *artifact,
                url: url@,
            },
            Action::CreateSession { url, request } => ActionView::CreateSession {
                url: url@,
                request: request@,
            },
            Action::QueryStatus { url } => ActionView::QueryStatus { url: url@ },
            Action::Sleep { seconds } => ActionView::Sleep { seconds: *seconds },
            Action::Download { url } => ActionView::Download { url: url@ },
            Action::Deliver { receipt } => ActionView::Deliver { receipt: receipt@ },
            Action::Fail { error } => ActionView::Fail { error: error@ },
        }
    }
}

/// The attempt ends with `error`.
pub open spec fn ends_with(error: ErrorView) -> (StateView, ActionView) {
    (StateView::Failed, ActionView::Fail { error })
}

/// What follows a status report on `session`.
///
/// `RUNNING` sends the job to sleep for `interval` seconds. `SUCCEEDED`
/// starts the download from the locator that must come with it, and is a
/// breach of the protocol without one. Any other status ends the attempt and
/// is handed on as it was reported.
pub open spec fn after_report(
    interval: u64,
    session: Seq<char>,
    report: SessionStatusResView,
) -> (StateView, ActionView) {
    if report.status == "RUNNING"@ {
        (StateView::Polling { session, asleep: true }, ActionView::Sleep { seconds: interval })
    } else if report.status == "SUCCEEDED"@ {
        match report.receipt_url {
            Some(url) => (StateView::Downloading, ActionView::Download { url }),
            None => ends_with(ErrorView::ProtocolViolation),
        }
    } else {
        ends_with(ErrorView::RemoteJobFailed { status: report.status })
    }
}

/// The machine itself: the state that follows `state` on `event`, and the
/// action that the driver owes next, for a service at `base` polled every
/// `interval` seconds.
///
/// A refusal is reported under the step that met it: no upload location, a
/// failed transfer, no session, a failed download. A status query that is
/// refused, gets no response or cannot be read is a breach of the protocol.
/// So is an event that does not answer what the state has under way, and
/// every event once the job is over.
pub open spec fn transition(
    base: Seq<char>,
    interval: u64,
    state: StateView,
    event: EventView,
) -> (StateView, ActionView) {
    match (state, event) {
        (StateView::Submitting, EventView::Start) => (
            StateView::UploadingImage { slot: None },
            ActionView::RequestUploadLocation { url: upload_location(base, "images"@) },
        ),
        (StateView::UploadingImage { slot: None }, EventView::TransportFailed) => ends_with(
            ErrorView::UploadLocationUnavailable { body: Seq::empty() },
        ),
        (
            StateView::UploadingImage { slot: None },
            EventView::UploadLocation { status, body, issued },
        ) => match issued {
            Some(issued) if success_status(status) => (
                StateView::UploadingImage { slot: Some(issued) },
                ActionView::Transfer { artifact: Artifact::Image, url: issued.url },
            ),
            _ => ends_with(ErrorView::UploadLocationUnavailable { body }),
        },
        (StateView::UploadingImage { slot: Some(_) }, EventView::TransportFailed) => ends_with(
            ErrorView::UploadFailed,
        ),
        (StateView::UploadingImage { slot: Some(issued) }, EventView::Transferred { status }) => {
            if success_status(status) {
                (
                    StateView::UploadingInput { image: issued.uuid, slot: None },
                    ActionView::RequestUploadLocation { url: upload_location(base, "inputs"@) },
                )
            } else {
                ends_with(ErrorView::UploadFailed)
            }
        },
        (StateView::UploadingInput { image, slot: None }, EventView::TransportFailed) => ends_with(
            ErrorView::UploadLocationUnavailable { body: Seq::empty() },
        ),
        (
            StateView::UploadingInput { image, slot: None },
            EventView::UploadLocation { status, body, issued },
        ) => match issued {
            Some(issued) if success_status(status) => (
                StateView::UploadingInput { image, slot: Some(issued) },
                ActionView::Transfer { artifact: Artifact::Input, url: issued.url },
            ),
            _ => ends_with(ErrorView::UploadLocationUnavailable { body }),
        },
        (StateView::UploadingInput { image, slot: Some(_) }, EventView::TransportFailed) => {
            ends_with(ErrorView::UploadFailed)
        },
        (
            StateView::UploadingInput { image, slot: Some(issued) },
            EventView::Transferred { status },
        ) => {
            if success_status(status) {
                (
                    StateView::CreatingSession,
                    ActionView::CreateSession {
                        url: create_location(base),
                        request: ProofReqView { img: image, input: issued.uuid },
                    },
                )
            } else {
                ends_with(ErrorView::UploadFailed)
            }
        },
        (StateView::CreatingSession, EventView::TransportFailed) => ends_with(
            ErrorView::SessionCreationFailed { body: Seq::empty() },
        ),
        (StateView::CreatingSession, EventView::SessionReply { status, body, created }) => {
            match created {
                Some(created) if success_status(status) => (
                    StateView::Polling { session: created.uuid, asleep: false },
                    ActionView::QueryStatus { url: status_location(base, created.uuid) },
                ),
                _ => ends_with(ErrorView::SessionCreationFailed { body }),
            }
        },
        (
            StateView::Polling { session, asleep: false },
            EventView::StatusReply { status, body, report },
        ) => match report {
            Some(told) if success_status(status) => after_report(interval, session, told),
            _ => ends_with(ErrorView::ProtocolViolation),
        },
        (StateView::Polling { session, asleep: true }, EventView::Woke) => (
            StateView::Polling { session, asleep: false },
            ActionView::QueryStatus { url: status_location(base, session) },
        ),
        (StateView::Downloading, EventView::TransportFailed) => ends_with(
            ErrorView::DownloadFailed,
        ),
        (StateView::Downloading, EventView::Downloaded { bytes }) => (
            StateView::Succeeded,
            ActionView::Deliver { receipt: bytes },
        ),
        _ => ends_with(ErrorView::ProtocolViolation),
    }
}

/// The actions that the machine asks for, one for each of `events` in
/// turn, when it starts in `state`.
pub open spec fn actions(
    base: Seq<char>,
    interval: u64,
    state: StateView,
    events: Seq<EventView>,
) -> Seq<ActionView>
    decreases events.len(),
{
    if events.len() == 0 {
        Seq::empty()
    } else {
        let next = transition(base, interval, state, events[0]);
        seq![next.1] + actions(base, interval, next.0, events.drop_first())
    }
}

/// `rounds` times the two events `first` and `second`.
pub open spec fn repeated(rounds: nat, first: EventView, second: EventView) -> Seq<EventView>
    decreases rounds,
{
    if rounds == 0 {
        Seq::empty()
    } else {
        seq![first, second] + repeated((rounds - 1) as nat, first, second)
    }
}

/// `rounds` times the two actions `first` and `second`.
pub open spec fn alternating(rounds: nat, first: ActionView, second: ActionView) -> Seq<
    ActionView,
>
    decreases rounds,
{
    if rounds == 0 {
        Seq::empty()
    } else {
        seq![first, second] + alternating((rounds - 1) as nat, first, second)
    }
}

/// A session is asked for on one occasion only: the input has just been
/// transferred, after the image, and the request names the two references
/// under which the service stored them.
pub proof fn lemma_session_needs_both_uploads(
    base: Seq<char>,
    interval: u64,
    state: StateView,
    event: EventView,
)
    requires
        transition(base, interval, state, event).1 is CreateSession,
    ensures
        state matches StateView::UploadingInput { image, slot: Some(issued) } && transition(
            base,
            interval,
            state,
            event,
        ).1->CreateSession_request == (ProofReqView { img: image, input: issued.uuid }),
        event matches EventView::Transferred { status } && success_status(status),
{
}

/// Nothing is retried and nothing resumes: every failure leaves the job in
/// `Failed`, and a job that is over answers every event with a failure.
pub proof fn lemma_failure_is_final(
    base: Seq<char>,
    interval: u64,
    state: StateView,
    event: EventView,
)
    ensures
        transition(base, interval, state, event).1 is Fail ==> transition(
            base,
            interval,
            state,
            event,
        ).0 is Failed,
        state is Failed || state is Succeeded ==> transition(base, interval, state, event)
            == ends_with(ErrorView::ProtocolViolation),
{
}

/// A download is asked for on one occasion only: a job that is awake and
/// polling receives a successful response that decodes to a report of
/// `SUCCEEDED` with a locator, and the download is from that locator.
pub proof fn lemma_download_needs_observed_success(
    base: Seq<char>,
    interval: u64,
    state: StateView,
    event: EventView,
)
    requires
        transition(base, interval, state, event).1 is Download,
    ensures
        state matches StateView::Polling { asleep: false, .. },
        event matches EventView::StatusReply { status, report: Some(report), .. }
            && success_status(status) && report.status == "SUCCEEDED"@ && report.receipt_url
            == Some(transition(base, interval, state, event).1->Download_url),
{
}

/// A report of `SUCCEEDED` that lacks the locator of the receipt is a
/// breach of the protocol: the attempt ends, and neither a download nor a
/// further query follows.
pub proof fn lemma_success_without_locator_is_violation(
    base: Seq<char>,
    interval: u64,
    session: Seq<char>,
    status: u16,
    body: Seq<char>,
)
    requires
        success_status(status),
    ensures
        transition(
            base,
            interval,
            StateView::Polling { session, asleep: false },
            EventView::StatusReply {
                status,
                body,
                report: Some(
                    SessionStatusResView { status: "SUCCEEDED"@, receipt_url: None },
                ),
            },
        ) == ends_with(ErrorView::ProtocolViolation),
{
    reveal_strlit("RUNNING");
    reveal_strlit("SUCCEEDED");
    assert("RUNNING"@.len() != "SUCCEEDED"@.len());
}

/// A status other than `RUNNING` and `SUCCEEDED` ends the attempt and is
/// handed on word for word.
pub proof fn lemma_other_status_is_handed_on(
    interval: u64,
    session: Seq<char>,
    report: SessionStatusResView,
)
    requires
        report.status != "RUNNING"@,
        report.status != "SUCCEEDED"@,
    ensures
        after_report(interval, session, report) == ends_with(
            ErrorView::RemoteJobFailed { status: report.status },
        ),
{
}

/// While the service reports `RUNNING`, the job sleeps for the interval and
/// then asks again, and does nothing else.
pub proof fn lemma_running_sleeps_then_asks_again(
    base: Seq<char>,
    interval: u64,
    session: Seq<char>,
    status: u16,
    body: Seq<char>,
    report: SessionStatusResView,
)
    requires
        success_status(status),
        report.status == "RUNNING"@,
    ensures
        transition(
            base,
            interval,
            StateView::Polling { session, asleep: false },
            EventView::StatusReply { status, body, report: Some(report) },
        ) == (
            StateView::Polling { session, asleep: true },
            ActionView::Sleep { seconds: interval },
        ),
        transition(
            base,
            interval,
            StateView::Polling { session, asleep: true },
            EventView::Woke,
        ) == (
            StateView::Polling { session, asleep: false },
            ActionView::QueryStatus { url: status_location(base, session) },
        ),
{
}

/// The whole of polling: a job whose first status query is under way is
/// told `rounds` times `RUNNING` and then `SUCCEEDED` with a locator. It
/// sleeps for the interval and asks again once for every `RUNNING`, which
/// makes one query more than there were reports of `RUNNING`, and asks for
/// the download last and only once.
pub proof fn lemma_polling_run(
    base: Seq<char>,
    interval: u64,
    session: Seq<char>,
    rounds: nat,
    status: u16,
    body: Seq<char>,
    running: SessionStatusResView,
    locator: Seq<char>,
)
    requires
        success_status(status),
        running.status == "RUNNING"@,
    ensures
        actions(
            base,
            interval,
            StateView::Polling { session, asleep: false },
            repeated(
                rounds,
                EventView::StatusReply { status, body, report: Some(running) },
                EventView::Woke,
            ) + seq![
                EventView::StatusReply {
                    status,
                    body,
                    report: Some(
                        SessionStatusResView {
                            status: "SUCCEEDED"@,
                            receipt_url: Some(locator),
                        },
                    ),
                },
            ],
        ) == alternating(
            rounds,
            ActionView::Sleep { seconds: interval },
            ActionView::QueryStatus { url: status_location(base, session) },
        ) + seq![ActionView::Download { url: locator }],
    decreases rounds,
{
    let awake = StateView::Polling { session, asleep: false };
    let asleep = StateView::Polling { session, asleep: true };
    let told_running = EventView::StatusReply { status, body, report: Some(running) };
    let told_done = EventView::StatusReply {
        status,
        body,
        report: Some(SessionStatusResView { status: "SUCCEEDED"@, receipt_url: Some(locator) }),
    };
    let sleep = ActionView::Sleep { seconds: interval };
    let ask = ActionView::QueryStatus { url: status_location(base, session) };
    let events = repeated(rounds, told_running, EventView::Woke) + seq![told_done];
    if rounds == 0 {
        reveal_strlit("RUNNING");
        reveal_strlit("SUCCEEDED");
        assert("RUNNING"@.len() != "SUCCEEDED"@.len());
        assert(events =~= seq![told_done]);
        assert(events.drop_first() =~= Seq::<EventView>::empty());
        assert(actions(base, interval, StateView::Downloading, events.drop_first())
            =~= Seq::<ActionView>::empty());
        assert(actions(base, interval, awake, events) =~= seq![
            ActionView::Download { url: locator },
        ]);
    } else {
        let fewer = (rounds - 1) as nat;
        let rest = repeated(fewer, told_running, EventView::Woke) + seq![told_done];
        lemma_polling_run(base, interval, session, fewer, status, body, running, locator);
        lemma_running_sleeps_then_asks_again(base, interval, session, status, body, running);
        assert(events =~= seq![told_running, EventView::Woke] + rest);
        assert(events[0] == told_running);
        assert(events.drop_first()[0] == EventView::Woke);
        assert(events.drop_first().drop_first() =~= rest);
        assert(actions(base, interval, asleep, events.drop_first()) =~= seq![ask] + actions(
            base,
            interval,
            awake,
            rest,
        ));
        assert(actions(base, interval, awake, events) =~= seq![sleep] + (seq![ask] + actions(
            base,
            interval,
            awake,
            rest,
        )));
        assert(actions(base, interval, awake, events) =~= alternating(rounds, sleep, ask) + seq![
            ActionView::Download { url: locator },
        ]);
    }
}

/// Mathematical value of a [`RemoteJob`].
pub struct RemoteJobView {
    pub base: Seq<char>,
    pub interval: u64,
}

/// One remote proof job: the service it runs on and how often it asks.
#[derive(Debug, Clone, PartialEq, Eq)]
pub struct RemoteJob {
    /// The service that proves.
    pub client: Client,
    /// Seconds to wait between two status queries.
    pub poll_interval_secs: u64,
}

impl View for RemoteJob {
    type V = RemoteJobView;

    open spec fn view(&self) -> RemoteJobView {
        RemoteJobView { base: self.client@.url, interval: self.poll_interval_secs }
    }
}

/// Ends the attempt with `error`.
fn end_with(error: Error) -> (next: (State, Action))
    ensures
        (next.0@, next.1@) == ends_with(error@),
{
    (State::Failed, Action::Fail { error })
}

impl RemoteJob {
    /// A job on `client`'s service that asks for the status every
    /// [`DEFAULT_POLL_INTERVAL_SECS`] seconds.
    pub fn new(client: Client) -> (job: Self)
        ensures
            job.client == client,
            job.poll_interval_secs == DEFAULT_POLL_INTERVAL_SECS,
    {
        Self { client, poll_interval_secs: DEFAULT_POLL_INTERVAL_SECS }
    }

    /// The state in which every job begins.
    pub fn begin() -> (state: State)
        ensures
            state@ == StateView::Submitting,
    {
        State::Submitting
    }

    /// Decides what follows a decoded status report on `session`.
    pub fn judge_report(&self, session: SessionId, report: SessionStatusRes) -> (next: (
        State,
        Action,
    ))
        ensures
            (next.0@, next.1@) == after_report(self@.interval, session@, report@),
    {
        let SessionStatusRes { status, receipt_url } = report;
        if status == String::from_str("RUNNING") {
            (
                State::Polling { session, asleep: true },
                Action::Sleep { seconds: self.poll_interval_secs },
            )
        } else if status == String::from_str("SUCCEEDED") {
            match receipt_url {
                Some(url) => (State::Downloading, Action::Download { url }),
                None => end_with(Error::ProtocolViolation),
            }
        } else {
            end_with(Error::RemoteJobFailed { status })
        }
    }

    /// Advances the job by one event: the state that follows, and what the
    /// driver is to do next. See [`transition`].
    pub fn step(&self, state: State, event: Event) -> (next: (State, Action))
        ensures
            (next.0@, next.1@) == transition(self@.base, self@.interval, state@, event@),
    {
        match state {
            State::Submitting => match event {
                Event::Start => (
                    State::UploadingImage { slot: None },
                    Action::RequestUploadLocation { url: self.client.upload_url("images") },
                ),
                _ => end_with(Error::ProtocolViolation),
            },
            State::UploadingImage { slot: None } => match event {
                Event::TransportFailed => end_with(
                    Error::UploadLocationUnavailable { body: String::new() },
                ),
                Event::UploadLocation { status, body, issued } => match issued {
                    Some(issued) => {
                        if is_success(status) {
                            let url = issued.url.clone();
                            (
                                State::UploadingImage { slot: Some(issued) },
                                Action::Transfer { artifact: Artifact::Image, url },
                            )
                        } else {
                            end_with(Error::UploadLocationUnavailable { body })
                        }
                    },
                    None => end_with(Error::UploadLocationUnavailable { body }),
                },
                _ => end_with(Error::ProtocolViolation),
            },
            State::UploadingImage { slot: Some(issued) } => match event {
                Event::TransportFailed => end_with(Error::UploadFailed),
                Event::Transferred { status } => {
                    if is_success(status) {
                        (
                            State::UploadingInput { image: issued.uuid, slot: None },
                            Action::RequestUploadLocation {
                                url: self.client.upload_url("inputs"),
                            },
                        )
                    } else {
                        end_with(Error::UploadFailed)
                    }
                },
                _ => end_with(Error::ProtocolViolation),
            },
            State::UploadingInput { image, slot: None } => match event {
                Event::TransportFailed => end_with(
                    Error::UploadLocationUnavailable { body: String::new() },
                ),
                Event::UploadLocation { status, body, issued } => match issued {
                    Some(issued) => {
                        if is_success(status) {
                            let url = issued.url.clone();
                            (
                                State::UploadingInput { image, slot: Some(issued) },
                                Action::Transfer { artifact: Artifact::Input, url },
                            )
                        } else {
                            end_with(Error::UploadLocationUnavailable { body })
                        }
                    },
                    None => end_with(Error::UploadLocationUnavailable { body }),
                },
                _ => end_with(Error::ProtocolViolation),
            },
            State::UploadingInput { image, slot: Some(issued) } => match event {
                Event::TransportFailed => end_with(Error::UploadFailed),
                Event::Transferred { status } => {
                    if is_success(status) {
                        (
                            State::CreatingSession,
                            Action::CreateSession {
                                url: self.client.create_session_url(),
                                request: ProofReq { img: image, input: issued.uuid },
                            },
                        )
                    } else {
                        end_with(Error::UploadFailed)
                    }
                },
                _ => end_with(Error::ProtocolViolation),
            },
            State::CreatingSession => match event {
                Event::TransportFailed => end_with(
                    Error::SessionCreationFailed { body: String::new() },
                ),
                Event::SessionReply { status, body, created } => match created {
                    Some(created) => {
                        if is_success(status) {
                            let session = SessionId::new(created.uuid);
                            let url = session.status_url(&self.client);
                            (State::Polling { session, asleep: false }, Action::QueryStatus { url })
                        } else {
                            end_with(Error::SessionCreationFailed { body })
                        }
                    },
                    None => end_with(Error::SessionCreationFailed { body }),
                },
                _ => end_with(Error::ProtocolViolation),
            },
            State::Polling { session, asleep } => match event {
                Event::StatusReply { status, body, report } => match report {
                    Some(told) => {
                        if !asleep && is_success(status) {
                            self.judge_report(session, told)
                        } else {
                            end_with(Error::ProtocolViolation)
                        }
                    },
                    None => end_with(Error::ProtocolViolation),
                },
                Event::Woke => {
                    if asleep {
                        let url = session.status_url(&self.client);
                        (State::Polling { session, asleep: false }, Action::QueryStatus { url })
                    } else {
                        end_with(Error::ProtocolViolation)
                    }
                },
                _ => end_with(Error::ProtocolViolation),
            },
            State::Downloading => match event {
                Event::TransportFailed => end_with(Error::DownloadFailed),
                Event::Downloaded { bytes } => (
                    State::Succeeded,
                    Action::Deliver { receipt: bytes },
                ),
                _ => end_with(Error::ProtocolViolation),
            },
            State::Succeeded => end_with(Error::ProtocolViolation),
            State::Failed => end_with(Error::ProtocolViolation),
        }
    }
}

} // verus!
