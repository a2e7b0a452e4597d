//! What a client decides while it connects, and what it makes of responses.

use vstd::prelude::*;

use crate::definitions::{Status, StatusView};
use crate::error::{ParseError, ParseErrorView, QueryError, QueryErrorView};
use crate::parser::command;
use crate::parser::decoder;
use crate::parser::decoder::{Decode, DecodeCustomInto, DecodeInto, Decoder};
use crate::parser::number;
use crate::parser::properties;
use crate::parser::properties::{Properties, Row};
use crate::parser::text;
use crate::protocol::types::RawCommandResponse;

verus! {

/// The error number that a list query reports when the list is empty, such as
/// `banlist` with no bans. It stands for an empty result, not for a failure.
pub const EMPTY_RESULT_SET: i32 = 1281;

/// How the host key of the server is verified when connecting.
///
/// The query interface over SSH does not prove to the client which server it
/// talks to. Without verification another machine can pose as the server and
/// learn the login.
#[derive(Debug, Clone)]
pub enum HostKeyVerification {
    /// Accept the key with exactly this SHA-256 fingerprint, in the form
    /// `SHA256:<base64>`. Any other key ends the connection with
    /// [`QueryError::HostKeyMismatch`].
    Fingerprint(String),
    /// Accept any key. Only for networks that are trusted.
    InsecureAcceptAny,
}

/// A [`HostKeyVerification`] as contracts speak of it.
pub enum HostKeyVerificationView {
    Fingerprint(Seq<char>),
    InsecureAcceptAny,
}

impl View for HostKeyVerification {
    type V = HostKeyVerificationView;

    open spec fn view(&self) -> HostKeyVerificationView {
        match self {
            HostKeyVerification::Fingerprint(expected) => HostKeyVerificationView::Fingerprint(
                expected@,
            ),
            HostKeyVerification::InsecureAcceptAny => HostKeyVerificationView::InsecureAcceptAny,
        }
    }
}

/// The fingerprint of the public key that `blob` is the SSH encoding of; `None`
/// if it is the encoding of no key.
pub uninterp spec fn fingerprint_of(blob: Seq<u8>) -> Option<Seq<char>>;

/// `Pubkey::decode` of `makiko`, then `Pubkey::fingerprint` of the key. What they
/// give is a function of the encoding alone; a fingerprint begins with the name
/// of the digest.
#[verifier::external_body]
fn fingerprint(blob: &[u8]) -> (r: Result<String, makiko::Error>)
    ensures
        match r {
            Ok(fingerprint) => fingerprint_of(blob@) == Some(fingerprint@)
                && "SHA256:"@.is_prefix_of(fingerprint@),
            Err(_) => fingerprint_of(blob@) is None,
        },
{
    match makiko::Pubkey::decode(bytes::Bytes::copy_from_slice(blob)) {
        Ok(key) => Ok(key.fingerprint()),
        Err(e) => Err(e),
    }
}

/// What is done with a host key.
#[derive(Debug)]
pub enum HostKeyDecision {
    Accept,
    /// Refuse it, and end the connection with this error.
    Reject(QueryError),
}

/// A [`HostKeyDecision`] as contracts speak of it.
pub enum HostKeyDecisionView {
    Accept,
    Reject(QueryErrorView),
}

impl View for HostKeyDecision {
    type V = HostKeyDecisionView;

    open spec fn view(&self) -> HostKeyDecisionView {
        match self {
            HostKeyDecision::Accept => HostKeyDecisionView::Accept,
            HostKeyDecision::Reject(e) => HostKeyDecisionView::Reject(e@),
        }
    }
}

/// What is done with a key that has the fingerprint `actual`.
pub open spec fn decision(
    verification: HostKeyVerificationView,
    actual: Seq<char>,
) -> HostKeyDecisionView {
    match verification {
        HostKeyVerificationView::Fingerprint(expected) => if expected == actual {
            HostKeyDecisionView::Accept
        } else {
            HostKeyDecisionView::Reject(QueryErrorView::HostKeyMismatch { expected, actual })
        },
        HostKeyVerificationView::InsecureAcceptAny => HostKeyDecisionView::Accept,
    }
}

impl HostKeyVerification {
    /// Decides on a key that has the fingerprint `actual`.
    pub fn check_fingerprint(&self, actual: String) -> (decision: HostKeyDecision)
        ensures
            decision@ == self::decision(self@, actual@),
            match *self {
                HostKeyVerification::Fingerprint(expected) => match decision {
                    HostKeyDecision::Accept => expected@ == actual@,
                    HostKeyDecision::Reject(e) => expected@ != actual@ && (
                    e matches QueryError::HostKeyMismatch { expected: asked, actual: reported }
                        && asked@ == expected@ && reported@ == actual@),
                },
                HostKeyVerification::InsecureAcceptAny => decision is Accept,
            },
    {
        match self {
            HostKeyVerification::Fingerprint(expected) => {
                if *expected == actual {
                    HostKeyDecision::Accept
                } else {
                    HostKeyDecision::Reject(
                        QueryError::HostKeyMismatch { expected: expected.clone(), actual },
                    )
                }
            },
            HostKeyVerification::InsecureAcceptAny => HostKeyDecision::Accept,
        }
    }

    /// Decides on the key that `blob` is the SSH encoding of. What is the encoding
    /// of no key is refused.
    pub fn check_key(&self, blob: &[u8]) -> (decision: HostKeyDecision)
        ensures
            match fingerprint_of(blob@) {
                Some(actual) => decision@ == self::decision(self@, actual),
                None => decision@ matches HostKeyDecisionView::Reject(e) && e is SshError,
            },
            decision is Accept <==> fingerprint_of(blob@) is Some && match *self {
                HostKeyVerification::Fingerprint(expected) => fingerprint_of(blob@) == Some(
                    expected@,
                ),
                HostKeyVerification::InsecureAcceptAny => true,
            },
            decision@ is Accept ==> match self@ {
                HostKeyVerificationView::Fingerprint(expected) => "SHA256:"@.is_prefix_of(expected),
                HostKeyVerificationView::InsecureAcceptAny => true,
            },
    {
        match fingerprint(blob) {
            Ok(actual) => self.check_fingerprint(actual),
            Err(e) => HostKeyDecision::Reject(QueryError::from(e)),
        }
    }
}

/// A refused key is reported with its real fingerprint, and the key is accepted
/// by a client that asks for that fingerprint.
pub proof fn law_reported_fingerprint_is_accepted(
    verification: HostKeyVerificationView,
    actual: Seq<char>,
)
    ensures
        match decision(verification, actual) {
            HostKeyDecisionView::Accept => true,
            HostKeyDecisionView::Reject(e) => e matches QueryErrorView::HostKeyMismatch {
                expected,
                actual: reported,
            } && verification == HostKeyVerificationView::Fingerprint(expected) && reported == actual
                && decision(HostKeyVerificationView::Fingerprint(reported), actual)
                == HostKeyDecisionView::Accept,
        },
{
}

/// A client that asks for a fingerprint accepts the keys with that fingerprint
/// and no others.
pub proof fn law_only_the_expected_key_is_accepted(expected: Seq<char>, actual: Seq<char>)
    ensures
        decision(HostKeyVerificationView::Fingerprint(expected), actual)
            == HostKeyDecisionView::Accept <==> expected == actual,
{
}

/// An event of the SSH client, while the client lives.
#[derive(Debug)]
pub enum ClientEvent {
    /// The server presented the public key with this SSH encoding.
    ServerPubkey(Vec<u8>),
    /// Any other event.
    Other,
    /// There are no more events.
    Closed,
    /// The event could not be received.
    Failed(makiko::Error),
}

/// What is done about an event of the SSH client.
#[derive(Debug)]
pub enum ClientAction {
    /// Accept or refuse the key that was presented, and go on.
    Decide(HostKeyDecision),
    /// Go on.
    Ignore,
    /// Receive no more events.
    Stop,
}

impl HostKeyVerification {
    /// Decides on an event of the SSH client. Every key that the server presents
    /// is checked, also one that it presents later.
    pub fn on_client_event(&self, event: ClientEvent) -> (action: ClientAction)
        ensures
            match event {
                ClientEvent::ServerPubkey(blob) => action matches ClientAction::Decide(decided)
                    && match fingerprint_of(blob@) {
                    Some(actual) => decided@ == self::decision(self@, actual),
                    None => decided@ matches HostKeyDecisionView::Reject(e) && e is SshError,
                },
                ClientEvent::Other => action is Ignore,
                ClientEvent::Closed => action is Stop,
                ClientEvent::Failed(_) => action is Stop,
            },
            event matches ClientEvent::ServerPubkey(blob) ==> (action matches ClientAction::Decide(
                decided,
            ) && (decided is Accept <==> fingerprint_of(blob@) is Some && match *self {
                HostKeyVerification::Fingerprint(expected) => fingerprint_of(blob@) == Some(
                    expected@,
                ),
                HostKeyVerification::InsecureAcceptAny => true,
            })),
    {
        match event {
            ClientEvent::ServerPubkey(blob) => ClientAction::Decide(
                self.check_key(blob.as_slice()),
            ),
            ClientEvent::Other => ClientAction::Ignore,
            ClientEvent::Closed => ClientAction::Stop,
            ClientEvent::Failed(_) => ClientAction::Stop,
        }
    }
}

/// What the server answered to a login with a password.
#[derive(Debug)]
pub enum AuthOutcome {
    Success,
    /// The server wants the password changed.
    ChangePassword { prompt: String },
    /// The server refused the login.
    Failure { methods_can_continue: Vec<String>, partial_success: bool },
}

/// How `makiko` describes a refused login.
pub uninterp spec fn failure_description(
    methods_can_continue: Seq<Seq<char>>,
    partial_success: bool,
) -> Seq<char>;

/// The texts of a list.
pub open spec fn texts(list: Seq<String>) -> Seq<Seq<char>> {
    list.map_values(|s: String| s@)
}

/// The `Debug` form of `AuthFailure` of `makiko`, which is a function of its two
/// fields alone.
#[verifier::external_body]
fn describe_failure(methods_can_continue: Vec<String>, partial_success: bool) -> (text: String)
    ensures
        text@ == failure_description(texts(methods_can_continue@), partial_success),
{
    format!("{:?}", makiko::AuthFailure { methods_can_continue, partial_success })
}

/// Why a login failed, given how the refusal is described.
pub open spec fn login_error(outcome: AuthOutcome, description: Seq<char>) -> Option<
    QueryErrorView,
> {
    match outcome {
        AuthOutcome::Success => None,
        AuthOutcome::ChangePassword { prompt } => Some(
            QueryErrorView::AuthenticationFailed {
                message: "server requires a password change: "@ + prompt@,
            },
        ),
        AuthOutcome::Failure { .. } => Some(
            QueryErrorView::AuthenticationFailed {
                message: "server rejected authentication: "@ + description,
            },
        ),
    }
}

/// How the refusal in `outcome` is described.
pub open spec fn description_of(outcome: AuthOutcome) -> Seq<char> {
    match outcome {
        AuthOutcome::Failure { methods_can_continue, partial_success } => failure_description(
            texts(methods_can_continue@),
            partial_success,
        ),
        _ => Seq::empty(),
    }
}

/// The result of a login as contracts speak of it.
pub open spec fn result_view<T>(r: Result<T, QueryError>) -> Result<T, QueryErrorView> {
    match r {
        Ok(value) => Ok(value),
        Err(e) => Err(e@),
    }
}

/// The error of a login that the server asks to repeat with another password.
fn password_change_error(prompt: &str) -> (e: QueryError)
    ensures
        e@ == (QueryErrorView::AuthenticationFailed {
            message: "server requires a password change: "@ + prompt@,
        }),
{
    let mut message: String = "server requires a password change: ".to_owned();
    message.append(prompt);
    QueryError::AuthenticationFailed { message }
}

/// The error of a login that the server refused, given how that is described.
pub fn rejection_error(description: &str) -> (e: QueryError)
    ensures
        e@ == (QueryErrorView::AuthenticationFailed {
            message: "server rejected authentication: "@ + description@,
        }),
{
    let mut message: String = "server rejected authentication: ".to_owned();
    message.append(description);
    QueryError::AuthenticationFailed { message }
}

/// What a login comes to.
pub fn login_result(outcome: AuthOutcome) -> (r: Result<(), QueryError>)
    ensures
        match login_error(outcome, description_of(outcome)) {
            Some(e) => result_view(r) == Err::<(), QueryErrorView>(e),
            None => r is Ok,
        },
        r is Ok <==> outcome is Success,
        r matches Err(e) ==> (e matches QueryError::AuthenticationFailed { message } && match outcome {
            AuthOutcome::Success => false,
            AuthOutcome::ChangePassword { prompt } => message@
                == "server requires a password change: "@ + prompt@,
            AuthOutcome::Failure { methods_can_continue, partial_success } => message@
                == "server rejected authentication: "@ + failure_description(
                texts(methods_can_continue@),
                partial_success,
            ),
        }),
{
    match outcome {
        AuthOutcome::Success => Ok(()),
        AuthOutcome::ChangePassword { prompt } => Err(password_change_error(prompt.as_str())),
        AuthOutcome::Failure { methods_can_continue, partial_success } => {
            let description: String = describe_failure(methods_can_continue, partial_success);
            Err(rejection_error(description.as_str()))
        },
    }
}

/// The steps of connecting, in order.
#[derive(Debug, Clone, Copy, PartialEq, Eq, Structural)]
pub enum ConnectStep {
    /// Open a TCP connection.
    Dial,
    /// Open an SSH client on it.
    OpenSsh,
    /// Log in.
    LogIn,
    /// Open a session.
    OpenSession,
    /// Ask for a shell in it.
    RequestShell,
    /// Wait until the shell runs.
    AwaitShell,
    /// Read the greeting of the server.
    ReadWelcome,
    /// The client is connected.
    Connected,
}

/// What came of a step.
#[derive(Debug)]
pub enum ConnectEvent {
    Dialed(Result<(), std::io::Error>),
    SshOpened(Result<(), makiko::Error>),
    /// What the login gave, and the error with which a host key was refused, if
    /// one was.
    LoggedIn { result: Result<AuthOutcome, makiko::Error>, refused_key: Option<QueryError> },
    SessionOpened(Result<(), makiko::Error>),
    ShellRequested(Result<(), makiko::Error>),
    ShellStarted(Result<(), makiko::Error>),
    Welcomed(Result<(), QueryError>),
}

/// The step that `event` is the outcome of.
pub open spec fn step_of(event: ConnectEvent) -> ConnectStep {
    match event {
        ConnectEvent::Dialed(_) => ConnectStep::Dial,
        ConnectEvent::SshOpened(_) => ConnectStep::OpenSsh,
        ConnectEvent::LoggedIn { .. } => ConnectStep::LogIn,
        ConnectEvent::SessionOpened(_) => ConnectStep::OpenSession,
        ConnectEvent::ShellRequested(_) => ConnectStep::RequestShell,
        ConnectEvent::ShellStarted(_) => ConnectStep::AwaitShell,
        ConnectEvent::Welcomed(_) => ConnectStep::ReadWelcome,
    }
}

/// The step behind `step`.
pub open spec fn next_step(step: ConnectStep) -> ConnectStep {
    match step {
        ConnectStep::Dial => ConnectStep::OpenSsh,
        ConnectStep::OpenSsh => ConnectStep::LogIn,
        ConnectStep::LogIn => ConnectStep::OpenSession,
        ConnectStep::OpenSession => ConnectStep::RequestShell,
        ConnectStep::RequestShell => ConnectStep::AwaitShell,
        ConnectStep::AwaitShell => ConnectStep::ReadWelcome,
        ConnectStep::ReadWelcome => ConnectStep::Connected,
        ConnectStep::Connected => ConnectStep::Connected,
    }
}

/// The error that ends connecting at `event`; `None` if the step succeeded. A
/// refused host key shows up as an error of the SSH client during the login: the
/// error with which the key was refused is the one that counts.
pub open spec fn step_error(event: ConnectEvent) -> Option<QueryErrorView> {
    match event {
        ConnectEvent::Dialed(Ok(_)) => None,
        ConnectEvent::Dialed(Err(e)) => Some(QueryErrorView::ConnectionFailed(e)),
        ConnectEvent::SshOpened(Ok(_)) => None,
        ConnectEvent::SshOpened(Err(e)) => Some(QueryErrorView::SshError(e)),
        ConnectEvent::LoggedIn { result: Ok(outcome), .. } => login_error(
            outcome,
            description_of(outcome),
        ),
        ConnectEvent::LoggedIn { result: Err(_), refused_key: Some(refused) } => Some(refused@),
        ConnectEvent::LoggedIn { result: Err(e), refused_key: None } => Some(
            QueryErrorView::SshError(e),
        ),
        ConnectEvent::SessionOpened(Ok(_)) => None,
        ConnectEvent::SessionOpened(Err(e)) => Some(QueryErrorView::SshError(e)),
        ConnectEvent::ShellRequested(Ok(_)) => None,
        ConnectEvent::ShellRequested(Err(e)) => Some(QueryErrorView::SshError(e)),
        ConnectEvent::ShellStarted(Ok(_)) => None,
        ConnectEvent::ShellStarted(Err(e)) => Some(QueryErrorView::SshError(e)),
        ConnectEvent::Welcomed(Ok(_)) => None,
        ConnectEvent::Welcomed(Err(e)) => Some(e@),
    }
}

/// What connecting comes to at `event`: the next step, or an error.
pub open spec fn connect_step(event: ConnectEvent) -> Result<ConnectStep, QueryErrorView> {
    match step_error(event) {
        Some(e) => Err(e),
        None => Ok(next_step(step_of(event))),
    }
}

/// Turns the result of a step of the SSH client into the next step.
fn ssh_step(result: Result<(), makiko::Error>, next: ConnectStep) -> (r: Result<
    ConnectStep,
    QueryError,
>)
    ensures
        match result {
            Ok(_) => r == Ok::<ConnectStep, QueryError>(next),
            Err(e) => r == Err::<ConnectStep, QueryError>(QueryError::SshError(e)),
        },
{
    match result {
        Ok(_) => Ok(next),
        Err(e) => Err(QueryError::from(e)),
    }
}

impl ConnectStep {
    /// The first step.
    pub fn first() -> (step: ConnectStep)
        ensures
            step == ConnectStep::Dial,
    {
        ConnectStep::Dial
    }

    /// Goes on from this step with what came of it.
    pub fn next(self, event: ConnectEvent) -> (r: Result<ConnectStep, QueryError>)
        requires
            step_of(event) == self,
        ensures
            result_view(r) == connect_step(event),
            match r {
                Ok(step) => connect_step(event) == Ok::<ConnectStep, QueryErrorView>(step),
                Err(e) => connect_step(event) == Err::<ConnectStep, QueryErrorView>(e@),
            },
            match event {
                ConnectEvent::Dialed(result) => r is Ok <==> result is Ok,
                ConnectEvent::SshOpened(result) => r is Ok <==> result is Ok,
                ConnectEvent::LoggedIn { result, .. } => r is Ok <==> (result matches Ok(outcome)
                    && outcome is Success),
                ConnectEvent::SessionOpened(result) => r is Ok <==> result is Ok,
                ConnectEvent::ShellRequested(result) => r is Ok <==> result is Ok,
                ConnectEvent::ShellStarted(result) => r is Ok <==> result is Ok,
                ConnectEvent::Welcomed(result) => r is Ok <==> result is Ok,
            },
    {
        match event {
            ConnectEvent::Dialed(result) => match result {
                Ok(_) => Ok(ConnectStep::OpenSsh),
                Err(e) => Err(QueryError::ConnectionFailed(e)),
            },
            ConnectEvent::SshOpened(result) => ssh_step(result, ConnectStep::LogIn),
            ConnectEvent::LoggedIn { result, refused_key } => match result {
                Ok(outcome) => match login_result(outcome) {
                    Ok(_) => Ok(ConnectStep::OpenSession),
                    Err(e) => Err(e),
                },
                Err(e) => match refused_key {
                    Some(refused) => Err(refused),
                    None => Err(QueryError::from(e)),
                },
            },
            ConnectEvent::SessionOpened(result) => ssh_step(result, ConnectStep::RequestShell),
            ConnectEvent::ShellRequested(result) => ssh_step(result, ConnectStep::AwaitShell),
            ConnectEvent::ShellStarted(result) => ssh_step(result, ConnectStep::ReadWelcome),
            ConnectEvent::Welcomed(result) => match result {
                Ok(_) => Ok(ConnectStep::Connected),
                Err(e) => Err(e),
            },
        }
    }
}

/// What connecting comes to behind `events`, of which each is the outcome of the
/// step that was due: the step that is due next, or an error.
pub open spec fn connecting(events: Seq<ConnectEvent>) -> Result<ConnectStep, QueryErrorView>
    decreases events.len(),
{
    if events.len() == 0 {
        Ok(ConnectStep::Dial)
    } else {
        match connecting(events.drop_last()) {
            Ok(step) => connect_step(events.last()),
            Err(e) => Err(e),
        }
    }
}

/// Whether each of `events` is the outcome of the step that was due.
pub open spec fn in_order(events: Seq<ConnectEvent>) -> bool
    decreases events.len(),
{
    events.len() > 0 ==> {
        &&& in_order(events.drop_last())
        &&& connecting(events.drop_last()) == Ok::<ConnectStep, QueryErrorView>(
            step_of(events.last()),
        )
    }
}

/// The number of steps in front of `step`.
pub open spec fn steps_before(step: ConnectStep) -> nat {
    match step {
        ConnectStep::Dial => 0,
        ConnectStep::OpenSsh => 1,
        ConnectStep::LogIn => 2,
        ConnectStep::OpenSession => 3,
        ConnectStep::RequestShell => 4,
        ConnectStep::AwaitShell => 5,
        ConnectStep::ReadWelcome => 6,
        ConnectStep::Connected => 7,
    }
}

/// A client gets to a step only through all steps in front of it, in order, each
/// of which succeeded. So a client that is connected has logged in, has a shell
/// and was greeted; and connecting ends with the error of the first step that
/// failed.
pub proof fn law_every_step_must_succeed(events: Seq<ConnectEvent>)
    requires
        in_order(events),
    ensures
        match connecting(events) {
            Ok(step) => {
                &&& events.len() == steps_before(step)
                &&& forall|i: int|
                    0 <= i < events.len() ==> step_error(#[trigger] events[i]) is None
                        && steps_before(step_of(events[i])) == i
            },
            Err(e) => {
                &&& events.len() > 0
                &&& step_error(events.last()) == Some(e)
                &&& forall|i: int|
                    0 <= i < events.len() - 1 ==> step_error(#[trigger] events[i]) is None
            },
        },
    decreases events.len(),
{
    if events.len() > 0 {
        let front = events.drop_last();
        law_every_step_must_succeed(front);
        assert forall|i: int| 0 <= i < front.len() implies step_error(#[trigger] events[i]) is None
            && steps_before(step_of(events[i])) == i by {
            assert(events[i] == front[i]);
        }
    }
}

/// A refused host key is reported as such: where it made the login fail, the
/// client ends with the error of the refusal, whatever the SSH client said.
pub proof fn law_refused_key_is_reported(
    verification: HostKeyVerificationView,
    actual: Seq<char>,
    refused: QueryError,
    e: makiko::Error,
)
    requires
        decision(verification, actual) == HostKeyDecisionView::Reject(refused@),
    ensures
        connect_step(
            ConnectEvent::LoggedIn { result: Err(e), refused_key: Some(refused) },
        ) matches Err(QueryErrorView::HostKeyMismatch { expected, actual: reported })
            && verification == HostKeyVerificationView::Fingerprint(expected) && reported == actual,
{
}

/// The line of a command as it is sent: with what ends a line.
pub fn frame_command(command: String) -> (data: String)
    ensures
        data@ == command@ + seq!['\n', '\r'],
{
    let mut data: String = command;
    data.append("\n\r");
    proof {
        reveal_strlit("\n\r");
        assert("\n\r"@ == seq!['\n', '\r']);
    }
    data
}

/// A command that holds no line end is framed so that its end shows: the line end
/// stands behind it and nowhere else.
pub proof fn law_frame_ends_once(command: Seq<char>)
    requires
        !command.contains('\n'),
        !command.contains('\r'),
    ensures
        text::before(command + seq!['\n', '\r'], '\n') == command,
        text::after(command + seq!['\n', '\r'], '\n') == seq!['\r'],
{
    text::lemma_cut(command, '\n', seq!['\r']);
    assert(command + seq!['\n', '\r'] == command + seq!['\n'] + seq!['\r']);
}

/// A command that is sent reads back, up to the end of its line, as the name and
/// the arguments that it was made of, whatever the values hold.
pub proof fn law_sent_command_reads_back(name: Seq<char>, row: Row)
    requires
        !name.contains(' '),
        !name.contains('\n'),
        !name.contains('\r'),
        command::valid_keys(row),
        forall|i: int|
            0 <= i < row.len() ==> !(#[trigger] row[i].0).contains('\n') && !row[i].0.contains('\r'),
    ensures
        ({
            let line = text::before(command::line_text(name, row) + seq!['\n', '\r'], '\n');
            &&& text::before(line, ' ') == name
            &&& decoder::value_of::<Properties>(Some(text::after(line, ' '))) == Ok::<
                Row,
                ParseErrorView,
            >(row)
        }),
{
    command::law_values_do_not_end_a_line(name, row, '\n');
    command::law_values_do_not_end_a_line(name, row, '\r');
    law_frame_ends_once(command::line_text(name, row));
    command::law_line_reads_back(name, row);
}

/// What a channel to another task gave, or nothing if that task is gone: then the
/// connection is closed.
pub fn received<T>(message: Option<T>) -> (r: Result<T, QueryError>)
    ensures
        match message {
            Some(message) => r == Ok::<T, QueryError>(message),
            None => r == Err::<T, QueryError>(QueryError::ConnectionClosed),
        },
{
    match message {
        Some(message) => Ok(message),
        None => Err(QueryError::ConnectionClosed),
    }
}

/// What a command comes to whose response is not looked at.
pub fn acknowledged(reply: Option<RawCommandResponse>) -> (r: Result<(), QueryError>)
    ensures
        match reply {
            Some(_) => r is Ok,
            None => r == Err::<(), QueryError>(QueryError::ConnectionClosed),
        },
{
    match received(reply) {
        Ok(_) => Ok(()),
        Err(e) => Err(e),
    }
}

/// The status that a response ends with.
pub open spec fn status_of(response: RawCommandResponse) -> Result<StatusView, ParseErrorView> {
    decoder::value_of::<Status>(decoder::behind_name(decoder::text_of(response@.status)))
}

/// What a response comes to by its status: itself where the server reports
/// success, and else the error that it reports.
pub open spec fn checked(response: RawCommandResponse) -> Result<
    RawCommandResponse,
    QueryErrorView,
> {
    match status_of(response) {
        Ok(status) => if status.id == 0 {
            Ok(response)
        } else {
            Err(QueryErrorView::QueryError { id: status.id, message: status.message })
        },
        Err(e) => Err(QueryErrorView::ParseError(e)),
    }
}

/// Looks at the status of a response.
pub fn check_status(response: RawCommandResponse) -> (r: Result<RawCommandResponse, QueryError>)
    ensures
        result_view(r) == checked(response),
        match r {
            Ok(passed) => passed == response && (status_of(response) matches Ok(status) && status.id
                == 0),
            Err(QueryError::QueryError { id, message }) => status_of(response) matches Ok(status)
                && status.id == id && id != 0 && status.message == message@,
            Err(QueryError::ParseError(e)) => status_of(response) == Err::<
                StatusView,
                ParseErrorView,
            >(e@),
            Err(_) => false,
        },
{
    let mut decoder: Decoder = Decoder::new(response.status());
    match decoder.decode_with_name::<Status>() {
        Ok(status) => {
            if status.id == 0 {
                Ok(response)
            } else {
                Err(QueryError::QueryError { id: status.id, message: status.message })
            }
        },
        Err(e) => Err(QueryError::ParseError(e)),
    }
}

/// A status line that was written with the number `id` and a message decides what
/// the response comes to: zero is success, any other number is an error with that
/// number and that message.
pub proof fn law_status_decides(
    response: RawCommandResponse,
    name: Seq<char>,
    digits: Seq<char>,
    id: i32,
    message: Seq<char>,
)
    requires
        !name.contains(' '),
        number::i32_of(digits) == Some(id),
        response@.status == vstd::utf8::encode_utf8(
            command::line_text(name, seq![("id"@, digits), ("msg"@, message)]),
        ),
    ensures
        checked(response) == if id == 0 {
            Ok(response)
        } else {
            Err(QueryErrorView::QueryError { id, message })
        },
{
    broadcast use vstd::utf8::encode_utf8_valid_utf8, vstd::utf8::encode_utf8_decode_utf8;

    reveal_strlit("id");
    reveal_strlit("msg");
    let row = seq![("id"@, digits), ("msg"@, message)];
    assert("id"@.len() == 2 && "msg"@.len() == 3);
    assert(command::valid_keys(row)) by {
        assert(command::valid_key("id"@));
        assert(command::valid_key("msg"@));
    }
    command::law_line_reads_back(name, row);
    assert(properties::lookup(row, "id"@) == Some(digits));
    assert(row.drop_first()[0] == ("msg"@, message));
    assert(properties::lookup(row.drop_first(), "msg"@) == Some(message));
    assert(properties::lookup(row, "msg"@) == Some(message));
}

/// What a command comes to: a response that reports success, or an error.
pub fn raw_reply(reply: Option<RawCommandResponse>) -> (r: Result<RawCommandResponse, QueryError>)
    ensures
        match reply {
            Some(response) => result_view(r) == checked(response),
            None => r == Err::<RawCommandResponse, QueryError>(QueryError::ConnectionClosed),
        },
        reply matches Some(response) ==> match r {
            Ok(passed) => passed == response && (status_of(response) matches Ok(status) && status.id
                == 0),
            Err(QueryError::QueryError { id, message }) => status_of(response) matches Ok(status)
                && status.id == id && id != 0 && status.message == message@,
            Err(QueryError::ParseError(e)) => status_of(response) == Err::<
                StatusView,
                ParseErrorView,
            >(e@),
            Err(_) => false,
        },
{
    match received(reply) {
        Ok(response) => check_status(response),
        Err(e) => Err(e),
    }
}

/// Reads the value that a response holds.
pub fn decode_reply<T: Decode>(reply: Result<RawCommandResponse, QueryError>) -> (r: Result<
    T,
    QueryError,
>)
    ensures
        match reply {
            Ok(response) => match decoder::value_of::<T>(decoder::text_of(response@.content)) {
                Ok(value) => r matches Ok(decoded) && decoded@ == value,
                Err(e) => r matches Err(QueryError::ParseError(error)) && error@ == e,
            },
            Err(e) => r == Err::<T, QueryError>(e),
        },
{
    match reply {
        Ok(response) => {
            let mut decoder: Decoder = Decoder::new(response.content());
            match decoder.decode::<T>() {
                Ok(value) => Ok(value),
                Err(e) => Err(QueryError::ParseError(e)),
            }
        },
        Err(e) => Err(e),
    }
}

/// A reply as a list query sees it: no response at all where the server reports
/// that the list is empty.
pub open spec fn is_empty_result(reply: Result<RawCommandResponse, QueryError>) -> bool {
    reply matches Err(QueryError::QueryError { id, .. }) && id == EMPTY_RESULT_SET
}

/// A list query fails on every error that the server reports but one: the report
/// of an empty list, which is no failure.
pub proof fn law_only_the_empty_list_is_no_failure(
    response: RawCommandResponse,
    reply: Result<RawCommandResponse, QueryError>,
)
    requires
        result_view(reply) == checked(response),
    ensures
        reply is Ok <==> (status_of(response) matches Ok(status) && status.id == 0),
        is_empty_result(reply) <==> (status_of(response) matches Ok(status) && status.id
            == EMPTY_RESULT_SET),
{
}

/// Takes the report of an empty list out of the errors.
fn list_reply(reply: Result<RawCommandResponse, QueryError>) -> (r: Result<
    Option<RawCommandResponse>,
    QueryError,
>)
    ensures
        match reply {
            Ok(response) => r == Ok::<Option<RawCommandResponse>, QueryError>(Some(response)),
            Err(e) => if is_empty_result(reply) {
                r == Ok::<Option<RawCommandResponse>, QueryError>(None)
            } else {
                r == Err::<Option<RawCommandResponse>, QueryError>(e)
            },
        },
{
    match reply {
        Ok(response) => Ok(Some(response)),
        Err(e) => {
            let empty: bool = match &e {
                QueryError::QueryError { id, .. } => *id == EMPTY_RESULT_SET,
                _ => false,
            };
            if empty {
                Ok(None)
            } else {
                Err(e)
            }
        },
    }
}

/// Reads the rows that a response holds into `dst`. An empty list leaves `dst` as
/// it is.
pub fn decode_reply_into<I: DecodeInto>(
    reply: Result<RawCommandResponse, QueryError>,
    dst: I,
) -> (r: Result<I, QueryError>)
    ensures
        match reply {
            Ok(response) => match I::filled(
                dst.contents(),
                decoder::text_of(response@.content),
            ) {
                Ok(contents) => r matches Ok(filled) && filled.contents() == contents,
                Err(e) => r matches Err(QueryError::ParseError(error)) && error@ == e,
            },
            Err(e) => if is_empty_result(reply) {
                r == Ok::<I, QueryError>(dst)
            } else {
                r == Err::<I, QueryError>(e)
            },
        },
{
    match list_reply(reply) {
        Ok(Some(response)) => {
            let mut decoder: Decoder = Decoder::new(response.content());
            match dst.decode_into(&mut decoder) {
                Ok(filled) => Ok(filled),
                Err(e) => Err(QueryError::ParseError(e)),
            }
        },
        Ok(None) => Ok(dst),
        Err(e) => Err(e),
    }
}

/// Whether `r` may come of decoding the rows of a text into `dst`.
pub open spec fn may_fill<T, I: DecodeCustomInto<T>>(
    dst: I,
    may: decoder::Maker<T>,
    s: Option<Seq<char>>,
    r: Result<I, ParseError>,
) -> bool {
    exists|rest: Option<Seq<char>>| #[trigger] I::filled_by(dst, may, s, r, rest)
}

/// Reads the rows that a response holds into `dst`, each by a call of `gen`. An
/// empty list leaves `dst` as it is.
pub fn decode_reply_custom_into<F, T, I: DecodeCustomInto<T>>(
    reply: Result<RawCommandResponse, QueryError>,
    dst: I,
    gen: F,
) -> (r: Result<I, QueryError>) where F: Fn(&mut Decoder) -> Result<T, ParseError>
    requires
        forall|d: &mut Decoder| call_requires(gen, (d,)),
    ensures
        match reply {
            Ok(response) => match r {
                Ok(filled) => may_fill(
                    dst,
                    decoder::maker(gen),
                    decoder::text_of(response@.content),
                    Ok(filled),
                ),
                Err(e) => e matches QueryError::ParseError(e) && may_fill(
                    dst,
                    decoder::maker(gen),
                    decoder::text_of(response@.content),
                    Err(e),
                ),
            },
            Err(e) => if is_empty_result(reply) {
                r == Ok::<I, QueryError>(dst)
            } else {
                r == Err::<I, QueryError>(e)
            },
        },
{
    match list_reply(reply) {
        Ok(Some(response)) => {
            let mut decoder: Decoder = Decoder::new(response.content());
            let ghost s = decoder@;
            let decoded = dst.decode_into(&mut decoder, gen);
            assert(may_fill(dst, decoder::maker(gen), s, decoded));
            match decoded {
                Ok(filled) => Ok(filled),
                Err(e) => Err(QueryError::ParseError(e)),
            }
        },
        Ok(None) => Ok(dst),
        Err(e) => Err(e),
    }
}

/// A login succeeds exactly where the server accepts it, whatever became of a host
/// key. Where the server refuses it, or wants the password changed first,
/// connecting ends, with what the server said.
pub proof fn law_only_an_accepted_login_goes_on(
    outcome: AuthOutcome,
    refused_key: Option<QueryError>,
)
    ensures
        ({
            let r = connect_step(ConnectEvent::LoggedIn { result: Ok(outcome), refused_key });
            &&& r is Ok <==> outcome is Success
            &&& r matches Ok(step) ==> step == ConnectStep::OpenSession
            &&& r matches Err(e) ==> (e matches QueryErrorView::AuthenticationFailed { message }
                && match outcome {
                AuthOutcome::Success => false,
                AuthOutcome::ChangePassword { prompt } => message
                    == "server requires a password change: "@ + prompt@,
                AuthOutcome::Failure { methods_can_continue, partial_success } => message
                    == "server rejected authentication: "@ + failure_description(
                    texts(methods_can_continue@),
                    partial_success,
                ),
            })
        }),
{
}

/// A list shows each of its texts.
pub proof fn law_texts_are_shown(list: Seq<String>)
    ensures
        texts(list).len() == list.len(),
        forall|i: int| 0 <= i < list.len() ==> #[trigger] texts(list)[i] == list[i]@,
{
}

/// A step that fails ends connecting with its own error: one of the TCP connection
/// as a failed connection, one of the SSH client as it is, unless a refused host
/// key caused it, and one of the greeting as it is.
pub proof fn law_failed_step_ends_with_its_error(
    io: std::io::Error,
    ssh: makiko::Error,
    refused: QueryError,
    welcome: QueryError,
)
    ensures
        connect_step(ConnectEvent::Dialed(Err(io))) == Err::<ConnectStep, QueryErrorView>(
            QueryErrorView::ConnectionFailed(io),
        ),
        connect_step(ConnectEvent::SshOpened(Err(ssh))) == Err::<ConnectStep, QueryErrorView>(
            QueryErrorView::SshError(ssh),
        ),
        connect_step(ConnectEvent::LoggedIn { result: Err(ssh), refused_key: None }) == Err::<
            ConnectStep,
            QueryErrorView,
        >(QueryErrorView::SshError(ssh)),
        connect_step(ConnectEvent::LoggedIn { result: Err(ssh), refused_key: Some(refused) })
            == Err::<ConnectStep, QueryErrorView>(refused@),
        connect_step(ConnectEvent::SessionOpened(Err(ssh))) == Err::<ConnectStep, QueryErrorView>(
            QueryErrorView::SshError(ssh),
        ),
        connect_step(ConnectEvent::ShellRequested(Err(ssh))) == Err::<ConnectStep, QueryErrorView>(
            QueryErrorView::SshError(ssh),
        ),
        connect_step(ConnectEvent::ShellStarted(Err(ssh))) == Err::<ConnectStep, QueryErrorView>(
            QueryErrorView::SshError(ssh),
        ),
        connect_step(ConnectEvent::Welcomed(Err(welcome))) == Err::<ConnectStep, QueryErrorView>(
            welcome@,
        ),
{
}

/// Whether `events` tell of a client that dialed, opened an SSH client, was let in,
/// opened a session, asked for a shell, got it, and was greeted, in that order and
/// each with success.
pub open spec fn all_went_well(events: Seq<ConnectEvent>) -> bool {
    &&& events.len() == 7
    &&& events[0] matches ConnectEvent::Dialed(Ok(_))
    &&& events[1] matches ConnectEvent::SshOpened(Ok(_))
    &&& events[2] matches ConnectEvent::LoggedIn { result: Ok(AuthOutcome::Success), .. }
    &&& events[3] matches ConnectEvent::SessionOpened(Ok(_))
    &&& events[4] matches ConnectEvent::ShellRequested(Ok(_))
    &&& events[5] matches ConnectEvent::ShellStarted(Ok(_))
    &&& events[6] matches ConnectEvent::Welcomed(Ok(_))
}

/// A client is connected exactly where everything went well: every run that ends
/// connected is made of the seven successes, and those lead from step to step until
/// the client is connected.
pub proof fn law_connected_means_all_went_well(events: Seq<ConnectEvent>)
    ensures
        in_order(events) && connecting(events) == Ok::<ConnectStep, QueryErrorView>(
            ConnectStep::Connected,
        ) <==> all_went_well(events),
        all_went_well(events) ==> {
            &&& connecting(events.take(0)) == Ok::<ConnectStep, QueryErrorView>(ConnectStep::Dial)
            &&& connecting(events.take(1)) == Ok::<ConnectStep, QueryErrorView>(
                ConnectStep::OpenSsh,
            )
            &&& connecting(events.take(2)) == Ok::<ConnectStep, QueryErrorView>(ConnectStep::LogIn)
            &&& connecting(events.take(3)) == Ok::<ConnectStep, QueryErrorView>(
                ConnectStep::OpenSession,
            )
            &&& connecting(events.take(4)) == Ok::<ConnectStep, QueryErrorView>(
                ConnectStep::RequestShell,
            )
            &&& connecting(events.take(5)) == Ok::<ConnectStep, QueryErrorView>(
                ConnectStep::AwaitShell,
            )
            &&& connecting(events.take(6)) == Ok::<ConnectStep, QueryErrorView>(
                ConnectStep::ReadWelcome,
            )
        },
{
    if in_order(events) && connecting(events) == Ok::<ConnectStep, QueryErrorView>(
        ConnectStep::Connected,
    ) {
        law_every_step_must_succeed(events);
        assert(step_error(events[0]) is None);
        assert(step_error(events[1]) is None);
        assert(step_error(events[2]) is None);
        assert(step_error(events[3]) is None);
        assert(step_error(events[4]) is None);
        assert(step_error(events[5]) is None);
        assert(step_error(events[6]) is None);
    }
    if all_went_well(events) {
        assert(in_order(events.take(0)));
        lemma_one_more_step(events, 0);
        lemma_one_more_step(events, 1);
        lemma_one_more_step(events, 2);
        lemma_one_more_step(events, 3);
        lemma_one_more_step(events, 4);
        lemma_one_more_step(events, 5);
        lemma_one_more_step(events, 6);
        assert(events.take(7) == events);
    }
}

proof fn lemma_one_more_step(events: Seq<ConnectEvent>, k: int)
    requires
        0 <= k < events.len(),
        in_order(events.take(k)),
        connecting(events.take(k)) == Ok::<ConnectStep, QueryErrorView>(step_of(events[k])),
    ensures
        in_order(events.take(k + 1)),
        connecting(events.take(k + 1)) == connect_step(events[k]),
{
    assert(events.take(k + 1).drop_last() == events.take(k));
    assert(events.take(k + 1).last() == events[k]);
}

/// The number and the message of a status line decide, whatever other properties
/// the line holds and wherever they stand: zero is success, any other number is an
/// error with that number and that message.
pub proof fn law_status_decides_whatever_else_it_holds(
    response: RawCommandResponse,
    name: Seq<char>,
    row: Row,
    i: int,
    j: int,
    id: i32,
)
    requires
        !name.contains(' '),
        command::valid_keys(row),
        properties::first_at(row, "id"@, i),
        row[i].1 == number::decimal(id as int),
        properties::first_at(row, "msg"@, j),
        response@.status == vstd::utf8::encode_utf8(command::line_text(name, row)),
    ensures
        id == 0 ==> checked(response) == Ok::<RawCommandResponse, QueryErrorView>(response),
        id != 0 ==> checked(response) == Err::<RawCommandResponse, QueryErrorView>(
            QueryErrorView::QueryError { id, message: row[j].1 },
        ),
{
    number::law_numbers_read_back(id as int);
    properties::law_first_property_counts(row, "id"@, i);
    properties::law_first_property_counts(row, "msg"@, j);
    law_any_status_row_decides(response, name, row);
}

/// What a response comes to is decided by the number and the message under `id`
/// and `msg` of its status line. A status line without them, or with a number that
/// is none, or that is no text at all, is an error that says so.
pub proof fn law_any_status_row_decides(response: RawCommandResponse, name: Seq<char>, row: Row)
    requires
        !name.contains(' '),
        command::valid_keys(row),
        response@.status == vstd::utf8::encode_utf8(command::line_text(name, row)),
    ensures
        match (properties::lookup(row, "id"@), properties::lookup(row, "msg"@)) {
            (None, _) => checked(response) == Err::<RawCommandResponse, QueryErrorView>(
                QueryErrorView::ParseError(ParseErrorView::MissingProperty { key: "id"@ }),
            ),
            (Some(digits), message) => match number::i32_of(digits) {
                None => checked(response) == Err::<RawCommandResponse, QueryErrorView>(
                    QueryErrorView::ParseError(
                        ParseErrorView::InvalidNumber { key: "id"@, value: digits },
                    ),
                ),
                Some(id) => match message {
                    None => checked(response) == Err::<RawCommandResponse, QueryErrorView>(
                        QueryErrorView::ParseError(ParseErrorView::MissingProperty { key: "msg"@ }),
                    ),
                    Some(message) => checked(response) == if id == 0 {
                        Ok(response)
                    } else {
                        Err(QueryErrorView::QueryError { id, message })
                    },
                },
            },
        },
{
    decoder::law_encoded_text_is_read(command::line_text(name, row), response@.status);
    command::law_line_reads_back(name, row);
}

/// A status line that is no text fails the response.
pub proof fn law_status_must_be_text(response: RawCommandResponse)
    requires
        !vstd::utf8::valid_utf8(response@.status),
    ensures
        checked(response) == Err::<RawCommandResponse, QueryErrorView>(
            QueryErrorView::ParseError(ParseErrorView::InvalidUtf8),
        ),
{
}

/// A response passes the look at its status only as it is.
pub proof fn law_responses_pass_unchanged(response: RawCommandResponse)
    ensures
        checked(response) matches Ok(passed) ==> passed == response,
        checked(response) is Ok <==> (status_of(response) matches Ok(status) && status.id == 0),
{
}

/// A list query is told of an empty list by the error number 1281 alone.
pub proof fn law_empty_list_has_one_number(reply: Result<RawCommandResponse, QueryError>)
    ensures
        is_empty_result(reply) <==> match reply {
            Ok(_) => false,
            Err(QueryError::QueryError { id, .. }) => id == 1281,
            Err(_) => false,
        },
{
}

/// Every row of a list response is taken into the list, in order and behind what it
/// held; and one row of a response that holds it is read as it was written.
pub proof fn law_list_responses_are_taken_whole(
    response: RawCommandResponse,
    dst: Vec<Properties>,
    rows: Seq<Row>,
)
    requires
        forall|i: int|
            0 <= i < rows.len() ==> command::valid_keys(#[trigger] rows[i]) && rows[i].len() > 0,
        response@.content == vstd::utf8::encode_utf8(command::list_text(rows)),
    ensures
        Vec::<Properties>::filled(dst.contents(), decoder::text_of(response@.content)) == Ok::<
            Seq<Row>,
            ParseErrorView,
        >(dst.contents() + rows),
        rows.len() > 0 ==> decoder::value_of::<Properties>(decoder::text_of(response@.content))
            == Ok::<Row, ParseErrorView>(rows[0]),
{
    decoder::law_encoded_text_is_read(command::list_text(rows), response@.content);
    command::law_written_rows_are_appended(dst.contents(), rows);
    if rows.len() > 0 {
        assert(command::valid_keys(rows[0]));
        command::law_first_row_reads_back(rows[0], command::list_text(rows.drop_first()));
    }
}

/// A function that only ever makes one value of a row fills a list with exactly
/// those values, one for each part of the content, behind what the list held; and
/// where it can only fail on some part, the list fails.
pub proof fn law_each_part_is_mapped<T, F: Fn(&mut Decoder) -> Result<T, ParseError>>(
    gen: F,
    made: spec_fn(Seq<char>) -> Result<T, ParseError>,
    dst: Vec<T>,
    parts: Seq<Seq<char>>,
    r: Result<Vec<T>, ParseError>,
)
    requires
        decoder::separable(parts),
        forall|d: &mut Decoder, row: Seq<char>, result: Result<T, ParseError>|
            (*d)@ == Some(row) && #[trigger] call_ensures(gen, (d,), result) ==> result
                == #[trigger] made(row),
        may_fill(dst, decoder::maker(gen), Some(decoder::separated(parts)), r),
    ensures
        match r {
            Ok(list) => {
                &&& list@.len() == dst@.len() + parts.len()
                &&& forall|i: int| 0 <= i < dst@.len() ==> #[trigger] list@[i] == dst@[i]
                &&& forall|i: int|
                    0 <= i < parts.len() ==> made(#[trigger] parts[i]) == Ok::<T, ParseError>(
                        list@[dst@.len() + i],
                    )
            },
            Err(e) => exists|k: int|
                0 <= k < parts.len() && made(#[trigger] parts[k]) == Err::<T, ParseError>(e)
                    && forall|j: int| 0 <= j < k ==> made(#[trigger] parts[j]) is Ok,
        },
{
    let may = decoder::maker(gen);
    let s = Some(decoder::separated(parts));
    let rest = choose|rest: Option<Seq<char>>| #[trigger]
        Vec::<T>::filled_by(dst, may, s, r, rest);
    decoder::law_lists_take_what_is_made(dst, may, parts, r, rest);
    match r {
        Ok(list) => {
            assert forall|i: int| 0 <= i < parts.len() implies made(#[trigger] parts[i]) == Ok::<
                T,
                ParseError,
            >(list@[dst@.len() + i]) by {
                assert(may(parts[i], Ok(list@[dst@.len() + i])));
                decoder::law_calls_decide_what_is_made(gen, parts[i], Ok(list@[dst@.len() + i]));
            }
        },
        Err(e) => {
            let k = choose|k: int| decoder::fails_at(may, parts, e, rest->0, k);
            assert(may(parts[k], Err(e)));
            decoder::law_calls_decide_what_is_made(gen, parts[k], Err(e));
            assert forall|j: int| 0 <= j < k implies made(#[trigger] parts[j]) is Ok by {
                assert(decoder::may_succeed(may, parts[j]));
                let value = choose|value: T| #[trigger] may(parts[j], Ok(value));
                decoder::law_calls_decide_what_is_made(gen, parts[j], Ok(value));
            }
        },
    }
}

/// A decision and a policy show what they are, and all that they carry.
pub proof fn law_decisions_show_what_they_carry(
    verification: HostKeyVerification,
    decision: HostKeyDecision,
)
    ensures
        match verification {
            HostKeyVerification::Fingerprint(expected) => verification@
                == HostKeyVerificationView::Fingerprint(expected@),
            HostKeyVerification::InsecureAcceptAny => verification@ is InsecureAcceptAny,
        },
        match decision {
            HostKeyDecision::Accept => decision@ is Accept,
            HostKeyDecision::Reject(e) => decision@ == HostKeyDecisionView::Reject(e@),
        },
{
}

} // verus!
