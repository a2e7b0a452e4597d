//! What can go wrong.

use vstd::prelude::*;

verus! {

/// A line from the server that could not be read.
#[derive(Debug)]
pub enum ParseError {
    /// The line is not UTF-8.
    InvalidUtf8,
    /// A value holds a backslash that starts no escape sequence.
    InvalidEscape { value: String },
    /// A property that must be there is not.
    MissingProperty { key: String },
    /// The value of a property is not a 32-bit number.
    InvalidNumber { key: String, value: String },
    /// The value of a property is neither `0` nor `1`.
    InvalidFlag { key: String, value: String },
    /// A notification with a name that is not known.
    UnknownEvent { response: String, event: String },
}

/// A [`ParseError`] as contracts speak of it.
pub enum ParseErrorView {
    InvalidUtf8,
    InvalidEscape { value: Seq<char> },
    MissingProperty { key: Seq<char> },
    InvalidNumber { key: Seq<char>, value: Seq<char> },
    InvalidFlag { key: Seq<char>, value: Seq<char> },
    UnknownEvent { response: Seq<char>, event: Seq<char> },
}

impl View for ParseError {
    type V = ParseErrorView;

    open spec fn view(&self) -> ParseErrorView {
        match self {
            ParseError::InvalidUtf8 => ParseErrorView::InvalidUtf8,
            ParseError::InvalidEscape { value } => ParseErrorView::InvalidEscape { value: value@ },
            ParseError::MissingProperty { key } => ParseErrorView::MissingProperty { key: key@ },
            ParseError::InvalidNumber { key, value } => ParseErrorView::InvalidNumber {
                key: key@,
                value: value@,
            },
            ParseError::InvalidFlag { key, value } => ParseErrorView::InvalidFlag {
                key: key@,
                value: value@,
            },
            ParseError::UnknownEvent { response, event } => ParseErrorView::UnknownEvent {
                response: response@,
                event: event@,
            },
        }
    }
}

/// The I/O error of std; carried along, never looked into.
#[verifier::external_type_specification]
#[verifier::external_body]
pub struct ExIoError(std::io::Error);

/// The error of the SSH client of `makiko`; carried along, never looked into.
#[verifier::external_type_specification]
#[verifier::external_body]
pub struct ExSshError(makiko::Error);

/// A query that failed.
#[derive(Debug)]
pub enum QueryError {
    /// No connection to the server could be made.
    ConnectionFailed(std::io::Error),
    /// The connection is closed.
    ConnectionClosed,
    /// The host key of the server is not the one that was asked for.
    HostKeyMismatch { expected: String, actual: String },
    /// The server did not accept the login.
    AuthenticationFailed { message: String },
    /// The SSH client failed.
    SshError(makiko::Error),
    /// A command could not be written.
    WriteError(std::io::Error),
    /// The server did not respond in time.
    Timeout,
    /// A response could not be read.
    ParseError(ParseError),
    /// The server answered a command with an error.
    QueryError { id: i32, message: String },
}

/// A [`QueryError`] as contracts speak of it.
pub enum QueryErrorView {
    ConnectionFailed(std::io::Error),
    ConnectionClosed,
    HostKeyMismatch { expected: Seq<char>, actual: Seq<char> },
    AuthenticationFailed { message: Seq<char> },
    SshError(makiko::Error),
    WriteError(std::io::Error),
    Timeout,
    ParseError(ParseErrorView),
    QueryError { id: i32, message: Seq<char> },
}

impl View for QueryError {
    type V = QueryErrorView;

    open spec fn view(&self) -> QueryErrorView {
        match self {
            QueryError::ConnectionFailed(e) => QueryErrorView::ConnectionFailed(*e),
            QueryError::ConnectionClosed => QueryErrorView::ConnectionClosed,
            QueryError::HostKeyMismatch { expected, actual } => QueryErrorView::HostKeyMismatch {
                expected: expected@,
                actual: actual@,
            },
            QueryError::AuthenticationFailed { message } => QueryErrorView::AuthenticationFailed {
                message: message@,
            },
            QueryError::SshError(e) => QueryErrorView::SshError(*e),
            QueryError::WriteError(e) => QueryErrorView::WriteError(*e),
            QueryError::Timeout => QueryErrorView::Timeout,
            QueryError::ParseError(e) => QueryErrorView::ParseError(e@),
            QueryError::QueryError { id, message } => QueryErrorView::QueryError {
                id: *id,
                message: message@,
            },
        }
    }
}

impl From<makiko::Error> for QueryError {
    fn from(e: makiko::Error) -> (error: QueryError) {
        QueryError::SshError(e)
    }
}

impl vstd::std_specs::convert::FromSpecImpl<makiko::Error> for QueryError {
    open spec fn obeys_from_spec() -> bool {
        true
    }

    open spec fn from_spec(e: makiko::Error) -> QueryError {
        QueryError::SshError(e)
    }
}

/// An error shows what went wrong, and all that it carries.
pub proof fn law_errors_show_what_they_carry(e: QueryError, p: ParseError)
    ensures
        match e {
            QueryError::ConnectionFailed(io) => e@ == QueryErrorView::ConnectionFailed(io),
            QueryError::ConnectionClosed => e@ is ConnectionClosed,
            QueryError::HostKeyMismatch { expected, actual } => e@ == (
            QueryErrorView::HostKeyMismatch { expected: expected@, actual: actual@ }),
            QueryError::AuthenticationFailed { message } => e@ == (
            QueryErrorView::AuthenticationFailed { message: message@ }),
            QueryError::SshError(ssh) => e@ == QueryErrorView::SshError(ssh),
            QueryError::WriteError(io) => e@ == QueryErrorView::WriteError(io),
            QueryError::Timeout => e@ is Timeout,
            QueryError::ParseError(parse) => e@ == QueryErrorView::ParseError(parse@),
            QueryError::QueryError { id, message } => e@ == (QueryErrorView::QueryError {
                id,
                message: message@,
            }),
        },
        match p {
            ParseError::InvalidUtf8 => p@ is InvalidUtf8,
            ParseError::InvalidEscape { value } => p@ == (ParseErrorView::InvalidEscape {
                value: value@,
            }),
            ParseError::MissingProperty { key } => p@ == (ParseErrorView::MissingProperty {
                key: key@,
            }),
            ParseError::InvalidNumber { key, value } => p@ == (ParseErrorView::InvalidNumber {
                key: key@,
                value: value@,
            }),
            ParseError::InvalidFlag { key, value } => p@ == (ParseErrorView::InvalidFlag {
                key: key@,
                value: value@,
            }),
            ParseError::UnknownEvent { response, event } => p@ == (ParseErrorView::UnknownEvent {
                response: response@,
                event: event@,
            }),
        },
{
}

} // verus!
