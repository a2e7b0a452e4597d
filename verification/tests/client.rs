use ts3_query_api::definitions::Status;
use ts3_query_api::error::{ParseError, QueryError};
use ts3_query_api::parser::Properties;
use ts3_query_api::protocol::client::{
    acknowledged, check_status, decode_reply, decode_reply_custom_into, decode_reply_into,
    frame_command, login_result, raw_reply, received, rejection_error, AuthOutcome, ClientAction,
    ClientEvent, ConnectEvent, ConnectStep, HostKeyDecision, EMPTY_RESULT_SET,
};
use ts3_query_api::protocol::types::RawCommandResponse;
use ts3_query_api::HostKeyVerification;

/// The SSH encoding of the Ed25519 key that is the base point of the curve.
fn key_blob() -> Vec<u8> {
    let mut blob = vec![0, 0, 0, 11];
    blob.extend_from_slice(b"ssh-ed25519");
    blob.extend_from_slice(&[0, 0, 0, 32, 0x58]);
    blob.extend_from_slice(&[0x66; 31]);
    blob
}

const KEY_FINGERPRINT: &str = "SHA256:m/ejOXkI0ofKT+bW34mhHdSH63xu9c+QU7djuKirDXM";

fn response(content: &str, status: &str) -> RawCommandResponse {
    RawCommandResponse::new(content.as_bytes().to_vec(), status.as_bytes().to_vec())
}

#[test]
fn wrong_fingerprint_is_refused_and_the_real_one_accepted() {
    let wrong = HostKeyVerification::Fingerprint("SHA256:definitely-not-the-real-key".to_string());
    let reported = match wrong.check_key(&key_blob()) {
        HostKeyDecision::Reject(QueryError::HostKeyMismatch { expected, actual }) => {
            assert_eq!(expected, "SHA256:definitely-not-the-real-key");
            actual
        }
        other => panic!("expected HostKeyMismatch, got {other:?}"),
    };
    assert_eq!(reported, KEY_FINGERPRINT);
    let right = HostKeyVerification::Fingerprint(reported);
    assert!(matches!(right.check_key(&key_blob()), HostKeyDecision::Accept));
}

#[test]
fn any_key_is_accepted_without_verification() {
    let any = HostKeyVerification::InsecureAcceptAny;
    assert!(matches!(any.check_key(&key_blob()), HostKeyDecision::Accept));
    assert!(matches!(any.check_fingerprint("x".to_string()), HostKeyDecision::Accept));
}

#[test]
fn fingerprints_are_compared_exactly() {
    let expected = HostKeyVerification::Fingerprint("SHA256:abc".to_string());
    assert!(matches!(
        expected.check_fingerprint("SHA256:abc".to_string()),
        HostKeyDecision::Accept
    ));
    assert!(matches!(
        expected.check_fingerprint("SHA256:abC".to_string()),
        HostKeyDecision::Reject(QueryError::HostKeyMismatch { .. })
    ));
}

#[test]
fn what_is_no_key_is_refused() {
    let any = HostKeyVerification::InsecureAcceptAny;
    assert!(matches!(
        any.check_key(&[1, 2, 3]),
        HostKeyDecision::Reject(QueryError::SshError(_))
    ));
}

#[test]
fn client_events_are_decided() {
    let pinned = HostKeyVerification::Fingerprint(KEY_FINGERPRINT.to_string());
    assert!(matches!(
        pinned.on_client_event(ClientEvent::ServerPubkey(key_blob())),
        ClientAction::Decide(HostKeyDecision::Accept)
    ));
    let other = HostKeyVerification::Fingerprint("SHA256:other".to_string());
    assert!(matches!(
        other.on_client_event(ClientEvent::ServerPubkey(key_blob())),
        ClientAction::Decide(HostKeyDecision::Reject(QueryError::HostKeyMismatch { .. }))
    ));
    assert!(matches!(pinned.on_client_event(ClientEvent::Other), ClientAction::Ignore));
    assert!(matches!(pinned.on_client_event(ClientEvent::Closed), ClientAction::Stop));
    assert!(matches!(
        pinned.on_client_event(ClientEvent::Failed(makiko::Error::PeerClosed)),
        ClientAction::Stop
    ));
}

#[test]
fn logins_come_to_what_the_server_answers() {
    assert!(login_result(AuthOutcome::Success).is_ok());
    match login_result(AuthOutcome::ChangePassword { prompt: "too old".to_string() }) {
        Err(QueryError::AuthenticationFailed { message }) => {
            assert_eq!(message, "server requires a password change: too old");
        }
        other => panic!("expected AuthenticationFailed, got {other:?}"),
    }
    let refused = AuthOutcome::Failure {
        methods_can_continue: vec!["publickey".to_string()],
        partial_success: false,
    };
    match login_result(refused) {
        Err(QueryError::AuthenticationFailed { message }) => assert_eq!(
            message,
            "server rejected authentication: AuthFailure { methods_can_continue: \
             [\"publickey\"], partial_success: false }"
        ),
        other => panic!("expected AuthenticationFailed, got {other:?}"),
    }
    match rejection_error("no") {
        QueryError::AuthenticationFailed { message } => {
            assert_eq!(message, "server rejected authentication: no");
        }
        other => panic!("expected AuthenticationFailed, got {other:?}"),
    }
}

#[test]
fn connecting_goes_through_all_steps() {
    let step = ConnectStep::first();
    let step = step.next(ConnectEvent::Dialed(Ok(()))).unwrap();
    assert_eq!(step, ConnectStep::OpenSsh);
    let step = step.next(ConnectEvent::SshOpened(Ok(()))).unwrap();
    assert_eq!(step, ConnectStep::LogIn);
    let step = step
        .next(ConnectEvent::LoggedIn { result: Ok(AuthOutcome::Success), refused_key: None })
        .unwrap();
    assert_eq!(step, ConnectStep::OpenSession);
    let step = step.next(ConnectEvent::SessionOpened(Ok(()))).unwrap();
    assert_eq!(step, ConnectStep::RequestShell);
    let step = step.next(ConnectEvent::ShellRequested(Ok(()))).unwrap();
    assert_eq!(step, ConnectStep::AwaitShell);
    let step = step.next(ConnectEvent::ShellStarted(Ok(()))).unwrap();
    assert_eq!(step, ConnectStep::ReadWelcome);
    let step = step.next(ConnectEvent::Welcomed(Ok(()))).unwrap();
    assert_eq!(step, ConnectStep::Connected);
}

#[test]
fn connecting_ends_with_the_error_of_the_step() {
    let refused = std::io::Error::new(std::io::ErrorKind::ConnectionRefused, "refused");
    assert!(matches!(
        ConnectStep::Dial.next(ConnectEvent::Dialed(Err(refused))),
        Err(QueryError::ConnectionFailed(_))
    ));
    assert!(matches!(
        ConnectStep::OpenSsh.next(ConnectEvent::SshOpened(Err(makiko::Error::PeerClosed))),
        Err(QueryError::SshError(makiko::Error::PeerClosed))
    ));
    assert!(matches!(
        ConnectStep::OpenSession.next(ConnectEvent::SessionOpened(Err(makiko::Error::PeerClosed))),
        Err(QueryError::SshError(_))
    ));
    assert!(matches!(
        ConnectStep::RequestShell.next(ConnectEvent::ShellRequested(Err(makiko::Error::ChannelClosed))),
        Err(QueryError::SshError(_))
    ));
    assert!(matches!(
        ConnectStep::AwaitShell.next(ConnectEvent::ShellStarted(Err(makiko::Error::ChannelReq))),
        Err(QueryError::SshError(makiko::Error::ChannelReq))
    ));
    assert!(matches!(
        ConnectStep::ReadWelcome.next(ConnectEvent::Welcomed(Err(QueryError::ConnectionClosed))),
        Err(QueryError::ConnectionClosed)
    ));
    let wrong = AuthOutcome::Failure { methods_can_continue: Vec::new(), partial_success: false };
    assert!(matches!(
        ConnectStep::LogIn.next(ConnectEvent::LoggedIn { result: Ok(wrong), refused_key: None }),
        Err(QueryError::AuthenticationFailed { .. })
    ));
}

#[test]
fn refused_key_is_reported_rather_than_the_ssh_error() {
    let refused = QueryError::HostKeyMismatch { expected: "a".to_string(), actual: "b".to_string() };
    let event = ConnectEvent::LoggedIn {
        result: Err(makiko::Error::AuthAborted),
        refused_key: Some(refused),
    };
    match ConnectStep::LogIn.next(event) {
        Err(QueryError::HostKeyMismatch { expected, actual }) => {
            assert_eq!((expected.as_str(), actual.as_str()), ("a", "b"));
        }
        other => panic!("expected HostKeyMismatch, got {other:?}"),
    }
    let event = ConnectEvent::LoggedIn {
        result: Err(makiko::Error::AuthAborted),
        refused_key: None,
    };
    assert!(matches!(
        ConnectStep::LogIn.next(event),
        Err(QueryError::SshError(makiko::Error::AuthAborted))
    ));
}

#[test]
fn commands_are_framed() {
    assert_eq!(frame_command("use sid=1".to_string()), "use sid=1\n\r");
    assert_eq!(frame_command(String::new()), "\n\r");
}

#[test]
fn closed_channels_close_the_connection() {
    assert_eq!(received(Some(5)).unwrap(), 5);
    assert!(matches!(received::<u8>(None), Err(QueryError::ConnectionClosed)));
    assert!(matches!(raw_reply(None), Err(QueryError::ConnectionClosed)));
    assert!(matches!(acknowledged(None), Err(QueryError::ConnectionClosed)));
}

#[test]
fn acknowledged_does_not_look_at_the_status() {
    assert!(acknowledged(Some(response("", "error id=512 msg=x"))).is_ok());
}

#[test]
fn status_decides_what_a_response_comes_to() {
    let ok = check_status(response("cid=1", "error id=0 msg=ok")).unwrap();
    assert_eq!(ok.content(), b"cid=1");
    assert_eq!(ok.status(), b"error id=0 msg=ok");
    match raw_reply(Some(response("", "error id=512 msg=invalid\\sclientID"))) {
        Err(QueryError::QueryError { id, message }) => {
            assert_eq!(id, 512);
            assert_eq!(message, "invalid clientID");
        }
        other => panic!("expected QueryError, got {other:?}"),
    }
    assert!(matches!(
        raw_reply(Some(response("", "error id=zero msg=ok"))),
        Err(QueryError::ParseError(ParseError::InvalidNumber { .. }))
    ));
}

#[test]
fn values_are_decoded_from_replies() {
    let row: Properties =
        decode_reply(raw_reply(Some(response("virtualserver_id=1", "error id=0 msg=ok")))).unwrap();
    assert_eq!(row.number("virtualserver_id").unwrap(), 1);
    let missing: Result<Status, QueryError> =
        decode_reply(Ok(response("id=1", "error id=0 msg=ok")));
    assert!(matches!(
        missing,
        Err(QueryError::ParseError(ParseError::MissingProperty { .. }))
    ));
    let failed: Result<Status, QueryError> = decode_reply(Err(QueryError::Timeout));
    assert!(matches!(failed, Err(QueryError::Timeout)));
}

#[test]
fn lists_are_decoded_from_replies() {
    let list: Vec<Properties> =
        decode_reply_into(Ok(response("cid=1|cid=2|cid=3", "error id=0 msg=ok")), Vec::new())
            .unwrap();
    let ids: Vec<i32> = list.iter().map(|row| row.number("cid").unwrap()).collect();
    assert_eq!(ids, vec![1, 2, 3]);
}

#[test]
fn the_empty_list_is_no_failure() {
    assert_eq!(EMPTY_RESULT_SET, 1281);
    let empty = "error id=1281 msg=database\\sempty\\sresult\\sset";
    let list: Vec<Properties> =
        decode_reply_into(raw_reply(Some(response("", empty))), Vec::new()).unwrap();
    assert!(list.is_empty());
    let kept = decode_reply_custom_into(raw_reply(Some(response("", empty))), vec![7], |_| {
        Err(ParseError::InvalidUtf8)
    })
    .unwrap();
    assert_eq!(kept, vec![7]);
    let other: Result<Vec<Properties>, QueryError> =
        decode_reply_into(raw_reply(Some(response("", "error id=1280 msg=x"))), Vec::new());
    assert!(matches!(other, Err(QueryError::QueryError { id: 1280, .. })));
}

#[test]
fn lists_are_decoded_by_a_function() {
    let names = decode_reply_custom_into(
        Ok(response("a x=1|b x=2", "error id=0 msg=ok")),
        Vec::new(),
        |decoder| {
            let name = decoder.decode_name()?;
            let row: Properties = decoder.decode()?;
            Ok((name, row.number("x")?))
        },
    )
    .unwrap();
    assert_eq!(names, vec![("a".to_string(), 1), ("b".to_string(), 2)]);
    let failed: Result<Vec<i32>, QueryError> = decode_reply_custom_into(
        Ok(response("x=1|y=2", "error id=0 msg=ok")),
        Vec::new(),
        |decoder| {
            let row: Properties = decoder.decode()?;
            row.number("x")
        },
    );
    assert!(matches!(
        failed,
        Err(QueryError::ParseError(ParseError::MissingProperty { .. }))
    ));
}
