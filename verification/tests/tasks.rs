use ts3_query_api::error::QueryError;
use ts3_query_api::parser::{Command, Decoder, Properties};
use ts3_query_api::protocol::client::frame_command;
use ts3_query_api::protocol::connection::{LineAction, LineReader, WELCOME_LINES};
use ts3_query_api::protocol::types::RawCommandResponse;
use ts3_query_api::protocol::writer::{
    ResponseWait, Writer, WriterAction, WriterEvent, WriterState, RESPONSE_TIMEOUT,
};

fn io_error() -> std::io::Error {
    std::io::Error::new(std::io::ErrorKind::BrokenPipe, "gone")
}

fn response(content: &[u8]) -> RawCommandResponse {
    RawCommandResponse::new(content.to_vec(), b"error id=0 msg=ok".to_vec())
}

fn awaiting(command: &str) -> Writer {
    let mut writer = Writer::new();
    writer.run(WriterEvent::Command(Some(command.to_string())));
    writer.run(WriterEvent::Written(Ok(())));
    writer.run(WriterEvent::Flushed(Ok(())));
    assert_eq!(writer.state(), WriterState::Awaiting);
    writer
}

#[test]
fn commands_and_responses_alternate() {
    let mut writer = Writer::new();
    for (command, content) in [("version\n\r", b"a"), ("whoami\n\r", b"b")] {
        assert_eq!(writer.state(), WriterState::Receiving);
        match writer.run(WriterEvent::Command(Some(command.to_string()))) {
            WriterAction::Write(data) => assert_eq!(data, command),
            other => panic!("expected Write, got {other:?}"),
        }
        assert!(matches!(writer.run(WriterEvent::Written(Ok(()))), WriterAction::Flush));
        match writer.run(WriterEvent::Flushed(Ok(()))) {
            WriterAction::Await { seconds } => assert_eq!(seconds, 30),
            other => panic!("expected Await, got {other:?}"),
        }
        match writer.run(WriterEvent::Response(ResponseWait::Arrived(response(content)))) {
            WriterAction::Deliver(response) => assert_eq!(response.content(), content),
            other => panic!("expected Deliver, got {other:?}"),
        }
        assert!(matches!(writer.run(WriterEvent::Delivered(true)), WriterAction::Receive));
    }
    assert_eq!(RESPONSE_TIMEOUT, 30);
}

#[test]
fn a_late_response_stops_the_writer() {
    let mut writer = awaiting("version\n\r");
    assert!(matches!(
        writer.run(WriterEvent::Response(ResponseWait::TimedOut)),
        WriterAction::Stop(QueryError::Timeout)
    ));
    assert_eq!(writer.state(), WriterState::Stopped);
}

#[test]
fn a_flush_that_fails_does_not_stop_the_writer() {
    let mut writer = Writer::new();
    writer.run(WriterEvent::Command(Some("version\n\r".to_string())));
    writer.run(WriterEvent::Written(Ok(())));
    assert!(matches!(
        writer.run(WriterEvent::Flushed(Err(io_error()))),
        WriterAction::Await { .. }
    ));
}

#[test]
fn a_write_that_fails_stops_the_writer() {
    let mut writer = Writer::new();
    writer.run(WriterEvent::Command(Some("version\n\r".to_string())));
    assert!(matches!(
        writer.run(WriterEvent::Written(Err(io_error()))),
        WriterAction::Stop(QueryError::WriteError(_))
    ));
}

#[test]
fn closed_channels_stop_the_writer() {
    let mut writer = Writer::new();
    assert!(matches!(
        writer.run(WriterEvent::Command(None)),
        WriterAction::Stop(QueryError::ConnectionClosed)
    ));
    let mut writer = awaiting("version\n\r");
    assert!(matches!(
        writer.run(WriterEvent::Response(ResponseWait::Closed)),
        WriterAction::Stop(QueryError::ConnectionClosed)
    ));
    let mut writer = awaiting("version\n\r");
    writer.run(WriterEvent::Response(ResponseWait::Arrived(response(b""))));
    assert!(matches!(
        writer.run(WriterEvent::Delivered(false)),
        WriterAction::Stop(QueryError::ConnectionClosed)
    ));
}

#[test]
fn lines_are_put_together_to_responses() {
    let mut reader = LineReader::new();
    assert!(matches!(reader.on_line(b"cid=1|cid=2\n"), LineAction::Collect));
    match reader.on_line(b"\rnotifyclientupdated clid=1\n") {
        LineAction::Notify(line) => assert_eq!(line, b"notifyclientupdated clid=1"),
        other => panic!("expected Notify, got {other:?}"),
    }
    assert!(matches!(reader.on_line(b"\r\n"), LineAction::Collect));
    assert!(matches!(reader.on_line(b"\rmore\n"), LineAction::Collect));
    match reader.on_line(b"\rerror id=0 msg=ok\n\r") {
        LineAction::Respond(response) => {
            assert_eq!(response.content(), b"cid=1|cid=2\nmore");
            assert_eq!(response.status(), b"error id=0 msg=ok");
        }
        other => panic!("expected Respond, got {other:?}"),
    }
    match reader.on_line(b"error id=0 msg=ok") {
        LineAction::Respond(response) => assert_eq!(response.content(), b""),
        other => panic!("expected Respond, got {other:?}"),
    }
}

#[test]
fn sent_commands_read_back() {
    let command = Command::new("gm").arg("msg", "a\nb | c").arg("x", "");
    let data = frame_command(command.to_line());
    let (line, end) = data.split_once('\n').unwrap();
    assert_eq!(end, "\r");
    let mut decoder = Decoder::new(line.as_bytes());
    assert_eq!(decoder.decode_name().unwrap(), "gm");
    let row: Properties = decoder.decode().unwrap();
    assert_eq!(row.text("msg").unwrap(), "a\nb | c");
    assert_eq!(row.text("x").unwrap(), "");
}

#[test]
fn written_notifications_and_status_lines_are_told_apart() {
    let mut reader = LineReader::new();
    let notification = Command::new("notifytextmessage").arg("msg", "error \u{fc}").to_line();
    match reader.on_line(format!("\r{notification}\n").as_bytes()) {
        LineAction::Notify(line) => assert_eq!(line, notification.as_bytes()),
        other => panic!("expected Notify, got {other:?}"),
    }
    let status = Command::new("error").arg("id", "0").arg("msg", "notify").to_line();
    match reader.on_line(format!("{status}\n\r").as_bytes()) {
        LineAction::Respond(response) => assert_eq!(response.status(), status.as_bytes()),
        other => panic!("expected Respond, got {other:?}"),
    }
    assert_eq!(WELCOME_LINES, 2);
}
