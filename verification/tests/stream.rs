use bytes::Bytes;
use ts3_query_api::protocol::ssh::{
    ChannelReader, ChannelWriter, FlushAction, ReadAction, SendPoll, SessionPoll,
};

fn sent(action: FlushAction) -> Bytes {
    match action {
        FlushAction::Send(data) => data,
        other => panic!("expected Send, got {other:?}"),
    }
}

fn delivered(action: ReadAction) -> Bytes {
    match action {
        ReadAction::Deliver(data) => data,
        other => panic!("expected Deliver, got {other:?}"),
    }
}

#[test]
fn an_empty_flush_is_done_at_once() {
    let mut writer = ChannelWriter::new();
    assert!(matches!(writer.poll_flush(SendPoll::NotPolled), FlushAction::Done));
}

#[test]
fn writes_are_sent_together_in_order() {
    let mut writer = ChannelWriter::new();
    assert_eq!(writer.poll_write(b"ab"), 2);
    assert_eq!(writer.poll_write(b"cde"), 3);
    assert_eq!(writer.waiting(), 5);
    assert_eq!(&sent(writer.poll_flush(SendPoll::NotPolled))[..], b"abcde");
    assert_eq!(writer.waiting(), 0);
    assert!(matches!(writer.poll_flush(SendPoll::Pending), FlushAction::Wait));
    assert_eq!(writer.poll_write(b"fg"), 2);
    assert!(matches!(writer.poll_flush(SendPoll::NotPolled), FlushAction::Poll));
    assert_eq!(&sent(writer.poll_flush(SendPoll::Sent))[..], b"fg");
    assert!(matches!(writer.poll_flush(SendPoll::Sent), FlushAction::Done));
}

#[test]
fn a_send_that_fails_fails_the_flush() {
    let mut writer = ChannelWriter::new();
    writer.poll_write(b"ab");
    sent(writer.poll_flush(SendPoll::NotPolled));
    writer.poll_write(b"cd");
    assert!(matches!(
        writer.poll_flush(SendPoll::Failed(makiko::Error::ChannelClosed)),
        FlushAction::Fail(makiko::Error::ChannelClosed)
    ));
    assert_eq!(&sent(writer.poll_flush(SendPoll::NotPolled))[..], b"cd");
}

#[test]
fn shutdown_is_a_flush() {
    let mut writer = ChannelWriter::new();
    writer.poll_write(b"quit");
    assert_eq!(&sent(writer.poll_shutdown(SendPoll::NotPolled))[..], b"quit");
    assert!(matches!(writer.poll_shutdown(SendPoll::Sent), FlushAction::Done));
}

#[test]
fn reads_take_what_there_is_room_for() {
    let mut reader = ChannelReader::new();
    assert!(matches!(reader.poll_read(4), ReadAction::Poll));
    let data = Bytes::from_static(b"abcdef");
    assert_eq!(&delivered(reader.on_event(SessionPoll::Stdout(data), 4))[..], b"abcd");
    assert_eq!(&delivered(reader.poll_read(0))[..], b"");
    assert_eq!(&delivered(reader.poll_read(100))[..], b"ef");
    assert!(matches!(reader.poll_read(100), ReadAction::Poll));
}

#[test]
fn other_events_are_skipped() {
    let mut reader = ChannelReader::new();
    assert!(matches!(reader.on_event(SessionPoll::Other, 8), ReadAction::Poll));
    assert!(matches!(
        reader.on_event(SessionPoll::Stdout(Bytes::new()), 8),
        ReadAction::Poll
    ));
    assert_eq!(
        &delivered(reader.on_event(SessionPoll::Stdout(Bytes::from_static(b"x")), 8))[..],
        b"x"
    );
}

#[test]
fn reads_end_with_the_session() {
    let mut reader = ChannelReader::new();
    assert!(matches!(reader.on_event(SessionPoll::Pending, 8), ReadAction::Wait));
    assert!(matches!(reader.on_event(SessionPoll::Eof, 8), ReadAction::End));
    assert!(matches!(reader.on_event(SessionPoll::Closed, 8), ReadAction::End));
    assert!(matches!(
        reader.on_event(SessionPoll::Failed(makiko::Error::PeerClosed), 8),
        ReadAction::Fail(makiko::Error::PeerClosed)
    ));
}
