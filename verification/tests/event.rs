use ts3_query_api::definitions::Status;
use ts3_query_api::error::ParseError;
use ts3_query_api::event::{Event, EventName};
use ts3_query_api::parser::{Command, Decode, Decoder};

#[test]
fn parses_partial_client_updated() {
    // The server sends only the changed properties plus `clid`.
    let event = Event::from("notifyclientupdated clid=7 client_input_muted=1").unwrap();
    match event {
        Event::ClientUpdated(e) => {
            assert_eq!(e.client_id, 7);
            assert_eq!(e.input_muted, Some(true));
            assert_eq!(e.output_muted, None);
            assert_eq!(e.away, None);
        }
        other => panic!("expected ClientUpdated, got {other:?}"),
    }
}

#[test]
fn parses_client_updated_away() {
    let event =
        Event::from("notifyclientupdated clid=42 client_away=1 client_away_message=brb").unwrap();
    match event {
        Event::ClientUpdated(e) => {
            assert_eq!(e.client_id, 42);
            assert_eq!(e.away, Some(true));
            assert_eq!(e.away_message.as_deref(), Some("brb"));
            assert_eq!(e.input_muted, None);
        }
        other => panic!("expected ClientUpdated, got {other:?}"),
    }
}

#[test]
fn client_updated_flags_can_be_clear() {
    let event = Event::from("notifyclientupdated clid=-3 client_output_muted=0").unwrap();
    match event {
        Event::ClientUpdated(e) => {
            assert_eq!(e.client_id, -3);
            assert_eq!(e.output_muted, Some(false));
            assert_eq!(e.away_message, None);
        }
        other => panic!("expected ClientUpdated, got {other:?}"),
    }
}

#[test]
fn client_updated_without_client_is_an_error() {
    match Event::from("notifyclientupdated client_away=1") {
        Err(ParseError::MissingProperty { key }) => assert_eq!(key, "clid"),
        other => panic!("expected MissingProperty, got {other:?}"),
    }
}

#[test]
fn client_updated_with_a_bad_number_is_an_error() {
    match Event::from("notifyclientupdated clid=2147483648") {
        Err(ParseError::InvalidNumber { key, value }) => {
            assert_eq!(key, "clid");
            assert_eq!(value, "2147483648");
        }
        other => panic!("expected InvalidNumber, got {other:?}"),
    }
}

#[test]
fn client_updated_with_a_bad_flag_is_an_error() {
    match Event::from("notifyclientupdated clid=1 client_away=yes") {
        Err(ParseError::InvalidFlag { key, value }) => {
            assert_eq!(key, "client_away");
            assert_eq!(value, "yes");
        }
        other => panic!("expected InvalidFlag, got {other:?}"),
    }
}

#[test]
fn unknown_event_is_reported_with_its_line() {
    match Event::from("notifysomethingelse clid=1") {
        Err(ParseError::UnknownEvent { response, event }) => {
            assert_eq!(response, "notifysomethingelse clid=1");
            assert_eq!(event, "notifysomethingelse");
        }
        other => panic!("expected UnknownEvent, got {other:?}"),
    }
}

#[test]
fn unknown_event_is_reported_whatever_follows() {
    match Event::from("notifysomethingelse msg=\\q") {
        Err(ParseError::UnknownEvent { event, .. }) => assert_eq!(event, "notifysomethingelse"),
        other => panic!("expected UnknownEvent, got {other:?}"),
    }
    match Event::from("") {
        Err(ParseError::UnknownEvent { response, event }) => {
            assert_eq!(response, "");
            assert_eq!(event, "");
        }
        other => panic!("expected UnknownEvent, got {other:?}"),
    }
}

#[test]
fn known_event_with_a_bad_escape_is_an_error() {
    match Event::from("notifytextmessage msg=a\\q") {
        Err(ParseError::InvalidEscape { value }) => assert_eq!(value, "a\\q"),
        other => panic!("expected InvalidEscape, got {other:?}"),
    }
}

#[test]
fn every_name_gives_its_event() {
    assert!(matches!(Event::from("notifytextmessage"), Ok(Event::TextMessage(_))));
    assert!(matches!(Event::from("notifyclientmoved clid=1"), Ok(Event::ClientMoved(_))));
    assert!(matches!(Event::from("notifycliententerview clid=1"), Ok(Event::ClientEnterView(_))));
    assert!(matches!(Event::from("notifyclientleftview clid=1"), Ok(Event::ClientLeftView(_))));
    assert!(matches!(Event::from("notifyclientupdated clid=1"), Ok(Event::ClientUpdated(_))));
    assert!(matches!(Event::from("notifychannelcreated cid=1"), Ok(Event::ChannelCreated(_))));
    assert!(matches!(Event::from("notifychanneldeleted cid=1"), Ok(Event::ChannelDeleted(_))));
    assert!(matches!(Event::from("notifychanneledited cid=1"), Ok(Event::ChannelEdited(_))));
    assert!(matches!(Event::from("notifychannelmoved cid=1"), Ok(Event::ChannelMoved(_))));
    assert!(matches!(
        Event::from("notifychanneldescriptionchanged cid=1"),
        Ok(Event::ChannelDescriptionChanged(_))
    ));
    assert!(matches!(
        Event::from("notifychannelpasswordchanged cid=1"),
        Ok(Event::ChannelPasswordChanged(_))
    ));
    assert!(matches!(Event::from("notifyserveredited reasonid=1"), Ok(Event::ServerEdited(_))));
    assert!(matches!(Event::from("notifytokenused clid=1"), Ok(Event::TokenUsed(_))));
}

#[test]
fn event_names_read_back() {
    assert_eq!(
        EventName::parse(&"notifytokenused".to_string()),
        Some(EventName::TokenUsed)
    );
    assert_eq!(EventName::parse(&"notifytokenuse".to_string()), None);
}

#[test]
fn event_reads_back_what_was_written() {
    let line = Command::new("notifytextmessage")
        .arg("targetmode", "2")
        .arg("msg", "a b|c/d\\e=f\n\u{fc}")
        .to_line();
    assert_eq!(line, "notifytextmessage targetmode=2 msg=a\\sb\\pc\\/d\\\\e=f\\n\u{fc}");
    match Event::from(&line) {
        Ok(Event::TextMessage(e)) => {
            assert_eq!(e.entries.len(), 2);
            assert_eq!(e.entries[0].key, "targetmode");
            assert_eq!(e.entries[0].value, "2");
            assert_eq!(e.entries[1].key, "msg");
            assert_eq!(e.entries[1].value, "a b|c/d\\e=f\n\u{fc}");
            assert_eq!(e.get("msg").unwrap(), "a b|c/d\\e=f\n\u{fc}");
            assert!(e.get("target").is_none());
        }
        other => panic!("expected TextMessage, got {other:?}"),
    }
}

#[test]
fn status_is_read_behind_its_name() {
    let status: Status = Decoder::new(b"error id=2568 msg=insufficient\\sclient\\spermissions")
        .decode_with_name()
        .unwrap();
    assert_eq!(status.id, 2568);
    assert_eq!(status.message, "insufficient client permissions");
}

#[test]
fn status_needs_a_message() {
    let status: Result<Status, ParseError> = Decoder::new(b"error id=0").decode_with_name();
    match status {
        Err(ParseError::MissingProperty { key }) => assert_eq!(key, "msg"),
        other => panic!("expected MissingProperty, got {other:?}"),
    }
}

#[test]
fn decode_takes_one_row_at_a_time() {
    let mut decoder = Decoder::new(b"id=1 msg=a|id=2 msg=b");
    let first: Status = decoder.decode().unwrap();
    let second: Status = decoder.decode().unwrap();
    assert_eq!((first.id, first.message.as_str()), (1, "a"));
    assert_eq!((second.id, second.message.as_str()), (2, "b"));
}

#[test]
fn input_that_is_not_utf8_is_an_error() {
    let mut decoder = Decoder::new(&[0x6e, 0xff]);
    assert!(matches!(decoder.decode_name(), Err(ParseError::InvalidUtf8)));
    let status: Result<Status, ParseError> = decoder.decode();
    assert!(matches!(status, Err(ParseError::InvalidUtf8)));
    let row = ts3_query_api::parser::Properties { entries: Vec::new() };
    assert!(Status::decode(row).is_err());
}
