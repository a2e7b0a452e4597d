//! Notifications of the server.

use vstd::prelude::*;

use crate::definitions::{
    ChannelCreateEvent, ChannelDeleteEvent, ChannelDescriptionChangeEvent, ChannelEditEvent,
    ChannelMoveEvent, ChannelPasswordChangeEvent, ClientEnterViewEvent, ClientLeftViewEvent,
    ClientMoveEvent, ClientUpdatedEvent, ClientUpdatedView, ServerEditEvent, TextMessageEvent,
    TokenUseEvent,
};
use crate::error::{ParseError, ParseErrorView};
use crate::parser::command;
use crate::parser::decoder;
use crate::parser::decoder::{Decode, Decoder};
use crate::parser::properties::{Properties, Row};
use crate::parser::text;

verus! {

/// A notification of the server.
#[derive(Debug)]
pub enum Event {
    TextMessage(TextMessageEvent),
    ClientMoved(ClientMoveEvent),
    ClientEnterView(ClientEnterViewEvent),
    ClientLeftView(ClientLeftViewEvent),
    ClientUpdated(ClientUpdatedEvent),
    ChannelCreated(ChannelCreateEvent),
    ChannelDeleted(ChannelDeleteEvent),
    ChannelEdited(ChannelEditEvent),
    ChannelMoved(ChannelMoveEvent),
    ChannelDescriptionChanged(ChannelDescriptionChangeEvent),
    ChannelPasswordChanged(ChannelPasswordChangeEvent),
    ServerEdited(ServerEditEvent),
    TokenUsed(TokenUseEvent),
}

/// An [`Event`] as contracts speak of it.
pub enum EventView {
    TextMessage(Row),
    ClientMoved(Row),
    ClientEnterView(Row),
    ClientLeftView(Row),
    ClientUpdated(ClientUpdatedView),
    ChannelCreated(Row),
    ChannelDeleted(Row),
    ChannelEdited(Row),
    ChannelMoved(Row),
    ChannelDescriptionChanged(Row),
    ChannelPasswordChanged(Row),
    ServerEdited(Row),
    TokenUsed(Row),
}

impl View for Event {
    type V = EventView;

    open spec fn view(&self) -> EventView {
        match self {
            Event::TextMessage(e) => EventView::TextMessage(e@),
            Event::ClientMoved(e) => EventView::ClientMoved(e@),
            Event::ClientEnterView(e) => EventView::ClientEnterView(e@),
            Event::ClientLeftView(e) => EventView::ClientLeftView(e@),
            Event::ClientUpdated(e) => EventView::ClientUpdated(e@),
            Event::ChannelCreated(e) => EventView::ChannelCreated(e@),
            Event::ChannelDeleted(e) => EventView::ChannelDeleted(e@),
            Event::ChannelEdited(e) => EventView::ChannelEdited(e@),
            Event::ChannelMoved(e) => EventView::ChannelMoved(e@),
            Event::ChannelDescriptionChanged(e) => EventView::ChannelDescriptionChanged(e@),
            Event::ChannelPasswordChanged(e) => EventView::ChannelPasswordChanged(e@),
            Event::ServerEdited(e) => EventView::ServerEdited(e@),
            Event::TokenUsed(e) => EventView::TokenUsed(e@),
        }
    }
}

/// The notifications, by name.
#[derive(Debug, Clone, Copy, PartialEq, Eq, Structural)]
pub enum EventName {
    TextMessage,
    ClientMoved,
    ClientEnterView,
    ClientLeftView,
    ClientUpdated,
    ChannelCreated,
    ChannelDeleted,
    ChannelEdited,
    ChannelMoved,
    ChannelDescriptionChanged,
    ChannelPasswordChanged,
    ServerEdited,
    TokenUsed,
}

/// How the name of a notification is written.
pub open spec fn name_text(name: EventName) -> Seq<char> {
    match name {
        EventName::TextMessage => "notifytextmessage"@,
        EventName::ClientMoved => "notifyclientmoved"@,
        EventName::ClientEnterView => "notifycliententerview"@,
        EventName::ClientLeftView => "notifyclientleftview"@,
        EventName::ClientUpdated => "notifyclientupdated"@,
        EventName::ChannelCreated => "notifychannelcreated"@,
        EventName::ChannelDeleted => "notifychanneldeleted"@,
        EventName::ChannelEdited => "notifychanneledited"@,
        EventName::ChannelMoved => "notifychannelmoved"@,
        EventName::ChannelDescriptionChanged => "notifychanneldescriptionchanged"@,
        EventName::ChannelPasswordChanged => "notifychannelpasswordchanged"@,
        EventName::ServerEdited => "notifyserveredited"@,
        EventName::TokenUsed => "notifytokenused"@,
    }
}

/// The notification with that name and that row, or why there is none.
pub open spec fn event_with(name: EventName, row: Row) -> Result<EventView, ParseErrorView> {
    match name {
        EventName::TextMessage => Ok(EventView::TextMessage(row)),
        EventName::ClientMoved => Ok(EventView::ClientMoved(row)),
        EventName::ClientEnterView => Ok(EventView::ClientEnterView(row)),
        EventName::ClientLeftView => Ok(EventView::ClientLeftView(row)),
        EventName::ClientUpdated => match ClientUpdatedEvent::of_row(row) {
            Ok(e) => Ok(EventView::ClientUpdated(e)),
            Err(e) => Err(e),
        },
        EventName::ChannelCreated => Ok(EventView::ChannelCreated(row)),
        EventName::ChannelDeleted => Ok(EventView::ChannelDeleted(row)),
        EventName::ChannelEdited => Ok(EventView::ChannelEdited(row)),
        EventName::ChannelMoved => Ok(EventView::ChannelMoved(row)),
        EventName::ChannelDescriptionChanged => Ok(EventView::ChannelDescriptionChanged(row)),
        EventName::ChannelPasswordChanged => Ok(EventView::ChannelPasswordChanged(row)),
        EventName::ServerEdited => Ok(EventView::ServerEdited(row)),
        EventName::TokenUsed => Ok(EventView::TokenUsed(row)),
    }
}

/// The notification that has `word` for its name.
pub open spec fn named(word: Seq<char>) -> Option<EventName> {
    if word == "notifytextmessage"@ {
        Some(EventName::TextMessage)
    } else if word == "notifyclientmoved"@ {
        Some(EventName::ClientMoved)
    } else if word == "notifycliententerview"@ {
        Some(EventName::ClientEnterView)
    } else if word == "notifyclientleftview"@ {
        Some(EventName::ClientLeftView)
    } else if word == "notifyclientupdated"@ {
        Some(EventName::ClientUpdated)
    } else if word == "notifychannelcreated"@ {
        Some(EventName::ChannelCreated)
    } else if word == "notifychanneldeleted"@ {
        Some(EventName::ChannelDeleted)
    } else if word == "notifychanneledited"@ {
        Some(EventName::ChannelEdited)
    } else if word == "notifychannelmoved"@ {
        Some(EventName::ChannelMoved)
    } else if word == "notifychanneldescriptionchanged"@ {
        Some(EventName::ChannelDescriptionChanged)
    } else if word == "notifychannelpasswordchanged"@ {
        Some(EventName::ChannelPasswordChanged)
    } else if word == "notifyserveredited"@ {
        Some(EventName::ServerEdited)
    } else if word == "notifytokenused"@ {
        Some(EventName::TokenUsed)
    } else {
        None
    }
}

/// The notification that the line `s` holds. A line whose first word names no
/// notification holds none, whatever stands behind that word.
pub open spec fn event_of(s: Seq<char>) -> Result<EventView, ParseErrorView> {
    match named(text::before(s, ' ')) {
        Some(name) => match decoder::value_of::<Properties>(Some(text::after(s, ' '))) {
            Ok(row) => event_with(name, row),
            Err(e) => Err(e),
        },
        None => Err(
            ParseErrorView::UnknownEvent { response: s, event: text::before(s, ' ') },
        ),
    }
}

impl EventName {
    /// The notification that has `word` for its name.
    pub fn parse(word: &String) -> (name: Option<EventName>)
        ensures
            name == named(word@),
    {
        if *word == "notifytextmessage".to_owned() {
            Some(EventName::TextMessage)
        } else if *word == "notifyclientmoved".to_owned() {
            Some(EventName::ClientMoved)
        } else if *word == "notifycliententerview".to_owned() {
            Some(EventName::ClientEnterView)
        } else if *word == "notifyclientleftview".to_owned() {
            Some(EventName::ClientLeftView)
        } else if *word == "notifyclientupdated".to_owned() {
            Some(EventName::ClientUpdated)
        } else if *word == "notifychannelcreated".to_owned() {
            Some(EventName::ChannelCreated)
        } else if *word == "notifychanneldeleted".to_owned() {
            Some(EventName::ChannelDeleted)
        } else if *word == "notifychanneledited".to_owned() {
            Some(EventName::ChannelEdited)
        } else if *word == "notifychannelmoved".to_owned() {
            Some(EventName::ChannelMoved)
        } else if *word == "notifychanneldescriptionchanged".to_owned() {
            Some(EventName::ChannelDescriptionChanged)
        } else if *word == "notifychannelpasswordchanged".to_owned() {
            Some(EventName::ChannelPasswordChanged)
        } else if *word == "notifyserveredited".to_owned() {
            Some(EventName::ServerEdited)
        } else if *word == "notifytokenused".to_owned() {
            Some(EventName::TokenUsed)
        } else {
            None
        }
    }
}

impl Event {
    /// Reads a notification from the line that holds it.
    pub fn from(response: &str) -> (r: Result<Self, ParseError>)
        ensures
            decoder::outcome(r) == event_of(response@),
            match r {
                Ok(event) => event_of(response@) == Ok::<EventView, ParseErrorView>(event@),
                Err(e) => event_of(response@) == Err::<EventView, ParseErrorView>(e@),
            },
    {
        broadcast use vstd::utf8::encode_utf8_valid_utf8, vstd::utf8::encode_utf8_decode_utf8;

        let mut decoder: Decoder = Decoder::new(response.as_bytes());
        match decoder.decode_name() {
            Err(e) => Err(e),
            Ok(name) => match EventName::parse(&name) {
                Some(EventName::TextMessage) => match decoder.decode() {
                    Ok(e) => Ok(Event::TextMessage(e)),
                    Err(e) => Err(e),
                },
                Some(EventName::ClientMoved) => match decoder.decode() {
                    Ok(e) => Ok(Event::ClientMoved(e)),
                    Err(e) => Err(e),
                },
                Some(EventName::ClientEnterView) => match decoder.decode() {
                    Ok(e) => Ok(Event::ClientEnterView(e)),
                    Err(e) => Err(e),
                },
                Some(EventName::ClientLeftView) => match decoder.decode() {
                    Ok(e) => Ok(Event::ClientLeftView(e)),
                    Err(e) => Err(e),
                },
                Some(EventName::ClientUpdated) => match decoder.decode() {
                    Ok(e) => Ok(Event::ClientUpdated(e)),
                    Err(e) => Err(e),
                },
                Some(EventName::ChannelCreated) => match decoder.decode() {
                    Ok(e) => Ok(Event::ChannelCreated(e)),
                    Err(e) => Err(e),
                },
                Some(EventName::ChannelDeleted) => match decoder.decode() {
                    Ok(e) => Ok(Event::ChannelDeleted(e)),
                    Err(e) => Err(e),
                },
                Some(EventName::ChannelEdited) => match decoder.decode() {
                    Ok(e) => Ok(Event::ChannelEdited(e)),
                    Err(e) => Err(e),
                },
                Some(EventName::ChannelMoved) => match decoder.decode() {
                    Ok(e) => Ok(Event::ChannelMoved(e)),
                    Err(e) => Err(e),
                },
                Some(EventName::ChannelDescriptionChanged) => match decoder.decode() {
                    Ok(e) => Ok(Event::ChannelDescriptionChanged(e)),
                    Err(e) => Err(e),
                },
                Some(EventName::ChannelPasswordChanged) => match decoder.decode() {
                    Ok(e) => Ok(Event::ChannelPasswordChanged(e)),
                    Err(e) => Err(e),
                },
                Some(EventName::ServerEdited) => match decoder.decode() {
                    Ok(e) => Ok(Event::ServerEdited(e)),
                    Err(e) => Err(e),
                },
                Some(EventName::TokenUsed) => match decoder.decode() {
                    Ok(e) => Ok(Event::TokenUsed(e)),
                    Err(e) => Err(e),
                },
                None => Err(
                    ParseError::UnknownEvent { response: response.to_owned(), event: name },
                ),
            },
        }
    }
}

/// The names of the notifications are told apart: each name is read as the
/// notification that it was written for, and no other word is read as one.
pub proof fn law_names_read_back(name: EventName, word: Seq<char>)
    ensures
        named(name_text(name)) == Some(name),
        named(word) == Some(name) ==> word == name_text(name),
        !name_text(name).contains(' '),
{
    reveal_strlit("notifytextmessage");
    assert("notifytextmessage"@.len() == 17);
    reveal_strlit("notifyclientmoved");
    assert("notifyclientmoved"@.len() == 17);
    reveal_strlit("notifycliententerview");
    assert("notifycliententerview"@.len() == 21);
    reveal_strlit("notifyclientleftview");
    assert("notifyclientleftview"@.len() == 20);
    reveal_strlit("notifyclientupdated");
    assert("notifyclientupdated"@.len() == 19);
    reveal_strlit("notifychannelcreated");
    assert("notifychannelcreated"@.len() == 20);
    reveal_strlit("notifychanneldeleted");
    assert("notifychanneldeleted"@.len() == 20);
    reveal_strlit("notifychanneledited");
    assert("notifychanneledited"@.len() == 19);
    reveal_strlit("notifychannelmoved");
    assert("notifychannelmoved"@.len() == 18);
    reveal_strlit("notifychanneldescriptionchanged");
    assert("notifychanneldescriptionchanged"@.len() == 31);
    reveal_strlit("notifychannelpasswordchanged");
    assert("notifychannelpasswordchanged"@.len() == 28);
    reveal_strlit("notifyserveredited");
    assert("notifyserveredited"@.len() == 18);
    reveal_strlit("notifytokenused");
    assert("notifytokenused"@.len() == 15);
    assert("notifytextmessage"@[6] == 't');
    assert("notifyclientmoved"@[6] == 'c');
    assert("notifyclientleftview"@[7] == 'l');
    assert("notifychannelcreated"@[7] == 'h');
    assert("notifychanneldeleted"@[7] == 'h');
    assert("notifychannelcreated"@[13] == 'c');
    assert("notifychanneldeleted"@[13] == 'd');
    assert("notifyclientupdated"@[7] == 'l');
    assert("notifychanneledited"@[7] == 'h');
    assert("notifychannelmoved"@[6] == 'c');
    assert("notifyserveredited"@[6] == 's');
}

/// The name of every notification starts the same way, and ends no line.
pub proof fn lemma_name_text(name: EventName)
    ensures
        "notify"@.len() == 6,
        name_text(name).len() >= 6,
        name_text(name).take(6) == "notify"@,
        !name_text(name).contains('\n'),
        !name_text(name).contains('\r'),
{
    reveal_strlit("notify");
    reveal_strlit("notifytextmessage");
    reveal_strlit("notifyclientmoved");
    reveal_strlit("notifycliententerview");
    reveal_strlit("notifyclientleftview");
    reveal_strlit("notifyclientupdated");
    reveal_strlit("notifychannelcreated");
    reveal_strlit("notifychanneldeleted");
    reveal_strlit("notifychanneledited");
    reveal_strlit("notifychannelmoved");
    reveal_strlit("notifychanneldescriptionchanged");
    reveal_strlit("notifychannelpasswordchanged");
    reveal_strlit("notifyserveredited");
    reveal_strlit("notifytokenused");
    assert(name_text(name).take(6) == "notify"@);
}

/// A notification that is written with valid keys reads back with the name and
/// the properties that it was written with.
pub proof fn law_event_reads_back(name: EventName, row: Row)
    requires
        command::valid_keys(row),
    ensures
        event_of(command::line_text(name_text(name), row)) == event_with(name, row),
{
    law_names_read_back(name, name_text(name));
    command::law_line_reads_back(name_text(name), row);
}

/// A written notification other than a client update reads back as the event of
/// its name, with exactly the properties that it was written with.
pub proof fn law_notifications_keep_their_properties(row: Row)
    requires
        command::valid_keys(row),
    ensures
        event_of(command::line_text("notifytextmessage"@, row)) == Ok::<EventView, ParseErrorView>(
            EventView::TextMessage(row),
        ),
        event_of(command::line_text("notifyclientmoved"@, row)) == Ok::<EventView, ParseErrorView>(
            EventView::ClientMoved(row),
        ),
        event_of(command::line_text("notifycliententerview"@, row)) == Ok::<EventView, ParseErrorView>(
            EventView::ClientEnterView(row),
        ),
        event_of(command::line_text("notifyclientleftview"@, row)) == Ok::<EventView, ParseErrorView>(
            EventView::ClientLeftView(row),
        ),
        event_of(command::line_text("notifychannelcreated"@, row)) == Ok::<EventView, ParseErrorView>(
            EventView::ChannelCreated(row),
        ),
        event_of(command::line_text("notifychanneldeleted"@, row)) == Ok::<EventView, ParseErrorView>(
            EventView::ChannelDeleted(row),
        ),
        event_of(command::line_text("notifychanneledited"@, row)) == Ok::<EventView, ParseErrorView>(
            EventView::ChannelEdited(row),
        ),
        event_of(command::line_text("notifychannelmoved"@, row)) == Ok::<EventView, ParseErrorView>(
            EventView::ChannelMoved(row),
        ),
        event_of(command::line_text("notifychanneldescriptionchanged"@, row)) == Ok::<EventView, ParseErrorView>(
            EventView::ChannelDescriptionChanged(row),
        ),
        event_of(command::line_text("notifychannelpasswordchanged"@, row)) == Ok::<EventView, ParseErrorView>(
            EventView::ChannelPasswordChanged(row),
        ),
        event_of(command::line_text("notifyserveredited"@, row)) == Ok::<EventView, ParseErrorView>(
            EventView::ServerEdited(row),
        ),
        event_of(command::line_text("notifytokenused"@, row)) == Ok::<EventView, ParseErrorView>(
            EventView::TokenUsed(row),
        ),
{
    law_event_reads_back(EventName::TextMessage, row);
    law_event_reads_back(EventName::ClientMoved, row);
    law_event_reads_back(EventName::ClientEnterView, row);
    law_event_reads_back(EventName::ClientLeftView, row);
    law_event_reads_back(EventName::ChannelCreated, row);
    law_event_reads_back(EventName::ChannelDeleted, row);
    law_event_reads_back(EventName::ChannelEdited, row);
    law_event_reads_back(EventName::ChannelMoved, row);
    law_event_reads_back(EventName::ChannelDescriptionChanged, row);
    law_event_reads_back(EventName::ChannelPasswordChanged, row);
    law_event_reads_back(EventName::ServerEdited, row);
    law_event_reads_back(EventName::TokenUsed, row);
}

/// The event that `made` makes of the first row of `rest`, or why there is none.
pub open spec fn carried(rest: Seq<char>, made: spec_fn(Row) -> EventView) -> Result<
    EventView,
    ParseErrorView,
> {
    match decoder::value_of::<Properties>(Some(rest)) {
        Ok(row) => Ok(made(row)),
        Err(e) => Err(e),
    }
}

proof fn lemma_carried(name: EventName, rest: Seq<char>)
    ensures
        event_of(name_text(name) + seq![' '] + rest) == match decoder::value_of::<Properties>(
            Some(rest),
        ) {
            Ok(row) => event_with(name, row),
            Err(e) => Err(e),
        },
        event_of(name_text(name)) == event_with(name, Seq::empty()),
{
    let word = name_text(name);
    law_names_read_back(name, word);
    text::lemma_cut(word, ' ', rest);
    text::lemma_uncut(word, ' ');
    let none = Seq::<char>::empty();
    text::lemma_uncut(none, '|');
    assert(decoder::value_of::<Properties>(Some(none)) == Ok::<Row, ParseErrorView>(Seq::empty()));
}

/// A notification other than a client update carries the first row behind its
/// name, whatever that holds, and is not read where that row is not. Without a row
/// it carries no property.
pub proof fn law_notifications_carry_the_row_behind_their_name(rest: Seq<char>)
    ensures
        event_of("notifytextmessage"@ + seq![' '] + rest) == carried(
            rest,
            |row: Row| EventView::TextMessage(row),
        ),
        event_of("notifytextmessage"@) == Ok::<EventView, ParseErrorView>(EventView::TextMessage(Seq::empty())),
        event_of("notifyclientmoved"@ + seq![' '] + rest) == carried(
            rest,
            |row: Row| EventView::ClientMoved(row),
        ),
        event_of("notifyclientmoved"@) == Ok::<EventView, ParseErrorView>(EventView::ClientMoved(Seq::empty())),
        event_of("notifycliententerview"@ + seq![' '] + rest) == carried(
            rest,
            |row: Row| EventView::ClientEnterView(row),
        ),
        event_of("notifycliententerview"@) == Ok::<EventView, ParseErrorView>(EventView::ClientEnterView(Seq::empty())),
        event_of("notifyclientleftview"@ + seq![' '] + rest) == carried(
            rest,
            |row: Row| EventView::ClientLeftView(row),
        ),
        event_of("notifyclientleftview"@) == Ok::<EventView, ParseErrorView>(EventView::ClientLeftView(Seq::empty())),
        event_of("notifychannelcreated"@ + seq![' '] + rest) == carried(
            rest,
            |row: Row| EventView::ChannelCreated(row),
        ),
        event_of("notifychannelcreated"@) == Ok::<EventView, ParseErrorView>(EventView::ChannelCreated(Seq::empty())),
        event_of("notifychanneldeleted"@ + seq![' '] + rest) == carried(
            rest,
            |row: Row| EventView::ChannelDeleted(row),
        ),
        event_of("notifychanneldeleted"@) == Ok::<EventView, ParseErrorView>(EventView::ChannelDeleted(Seq::empty())),
        event_of("notifychanneledited"@ + seq![' '] + rest) == carried(
            rest,
            |row: Row| EventView::ChannelEdited(row),
        ),
        event_of("notifychanneledited"@) == Ok::<EventView, ParseErrorView>(EventView::ChannelEdited(Seq::empty())),
        event_of("notifychannelmoved"@ + seq![' '] + rest) == carried(
            rest,
            |row: Row| EventView::ChannelMoved(row),
        ),
        event_of("notifychannelmoved"@) == Ok::<EventView, ParseErrorView>(EventView::ChannelMoved(Seq::empty())),
        event_of("notifychanneldescriptionchanged"@ + seq![' '] + rest) == carried(
            rest,
            |row: Row| EventView::ChannelDescriptionChanged(row),
        ),
        event_of("notifychanneldescriptionchanged"@) == Ok::<EventView, ParseErrorView>(EventView::ChannelDescriptionChanged(Seq::empty())),
        event_of("notifychannelpasswordchanged"@ + seq![' '] + rest) == carried(
            rest,
            |row: Row| EventView::ChannelPasswordChanged(row),
        ),
        event_of("notifychannelpasswordchanged"@) == Ok::<EventView, ParseErrorView>(EventView::ChannelPasswordChanged(Seq::empty())),
        event_of("notifyserveredited"@ + seq![' '] + rest) == carried(
            rest,
            |row: Row| EventView::ServerEdited(row),
        ),
        event_of("notifyserveredited"@) == Ok::<EventView, ParseErrorView>(EventView::ServerEdited(Seq::empty())),
        event_of("notifytokenused"@ + seq![' '] + rest) == carried(
            rest,
            |row: Row| EventView::TokenUsed(row),
        ),
        event_of("notifytokenused"@) == Ok::<EventView, ParseErrorView>(EventView::TokenUsed(Seq::empty())),
{
    lemma_carried(EventName::TextMessage, rest);
    lemma_carried(EventName::ClientMoved, rest);
    lemma_carried(EventName::ClientEnterView, rest);
    lemma_carried(EventName::ClientLeftView, rest);
    lemma_carried(EventName::ChannelCreated, rest);
    lemma_carried(EventName::ChannelDeleted, rest);
    lemma_carried(EventName::ChannelEdited, rest);
    lemma_carried(EventName::ChannelMoved, rest);
    lemma_carried(EventName::ChannelDescriptionChanged, rest);
    lemma_carried(EventName::ChannelPasswordChanged, rest);
    lemma_carried(EventName::ServerEdited, rest);
    lemma_carried(EventName::TokenUsed, rest);
}

/// A client update is read from the first row behind its name.
pub proof fn law_client_updates_are_read_behind_their_name(rest: Seq<char>)
    ensures
        match decoder::value_of::<ClientUpdatedEvent>(Some(rest)) {
            Ok(e) => event_of("notifyclientupdated"@ + seq![' '] + rest) == Ok::<
                EventView,
                ParseErrorView,
            >(EventView::ClientUpdated(e)),
            Err(e) => event_of("notifyclientupdated"@ + seq![' '] + rest) == Err::<
                EventView,
                ParseErrorView,
            >(e),
        },
{
    lemma_carried(EventName::ClientUpdated, rest);
}

/// A line whose first word is the name of no notification is reported, with that
/// word and as it is, whatever stands behind the word.
pub proof fn law_other_lines_are_reported(word: Seq<char>, rest: Seq<char>)
    requires
        !word.contains(' '),
        word != "notifytextmessage"@,
        word != "notifyclientmoved"@,
        word != "notifycliententerview"@,
        word != "notifyclientleftview"@,
        word != "notifychannelcreated"@,
        word != "notifychanneldeleted"@,
        word != "notifychanneledited"@,
        word != "notifychannelmoved"@,
        word != "notifychanneldescriptionchanged"@,
        word != "notifychannelpasswordchanged"@,
        word != "notifyserveredited"@,
        word != "notifytokenused"@,
        word != "notifyclientupdated"@,
    ensures
        event_of(word + seq![' '] + rest) == Err::<EventView, ParseErrorView>(
            ParseErrorView::UnknownEvent { response: word + seq![' '] + rest, event: word },
        ),
        event_of(word) == Err::<EventView, ParseErrorView>(
            ParseErrorView::UnknownEvent { response: word, event: word },
        ),
{
    text::lemma_cut(word, ' ', rest);
    text::lemma_uncut(word, ' ');
}

/// An event shows which one it is, and all that it carries.
pub proof fn law_events_show_what_they_carry(event: Event)
    ensures
        match event {
            Event::TextMessage(e) => event@ == EventView::TextMessage(e@),
            Event::ClientMoved(e) => event@ == EventView::ClientMoved(e@),
            Event::ClientEnterView(e) => event@ == EventView::ClientEnterView(e@),
            Event::ClientLeftView(e) => event@ == EventView::ClientLeftView(e@),
            Event::ChannelCreated(e) => event@ == EventView::ChannelCreated(e@),
            Event::ChannelDeleted(e) => event@ == EventView::ChannelDeleted(e@),
            Event::ChannelEdited(e) => event@ == EventView::ChannelEdited(e@),
            Event::ChannelMoved(e) => event@ == EventView::ChannelMoved(e@),
            Event::ChannelDescriptionChanged(e) => event@ == EventView::ChannelDescriptionChanged(e@),
            Event::ChannelPasswordChanged(e) => event@ == EventView::ChannelPasswordChanged(e@),
            Event::ServerEdited(e) => event@ == EventView::ServerEdited(e@),
            Event::TokenUsed(e) => event@ == EventView::TokenUsed(e@),
            Event::ClientUpdated(e) => event@ == EventView::ClientUpdated(e@),
        },
{
}

} // verus!
