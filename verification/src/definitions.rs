//! What responses and notifications hold.

use vstd::prelude::*;

use crate::error::{ParseError, ParseErrorView};
use crate::parser::decoder::Decode;
use crate::parser::number;
use crate::parser::properties;
use crate::parser::properties::{Properties, Row};

verus! {

/// The line that ends every response: an error number, zero for success, and a
/// message.
#[derive(Debug)]
pub struct Status {
    pub id: i32,
    pub message: String,
}

/// A [`Status`] as contracts speak of it.
pub struct StatusView {
    pub id: i32,
    pub message: Seq<char>,
}

impl View for Status {
    type V = StatusView;

    open spec fn view(&self) -> StatusView {
        StatusView { id: self.id, message: self.message@ }
    }
}

impl Decode for Status {
    open spec fn of_row(row: Row) -> Result<StatusView, ParseErrorView> {
        match properties::i32_at(row, "id"@) {
            Err(e) => Err(e),
            Ok(id) => match properties::text_at(row, "msg"@) {
                Err(e) => Err(e),
                Ok(message) => Ok(StatusView { id, message }),
            },
        }
    }

    fn decode(row: Properties) -> (r: Result<Self, ParseError>)
        ensures
            r matches Ok(status) ==> properties::i32_at(row@, "id"@) == Ok::<i32, ParseErrorView>(
                status.id,
            ) && properties::text_at(row@, "msg"@) == Ok::<Seq<char>, ParseErrorView>(
                status.message@,
            ),
    {
        let id: i32 = match row.number("id") {
            Ok(id) => id,
            Err(e) => {
                return Err(e);
            },
        };
        match row.text("msg") {
            Ok(message) => Ok(Status { id, message }),
            Err(e) => Err(e),
        }
    }
}

/// Some properties of a client changed. Only those that changed are there.
#[derive(Debug)]
pub struct ClientUpdatedEvent {
    pub client_id: i32,
    pub input_muted: Option<bool>,
    pub output_muted: Option<bool>,
    pub away: Option<bool>,
    pub away_message: Option<String>,
}

/// A [`ClientUpdatedEvent`] as contracts speak of it.
pub struct ClientUpdatedView {
    pub client_id: i32,
    pub input_muted: Option<bool>,
    pub output_muted: Option<bool>,
    pub away: Option<bool>,
    pub away_message: Option<Seq<char>>,
}

impl View for ClientUpdatedEvent {
    type V = ClientUpdatedView;

    open spec fn view(&self) -> ClientUpdatedView {
        ClientUpdatedView {
            client_id: self.client_id,
            input_muted: self.input_muted,
            output_muted: self.output_muted,
            away: self.away,
            away_message: match self.away_message {
                Some(message) => Some(message@),
                None => None,
            },
        }
    }
}

impl Decode for ClientUpdatedEvent {
    open spec fn of_row(row: Row) -> Result<ClientUpdatedView, ParseErrorView> {
        match properties::i32_at(row, "clid"@) {
            Err(e) => Err(e),
            Ok(client_id) => match properties::flag_at(row, "client_input_muted"@) {
                Err(e) => Err(e),
                Ok(input_muted) => match properties::flag_at(row, "client_output_muted"@) {
                    Err(e) => Err(e),
                    Ok(output_muted) => match properties::flag_at(row, "client_away"@) {
                        Err(e) => Err(e),
                        Ok(away) => Ok(
                            ClientUpdatedView {
                                client_id,
                                input_muted,
                                output_muted,
                                away,
                                away_message: properties::lookup(row, "client_away_message"@),
                            },
                        ),
                    },
                },
            },
        }
    }

    fn decode(row: Properties) -> (r: Result<Self, ParseError>)
        ensures
            r matches Ok(e) ==> {
                &&& properties::i32_at(row@, "clid"@) == Ok::<i32, ParseErrorView>(e.client_id)
                &&& properties::flag_at(row@, "client_input_muted"@) == Ok::<
                    Option<bool>,
                    ParseErrorView,
                >(e.input_muted)
                &&& properties::flag_at(row@, "client_output_muted"@) == Ok::<
                    Option<bool>,
                    ParseErrorView,
                >(e.output_muted)
                &&& properties::flag_at(row@, "client_away"@) == Ok::<Option<bool>, ParseErrorView>(
                    e.away,
                )
                &&& match e.away_message {
                    Some(message) => properties::lookup(row@, "client_away_message"@) == Some(
                        message@,
                    ),
                    None => properties::lookup(row@, "client_away_message"@) is None,
                }
            },
    {
        let client_id: i32 = match row.number("clid") {
            Ok(client_id) => client_id,
            Err(e) => {
                return Err(e);
            },
        };
        let input_muted: Option<bool> = match row.flag("client_input_muted") {
            Ok(flag) => flag,
            Err(e) => {
                return Err(e);
            },
        };
        let output_muted: Option<bool> = match row.flag("client_output_muted") {
            Ok(flag) => flag,
            Err(e) => {
                return Err(e);
            },
        };
        let away: Option<bool> = match row.flag("client_away") {
            Ok(flag) => flag,
            Err(e) => {
                return Err(e);
            },
        };
        let away_message: Option<String> = match row.get("client_away_message") {
            Some(message) => Some(message.clone()),
            None => None,
        };
        Ok(ClientUpdatedEvent { client_id, input_muted, output_muted, away, away_message })
    }
}

/// The server sends only the properties that changed, and the client. A property
/// that it did not send is absent from the event, one that it sent is there, and
/// only the client must be sent.
pub proof fn law_only_the_client_is_required(row: Row)
    ensures
        match ClientUpdatedEvent::of_row(row) {
            Ok(e) => {
                &&& properties::i32_at(row, "clid"@) == Ok::<i32, ParseErrorView>(e.client_id)
                &&& e.input_muted is None <==> properties::lookup(
                    row,
                    "client_input_muted"@,
                ) is None
                &&& e.output_muted is None <==> properties::lookup(
                    row,
                    "client_output_muted"@,
                ) is None
                &&& e.away is None <==> properties::lookup(row, "client_away"@) is None
                &&& e.away_message == properties::lookup(row, "client_away_message"@)
            },
            Err(ParseErrorView::MissingProperty { key }) => key == "clid"@ && properties::lookup(
                row,
                key,
            ) is None,
            Err(_) => true,
        },
        properties::lookup(row, "client_input_muted"@) is None && properties::lookup(
            row,
            "client_output_muted"@,
        ) is None && properties::lookup(row, "client_away"@) is None ==> (
        ClientUpdatedEvent::of_row(row) is Ok <==> properties::i32_at(row, "clid"@) is Ok),
{
}

/// A text message was received. The payload is the properties that the server
/// sent with the notification, as in each of the types below.
pub type TextMessageEvent = Properties;

/// A client moved to another channel.
pub type ClientMoveEvent = Properties;

/// A client came into view.
pub type ClientEnterViewEvent = Properties;

/// A client left the view.
pub type ClientLeftViewEvent = Properties;

/// A channel was created.
pub type ChannelCreateEvent = Properties;

/// A channel was deleted.
pub type ChannelDeleteEvent = Properties;

/// A channel was edited.
pub type ChannelEditEvent = Properties;

/// A channel was moved.
pub type ChannelMoveEvent = Properties;

/// The description of a channel changed.
pub type ChannelDescriptionChangeEvent = Properties;

/// The password of a channel changed.
pub type ChannelPasswordChangeEvent = Properties;

/// The virtual server was edited.
pub type ServerEditEvent = Properties;

/// A privilege key was used.
pub type TokenUseEvent = Properties;

/// A status is the number under `id` and the text under `msg`, whatever else the
/// row holds. There is none where the number is missing or is no number, or the
/// text is missing, and the error says which.
pub proof fn law_status_is_number_and_message(row: Row)
    ensures
        match (properties::lookup(row, "id"@), properties::lookup(row, "msg"@)) {
            (None, _) => Status::of_row(row) == Err::<StatusView, ParseErrorView>(
                ParseErrorView::MissingProperty { key: "id"@ },
            ),
            (Some(digits), message) => match number::i32_of(digits) {
                None => Status::of_row(row) == Err::<StatusView, ParseErrorView>(
                    ParseErrorView::InvalidNumber { key: "id"@, value: digits },
                ),
                Some(id) => match message {
                    None => Status::of_row(row) == Err::<StatusView, ParseErrorView>(
                        ParseErrorView::MissingProperty { key: "msg"@ },
                    ),
                    Some(message) => Status::of_row(row) matches Ok(status) && status.id == id
                        && status.message == message,
                },
            },
        },
{
}

/// Whether `flag` is what a row says under `key`: absent where there is no such
/// property, set for `1` and clear for `0`.
pub open spec fn says(row: Row, key: Seq<char>, flag: Option<bool>) -> bool {
    match properties::lookup(row, key) {
        None => flag is None,
        Some(value) => flag is Some && value == if flag->0 {
            seq!['1']
        } else {
            seq!['0']
        },
    }
}

/// Whether a row says something under `key` that is neither set nor clear.
pub open spec fn says_neither(row: Row, key: Seq<char>, value: Seq<char>) -> bool {
    properties::lookup(row, key) == Some(value) && value != seq!['0'] && value != seq!['1']
}

/// What changed of a client is what the row says under the keys of its properties,
/// whatever else the row holds. It is not read exactly where the client is missing
/// or is no number, or a flag is neither set nor clear, and the error says which.
pub proof fn law_client_update_is_what_the_row_says(row: Row)
    ensures
        match ClientUpdatedEvent::of_row(row) {
            Ok(e) => {
                &&& properties::lookup(row, "clid"@) matches Some(digits) && number::i32_of(digits)
                    == Some(e.client_id)
                &&& says(row, "client_input_muted"@, e.input_muted)
                &&& says(row, "client_output_muted"@, e.output_muted)
                &&& says(row, "client_away"@, e.away)
                &&& e.away_message == properties::lookup(row, "client_away_message"@)
            },
            Err(ParseErrorView::MissingProperty { key }) => key == "clid"@ && properties::lookup(
                row,
                "clid"@,
            ) is None,
            Err(ParseErrorView::InvalidNumber { key, value }) => key == "clid"@
                && properties::lookup(row, "clid"@) == Some(value) && number::i32_of(value) is None,
            Err(ParseErrorView::InvalidFlag { key, value }) => {
                &&& properties::lookup(row, "clid"@) matches Some(digits) && number::i32_of(
                    digits,
                ) is Some
                &&& says_neither(row, key, value)
                &&& key == "client_input_muted"@ || key == "client_output_muted"@ || key
                    == "client_away"@
            },
            Err(_) => false,
        },
{
    match properties::lookup(row, "client_input_muted"@) {
        Some(value) => lemma_flag(value),
        None => {},
    }
    match properties::lookup(row, "client_output_muted"@) {
        Some(value) => lemma_flag(value),
        None => {},
    }
    match properties::lookup(row, "client_away"@) {
        Some(value) => lemma_flag(value),
        None => {},
    }
}

proof fn lemma_flag(value: Seq<char>)
    ensures
        number::flag_of(value) == Some(true) <==> value == seq!['1'],
        number::flag_of(value) == Some(false) <==> value == seq!['0'],
{
    number::law_flags_are_one_and_zero(value);
    assert(value.len() == 1 ==> value == seq![value[0]]);
}

/// Statuses and client updates show all their fields.
pub proof fn law_fields_are_shown(status: Status, e: ClientUpdatedEvent)
    ensures
        status@.id == status.id,
        status@.message == status.message@,
        e@.client_id == e.client_id,
        e@.input_muted == e.input_muted,
        e@.output_muted == e.output_muted,
        e@.away == e.away,
        e@.away_message is None <==> e.away_message is None,
        e.away_message matches Some(message) ==> e@.away_message == Some(message@),
{
}

} // verus!
