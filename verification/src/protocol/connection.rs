//! The lines that the server sends.
//!
//! A notification is one line. A response is any number of lines of content and
//! the status line that ends it. Notifications may come between the lines of a
//! response.

use vstd::prelude::*;

use crate::event;
use crate::event::EventName;
use crate::parser::command;
use crate::parser::properties::Row;
use crate::protocol::types::{RawCommandResponse, RawCommandResponseView};

verus! {

/// The number of lines that the server greets a client with.
pub const WELCOME_LINES: usize = 2;

pub open spec fn is_line_end(byte: u8) -> bool {
    byte == 10 || byte == 13
}

/// `line` without the line ends that it starts with.
pub open spec fn without_leading(line: Seq<u8>) -> Seq<u8>
    decreases line.len(),
{
    if line.len() > 0 && is_line_end(line[0]) {
        without_leading(line.skip(1))
    } else {
        line
    }
}

/// `line` without the line ends that it stops with.
pub open spec fn without_trailing(line: Seq<u8>) -> Seq<u8>
    decreases line.len(),
{
    if line.len() > 0 && is_line_end(line.last()) {
        without_trailing(line.drop_last())
    } else {
        line
    }
}

/// `line` without the line ends around it.
pub open spec fn trimmed(line: Seq<u8>) -> Seq<u8> {
    without_trailing(without_leading(line))
}

/// Whether `line` is the line of a notification.
pub open spec fn is_notification(line: Seq<u8>) -> bool {
    vstd::utf8::encode_utf8("notify"@).is_prefix_of(line)
}

/// Whether `line` is a status line.
pub open spec fn is_status(line: Seq<u8>) -> bool {
    vstd::utf8::encode_utf8("error "@).is_prefix_of(line)
}

/// `content` with one more line.
pub open spec fn joined(content: Seq<u8>, line: Seq<u8>) -> Seq<u8> {
    if line.len() == 0 {
        content
    } else if content.len() == 0 {
        line
    } else {
        content.push(10) + line
    }
}

/// What a line is.
#[derive(Debug)]
pub enum LineAction {
    /// A notification.
    Notify(Vec<u8>),
    /// The last line of this response.
    Respond(RawCommandResponse),
    /// A line of content.
    Collect,
}

/// A [`LineAction`] as contracts speak of it.
pub enum LineActionView {
    Notify(Seq<u8>),
    Respond(RawCommandResponseView),
    Collect,
}

impl View for LineAction {
    type V = LineActionView;

    open spec fn view(&self) -> LineActionView {
        match self {
            LineAction::Notify(line) => LineActionView::Notify(line@),
            LineAction::Respond(response) => LineActionView::Respond(response@),
            LineAction::Collect => LineActionView::Collect,
        }
    }
}

/// What `line` is, with `content` in front of it, and what content is then
/// waiting for its status line.
pub open spec fn line_step(content: Seq<u8>, line: Seq<u8>) -> (Seq<u8>, LineActionView) {
    let line = trimmed(line);
    if is_notification(line) {
        (content, LineActionView::Notify(line))
    } else if is_status(line) {
        (
            Seq::empty(),
            LineActionView::Respond(RawCommandResponseView { content, status: line }),
        )
    } else {
        (joined(content, line), LineActionView::Collect)
    }
}

fn starts_with(line: &[u8], word: &[u8]) -> (b: bool)
    ensures
        b == word@.is_prefix_of(line@),
{
    if word.len() > line.len() {
        return false;
    }
    let mut i: usize = 0;
    while i < word.len()
        invariant
            i <= word@.len() <= line@.len(),
            forall|j: int| 0 <= j < i ==> word@[j] == line@[j],
        decreases word@.len() - i,
    {
        if word[i] != line[i] {
            assert(line@.subrange(0, word@.len() as int)[i as int] != word@[i as int]);
            return false;
        }
        i += 1;
    }
    assert(line@.subrange(0, word@.len() as int) == word@);
    true
}

fn bytes_of(line: &[u8], from: usize, to: usize) -> (bytes: Vec<u8>)
    requires
        from <= to <= line@.len(),
    ensures
        bytes@ == line@.subrange(from as int, to as int),
{
    let mut bytes: Vec<u8> = Vec::new();
    let mut i: usize = from;
    while i < to
        invariant
            from <= i <= to <= line@.len(),
            bytes@ == line@.subrange(from as int, i as int),
        decreases to - i,
    {
        bytes.push(line[i]);
        i += 1;
    }
    bytes
}

/// Takes the line ends around a line away.
fn trim(line: &[u8]) -> (bytes: Vec<u8>)
    ensures
        bytes@ == trimmed(line@),
{
    let mut from: usize = 0;
    assert(line@.skip(0) == line@);
    while from < line.len() && (line[from] == 10 || line[from] == 13)
        invariant
            from <= line@.len(),
            without_leading(line@) == without_leading(line@.skip(from as int)),
        decreases line@.len() - from,
    {
        assert(line@.skip(from as int).skip(1) == line@.skip(from + 1));
        from += 1;
    }
    let ghost rest = line@.skip(from as int);
    assert(without_leading(line@) == rest);
    let mut to: usize = line.len();
    assert(rest == line@.subrange(from as int, to as int));
    while to > from && (line[to - 1] == 10 || line[to - 1] == 13)
        invariant
            from <= to <= line@.len(),
            without_trailing(rest) == without_trailing(line@.subrange(from as int, to as int)),
        decreases to,
    {
        assert(line@.subrange(from as int, to as int).drop_last() == line@.subrange(
            from as int,
            to - 1,
        ));
        to -= 1;
    }
    bytes_of(line, from, to)
}

/// Puts the lines that the server sends together to responses.
pub struct LineReader {
    content: Vec<u8>,
}

impl View for LineReader {
    type V = Seq<u8>;

    closed spec fn view(&self) -> Seq<u8> {
        self.content@
    }
}

impl LineReader {
    pub fn new() -> (reader: LineReader)
        ensures
            reader@ == Seq::<u8>::empty(),
    {
        LineReader { content: Vec::new() }
    }

    /// Takes the next line.
    pub fn on_line(&mut self, line: &[u8]) -> (action: LineAction)
        ensures
            (final(self)@, action@) == line_step(old(self)@, line@),
            match action {
                LineAction::Notify(notification) => line_step(old(self)@, line@) == (
                    old(self)@,
                    LineActionView::Notify(notification@),
                ),
                LineAction::Respond(response) => response@.content == old(self)@
                    && response@.status == trimmed(line@) && final(self)@.len() == 0,
                LineAction::Collect => line_step(old(self)@, line@).1 is Collect,
            },
    {
        let mut line: Vec<u8> = trim(line);
        if starts_with(line.as_slice(), "notify".as_bytes()) {
            LineAction::Notify(line)
        } else if starts_with(line.as_slice(), "error ".as_bytes()) {
            let mut content: Vec<u8> = Vec::new();
            std::mem::swap(&mut content, &mut self.content);
            LineAction::Respond(RawCommandResponse::new(content, line))
        } else {
            if line.len() > 0 {
                if self.content.len() > 0 {
                    self.content.push(10);
                }
                self.content.append(&mut line);
            }
            LineAction::Collect
        }
    }
}

/// Whether `bytes` are line ends and nothing else.
pub open spec fn all_line_ends(bytes: Seq<u8>) -> bool {
    forall|i: int| 0 <= i < bytes.len() ==> #[trigger] bytes[i] == 10 || bytes[i] == 13
}

/// The encoding of a text is made of the encodings of its parts.
proof fn lemma_encode_concat(a: Seq<char>, b: Seq<char>)
    ensures
        vstd::utf8::encode_utf8(a + b) == vstd::utf8::encode_utf8(a) + vstd::utf8::encode_utf8(b),
    decreases a.len(),
{
    if a.len() == 0 {
        assert(a + b == b);
    } else {
        lemma_encode_concat(a.drop_first(), b);
        assert((a + b).drop_first() == a.drop_first() + b);
        assert((a + b)[0] == a[0]);
    }
}

/// The encoding of a character that ends no line holds no line end.
proof fn lemma_char_without_line_ends(char: char, i: int)
    requires
        char != '\n',
        char != '\r',
        0 <= i < vstd::utf8::encode_scalar(char as u32).len(),
    ensures
        !is_line_end(vstd::utf8::encode_scalar(char as u32)[i]),
{
    let c = char as u32;
    assert(c != 10 && c != 13);
    assert(c <= 0x7f && c != 10 && c != 13 ==> (c & 0x7f) as u8 != 10 && (c & 0x7f) as u8 != 13)
        by (bit_vector);
    let b = (c & 0x3f) as u8;
    assert(0x80 | b >= 0x80) by (bit_vector);
    let b = ((c >> 6) & 0x3f) as u8;
    assert(0x80 | b >= 0x80) by (bit_vector);
    let b = ((c >> 12) & 0x3f) as u8;
    assert(0x80 | b >= 0x80) by (bit_vector);
    let b = ((c >> 6) & 0x1f) as u8;
    assert(0xc0 | b >= 0x80) by (bit_vector);
    let b = ((c >> 12) & 0x0f) as u8;
    assert(0xe0 | b >= 0x80) by (bit_vector);
    let b = ((c >> 18) & 0x7) as u8;
    assert(0xf0 | b >= 0x80) by (bit_vector);
}

/// The encoding of a text without line ends holds none.
proof fn lemma_encoded_without_line_ends(s: Seq<char>, i: int)
    requires
        !s.contains('\n'),
        !s.contains('\r'),
        0 <= i < vstd::utf8::encode_utf8(s).len(),
    ensures
        !is_line_end(vstd::utf8::encode_utf8(s)[i]),
    decreases s.len(),
{
    let first = vstd::utf8::encode_scalar(s[0] as u32);
    let rest = s.drop_first();
    assert(s.contains(s[0]));
    if i < first.len() {
        lemma_char_without_line_ends(s[0], i);
    } else {
        assert forall|c: char| rest.contains(c) implies s.contains(c) by {
            let j = choose|j: int| 0 <= j < rest.len() && rest[j] == c;
            assert(s[j + 1] == c);
        }
        lemma_encoded_without_line_ends(rest, i - first.len());
    }
}

proof fn lemma_without_leading(lead: Seq<u8>, rest: Seq<u8>)
    requires
        all_line_ends(lead),
    ensures
        without_leading(lead + rest) == without_leading(rest),
    decreases lead.len(),
{
    if lead.len() == 0 {
        assert(lead + rest == rest);
    } else {
        assert((lead + rest).skip(1) == lead.skip(1) + rest);
        lemma_without_leading(lead.skip(1), rest);
    }
}

proof fn lemma_without_trailing(front: Seq<u8>, trail: Seq<u8>)
    requires
        all_line_ends(trail),
    ensures
        without_trailing(front + trail) == without_trailing(front),
    decreases trail.len(),
{
    if trail.len() == 0 {
        assert(front + trail == front);
    } else {
        assert((front + trail).drop_last() == front + trail.drop_last());
        lemma_without_trailing(front, trail.drop_last());
    }
}

/// A text without line ends is what is left of its line, whatever line ends the
/// line starts and stops with.
pub proof fn law_line_ends_are_taken_away(lead: Seq<u8>, s: Seq<char>, trail: Seq<u8>)
    requires
        all_line_ends(lead),
        all_line_ends(trail),
        !s.contains('\n'),
        !s.contains('\r'),
    ensures
        trimmed(lead + vstd::utf8::encode_utf8(s) + trail) == vstd::utf8::encode_utf8(s),
{
    let bytes = vstd::utf8::encode_utf8(s);
    assert(lead + bytes + trail == lead + (bytes + trail));
    lemma_without_leading(lead, bytes + trail);
    if bytes.len() == 0 {
        assert(bytes + trail == trail + Seq::<u8>::empty());
        lemma_without_leading(trail, Seq::empty());
        assert(bytes == Seq::<u8>::empty());
    } else {
        lemma_encoded_without_line_ends(s, 0);
        lemma_encoded_without_line_ends(s, bytes.len() - 1);
        lemma_without_trailing(bytes, trail);
    }
}

/// A written notification is read as one, in the middle of a response or not, and
/// leaves the response as it is.
pub proof fn law_notifications_are_recognised(
    content: Seq<u8>,
    lead: Seq<u8>,
    name: EventName,
    row: Row,
    trail: Seq<u8>,
)
    requires
        all_line_ends(lead),
        all_line_ends(trail),
        forall|i: int|
            0 <= i < row.len() ==> !(#[trigger] row[i].0).contains('\n') && !row[i].0.contains('\r'),
    ensures
        ({
            let line = vstd::utf8::encode_utf8(command::line_text(event::name_text(name), row));
            line_step(content, lead + line + trail) == (content, LineActionView::Notify(line))
        }),
{
    let word = event::name_text(name);
    let s = command::line_text(word, row);
    event::lemma_name_text(name);
    command::law_values_do_not_end_a_line(word, row, '\n');
    command::law_values_do_not_end_a_line(word, row, '\r');
    law_line_ends_are_taken_away(lead, s, trail);
    let rest = s.skip(6);
    assert(s == "notify"@ + rest) by {
        assert(word.take(6) == "notify"@);
        assert(s.take(6) == word.take(6));
        assert(s == s.take(6) + rest);
    }
    lemma_encode_concat("notify"@, rest);
}

/// A written status line is read as one, and ends the response with the content
/// in front of it.
pub proof fn law_status_ends_a_response(
    content: Seq<u8>,
    lead: Seq<u8>,
    row: Row,
    trail: Seq<u8>,
)
    requires
        all_line_ends(lead),
        all_line_ends(trail),
        row.len() > 0,
        forall|i: int|
            0 <= i < row.len() ==> !(#[trigger] row[i].0).contains('\n') && !row[i].0.contains('\r'),
    ensures
        ({
            let status = vstd::utf8::encode_utf8(command::line_text("error"@, row));
            line_step(content, lead + status + trail) == (
                Seq::<u8>::empty(),
                LineActionView::Respond(RawCommandResponseView { content, status }),
            )
        }),
{
    let s = command::line_text("error"@, row);
    let bytes = vstd::utf8::encode_utf8(s);
    reveal_strlit("error");
    reveal_strlit("error ");
    reveal_strlit("notify");
    command::law_values_do_not_end_a_line("error"@, row, '\n');
    command::law_values_do_not_end_a_line("error"@, row, '\r');
    law_line_ends_are_taken_away(lead, s, trail);
    assert("error "@ == "error"@ + seq![' ']);
    assert(s == "error "@ + command::row_text(row));
    lemma_encode_concat("error "@, command::row_text(row));
    assert(vstd::utf8::is_ascii_chars("error "@));
    assert(vstd::utf8::is_ascii_chars("notify"@));
    vstd::utf8::is_ascii_chars_encode_utf8("error "@);
    vstd::utf8::is_ascii_chars_encode_utf8("notify"@);
    assert("error "@[0] == 'e');
    assert("notify"@[0] == 'n');
    assert(!is_notification(bytes)) by {
        let word = vstd::utf8::encode_utf8("notify"@);
        if word.is_prefix_of(bytes) {
            assert(bytes.subrange(0, word.len() as int)[0] == word[0]);
        }
    }
}

/// The bytes of `notify`.
pub open spec fn notify_bytes() -> Seq<u8> {
    seq![110, 111, 116, 105, 102, 121]
}

/// The bytes of `error` and a blank.
pub open spec fn error_bytes() -> Seq<u8> {
    seq![101, 114, 114, 111, 114, 32]
}

proof fn lemma_words()
    ensures
        vstd::utf8::encode_utf8("notify"@) == notify_bytes(),
        vstd::utf8::encode_utf8("error "@) == error_bytes(),
{
    reveal_strlit("notify");
    reveal_strlit("error ");
    let n = "notify"@;
    let e = "error "@;
    assert(n.len() == 6 && e.len() == 6);
    assert(n[0] == 'n' && n[1] == 'o' && n[2] == 't' && n[3] == 'i' && n[4] == 'f' && n[5] == 'y');
    assert(e[0] == 'e' && e[1] == 'r' && e[2] == 'r' && e[3] == 'o' && e[4] == 'r' && e[5] == ' ');
    assert(vstd::utf8::is_ascii_chars(n));
    assert(vstd::utf8::is_ascii_chars(e));
    vstd::utf8::is_ascii_chars_encode_utf8(n);
    vstd::utf8::is_ascii_chars_encode_utf8(e);
    assert(vstd::utf8::encode_utf8(n) == notify_bytes());
    assert(vstd::utf8::encode_utf8(e) == error_bytes());
}

/// Every line is one of three: a notification, which starts with `notify` and
/// leaves the response alone; a status line, which starts with `error` and a blank
/// and ends the response; or content, which is added to the response as a line of
/// its own. The line ends around a line belong to none of them, and an empty line
/// adds nothing.
pub proof fn law_lines_are_told_apart(
    content: Seq<u8>,
    lead: Seq<u8>,
    line: Seq<u8>,
    trail: Seq<u8>,
)
    requires
        all_line_ends(lead),
        all_line_ends(trail),
        line.len() > 0 ==> line[0] != 10 && line[0] != 13 && line.last() != 10 && line.last() != 13,
    ensures
        ({
            let (after, action) = line_step(content, lead + line + trail);
            if line.len() >= 6 && line.take(6) == notify_bytes() {
                after == content && action == LineActionView::Notify(line)
            } else if line.len() >= 6 && line.take(6) == error_bytes() {
                after.len() == 0 && (action matches LineActionView::Respond(response)
                    && response.content == content && response.status == line)
            } else {
                &&& action is Collect
                &&& line.len() == 0 ==> after == content
                &&& line.len() > 0 && content.len() == 0 ==> after == line
                &&& line.len() > 0 && content.len() > 0 ==> after == content + seq![10u8] + line
            }
        }),
{
    assert(lead + line + trail == lead + (line + trail));
    lemma_without_leading(lead, line + trail);
    if line.len() == 0 {
        assert(line + trail == trail + Seq::<u8>::empty());
        lemma_without_leading(trail, Seq::empty());
        assert(line == Seq::<u8>::empty());
    } else {
        lemma_without_trailing(line, trail);
    }
    assert(trimmed(lead + line + trail) == line);
    lemma_words();
    assert(line.len() >= 6 ==> line.take(6) == line.subrange(0, 6));
    assert(is_notification(line) <==> line.len() >= 6 && line.take(6) == notify_bytes());
    assert(is_status(line) <==> line.len() >= 6 && line.take(6) == error_bytes());
    assert(content.push(10) + line == content + seq![10u8] + line);
}

/// A response comes out as it was sent, a line of content and the status line,
/// also with a notification between them.
pub proof fn law_responses_come_out_whole(
    content: Seq<u8>,
    notification: Seq<u8>,
    status: Seq<u8>,
    trail: Seq<u8>,
)
    requires
        all_line_ends(trail),
        content.len() > 0,
        content[0] != 10 && content[0] != 13 && content.last() != 10 && content.last() != 13,
        content.len() >= 6 ==> content.take(6) != notify_bytes() && content.take(6)
            != error_bytes(),
        notification.len() >= 6,
        notification.take(6) == notify_bytes(),
        notification.last() != 10 && notification.last() != 13,
        status.len() >= 6,
        status.take(6) == error_bytes(),
        status.last() != 10 && status.last() != 13,
    ensures
        ({
            let first = line_step(Seq::empty(), content + trail).0;
            let second = line_step(first, notification + trail).0;
            let (third, action) = line_step(second, status + trail);
            third.len() == 0 && (action matches LineActionView::Respond(response)
                && response.content == content && response.status == status)
        }),
{
    let none = Seq::<u8>::empty();
    assert(notification[0] == notification.take(6)[0]);
    assert(status[0] == status.take(6)[0]);
    assert(notify_bytes()[0] == 110 && error_bytes()[0] == 101);
    law_lines_are_told_apart(none, none, content, trail);
    law_lines_are_told_apart(content, none, notification, trail);
    law_lines_are_told_apart(content, none, status, trail);
    assert(none + content == content);
    assert(none + notification == notification);
    assert(none + status == status);
}

} // verus!
