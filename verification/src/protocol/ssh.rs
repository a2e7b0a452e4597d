//! Byte streams over an SSH session.
//!
//! Both halves only decide. What they are told to do with the session is done by
//! the caller, who hands back what came of it.

use vstd::prelude::*;

use bytes::Buf;
use bytes::{Bytes, BytesMut};

verus! {

/// `Bytes` of the crate `bytes`: a shared, immutable byte string.
#[verifier::external_type_specification]
#[verifier::external_body]
pub struct ExBytes(bytes::Bytes);

/// `BytesMut` of the crate `bytes`: a growing byte string.
#[verifier::external_type_specification]
#[verifier::external_body]
pub struct ExBytesMut(bytes::BytesMut);

/// What a `Bytes` holds.
pub uninterp spec fn held(bytes: Bytes) -> Seq<u8>;

/// What a `BytesMut` holds.
pub uninterp spec fn buffered(buffer: BytesMut) -> Seq<u8>;

/// `Bytes::new`: it holds nothing.
pub assume_specification[ bytes::Bytes::new ]() -> (bytes: Bytes)
    ensures
        held(bytes) == Seq::<u8>::empty(),
;

/// `Bytes::len`: the number of bytes held.
pub assume_specification[ bytes::Bytes::len ](bytes: &Bytes) -> (len: usize)
    ensures
        len == held(*bytes).len(),
;

/// `Bytes::split_to`: takes the first `at` bytes out. It panics if there are
/// fewer.
pub assume_specification[ bytes::Bytes::split_to ](bytes: &mut Bytes, at: usize) -> (front: Bytes)
    requires
        at <= held(*old(bytes)).len(),
    ensures
        held(front) == held(*old(bytes)).take(at as int),
        held(*final(bytes)) == held(*old(bytes)).skip(at as int),
;

/// `Buf::has_remaining` of a `Bytes`: whether it holds any byte.
#[verifier::external_body]
fn has_remaining(bytes: &Bytes) -> (any: bool)
    ensures
        any == (held(*bytes).len() > 0),
{
    bytes.has_remaining()
}

/// `BytesMut::with_capacity`: it holds nothing yet. It panics on a capacity that
/// no allocation can have.
pub assume_specification[ bytes::BytesMut::with_capacity ](capacity: usize) -> (buffer: BytesMut)
    requires
        capacity <= isize::MAX,
    ensures
        buffered(buffer) == Seq::<u8>::empty(),
;

/// `BytesMut::extend_from_slice`: appends. It panics where the result would be
/// longer than any allocation can be. It may ask for more room than the result
/// takes, and ends the program where that much memory is not to be had; how much
/// it asks for is left unsaid.
pub assume_specification[ bytes::BytesMut::extend_from_slice ](buffer: &mut BytesMut, extend: &[u8])
    requires
        buffered(*old(buffer)).len() + extend@.len() <= isize::MAX,
    ensures
        buffered(*final(buffer)) == buffered(*old(buffer)) + extend@,
;

/// `BytesMut::len`: the number of bytes held.
pub assume_specification[ bytes::BytesMut::len ](buffer: &BytesMut) -> (len: usize)
    ensures
        len == buffered(*buffer).len(),
;

/// `BytesMut::is_empty`: whether it holds no byte.
pub assume_specification[ bytes::BytesMut::is_empty ](buffer: &BytesMut) -> (empty: bool)
    ensures
        empty == (buffered(*buffer).len() == 0),
;

/// `BytesMut::split`: takes everything out.
pub assume_specification[ bytes::BytesMut::split ](buffer: &mut BytesMut) -> (taken: BytesMut)
    ensures
        buffered(taken) == buffered(*old(buffer)),
        buffered(*final(buffer)) == Seq::<u8>::empty(),
;

/// `BytesMut::freeze`: the same bytes, no longer to be changed.
pub assume_specification[ bytes::BytesMut::freeze ](buffer: BytesMut) -> (bytes: Bytes)
    ensures
        held(bytes) == buffered(buffer),
;

/// What came of polling the send that is in flight.
#[derive(Debug)]
pub enum SendPoll {
    /// It has not been polled since the flush began.
    NotPolled,
    /// All of it was sent.
    Sent,
    /// It failed.
    Failed(makiko::Error),
    /// It is still under way.
    Pending,
}

/// What a flush is to do next.
#[derive(Debug)]
pub enum FlushAction {
    /// Poll the send that is in flight.
    Poll,
    /// Start to send these bytes, then poll that send.
    Send(Bytes),
    /// The flush is done.
    Done,
    /// The flush failed.
    Fail(makiko::Error),
    /// Wait until the send in flight makes progress.
    Wait,
}

/// A [`FlushAction`] as contracts speak of it.
pub enum FlushActionView {
    Poll,
    Send(Seq<u8>),
    Done,
    Fail(makiko::Error),
    Wait,
}

impl View for FlushAction {
    type V = FlushActionView;

    open spec fn view(&self) -> FlushActionView {
        match self {
            FlushAction::Poll => FlushActionView::Poll,
            FlushAction::Send(data) => FlushActionView::Send(held(*data)),
            FlushAction::Done => FlushActionView::Done,
            FlushAction::Fail(e) => FlushActionView::Fail(*e),
            FlushAction::Wait => FlushActionView::Wait,
        }
    }
}

/// The writing half of the stream: what was written is gathered, and sent when
/// the stream is flushed. At most one send is in flight.
pub struct ChannelWriter {
    buffer: BytesMut,
    in_flight: bool,
}

/// A [`ChannelWriter`] as contracts speak of it: what waits to be sent, and
/// whether a send is in flight.
pub struct ChannelWriterView {
    pub waiting: Seq<u8>,
    pub in_flight: bool,
}

impl View for ChannelWriter {
    type V = ChannelWriterView;

    closed spec fn view(&self) -> ChannelWriterView {
        ChannelWriterView { waiting: buffered(self.buffer), in_flight: self.in_flight }
    }
}

/// The writer, with no send in flight, once it has been told to go on, and what
/// it answers.
pub open spec fn go_on(waiting: Seq<u8>) -> (ChannelWriterView, FlushActionView) {
    if waiting.len() == 0 {
        (ChannelWriterView { waiting, in_flight: false }, FlushActionView::Done)
    } else {
        (
            ChannelWriterView { waiting: Seq::empty(), in_flight: true },
            FlushActionView::Send(waiting),
        )
    }
}

/// One step of a flush: the writer behind it, and what it answers.
pub open spec fn flush_step(writer: ChannelWriterView, poll: SendPoll) -> (
    ChannelWriterView,
    FlushActionView,
) {
    match poll {
        SendPoll::NotPolled => if writer.in_flight {
            (writer, FlushActionView::Poll)
        } else {
            go_on(writer.waiting)
        },
        SendPoll::Sent => go_on(writer.waiting),
        SendPoll::Failed(e) => (
            ChannelWriterView { waiting: writer.waiting, in_flight: false },
            FlushActionView::Fail(e),
        ),
        SendPoll::Pending => (writer, FlushActionView::Wait),
    }
}

impl ChannelWriter {
    /// A writer that was given nothing yet.
    pub fn new() -> (writer: ChannelWriter)
        ensures
            writer@.waiting == Seq::<u8>::empty(),
            !writer@.in_flight,
    {
        ChannelWriter { buffer: BytesMut::with_capacity(8192), in_flight: false }
    }

    /// The number of bytes that wait to be sent.
    pub fn waiting(&self) -> (len: usize)
        ensures
            len == self@.waiting.len(),
    {
        self.buffer.len()
    }

    /// Takes all of `buf`, and returns how much that is.
    pub fn poll_write(&mut self, buf: &[u8]) -> (len: usize)
        requires
            old(self)@.waiting.len() + buf@.len() <= isize::MAX,
        ensures
            len == buf@.len(),
            final(self)@.waiting == old(self)@.waiting + buf@,
            final(self)@.in_flight == old(self)@.in_flight,
    {
        self.buffer.extend_from_slice(buf);
        buf.len()
    }

    /// One step of a flush. A flush begins with [`SendPoll::NotPolled`]; each
    /// further step is told what polling the send in flight gave.
    pub fn poll_flush(&mut self, poll: SendPoll) -> (action: FlushAction)
        requires
            !(poll is NotPolled) ==> old(self)@.in_flight,
        ensures
            (final(self)@, action@) == flush_step(old(self)@, poll),
            action matches FlushAction::Send(data) ==> held(data) == old(self)@.waiting,
            action is Done ==> final(self)@.waiting.len() == 0 && !final(self)@.in_flight,
            action matches FlushAction::Fail(e) ==> poll == SendPoll::Failed(e),
            action is Wait ==> poll is Pending,
            action is Poll ==> poll is NotPolled && old(self)@.in_flight,
    {
        match poll {
            SendPoll::NotPolled => {
                if self.in_flight {
                    return FlushAction::Poll;
                }
            },
            SendPoll::Sent => {
                self.in_flight = false;
            },
            SendPoll::Failed(e) => {
                self.in_flight = false;
                return FlushAction::Fail(e);
            },
            SendPoll::Pending => {
                return FlushAction::Wait;
            },
        }
        if self.buffer.is_empty() {
            return FlushAction::Done;
        }
        let data: Bytes = self.buffer.split().freeze();
        self.in_flight = true;
        FlushAction::Send(data)
    }

    /// One step of a shutdown, which is a flush.
    pub fn poll_shutdown(&mut self, poll: SendPoll) -> (action: FlushAction)
        requires
            !(poll is NotPolled) ==> old(self)@.in_flight,
        ensures
            (final(self)@, action@) == flush_step(old(self)@, poll),
    {
        self.poll_flush(poll)
    }
}

/// Something that is done to a writer.
pub enum WriterOp {
    Write(Seq<u8>),
    Flush(SendPoll),
}

/// The writer once `op` has been done to it.
pub open spec fn after_op(writer: ChannelWriterView, op: WriterOp) -> ChannelWriterView {
    match op {
        WriterOp::Write(data) => ChannelWriterView {
            waiting: writer.waiting + data,
            in_flight: writer.in_flight,
        },
        WriterOp::Flush(poll) => flush_step(writer, poll).0,
    }
}

/// What `op` has the caller send.
pub open spec fn sent_by(writer: ChannelWriterView, op: WriterOp) -> Seq<u8> {
    match op {
        WriterOp::Write(data) => Seq::empty(),
        WriterOp::Flush(poll) => match flush_step(writer, poll).1 {
            FlushActionView::Send(data) => data,
            _ => Seq::empty(),
        },
    }
}

/// The writer once all of `ops` have been done to it.
pub open spec fn after_ops(writer: ChannelWriterView, ops: Seq<WriterOp>) -> ChannelWriterView
    decreases ops.len(),
{
    if ops.len() == 0 {
        writer
    } else {
        after_op(after_ops(writer, ops.drop_last()), ops.last())
    }
}

/// All that `ops` write, in order.
pub open spec fn all_written(ops: Seq<WriterOp>) -> Seq<u8>
    decreases ops.len(),
{
    if ops.len() == 0 {
        Seq::empty()
    } else {
        all_written(ops.drop_last()) + match ops.last() {
            WriterOp::Write(data) => data,
            WriterOp::Flush(poll) => Seq::empty(),
        }
    }
}

/// All that `ops` have the caller send, in order.
pub open spec fn all_sent(writer: ChannelWriterView, ops: Seq<WriterOp>) -> Seq<u8>
    decreases ops.len(),
{
    if ops.len() == 0 {
        Seq::empty()
    } else {
        all_sent(writer, ops.drop_last()) + sent_by(
            after_ops(writer, ops.drop_last()),
            ops.last(),
        )
    }
}

/// However writes and steps of flushes follow on one another, the bytes that are
/// handed out to be sent, and then those that still wait, are the bytes that were
/// written: none is lost, doubled or moved.
pub proof fn law_bytes_are_sent_in_order(writer: ChannelWriterView, ops: Seq<WriterOp>)
    ensures
        all_sent(writer, ops) + after_ops(writer, ops).waiting == writer.waiting + all_written(ops),
    decreases ops.len(),
{
    if ops.len() == 0 {
        assert(Seq::<u8>::empty() + writer.waiting == writer.waiting + Seq::<u8>::empty());
    } else {
        let front = ops.drop_last();
        law_bytes_are_sent_in_order(writer, front);
        let mid = after_ops(writer, front);
        let end = after_op(mid, ops.last());
        let sent = sent_by(mid, ops.last());
        assert(match ops.last() {
            WriterOp::Write(data) => sent + end.waiting == mid.waiting + data,
            WriterOp::Flush(poll) => sent + end.waiting == mid.waiting,
        });
        assert(all_sent(writer, ops) + end.waiting == all_sent(writer, front) + (sent
            + end.waiting));
        match ops.last() {
            WriterOp::Write(data) => {
                assert(all_sent(writer, front) + (mid.waiting + data) == (all_sent(writer, front)
                    + mid.waiting) + data);
                assert(writer.waiting + all_written(ops) == (writer.waiting + all_written(front))
                    + data);
            },
            WriterOp::Flush(poll) => {
                assert(all_written(ops) == all_written(front));
            },
        }
    }
}

/// A flush that is done leaves nothing to be sent and nothing in flight. A send
/// is begun only once the one before it is over, and a flush that has begun one is
/// done when that is sent, if nothing was written meanwhile.
pub proof fn law_flush_is_complete(writer: ChannelWriterView, poll: SendPoll)
    ensures
        flush_step(writer, poll).1 is Done ==> flush_step(writer, poll).0.waiting.len() == 0
            && !flush_step(writer, poll).0.in_flight,
        flush_step(writer, poll).1 is Send ==> !writer.in_flight || poll is Sent,
        flush_step(writer, poll).1 is Send ==> flush_step(
            flush_step(writer, poll).0,
            SendPoll::Sent,
        ).1 is Done,
{
}

/// What polling the session for its next event gave.
#[derive(Debug)]
pub enum SessionPoll {
    /// Data of the standard output.
    Stdout(Bytes),
    /// The end of the data.
    Eof,
    /// The session is closed.
    Closed,
    /// Any other event.
    Other,
    /// The session failed.
    Failed(makiko::Error),
    /// There is no event yet.
    Pending,
}

/// What a read is to do next.
#[derive(Debug)]
pub enum ReadAction {
    /// Give the caller these bytes; the read is done.
    Deliver(Bytes),
    /// Poll the session for its next event.
    Poll,
    /// The read is done, at the end of the stream.
    End,
    /// The read failed.
    Fail(makiko::Error),
    /// Wait until the session has an event.
    Wait,
}

/// A [`ReadAction`] as contracts speak of it.
pub enum ReadActionView {
    Deliver(Seq<u8>),
    Poll,
    End,
    Fail(makiko::Error),
    Wait,
}

impl View for ReadAction {
    type V = ReadActionView;

    open spec fn view(&self) -> ReadActionView {
        match self {
            ReadAction::Deliver(data) => ReadActionView::Deliver(held(*data)),
            ReadAction::Poll => ReadActionView::Poll,
            ReadAction::End => ReadActionView::End,
            ReadAction::Fail(e) => ReadActionView::Fail(*e),
            ReadAction::Wait => ReadActionView::Wait,
        }
    }
}

/// The reading half of the stream: what was received and has not been read yet.
pub struct ChannelReader {
    buffer: Bytes,
}

impl View for ChannelReader {
    type V = Seq<u8>;

    closed spec fn view(&self) -> Seq<u8> {
        held(self.buffer)
    }
}

/// What a read with room for `room` bytes answers, and what is left unread.
pub open spec fn read_step(unread: Seq<u8>, room: nat) -> (Seq<u8>, ReadActionView) {
    if unread.len() == 0 {
        (unread, ReadActionView::Poll)
    } else if room < unread.len() {
        (unread.skip(room as int), ReadActionView::Deliver(unread.take(room as int)))
    } else {
        (Seq::empty(), ReadActionView::Deliver(unread))
    }
}

/// What a read with room for `room` bytes answers to what polling gave, and what
/// is left unread.
pub open spec fn poll_step(poll: SessionPoll, room: nat) -> (Seq<u8>, ReadActionView) {
    match poll {
        SessionPoll::Stdout(data) => read_step(held(data), room),
        SessionPoll::Eof => (Seq::empty(), ReadActionView::End),
        SessionPoll::Closed => (Seq::empty(), ReadActionView::End),
        SessionPoll::Other => (Seq::empty(), ReadActionView::Poll),
        SessionPoll::Failed(e) => (Seq::empty(), ReadActionView::Fail(e)),
        SessionPoll::Pending => (Seq::empty(), ReadActionView::Wait),
    }
}

impl ChannelReader {
    /// A reader that has received nothing yet.
    pub fn new() -> (reader: ChannelReader)
        ensures
            reader@ == Seq::<u8>::empty(),
    {
        ChannelReader { buffer: Bytes::new() }
    }

    /// Begins a read with room for `room` bytes.
    pub fn poll_read(&mut self, room: usize) -> (action: ReadAction)
        ensures
            (final(self)@, action@) == read_step(old(self)@, room as nat),
            match action {
                ReadAction::Deliver(data) => old(self)@.len() > 0 && held(data).len() == (if room
                    < old(self)@.len() {
                    room as nat
                } else {
                    old(self)@.len()
                }) && held(data) + final(self)@ == old(self)@,
                ReadAction::Poll => old(self)@.len() == 0 && final(self)@.len() == 0,
                _ => false,
            },
    {
        if has_remaining(&self.buffer) {
            let len: usize = self.buffer.len();
            let to_copy: usize = if room < len {
                room
            } else {
                len
            };
            let data: Bytes = self.buffer.split_to(to_copy);
            assert(old(self)@.take(old(self)@.len() as int) == old(self)@);
            assert(old(self)@.take(to_copy as int) + old(self)@.skip(to_copy as int) == old(self)@);
            ReadAction::Deliver(data)
        } else {
            ReadAction::Poll
        }
    }

    /// Goes on with a read that was told to poll.
    pub fn on_event(&mut self, poll: SessionPoll, room: usize) -> (action: ReadAction)
        requires
            old(self)@.len() == 0,
        ensures
            (final(self)@, action@) == poll_step(poll, room as nat),
            match action {
                ReadAction::Deliver(data) => poll matches SessionPoll::Stdout(received) && held(
                    data,
                ) + final(self)@ == held(received),
                ReadAction::Poll => poll is Other || (poll matches SessionPoll::Stdout(received)
                    && held(received).len() == 0),
                ReadAction::End => poll is Eof || poll is Closed,
                ReadAction::Fail(e) => poll == SessionPoll::Failed(e),
                ReadAction::Wait => poll is Pending,
            },
    {
        assert(old(self)@ == Seq::<u8>::empty());
        match poll {
            SessionPoll::Stdout(data) => {
                self.buffer = data;
                self.poll_read(room)
            },
            SessionPoll::Eof => ReadAction::End,
            SessionPoll::Closed => ReadAction::End,
            SessionPoll::Other => ReadAction::Poll,
            SessionPoll::Failed(e) => ReadAction::Fail(e),
            SessionPoll::Pending => ReadAction::Wait,
        }
    }
}

/// One step of a read.
pub enum ReaderOp {
    /// A read with that much room begins.
    Read(nat),
    /// A read with that much room goes on with what polling gave.
    Event(SessionPoll, nat),
}

/// What is left unread behind `op`, and what it answers.
pub open spec fn reader_step(unread: Seq<u8>, op: ReaderOp) -> (Seq<u8>, ReadActionView) {
    match op {
        ReaderOp::Read(room) => read_step(unread, room),
        ReaderOp::Event(poll, room) => poll_step(poll, room),
    }
}

/// What is left unread once all of `ops` have been done.
pub open spec fn unread_after(unread: Seq<u8>, ops: Seq<ReaderOp>) -> Seq<u8>
    decreases ops.len(),
{
    if ops.len() == 0 {
        unread
    } else {
        reader_step(unread_after(unread, ops.drop_last()), ops.last()).0
    }
}

/// Whether the session is polled only where a read was told to: with nothing left
/// unread.
pub open spec fn polls_when_told(unread: Seq<u8>, ops: Seq<ReaderOp>) -> bool
    decreases ops.len(),
{
    ops.len() > 0 ==> {
        &&& polls_when_told(unread, ops.drop_last())
        &&& ops.last() is Event ==> unread_after(unread, ops.drop_last()).len() == 0
    }
}

/// All data that `ops` receive, in order.
pub open spec fn all_received(ops: Seq<ReaderOp>) -> Seq<u8>
    decreases ops.len(),
{
    if ops.len() == 0 {
        Seq::empty()
    } else {
        all_received(ops.drop_last()) + match ops.last() {
            ReaderOp::Event(SessionPoll::Stdout(data), room) => held(data),
            _ => Seq::empty(),
        }
    }
}

/// All data that `ops` deliver, in order.
pub open spec fn all_delivered(unread: Seq<u8>, ops: Seq<ReaderOp>) -> Seq<u8>
    decreases ops.len(),
{
    if ops.len() == 0 {
        Seq::empty()
    } else {
        all_delivered(unread, ops.drop_last()) + match reader_step(
            unread_after(unread, ops.drop_last()),
            ops.last(),
        ).1 {
            ReadActionView::Deliver(data) => data,
            _ => Seq::empty(),
        }
    }
}

/// However reads and events follow on one another, the bytes that are delivered,
/// and then those that are left unread, are the bytes of the standard output that
/// were received: events of any other kind add and remove nothing.
pub proof fn law_bytes_are_read_in_order(unread: Seq<u8>, ops: Seq<ReaderOp>)
    requires
        polls_when_told(unread, ops),
    ensures
        all_delivered(unread, ops) + unread_after(unread, ops) == unread + all_received(ops),
    decreases ops.len(),
{
    if ops.len() == 0 {
        assert(Seq::<u8>::empty() + unread == unread + Seq::<u8>::empty());
    } else {
        let front = ops.drop_last();
        law_bytes_are_read_in_order(unread, front);
        let mid = unread_after(unread, front);
        let (end, action) = reader_step(mid, ops.last());
        let out = match action {
            ReadActionView::Deliver(data) => data,
            _ => Seq::empty(),
        };
        let received = match ops.last() {
            ReaderOp::Event(SessionPoll::Stdout(data), room) => held(data),
            _ => Seq::empty(),
        };
        assert(out + end == mid + received) by {
            if let ReaderOp::Event(poll, room) = ops.last() {
                assert(mid == Seq::<u8>::empty());
            }
        }
        assert(all_delivered(unread, ops) + end == all_delivered(unread, front) + (out + end));
        assert(all_delivered(unread, front) + (mid + received) == (all_delivered(unread, front)
            + mid) + received);
        assert(unread + all_received(ops) == (unread + all_received(front)) + received);
    }
}

/// A flush waits only for a send that is still under way, and fails only with the
/// error of a send; both leave what waits to be sent as it is. In every other case
/// it goes on: it polls the send in flight if it has not, and else sends all that
/// waits, or is done if nothing does.
pub proof fn law_flush_goes_on(writer: ChannelWriterView, poll: SendPoll)
    requires
        !(poll is NotPolled) ==> writer.in_flight,
    ensures
        ({
            let (after, action) = flush_step(writer, poll);
            &&& action is Wait <==> poll is Pending
            &&& forall|e: makiko::Error|
                action == FlushActionView::Fail(e) <==> poll == SendPoll::Failed(e)
            &&& action is Poll <==> poll is NotPolled && writer.in_flight
            &&& action is Send <==> writer.waiting.len() > 0 && (poll is Sent || (poll is NotPolled
                && !writer.in_flight))
            &&& action is Done <==> writer.waiting.len() == 0 && (poll is Sent || (poll is NotPolled
                && !writer.in_flight))
            &&& action matches FlushActionView::Send(data) ==> data == writer.waiting
                && after.waiting.len() == 0
            &&& !(action is Send) ==> after.waiting == writer.waiting
            &&& after.in_flight <==> action is Wait || action is Poll || action is Send
        }),
{
}

/// What was written is sent: a flush of a writer with nothing in flight sends
/// exactly the bytes that were written since it was last empty, and is done once
/// they are sent.
pub proof fn law_flush_sends_what_was_written(writer: ChannelWriterView, data: Seq<u8>)
    requires
        writer.waiting.len() == 0,
        !writer.in_flight,
        data.len() > 0,
    ensures
        ({
            let written = after_op(writer, WriterOp::Write(data));
            let (flushing, action) = flush_step(written, SendPoll::NotPolled);
            &&& action == FlushActionView::Send(data)
            &&& flush_step(flushing, SendPoll::Sent).1 is Done
            &&& flush_step(writer, SendPoll::NotPolled).1 is Done
        }),
{
    assert(writer.waiting + data == data);
}

/// A read with something unread delivers as much of it as there is room for, from
/// the front, and keeps the rest; with nothing unread it polls.
pub proof fn law_reads_deliver_what_fits(unread: Seq<u8>, room: nat)
    ensures
        ({
            let (left, action) = read_step(unread, room);
            &&& action is Poll <==> unread.len() == 0
            &&& unread.len() == 0 ==> left.len() == 0
            &&& unread.len() > 0 ==> (action matches ReadActionView::Deliver(data) && data + left
                == unread && data.len() <= room && (data.len() == room || left.len() == 0))
        }),
{
    if unread.len() > 0 && room < unread.len() {
        assert(unread.take(room as int) + unread.skip(room as int) == unread);
    } else {
        assert(unread + Seq::<u8>::empty() == unread);
    }
}

/// Data that is received is delivered as far as there is room. A read ends only
/// where the data or the session does, fails only with the error of the session,
/// waits only where there is no event yet, and polls again behind any other event.
pub proof fn law_events_decide_a_read(poll: SessionPoll, room: nat)
    ensures
        ({
            let (left, action) = poll_step(poll, room);
            &&& action is End <==> poll is Eof || poll is Closed
            &&& forall|e: makiko::Error|
                action == ReadActionView::Fail(e) <==> poll == SessionPoll::Failed(e)
            &&& action is Wait <==> poll is Pending
            &&& action is Poll <==> poll is Other || (poll matches SessionPoll::Stdout(received)
                && held(received).len() == 0)
            &&& !(poll is Stdout) ==> left.len() == 0
            &&& poll matches SessionPoll::Stdout(received) ==> (if held(received).len() == 0 {
                left.len() == 0
            } else {
                action matches ReadActionView::Deliver(data) && data + left == held(received)
                    && data.len() <= room && (data.len() == room || left.len() == 0)
            })
        }),
{
    if let SessionPoll::Stdout(received) = poll {
        law_reads_deliver_what_fits(held(received), room);
    }
}

/// An action shows which one it is, and all that it carries.
pub proof fn law_stream_actions_show_what_they_carry(flush: FlushAction, read: ReadAction)
    ensures
        match flush {
            FlushAction::Poll => flush@ is Poll,
            FlushAction::Send(data) => flush@ == FlushActionView::Send(held(data)),
            FlushAction::Done => flush@ is Done,
            FlushAction::Fail(e) => flush@ == FlushActionView::Fail(e),
            FlushAction::Wait => flush@ is Wait,
        },
        match read {
            ReadAction::Deliver(data) => read@ == ReadActionView::Deliver(held(data)),
            ReadAction::Poll => read@ is Poll,
            ReadAction::End => read@ is End,
            ReadAction::Fail(e) => read@ == ReadActionView::Fail(e),
            ReadAction::Wait => read@ is Wait,
        },
{
}

} // verus!
