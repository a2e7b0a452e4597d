//! The task that writes commands and hands out their responses.
//!
//! Responses carry no mark of the command that they answer: they are paired with
//! commands by order alone. A response that never arrives would shift all pairs
//! behind it, so the task stops when one does not arrive in time.

use vstd::prelude::*;

use crate::error::{QueryError, QueryErrorView};
use crate::protocol::types::RawCommandResponse;

verus! {

/// How long the server has to respond to a command, in seconds.
pub const RESPONSE_TIMEOUT: u64 = 30;

/// What waiting for a response gave.
#[derive(Debug)]
pub enum ResponseWait {
    Arrived(RawCommandResponse),
    /// No response can arrive any more.
    Closed,
    /// No response arrived in time.
    TimedOut,
}

/// What came of the last action of the task.
#[derive(Debug)]
pub enum WriterEvent {
    /// A command to write, or none if no command can come any more.
    Command(Option<String>),
    /// The command was written, or not.
    Written(Result<(), std::io::Error>),
    /// What was written was flushed, or not.
    Flushed(Result<(), std::io::Error>),
    /// The wait for the response is over.
    Response(ResponseWait),
    /// Whether somebody took the response.
    Delivered(bool),
}

/// What the task is to do next.
#[derive(Debug)]
pub enum WriterAction {
    /// Take the next command.
    Receive,
    /// Write a command.
    Write(String),
    /// Flush what was written.
    Flush,
    /// Wait for the response, at most that many seconds.
    Await { seconds: u64 },
    /// Hand the response to whoever sent the command.
    Deliver(RawCommandResponse),
    /// Stop for good.
    Stop(QueryError),
}

/// A [`WriterAction`] as contracts speak of it.
pub enum WriterActionView {
    Receive,
    Write(Seq<char>),
    Flush,
    Await { seconds: u64 },
    Deliver(RawCommandResponse),
    Stop(QueryErrorView),
}

impl View for WriterAction {
    type V = WriterActionView;

    open spec fn view(&self) -> WriterActionView {
        match self {
            WriterAction::Receive => WriterActionView::Receive,
            WriterAction::Write(data) => WriterActionView::Write(data@),
            WriterAction::Flush => WriterActionView::Flush,
            WriterAction::Await { seconds } => WriterActionView::Await { seconds: *seconds },
            WriterAction::Deliver(response) => WriterActionView::Deliver(*response),
            WriterAction::Stop(e) => WriterActionView::Stop(e@),
        }
    }
}

/// What the task is waiting for.
#[derive(Debug, Clone, Copy, PartialEq, Eq, Structural)]
pub enum WriterState {
    Receiving,
    Writing,
    Flushing,
    Awaiting,
    Delivering,
    Stopped,
}

/// Whether `event` is what a task in `state` waits for. A task that has stopped
/// waits for nothing.
pub open spec fn answers(state: WriterState, event: WriterEvent) -> bool {
    match event {
        WriterEvent::Command(_) => state is Receiving,
        WriterEvent::Written(_) => state is Writing,
        WriterEvent::Flushed(_) => state is Flushing,
        WriterEvent::Response(_) => state is Awaiting,
        WriterEvent::Delivered(_) => state is Delivering,
    }
}

/// One step of the task: its state behind `event`, and what it does. A flush that
/// fails is not an error of its own: the response decides.
pub open spec fn writer_step(event: WriterEvent) -> (WriterState, WriterActionView) {
    match event {
        WriterEvent::Command(Some(data)) => (
            WriterState::Writing,
            WriterActionView::Write(data@),
        ),
        WriterEvent::Command(None) => (
            WriterState::Stopped,
            WriterActionView::Stop(QueryErrorView::ConnectionClosed),
        ),
        WriterEvent::Written(Ok(_)) => (WriterState::Flushing, WriterActionView::Flush),
        WriterEvent::Written(Err(e)) => (
            WriterState::Stopped,
            WriterActionView::Stop(QueryErrorView::WriteError(e)),
        ),
        WriterEvent::Flushed(_) => (
            WriterState::Awaiting,
            WriterActionView::Await { seconds: RESPONSE_TIMEOUT },
        ),
        WriterEvent::Response(ResponseWait::Arrived(response)) => (
            WriterState::Delivering,
            WriterActionView::Deliver(response),
        ),
        WriterEvent::Response(ResponseWait::Closed) => (
            WriterState::Stopped,
            WriterActionView::Stop(QueryErrorView::ConnectionClosed),
        ),
        WriterEvent::Response(ResponseWait::TimedOut) => (
            WriterState::Stopped,
            WriterActionView::Stop(QueryErrorView::Timeout),
        ),
        WriterEvent::Delivered(true) => (WriterState::Receiving, WriterActionView::Receive),
        WriterEvent::Delivered(false) => (
            WriterState::Stopped,
            WriterActionView::Stop(QueryErrorView::ConnectionClosed),
        ),
    }
}

/// The task, which begins by taking a command.
pub struct Writer {
    state: WriterState,
}

impl View for Writer {
    type V = WriterState;

    closed spec fn view(&self) -> WriterState {
        self.state
    }
}

impl Writer {
    pub fn new() -> (writer: Writer)
        ensures
            writer@ == WriterState::Receiving,
    {
        Writer { state: WriterState::Receiving }
    }

    /// What the task waits for.
    pub fn state(&self) -> (state: WriterState)
        ensures
            state == self@,
    {
        self.state
    }

    /// One step of the task.
    pub fn run(&mut self, event: WriterEvent) -> (action: WriterAction)
        requires
            answers(old(self)@, event),
        ensures
            (final(self)@, action@) == writer_step(event),
            event matches WriterEvent::Command(Some(data)) ==> (action matches WriterAction::Write(
                written,
            ) && written@ == data@),
            event matches WriterEvent::Response(ResponseWait::Arrived(response)) ==> action
                == WriterAction::Deliver(response),
            action matches WriterAction::Stop(e) ==> match event {
                WriterEvent::Written(Err(error)) => e == QueryError::WriteError(error),
                WriterEvent::Response(ResponseWait::TimedOut) => e is Timeout,
                _ => e is ConnectionClosed,
            },
    {
        let (state, action) = match event {
            WriterEvent::Command(Some(data)) => (WriterState::Writing, WriterAction::Write(data)),
            WriterEvent::Command(None) => (
                WriterState::Stopped,
                WriterAction::Stop(QueryError::ConnectionClosed),
            ),
            WriterEvent::Written(Ok(_)) => (WriterState::Flushing, WriterAction::Flush),
            WriterEvent::Written(Err(e)) => (
                WriterState::Stopped,
                WriterAction::Stop(QueryError::WriteError(e)),
            ),
            WriterEvent::Flushed(_) => (
                WriterState::Awaiting,
                WriterAction::Await { seconds: RESPONSE_TIMEOUT },
            ),
            WriterEvent::Response(ResponseWait::Arrived(response)) => (
                WriterState::Delivering,
                WriterAction::Deliver(response),
            ),
            WriterEvent::Response(ResponseWait::Closed) => (
                WriterState::Stopped,
                WriterAction::Stop(QueryError::ConnectionClosed),
            ),
            WriterEvent::Response(ResponseWait::TimedOut) => (
                WriterState::Stopped,
                WriterAction::Stop(QueryError::Timeout),
            ),
            WriterEvent::Delivered(true) => (WriterState::Receiving, WriterAction::Receive),
            WriterEvent::Delivered(false) => (
                WriterState::Stopped,
                WriterAction::Stop(QueryError::ConnectionClosed),
            ),
        };
        self.state = state;
        action
    }
}

/// The state of a task behind `events`.
pub open spec fn state_after(events: Seq<WriterEvent>) -> WriterState {
    if events.len() == 0 {
        WriterState::Receiving
    } else {
        writer_step(events.last()).0
    }
}

/// Whether `events` are a run of the task from its beginning: each is what the
/// task waits for.
pub open spec fn is_run(events: Seq<WriterEvent>) -> bool
    decreases events.len(),
{
    events.len() > 0 ==> {
        &&& is_run(events.drop_last())
        &&& answers(state_after(events.drop_last()), events.last())
    }
}

/// The commands that a run writes, in order.
pub open spec fn written(events: Seq<WriterEvent>) -> Seq<Seq<char>>
    decreases events.len(),
{
    if events.len() == 0 {
        Seq::empty()
    } else {
        match writer_step(events.last()).1 {
            WriterActionView::Write(data) => written(events.drop_last()).push(data),
            _ => written(events.drop_last()),
        }
    }
}

/// The responses that arrive in a run, in order.
pub open spec fn arrived(events: Seq<WriterEvent>) -> Seq<RawCommandResponse>
    decreases events.len(),
{
    if events.len() == 0 {
        Seq::empty()
    } else {
        match events.last() {
            WriterEvent::Response(ResponseWait::Arrived(response)) => arrived(
                events.drop_last(),
            ).push(response),
            _ => arrived(events.drop_last()),
        }
    }
}

/// The responses that a run hands out, in order.
pub open spec fn delivered(events: Seq<WriterEvent>) -> Seq<RawCommandResponse>
    decreases events.len(),
{
    if events.len() == 0 {
        Seq::empty()
    } else {
        match writer_step(events.last()).1 {
            WriterActionView::Deliver(response) => delivered(events.drop_last()).push(response),
            _ => delivered(events.drop_last()),
        }
    }
}

/// Responses are paired with commands by order. In every run, the responses that
/// are handed out are those that arrived, in that order; a command is written
/// only once all earlier ones have their response; and a response is handed out
/// while the command of the same number is the last one written.
pub proof fn law_responses_are_paired_by_order(events: Seq<WriterEvent>)
    requires
        is_run(events),
    ensures
        delivered(events) == arrived(events),
        delivered(events).len() <= written(events).len() <= delivered(events).len() + 1,
        events.len() > 0 && writer_step(events.last()).1 is Write ==> written(events).len()
            == delivered(events).len() + 1,
        events.len() > 0 && writer_step(events.last()).1 is Deliver ==> written(events).len()
            == delivered(events).len(),
        state_after(events) is Receiving ==> written(events).len() == delivered(events).len(),
        state_after(events) is Delivering ==> written(events).len() == delivered(events).len(),
        state_after(events) is Writing || state_after(events) is Flushing || state_after(
            events,
        ) is Awaiting ==> written(events).len() == delivered(events).len() + 1,
    decreases events.len(),
{
    if events.len() > 0 {
        law_responses_are_paired_by_order(events.drop_last());
    }
}

/// A task that has stopped does nothing more: no run goes on behind a stop. So
/// nothing is written or handed out behind a response that did not arrive in
/// time.
pub proof fn law_stop_is_final(events: Seq<WriterEvent>, i: int)
    requires
        is_run(events),
        0 <= i < events.len(),
        writer_step(events[i]).1 is Stop,
    ensures
        i == events.len() - 1,
        state_after(events) is Stopped,
    decreases events.len(),
{
    if i < events.len() - 1 {
        let front = events.drop_last();
        assert(front[i] == events[i]);
        law_stop_is_final(front, i);
        assert(answers(state_after(front), events.last()));
    }
}

/// The commands that a run was given, in order.
pub open spec fn given(events: Seq<WriterEvent>) -> Seq<Seq<char>>
    decreases events.len(),
{
    if events.len() == 0 {
        Seq::empty()
    } else {
        match events.last() {
            WriterEvent::Command(Some(data)) => given(events.drop_last()).push(data@),
            _ => given(events.drop_last()),
        }
    }
}

/// Commands are written whole: in every run, what is written is what was given, in
/// the same order and character by character.
pub proof fn law_commands_are_written_whole(events: Seq<WriterEvent>)
    requires
        is_run(events),
    ensures
        written(events) == given(events),
    decreases events.len(),
{
    if events.len() > 0 {
        law_commands_are_written_whole(events.drop_last());
    }
}

proof fn lemma_one_more_event(events: Seq<WriterEvent>, event: WriterEvent)
    requires
        is_run(events),
        answers(state_after(events), event),
    ensures
        is_run(events.push(event)),
        state_after(events.push(event)) == writer_step(event).0,
        given(events.push(event)) == match event {
            WriterEvent::Command(Some(data)) => given(events).push(data@),
            _ => given(events),
        },
        delivered(events.push(event)) == match writer_step(event).1 {
            WriterActionView::Deliver(response) => delivered(events).push(response),
            _ => delivered(events),
        },
{
    assert(events.push(event).drop_last() == events);
    assert(events.push(event).last() == event);
}

/// The task that waits for a command writes the one that it is given, flushes it,
/// waits half a minute for its response whatever came of the flush, hands out the
/// response that arrives, and waits for the next command.
pub proof fn law_command_and_response_make_a_round(
    events: Seq<WriterEvent>,
    data: String,
    flushed: Result<(), std::io::Error>,
    response: RawCommandResponse,
)
    requires
        is_run(events),
        state_after(events) is Receiving,
    ensures
        ({
            let e1 = events.push(WriterEvent::Command(Some(data)));
            let e2 = e1.push(WriterEvent::Written(Ok(())));
            let e3 = e2.push(WriterEvent::Flushed(flushed));
            let e4 = e3.push(WriterEvent::Response(ResponseWait::Arrived(response)));
            let e5 = e4.push(WriterEvent::Delivered(true));
            &&& is_run(e5)
            &&& writer_step(e1.last()).1 == WriterActionView::Write(data@)
            &&& writer_step(e2.last()).1 is Flush
            &&& writer_step(e3.last()).1 == WriterActionView::Await { seconds: 30 }
            &&& writer_step(e4.last()).1 == WriterActionView::Deliver(response)
            &&& writer_step(e5.last()).1 is Receive
            &&& state_after(e5) is Receiving
            &&& given(e5) == given(events).push(data@)
            &&& delivered(e5) == delivered(events).push(response)
        }),
{
    let e1 = events.push(WriterEvent::Command(Some(data)));
    let e2 = e1.push(WriterEvent::Written(Ok(())));
    let e3 = e2.push(WriterEvent::Flushed(flushed));
    let e4 = e3.push(WriterEvent::Response(ResponseWait::Arrived(response)));
    let e5 = e4.push(WriterEvent::Delivered(true));
    lemma_one_more_event(events, e1.last());
    lemma_one_more_event(e1, e2.last());
    lemma_one_more_event(e2, e3.last());
    lemma_one_more_event(e3, e4.last());
    lemma_one_more_event(e4, e5.last());
}

/// The task stops where no command can come any more, a command cannot be written,
/// a response cannot arrive or does not in time, or nobody takes it, and nowhere
/// else; each stop has the error of its cause. It waits for half a minute whenever
/// it waits.
pub proof fn law_stops_have_a_cause(event: WriterEvent)
    ensures
        match writer_step(event).1 {
            WriterActionView::Stop(QueryErrorView::WriteError(e)) => event
                == WriterEvent::Written(Err(e)),
            WriterActionView::Stop(QueryErrorView::Timeout) => event matches WriterEvent::Response(
                ResponseWait::TimedOut,
            ),
            WriterActionView::Stop(QueryErrorView::ConnectionClosed) => {
                ||| event matches WriterEvent::Command(None)
                ||| event matches WriterEvent::Response(ResponseWait::Closed)
                ||| event == WriterEvent::Delivered(false)
            },
            WriterActionView::Stop(_) => false,
            WriterActionView::Receive => event == WriterEvent::Delivered(true),
            WriterActionView::Write(text) => event matches WriterEvent::Command(Some(data)) && text
                == data@,
            WriterActionView::Flush => event matches WriterEvent::Written(Ok(_)),
            WriterActionView::Await { seconds } => event is Flushed && seconds == 30,
            WriterActionView::Deliver(response) => event matches WriterEvent::Response(
                ResponseWait::Arrived(arrived),
            ) && arrived == response,
        },
        writer_step(event).0 is Stopped <==> writer_step(event).1 is Stop,
        writer_step(event).0 is Receiving <==> writer_step(event).1 is Receive,
        writer_step(event).0 is Writing <==> writer_step(event).1 is Write,
        writer_step(event).0 is Flushing <==> writer_step(event).1 is Flush,
        writer_step(event).0 is Awaiting <==> writer_step(event).1 is Await,
        writer_step(event).0 is Delivering <==> writer_step(event).1 is Deliver,
{
}

/// An action shows which one it is, and all that it carries.
pub proof fn law_writer_actions_show_what_they_carry(action: WriterAction)
    ensures
        match action {
            WriterAction::Receive => action@ is Receive,
            WriterAction::Write(data) => action@ == WriterActionView::Write(data@),
            WriterAction::Flush => action@ is Flush,
            WriterAction::Await { seconds } => action@ == (WriterActionView::Await { seconds }),
            WriterAction::Deliver(response) => action@ == WriterActionView::Deliver(response),
            WriterAction::Stop(e) => action@ == WriterActionView::Stop(e@),
        },
{
}

} // verus!
