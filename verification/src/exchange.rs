//! The decisions of one request/response exchange.
//!
//! An exchange sends one datagram and then listens, under one deadline, for
//! the first response whose code is `Content`. This module holds the state of
//! such an exchange and the rule that takes a state and an event to the next
//! state. It performs no effect itself: a driver asks [`Exchange::action`]
//! what to do, does it, and reports what happened through
//! [`Exchange::step`].

use vstd::prelude::*;
use vstd::string::*;

use crate::address::SocketAddress;
use crate::endpoint::{select_address, selected};
use crate::error::{Error, ErrorView};
use crate::message::{Code, Message, MessageView};

verus! {

/// How long an exchange listens for a response unless told otherwise, in
/// milliseconds.
pub const DEFAULT_TIMEOUT_MS: u64 = 5000;

/// The state of an exchange.
#[derive(Debug, Clone, PartialEq, Eq)]
pub enum Exchange {
    /// The host name is being looked up.
    Resolving { host: String, port: u16, message: Message, timeout_ms: u64 },
    /// The destination is known and nothing has been sent.
    Idle { address: SocketAddress, message: Message, timeout_ms: u64 },
    /// The request has left; the deadline has not been started.
    Sent { timeout_ms: u64 },
    /// The deadline runs and datagrams are awaited.
    Listening,
    /// A `Content` response arrived in time.
    Matched(Message),
    /// The deadline elapsed first.
    TimedOut,
    /// The exchange failed for another reason.
    Failed(Error),
}

/// The mathematical value of an [`Exchange`].
pub enum ExchangeView {
    Resolving { host: Seq<char>, port: u16, message: MessageView, timeout_ms: u64 },
    Idle { address: SocketAddress, message: MessageView, timeout_ms: u64 },
    Sent { timeout_ms: u64 },
    Listening,
    Matched(MessageView),
    TimedOut,
    Failed(ErrorView),
}

impl View for Exchange {
    type V = ExchangeView;

    open spec fn view(&self) -> ExchangeView {
        match self {
            Exchange::Resolving { host, port, message, timeout_ms } => ExchangeView::Resolving {
                host: host@,
                port: *port,
                message: message@,
                timeout_ms: *timeout_ms,
            },
            Exchange::Idle { address, message, timeout_ms } => ExchangeView::Idle {
                address: *address,
                message: message@,
                timeout_ms: *timeout_ms,
            },
            Exchange::Sent { timeout_ms } => ExchangeView::Sent { timeout_ms: *timeout_ms },
            Exchange::Listening => ExchangeView::Listening,
            Exchange::Matched(message) => ExchangeView::Matched(message@),
            Exchange::TimedOut => ExchangeView::TimedOut,
            Exchange::Failed(e) => ExchangeView::Failed(e@),
        }
    }
}

/// What a driver reports to an exchange.
#[derive(Debug, Clone, PartialEq, Eq)]
pub enum Event {
    /// The lookup finished with these addresses, in the resolver's order.
    Addresses(Vec<SocketAddress>),
    /// The lookup itself failed.
    LookupFailed,
    /// The request was handed to the transport as one datagram.
    DatagramSent,
    /// The deadline timer was started.
    TimerStarted,
    /// A datagram arrived and was decoded to this message.
    Received(Message),
    /// A datagram arrived that could not be decoded.
    Undecodable,
    /// The deadline elapsed.
    DeadlineElapsed,
    /// The transport failed.
    TransportFailed,
    /// The outgoing message could not be encoded.
    EncodeFailed,
}

/// The mathematical value of an [`Event`].
pub enum EventView {
    Addresses(Seq<SocketAddress>),
    LookupFailed,
    DatagramSent,
    TimerStarted,
    Received(MessageView),
    Undecodable,
    DeadlineElapsed,
    TransportFailed,
    EncodeFailed,
}

impl View for Event {
    type V = EventView;

    open spec fn view(&self) -> EventView {
        match self {
            Event::Addresses(found) => EventView::Addresses(found@),
            Event::LookupFailed => EventView::LookupFailed,
            Event::DatagramSent => EventView::DatagramSent,
            Event::TimerStarted => EventView::TimerStarted,
            Event::Received(message) => EventView::Received(message@),
            Event::Undecodable => EventView::Undecodable,
            Event::DeadlineElapsed => EventView::DeadlineElapsed,
            Event::TransportFailed => EventView::TransportFailed,
            Event::EncodeFailed => EventView::EncodeFailed,
        }
    }
}

/// What an exchange asks its driver to do.
#[derive(Debug, Clone, Copy, PartialEq, Eq)]
pub enum Action<'a> {
    /// Look up the addresses of `host` and report them.
    Resolve { host: &'a str, port: u16 },
    /// Bind a socket to an unspecified local address and send `message` to
    /// `address` as a single datagram, once.
    Send { address: SocketAddress, message: &'a Message },
    /// Start the one deadline of this exchange, `timeout_ms` from now.
    StartTimer { timeout_ms: u64 },
    /// Wait for the next datagram or for the deadline, whichever is first.
    Receive,
    /// Release the socket: the exchange is over.
    Finish,
}

/// The mathematical value of an [`Action`].
pub enum ActionView {
    Resolve { host: Seq<char>, port: u16 },
    Send { address: SocketAddress, message: MessageView },
    StartTimer { timeout_ms: u64 },
    Receive,
    Finish,
}

impl<'a> View for Action<'a> {
    type V = ActionView;

    open spec fn view(&self) -> ActionView {
        match self {
            Action::Resolve { host, port } => ActionView::Resolve { host: host@, port: *port },
            Action::Send { address, message } => ActionView::Send {
                address: *address,
                message: message@,
            },
            Action::StartTimer { timeout_ms } => ActionView::StartTimer { timeout_ms: *timeout_ms },
            Action::Receive => ActionView::Receive,
            Action::Finish => ActionView::Finish,
        }
    }
}

impl ExchangeView {
    /// Whether the exchange is over. No event changes such a state.
    pub open spec fn is_terminal(self) -> bool {
        self is Matched || self is TimedOut || self is Failed
    }

    /// What the driver is to do in this state.
    pub open spec fn action(self) -> ActionView {
        match self {
            ExchangeView::Resolving { host, port, .. } => ActionView::Resolve { host, port },
            ExchangeView::Idle { address, message, .. } => ActionView::Send { address, message },
            ExchangeView::Sent { timeout_ms } => ActionView::StartTimer { timeout_ms },
            ExchangeView::Listening => ActionView::Receive,
            ExchangeView::Matched(_) => ActionView::Finish,
            ExchangeView::TimedOut => ActionView::Finish,
            ExchangeView::Failed(_) => ActionView::Finish,
        }
    }

    /// The result of the exchange, once it is over.
    pub open spec fn outcome(self) -> Option<Result<MessageView, ErrorView>> {
        match self {
            ExchangeView::Matched(message) => Some(Ok(message)),
            ExchangeView::TimedOut => Some(Err(ErrorView::Timeout)),
            ExchangeView::Failed(e) => Some(Err(e)),
            _ => None,
        }
    }

    /// The state that follows this one when `event` is reported.
    ///
    /// A lookup result is awaited only while resolving, the send report only
    /// while idle, the timer report only once sent, and datagrams and the
    /// deadline only while listening. A transport failure ends any exchange
    /// that is not over. Every other pair leaves the state as it is.
    pub open spec fn next(self, event: EventView) -> ExchangeView {
        match (self, event) {
            (
                ExchangeView::Resolving { message, timeout_ms, .. },
                EventView::Addresses(found),
            ) => match selected(found) {
                Ok(address) => ExchangeView::Idle { address, message, timeout_ms },
                Err(e) => ExchangeView::Failed(e),
            },
            (ExchangeView::Resolving { .. }, EventView::LookupFailed) => ExchangeView::Failed(
                ErrorView::ResolutionError,
            ),
            (ExchangeView::Idle { timeout_ms, .. }, EventView::DatagramSent) => ExchangeView::Sent {
                timeout_ms,
            },
            (ExchangeView::Idle { .. }, EventView::EncodeFailed) => ExchangeView::Failed(
                ErrorView::Decode,
            ),
            (ExchangeView::Sent { .. }, EventView::TimerStarted) => ExchangeView::Listening,
            (ExchangeView::Listening, EventView::Received(message)) => if message.code
                == Code::Content {
                ExchangeView::Matched(message)
            } else {
                ExchangeView::Listening
            },
            (ExchangeView::Listening, EventView::DeadlineElapsed) => ExchangeView::TimedOut,
            (state, EventView::TransportFailed) => if state.is_terminal() {
                state
            } else {
                ExchangeView::Failed(ErrorView::Io)
            },
            (state, _) => state,
        }
    }

    /// The state reached from this one after `events`, in order.
    pub open spec fn run(self, events: Seq<EventView>) -> ExchangeView
        decreases events.len(),
    {
        if events.len() == 0 {
            self
        } else {
            self.next(events[0]).run(events.drop_first())
        }
    }
}

impl EventView {
    /// Whether this event ends the listening of an exchange: a `Content`
    /// response, the deadline, or a transport failure.
    pub open spec fn ends_listening(self) -> bool {
        match self {
            EventView::Received(message) => message.code == Code::Content,
            EventView::DeadlineElapsed => true,
            EventView::TransportFailed => true,
            _ => false,
        }
    }
}

impl Exchange {
    /// An exchange that is to send `message` to `address` and listen for
    /// `timeout_ms` milliseconds.
    pub fn new(address: SocketAddress, message: Message, timeout_ms: u64) -> (exchange: Exchange)
        ensures
            exchange@ == (ExchangeView::Idle { address, message: message@, timeout_ms }),
    {
        Exchange::Idle { address, message, timeout_ms }
    }

    /// Whether the exchange is over.
    pub fn is_terminal(&self) -> (over: bool)
        ensures
            over == self@.is_terminal(),
    {
        match self {
            Exchange::Matched(_) => true,
            Exchange::TimedOut => true,
            Exchange::Failed(_) => true,
            _ => false,
        }
    }

    /// What the driver is to do in this state.
    pub fn action(&self) -> (action: Action<'_>)
        ensures
            action@ == self@.action(),
    {
        match self {
            Exchange::Resolving { host, port, .. } => Action::Resolve {
                host: host.as_str(),
                port: *port,
            },
            Exchange::Idle { address, message, .. } => Action::Send { address: *address, message },
            Exchange::Sent { timeout_ms } => Action::StartTimer { timeout_ms: *timeout_ms },
            Exchange::Listening => Action::Receive,
            Exchange::Matched(_) => Action::Finish,
            Exchange::TimedOut => Action::Finish,
            Exchange::Failed(_) => Action::Finish,
        }
    }

    /// The state that follows this one when `event` is reported.
    pub fn step(self, event: Event) -> (after: Exchange)
        ensures
            after@ == self@.next(event@),
    {
        match self {
            Exchange::Resolving { host, port, message, timeout_ms } => match event {
                Event::Addresses(found) => match select_address(&found) {
                    Ok(address) => Exchange::Idle { address, message, timeout_ms },
                    Err(e) => Exchange::Failed(e),
                },
                Event::LookupFailed => Exchange::Failed(Error::ResolutionError),
                Event::TransportFailed => Exchange::Failed(Error::Io),
                _ => Exchange::Resolving { host, port, message, timeout_ms },
            },
            Exchange::Idle { address, message, timeout_ms } => match event {
                Event::DatagramSent => Exchange::Sent { timeout_ms },
                Event::EncodeFailed => Exchange::Failed(Error::Decode),
                Event::TransportFailed => Exchange::Failed(Error::Io),
                _ => Exchange::Idle { address, message, timeout_ms },
            },
            Exchange::Sent { timeout_ms } => match event {
                Event::TimerStarted => Exchange::Listening,
                Event::TransportFailed => Exchange::Failed(Error::Io),
                _ => Exchange::Sent { timeout_ms },
            },
            Exchange::Listening => match event {
                Event::Received(message) => if message.code.is_content() {
                    Exchange::Matched(message)
                } else {
                    Exchange::Listening
                },
                Event::DeadlineElapsed => Exchange::TimedOut,
                Event::TransportFailed => Exchange::Failed(Error::Io),
                _ => Exchange::Listening,
            },
            Exchange::Matched(message) => Exchange::Matched(message),
            Exchange::TimedOut => Exchange::TimedOut,
            Exchange::Failed(e) => Exchange::Failed(e),
        }
    }

    /// The result of the exchange: the response, or why there is none. `None`
    /// while the exchange is not over.
    pub fn into_outcome(self) -> (outcome: Option<Result<Message, Error>>)
        ensures
            match outcome {
                Some(Ok(message)) => self@.outcome() == Some(
                    Ok::<MessageView, ErrorView>(message@),
                ),
                Some(Err(e)) => self@.outcome() == Some(Err::<MessageView, ErrorView>(e@)),
                None => self@.outcome() is None,
            },
    {
        match self {
            Exchange::Matched(message) => Some(Ok(message)),
            Exchange::TimedOut => Some(Err(Error::Timeout)),
            Exchange::Failed(e) => Some(Err(e)),
            _ => None,
        }
    }
}

/// A state in which the exchange is over stays as it is, whatever is
/// reported afterwards.
pub proof fn lemma_terminal_persists(state: ExchangeView, events: Seq<EventView>)
    requires
        state.is_terminal(),
    ensures
        state.run(events) == state,
    decreases events.len(),
{
    if events.len() > 0 {
        lemma_terminal_persists(state, events.drop_first());
    }
}

/// While listening, events that do not end the listening change nothing.
pub proof fn lemma_listening_continues(events: Seq<EventView>)
    requires
        forall|j: int| 0 <= j < events.len() ==> !(#[trigger] events[j]).ends_listening(),
    ensures
        ExchangeView::Listening.run(events) == ExchangeView::Listening,
    decreases events.len(),
{
    if events.len() > 0 {
        let rest = events.drop_first();
        assert(!events[0].ends_listening());
        assert forall|j: int| 0 <= j < rest.len() implies !(#[trigger] rest[j]).ends_listening() by {
            assert(rest[j] == events[j + 1]);
        }
        lemma_listening_continues(rest);
    }
}

/// While listening, the first event that ends the listening decides the
/// state for good: what was reported before it is discarded, and what is
/// reported after it is ignored.
pub proof fn lemma_first_ending_event_decides(events: Seq<EventView>, i: int)
    requires
        0 <= i < events.len(),
        events[i].ends_listening(),
        forall|j: int| 0 <= j < i ==> !(#[trigger] events[j]).ends_listening(),
    ensures
        ExchangeView::Listening.run(events) == ExchangeView::Listening.next(events[i]),
        ExchangeView::Listening.next(events[i]).is_terminal(),
    decreases events.len(),
{
    let rest = events.drop_first();
    if i == 0 {
        lemma_terminal_persists(ExchangeView::Listening.next(events[0]), rest);
    } else {
        assert(!events[0].ends_listening());
        assert(rest[i - 1] == events[i]);
        assert forall|j: int| 0 <= j < i - 1 implies !(#[trigger] rest[j]).ends_listening() by {
            assert(rest[j] == events[j + 1]);
        }
        lemma_first_ending_event_decides(rest, i - 1);
    }
}

/// Of the responses that arrive while listening, the first whose code is
/// `Content` is the result, provided neither the deadline nor a transport
/// failure came before it.
pub proof fn lemma_first_content_wins(events: Seq<EventView>, i: int, response: MessageView)
    requires
        0 <= i < events.len(),
        events[i] == EventView::Received(response),
        response.code == Code::Content,
        forall|j: int| 0 <= j < i ==> !(#[trigger] events[j]).ends_listening(),
    ensures
        ExchangeView::Listening.run(events) == ExchangeView::Matched(response),
        ExchangeView::Listening.run(events).outcome() == Some(
            Ok::<MessageView, ErrorView>(response),
        ),
{
    lemma_first_ending_event_decides(events, i);
}

/// If the deadline elapses while listening before any `Content` response and
/// before any transport failure, the exchange times out.
pub proof fn lemma_deadline_first_times_out(events: Seq<EventView>, i: int)
    requires
        0 <= i < events.len(),
        events[i] == EventView::DeadlineElapsed,
        forall|j: int| 0 <= j < i ==> !(#[trigger] events[j]).ends_listening(),
    ensures
        ExchangeView::Listening.run(events) == ExchangeView::TimedOut,
        ExchangeView::Listening.run(events).outcome() == Some(
            Err::<MessageView, ErrorView>(ErrorView::Timeout),
        ),
{
    lemma_first_ending_event_decides(events, i);
}

/// An exchange that is over has a result, and one that is not has none.
pub proof fn lemma_outcome_iff_terminal(state: ExchangeView)
    ensures
        state.outcome() is Some <==> state.is_terminal(),
        state.action() is Finish <==> state.is_terminal(),
{
}

/// A request leaves at most once: no event leads back to the state in which
/// the request is still to be sent.
pub proof fn lemma_sent_once(state: ExchangeView, event: EventView)
    requires
        !(state is Resolving),
        !(state is Idle),
    ensures
        !(state.next(event) is Idle),
        !(state.next(event) is Resolving),
{
}


/// Running through two lists of events in a row is running through the
/// first and then, from where that ends, through the second.
pub proof fn lemma_run_in_two_parts(
    state: ExchangeView,
    first: Seq<EventView>,
    second: Seq<EventView>,
)
    ensures
        state.run(first + second) == state.run(first).run(second),
    decreases first.len(),
{
    if first.len() == 0 {
        assert(first + second =~= second);
    } else {
        assert((first + second).drop_first() =~= first.drop_first() + second);
        lemma_run_in_two_parts(state.next(first[0]), first.drop_first(), second);
    }
}

/// An exchange that knows its destination listens once the request has
/// left and the deadline was started; what is reported after that is
/// handled as by any listening exchange.
pub proof fn lemma_listens_after_sending(
    address: SocketAddress,
    message: MessageView,
    timeout_ms: u64,
    events: Seq<EventView>,
)
    ensures
        (ExchangeView::Idle { address, message, timeout_ms }).run(
            seq![EventView::DatagramSent, EventView::TimerStarted] + events,
        ) == ExchangeView::Listening.run(events),
        (ExchangeView::Idle { address, message, timeout_ms }).next(EventView::DatagramSent).action()
            == (ActionView::StartTimer { timeout_ms }),
{
    let idle = ExchangeView::Idle { address, message, timeout_ms };
    let opening = seq![EventView::DatagramSent, EventView::TimerStarted];
    lemma_run_in_two_parts(idle, opening, events);
    reveal_with_fuel(ExchangeView::run, 3);
    assert(opening.drop_first() =~= seq![EventView::TimerStarted]);
    assert(opening.drop_first().drop_first() =~= Seq::<EventView>::empty());
}

} // verus!
