//! What a session and the transport say to each other: the events that the
//! transport reports, the actions that a session asks for, and the errors
//! that end a session.

use crate::message::{decode_spec, DecodeError, Message, MessageKind, MessageView};
use vstd::prelude::*;

verus! {

/// A message arrived that the protocol does not allow at that point.
#[derive(Clone, Copy, Debug, PartialEq, Eq, Structural)]
pub enum ProtocolError {
    /// The record has another discriminator than the one expected.
    UnexpectedKind { expected: MessageKind },
    /// The event cannot occur in the session's state.
    OutOfSequence,
}

/// The transport gave out.
#[derive(Clone, Copy, Debug, PartialEq, Eq, Structural)]
pub enum TransportError {
    /// The stream ended while the session waited.
    Closed,
    /// Reading or writing failed.
    Failed,
}

/// Why a session was aborted.
#[derive(Clone, Copy, Debug, PartialEq, Eq, Structural)]
pub enum SessionError {
    Decode(DecodeError),
    Protocol(ProtocolError),
    Transport(TransportError),
}

/// What the transport reports to a session.
#[derive(Clone, Debug)]
pub enum Event {
    /// The connection stands and the session may begin.
    Start,
    /// The record that was to be sent has been written.
    Sent,
    /// A line arrived and held this record.
    Received(Message),
    /// A line arrived that holds no record.
    Malformed,
    /// The stream ended.
    Closed,
    /// Reading or writing failed.
    Failed,
}

/// What an event says.
pub ghost enum EventView {
    Start,
    Sent,
    Received(MessageView),
    Malformed,
    Closed,
    Failed,
}

impl View for Event {
    type V = EventView;

    open spec fn view(&self) -> EventView {
        match *self {
            Event::Start => EventView::Start,
            Event::Sent => EventView::Sent,
            Event::Received(record) => EventView::Received(record@),
            Event::Malformed => EventView::Malformed,
            Event::Closed => EventView::Closed,
            Event::Failed => EventView::Failed,
        }
    }
}

/// What a session asks the transport to do next.
#[derive(Clone, Debug)]
pub enum Action {
    /// Write this record on a line, then report `Sent` or `Failed`.
    Send(Message),
    /// Read a line, then report what arrived.
    Receive,
    /// Nothing: the session is over.
    Stop,
}

/// What an action says.
pub ghost enum ActionView {
    Send(MessageView),
    Receive,
    Stop,
}

impl View for Action {
    type V = ActionView;

    open spec fn view(&self) -> ActionView {
        match *self {
            Action::Send(record) => ActionView::Send(record@),
            Action::Receive => ActionView::Receive,
            Action::Stop => ActionView::Stop,
        }
    }
}

/// A record that a session hands out carries a message of the protocol.
pub open spec fn sends_decodable(action: ActionView) -> bool {
    action matches ActionView::Send(record) ==> decode_spec(record) is Ok
}

/// The error with which a session in an unfinished state answers an event
/// that the state has no use for: the transport's failure, an unreadable
/// line, or an event out of turn.
pub open spec fn stray_event_error(event: EventView) -> SessionError {
    match event {
        EventView::Closed => SessionError::Transport(TransportError::Closed),
        EventView::Failed => SessionError::Transport(TransportError::Failed),
        EventView::Malformed => SessionError::Decode(DecodeError::MalformedRecord),
        _ => SessionError::Protocol(ProtocolError::OutOfSequence),
    }
}

/// The error for an event that the session's state has no use for.
pub fn stray_event(event: &Event) -> (error: SessionError)
    ensures
        error == stray_event_error(event@),
{
    match event {
        Event::Closed => SessionError::Transport(TransportError::Closed),
        Event::Failed => SessionError::Transport(TransportError::Failed),
        Event::Malformed => SessionError::Decode(DecodeError::MalformedRecord),
        _ => SessionError::Protocol(ProtocolError::OutOfSequence),
    }
}

} // verus!
