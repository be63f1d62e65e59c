//! One live connection: what an inbound frame does to the registry, and the
//! lifecycle from upgrade to disconnect.
//!
//! The caller owns the transport. It turns what happens on the stream into
//! a [`ConnectionEvent`], calls [`client_connection`], and does what the
//! returned [`ConnectionAction`] says.

use vstd::prelude::*;
use crate::outbound::Outbound;
use crate::registry::{attached, subscribed, ClientView, Registry};
use crate::text::{str_eq, views_of};

verus! {

/// The body of a topic update: the topics a connection wants from now on.
#[derive(Debug, Clone)]
pub struct TopicRequest {
    pub topics: Vec<String>,
}

/// One inbound frame, as the transport hands it over.
#[derive(Debug)]
pub enum Frame {
    /// A frame with no text in it.
    Unreadable,
    /// A text frame. `request` is what the JSON decoder made of `message`:
    /// `None` when it is not a topic update.
    Text { message: String, request: Option<TopicRequest> },
}

/// What became of an inbound frame.
#[derive(Debug, Clone, Copy, PartialEq, Eq, Structural)]
pub enum FrameOutcome {
    /// The frame had no text; nothing changed.
    Unreadable,
    /// The keepalive token; nothing changed and nothing is sent back.
    Keepalive,
    /// Not a topic update; nothing changed and the connection stays open.
    Malformed,
    /// A topic update for an id that is no longer registered; nothing changed.
    UnknownClient,
    /// The connection's topics were replaced.
    TopicsReplaced,
}

/// The keepalive token.
pub const KEEPALIVE: &'static str = "ping";

/// The keepalive token with a trailing newline.
pub const KEEPALIVE_LINE: &'static str = "ping\n";

/// Whether `message` is the keepalive token, with or without a trailing
/// newline.
pub open spec fn keepalive(message: Seq<char>) -> bool {
    message == KEEPALIVE@ || message == KEEPALIVE_LINE@
}

/// Whether `message` is the keepalive token.
pub fn is_keepalive(message: &str) -> (token: bool)
    ensures
        token == keepalive(message@),
{
    str_eq(message, KEEPALIVE) || str_eq(message, KEEPALIVE_LINE)
}

/// What [`client_msg`] reports for `frame`.
pub open spec fn frame_outcome(
    records: Map<Seq<char>, ClientView>,
    id: Seq<char>,
    frame: Frame,
) -> FrameOutcome {
    match frame {
        Frame::Unreadable => FrameOutcome::Unreadable,
        Frame::Text { message, request } => if keepalive(message@) {
            FrameOutcome::Keepalive
        } else if request is None {
            FrameOutcome::Malformed
        } else if records.contains_key(id) {
            FrameOutcome::TopicsReplaced
        } else {
            FrameOutcome::UnknownClient
        },
    }
}

/// The registry after `frame` arrived on the connection `id`: a topic update
/// replaces the topics of `id`, and every other frame changes nothing.
pub open spec fn after_frame(
    records: Map<Seq<char>, ClientView>,
    id: Seq<char>,
    frame: Frame,
) -> Map<Seq<char>, ClientView> {
    match frame {
        Frame::Unreadable => records,
        Frame::Text { message, request } => match request {
            Some(request) => if keepalive(message@) {
                records
            } else {
                subscribed(records, id, views_of(request.topics@))
            },
            None => records,
        },
    }
}

/// Handles one inbound frame of the connection `id`.
pub fn client_msg(registry: &mut Registry, id: &str, frame: Frame) -> (outcome: FrameOutcome)
    ensures
        outcome == frame_outcome(old(registry)@, id@, frame),
        final(registry)@ == after_frame(old(registry)@, id@, frame),
{
    match frame {
        Frame::Unreadable => FrameOutcome::Unreadable,
        Frame::Text { message, request } => {
            if is_keepalive(message.as_str()) {
                return FrameOutcome::Keepalive;
            }
            match request {
                None => FrameOutcome::Malformed,
                Some(request) => match registry.update_topics(id, request.topics) {
                    Ok(()) => FrameOutcome::TopicsReplaced,
                    Err(_) => FrameOutcome::UnknownClient,
                },
            }
        },
    }
}

/// Where a connection stands.
#[derive(Debug, Clone, Copy, PartialEq, Eq, Structural)]
pub enum ConnectionState {
    /// The id exists; no stream has been handed over yet.
    Registered,
    /// The upgrade was accepted; the delivery channel is not attached yet.
    Connecting,
    /// The delivery channel is attached and frames are being read.
    Connected,
    /// Terminal: the registry entry is gone and the id is no longer valid.
    Disconnected,
}

/// What happened on a connection.
#[derive(Debug)]
pub enum ConnectionEvent {
    /// The transport handed over an upgraded stream.
    Upgraded,
    /// The delivery channel was created; this is its producer half.
    ChannelOpened(Outbound),
    /// A frame was read.
    Received(Frame),
    /// Reading failed.
    ReadFailed,
    /// The stream ended.
    Closed,
}

/// What the caller does next.
#[derive(Debug, Clone, Copy, PartialEq, Eq, Structural)]
pub enum ConnectionAction {
    /// Wait for the upgrade.
    AwaitUpgrade,
    /// Close the stream at once: the id is unknown.
    Reject,
    /// Create the delivery channel, start forwarding, report `ChannelOpened`.
    OpenChannel,
    /// Read the next frame.
    Read,
    /// Stop; the forwarding task ends when its channel closes.
    Finish,
}

/// Whether `event` ends the stream.
pub open spec fn ends_stream(event: ConnectionEvent) -> bool {
    event is ReadFailed || event is Closed
}

/// The state after `event`. An event that the state does not expect leaves
/// it as it is.
pub open spec fn next_state(
    records: Map<Seq<char>, ClientView>,
    id: Seq<char>,
    state: ConnectionState,
    event: ConnectionEvent,
) -> ConnectionState {
    match state {
        ConnectionState::Registered => if event is Upgraded {
            if records.contains_key(id) {
                ConnectionState::Connecting
            } else {
                ConnectionState::Disconnected
            }
        } else {
            state
        },
        ConnectionState::Connecting => if event is ChannelOpened {
            ConnectionState::Connected
        } else if ends_stream(event) {
            ConnectionState::Disconnected
        } else {
            state
        },
        ConnectionState::Connected => if ends_stream(event) {
            ConnectionState::Disconnected
        } else {
            state
        },
        ConnectionState::Disconnected => state,
    }
}

/// The registry after `event`: the opened channel is attached, a frame
/// acts as [`after_frame`] says, and the end of the stream removes the record.
pub open spec fn next_records(
    records: Map<Seq<char>, ClientView>,
    id: Seq<char>,
    state: ConnectionState,
    event: ConnectionEvent,
) -> Map<Seq<char>, ClientView> {
    match state {
        ConnectionState::Connecting => match event {
            ConnectionEvent::ChannelOpened(outbound) => attached(records, id, outbound),
            ConnectionEvent::ReadFailed => records.remove(id),
            ConnectionEvent::Closed => records.remove(id),
            _ => records,
        },
        ConnectionState::Connected => match event {
            ConnectionEvent::Received(frame) => after_frame(records, id, frame),
            ConnectionEvent::ReadFailed => records.remove(id),
            ConnectionEvent::Closed => records.remove(id),
            _ => records,
        },
        _ => records,
    }
}

/// What the caller does after `event`.
pub open spec fn next_action(
    records: Map<Seq<char>, ClientView>,
    id: Seq<char>,
    state: ConnectionState,
    event: ConnectionEvent,
) -> ConnectionAction {
    match next_state(records, id, state, event) {
        ConnectionState::Registered => ConnectionAction::AwaitUpgrade,
        ConnectionState::Connecting => ConnectionAction::OpenChannel,
        ConnectionState::Connected => ConnectionAction::Read,
        ConnectionState::Disconnected => if state is Registered && event is Upgraded {
            ConnectionAction::Reject
        } else {
            ConnectionAction::Finish
        },
    }
}

/// Advances the connection `id` by one event and says what to do next.
///
/// A registered id moves to `Connecting` on upgrade; an unknown one is
/// rejected. The opened channel is attached and reading starts. Each frame
/// is handled as [`client_msg`] does. When the stream fails or ends, the
/// registry entry is removed, whatever else happened to it meanwhile.
pub fn client_connection(
    registry: &mut Registry,
    id: &str,
    state: ConnectionState,
    event: ConnectionEvent,
) -> (next: (ConnectionState, ConnectionAction))
    ensures
        next.0 == next_state(old(registry)@, id@, state, event),
        next.1 == next_action(old(registry)@, id@, state, event),
        final(registry)@ == next_records(old(registry)@, id@, state, event),
{
    match state {
        ConnectionState::Registered => match event {
            ConnectionEvent::Upgraded => if registry.contains(id) {
                (ConnectionState::Connecting, ConnectionAction::OpenChannel)
            } else {
                (ConnectionState::Disconnected, ConnectionAction::Reject)
            },
            _ => (ConnectionState::Registered, ConnectionAction::AwaitUpgrade),
        },
        ConnectionState::Connecting => match event {
            ConnectionEvent::ChannelOpened(outbound) => {
                let _ = registry.attach(id, outbound);
                (ConnectionState::Connected, ConnectionAction::Read)
            },
            ConnectionEvent::ReadFailed | ConnectionEvent::Closed => {
                let _ = registry.remove(id);
                (ConnectionState::Disconnected, ConnectionAction::Finish)
            },
            _ => (ConnectionState::Connecting, ConnectionAction::OpenChannel),
        },
        ConnectionState::Connected => match event {
            ConnectionEvent::Received(frame) => {
                let _ = client_msg(registry, id, frame);
                (ConnectionState::Connected, ConnectionAction::Read)
            },
            ConnectionEvent::ReadFailed | ConnectionEvent::Closed => {
                let _ = registry.remove(id);
                (ConnectionState::Disconnected, ConnectionAction::Finish)
            },
            _ => (ConnectionState::Connected, ConnectionAction::Read),
        },
        ConnectionState::Disconnected => (ConnectionState::Disconnected, ConnectionAction::Finish),
    }
}

} // verus!
