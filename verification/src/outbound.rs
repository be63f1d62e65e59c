//! The outbound side of one connection: the producer half of its delivery
//! channel, and the one operation the relay performs on it.

use vstd::prelude::*;

verus! {

/// `tokio::sync::mpsc::UnboundedSender`, the producer half of an unbounded
/// channel. Opaque: a value is carried, and nothing is claimed of what it
/// holds.
#[verifier::external_type_specification]
#[verifier::external_body]
#[verifier::reject_recursive_types(T)]
pub struct ExUnboundedSender<T>(tokio::sync::mpsc::UnboundedSender<T>);

/// `axum::extract::ws::Message`, one WebSocket message. Opaque.
#[verifier::external_type_specification]
#[verifier::external_body]
pub struct ExMessage(axum::extract::ws::Message);

/// `axum::Error`, what the transport reports when it fails. Opaque.
#[verifier::external_type_specification]
#[verifier::external_body]
pub struct ExAxumError(axum::Error);

/// The handle through which messages are queued for one connection. The
/// receiving half belongs to the task that writes them to the stream, in the
/// order queued.
pub type Outbound = tokio::sync::mpsc::UnboundedSender<
    Result<axum::extract::ws::Message, axum::Error>,
>;

/// Queues `payload` for the connection as one text message: calls
/// `tokio::sync::mpsc::UnboundedSender::send` with `Ok(Message::Text(..))`
/// holding a copy of `payload`, and says whether the channel took it.
///
/// Trusted, with nothing claimed of the result: `send` never waits, and it
/// fails exactly when the receiving half is closed or gone, which nothing
/// on this side can tell beforehand.
#[verifier::external_body]
pub(crate) fn enqueue(sender: &Outbound, payload: &str) -> (accepted: bool) {
    sender.send(Ok(axum::extract::ws::Message::Text(payload.to_string()))).is_ok()
}

} // verus!
