//! A publish/subscribe relay core: a registry of client connections, the
//! lifecycle of one connection, and the fan-out of published messages.
//!
//! Clients register over HTTP and get a connection endpoint, open a
//! persistent connection on it, and say which topics they want. A publish
//! call queues its message for every connection that currently wants the
//! topic. This crate holds the rules; the transport lives with the caller,
//! who keeps one [`registry::Registry`] behind a lock and hands it to the
//! functions here.

pub mod handlers;
pub mod ident;
pub mod laws;
pub mod outbound;
pub mod registry;
pub mod text;
pub mod ws;

pub use registry::Client;
