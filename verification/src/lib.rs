//! A scriptable WebSocket endpoint for test suites, without the sockets.
//!
//! A [`MockServer`] holds a bind address and an ordered list of JSON
//! payloads. Every connection that it accepts gets a [`Session`] of its own,
//! which answers each text or binary message from the peer with the next
//! payload, whatever the message says, and with a fixed text once the
//! payloads are used up.
//!
//! The crate does no input or output. A driver binds the address that
//! [`MockServer::bind_address`] gives, hands what it reads from each socket
//! to [`Session::on_event`] as an [`Event`], and sends the [`Reply`] that
//! comes back. What holds of every such conversation is proved in [`laws`].

pub mod address;
pub mod json;
pub mod laws;
pub mod options;
pub mod server;
pub mod session;

pub use options::MockServerOptions;
pub use server::{Handshake, MockServer};
pub use session::{Event, Reply, Session};
