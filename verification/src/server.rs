//! The configuration of a mock server, and what it decides when it starts
//! and when a connection arrives.

use crate::address::{address_text, format_address};
use crate::options::MockServerOptions;
use crate::session::{fresh, Session};
use serde_json::Value;
use vstd::prelude::*;

verus! {

/// A mock WebSocket endpoint: where it listens, and the payloads that every
/// connection is answered with, in order.
pub struct MockServer {
    pub responses: Vec<Value>,
    pub options: MockServerOptions,
}

/// A [`MockServer`] as a mathematical value.
pub struct MockServerView {
    pub host: Seq<char>,
    pub port: u16,
    pub responses: Seq<Value>,
}

impl View for MockServer {
    type V = MockServerView;

    open spec fn view(&self) -> MockServerView {
        MockServerView {
            host: self.options.host@,
            port: self.options.port,
            responses: self.responses@,
        }
    }
}

/// How the opening handshake on an accepted connection ended.
#[derive(Debug, PartialEq, Eq)]
pub enum Handshake {
    /// The connection now speaks WebSocket.
    Completed,
    /// The upgrade was malformed or incomplete.
    Failed,
}

impl Default for MockServer {
    /// A server on `localhost` and a port that the operating system picks,
    /// with no payload configured.
    fn default() -> (server: Self)
        ensures
            server@ == (MockServerView { host: "localhost"@, port: 0, responses: Seq::empty() }),
    {
        MockServer { responses: Vec::new(), options: MockServerOptions::default() }
    }
}

impl MockServer {
    /// Replaces the host to listen on.
    pub fn host(self, host: String) -> (server: Self)
        ensures
            server@ == (MockServerView { host: host@, ..self@ }),
    {
        MockServer {
            responses: self.responses,
            options: MockServerOptions { host, port: self.options.port },
        }
    }

    /// Replaces the port to listen on. Port `0` leaves the choice to the
    /// operating system.
    pub fn port(self, port: u16) -> (server: Self)
        ensures
            server@ == (MockServerView { port, ..self@ }),
    {
        MockServer {
            responses: self.responses,
            options: MockServerOptions { host: self.options.host, port },
        }
    }

    /// Replaces the payloads. Every connection is answered with them in the
    /// order given here.
    pub fn responses(self, responses: Vec<Value>) -> (server: Self)
        ensures
            server@ == (MockServerView { responses: responses@, ..self@ }),
    {
        MockServer { responses, options: self.options }
    }

    /// The address at which a listener for this server binds: the host, a
    /// colon, and the configured port in decimal.
    pub fn bind_address(&self) -> (address: String)
        ensures
            address@ == address_text(self@.host, self@.port),
    {
        format_address(self.options.host.as_str(), self.options.port)
    }

    /// The address to report once the listener is bound: the host as
    /// configured, with the port that the listener actually has.
    pub fn resolved_address(&self, bound_port: u16) -> (address: (String, u16))
        ensures
            address.0@ == self@.host,
            address.1 == bound_port,
    {
        (self.options.host.clone(), bound_port)
    }

    /// A session for one new connection: a private copy of the payloads,
    /// with nothing sent yet.
    pub fn session(&self) -> (session: Session)
        ensures
            session@ == fresh(self@.responses),
    {
        Session::new(self.responses.clone())
    }

    /// What to do with an accepted connection: serve it with a new session
    /// when the handshake completed, and drop it otherwise.
    pub fn accept(&self, handshake: Handshake) -> (session: Option<Session>)
        ensures
            handshake is Completed ==> session is Some && session->0@ == fresh(self@.responses),
            handshake is Failed ==> session is None,
    {
        match handshake {
            Handshake::Completed => Some(self.session()),
            Handshake::Failed => None,
        }
    }
}

} // verus!
