//! Language Server Protocol plumbing: message framing, JSON-RPC values and
//! the bookkeeping that routes requests and responses between a server and
//! its client.

pub mod client;
pub mod codec;
pub mod delegate;
pub mod jsonrpc;
pub mod routes;
pub mod service;
pub mod stdio;
pub mod transport;

use vstd::prelude::*;

verus! {

/// The behavior of a language server, implemented by its users.
pub trait LanguageServer {
    /// The `initialize` request is the first request sent from the client to
    /// the server. It is served only once: a repeated `initialize` is
    /// answered with the JSON-RPC error `-32600` (invalid request).
    fn initialize(&self, params: usize) -> Result<usize, ()>;

    /// The `initialized` notification is sent from the client to the server
    /// after the client received the result of the initialize request but
    /// before the client sends anything else.
    fn initialized(&mut self, params: u32) {
    }
}

} // verus!
