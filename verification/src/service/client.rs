//! Server-to-client requests.

pub mod pending;
