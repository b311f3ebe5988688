//! A verified core for a minimal HTTP/1.1 server: request parsing, routing and
//! response construction, stated over the bytes that travel on the wire.

pub mod search;
pub mod text;
pub mod cli;
pub mod config;
pub mod laws;
pub mod request;
pub mod response;
pub mod router;
pub mod whitespace;
