//! Verified core of a peer-to-peer group chat: the wire framing of chat
//! messages, their content-derived identifiers, the registry of known peers,
//! the peer and message tables, and the decisions of the chat loop.
//!
//! Everything here works on plain values. Reading the terminal, talking to
//! the broadcast transport and writing the tables to disk are left to the
//! program built around this library.

pub mod chat;
pub mod codec;
pub mod ident;
pub mod registry;
pub mod retry;
pub mod store;
pub mod text;
