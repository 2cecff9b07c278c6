//! A signaling relay: peers register under a name, exchange offer/answer
//! session descriptions through the server, and ask who is online.
//!
//! The library holds the protocol: the message set and its JSON wire form,
//! the registry of named peers, the table of live connections, and the
//! dispatcher that turns one inbound message into table updates and the
//! frames to deliver.

pub mod json;
pub mod sdp;
pub mod commands;
pub mod device;
pub mod channels;
pub mod connection;
pub mod laws;
pub mod client;
