//! A peer-to-peer collaborative text client, as a verified library.
//!
//! The crate holds the decisions of the client: the two protocols it speaks,
//! the pools of peer connections, the single owner of the shared document and
//! the turning of merges into edit events. Sockets, standard streams and
//! task scheduling live with the caller, which feeds events in and carries the
//! returned actions out.

pub mod client;
pub mod control;
pub mod document;
pub mod frame;
pub mod inbound;
pub mod json;
pub mod message;
pub mod notifier;
pub mod outbound;
pub mod text;
pub mod wire;
