//! Session layer of an AMQP 1.0 protocol engine.
//!
//! A session is one logical multiplexed channel over a shared connection.
//! This crate holds the verified core of that layer: link-attach negotiation,
//! credit-based flow control with a backlog of transfers awaiting credit, and
//! settlement tracking keyed by delivery identifiers.  Wire encoding, the
//! connection multiplexer and the asynchronous plumbing around the engine are
//! collaborators; the engine turns inbound performatives into state changes
//! and a list of effects (frames to post, promises to fulfil) that the caller
//! carries out.

pub mod frames;
pub mod laws;
pub mod ledger;
pub mod links;
pub mod session;
