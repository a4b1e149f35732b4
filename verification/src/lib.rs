//! Protocol engine for a process-local authentication agent.
//!
//! The crate verifies the decision logic of the agent: the line-oriented
//! codec spoken with the privileged verification helper, the choice of
//! transport towards that helper, the classification of inbound user
//! events, and the per-request session state machine that emits events
//! towards a presentation surface. The surrounding I/O (channels, sockets,
//! subprocess plumbing) is left to the embedding binary.

pub mod config;
pub mod events;
pub mod text;
pub mod codec;
pub mod transport;
pub mod agent;
