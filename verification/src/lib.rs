//! Core state of a generalized message-passing router.
//!
//! An integrator application registers with the router, manages a set of
//! adapter relayers ("transceivers") per destination or source chain, sends
//! outbound messages with strictly increasing sequence numbers, and collects
//! independent adapter attestations for inbound messages until a quorum of
//! the currently enabled receive adapters has attested.
//!
//! The router state here is a pure in-memory model: the persistent keyed
//! storage and the signature checks that surround it on chain are collaborators
//! outside this crate. Every operation takes the caller's identity as a plain
//! value and either commits its whole effect or returns an error and changes
//! nothing.

pub mod address;
pub mod admin;
pub mod bitmap;
pub mod chain_config;
pub mod config;
pub mod errors;
pub mod integrator;
pub mod laws;
pub mod messages;
pub mod router;
