//! A reverse port-forwarding rendezvous library.
//!
//! Authenticated edge agents ("nodes") expose local TCP services through a
//! central rendezvous server to authorized clients.  Control traffic runs
//! over a length-prefixed, RSA-block-encrypted message channel (the tunnel);
//! the server classifies each connection, authenticates it against a
//! credential store, and pairs a node-side "share" half with a client-side
//! "receive" half under a shared routing id before splicing raw bytes.
//!
//! This crate holds the verified core: the framing codec, the tunnel state
//! machine, the command protocol with its permission model, the
//! per-connection state machine and the rendezvous registry.  Socket I/O,
//! timers and the credential store live outside and drive the core with
//! plain values.

pub mod client;
pub mod command;
pub mod connection;
pub mod error;
pub mod frame;
pub mod keys;
pub mod mtls;
pub mod permission;
pub mod registry;
pub mod wire;
