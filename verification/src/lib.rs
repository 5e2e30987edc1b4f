//! A secure-messaging substrate: workers exchange typed messages across
//! transports, identified by addresses and authenticated through
//! cryptographically verifiable identities.
//!
//! The heart of the crate is the identity change-history engine: an
//! append-only, hash-linked log of key-management events, together with the
//! verifier that decides whether a log can be trusted before its owner is
//! allowed to establish a secure channel or present a credential.

pub mod change_events;
pub mod change_history;
pub mod command;
pub mod compare;
pub mod door;
pub mod entity_id;
pub mod error;
pub mod github;
pub mod mailbox;
pub mod ping_pong;
pub mod router;
pub mod tcp_router;
pub mod transport;
pub mod routing;
pub mod vault;
pub mod worker;
