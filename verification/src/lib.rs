//! A claim-ownership registry: accounts register claims on opaque byte-string
//! identifiers, prove priority by the ledger position recorded at creation,
//! transfer a claim to another account, or revoke it.
//!
//! The registry is a pure state machine: each operation is a function of the
//! current map state, the authenticated caller, and the arguments supplied by
//! the host. The host is responsible for authentication, persistence, and the
//! ledger-position counter; the registry decides which transitions are legal
//! and what each one changes.

pub mod laws;
pub mod model;
pub mod registry;
