//! A single-issuance attestation token ledger.
//!
//! For every project identifier at most one token is ever minted. Each token
//! carries immutable metadata and is indexed by owner and by project. The
//! ledger is a plain state value: the host hands in the caller's identity and
//! the logical time with each call and sends out the recorded notifications.

pub mod ids;
pub mod record;
pub mod model;
pub mod table;
pub mod store;
pub mod ledger;
pub mod laws;
