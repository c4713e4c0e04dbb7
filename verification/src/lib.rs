//! A treasury-governance engine for a membership organization.
//!
//! Members deposit tokens of an external ledger and receive shares one for one. They
//! propose payments out of the treasury, vote with the weight of their shares, and
//! execute a proposal once its voting period has passed: it is paid out if a quorum
//! of the shares voted, and rejected otherwise.
//!
//! The library holds the accounting and the proposal state machine. It performs no
//! transfer itself: an operation that moves funds is split into a step that validates
//! and says which transfer to request, and a step that takes the ledger's answer and
//! commits. The host runs the transfer between the two.

pub mod errors;
pub mod governance;
pub mod identity;
pub mod laws;
pub mod ledger;
pub mod model;
pub mod payloads;
pub mod proposals;
pub mod tokens;
pub mod treasury;
