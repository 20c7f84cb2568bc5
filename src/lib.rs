//! Verified core of a verifiable-credential issuer: the per-holder challenge
//! registry, the dual (DID key + wallet key) proof of control, the issuance
//! state machine, the on-chain event check and the presentation gate.

pub mod errors;
pub mod models;
pub mod challenges;
pub mod encoding;
pub mod holder_proofs;
pub mod chain;
pub mod issuance;
pub mod presentation;
