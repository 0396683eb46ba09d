//! A single-credential-per-identity access registry: an admin issues one
//! credential token to an identity, and relying parties ask whether that
//! identity currently holds an active credential.
pub mod digest;
pub mod laws;
pub mod registry;
pub mod store;
