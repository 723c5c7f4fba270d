//! Verified core of the XLM name service: the resolver contract's storage
//! model and rules, and the command-line policy decisions.
pub mod table;
pub mod record;
pub mod resolver;
pub mod laws;
pub mod policy;
pub mod availability;
pub mod signer;
pub mod footprint;
