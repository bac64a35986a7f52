//! A signed data envelope that binds a payload to a chain of trust.

pub mod be32;
pub mod sig;
pub mod envelope;
pub mod laws;
