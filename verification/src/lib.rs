//! Verified core of a small map-reduce service in which workers prove, with
//! zero-knowledge proofs, that they ran the requested computation.

pub mod client_route;
pub mod decimal;
pub mod encoding;
pub mod miden;
pub mod prover;
pub mod state;
pub mod submit;
pub mod types;
pub mod validation;
