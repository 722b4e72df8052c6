//! A pairing-based cryptographic accumulator over BLS12-381.
pub mod accumulator;
pub mod binding;
pub mod error;
pub mod field;
pub mod group;
pub mod keys;
pub mod laws;
pub mod witness;
pub mod zkproof;

pub use accumulator::{Accumulator, Element};
pub use error::AccumulatorError;
pub use field::Scalar;
pub use keys::{PublicKey, SecretKey};
pub use witness::{MembershipWitness, NonMembershipWitness};
pub use zkproof::{MembershipProof, ProofCommitment};
