//! TentHash: a portable 160-bit non-cryptographic hash function for data
//! identification and content-addressable storage.
//!
//! TentHash is built for robustness and auditability under non-adversarial
//! conditions, not for security: anyone who knows the algorithm can run the
//! mixing permutation backwards and construct colliding inputs at will.
//!
//! The crate offers a one-shot entry point ([`hash`]) and a streaming hasher
//! ([`TentHash`]) that produce identical digests for identical byte streams,
//! no matter how the stream is split into chunks.  Both are specified against
//! a single mathematical model of the hash ([`model::tent_digest`]), so the
//! chunk-independence of the streaming interface is a verified property
//! rather than a convention.

pub mod avalanche;
pub mod collision;
pub mod digest;
pub mod hasher;
pub mod laws;
pub mod mixer;
pub mod model;
pub mod stats;

pub use digest::DigestExt;
pub use hasher::hash;
pub use hasher::TentHash;
pub use mixer::mix_state;
pub use mixer::unmix_state;
