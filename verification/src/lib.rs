//! Merkle commitments over byte records and proof-of-work sealing of blocks.
//!
//! [`blocks::merkle_tree`] builds a binary hash tree over an ordered list of
//! records and exposes its root digest; [`blocks::commitment`] states what
//! that root says about the records. [`blocks`] combines the root with block
//! metadata and searches for a nonce whose digest starts with a required
//! number of zero bytes, taking candidates from a source in [`nonces`].
//!
//! The hash function is SHA3-256 from the `sha3` crate ([`hash`]); the
//! identifier, the clock and the random nonces come from outside as well
//! ([`sources`]). Everything else is verified against the contracts stated
//! here.

pub mod encoding;
pub mod hash;
pub mod nonces;
pub mod sources;
pub mod blocks;
