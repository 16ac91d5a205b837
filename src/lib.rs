//! A binary Merkle tree over 32-byte digests: root computation, membership
//! proofs (audit paths) built two ways, and proof verification, each proved
//! against a mathematical model of the tree.
mod hash;
pub mod laws;
pub mod model;
mod tree;

pub use hash::hash_nodes;
pub use tree::{MerkleError, MerkleTree, MAX_DEPTH};
