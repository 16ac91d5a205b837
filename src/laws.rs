use vstd::prelude::*;

use crate::hash::combine;
use crate::model::{
    all_levels, next_level, node_or_zero, path_root, proof_from_levels, proof_of, root_of,
    sibling_index,
};
use crate::tree::MerkleTree;

verus! {

/// The root depends on the sequence of leaves alone: two trees holding the
/// same leaves, whatever their configured depths, have the same root.
pub proof fn lemma_root_depends_on_leaves_only(a: MerkleTree, b: MerkleTree)
    requires
        a.leaves@ == b.leaves@,
    ensures
        root_of(a.leaves@) == root_of(b.leaves@),
{
}

/// Reading the audit path off the cached levels gives exactly the path that
/// folding the levels one at a time gives, for every position.
pub proof fn lemma_proof_variants_agree(leaves: Seq<[u8; 32]>, index: nat)
    ensures
        proof_from_levels(all_levels(leaves), index) == proof_of(leaves, index),
    decreases leaves.len(),
{
    if leaves.len() > 1 {
        let levels = all_levels(leaves);
        assert(levels.drop_first() =~= all_levels(next_level(leaves)));
        lemma_proof_variants_agree(next_level(leaves), index / 2);
    }
}

/// Walking the audit path of any leaf from that leaf, at its position,
/// arrives at the root of the leaves.
pub proof fn lemma_round_trip(leaves: Seq<[u8; 32]>, index: nat)
    requires
        index < leaves.len(),
    ensures
        path_root(leaves[index as int], proof_of(leaves, index), index) == root_of(leaves),
    decreases leaves.len(),
{
    if leaves.len() > 1 {
        let next = next_level(leaves);
        let proof = proof_of(leaves, index);
        let sibling = node_or_zero(leaves, sibling_index(index));
        let leaf = leaves[index as int];
        assert(proof.drop_first() =~= proof_of(next, index / 2));
        if index % 2 == 0 {
            assert(next[(index / 2) as int] == combine(leaf, sibling));
        } else {
            assert(next[(index / 2) as int] == combine(sibling, leaf));
        }
        lemma_round_trip(next, index / 2);
    }
}

/// A claimed root other than the true root is never reached by walking the
/// genuine audit path of a genuine leaf.
pub proof fn lemma_wrong_root_rejected(leaves: Seq<[u8; 32]>, index: nat, claimed: [u8; 32])
    requires
        index < leaves.len(),
        claimed != root_of(leaves),
    ensures
        path_root(leaves[index as int], proof_of(leaves, index), index) != claimed,
{
    lemma_round_trip(leaves, index);
}

} // verus!
