use vstd::prelude::*;

use crate::hash::{hash_nodes, zero_digest};
use crate::model::{
    all_levels, next_level, node_or_zero, path_root, proof_from_levels, proof_of, root_of,
    sibling_index,
};

verus! {

/// The largest depth a tree may be configured with.
pub const MAX_DEPTH: usize = 27;

/// Why a tree operation was refused.
#[derive(Debug, Clone, Copy, PartialEq, Eq, Structural)]
pub enum MerkleError {
    /// The requested depth is larger than `MAX_DEPTH`.
    DepthTooLarge,
    /// The requested leaf index is not below the number of leaves.
    IndexOutOfRange,
}

/// A binary Merkle tree over 32-byte leaf digests, kept as its ordered
/// leaves; every level above them is rebuilt on demand.
///
/// `depth` records the configured height. It is advisory: appending more
/// than `2^depth` leaves is not refused, and every operation is defined for
/// any number of leaves.
///
/// A tree may be read by many callers at once, as long as none appends.
#[derive(Debug, Clone)]
pub struct MerkleTree {
    pub depth: usize,
    pub leaves: Vec<[u8; 32]>,
}

/// The sibling of position `i` on `level`, or the zero digest where the
/// level has no such position.
fn sibling_or_zero(level: &Vec<[u8; 32]>, i: usize) -> (r: [u8; 32])
    ensures
        r == node_or_zero(level@, sibling_index(i as nat)),
{
    if i % 2 == 0 {
        if i < level.len() && i + 1 < level.len() {
            level[i + 1]
        } else {
            [0u8; 32]
        }
    } else {
        if i - 1 < level.len() {
            level[i - 1]
        } else {
            [0u8; 32]
        }
    }
}

/// Folds one level into the level above it.
fn fold_level(level: &Vec<[u8; 32]>) -> (r: Vec<[u8; 32]>)
    ensures
        r@ == next_level(level@),
{
    let n = level.len();
    let half: usize = n / 2 + n % 2;
    let mut next: Vec<[u8; 32]> = Vec::with_capacity(half);
    let mut j: usize = 0;
    while j < half
        invariant
            n == level.len(),
            half == (n + 1) / 2,
            j <= half,
            next@ =~= next_level(level@).take(j as int),
        decreases half - j,
    {
        let left = level[2 * j];
        let right = if 2 * j + 1 < n {
            level[2 * j + 1]
        } else {
            [0u8; 32]
        };
        next.push(hash_nodes(left, right));
        j = j + 1;
    }
    assert(next@ =~= next_level(level@));
    next
}

/// A fresh copy of a level.
fn copy_level(level: &Vec<[u8; 32]>) -> (r: Vec<[u8; 32]>)
    ensures
        r@ == level@,
{
    let mut out: Vec<[u8; 32]> = Vec::with_capacity(level.len());
    let mut i: usize = 0;
    while i < level.len()
        invariant
            i <= level.len(),
            out@ == level@.take(i as int),
        decreases level.len() - i,
    {
        out.push(level[i]);
        i = i + 1;
        assert(out@ =~= level@.take(i as int));
    }
    assert(level@.take(i as int) =~= level@);
    out
}

/// Byte-wise equality of two digests.
fn digests_equal(a: &[u8; 32], b: &[u8; 32]) -> (r: bool)
    ensures
        r == (*a == *b),
{
    broadcast use vstd::array::group_array_axioms;
    let mut i: usize = 0;
    while i < 32
        invariant
            i <= 32,
            forall|k: int| 0 <= k < i ==> a[k] == b[k],
        decreases 32 - i,
    {
        if a[i] != b[i] {
            return false;
        }
        i = i + 1;
    }
    assert(*a =~= *b);
    true
}

impl MerkleTree {
    /// The tree's configured depth is within the supported range.
    pub open spec fn wf(&self) -> bool {
        self.depth <= MAX_DEPTH
    }

    /// An empty tree of the given depth; refused when the depth is larger
    /// than `MAX_DEPTH`.
    pub fn new(depth: usize) -> (r: Result<MerkleTree, MerkleError>)
        ensures
            r is Ok <==> depth <= MAX_DEPTH,
            r is Ok ==> r->Ok_0.depth == depth && r->Ok_0.leaves@ == Seq::<[u8; 32]>::empty()
                && r->Ok_0.wf(),
            r is Err ==> r->Err_0 == MerkleError::DepthTooLarge,
    {
        if depth > MAX_DEPTH {
            return Err(MerkleError::DepthTooLarge);
        }
        Ok(MerkleTree { depth, leaves: Vec::new() })
    }

    /// Appends a leaf after the existing ones.
    pub fn append_leaf(&mut self, leaf: [u8; 32])
        ensures
            final(self).leaves@ == old(self).leaves@.push(leaf),
            final(self).depth == old(self).depth,
    {
        self.leaves.push(leaf);
    }

    /// The root of the tree; the zero digest when it has no leaves.
    pub fn root(&self) -> (r: [u8; 32])
        ensures
            r == root_of(self.leaves@),
            self.leaves@.len() == 0 ==> r == zero_digest(),
    {
        let mut level = copy_level(&self.leaves);
        while level.len() > 1
            invariant
                root_of(level@) == root_of(self.leaves@),
            decreases level.len(),
        {
            level = fold_level(&level);
        }
        if level.len() == 0 {
            [0u8; 32]
        } else {
            level[0]
        }
    }

    /// The audit path of the leaf at `index`, built by folding the whole tree
    /// level by level and taking the sibling on each level on the way up.
    pub fn get_proof(&self, index: usize) -> (r: Result<Vec<[u8; 32]>, MerkleError>)
        ensures
            r is Ok <==> index < self.leaves@.len(),
            r is Ok ==> r->Ok_0@ == proof_of(self.leaves@, index as nat),
            r is Err ==> r->Err_0 == MerkleError::IndexOutOfRange,
    {
        if index >= self.leaves.len() {
            return Err(MerkleError::IndexOutOfRange);
        }
        let mut proof: Vec<[u8; 32]> = Vec::new();
        let mut current_index = index;
        let mut level = copy_level(&self.leaves);
        assert(proof@ + proof_of(level@, index as nat) =~= proof_of(self.leaves@, index as nat));
        while level.len() > 1
            invariant
                proof@ + proof_of(level@, current_index as nat) == proof_of(
                    self.leaves@,
                    index as nat,
                ),
            decreases level.len(),
        {
            let sibling = sibling_or_zero(&level, current_index);
            let ghost before = proof@;
            proof.push(sibling);
            let ghost rest = proof_of(next_level(level@), (current_index / 2) as nat);
            assert(proof@ + rest =~= before + proof_of(level@, current_index as nat));
            level = fold_level(&level);
            current_index = current_index / 2;
        }
        assert(proof@ + proof_of(level@, current_index as nat) =~= proof@);
        Ok(proof)
    }

    /// The audit path of the leaf at `index`, built by computing every level
    /// once, keeping them all, and reading the siblings off the kept levels.
    pub fn get_proof_optimized(&self, index: usize) -> (r: Result<Vec<[u8; 32]>, MerkleError>)
        ensures
            r is Ok <==> index < self.leaves@.len(),
            r is Ok ==> r->Ok_0@ == proof_from_levels(all_levels(self.leaves@), index as nat),
            r is Err ==> r->Err_0 == MerkleError::IndexOutOfRange,
    {
        if index >= self.leaves.len() {
            return Err(MerkleError::IndexOutOfRange);
        }
        let ghost target = all_levels(self.leaves@);
        let mut levels: Vec<Vec<[u8; 32]>> = Vec::new();
        let mut current = copy_level(&self.leaves);
        assert(levels_view(levels@) + all_levels(current@) =~= target);
        while current.len() > 1
            invariant
                levels_view(levels@) + all_levels(current@) == target,
            decreases current.len(),
        {
            let next = fold_level(&current);
            let ghost before = levels_view(levels@);
            let ghost cur = current@;
            levels.push(current);
            assert(levels_view(levels@) =~= before.push(cur));
            assert(levels_view(levels@) + all_levels(next@) =~= before + all_levels(cur));
            current = next;
        }
        let ghost before = levels_view(levels@);
        let ghost cur = current@;
        levels.push(current);
        assert(levels_view(levels@) =~= before.push(cur));
        assert(levels_view(levels@) =~= target);

        let mut proof: Vec<[u8; 32]> = Vec::new();
        let mut current_index = index;
        let mut k: usize = 0;
        assert(levels_view(levels@).skip(0) =~= target);
        assert(proof@ + proof_from_levels(target, index as nat) =~= proof_from_levels(
            target,
            index as nat,
        ));
        while k + 1 < levels.len()
            invariant
                levels_view(levels@) == target,
                k < levels.len(),
                proof@ + proof_from_levels(target.skip(k as int), current_index as nat)
                    == proof_from_levels(target, index as nat),
            decreases levels.len() - k,
        {
            let sibling = sibling_or_zero(&levels[k], current_index);
            let ghost before = proof@;
            let ghost tail = target.skip(k as int);
            assert(tail[0] == levels@[k as int]@);
            assert(tail.drop_first() =~= target.skip(k + 1));
            proof.push(sibling);
            assert(proof@ + proof_from_levels(target.skip(k + 1), (current_index / 2) as nat)
                =~= before + proof_from_levels(tail, current_index as nat));
            current_index = current_index / 2;
            k = k + 1;
        }
        assert(proof@ + proof_from_levels(target.skip(k as int), current_index as nat) =~= proof@);
        Ok(proof)
    }

    /// Whether walking `proof` from `leaf` at position `index` arrives at
    /// `root`. A wrong leaf, sibling, index, length or root all give `false`.
    pub fn verify_proof(leaf: [u8; 32], proof: &[[u8; 32]], index: usize, root: [u8; 32]) -> (r:
        bool)
        ensures
            r == (path_root(leaf, proof@, index as nat) == root),
    {
        let mut computed_hash = leaf;
        let mut idx = index;
        let mut i: usize = 0;
        assert(proof@.skip(0) =~= proof@);
        while i < proof.len()
            invariant
                i <= proof@.len(),
                path_root(computed_hash, proof@.skip(i as int), idx as nat) == path_root(
                    leaf,
                    proof@,
                    index as nat,
                ),
            decreases proof@.len() - i,
        {
            let sibling = proof[i];
            assert(proof@.skip(i as int).drop_first() =~= proof@.skip(i + 1));
            computed_hash = if idx % 2 == 0 {
                hash_nodes(computed_hash, sibling)
            } else {
                hash_nodes(sibling, computed_hash)
            };
            idx = idx / 2;
            i = i + 1;
        }
        digests_equal(&computed_hash, &root)
    }
}

/// The contents of each kept level.
spec fn levels_view(levels: Seq<Vec<[u8; 32]>>) -> Seq<Seq<[u8; 32]>> {
    levels.map_values(|v: Vec<[u8; 32]>| v@)
}

} // verus!
