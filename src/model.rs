use vstd::prelude::*;

use crate::hash::{combine, zero_digest};

verus! {

/// The node at position `j` of a level, or the zero digest where the level
/// has no such position.
pub open spec fn node_or_zero(level: Seq<[u8; 32]>, j: int) -> [u8; 32] {
    if 0 <= j < level.len() {
        level[j]
    } else {
        zero_digest()
    }
}

/// The position paired with position `i` on its level.
pub open spec fn sibling_index(i: nat) -> int {
    if i % 2 == 0 {
        i as int + 1
    } else {
        i as int - 1
    }
}

/// The level above `level`: consecutive pairs hashed together, and an
/// unpaired last node hashed with the zero digest.
pub open spec fn next_level(level: Seq<[u8; 32]>) -> Seq<[u8; 32]> {
    Seq::new(
        ((level.len() + 1) / 2) as nat,
        |i: int| combine(level[2 * i], node_or_zero(level, 2 * i + 1)),
    )
}

/// The root committed to by a sequence of leaves; the zero digest when
/// there are none.
pub open spec fn root_of(level: Seq<[u8; 32]>) -> [u8; 32]
    decreases level.len(),
{
    if level.len() == 0 {
        zero_digest()
    } else if level.len() == 1 {
        level[0]
    } else {
        root_of(next_level(level))
    }
}

/// The audit path of position `index`: one sibling per level, bottom up,
/// each level folded into the next in turn.
pub open spec fn proof_of(level: Seq<[u8; 32]>, index: nat) -> Seq<[u8; 32]>
    decreases level.len(),
{
    if level.len() <= 1 {
        Seq::empty()
    } else {
        seq![node_or_zero(level, sibling_index(index))] + proof_of(next_level(level), index / 2)
    }
}

/// Every level of the tree, from the leaves up to the level of length at
/// most one.
pub open spec fn all_levels(level: Seq<[u8; 32]>) -> Seq<Seq<[u8; 32]>>
    decreases level.len(),
{
    if level.len() <= 1 {
        seq![level]
    } else {
        seq![level] + all_levels(next_level(level))
    }
}

/// The audit path of position `index` read off a list of levels: the
/// sibling on each level but the last.
pub open spec fn proof_from_levels(levels: Seq<Seq<[u8; 32]>>, index: nat) -> Seq<[u8; 32]>
    decreases levels.len(),
{
    if levels.len() <= 1 {
        Seq::empty()
    } else {
        seq![node_or_zero(levels[0], sibling_index(index))] + proof_from_levels(
            levels.drop_first(),
            index / 2,
        )
    }
}

/// The root reached from `node` at position `index` by hashing in each
/// sibling of `proof` in turn, on the side that the position's low bit picks.
pub open spec fn path_root(node: [u8; 32], proof: Seq<[u8; 32]>, index: nat) -> [u8; 32]
    decreases proof.len(),
{
    if proof.len() == 0 {
        node
    } else {
        let parent = if index % 2 == 0 {
            combine(node, proof[0])
        } else {
            combine(proof[0], node)
        };
        path_root(parent, proof.drop_first(), index / 2)
    }
}

} // verus!
