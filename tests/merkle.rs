use merkle_toolkit::{hash_nodes, MerkleError, MerkleTree, MAX_DEPTH};
use sha2::{Digest, Sha256};

fn digest_of(data: &[u8]) -> [u8; 32] {
    Sha256::digest(data).into()
}

fn tree_of(n: u32) -> MerkleTree {
    let mut tree = MerkleTree::new(5).unwrap();
    for i in 0..n {
        tree.append_leaf(digest_of(&i.to_le_bytes()));
    }
    tree
}

#[test]
fn test_merkle_root_and_proof() {
    let mut tree = MerkleTree::new(3).unwrap();

    let leaf1 = digest_of(b"leaf1");
    let leaf2 = digest_of(b"leaf2");
    let leaf3 = digest_of(b"leaf3");

    tree.append_leaf(leaf1);
    tree.append_leaf(leaf2);
    tree.append_leaf(leaf3);

    let root = tree.root();

    for i in 0..tree.leaves.len() {
        let leaf = tree.leaves[i];
        let proof_1 = tree.get_proof(i).unwrap();
        assert!(MerkleTree::verify_proof(leaf, &proof_1, i, root));
        let proof_2 = tree.get_proof_optimized(i).unwrap();
        assert!(MerkleTree::verify_proof(leaf, &proof_2, i, root));
        assert_eq!(proof_1, proof_2);
    }
}

#[test]
fn test_invalid_proof_fails() {
    let mut tree = MerkleTree::new(3).unwrap();

    tree.append_leaf(digest_of(b"a"));
    tree.append_leaf(digest_of(b"b"));

    let bad_leaf = digest_of(b"c");
    let proof = tree.get_proof(0).unwrap();
    let root = tree.root();

    assert!(!MerkleTree::verify_proof(bad_leaf, &proof, 0, root));
}

#[test]
fn hash_nodes_hashes_the_concatenation() {
    let left = digest_of(b"left");
    let right = digest_of(b"right");
    let mut joined = left.to_vec();
    joined.extend_from_slice(&right);
    assert_eq!(hash_nodes(left, right), digest_of(&joined));
    assert_ne!(hash_nodes(left, right), hash_nodes(right, left));
    assert_ne!(hash_nodes(left, right), left);
}

#[test]
fn hash_nodes_of_two_zero_digests() {
    let expected: [u8; 32] = [
        0xf5, 0xa5, 0xfd, 0x42, 0xd1, 0x6a, 0x20, 0x30, 0x27, 0x98, 0xef, 0x6e, 0xd3, 0x09, 0x97,
        0x9b, 0x43, 0x00, 0x3d, 0x23, 0x20, 0xd9, 0xf0, 0xe8, 0xea, 0x98, 0x31, 0xa9, 0x27, 0x59,
        0xfb, 0x4b,
    ];
    assert_eq!(hash_nodes([0u8; 32], [0u8; 32]), expected);
}

#[test]
fn new_accepts_depths_up_to_the_maximum() {
    let tree = MerkleTree::new(MAX_DEPTH).unwrap();
    assert_eq!(tree.depth, 27);
    assert!(tree.leaves.is_empty());
    assert!(MerkleTree::new(0).is_ok());
}

#[test]
fn new_rejects_too_large_depth() {
    assert_eq!(MerkleTree::new(28).unwrap_err(), MerkleError::DepthTooLarge);
    assert_eq!(MerkleTree::new(usize::MAX).unwrap_err(), MerkleError::DepthTooLarge);
}

#[test]
fn append_keeps_insertion_order() {
    let mut tree = MerkleTree::new(2).unwrap();
    let a = digest_of(b"a");
    tree.append_leaf(a);
    tree.append_leaf(a);
    tree.append_leaf(digest_of(b"b"));
    assert_eq!(tree.leaves, vec![a, a, digest_of(b"b")]);
}

#[test]
fn empty_tree_root_is_zero() {
    let tree = MerkleTree::new(3).unwrap();
    assert_eq!(tree.root(), [0u8; 32]);
}

#[test]
fn single_leaf_is_its_own_root() {
    let mut tree = MerkleTree::new(0).unwrap();
    let leaf = digest_of(b"only");
    tree.append_leaf(leaf);
    assert_eq!(tree.root(), leaf);
    assert!(tree.get_proof(0).unwrap().is_empty());
    assert!(tree.get_proof_optimized(0).unwrap().is_empty());
    assert!(MerkleTree::verify_proof(leaf, &[], 0, leaf));
}

#[test]
fn root_of_four_leaves() {
    let tree = tree_of(4);
    let l = &tree.leaves;
    let expected = hash_nodes(hash_nodes(l[0], l[1]), hash_nodes(l[2], l[3]));
    assert_eq!(tree.root(), expected);
}

#[test]
fn three_leaves_pad_with_zero_digest() {
    let mut tree = MerkleTree::new(3).unwrap();
    let l1 = digest_of(b"leaf1");
    let l2 = digest_of(b"leaf2");
    let l3 = digest_of(b"leaf3");
    tree.append_leaf(l1);
    tree.append_leaf(l2);
    tree.append_leaf(l3);
    let right = hash_nodes(l3, [0u8; 32]);
    assert_ne!(right, hash_nodes(l3, l3));
    let root = tree.root();
    assert_eq!(root, hash_nodes(hash_nodes(l1, l2), right));
    let proof = tree.get_proof(2).unwrap();
    assert_eq!(proof, vec![[0u8; 32], hash_nodes(l1, l2)]);
    for i in 0..3 {
        let p = tree.get_proof(i).unwrap();
        assert!(MerkleTree::verify_proof(tree.leaves[i], &p, i, root));
    }
}

#[test]
fn root_is_deterministic_and_order_sensitive() {
    let a = tree_of(5);
    let b = tree_of(5);
    assert_eq!(a.root(), b.root());
    let mut swapped = MerkleTree::new(5).unwrap();
    let mut leaves = a.leaves.clone();
    leaves.swap(1, 3);
    for leaf in leaves {
        swapped.append_leaf(leaf);
    }
    assert_ne!(a.root(), swapped.root());
    let mut other_depth = MerkleTree::new(20).unwrap();
    for leaf in &a.leaves {
        other_depth.append_leaf(*leaf);
    }
    assert_eq!(a.root(), other_depth.root());
}

#[test]
fn both_generators_agree_and_round_trip() {
    for n in 1..=17u32 {
        let tree = tree_of(n);
        let root = tree.root();
        for i in 0..tree.leaves.len() {
            let naive = tree.get_proof(i).unwrap();
            let cached = tree.get_proof_optimized(i).unwrap();
            assert_eq!(naive, cached);
            assert!(MerkleTree::verify_proof(tree.leaves[i], &naive, i, root));
        }
    }
}

#[test]
fn tampering_with_any_input_fails_verification() {
    let tree = tree_of(6);
    let root = tree.root();
    for i in 0..tree.leaves.len() {
        let leaf = tree.leaves[i];
        let proof = tree.get_proof(i).unwrap();
        for byte in [0usize, 17, 31] {
            let mut bad_leaf = leaf;
            bad_leaf[byte] ^= 1;
            assert!(!MerkleTree::verify_proof(bad_leaf, &proof, i, root));
            let mut bad_root = root;
            bad_root[byte] ^= 0x80;
            assert!(!MerkleTree::verify_proof(leaf, &proof, i, bad_root));
            for k in 0..proof.len() {
                let mut bad_proof = proof.clone();
                bad_proof[k][byte] ^= 1;
                assert!(!MerkleTree::verify_proof(leaf, &bad_proof, i, root));
            }
        }
    }
}

#[test]
fn wrong_index_or_length_fails_verification() {
    let tree = tree_of(4);
    let root = tree.root();
    let proof = tree.get_proof(1).unwrap();
    assert!(!MerkleTree::verify_proof(tree.leaves[1], &proof, 0, root));
    assert!(!MerkleTree::verify_proof(tree.leaves[1], &proof[..1], 1, root));
    let mut longer = proof.clone();
    longer.push([0u8; 32]);
    assert!(!MerkleTree::verify_proof(tree.leaves[1], &longer, 1, root));
}

#[test]
fn proof_index_out_of_range_is_refused() {
    let tree = tree_of(3);
    assert_eq!(tree.get_proof(3).unwrap_err(), MerkleError::IndexOutOfRange);
    assert_eq!(tree.get_proof_optimized(3).unwrap_err(), MerkleError::IndexOutOfRange);
    assert_eq!(tree.get_proof(usize::MAX).unwrap_err(), MerkleError::IndexOutOfRange);
    let empty = MerkleTree::new(1).unwrap();
    assert_eq!(empty.get_proof(0).unwrap_err(), MerkleError::IndexOutOfRange);
    assert_eq!(empty.get_proof_optimized(0).unwrap_err(), MerkleError::IndexOutOfRange);
}
