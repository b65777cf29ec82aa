use license_ledger::digest::{Digest, Hashable};
use license_ledger::merkle::{MerkleNode, MerkleTree};

#[test]
fn test() {
    MerkleTree::new(&Vec::<u8>::new());
    MerkleTree::new::<u8>(&[1]);
    MerkleTree::new::<u8>(&[1, 2]);
    MerkleTree::new::<u8>(&[1, 2, 3]);
    MerkleTree::new::<u8>(&[1, 2, 3, 4]);
    MerkleTree::new::<u8>(&[1, 2, 3, 4, 5]);
}

#[test]
fn empty_tree_has_empty_digest() {
    let tree = MerkleTree::new(&Vec::<u8>::new());
    assert!(tree.hash() == Digest::empty());
    assert_eq!(tree.leaves(), 0);
    assert_eq!(MerkleTree::new::<u8>(&[1, 2, 3]).leaves(), 3);
    let empty = Digest::<()>::empty();
    assert_eq!(&empty.get_bytes()[0..4], &[0xe3, 0xb0, 0xc4, 0x42]);
}

#[test]
fn single_leaf_root_is_leaf_digest() {
    let tree = MerkleTree::new::<u8>(&[1]);
    assert!(tree.hash().cast::<u8>() == 1u8.hash());
}

#[test]
fn two_leaves_root_is_merge() {
    let nodes = vec![MerkleNode::new(&1u8), MerkleNode::new(&2u8)];
    let parent = MerkleNode::merge(&nodes, 0, 1);
    let tree = MerkleTree::new::<u8>(&[1, 2]);
    assert!(tree.hash().cast() == parent.hash());
    assert!(parent.hash() != MerkleNode::merge(&nodes, 1, 0).hash());
}

#[test]
fn odd_node_is_carried_unchanged() {
    let nodes = vec![
        MerkleNode::new(&1u8),
        MerkleNode::new(&2u8),
        MerkleNode::new(&3u8),
    ];
    let mut all = nodes;
    let p = MerkleNode::merge(&all, 0, 1);
    all.push(p);
    let root = MerkleNode::merge(&all, 3, 2);
    let tree = MerkleTree::new::<u8>(&[1, 2, 3]);
    assert!(tree.hash().cast() == root.hash());
}

#[test]
fn merkle_is_deterministic() {
    for n in 1..=5u8 {
        let leaves: Vec<u8> = (1..=n).collect();
        let a = MerkleTree::new(&leaves);
        let b = MerkleTree::new(&leaves);
        assert!(a == b);
        assert!(a.hash() == b.hash());
    }
}

#[test]
fn reordering_changes_root() {
    let a = MerkleTree::new::<u8>(&[1, 2, 3, 4, 5]);
    let b = MerkleTree::new::<u8>(&[2, 1, 3, 4, 5]);
    let c = MerkleTree::new::<u8>(&[1, 2, 3, 5, 4]);
    assert!(a != b);
    assert!(a != c);
}

#[test]
fn empty_node_has_empty_digest() {
    assert!(MerkleNode::empty().hash() == Digest::empty());
}
