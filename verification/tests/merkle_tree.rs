use blockchain::blocks::merkle_tree::{MerkleError, MerkleNode, MerkleTree};
use sha3::{Digest, Sha3_256};

const RECORD_1: &[u8] = b"Transaction 1";
const RECORD_2: &[u8] = b"Transaction 2";
const RECORD_3: &[u8] = b"Transaction 3";

fn hex(bytes: &[u8]) -> String {
    let mut out = String::new();
    for byte in bytes {
        out.push_str(&format!("{:02x}", byte));
    }
    out
}

fn sha3(bytes: &[u8]) -> [u8; 32] {
    Sha3_256::digest(bytes).into()
}

fn sha3_pair(left: &[u8; 32], right: &[u8; 32]) -> [u8; 32] {
    let mut joined = left.to_vec();
    joined.extend_from_slice(right);
    sha3(&joined)
}

#[test]
fn leaf_holds_the_digest_of_its_record() {
    let leaf = MerkleNode::new_leaf(RECORD_1);
    assert_eq!(
        hex(leaf.get_hash()),
        "5d8578b6c79c4ccaaa0bc8be83e7b9893331000519bee7812463711ac1e7cc41"
    );
}

#[test]
fn leaf_of_the_empty_record_holds_the_digest_of_no_bytes() {
    let leaf = MerkleNode::new_leaf(b"");
    assert_eq!(
        hex(leaf.get_hash()),
        "a7ffc6f8bf1ed76651c14756a061d662f580ff4de43b49fa82d80a4b80f8434a"
    );
}

#[test]
fn leaf_is_a_leaf() {
    let leaf = MerkleNode::new_leaf(RECORD_2);
    assert!(matches!(leaf, MerkleNode::Leaf { .. }));
}

#[test]
fn internal_node_hashes_left_then_right() {
    let node = MerkleNode::new_internal(
        MerkleNode::new_leaf(RECORD_1),
        MerkleNode::new_leaf(RECORD_2),
    );
    assert_eq!(
        hex(node.get_hash()),
        "e0098ff2674653fa423bc6a20f917a7ed1b02e454a17291169ec38839fd7b64b"
    );
    let reversed = MerkleNode::new_internal(
        MerkleNode::new_leaf(RECORD_2),
        MerkleNode::new_leaf(RECORD_1),
    );
    assert_eq!(
        hex(reversed.get_hash()),
        "78c7eed5cd03e622c8e88bd44b9bea634f6eee0b9c3d2a28b3337aad1a118d77"
    );
}

#[test]
fn internal_node_keeps_its_children() {
    let node = MerkleNode::new_internal(
        MerkleNode::new_leaf(RECORD_1),
        MerkleNode::new_leaf(RECORD_2),
    );
    match node {
        MerkleNode::Internal { left, right, hash } => {
            assert_eq!(*left.get_hash(), sha3(RECORD_1));
            assert_eq!(*right.get_hash(), sha3(RECORD_2));
            assert_eq!(hash, sha3_pair(&sha3(RECORD_1), &sha3(RECORD_2)));
        }
        MerkleNode::Leaf { .. } => panic!("two children were joined"),
    }
}

#[test]
fn empty_list_is_rejected() {
    let records: [&[u8]; 0] = [];
    let result = MerkleTree::new(&records);
    assert_eq!(result.err(), Some(MerkleError::NoRecords));
}

#[test]
fn single_record_root_is_its_leaf_hash() {
    let records: [&[u8]; 1] = [RECORD_1];
    let tree = MerkleTree::new(&records).unwrap();
    assert_eq!(*tree.get_root_hash(), sha3(RECORD_1));
    assert_eq!(tree.get_root_hash(), MerkleNode::new_leaf(RECORD_1).get_hash());
    assert_eq!(
        hex(tree.get_root_hash()),
        "5d8578b6c79c4ccaaa0bc8be83e7b9893331000519bee7812463711ac1e7cc41"
    );
}

#[test]
fn single_empty_record_is_accepted() {
    let records: [&[u8]; 1] = [b""];
    let tree = MerkleTree::new(&records).unwrap();
    assert_eq!(
        hex(tree.get_root_hash()),
        "a7ffc6f8bf1ed76651c14756a061d662f580ff4de43b49fa82d80a4b80f8434a"
    );
}

#[test]
fn two_records_are_joined_in_their_order() {
    let records: [&[u8]; 2] = [RECORD_1, RECORD_2];
    let tree = MerkleTree::new(&records).unwrap();
    assert_eq!(
        hex(tree.get_root_hash()),
        "e0098ff2674653fa423bc6a20f917a7ed1b02e454a17291169ec38839fd7b64b"
    );
}

#[test]
fn two_constructions_give_the_same_root() {
    let records: [&[u8]; 3] = [RECORD_1, RECORD_2, RECORD_3];
    let first = MerkleTree::new(&records).unwrap();
    let second = MerkleTree::new(&records).unwrap();
    assert_eq!(first.get_root_hash(), second.get_root_hash());
}

#[test]
fn root_can_be_read_many_times() {
    let records: [&[u8]; 3] = [RECORD_1, RECORD_2, RECORD_3];
    let tree = MerkleTree::new(&records).unwrap();
    let first = *tree.get_root_hash();
    let second = *tree.get_root_hash();
    assert_eq!(first, second);
}

#[test]
fn swapping_two_records_changes_the_root() {
    let in_order: [&[u8]; 2] = [RECORD_1, RECORD_2];
    let swapped: [&[u8]; 2] = [RECORD_2, RECORD_1];
    let first = MerkleTree::new(&in_order).unwrap();
    let second = MerkleTree::new(&swapped).unwrap();
    assert_ne!(first.get_root_hash(), second.get_root_hash());
    assert_eq!(
        hex(second.get_root_hash()),
        "78c7eed5cd03e622c8e88bd44b9bea634f6eee0b9c3d2a28b3337aad1a118d77"
    );

    let three: [&[u8]; 3] = [RECORD_1, RECORD_2, RECORD_3];
    let three_swapped: [&[u8]; 3] = [RECORD_3, RECORD_2, RECORD_1];
    assert_ne!(
        MerkleTree::new(&three).unwrap().get_root_hash(),
        MerkleTree::new(&three_swapped).unwrap().get_root_hash()
    );
}

#[test]
fn three_records_pair_the_last_two_and_promote_the_first() {
    let records: [&[u8]; 3] = [RECORD_1, RECORD_2, RECORD_3];
    let tree = MerkleTree::new(&records).unwrap();
    assert_eq!(
        hex(tree.get_root_hash()),
        "5fab0ee0a5e96a3a8b4eb43717acc11d1955330d7a79f5fc2a728687665f12a9"
    );

    let last_two = sha3_pair(&sha3(RECORD_2), &sha3(RECORD_3));
    assert_eq!(
        hex(&last_two),
        "36ee0f9b46b7a753a1b5e245e187b3595b0550732dfbdf6f963accbb6899113e"
    );
    assert_eq!(*tree.get_root_hash(), sha3_pair(&last_two, &sha3(RECORD_1)));

    let by_hand = MerkleNode::new_internal(
        MerkleNode::new_internal(
            MerkleNode::new_leaf(RECORD_2),
            MerkleNode::new_leaf(RECORD_3),
        ),
        MerkleNode::new_leaf(RECORD_1),
    );
    assert_eq!(tree.get_root_hash(), by_hand.get_hash());
}

#[test]
fn four_records_put_the_last_pair_on_the_left() {
    let records: [&[u8]; 4] = [b"Hello World", b"MerkleNode", b"MerkleTree", b"Test data"];
    let tree = MerkleTree::new(&records).unwrap();
    assert_eq!(
        hex(tree.get_root_hash()),
        "3ed176fb2d2cc966bd7e14fda63324e1875f9ff356675fbd4cf82d9f1fdf42c6"
    );
    let back = sha3_pair(&sha3(b"MerkleTree"), &sha3(b"Test data"));
    let front = sha3_pair(&sha3(b"Hello World"), &sha3(b"MerkleNode"));
    assert_eq!(*tree.get_root_hash(), sha3_pair(&back, &front));
}

#[test]
fn five_records_promote_the_first_through_one_level() {
    let records: [&[u8]; 5] = [b"a", b"b", b"c", b"d", b"e"];
    let tree = MerkleTree::new(&records).unwrap();
    assert_eq!(
        hex(tree.get_root_hash()),
        "fc139a9242bb5e912c9f5720a905c1dea47db5d6aff2abe97f94c208d1e5dc85"
    );
    let d_e = sha3_pair(&sha3(b"d"), &sha3(b"e"));
    let b_c = sha3_pair(&sha3(b"b"), &sha3(b"c"));
    let b_c_a = sha3_pair(&b_c, &sha3(b"a"));
    assert_eq!(*tree.get_root_hash(), sha3_pair(&b_c_a, &d_e));
}

#[test]
fn build_tree_of_one_node_returns_it() {
    let root = MerkleTree::build_tree(vec![MerkleNode::new_leaf(RECORD_3)]);
    assert!(matches!(root, MerkleNode::Leaf { .. }));
    assert_eq!(*root.get_hash(), sha3(RECORD_3));
}

#[test]
fn build_tree_reduces_three_leaves_like_the_tree() {
    let leaves = vec![
        MerkleNode::new_leaf(RECORD_1),
        MerkleNode::new_leaf(RECORD_2),
        MerkleNode::new_leaf(RECORD_3),
    ];
    let root = MerkleTree::build_tree(leaves);
    assert_eq!(
        hex(root.get_hash()),
        "5fab0ee0a5e96a3a8b4eb43717acc11d1955330d7a79f5fc2a728687665f12a9"
    );
    match root {
        MerkleNode::Internal { left, right, .. } => {
            assert_eq!(
                *left.get_hash(),
                sha3_pair(&sha3(RECORD_2), &sha3(RECORD_3))
            );
            assert!(matches!(*left, MerkleNode::Internal { .. }));
            assert_eq!(*right.get_hash(), sha3(RECORD_1));
            assert!(matches!(*right, MerkleNode::Leaf { .. }));
        }
        MerkleNode::Leaf { .. } => panic!("three leaves reduce to an internal node"),
    }
}

#[test]
fn build_tree_accepts_subtrees() {
    let nodes = vec![
        MerkleNode::new_leaf(RECORD_1),
        MerkleNode::new_internal(
            MerkleNode::new_leaf(RECORD_2),
            MerkleNode::new_leaf(RECORD_3),
        ),
    ];
    let root = MerkleTree::build_tree(nodes);
    let pair = sha3_pair(&sha3(RECORD_2), &sha3(RECORD_3));
    assert_eq!(*root.get_hash(), sha3_pair(&sha3(RECORD_1), &pair));
}

fn collect_leaves(node: &MerkleNode, out: &mut Vec<[u8; 32]>) {
    match node {
        MerkleNode::Leaf { hash } => out.push(*hash),
        MerkleNode::Internal { left, right, .. } => {
            collect_leaves(left, out);
            collect_leaves(right, out);
        }
    }
}

fn stores_the_hash_of_its_children(node: &MerkleNode) -> bool {
    match node {
        MerkleNode::Leaf { .. } => true,
        MerkleNode::Internal { left, right, hash } => {
            *hash == sha3_pair(left.get_hash(), right.get_hash())
                && stores_the_hash_of_its_children(left)
                && stores_the_hash_of_its_children(right)
        }
    }
}

#[test]
fn every_record_is_at_one_leaf() {
    for count in 1..10u8 {
        let records: Vec<Vec<u8>> = (0..count).map(|i| vec![i, count]).collect();
        let leaves: Vec<MerkleNode> = records.iter().map(|r| MerkleNode::new_leaf(r)).collect();
        let root = MerkleTree::build_tree(leaves);

        let mut found = Vec::new();
        collect_leaves(&root, &mut found);
        found.sort();
        let mut expected: Vec<[u8; 32]> = records.iter().map(|r| sha3(r)).collect();
        expected.sort();
        assert_eq!(found, expected);
        assert!(stores_the_hash_of_its_children(&root));

        let borrowed: Vec<&[u8]> = records.iter().map(|r| r.as_slice()).collect();
        let tree = MerkleTree::new(&borrowed).unwrap();
        assert_eq!(tree.get_root_hash(), root.get_hash());
    }
}

#[test]
fn repeated_records_each_get_a_leaf() {
    let records: [&[u8]; 3] = [RECORD_1, RECORD_1, RECORD_1];
    let leaves: Vec<MerkleNode> = records.iter().map(|r| MerkleNode::new_leaf(r)).collect();
    let root = MerkleTree::build_tree(leaves);
    let mut found = Vec::new();
    collect_leaves(&root, &mut found);
    assert_eq!(found, vec![sha3(RECORD_1); 3]);
}
