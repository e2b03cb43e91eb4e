//! Binary hash tree over an ordered list of byte records.
//!
//! Each record is hashed into a leaf. A level of nodes is reduced to the next
//! one by pairing nodes from the back: the last two nodes form the first node
//! of the next level, the two before them the second, and so on; within a pair
//! the earlier node is the left child. A node left over at the front of an
//! odd-sized level moves up unchanged and ends the next level. The single node
//! that remains is the root.

use vstd::prelude::*;
use crate::hash::{sha3_256, sha3_256_digest};

verus! {

/// The shape of a hash tree: the digests at its leaves and how they are paired.
pub enum HashTree {
    Leaf { digest: [u8; 32] },
    Internal { left: Box<HashTree>, right: Box<HashTree> },
}

impl HashTree {
    /// The digest that the tree commits to: a leaf's own digest, or the hash
    /// of the left digest followed by the right digest.
    pub open spec fn digest(self) -> [u8; 32]
        decreases self,
    {
        match self {
            HashTree::Leaf { digest } => digest,
            HashTree::Internal { left, right } => sha3_256(left.digest()@ + right.digest()@),
        }
    }

    /// The digests at the leaves, from left to right.
    pub open spec fn leaves(self) -> Seq<[u8; 32]>
        decreases self,
    {
        match self {
            HashTree::Leaf { digest } => seq![digest],
            HashTree::Internal { left, right } => left.leaves() + right.leaves(),
        }
    }
}

/// The leaf that stands for one record.
pub open spec fn leaf_of(record: Seq<u8>) -> HashTree {
    HashTree::Leaf { digest: sha3_256(record) }
}

/// The leaves of a list of records, in the order of the records.
pub open spec fn leaves_of(records: Seq<Seq<u8>>) -> Seq<HashTree> {
    Seq::new(records.len(), |i: int| leaf_of(records[i]))
}

/// The level above `level`. Node `i` of the result joins the pair that ends
/// `2 * i` places before the end of `level`; where no full pair is left, it is
/// the first node of `level`, unchanged.
pub open spec fn next_level(level: Seq<HashTree>) -> Seq<HashTree> {
    let n = level.len() as int;
    Seq::new(
        ((n + 1) / 2) as nat,
        |i: int|
            if 2 * i + 1 < n {
                HashTree::Internal {
                    left: Box::new(level[n - 2 - 2 * i]),
                    right: Box::new(level[n - 1 - 2 * i]),
                }
            } else {
                level[0]
            },
    )
}

/// The root that a non-empty level reduces to.
pub open spec fn root_of(level: Seq<HashTree>) -> HashTree
    decreases level.len(),
{
    if level.len() <= 1 {
        level[0]
    } else {
        root_of(next_level(level))
    }
}

/// The digests of the records, in the order of the records.
pub open spec fn record_digests(records: Seq<Seq<u8>>) -> Seq<[u8; 32]> {
    Seq::new(records.len(), |i: int| sha3_256(records[i]))
}

/// The root digest that a non-empty list of records commits to.
pub open spec fn merkle_root(records: Seq<Seq<u8>>) -> [u8; 32] {
    root_of(leaves_of(records)).digest()
}

/// The byte contents of a list of borrowed records.
pub open spec fn records_of(data_list: Seq<&[u8]>) -> Seq<Seq<u8>> {
    Seq::new(data_list.len(), |i: int| data_list[i]@)
}

/// A node of the tree together with the digest stored in it.
#[derive(Debug)]
pub enum MerkleNode {
    Internal { left: Box<MerkleNode>, right: Box<MerkleNode>, hash: [u8; 32] },
    Leaf { hash: [u8; 32] },
}

impl View for MerkleNode {
    type V = HashTree;

    open spec fn view(&self) -> HashTree {
        self.shape()
    }
}

/// The shapes of a list of nodes.
pub open spec fn shapes_of(nodes: Seq<MerkleNode>) -> Seq<HashTree> {
    Seq::new(nodes.len(), |i: int| nodes[i]@)
}

/// Every node of the list is well formed.
pub open spec fn all_wf(nodes: Seq<MerkleNode>) -> bool {
    forall|i: int| 0 <= i < nodes.len() ==> (#[trigger] nodes[i]).wf()
}

impl MerkleNode {
    /// The shape of the subtree: its leaf digests and their pairing, without
    /// the digests stored in internal nodes.
    pub open spec fn shape(&self) -> HashTree
        decreases self,
    {
        match self {
            MerkleNode::Leaf { hash } => HashTree::Leaf { digest: *hash },
            MerkleNode::Internal { left, right, .. } => HashTree::Internal {
                left: Box::new(left.shape()),
                right: Box::new(right.shape()),
            },
        }
    }

    /// The digest stored in the node.
    pub open spec fn stored_hash(&self) -> [u8; 32] {
        match self {
            MerkleNode::Leaf { hash } => *hash,
            MerkleNode::Internal { hash, .. } => *hash,
        }
    }

    /// Every internal node of the subtree stores the digest of its shape, so
    /// each stored digest is a function of the leaves below it.
    pub open spec fn wf(&self) -> bool
        decreases self,
    {
        match self {
            MerkleNode::Leaf { .. } => true,
            MerkleNode::Internal { left, right, hash } => {
                &&& left.wf()
                &&& right.wf()
                &&& *hash == sha3_256(left.shape().digest()@ + right.shape().digest()@)
            },
        }
    }

    /// A well-formed node stores the digest of its shape.
    pub proof fn lemma_stored_hash(&self)
        requires
            self.wf(),
        ensures
            self.stored_hash() == self@.digest(),
    {
    }

    /// Well-formed nodes of the same shape are the same node: what a node
    /// stores is a function of the leaves below it and their pairing.
    pub proof fn lemma_shape_fixes_node(&self, other: &MerkleNode)
        requires
            self.wf(),
            other.wf(),
            self@ == other@,
        ensures
            self == other,
        decreases self,
    {
        match (self, other) {
            (
                MerkleNode::Internal { left, right, .. },
                MerkleNode::Internal { left: other_left, right: other_right, .. },
            ) => {
                left.lemma_shape_fixes_node(other_left);
                right.lemma_shape_fixes_node(other_right);
            },
            _ => {},
        }
    }

    /// Hashes one record into a leaf.
    pub fn new_leaf(data: &[u8]) -> (node: MerkleNode)
        ensures
            node == (MerkleNode::Leaf { hash: sha3_256(data@) }),
            node@ == leaf_of(data@),
            node.wf(),
    {
        let hash = sha3_256_digest(data);
        MerkleNode::Leaf { hash }
    }

    /// Joins two subtrees under a node that stores the hash of the left
    /// stored digest followed by the right one.
    pub fn new_internal(left: MerkleNode, right: MerkleNode) -> (node: MerkleNode)
        ensures
            node == (MerkleNode::Internal {
                left: Box::new(left),
                right: Box::new(right),
                hash: sha3_256(left.stored_hash()@ + right.stored_hash()@),
            }),
            node@ == (HashTree::Internal { left: Box::new(left@), right: Box::new(right@) }),
            left.wf() && right.wf() ==> node.wf(),
    {
        let mut combined_hash: Vec<u8> = Vec::new();
        combined_hash.extend_from_slice(left.get_hash().as_slice());
        combined_hash.extend_from_slice(right.get_hash().as_slice());
        proof {
            assert(combined_hash@ =~= left.stored_hash()@ + right.stored_hash()@);
            if left.wf() && right.wf() {
                left.lemma_stored_hash();
                right.lemma_stored_hash();
            }
        }
        let hash = sha3_256_digest(combined_hash.as_slice());
        MerkleNode::Internal { left: Box::new(left), right: Box::new(right), hash }
    }

    /// The digest stored in the node.
    pub fn get_hash(&self) -> (hash: &[u8; 32])
        ensures
            *hash == self.stored_hash(),
            self.wf() ==> *hash == self@.digest(),
    {
        match self {
            MerkleNode::Leaf { hash } => hash,
            MerkleNode::Internal { hash, .. } => hash,
        }
    }
}

/// Why a tree could not be built.
#[derive(Clone, Copy, Debug, PartialEq, Eq)]
pub enum MerkleError {
    /// The list of records was empty, so there is nothing to commit to.
    NoRecords,
}

/// A hash tree over a list of records, reduced to its root.
#[derive(Debug)]
pub struct MerkleTree {
    root: MerkleNode,
}

impl View for MerkleTree {
    type V = HashTree;

    closed spec fn view(&self) -> HashTree {
        self.root.shape()
    }
}

impl MerkleTree {
    #[verifier::type_invariant]
    spec fn inv(&self) -> bool {
        self.root.wf()
    }

    /// Builds the tree over `data_list`, hashing each record into a leaf.
    /// An empty list is rejected.
    pub fn new(data_list: &[&[u8]]) -> (result: Result<MerkleTree, MerkleError>)
        ensures
            data_list@.len() > 0 <==> result is Ok,
            result matches Ok(tree) ==> tree@ == root_of(leaves_of(records_of(data_list@))),
            result matches Err(error) ==> error == MerkleError::NoRecords,
    {
        if data_list.len() == 0 {
            return Err(MerkleError::NoRecords);
        }
        let mut leaf_nodes: Vec<MerkleNode> = Vec::new();
        let mut i: usize = 0;
        while i < data_list.len()
            invariant
                i <= data_list@.len(),
                leaf_nodes@.len() == i,
                all_wf(leaf_nodes@),
                forall|k: int|
                    0 <= k < i ==> (#[trigger] leaf_nodes@[k])@ == leaf_of(data_list@[k]@),
            decreases data_list@.len() - i,
        {
            leaf_nodes.push(MerkleNode::new_leaf(data_list[i]));
            i += 1;
        }
        assert(shapes_of(leaf_nodes@) =~= leaves_of(records_of(data_list@)));
        let root = MerkleTree::build_tree(leaf_nodes);
        Ok(MerkleTree { root })
    }

    /// The root digest.
    pub fn get_root_hash(&self) -> (hash: &[u8; 32])
        ensures
            *hash == self@.digest(),
    {
        proof {
            use_type_invariant(self);
            self.root.lemma_stored_hash();
        }
        self.root.get_hash()
    }

    /// Reduces a non-empty level of nodes to a single root, pairing from the
    /// back and moving an unpaired front node up unchanged.
    pub fn build_tree(nodes: Vec<MerkleNode>) -> (root: MerkleNode)
        requires
            nodes@.len() >= 1,
        ensures
            root@ == root_of(shapes_of(nodes@)),
            all_wf(nodes@) ==> root.wf(),
    {
        let ghost given = nodes@;
        let mut nodes = nodes;
        while nodes.len() > 1
            invariant
                nodes@.len() >= 1,
                root_of(shapes_of(nodes@)) == root_of(shapes_of(given)),
                all_wf(given) ==> all_wf(nodes@),
            decreases nodes@.len(),
        {
            let ghost level = nodes@;
            let ghost n = level.len() as int;
            let mut combined_nodes: Vec<MerkleNode> = Vec::new();
            while nodes.len() >= 2
                invariant
                    n == level.len(),
                    nodes@.len() + 2 * combined_nodes@.len() == n,
                    nodes@ == level.subrange(0, nodes@.len() as int),
                    all_wf(level) ==> all_wf(combined_nodes@),
                    forall|k: int|
                        0 <= k < combined_nodes@.len() ==> (#[trigger] combined_nodes@[k])@
                            == next_level(shapes_of(level))[k],
                decreases nodes@.len(),
            {
                let right = nodes.pop().unwrap();
                let left = nodes.pop().unwrap();
                let node = MerkleNode::new_internal(left, right);
                combined_nodes.push(node);
            }
            if let Some(remaining) = nodes.pop() {
                combined_nodes.push(remaining);
            }
            assert(shapes_of(combined_nodes@) =~= next_level(shapes_of(level)));
            nodes = combined_nodes;
        }
        nodes.pop().unwrap()
    }
}

} // verus!
