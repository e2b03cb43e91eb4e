//! What a Merkle root says about the records below it.
//!
//! The root is a function of the records. Every record is at a leaf of the
//! tree, once for each time it occurs. And the root binds the records as far
//! as the hash function does: two lists of the same length with the same root
//! are the same list, unless two different inputs that are hashed at the same
//! place of the two trees have the same digest.

use vstd::prelude::*;
use vstd::seq_lib::lemma_multiset_commutative;
use crate::hash::sha3_256;
use super::merkle_tree::{
    leaf_of, leaves_of, merkle_root, next_level, record_digests, root_of, HashTree, MerkleTree,
};

verus! {

/// Two different inputs have the same digest.
pub open spec fn collides(first: Seq<u8>, second: Seq<u8>) -> bool {
    first != second && sha3_256(first) == sha3_256(second)
}

/// The two trees pair their leaves in the same way.
pub open spec fn same_pairing(first: HashTree, second: HashTree) -> bool
    decreases first,
{
    match (first, second) {
        (HashTree::Leaf { .. }, HashTree::Leaf { .. }) => true,
        (
            HashTree::Internal { left: first_left, right: first_right },
            HashTree::Internal { left: second_left, right: second_right },
        ) => same_pairing(*first_left, *second_left) && same_pairing(*first_right, *second_right),
        _ => false,
    }
}

/// Two internal nodes at the same place of the two trees hash different
/// bytes to the same digest.
pub open spec fn internal_collision(first: HashTree, second: HashTree) -> bool
    decreases first,
{
    match (first, second) {
        (
            HashTree::Internal { left: first_left, right: first_right },
            HashTree::Internal { left: second_left, right: second_right },
        ) => {
            ||| collides(
                first_left.digest()@ + first_right.digest()@,
                second_left.digest()@ + second_right.digest()@,
            )
            ||| internal_collision(*first_left, *second_left)
            ||| internal_collision(*first_right, *second_right)
        },
        _ => false,
    }
}

/// Two different records at the same place of the two lists have the same
/// leaf digest.
pub open spec fn leaf_collision(first: Seq<Seq<u8>>, second: Seq<Seq<u8>>) -> bool {
    exists|i: int| 0 <= i < first.len() && i < second.len() && collides(first[i], second[i])
}

/// Building the trees over the two lists hashes two different inputs to the
/// same digest at the same place.
pub open spec fn collision_between(first: Seq<Seq<u8>>, second: Seq<Seq<u8>>) -> bool {
    leaf_collision(first, second) || internal_collision(
        root_of(leaves_of(first)),
        root_of(leaves_of(second)),
    )
}

/// `records` with the records at places `i` and `j` exchanged.
pub open spec fn swapped(records: Seq<Seq<u8>>, i: int, j: int) -> Seq<Seq<u8>> {
    records.update(i, records[j]).update(j, records[i])
}

/// Two trees built over the same list of records have the same root digest,
/// the Merkle root of the list.
pub proof fn lemma_root_is_deterministic(
    first: MerkleTree,
    second: MerkleTree,
    records: Seq<Seq<u8>>,
)
    requires
        first@ == root_of(leaves_of(records)),
        second@ == root_of(leaves_of(records)),
    ensures
        first@.digest() == second@.digest(),
        first@.digest() == merkle_root(records),
{
}

/// The tree over a single record is that record's leaf, and its root digest
/// is the digest of the record.
pub proof fn lemma_single_record_root(record: Seq<u8>)
    ensures
        root_of(leaves_of(seq![record])) == leaf_of(record),
        merkle_root(seq![record]) == sha3_256(record),
{
}

/// Over three records the last two are paired, in their order, and the first
/// record's leaf moves up unchanged to become the right child of the root.
pub proof fn lemma_three_record_root(first: Seq<u8>, second: Seq<u8>, third: Seq<u8>)
    ensures
        merkle_root(seq![first, second, third]) == sha3_256(
            sha3_256(sha3_256(second)@ + sha3_256(third)@)@ + sha3_256(first)@,
        ),
{
    let level = leaves_of(seq![first, second, third]);
    let above = next_level(level);
    let top = next_level(above);
    assert(root_of(above) == root_of(top));
    assert(top[0].digest() == sha3_256(
        sha3_256(sha3_256(second)@ + sha3_256(third)@)@ + sha3_256(first)@,
    )) by {
        reveal_with_fuel(HashTree::digest, 3);
    }
}

/// The digests at the leaves of every node of a level, node after node.
pub open spec fn level_leaves(level: Seq<HashTree>) -> Seq<[u8; 32]>
    decreases level.len(),
{
    if level.len() == 0 {
        Seq::empty()
    } else {
        level_leaves(level.drop_last()) + level.last().leaves()
    }
}

/// The leaves of a level of one node are the leaves of that node.
proof fn lemma_level_leaves_single(node: HashTree)
    ensures
        level_leaves(seq![node]) == node.leaves(),
{
    let level = seq![node];
    assert(level_leaves(level) =~= level_leaves(level.drop_last()) + level.last().leaves());
}

/// The leaves of two levels put one after the other are the leaves of the
/// first followed by the leaves of the second.
proof fn lemma_level_leaves_concat(front: Seq<HashTree>, back: Seq<HashTree>)
    ensures
        level_leaves(front + back) == level_leaves(front) + level_leaves(back),
    decreases back.len(),
{
    if back.len() > 0 {
        assert((front + back).drop_last() =~= front + back.drop_last());
        lemma_level_leaves_concat(front, back.drop_last());
    }
}

/// The level above a level has the same leaves, each as often.
proof fn lemma_next_level_keeps_leaves(level: Seq<HashTree>)
    ensures
        level_leaves(next_level(level)).to_multiset() == level_leaves(level).to_multiset(),
    decreases level.len(),
{
    let n = level.len() as int;
    if n == 1 {
        assert(next_level(level) =~= level);
    } else if n >= 2 {
        let front = level.take(n - 2);
        let left = level[n - 2];
        let right = level[n - 1];
        let pair = HashTree::Internal { left: Box::new(left), right: Box::new(right) };
        let paired = left.leaves() + right.leaves();
        assert(next_level(level) =~= seq![pair] + next_level(front));
        assert(level =~= front + (seq![left] + seq![right]));
        lemma_next_level_keeps_leaves(front);
        lemma_level_leaves_single(pair);
        lemma_level_leaves_single(left);
        lemma_level_leaves_single(right);
        lemma_level_leaves_concat(seq![pair], next_level(front));
        lemma_level_leaves_concat(seq![left], seq![right]);
        lemma_level_leaves_concat(front, seq![left] + seq![right]);
        lemma_multiset_commutative(paired, level_leaves(next_level(front)));
        lemma_multiset_commutative(level_leaves(front), paired);
    }
}

/// The leaves under the root of a level are the leaves of the level, each as
/// often.
proof fn lemma_root_keeps_leaves(level: Seq<HashTree>)
    requires
        level.len() >= 1,
    ensures
        root_of(level).leaves().to_multiset() == level_leaves(level).to_multiset(),
    decreases level.len(),
{
    if level.len() == 1 {
        assert(level =~= seq![level[0]]);
        lemma_level_leaves_single(level[0]);
    } else {
        lemma_next_level_keeps_leaves(level);
        lemma_root_keeps_leaves(next_level(level));
    }
}

/// The leaves of the leaf level are the digests of the records.
proof fn lemma_leaf_level(records: Seq<Seq<u8>>)
    ensures
        level_leaves(leaves_of(records)) == record_digests(records),
    decreases records.len(),
{
    if records.len() > 0 {
        assert(leaves_of(records).drop_last() =~= leaves_of(records.drop_last()));
        lemma_leaf_level(records.drop_last());
        assert(record_digests(records) =~= record_digests(records.drop_last()) + seq![
            sha3_256(records.last()),
        ]);
    }
}

/// The leaves of the tree are the digests of the records, none left out and
/// none added: each digest is at as many leaves as there are records with
/// that digest.
pub proof fn lemma_root_holds_every_record(records: Seq<Seq<u8>>)
    requires
        records.len() >= 1,
    ensures
        root_of(leaves_of(records)).leaves().to_multiset() == record_digests(
            records,
        ).to_multiset(),
{
    lemma_root_keeps_leaves(leaves_of(records));
    lemma_leaf_level(records);
}

/// Levels of the same size whose nodes pair their leaves alike reduce to
/// roots that pair their leaves alike.
proof fn lemma_roots_pair_alike(first: Seq<HashTree>, second: Seq<HashTree>)
    requires
        first.len() == second.len(),
        first.len() >= 1,
        forall|i: int| 0 <= i < first.len() ==> same_pairing(#[trigger] first[i], second[i]),
    ensures
        same_pairing(root_of(first), root_of(second)),
    decreases first.len(),
{
    if first.len() > 1 {
        let n = first.len() as int;
        let first_above = next_level(first);
        let second_above = next_level(second);
        assert forall|i: int| 0 <= i < first_above.len() implies same_pairing(
            #[trigger] first_above[i],
            second_above[i],
        ) by {
            if 2 * i + 1 < n {
                assert(same_pairing(first[n - 2 - 2 * i], second[n - 2 - 2 * i]));
                assert(same_pairing(first[n - 1 - 2 * i], second[n - 1 - 2 * i]));
            }
        }
        lemma_roots_pair_alike(first_above, second_above);
    }
}

/// Levels of the same size that reduce to the same root are the same level.
proof fn lemma_root_fixes_level(first: Seq<HashTree>, second: Seq<HashTree>)
    requires
        first.len() == second.len(),
        first.len() >= 1,
        root_of(first) == root_of(second),
    ensures
        first == second,
    decreases first.len(),
{
    if first.len() > 1 {
        let n = first.len() as int;
        let first_above = next_level(first);
        let second_above = next_level(second);
        lemma_root_fixes_level(first_above, second_above);
        assert forall|j: int| 0 <= j < n implies first[j] == second[j] by {
            let i = (n - 1 - j) / 2;
            assert(first_above[i] == second_above[i]);
        }
    }
}

/// Trees that pair their leaves alike and have the same digest are the same
/// tree, unless two of their internal nodes collide.
proof fn lemma_digest_fixes_tree(first: HashTree, second: HashTree)
    requires
        same_pairing(first, second),
        first.digest() == second.digest(),
    ensures
        first == second || internal_collision(first, second),
    decreases first,
{
    match (first, second) {
        (
            HashTree::Internal { left: first_left, right: first_right },
            HashTree::Internal { left: second_left, right: second_right },
        ) => {
            let first_bytes = first_left.digest()@ + first_right.digest()@;
            let second_bytes = second_left.digest()@ + second_right.digest()@;
            if first_bytes == second_bytes {
                assert(first_left.digest()@ =~= first_bytes.subrange(0, 32));
                assert(second_left.digest()@ =~= second_bytes.subrange(0, 32));
                assert(first_right.digest()@ =~= first_bytes.subrange(32, 64));
                assert(second_right.digest()@ =~= second_bytes.subrange(32, 64));
                assert(first_left.digest() == second_left.digest());
                assert(first_right.digest() == second_right.digest());
                lemma_digest_fixes_tree(*first_left, *second_left);
                lemma_digest_fixes_tree(*first_right, *second_right);
            }
        },
        _ => {},
    }
}

/// Two lists of records of the same length with the same Merkle root are the
/// same list, unless building their trees meets a collision of the hash
/// function.
pub proof fn lemma_root_binds_records(first: Seq<Seq<u8>>, second: Seq<Seq<u8>>)
    requires
        first.len() == second.len(),
        first.len() >= 1,
        merkle_root(first) == merkle_root(second),
    ensures
        first == second || collision_between(first, second),
{
    let first_leaves = leaves_of(first);
    let second_leaves = leaves_of(second);
    lemma_roots_pair_alike(first_leaves, second_leaves);
    lemma_digest_fixes_tree(root_of(first_leaves), root_of(second_leaves));
    if root_of(first_leaves) == root_of(second_leaves) {
        lemma_root_fixes_level(first_leaves, second_leaves);
        if !leaf_collision(first, second) {
            assert forall|i: int| 0 <= i < first.len() implies first[i] == second[i] by {
                assert(first_leaves[i] == second_leaves[i]);
            }
        }
    }
}

/// Exchanging two different records changes the Merkle root, unless building
/// the two trees meets a collision of the hash function.
pub proof fn lemma_order_changes_root(records: Seq<Seq<u8>>, i: int, j: int)
    requires
        0 <= i < records.len(),
        0 <= j < records.len(),
        records[i] != records[j],
    ensures
        merkle_root(swapped(records, i, j)) != merkle_root(records) || collision_between(
            records,
            swapped(records, i, j),
        ),
{
    let exchanged = swapped(records, i, j);
    if merkle_root(exchanged) == merkle_root(records) {
        lemma_root_binds_records(records, exchanged);
    }
}

} // verus!
