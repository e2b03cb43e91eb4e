//! Blocks sealed by proof of work over a Merkle commitment.
//!
//! A block's hash input is its identifier, its timestamp in milliseconds as
//! sixteen big-endian bytes, the previous block's hash, every transaction
//! record in order, the Merkle root of the records and a nonce as sixteen
//! big-endian bytes. The block is sealed by a nonce for which the SHA3-256
//! digest of that input starts with `difficulty` zero bytes.

pub mod commitment;
pub mod merkle_tree;

use vstd::prelude::*;
use vstd::slice::slice_to_vec;
use crate::encoding::{be_bytes_i128, be_bytes_u128, i128_to_be_bytes, u128_to_be_bytes};
use crate::hash::{sha3_256, sha3_256_digest};
use crate::nonces::{NonceSource, RandomNonces};
use crate::sources::{elapsed_since_epoch, fresh_identifier, is_random_identifier, whole_millis};
use self::merkle_tree::{merkle_root, records_of, MerkleTree};

verus! {

/// The number of bytes in a digest, and so the largest difficulty that any
/// digest can meet.
pub const DIGEST_LENGTH: u32 = 32;

/// The number of nonces after which the search for a new block gives up.
pub const MAX_ATTEMPTS: u64 = u64::MAX;

/// The bytes that are hashed to seal a block.
pub open spec fn hash_input(
    index: [u8; 16],
    timestamp: u128,
    prev_hash: [u8; 32],
    transactions: Seq<Seq<u8>>,
    merkle_root: [u8; 32],
    nonce: i128,
) -> Seq<u8> {
    index@ + be_bytes_u128(timestamp) + prev_hash@ + transactions.flatten() + merkle_root@
        + be_bytes_i128(nonce)
}

/// The digest of a block with the given contents and nonce.
pub open spec fn block_digest(
    index: [u8; 16],
    timestamp: u128,
    prev_hash: [u8; 32],
    transactions: Seq<Seq<u8>>,
    merkle_root: [u8; 32],
    nonce: i128,
) -> [u8; 32] {
    sha3_256(hash_input(index, timestamp, prev_hash, transactions, merkle_root, nonce))
}

/// The first `difficulty` bytes of `hash` exist and are all zero.
pub open spec fn meets_difficulty(hash: [u8; 32], difficulty: u32) -> bool {
    &&& difficulty <= DIGEST_LENGTH
    &&& forall|i: int| 0 <= i < difficulty ==> hash@[i] == 0
}

/// All thirty-two bytes are zero: the previous hash of a genesis block.
pub open spec fn is_zero_hash(hash: [u8; 32]) -> bool {
    forall|i: int| 0 <= i < 32 ==> hash@[i] == 0
}

/// What a search returns after it took the nonces `taken`, in that order.
/// It returns the last nonce taken, with its digest, when that nonce is the
/// first one taken whose digest meets the difficulty. It returns nothing when
/// it took no nonce because no digest can meet the difficulty, or when it
/// took `max_attempts` nonces and none was accepted.
pub open spec fn search_outcome(
    taken: Seq<i128>,
    found: Option<(i128, [u8; 32])>,
    index: [u8; 16],
    timestamp: u128,
    prev_hash: [u8; 32],
    transactions: Seq<Seq<u8>>,
    merkle_root: [u8; 32],
    difficulty: u32,
    max_attempts: u64,
) -> bool {
    match found {
        Some((nonce, hash)) => {
            &&& 1 <= taken.len() <= max_attempts
            &&& taken.last() == nonce
            &&& hash == block_digest(index, timestamp, prev_hash, transactions, merkle_root, nonce)
            &&& meets_difficulty(hash, difficulty)
            &&& forall|k: int|
                0 <= k < taken.len() - 1 ==> !meets_difficulty(
                    block_digest(
                        index,
                        timestamp,
                        prev_hash,
                        transactions,
                        merkle_root,
                        #[trigger] taken[k],
                    ),
                    difficulty,
                )
        },
        None => {
            &&& taken.len() == if difficulty > DIGEST_LENGTH {
                0
            } else {
                max_attempts as int
            }
            &&& forall|k: int|
                0 <= k < taken.len() ==> !meets_difficulty(
                    block_digest(
                        index,
                        timestamp,
                        prev_hash,
                        transactions,
                        merkle_root,
                        #[trigger] taken[k],
                    ),
                    difficulty,
                )
        },
    }
}

/// Why a block could not be built.
#[derive(Clone, Copy, Debug, PartialEq, Eq)]
pub enum BlockError {
    /// The list of transaction records was empty.
    NoTransactions,
    /// The difficulty asks for more zero bytes than a digest has.
    DifficultyTooHigh,
    /// The system clock reads a time before the Unix epoch.
    ClockBeforeEpoch,
    /// The search took as many nonces as it was allowed and none gave a
    /// digest that meets the difficulty.
    SearchExhausted,
}

/// The error that the inputs alone call for, if any: an empty list of
/// records first, then a difficulty that no digest can meet.
pub open spec fn input_error(transactions: Seq<Seq<u8>>, difficulty: u32) -> Option<BlockError> {
    if transactions.len() == 0 {
        Some(BlockError::NoTransactions)
    } else if difficulty > DIGEST_LENGTH {
        Some(BlockError::DifficultyTooHigh)
    } else {
        None
    }
}

/// What a block holds, as plain values.
pub struct BlockView {
    pub index: [u8; 16],
    pub timestamp: u128,
    pub prev_hash: [u8; 32],
    pub transactions: Seq<Seq<u8>>,
    pub merkle_root: [u8; 32],
    pub nonce: i128,
    pub hash: [u8; 32],
}

impl BlockView {
    /// The digest of the block's contents and nonce.
    pub open spec fn digest(self) -> [u8; 32] {
        block_digest(
            self.index,
            self.timestamp,
            self.prev_hash,
            self.transactions,
            self.merkle_root,
            self.nonce,
        )
    }

    /// The block is consistent: it has transactions, its Merkle root commits
    /// to them, and hashing its contents with its nonce reproduces its hash.
    pub open spec fn sealed(self) -> bool {
        &&& self.transactions.len() > 0
        &&& self.merkle_root == merkle_root(self.transactions)
        &&& self.hash == self.digest()
    }

    /// The block is a consistent block over `transactions` that follows
    /// `prev_hash`, and its hash meets `difficulty`.
    pub open spec fn seals(
        self,
        transactions: Seq<Seq<u8>>,
        prev_hash: [u8; 32],
        difficulty: u32,
    ) -> bool {
        &&& self.transactions == transactions
        &&& self.prev_hash == prev_hash
        &&& self.sealed()
        &&& meets_difficulty(self.hash, difficulty)
    }
}

/// Rehashing what a sealed block holds reproduces its hash, and the first
/// `difficulty` bytes of that hash are zero.
pub proof fn lemma_sealed_block_is_valid(
    block: BlockView,
    transactions: Seq<Seq<u8>>,
    prev_hash: [u8; 32],
    difficulty: u32,
)
    requires
        block.seals(transactions, prev_hash, difficulty),
    ensures
        block.hash == sha3_256(
            block.index@ + be_bytes_u128(block.timestamp) + block.prev_hash@
                + block.transactions.flatten() + merkle_root(block.transactions)@ + be_bytes_i128(
                block.nonce,
            ),
        ),
        difficulty <= DIGEST_LENGTH,
        forall|i: int| 0 <= i < difficulty ==> block.hash@[i] == 0,
{
}

/// Difficulty zero asks for no zero byte, so every digest meets it and a
/// search accepts the first nonce that it takes.
pub proof fn lemma_zero_difficulty_accepts(hash: [u8; 32])
    ensures
        meets_difficulty(hash, 0),
{
}

/// The byte contents of a list of owned records.
pub open spec fn payloads_of(transaction_data: Seq<Vec<u8>>) -> Seq<Seq<u8>> {
    Seq::new(transaction_data.len(), |i: int| transaction_data[i]@)
}

/// One sealed unit of the chain.
pub struct Block {
    index: [u8; 16],
    timestamp: u128,
    prev_hash: [u8; 32],
    transaction_data: Vec<Vec<u8>>,
    merkle_tree: MerkleTree,
    nonce: i128,
    hash: [u8; 32],
}

impl View for Block {
    type V = BlockView;

    closed spec fn view(&self) -> BlockView {
        BlockView {
            index: self.index,
            timestamp: self.timestamp,
            prev_hash: self.prev_hash,
            transactions: payloads_of(self.transaction_data@),
            merkle_root: self.merkle_tree@.digest(),
            nonce: self.nonce,
            hash: self.hash,
        }
    }
}

impl Block {
    #[verifier::type_invariant]
    spec fn inv(&self) -> bool {
        self@.sealed()
    }

    /// Tells whether the first `difficulty` bytes of `hash` are all zero. No
    /// digest meets a difficulty above its own length.
    pub fn check_difficulty(hash: &[u8; 32], difficulty: u32) -> (accepted: bool)
        ensures
            accepted == meets_difficulty(*hash, difficulty),
    {
        if difficulty > DIGEST_LENGTH {
            return false;
        }
        let mut i: usize = 0;
        while i < difficulty as usize
            invariant
                i <= difficulty <= DIGEST_LENGTH,
                forall|k: int| 0 <= k < i ==> hash@[k] == 0,
            decreases difficulty - i,
        {
            if hash[i] != 0 {
                return false;
            }
            i += 1;
        }
        true
    }

    /// Encodes a timestamp in milliseconds as sixteen bytes, most significant
    /// first.
    pub fn timestamp_to_vec(timestamp: u128) -> (bytes: Vec<u8>)
        ensures
            bytes@ == be_bytes_u128(timestamp),
    {
        let bytes = u128_to_be_bytes(timestamp);
        slice_to_vec(bytes.as_slice())
    }

    /// Assembles the bytes that are hashed for one candidate nonce.
    pub fn assemble_hash_input(
        index: &[u8; 16],
        timestamp: u128,
        prev_hash: &[u8; 32],
        transaction_data: &[&[u8]],
        merkle_root: &[u8; 32],
        nonce: i128,
    ) -> (buffer: Vec<u8>)
        ensures
            buffer@ == hash_input(
                *index,
                timestamp,
                *prev_hash,
                records_of(transaction_data@),
                *merkle_root,
                nonce,
            ),
    {
        let ghost records = records_of(transaction_data@);
        let mut buffer: Vec<u8> = Vec::new();
        buffer.extend_from_slice(index.as_slice());
        let time_bytes = Block::timestamp_to_vec(timestamp);
        buffer.extend_from_slice(time_bytes.as_slice());
        buffer.extend_from_slice(prev_hash.as_slice());
        let ghost head = buffer@;
        let mut i: usize = 0;
        while i < transaction_data.len()
            invariant
                i <= transaction_data@.len(),
                records == records_of(transaction_data@),
                buffer@ == head + records.take(i as int).flatten(),
            decreases transaction_data@.len() - i,
        {
            buffer.extend_from_slice(transaction_data[i]);
            proof {
                assert(records.take(i + 1) =~= records.take(i as int).push(records[i as int]));
                records.take(i as int).lemma_flatten_push(records[i as int]);
            }
            i += 1;
        }
        assert(records.take(i as int) =~= records);
        buffer.extend_from_slice(merkle_root.as_slice());
        let nonce_bytes = i128_to_be_bytes(nonce);
        buffer.extend_from_slice(nonce_bytes.as_slice());
        buffer
    }

    /// Hashes the block contents with one candidate nonce.
    pub fn candidate_hash(
        index: &[u8; 16],
        timestamp: u128,
        prev_hash: &[u8; 32],
        transaction_data: &[&[u8]],
        merkle_tree: &MerkleTree,
        nonce: i128,
    ) -> (hash: [u8; 32])
        ensures
            hash == block_digest(
                *index,
                timestamp,
                *prev_hash,
                records_of(transaction_data@),
                merkle_tree@.digest(),
                nonce,
            ),
    {
        let buffer = Block::assemble_hash_input(
            index,
            timestamp,
            prev_hash,
            transaction_data,
            merkle_tree.get_root_hash(),
            nonce,
        );
        sha3_256_digest(buffer.as_slice())
    }

    /// Takes nonces from `source` until one gives a digest that meets
    /// `difficulty`, and returns that nonce with its digest. A difficulty
    /// above the digest length is refused before any nonce is taken. The
    /// search gives up after `max_attempts` nonces.
    pub fn proof_of_work<S: NonceSource>(
        source: &mut S,
        index: &[u8; 16],
        timestamp: u128,
        prev_hash: &[u8; 32],
        transaction_data: &[&[u8]],
        merkle_tree: &MerkleTree,
        difficulty: u32,
        max_attempts: u64,
    ) -> (found: Option<(i128, [u8; 32])>)
        ensures
            old(source).handed_out().is_prefix_of(final(source).handed_out()),
            search_outcome(
                final(source).handed_out().skip(old(source).handed_out().len() as int),
                found,
                *index,
                timestamp,
                *prev_hash,
                records_of(transaction_data@),
                merkle_tree@.digest(),
                difficulty,
                max_attempts,
            ),
            difficulty == 0 && max_attempts > 0 ==> {
                &&& found is Some
                &&& final(source).handed_out().len() == old(source).handed_out().len() + 1
            },
    {
        let ghost before = source.handed_out();
        let ghost records = records_of(transaction_data@);
        let ghost root = merkle_tree@.digest();
        if difficulty > DIGEST_LENGTH {
            return None;
        }
        let ghost mut taken: Seq<i128> = Seq::empty();
        let mut attempts: u64 = 0;
        while attempts < max_attempts
            invariant
                difficulty <= DIGEST_LENGTH,
                attempts <= max_attempts,
                difficulty == 0 ==> attempts == 0,
                before == old(source).handed_out(),
                records == records_of(transaction_data@),
                root == merkle_tree@.digest(),
                source.handed_out() == before + taken,
                taken.len() == attempts,
                forall|k: int|
                    0 <= k < taken.len() ==> !meets_difficulty(
                        block_digest(
                            *index,
                            timestamp,
                            *prev_hash,
                            records,
                            root,
                            #[trigger] taken[k],
                        ),
                        difficulty,
                    ),
            decreases max_attempts - attempts,
        {
            let nonce = source.next_nonce();
            let hash = Block::candidate_hash(
                index,
                timestamp,
                prev_hash,
                transaction_data,
                merkle_tree,
                nonce,
            );
            if Block::check_difficulty(&hash, difficulty) {
                return Some((nonce, hash));
            }
            proof {
                taken = taken.push(nonce);
            }
            attempts += 1;
        }
        None
    }

    /// Copies borrowed records into owned buffers.
    fn copy_records(transaction_data: &[&[u8]]) -> (owned: Vec<Vec<u8>>)
        ensures
            payloads_of(owned@) == records_of(transaction_data@),
    {
        let mut owned: Vec<Vec<u8>> = Vec::new();
        let mut i: usize = 0;
        while i < transaction_data.len()
            invariant
                i <= transaction_data@.len(),
                owned@.len() == i,
                forall|k: int| 0 <= k < i ==> (#[trigger] owned@[k])@ == transaction_data@[k]@,
            decreases transaction_data@.len() - i,
        {
            owned.push(slice_to_vec(transaction_data[i]));
            i += 1;
        }
        owned
    }

    /// Turns the time that has passed since the Unix epoch into a timestamp
    /// in whole milliseconds. A clock that reads a time before the epoch
    /// gives no timestamp.
    pub fn timestamp_from(
        since_epoch: Result<core::time::Duration, std::time::SystemTimeError>,
    ) -> (timestamp: Result<u128, BlockError>)
        ensures
            match since_epoch {
                Ok(elapsed) => timestamp == Ok::<u128, BlockError>(whole_millis(elapsed)),
                Err(_) => timestamp == Err::<u128, BlockError>(BlockError::ClockBeforeEpoch),
            },
    {
        match since_epoch {
            Ok(elapsed) => Ok(elapsed.as_millis()),
            Err(_) => Err(BlockError::ClockBeforeEpoch),
        }
    }

    /// Seals a block with the given identifier, timestamp and previous hash
    /// over `transaction_data`: builds the Merkle tree, searches `source` for
    /// a nonce and stores the first accepted nonce with its digest. Inputs
    /// that no block can have are rejected before any nonce is taken. The
    /// search gives up after `max_attempts` nonces, and no block is returned.
    pub fn seal<S: NonceSource>(
        source: &mut S,
        index: [u8; 16],
        timestamp: u128,
        prev_hash: [u8; 32],
        transaction_data: &[&[u8]],
        difficulty: u32,
        max_attempts: u64,
    ) -> (result: Result<Block, BlockError>)
        ensures
            old(source).handed_out().is_prefix_of(final(source).handed_out()),
            match input_error(records_of(transaction_data@), difficulty) {
                Some(error) => {
                    &&& result == Err::<Block, BlockError>(error)
                    &&& final(source).handed_out() == old(source).handed_out()
                },
                None => {
                    &&& search_outcome(
                        final(source).handed_out().skip(old(source).handed_out().len() as int),
                        match result {
                            Ok(block) => Some((block@.nonce, block@.hash)),
                            Err(_) => None,
                        },
                        index,
                        timestamp,
                        prev_hash,
                        records_of(transaction_data@),
                        merkle_root(records_of(transaction_data@)),
                        difficulty,
                        max_attempts,
                    )
                    &&& match result {
                        Ok(block) => {
                            &&& block@.index == index
                            &&& block@.timestamp == timestamp
                            &&& block@.seals(records_of(transaction_data@), prev_hash, difficulty)
                        },
                        Err(error) => error == BlockError::SearchExhausted && (difficulty > 0
                            || max_attempts == 0),
                    }
                },
            },
    {
        let merkle_tree = match MerkleTree::new(transaction_data) {
            Ok(tree) => tree,
            Err(_) => {
                return Err(BlockError::NoTransactions);
            },
        };
        if difficulty > DIGEST_LENGTH {
            return Err(BlockError::DifficultyTooHigh);
        }
        match Block::proof_of_work(
            source,
            &index,
            timestamp,
            &prev_hash,
            transaction_data,
            &merkle_tree,
            difficulty,
            max_attempts,
        ) {
            Some((nonce, hash)) => {
                let transaction_data = Block::copy_records(transaction_data);
                Ok(
                    Block {
                        index,
                        timestamp,
                        prev_hash,
                        transaction_data,
                        merkle_tree,
                        nonce,
                        hash,
                    },
                )
            },
            None => Err(BlockError::SearchExhausted),
        }
    }

    /// Checks the inputs, takes a fresh identifier and the current time, and
    /// seals a block that follows `prev_hash`.
    fn create(transaction_data: &[&[u8]], prev_hash: [u8; 32], difficulty: u32) -> (result: Result<
        Block,
        BlockError,
    >)
        ensures
            match input_error(records_of(transaction_data@), difficulty) {
                Some(error) => result == Err::<Block, BlockError>(error),
                None => match result {
                    Ok(block) => {
                        &&& is_random_identifier(block@.index)
                        &&& block@.seals(records_of(transaction_data@), prev_hash, difficulty)
                    },
                    Err(error) => {
                        ||| error == BlockError::ClockBeforeEpoch
                        ||| error == BlockError::SearchExhausted && difficulty > 0
                    },
                },
            },
    {
        if transaction_data.len() == 0 {
            return Err(BlockError::NoTransactions);
        }
        if difficulty > DIGEST_LENGTH {
            return Err(BlockError::DifficultyTooHigh);
        }
        let index = fresh_identifier();
        let timestamp = match Block::timestamp_from(elapsed_since_epoch()) {
            Ok(millis) => millis,
            Err(error) => {
                return Err(error);
            },
        };
        let mut source = RandomNonces::new();
        Block::seal(
            &mut source,
            index,
            timestamp,
            prev_hash,
            transaction_data,
            difficulty,
            MAX_ATTEMPTS,
        )
    }

    /// Builds and seals a block that follows `prev_block`. The block takes a
    /// fresh random identifier and the current time; its previous hash is the
    /// hash of `prev_block`.
    pub fn new(transaction_data: &[&[u8]], prev_block: &Block, difficulty: u32) -> (result: Result<
        Block,
        BlockError,
    >)
        ensures
            match input_error(records_of(transaction_data@), difficulty) {
                Some(error) => result == Err::<Block, BlockError>(error),
                None => match result {
                    Ok(block) => {
                        &&& is_random_identifier(block@.index)
                        &&& block@.seals(records_of(transaction_data@), prev_block@.hash, difficulty)
                    },
                    Err(error) => {
                        ||| error == BlockError::ClockBeforeEpoch
                        ||| error == BlockError::SearchExhausted && difficulty > 0
                    },
                },
            },
    {
        Block::create(transaction_data, prev_block.get_hash(), difficulty)
    }

    /// Builds and seals the first block of a chain. The block takes a fresh
    /// random identifier and the current time; its previous hash is all zero.
    pub fn new_genesis(transaction_data: &[&[u8]], difficulty: u32) -> (result: Result<
        Block,
        BlockError,
    >)
        ensures
            match input_error(records_of(transaction_data@), difficulty) {
                Some(error) => result == Err::<Block, BlockError>(error),
                None => match result {
                    Ok(block) => {
                        &&& is_random_identifier(block@.index)
                        &&& is_zero_hash(block@.prev_hash)
                        &&& block@.seals(
                            records_of(transaction_data@),
                            block@.prev_hash,
                            difficulty,
                        )
                    },
                    Err(error) => {
                        ||| error == BlockError::ClockBeforeEpoch
                        ||| error == BlockError::SearchExhausted && difficulty > 0
                    },
                },
            },
    {
        Block::create(transaction_data, [0u8; 32], difficulty)
    }

    /// The block's hash: the digest of its contents and nonce.
    pub fn get_hash(&self) -> (hash: [u8; 32])
        ensures
            hash == self@.hash,
            hash == self@.digest(),
            self@.sealed(),
    {
        proof {
            use_type_invariant(self);
        }
        self.hash
    }

    /// The block's identifier.
    pub fn index(&self) -> (index: [u8; 16])
        ensures
            index == self@.index,
    {
        self.index
    }

    /// The time of construction, in milliseconds since the Unix epoch.
    pub fn timestamp(&self) -> (timestamp: u128)
        ensures
            timestamp == self@.timestamp,
    {
        self.timestamp
    }

    /// The hash of the previous block, all zero for a genesis block.
    pub fn prev_hash(&self) -> (prev_hash: [u8; 32])
        ensures
            prev_hash == self@.prev_hash,
    {
        self.prev_hash
    }

    /// The transaction records, in order.
    pub fn transaction_data(&self) -> (transaction_data: &Vec<Vec<u8>>)
        ensures
            payloads_of(transaction_data@) == self@.transactions,
    {
        &self.transaction_data
    }

    /// The Merkle root of the transaction records.
    pub fn merkle_root(&self) -> (root: [u8; 32])
        ensures
            root == self@.merkle_root,
            root == merkle_root(self@.transactions),
    {
        proof {
            use_type_invariant(self);
        }
        *self.merkle_tree.get_root_hash()
    }

    /// The nonce that seals the block.
    pub fn nonce(&self) -> (nonce: i128)
        ensures
            nonce == self@.nonce,
    {
        self.nonce
    }
}

} // verus!
