//! Blocks: a header over a list of transactions, with the rules that accept a
//! block on top of its parent.
use vstd::prelude::*;

use crate::blob::Blob;
use crate::crypto::{merkle_root, merkle_root_of, sha256, sha256_of};
use crate::error::BlockError;
use crate::header::{spec_block_hash, Header};
use crate::keys::{bytes_eq, Address};
use crate::transaction::Transaction;

verus! {

/// Largest distance in seconds between a block's timestamp and the clock.
pub const MAX_CLOCK_DRIFT: u64 = 600;

/// Timestamp of the genesis block.
pub const GENESIS_TIMESTAMP: u64 = 69420;

/// A block: its header and its transactions.
#[derive(Debug)]
pub struct Block {
    pub header: Header,
    pub transactions: Vec<Transaction>,
}

/// The four blobs of a transaction.
pub open spec fn tx_blobs(tx: Transaction) -> Seq<Seq<u8>> {
    seq![tx.data[0]@, tx.data[1]@, tx.data[2]@, tx.data[3]@]
}

/// The blobs of a list of transactions, in order.
pub open spec fn block_blobs(txs: Seq<Transaction>) -> Seq<Seq<u8>>
    decreases txs.len(),
{
    if txs.len() == 0 {
        Seq::empty()
    } else {
        block_blobs(txs.drop_last()) + tx_blobs(txs.last())
    }
}

pub open spec fn zero_hash() -> Seq<u8> {
    Seq::new(32, |i: int| 0u8)
}

/// The data hash over some blobs: zeros for none, the blob's SHA-256 for one,
/// else the Merkle root over the SHA-256 hashes of the blobs.
pub open spec fn data_root(blobs: Seq<Seq<u8>>) -> Seq<u8> {
    if blobs.len() == 0 {
        zero_hash()
    } else if blobs.len() == 1 {
        sha256_of(blobs[0])
    } else {
        merkle_root_of(blobs.map_values(|b: Seq<u8>| sha256_of(b)))
    }
}

/// A list of hashes as byte strings.
pub open spec fn hashes_view(v: Seq<[u8; 32]>) -> Seq<Seq<u8>> {
    v.map_values(|h: [u8; 32]| h@)
}

/// Whether `ts` is within `MAX_CLOCK_DRIFT` seconds of `now`.
pub open spec fn timestamp_in_window(ts: u64, now: i64) -> bool {
    now - MAX_CLOCK_DRIFT <= ts <= now + MAX_CLOCK_DRIFT
}

/// The rules that accept `b` at height `height` on top of `prev`, at clock time
/// `now`, given the commitments recomputed over its blobs.
pub open spec fn block_valid(
    b: Block,
    height: u64,
    prev: Block,
    now: i64,
    commitments: Seq<[u8; 32]>,
) -> bool {
    &&& b.header.parent_hash@ == prev.header.block_hash@
    &&& b.header.block_number == height
    &&& b.header.timestamp >= prev.header.timestamp
    &&& timestamp_in_window(b.header.timestamp, now)
    &&& b.header.data_hash@ == data_root(block_blobs(b.transactions@))
    &&& hashes_view(b.header.da_commitment@) == hashes_view(commitments)
    &&& b.header.block_hash@ == spec_block_hash(b.header)
}

/// A block built by `Block::new` with `prev`'s hash as parent, at height
/// `height`, with a timestamp not below `prev`'s and within the drift of `now`,
/// and with the commitments that are recomputed, passes the checks.
pub proof fn lemma_built_block_is_valid(
    b: Block,
    height: u64,
    prev: Block,
    now: i64,
    commitments: Seq<[u8; 32]>,
)
    requires
        b.header.parent_hash == prev.header.block_hash,
        b.header.block_number == height,
        b.header.timestamp >= prev.header.timestamp,
        timestamp_in_window(b.header.timestamp, now),
        b.header.data_hash@ == data_root(block_blobs(b.transactions@)),
        b.header.block_hash@ == spec_block_hash(b.header),
        b.header.da_commitment@ == commitments,
    ensures
        block_valid(b, height, prev, now, commitments),
{
}

proof fn lemma_block_blobs_step(txs: Seq<Transaction>, i: int)
    requires
        0 <= i < txs.len(),
    ensures
        block_blobs(txs.take(i + 1)) == block_blobs(txs.take(i)) + tx_blobs(txs[i]),
{
    assert(txs.take(i + 1).drop_last() =~= txs.take(i));
}

/// Whether two lists of hashes are equal.
pub fn hashes_eq(a: &[[u8; 32]], b: &[[u8; 32]]) -> (r: bool)
    ensures
        r == (hashes_view(a@) == hashes_view(b@)),
{
    if a.len() != b.len() {
        assert(hashes_view(a@).len() != hashes_view(b@).len());
        return false;
    }
    let mut i: usize = 0;
    while i < a.len()
        invariant
            a@.len() == b@.len(),
            i <= a@.len(),
            forall|j: int| 0 <= j < i ==> (#[trigger] a@[j])@ == b@[j]@,
        decreases a@.len() - i,
    {
        if !bytes_eq(&a[i], &b[i]) {
            assert(hashes_view(a@)[i as int] != hashes_view(b@)[i as int]);
            return false;
        }
        i = i + 1;
    }
    assert(hashes_view(a@) =~= hashes_view(b@));
    true
}

/// The SHA-256 hashes of the blobs of `txs`, in order.
fn blob_leaves(txs: &Vec<Transaction>) -> (r: Vec<[u8; 32]>)
    ensures
        hashes_view(r@) == block_blobs(txs@).map_values(|b: Seq<u8>| sha256_of(b)),
{
    let mut leaves: Vec<[u8; 32]> = Vec::new();
    let mut i: usize = 0;
    while i < txs.len()
        invariant
            i <= txs@.len(),
            hashes_view(leaves@) == block_blobs(txs@.take(i as int)).map_values(
                |b: Seq<u8>| sha256_of(b),
            ),
        decreases txs@.len() - i,
    {
        let tx = &txs[i];
        let ghost before = leaves@;
        leaves.push(sha256(tx.data[0].data()));
        leaves.push(sha256(tx.data[1].data()));
        leaves.push(sha256(tx.data[2].data()));
        leaves.push(sha256(tx.data[3].data()));
        proof {
            lemma_block_blobs_step(txs@, i as int);
            let f = |b: Seq<u8>| sha256_of(b);
            let prior = block_blobs(txs@.take(i as int));
            let added = tx_blobs(txs@[i as int]);
            assert(hashes_view(leaves@) =~= hashes_view(before) + added.map_values(f));
            assert((prior + added).map_values(f) =~= prior.map_values(f) + added.map_values(f));
        }
        i = i + 1;
    }
    assert(txs@.take(i as int) =~= txs@);
    leaves
}

/// The data hash over the blobs of `txs`; `None` only when the Merkle tree
/// library returns no root.
fn compute_data_root(txs: &Vec<Transaction>) -> (r: Option<[u8; 32]>)
    ensures
        r matches Some(h) ==> h@ == data_root(block_blobs(txs@)),
        r is Some,
{
    let leaves = blob_leaves(txs);
    let ghost blobs = block_blobs(txs@);
    assert(hashes_view(leaves@).len() == leaves@.len());
    if leaves.len() == 0 {
        let z = [0u8; 32];
        assert(z@ =~= zero_hash());
        Some(z)
    } else if leaves.len() == 1 {
        assert(hashes_view(leaves@)[0] == leaves@[0]@);
        Some(leaves[0])
    } else {
        let r = merkle_root(leaves.as_slice());
        proof {
            assert(leaves@.map_values(|l: [u8; 32]| l@) == hashes_view(leaves@));
        }
        r
    }
}

impl Block {
    /// Builds a block over `transactions`, with the data hash over their blobs
    /// and the given per-blob commitments. It always succeeds.
    pub fn new(
        block_number: u64,
        timestamp: u64,
        parent_hash: [u8; 32],
        proposer_address: Address,
        transactions: Vec<Transaction>,
        da_commitment: Vec<[u8; 32]>,
    ) -> (r: Result<Block, BlockError>)
        ensures
            r is Ok,
            r matches Ok(b) ==> {
                &&& b.transactions == transactions
                &&& b.header.block_number == block_number
                &&& b.header.timestamp == timestamp
                &&& b.header.parent_hash == parent_hash
                &&& b.header.proposer_address == proposer_address
                &&& b.header.da_commitment == da_commitment
                &&& b.header.data_hash@ == data_root(block_blobs(transactions@))
                &&& b.header.block_hash@ == spec_block_hash(b.header)
            },
    {
        let data_hash = match compute_data_root(&transactions) {
            Some(h) => h,
            None => return Err(BlockError::MerkleTreeError),
        };
        let header = Header::new(
            block_number,
            timestamp,
            data_hash,
            proposer_address,
            da_commitment,
            parent_hash,
        );
        Ok(Block { header, transactions })
    }

    /// The first block: height zero, a fixed timestamp, zero parent hash and no
    /// transactions.
    pub fn genesis() -> (r: Block)
        ensures
            r.header.block_number == 0,
            r.header.timestamp == GENESIS_TIMESTAMP,
            r.header.parent_hash@ == zero_hash(),
            r.header.data_hash@ == zero_hash(),
            r.header.da_commitment@.len() == 0,
            r.transactions@.len() == 0,
            r.header.block_hash@ == spec_block_hash(r.header),
    {
        let z = [0u8; 32];
        assert(z@ =~= zero_hash());
        let header = Header::new(0, GENESIS_TIMESTAMP, z, Address::default(), Vec::new(), z);
        Block { header, transactions: Vec::new() }
    }

    pub fn parent_hash(&self) -> (r: [u8; 32])
        ensures
            r == self.header.parent_hash,
    {
        self.header.parent_hash
    }

    pub fn hash(&self) -> (r: [u8; 32])
        ensures
            r == self.header.block_hash,
    {
        self.header.block_hash
    }

    /// Copies of the blobs of all transactions, in order.
    pub fn blobs(&self) -> (r: Vec<Blob>)
        ensures
            r@.map_values(|b: Blob| b@) == block_blobs(self.transactions@),
    {
        let mut out: Vec<Blob> = Vec::new();
        let mut i: usize = 0;
        while i < self.transactions.len()
            invariant
                i <= self.transactions@.len(),
                out@.map_values(|b: Blob| b@) == block_blobs(self.transactions@.take(i as int)),
            decreases self.transactions@.len() - i,
        {
            let tx = &self.transactions[i];
            out.push(tx.data[0].duplicate());
            out.push(tx.data[1].duplicate());
            out.push(tx.data[2].duplicate());
            out.push(tx.data[3].duplicate());
            proof {
                lemma_block_blobs_step(self.transactions@, i as int);
                assert(out@.map_values(|b: Blob| b@) =~= block_blobs(
                    self.transactions@.take(i + 1),
                ));
            }
            i = i + 1;
        }
        assert(self.transactions@.take(i as int) =~= self.transactions@);
        out
    }

    /// The data hash recomputed over the block's blobs.
    pub fn tx_tree_root(&self) -> (r: Result<[u8; 32], BlockError>)
        ensures
            r is Ok,
            r matches Ok(h) ==> h@ == data_root(block_blobs(self.transactions@)),
    {
        match compute_data_root(&self.transactions) {
            Some(h) => Ok(h),
            None => Err(BlockError::MerkleTreeError),
        }
    }

    /// Checks this block against the rules, in order, at clock time `now`
    /// (Unix seconds, read by the caller); `commitments` are the commitments
    /// recomputed over its blobs.
    pub fn is_valid(&self, height: u64, prev_block: &Block, now: i64, commitments: &[[u8; 32]]) -> (r: Result<bool, BlockError>)
        ensures
            r == Ok::<bool, BlockError>(block_valid(*self, height, *prev_block, now, commitments@)),
    {
        if !bytes_eq(&prev_block.header.block_hash, &self.header.parent_hash) {
            return Ok(false);
        }
        if self.header.block_number != height {
            return Ok(false);
        }
        if self.header.timestamp < prev_block.header.timestamp {
            return Ok(false);
        }
        let ts = self.header.timestamp as i128;
        if ts < now as i128 - MAX_CLOCK_DRIFT as i128 || ts > now as i128 + MAX_CLOCK_DRIFT as i128 {
            return Ok(false);
        }
        let expected = self.tx_tree_root()?;
        if !bytes_eq(&expected, &self.header.data_hash) {
            return Ok(false);
        }
        if !hashes_eq(commitments, self.header.da_commitment.as_slice()) {
            return Ok(false);
        }
        let expected = self.header.compute_block_hash();
        if !bytes_eq(&expected, &self.header.block_hash) {
            return Ok(false);
        }
        Ok(true)
    }
}

} // verus!
