//! Block headers and their builder.
use vstd::prelude::*;

use crate::codec::le64;
use crate::codec::{put_raw, put_u64_le};
use crate::crypto::{sha3_256, sha3_256_of};
use crate::error::BlockError;
use crate::keys::Address;

verus! {

/// A block header. `block_hash` is computed from the other fields.
#[derive(Debug)]
pub struct Header {
    pub block_number: u64,
    pub timestamp: u64,
    /// Hash of this block.
    pub block_hash: [u8; 32],
    /// One data-availability commitment per blob.
    pub da_commitment: Vec<[u8; 32]>,
    /// Hash of the parent block.
    pub parent_hash: [u8; 32],
    /// Merkle root over the SHA-256 hashes of the blobs.
    pub data_hash: [u8; 32],
    /// Address of the proposer.
    pub proposer_address: Address,
}

/// The bytes that the block hash covers: the block number (little-endian), the
/// parent hash, the data hash and the proposer's address.
pub open spec fn block_hash_input(
    block_number: u64,
    parent_hash: [u8; 32],
    data_hash: [u8; 32],
    proposer: Address,
) -> Seq<u8> {
    le64(block_number) + parent_hash@ + data_hash@ + proposer.0@
}

pub open spec fn spec_block_hash(h: Header) -> Seq<u8> {
    sha3_256_of(block_hash_input(h.block_number, h.parent_hash, h.data_hash, h.proposer_address))
}

/// A copy of a list of commitments.
pub fn copy_commitments(v: &Vec<[u8; 32]>) -> (r: Vec<[u8; 32]>)
    ensures
        r@ == v@,
{
    let mut r: Vec<[u8; 32]> = Vec::new();
    let mut i: usize = 0;
    while i < v.len()
        invariant
            i <= v@.len(),
            r@ == v@.take(i as int),
        decreases v@.len() - i,
    {
        r.push(v[i]);
        i = i + 1;
        assert(r@ =~= v@.take(i as int));
    }
    assert(v@.take(i as int) =~= v@);
    r
}

impl Header {
    /// Builds a header and computes its hash.
    pub fn new(
        block_number: u64,
        timestamp: u64,
        data_hash: [u8; 32],
        proposer_address: Address,
        da_commitment: Vec<[u8; 32]>,
        parent_hash: [u8; 32],
    ) -> (r: Header)
        ensures
            r.block_number == block_number,
            r.timestamp == timestamp,
            r.data_hash == data_hash,
            r.proposer_address == proposer_address,
            r.da_commitment == da_commitment,
            r.parent_hash == parent_hash,
            r.block_hash@ == spec_block_hash(r),
    {
        let mut header = Header {
            block_number,
            timestamp,
            block_hash: [0u8; 32],
            da_commitment,
            parent_hash,
            data_hash,
            proposer_address,
        };
        header.block_hash = header.compute_block_hash();
        header
    }

    /// Refuses block number zero, which only genesis has.
    pub fn basic_validation(&self) -> (r: Result<(), BlockError>)
        ensures
            self.block_number == 0 <==> r is Err,
            r matches Err(e) ==> e == BlockError::InvalidBlockNumber(self.block_number),
    {
        if self.block_number == 0 {
            return Err(BlockError::InvalidBlockNumber(self.block_number));
        }
        Ok(())
    }

    /// SHA3-256 over the block number, parent hash, data hash and proposer.
    pub fn compute_block_hash(&self) -> (r: [u8; 32])
        ensures
            r@ == spec_block_hash(*self),
    {
        let mut bytes: Vec<u8> = Vec::new();
        put_u64_le(&mut bytes, self.block_number);
        put_raw(&mut bytes, &self.parent_hash);
        put_raw(&mut bytes, &self.data_hash);
        put_raw(&mut bytes, &self.proposer_address.0);
        assert(bytes@ =~= block_hash_input(
            self.block_number,
            self.parent_hash,
            self.data_hash,
            self.proposer_address,
        ));
        sha3_256(bytes.as_slice())
    }

    pub fn block_hash(&self) -> (r: [u8; 32])
        ensures
            r == self.block_hash,
    {
        self.block_hash
    }

    pub fn parent_hash(&self) -> (r: [u8; 32])
        ensures
            r == self.parent_hash,
    {
        self.parent_hash
    }
}

/// Collects header fields one by one.
#[derive(Debug)]
pub struct HeaderBuilder {
    pub block_number: Option<u64>,
    pub timestamp: Option<u64>,
    pub block_hash: Option<[u8; 32]>,
    pub da_commitment: Option<Vec<[u8; 32]>>,
    pub parent_hash: Option<[u8; 32]>,
    pub data_hash: Option<[u8; 32]>,
    pub proposer_address: Option<Address>,
}

impl HeaderBuilder {
    pub open spec fn is_empty(&self) -> bool {
        &&& self.block_number is None
        &&& self.timestamp is None
        &&& self.block_hash is None
        &&& self.da_commitment is None
        &&& self.parent_hash is None
        &&& self.data_hash is None
        &&& self.proposer_address is None
    }

    pub fn new() -> (r: HeaderBuilder)
        ensures
            r.is_empty(),
    {
        HeaderBuilder {
            block_number: None,
            timestamp: None,
            block_hash: None,
            da_commitment: None,
            parent_hash: None,
            data_hash: None,
            proposer_address: None,
        }
    }

    pub fn block_number(self, block: u64) -> (r: HeaderBuilder)
        ensures
            r == (HeaderBuilder { block_number: Some(block), ..self }),
    {
        HeaderBuilder { block_number: Some(block), ..self }
    }

    pub fn timestamp(self, timestamp: u64) -> (r: HeaderBuilder)
        ensures
            r == (HeaderBuilder { timestamp: Some(timestamp), ..self }),
    {
        HeaderBuilder { timestamp: Some(timestamp), ..self }
    }

    pub fn block_hash(self, block_hash: [u8; 32]) -> (r: HeaderBuilder)
        ensures
            r == (HeaderBuilder { block_hash: Some(block_hash), ..self }),
    {
        HeaderBuilder { block_hash: Some(block_hash), ..self }
    }

    pub fn da_commitment(self, da_commitment: Vec<[u8; 32]>) -> (r: HeaderBuilder)
        ensures
            r == (HeaderBuilder { da_commitment: Some(da_commitment), ..self }),
    {
        HeaderBuilder { da_commitment: Some(da_commitment), ..self }
    }

    pub fn parent_hash(self, parent_hash: [u8; 32]) -> (r: HeaderBuilder)
        ensures
            r == (HeaderBuilder { parent_hash: Some(parent_hash), ..self }),
    {
        HeaderBuilder { parent_hash: Some(parent_hash), ..self }
    }

    pub fn data_hash(self, data_hash: [u8; 32]) -> (r: HeaderBuilder)
        ensures
            r == (HeaderBuilder { data_hash: Some(data_hash), ..self }),
    {
        HeaderBuilder { data_hash: Some(data_hash), ..self }
    }

    pub fn proposer_address(self, proposer_address: Address) -> (r: HeaderBuilder)
        ensures
            r == (HeaderBuilder { proposer_address: Some(proposer_address), ..self }),
    {
        HeaderBuilder { proposer_address: Some(proposer_address), ..self }
    }

    /// Builds the header; a missing data hash stands for zeros, and the block
    /// hash is always computed afresh.
    pub fn build(&self) -> (r: Header)
        requires
            self.block_number is Some,
            self.timestamp is Some,
            self.proposer_address is Some,
            self.da_commitment is Some,
            self.parent_hash is Some,
        ensures
            r.block_number == self.block_number->0,
            r.timestamp == self.timestamp->0,
            r.data_hash@ == (match self.data_hash {
                Some(h) => h@,
                None => Seq::new(32, |i: int| 0u8),
            }),
            r.proposer_address == self.proposer_address->0,
            r.da_commitment@ == self.da_commitment->0@,
            r.parent_hash == self.parent_hash->0,
            r.block_hash@ == spec_block_hash(r),
    {
        let data_hash = match self.data_hash {
            Some(h) => h,
            None => [0u8; 32],
        };
        assert(self.data_hash is None ==> data_hash@ =~= Seq::new(32, |i: int| 0u8));
        let commitments = match &self.da_commitment {
            Some(c) => copy_commitments(c),
            None => Vec::new(),
        };
        Header::new(
            self.block_number.unwrap(),
            self.timestamp.unwrap(),
            data_hash,
            self.proposer_address.unwrap(),
            commitments,
            self.parent_hash.unwrap(),
        )
    }
}

} // verus!
