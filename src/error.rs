//! Errors of block checks and of the store.
use vstd::prelude::*;

verus! {

/// Why a block or a commitment was refused.
#[derive(Debug)]
pub enum BlockError {
    NullParentFinalityHash,
    ParentFinalityHashValidationFail,
    InvalidBlockNumber(u64),
    FinalityHashMismatch([u8; 32], [u8; 32]),
    DataHashMismatch([u8; 32], [u8; 32]),
    MerkleTreeError,
    FriedaError(String),
}

/// Why a store operation failed.
#[derive(Debug)]
pub enum StoreError {
    /// Stored bytes that do not decode.
    Corrupted(String),
    /// A failure of the storage engine underneath.
    UnknownError(String),
}

} // verus!
