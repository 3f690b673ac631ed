//! Data handed over for a FRI data-availability commitment.
//!
//! The FRI prover itself is not part of this library: commitments are produced
//! outside it and carried as 32-byte values in block headers.
use vstd::prelude::*;

use crate::error::BlockError;

verus! {

/// Data accepted for commitment: the raw bytes, never empty. No FRI
/// commitment is computed here; this type only holds what would be committed.
#[derive(Debug)]
pub struct DaCommitment {
    data: Vec<u8>,
}

impl DaCommitment {
    #[verifier::type_invariant]
    spec fn inv(&self) -> bool {
        self.data@.len() > 0
    }

    /// The committed bytes.
    pub closed spec fn view(&self) -> Seq<u8> {
        self.data@
    }

    /// Accepts `data` for commitment; empty data is refused.
    pub fn commit(data: &[u8]) -> (r: Result<DaCommitment, BlockError>)
        ensures
            r is Err <==> data@.len() == 0,
            r matches Err(e) ==> e is FriedaError,
            r matches Ok(c) ==> c@ == data@,
    {
        if data.len() == 0 {
            return Err(BlockError::FriedaError(String::from_str("Data cannot be empty")));
        }
        let mut v: Vec<u8> = Vec::new();
        crate::codec::put_raw(&mut v, data);
        Ok(DaCommitment { data: v })
    }

    /// The number of committed bytes, which is never zero.
    pub fn len(&self) -> (r: usize)
        ensures
            r == self@.len(),
            r > 0,
    {
        proof {
            use_type_invariant(self);
        }
        self.data.len()
    }

    /// Checks that the committed data can be sampled: it is present.
    pub fn sample(&self) -> (r: Result<(), BlockError>)
        ensures
            r is Ok <==> self@.len() > 0,
    {
        proof {
            use_type_invariant(self);
        }
        if self.data.len() == 0 {
            return Err(BlockError::FriedaError(String::from_str("Nothing to sample")));
        }
        Ok(())
    }

    /// Proof generation needs the FRI prover, which this library does not
    /// include: it always reports an error.
    pub fn generate_proof(&self) -> (r: Result<(), BlockError>)
        ensures
            r matches Err(e) && e is FriedaError,
    {
        Err(BlockError::FriedaError(String::from_str("FRI proof generation is not available")))
    }
}

} // verus!
