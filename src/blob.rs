//! Fixed-size opaque payloads.
use vstd::prelude::*;

verus! {

/// Size in bytes of every blob.
pub const BLOB_SIZE: usize = 983040;

/// A payload of exactly `BLOB_SIZE` bytes.
#[derive(Debug)]
pub struct Blob {
    data: Vec<u8>,
}

impl Blob {
    #[verifier::type_invariant]
    spec fn inv(&self) -> bool {
        self.data@.len() == BLOB_SIZE
    }

    /// The bytes of the blob.
    pub closed spec fn view(&self) -> Seq<u8> {
        self.data@
    }

    pub fn new(data: Vec<u8>) -> (r: Blob)
        requires
            data@.len() == BLOB_SIZE,
        ensures
            r@ == data@,
    {
        Blob { data }
    }

    pub fn data(&self) -> (r: &[u8])
        ensures
            r@ == self@,
            r@.len() == BLOB_SIZE,
    {
        proof {
            use_type_invariant(self);
        }
        self.data.as_slice()
    }

    pub fn duplicate(&self) -> (r: Blob)
        ensures
            r@ == self@,
    {
        proof {
            use_type_invariant(self);
        }
        let data = self.data.clone();
        assert(data@ =~= self.data@);
        Blob { data }
    }
}

impl Default for Blob {
    /// A blob of zero bytes.
    fn default() -> (r: Blob)
        ensures
            r@ == Seq::new(BLOB_SIZE as nat, |i: int| 0u8),
    {
        let data = vec![0u8; BLOB_SIZE];
        assert(data@ =~= Seq::new(BLOB_SIZE as nat, |i: int| 0u8));
        Blob { data }
    }
}

} // verus!
