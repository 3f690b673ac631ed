//! Values that consensus decides on and their identifiers.
use vstd::prelude::*;

use crate::crypto::{sip_hash, sip_hash_of};

verus! {

/// Identifier of a value: a non-cryptographic hash of its bytes.
#[derive(Clone, Copy, Debug, PartialEq, Eq, Structural, PartialOrd, Ord, Hash)]
pub struct ValueId(pub u64);

impl ValueId {
    pub fn new(id: u64) -> (r: ValueId)
        ensures
            r.0 == id,
    {
        ValueId(id)
    }

    pub fn as_u64(&self) -> (r: u64)
        ensures
            r == self.0,
    {
        self.0
    }
}

impl From<u64> for ValueId {
    fn from(value: u64) -> (r: ValueId)
        ensures
            r.0 == value,
    {
        ValueId(value)
    }
}

impl vstd::std_specs::convert::FromSpecImpl<u64> for ValueId {
    open spec fn obeys_from_spec() -> bool {
        true
    }

    open spec fn from_spec(v: u64) -> ValueId {
        ValueId(v)
    }
}

/// The value to decide on: the bytes of a block and the hash that identifies them.
#[derive(Debug)]
pub struct Value {
    pub value: u64,
    pub extensions: Vec<u8>,
}

/// The value that `Value::new` builds from some bytes.
pub open spec fn value_of(data: Seq<u8>) -> (u64, Seq<u8>) {
    (sip_hash_of(data), data)
}

impl Value {
    /// The value as a pair of its hash and its bytes.
    pub open spec fn view(&self) -> (u64, Seq<u8>) {
        (self.value, self.extensions@)
    }

    /// Builds the value of `data`, identified by the hash of the bytes.
    pub fn new(data: Vec<u8>) -> (r: Value)
        ensures
            r.view() == value_of(data@),
    {
        let value = sip_hash(data.as_slice());
        Value { value, extensions: data }
    }

    pub fn id(&self) -> (r: ValueId)
        ensures
            r.0 == self.value,
    {
        ValueId(self.value)
    }

    /// Size in bytes: the hash and the value's bytes.
    pub fn size_bytes(&self) -> (r: usize)
        requires
            self.extensions@.len() + 8 <= usize::MAX,
        ensures
            r == 8 + self.extensions@.len(),
    {
        8 + self.extensions.len()
    }

    pub fn duplicate(&self) -> (r: Value)
        ensures
            r.view() == self.view(),
    {
        Value { value: self.value, extensions: self.extensions.clone() }
    }
}

} // verus!
