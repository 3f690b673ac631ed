//! Signed transfers that carry four blobs.
use vstd::prelude::*;

use crate::blob::Blob;
use crate::codec::{be64, put_raw, put_u64};
use crate::crypto::{ed25519_public_key_of, ed25519_verifies, keccak256, keccak256_of};
use crate::keys::{PrivateKey, Signature, VerificationKey};

verus! {

/// Number of blobs that every transaction carries.
pub const BLOBS_PER_TX: usize = 4;

/// A signed transfer with its four blobs and the cached hash of its contents.
#[derive(Debug)]
pub struct Transaction {
    pub signature: Signature,
    pub from: VerificationKey,
    pub to: VerificationKey,
    pub value: u64,
    pub data: [Blob; 4],
    pub nonce: u64,
    pub gas_price: u64,
    pub hash: [u8; 32],
}

/// The four blobs, one after the other.
pub open spec fn blobs_bytes(data: [Blob; 4]) -> Seq<u8> {
    data[0]@ + data[1]@ + data[2]@ + data[3]@
}

/// The bytes that a transaction's hash covers: sender, recipient, value, the
/// blobs, nonce and gas price (integers big-endian).
pub open spec fn tx_bytes(tx: Transaction) -> Seq<u8> {
    tx.from@ + tx.to@ + be64(tx.value) + blobs_bytes(tx.data) + be64(tx.nonce) + be64(
        tx.gas_price,
    )
}

/// A transaction is valid when its hash is the hash of its contents and the
/// sender's signature over that hash verifies.
pub open spec fn tx_valid(tx: Transaction) -> bool {
    &&& tx.hash@ == keccak256_of(tx_bytes(tx))
    &&& ed25519_verifies(tx.from@, tx.hash@, tx.signature.0@)
}

impl Transaction {
    /// Builds a transaction and fills in its hash.
    pub fn new(
        from: VerificationKey,
        to: VerificationKey,
        signature: Signature,
        value: u64,
        data: [Blob; 4],
        nonce: u64,
        gas_price: u64,
    ) -> (r: Transaction)
        ensures
            r.from == from,
            r.to == to,
            r.signature == signature,
            r.value == value,
            r.data == data,
            r.nonce == nonce,
            r.gas_price == gas_price,
            r.hash@ == keccak256_of(tx_bytes(r)),
    {
        let mut tx = Transaction {
            signature,
            from,
            to,
            value,
            data,
            nonce,
            gas_price,
            hash: [0u8; 32],
        };
        let bytes = tx.to_bytes();
        tx.hash = keccak256(bytes.as_slice());
        tx
    }

    /// Builds a transaction from `key`'s public key and signs its hash with `key`.
    pub fn signed(
        key: &PrivateKey,
        to: VerificationKey,
        value: u64,
        data: [Blob; 4],
        nonce: u64,
        gas_price: u64,
    ) -> (r: Transaction)
        ensures
            r.from@ == ed25519_public_key_of(key.seed@),
            r.to == to,
            r.value == value,
            r.data == data,
            r.nonce == nonce,
            r.gas_price == gas_price,
            tx_valid(r),
    {
        let from = key.public_key();
        let mut tx = Transaction::new(from, to, Signature([0u8; 64]), value, data, nonce, gas_price);
        tx.signature = key.sign(&tx.hash);
        tx
    }

    /// The bytes that the hash covers.
    pub fn to_bytes(&self) -> (r: Vec<u8>)
        ensures
            r@ == tx_bytes(*self),
    {
        let mut bytes: Vec<u8> = Vec::new();
        put_raw(&mut bytes, &self.from.as_bytes());
        put_raw(&mut bytes, &self.to.as_bytes());
        put_u64(&mut bytes, self.value);
        put_raw(&mut bytes, self.data[0].data());
        put_raw(&mut bytes, self.data[1].data());
        put_raw(&mut bytes, self.data[2].data());
        put_raw(&mut bytes, self.data[3].data());
        put_u64(&mut bytes, self.nonce);
        put_u64(&mut bytes, self.gas_price);
        assert(bytes@ =~= tx_bytes(*self));
        bytes
    }

    /// Recomputes the hash and checks it, then checks the sender's signature over it.
    pub fn validate(&self) -> (r: bool)
        ensures
            r == tx_valid(*self),
    {
        let bytes = self.to_bytes();
        let hash = keccak256(bytes.as_slice());
        if !crate::keys::bytes_eq(&self.hash, &hash) {
            return false;
        }
        self.from.verify(&hash, &self.signature)
    }

    pub fn data(&self) -> (r: &[Blob; 4])
        ensures
            *r == self.data,
    {
        &self.data
    }

    pub fn hash(&self) -> (r: [u8; 32])
        ensures
            r == self.hash,
    {
        self.hash
    }

    pub fn from_(&self) -> (r: VerificationKey)
        ensures
            r == self.from,
    {
        self.from
    }

    pub fn to(&self) -> (r: VerificationKey)
        ensures
            r == self.to,
    {
        self.to
    }

    pub fn value(&self) -> (r: u64)
        ensures
            r == self.value,
    {
        self.value
    }

    pub fn nonce(&self) -> (r: u64)
        ensures
            r == self.nonce,
    {
        self.nonce
    }

    pub fn gas_price(&self) -> (r: u64)
        ensures
            r == self.gas_price,
    {
        self.gas_price
    }

    pub fn signature(&self) -> (r: Signature)
        ensures
            r == self.signature,
    {
        self.signature
    }
}

} // verus!
