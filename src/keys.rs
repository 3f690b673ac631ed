//! Validator addresses, Ed25519 keys and signatures.
use vstd::prelude::*;

use crate::crypto::{
    ed25519_key_bytes, ed25519_public_key, ed25519_public_key_of, ed25519_sign,
    ed25519_signature_of, ed25519_verifies, ed25519_verify, keccak256, keccak256_of,
};
use informalsystems_malachitebft_signing_ed25519 as ed25519;

verus! {

/// Whether two byte strings are equal.
pub fn bytes_eq(a: &[u8], b: &[u8]) -> (r: bool)
    ensures
        r == (a@ == b@),
{
    if a.len() != b.len() {
        return false;
    }
    let mut i: usize = 0;
    while i < a.len()
        invariant
            a@.len() == b@.len(),
            i <= a@.len(),
            a@.take(i as int) == b@.take(i as int),
        decreases a@.len() - i,
    {
        if a[i] != b[i] {
            assert(a@[i as int] != b@[i as int]);
            return false;
        }
        assert(a@.take(i + 1) =~= a@.take(i as int).push(a@[i as int]));
        assert(b@.take(i + 1) =~= b@.take(i as int).push(b@[i as int]));
        i = i + 1;
    }
    assert(a@ =~= a@.take(i as int));
    assert(b@ =~= b@.take(i as int));
    true
}

/// A 20-byte validator address.
#[derive(Clone, Copy, Debug, Hash)]
pub struct Address(pub [u8; 20]);

impl PartialEq for Address {
    fn eq(&self, other: &Address) -> (r: bool)
        ensures
            r == (self.0@ == other.0@),
    {
        bytes_eq(&self.0, &other.0)
    }
}

impl vstd::std_specs::cmp::PartialEqSpecImpl for Address {
    open spec fn obeys_eq_spec() -> bool {
        true
    }

    open spec fn eq_spec(&self, other: &Address) -> bool {
        self.0@ == other.0@
    }
}

impl Eq for Address {

}

impl Address {
    pub fn new(value: [u8; 20]) -> (r: Address)
        ensures
            r.0 == value,
    {
        Address(value)
    }

    pub fn into_inner(self) -> (r: [u8; 20])
        ensures
            r == self.0,
    {
        self.0
    }

    /// The address held in `bytes`, which must be exactly 20 bytes long.
    pub fn from_slice(bytes: &[u8]) -> (r: Option<Address>)
        ensures
            r is Some <==> bytes@.len() == 20,
            r matches Some(a) ==> a.0@ == bytes@,
    {
        if bytes.len() != 20 {
            return None;
        }
        let mut address = [0u8; 20];
        let mut i: usize = 0;
        while i < 20
            invariant
                bytes@.len() == 20,
                i <= 20,
                forall|j: int| 0 <= j < i ==> address@[j] == bytes@[j],
            decreases 20 - i,
        {
            address[i] = bytes[i];
            i = i + 1;
        }
        assert(address@ =~= bytes@);
        Some(Address(address))
    }

    /// The first 20 bytes of the Keccak-256 hash of the key.
    pub fn from_public_key(public_key: &VerificationKey) -> (r: Address)
        ensures
            r.0@ == keccak256_of(public_key@).take(20),
    {
        let key = public_key.as_bytes();
        let hash = keccak256(&key);
        let mut address = [0u8; 20];
        let mut i: usize = 0;
        while i < 20
            invariant
                i <= 20,
                hash@.len() == 32,
                forall|j: int| 0 <= j < i ==> address@[j] == hash@[j],
            decreases 20 - i,
        {
            address[i] = hash[i];
            i = i + 1;
        }
        assert(address@ =~= keccak256_of(public_key@).take(20));
        Address(address)
    }
}

impl Default for Address {
    fn default() -> (r: Address)
        ensures
            r.0@ == Seq::new(20, |i: int| 0u8),
    {
        let r = Address([0u8; 20]);
        assert(r.0@ =~= Seq::new(20, |i: int| 0u8));
        r
    }
}

/// The 32 bytes of an Ed25519 verification key.
#[derive(Clone, Copy, Debug)]
pub struct VerificationKey(pub [u8; 32]);

impl VerificationKey {
    /// The 32 bytes of the key.
    pub open spec fn view(&self) -> Seq<u8> {
        self.0@
    }

    pub fn from_bytes(bytes: [u8; 32]) -> (r: VerificationKey)
        ensures
            r.0 == bytes,
    {
        VerificationKey(bytes)
    }

    pub fn as_bytes(&self) -> (r: [u8; 32])
        ensures
            r == self.0,
    {
        self.0
    }

    /// The library's form of a key of the signing crate.
    pub fn from_key(key: &ed25519::PublicKey) -> (r: VerificationKey) {
        VerificationKey(ed25519_key_bytes(key))
    }

    /// Whether `signature` is a valid signature of `msg` under this key.
    pub fn verify(&self, msg: &[u8], signature: &Signature) -> (r: bool)
        ensures
            r == ed25519_verifies(self@, msg@, signature.0@),
    {
        ed25519_verify(&self.0, msg, &signature.0)
    }
}

/// A 64-byte Ed25519 signature.
#[derive(Clone, Copy, Debug)]
pub struct Signature(pub [u8; 64]);

impl Signature {
    pub fn from_bytes(bytes: [u8; 64]) -> (r: Signature)
        ensures
            r.0 == bytes,
    {
        Signature(bytes)
    }

    pub fn to_bytes(&self) -> (r: [u8; 64])
        ensures
            r == self.0,
    {
        self.0
    }
}

/// An Ed25519 signing key, given by its 32-byte seed.
#[derive(Clone, Copy, Debug)]
pub struct PrivateKey {
    pub seed: [u8; 32],
}

impl PrivateKey {
    pub fn from_seed(seed: [u8; 32]) -> (r: PrivateKey)
        ensures
            r.seed == seed,
    {
        PrivateKey { seed }
    }

    pub fn public_key(&self) -> (r: VerificationKey)
        ensures
            r@ == ed25519_public_key_of(self.seed@),
    {
        VerificationKey(ed25519_public_key(&self.seed))
    }

    /// Signs `msg`; the signature verifies under this key's public key.
    pub fn sign(&self, msg: &[u8]) -> (r: Signature)
        ensures
            r.0@ == ed25519_signature_of(self.seed@, msg@),
            ed25519_verifies(ed25519_public_key_of(self.seed@), msg@, r.0@),
    {
        Signature(ed25519_sign(&self.seed, msg))
    }
}

} // verus!
