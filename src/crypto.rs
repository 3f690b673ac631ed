//! Hash functions, signatures and the clock, as used by the rest of the library.
//!
//! Each outside function is reached through one small wrapper whose contract
//! names its result; the names are uninterpreted, so every proof that uses them
//! holds for whatever the outside function computes.
use vstd::prelude::*;

use informalsystems_malachitebft_signing_ed25519 as ed25519;
use rs_merkle::Hasher;
use sha3::Digest;

verus! {

/// The Ed25519 verification key type of the signing crate, carried opaquely.
#[verifier::external_type_specification]
#[verifier::external_body]
pub struct ExEd25519PublicKey(ed25519::PublicKey);

/// Keccak-256 digest of a byte string.
pub uninterp spec fn keccak256_of(msg: Seq<u8>) -> Seq<u8>;

/// SHA3-256 digest of a byte string.
pub uninterp spec fn sha3_256_of(msg: Seq<u8>) -> Seq<u8>;

/// SHA-256 digest of a byte string.
pub uninterp spec fn sha256_of(msg: Seq<u8>) -> Seq<u8>;

/// Root of the binary SHA-256 Merkle tree built over the given leaves.
pub uninterp spec fn merkle_root_of(leaves: Seq<Seq<u8>>) -> Seq<u8>;

/// SipHash-1-3 (std's default hasher, fixed keys) of a byte string, as one
/// build of std computes it.
pub uninterp spec fn sip_hash_of(bytes: Seq<u8>) -> u64;

/// The Ed25519 verification key belonging to a 32-byte secret seed.
pub uninterp spec fn ed25519_public_key_of(seed: Seq<u8>) -> Seq<u8>;

/// The (deterministic) Ed25519 signature of a message under a secret seed.
pub uninterp spec fn ed25519_signature_of(seed: Seq<u8>, msg: Seq<u8>) -> Seq<u8>;

/// Whether an Ed25519 signature over a message verifies under a key (false
/// when the key bytes are no key).
pub uninterp spec fn ed25519_verifies(key: Seq<u8>, msg: Seq<u8>, sig: Seq<u8>) -> bool;

/// Relies on sha3::Keccak256::digest: the Keccak-256 digest of `msg`.
#[verifier::external_body]
pub(crate) fn keccak256(msg: &[u8]) -> (r: [u8; 32])
    ensures
        r@ == keccak256_of(msg@),
{
    sha3::Keccak256::digest(msg).into()
}

/// Relies on sha3::Sha3_256::digest: the SHA3-256 digest of `msg`.
#[verifier::external_body]
pub(crate) fn sha3_256(msg: &[u8]) -> (r: [u8; 32])
    ensures
        r@ == sha3_256_of(msg@),
{
    sha3::Sha3_256::digest(msg).into()
}

/// Relies on rs_merkle's SHA-256 hasher (`Sha256::hash`): the SHA-256 digest of `msg`.
#[verifier::external_body]
pub(crate) fn sha256(msg: &[u8]) -> (r: [u8; 32])
    ensures
        r@ == sha256_of(msg@),
{
    rs_merkle::algorithms::Sha256::hash(msg)
}

/// Relies on rs_merkle::MerkleTree::<Sha256>::from_leaves and `root`: the tree
/// commits the leaves, and `root` is `None` only for a tree without leaves.
#[verifier::external_body]
pub(crate) fn merkle_root(leaves: &[[u8; 32]]) -> (r: Option<[u8; 32]>)
    ensures
        leaves@.len() > 0 ==> r is Some,
        r matches Some(root) ==> root@ == merkle_root_of(leaves@.map_values(|l: [u8; 32]| l@)),
{
    rs_merkle::MerkleTree::<rs_merkle::algorithms::Sha256>::from_leaves(leaves).root()
}

/// Relies on std's `BuildHasher::hash_one` with the default-built
/// `DefaultHasher` (SipHash-1-3 with fixed keys): the hash of the byte slice.
/// Its value is fixed for one build of std, not across std releases.
#[verifier::external_body]
pub(crate) fn sip_hash(bytes: &[u8]) -> (r: u64)
    ensures
        r == sip_hash_of(bytes@),
{
    std::hash::BuildHasher::hash_one(
        &std::hash::BuildHasherDefault::<std::collections::hash_map::DefaultHasher>::default(),
        bytes,
    )
}

/// Relies on the Ed25519 `PrivateKey::from([u8; 32])` and `public_key`: the
/// verification key of a seed.
#[verifier::external_body]
pub(crate) fn ed25519_public_key(seed: &[u8; 32]) -> (r: [u8; 32])
    ensures
        r@ == ed25519_public_key_of(seed@),
{
    *ed25519::PrivateKey::from(*seed).public_key().as_bytes()
}

/// Relies on the Ed25519 `PrivateKey::sign`: deterministic signing, whose result
/// verifies under the seed's own verification key.
#[verifier::external_body]
pub(crate) fn ed25519_sign(seed: &[u8; 32], msg: &[u8]) -> (r: [u8; 64])
    ensures
        r@ == ed25519_signature_of(seed@, msg@),
        ed25519_verifies(ed25519_public_key_of(seed@), msg@, r@),
{
    ed25519::PrivateKey::from(*seed).sign(msg).to_bytes()
}

/// Relies on ed25519_consensus::VerificationKey::try_from, which refuses bytes
/// that are no key, and on the Ed25519 `PublicKey::verify` of the signing crate.
#[verifier::external_body]
pub(crate) fn ed25519_verify(key: &[u8; 32], msg: &[u8], sig: &[u8; 64]) -> (r: bool)
    ensures
        r == ed25519_verifies(key@, msg@, sig@),
{
    match ed25519_consensus::VerificationKey::try_from(*key) {
        Ok(vk) => ed25519::PublicKey::new(vk).verify(msg, &ed25519::Signature::from_bytes(*sig)).is_ok(),
        Err(_) => false,
    }
}

/// Relies on the Ed25519 `PublicKey::as_bytes`: the 32 bytes of a key.
#[verifier::external_body]
pub(crate) fn ed25519_key_bytes(key: &ed25519::PublicKey) -> (r: [u8; 32]) {
    *key.as_bytes()
}

} // verus!
