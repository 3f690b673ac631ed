use mikan::blob::{Blob, BLOB_SIZE};
use mikan::block::Block;
use rs_merkle::Hasher;
use sha3::Digest;
use mikan::header::{Header, HeaderBuilder};
use mikan::height::{Height, Round};
use mikan::keys::{Address, PrivateKey, Signature, VerificationKey};
use mikan::pool::TransactionPool;
use mikan::rpc::{RpcTransaction, WireError};
use mikan::transaction::Transaction;
use mikan::value::{Value, ValueId};
use rand::{Rng, RngCore};

fn random_blob(rng: &mut impl RngCore) -> Blob {
    let mut data = vec![0u8; BLOB_SIZE];
    rng.fill_bytes(&mut data);
    Blob::new(data)
}

fn filled_blob(byte: u8) -> Blob {
    Blob::new(vec![byte; BLOB_SIZE])
}

fn random_transaction() -> Transaction {
    let mut rng = rand::thread_rng();
    let key = PrivateKey::from_seed(rng.gen());
    let to = key.public_key();
    let data = [
        random_blob(&mut rng),
        random_blob(&mut rng),
        random_blob(&mut rng),
        random_blob(&mut rng),
    ];
    Transaction::signed(
        &key,
        to,
        rng.gen_range(0..1000000000000000000),
        data,
        rng.gen_range(0..1000000000000000000),
        rng.gen_range(0..1000000000000000000),
    )
}

fn tx_with_gas(seed: u8, gas_price: u64) -> Transaction {
    let key = PrivateKey::from_seed([seed; 32]);
    let to = key.public_key();
    let data = [filled_blob(seed), filled_blob(1), filled_blob(2), filled_blob(3)];
    Transaction::signed(&key, to, 10, data, seed as u64, gas_price)
}

fn now() -> u64 {
    chrono::Utc::now().timestamp() as u64
}

fn keccak256(b: &[u8]) -> [u8; 32] {
    sha3::Keccak256::digest(b).into()
}

fn sha3_256(b: &[u8]) -> [u8; 32] {
    sha3::Sha3_256::digest(b).into()
}

fn sha256(b: &[u8]) -> [u8; 32] {
    rs_merkle::algorithms::Sha256::hash(b)
}

#[test]
fn test_random() {
    let tx = random_transaction();
    assert!(tx.validate());
}

#[test]
fn test_block_is_valid() {
    let prev_block = Block::genesis();
    let proposer = Address::from_public_key(&PrivateKey::from_seed([7; 32]).public_key());
    let commitments = vec![[1u8; 32], [2u8; 32], [3u8; 32], [4u8; 32]];
    let block = Block::new(
        1,
        now(),
        prev_block.hash(),
        proposer,
        vec![random_transaction()],
        commitments.clone(),
    )
    .unwrap();
    assert!(block.is_valid(1, &prev_block, now() as i64, &commitments).unwrap());
}

#[test]
fn tampered_transaction_is_invalid() {
    let mut tx = tx_with_gas(3, 5);
    assert!(tx.validate());
    tx.value = tx.value + 1;
    assert!(!tx.validate());

    let mut tx = tx_with_gas(3, 5);
    let mut sig = tx.signature.to_bytes();
    sig[0] ^= 1;
    tx.signature = Signature::from_bytes(sig);
    assert!(!tx.validate());
}

#[test]
fn transaction_hash_is_keccak_of_contents() {
    let tx = tx_with_gas(9, 1);
    assert_eq!(tx.hash(), keccak256(&tx.to_bytes()));
    let bytes = tx.to_bytes();
    assert_eq!(bytes.len(), 32 + 32 + 8 + 4 * BLOB_SIZE + 8 + 8);
    assert_eq!(&bytes[64..72], &10u64.to_be_bytes());
}

#[test]
fn pool_pops_highest_gas_price_first() {
    let mut pool = TransactionPool::new();
    pool.add_transaction(tx_with_gas(1, 30));
    pool.add_transaction(tx_with_gas(2, 50));
    pool.add_transaction(tx_with_gas(3, 10));
    assert_eq!(pool.tx_count(), 3);
    assert_eq!(pool.get_top_transaction().unwrap().gas_price(), 50);
    assert_eq!(pool.get_top_transaction().unwrap().gas_price(), 30);
    assert_eq!(pool.get_top_transaction().unwrap().gas_price(), 10);
    assert!(pool.get_top_transaction().is_none());
}

#[test]
fn pool_equal_gas_prices_come_out_in_insertion_order() {
    let mut pool = TransactionPool::new();
    pool.add_transaction(tx_with_gas(1, 20));
    pool.add_transaction(tx_with_gas(2, 20));
    pool.add_transaction(tx_with_gas(3, 20));
    assert_eq!(pool.get_top_transaction().unwrap().nonce(), 1);
    assert_eq!(pool.get_top_transaction().unwrap().nonce(), 2);
    assert_eq!(pool.get_top_transaction().unwrap().nonce(), 3);
}

#[test]
fn pool_drops_invalid_transactions() {
    let mut pool = TransactionPool::new();
    let mut tx = tx_with_gas(4, 40);
    tx.nonce = 99;
    pool.add_transaction(tx);
    assert_eq!(pool.tx_count(), 0);
}

#[test]
fn pool_drains_up_to_count() {
    let mut pool = TransactionPool::new();
    pool.add_transaction(tx_with_gas(1, 1));
    pool.add_transaction(tx_with_gas(2, 2));
    pool.add_transaction(tx_with_gas(3, 3));
    let top = pool.get_transactions(2);
    assert_eq!(top.len(), 2);
    assert_eq!(top[0].gas_price(), 3);
    assert_eq!(top[1].gas_price(), 2);
    assert_eq!(pool.tx_count(), 1);
    let rest = pool.get_transactions(5);
    assert_eq!(rest.len(), 1);
    assert_eq!(pool.tx_count(), 0);
}

#[test]
fn pool_removes_by_hash() {
    let mut pool = TransactionPool::new();
    let a = tx_with_gas(1, 1);
    let b = tx_with_gas(2, 2);
    let b_hash = b.hash();
    pool.add_transaction(a);
    pool.add_transaction(b);
    pool.remove_transaction(&tx_with_gas(2, 2));
    assert_eq!(pool.tx_count(), 1);
    assert_ne!(pool.get_top_transaction().unwrap().hash(), b_hash);
}

#[test]
fn block_bytes_round_trip() {
    let prev = Block::genesis();
    let commitments = vec![[9u8; 32], [8u8; 32], [7u8; 32], [6u8; 32]];
    let block = Block::new(
        1,
        1000,
        prev.hash(),
        Address::new([5; 20]),
        vec![tx_with_gas(1, 2)],
        commitments,
    )
    .unwrap();
    let bytes = block.to_bytes();
    let decoded = Block::from_bytes(&bytes).unwrap();
    assert_eq!(decoded.to_bytes(), bytes);
    assert_eq!(decoded.hash(), block.hash());
    assert_eq!(decoded.parent_hash(), prev.hash());
    assert!(Block::from_bytes(&bytes[..bytes.len() - 1]).is_none());
    let mut longer = bytes.clone();
    longer.push(0);
    assert!(Block::from_bytes(&longer).is_none());
}

#[test]
fn genesis_is_fixed() {
    let g = Block::genesis();
    assert_eq!(g.header.block_number, 0);
    assert_eq!(g.header.timestamp, 69420);
    assert_eq!(g.parent_hash(), [0u8; 32]);
    assert_eq!(g.header.data_hash, [0u8; 32]);
    assert_eq!(g.hash(), Block::genesis().hash());
    assert!(g.blobs().is_empty());
}

#[test]
fn timestamp_rules() {
    let prev = Block::genesis();
    let t = 1_700_000_000u64;
    let block = Block::new(1, t, prev.hash(), Address::new([1; 20]), vec![], vec![]).unwrap();
    assert!(block.is_valid(1, &prev, t as i64, &[]).unwrap());
    assert!(block.is_valid(1, &prev, (t + 600) as i64, &[]).unwrap());
    assert!(!block.is_valid(1, &prev, (t + 601) as i64, &[]).unwrap());
    assert!(!block.is_valid(1, &prev, (t - 601) as i64, &[]).unwrap());

    let parent = Block::new(1, t, prev.hash(), Address::new([1; 20]), vec![], vec![]).unwrap();
    let child = Block::new(2, t - 1, parent.hash(), Address::new([1; 20]), vec![], vec![]).unwrap();
    assert!(!child.is_valid(2, &parent, t as i64, &[]).unwrap());
}

#[test]
fn validity_checks_each_rule() {
    let prev = Block::genesis();
    let t = 1_700_000_000u64;
    let commitments = vec![[1u8; 32], [2u8; 32], [3u8; 32], [4u8; 32]];
    let block = Block::new(
        1,
        t,
        prev.hash(),
        Address::new([1; 20]),
        vec![tx_with_gas(1, 1)],
        commitments.clone(),
    )
    .unwrap();
    assert!(block.is_valid(1, &prev, t as i64, &commitments).unwrap());
    assert!(!block.is_valid(2, &prev, t as i64, &commitments).unwrap());
    let other = vec![[1u8; 32], [2u8; 32], [3u8; 32], [5u8; 32]];
    assert!(!block.is_valid(1, &prev, t as i64, &other).unwrap());
    let wrong_parent = Block::new(1, t, [1; 32], Address::new([1; 20]), vec![], vec![]).unwrap();
    assert!(!wrong_parent.is_valid(1, &prev, t as i64, &[]).unwrap());

    let mut forged = Block::new(
        1,
        t,
        prev.hash(),
        Address::new([1; 20]),
        vec![tx_with_gas(1, 1)],
        commitments.clone(),
    )
    .unwrap();
    forged.header.data_hash = [0; 32];
    assert!(!forged.is_valid(1, &prev, t as i64, &commitments).unwrap());
}

#[test]
fn data_hash_is_merkle_root_over_blob_hashes() {
    let txs = vec![tx_with_gas(1, 1), tx_with_gas(2, 2)];
    let leaves: Vec<[u8; 32]> = txs
        .iter()
        .flat_map(|tx| tx.data().iter().map(|b| sha256(b.data())).collect::<Vec<_>>())
        .collect();
    let expected = rs_merkle::MerkleTree::<rs_merkle::algorithms::Sha256>::from_leaves(&leaves)
        .root()
        .unwrap();
    let block = Block::new(1, 5, [0; 32], Address::new([1; 20]), txs, vec![]).unwrap();
    assert_eq!(block.header.data_hash, expected);
    assert_eq!(block.tx_tree_root().unwrap(), expected);
    assert_eq!(block.blobs().len(), 8);
}

#[test]
fn block_hash_covers_number_parent_data_and_proposer() {
    let h = Header::new(3, 77, [2; 32], Address::new([4; 20]), vec![], [1; 32]);
    let mut input = Vec::new();
    input.extend_from_slice(&3u64.to_le_bytes());
    input.extend_from_slice(&[1; 32]);
    input.extend_from_slice(&[2; 32]);
    input.extend_from_slice(&[4; 20]);
    assert_eq!(h.block_hash, sha3_256(&input));
    assert!(h.basic_validation().is_ok());
    let g = Header::new(0, 0, [0; 32], Address::new([0; 20]), vec![], [0; 32]);
    assert!(g.basic_validation().is_err());
}

#[test]
fn header_builder_builds_with_hash() {
    let h = HeaderBuilder::new()
        .block_number(4)
        .timestamp(9)
        .parent_hash([3; 32])
        .proposer_address(Address::new([2; 20]))
        .da_commitment(vec![[1; 32]])
        .build();
    assert_eq!(h.block_number, 4);
    assert_eq!(h.timestamp, 9);
    assert_eq!(h.data_hash, [0; 32]);
    assert_eq!(h.da_commitment, vec![[1u8; 32]]);
    assert_eq!(h.block_hash, h.compute_block_hash());
}

#[test]
fn address_is_keccak_prefix_of_key() {
    let pk = PrivateKey::from_seed([5; 32]).public_key();
    let addr = Address::from_public_key(&pk);
    assert_eq!(
        hex::encode(keccak256(b"")),
        "c5d2460186f7233c927e7db2dcc703c0e500b653ca82273b7bfad8045d85a470"
    );
    assert_eq!(addr.into_inner()[..], keccak256(&pk.as_bytes())[..20]);
    assert_ne!(addr.into_inner()[..], pk.as_bytes()[..20]);
}

#[test]
fn value_id_is_default_hasher_of_bytes() {
    let data = vec![1u8, 2, 3, 4];
    let mut hasher = std::collections::hash_map::DefaultHasher::new();
    std::hash::Hash::hash(data.as_slice(), &mut hasher);
    let expected = std::hash::Hasher::finish(&hasher);
    let v = Value::new(data.clone());
    assert_eq!(v.value, expected);
    assert_eq!(v.id(), ValueId::new(expected));
    assert_eq!(v.extensions, data);
    assert_eq!(v.size_bytes(), 12);
}

#[test]
fn keys_sign_and_verify() {
    let key = PrivateKey::from_seed([11; 32]);
    let pk = key.public_key();
    let sig = key.sign(b"message");
    assert!(pk.verify(b"message", &sig));
    assert!(!pk.verify(b"other", &sig));
    assert!(!VerificationKey::from_bytes([0xff; 32]).verify(b"message", &sig));
    let theirs = informalsystems_malachitebft_signing_ed25519::PrivateKey::from([11u8; 32]);
    assert_eq!(VerificationKey::from_key(&theirs.public_key()).as_bytes(), pk.as_bytes());
    let addr = Address::from_public_key(&pk);
    assert_eq!(addr.into_inner()[..], keccak256(&pk.as_bytes())[..20]);
}

#[test]
fn heights_and_rounds() {
    let h = Height::new(5);
    assert_eq!(h.as_u64(), 5);
    assert_eq!(h.increment().as_u64(), 6);
    assert_eq!(h.decrement(), Some(Height::new(4)));
    assert_eq!(Height::new(0).decrement(), None);
    assert_eq!(h.increment_by(3), Height::new(8));
    assert_eq!(h.decrement_by(7), Height::new(0));
    assert_eq!(Height::default(), Height::new(1));
    assert_eq!(Round::Nil.as_i64(), -1);
    assert_eq!(Round::new(3).as_i64(), 3);
    assert_eq!(Round::new(3).as_u32(), Some(3));
    assert_eq!(Round::Nil.as_u32(), None);
    assert_eq!(ValueId::from(7u64).as_u64(), 7);
}

fn blob_hexes(bytes: &[u8]) -> Vec<Vec<u8>> {
    bytes.iter().map(|b| hex::encode(vec![*b; BLOB_SIZE]).into_bytes()).collect()
}

#[test]
fn rpc_transaction_decodes_hex_fields() {
    let key = PrivateKey::from_seed([2; 32]);
    let sig = key.sign(b"x").to_bytes();
    let sig_hex = hex::encode(sig).into_bytes();
    let from = key.public_key().as_bytes();
    let rpc = RpcTransaction::from_hex(from, from, &sig_hex, 5, 6, 7, &blob_hexes(&[1, 2, 3, 0xAB]))
        .unwrap();
    assert_eq!(rpc.signature.to_bytes(), sig);
    assert_eq!(rpc.data[3].data()[0], 0xAB);
    let tx = rpc.into_transaction();
    assert_eq!(tx.hash(), keccak256(&tx.to_bytes()));
    assert_eq!(tx.gas_price(), 7);
    let back = RpcTransaction::from_transaction(&tx);
    assert_eq!(back.nonce, 6);
    assert_eq!(back.data[0].data(), tx.data()[0].data());

    let upper = hex::encode_upper(sig).into_bytes();
    assert!(RpcTransaction::from_hex(from, from, &upper, 5, 6, 7, &blob_hexes(&[1, 2, 3, 4])).is_ok());
}

#[test]
fn rpc_transaction_errors() {
    let from = PrivateKey::from_seed([2; 32]).public_key().as_bytes();
    let sig_hex = hex::encode([0u8; 64]).into_bytes();
    let e = RpcTransaction::from_hex(from, from, b"zz", 0, 0, 0, &blob_hexes(&[1, 2, 3, 4])).unwrap_err();
    assert_eq!(e, WireError::InvalidSignatureHex);
    let e = RpcTransaction::from_hex(from, from, b"abc", 0, 0, 0, &blob_hexes(&[1, 2, 3, 4])).unwrap_err();
    assert_eq!(e, WireError::InvalidSignatureHex);
    let e = RpcTransaction::from_hex(from, from, b"abcd", 0, 0, 0, &blob_hexes(&[1, 2, 3, 4])).unwrap_err();
    assert_eq!(e, WireError::InvalidSignatureLength(2));
    let e = RpcTransaction::from_hex(from, from, &sig_hex, 0, 0, 0, &blob_hexes(&[1, 2, 3])).unwrap_err();
    assert_eq!(e, WireError::BlobCount(3));
    let mut data = blob_hexes(&[1, 2, 3, 4]);
    data[2][7] = b'g';
    let e = RpcTransaction::from_hex(from, from, &sig_hex, 0, 0, 0, &data).unwrap_err();
    assert_eq!(e, WireError::InvalidBlobHex(2));
    let mut data = blob_hexes(&[1, 2, 3, 4]);
    data[1].truncate(10);
    let e = RpcTransaction::from_hex(from, from, &sig_hex, 0, 0, 0, &data).unwrap_err();
    assert_eq!(e, WireError::InvalidBlobLength(1));
}

#[test]
fn address_from_slice_needs_twenty_bytes() {
    assert_eq!(Address::from_slice(&[7u8; 20]), Some(Address::new([7; 20])));
    assert_eq!(Address::from_slice(&[7u8; 19]), None);
    assert_eq!(Address::from_slice(&[7u8; 21]), None);
}
