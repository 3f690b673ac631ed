//! The canonical bytes of a block, used on the wire and in the store.
//!
//! Header: block number and timestamp (big-endian), block hash, the count of
//! commitments and each commitment, parent hash, data hash, proposer address.
//! Transaction: signature, sender, recipient, value, the four blobs each
//! length-prefixed, nonce, gas price, hash. Block: header, count of
//! transactions, the transactions.
use vstd::prelude::*;

use crate::blob::{Blob, BLOB_SIZE};
use crate::block::Block;
use crate::codec::{
    be64, enc_bytes, lemma_parse_bytes, lemma_parse_raw, lemma_parse_u64, parse_bytes, parse_raw,
    parse_u64, put_bytes, put_raw, put_u64, read_bytes, read_raw, read_u64,
};
use crate::header::Header;
use crate::keys::{Address, Signature, VerificationKey};
use crate::transaction::Transaction;

verus! {

/// The byte strings, one after the other.
pub open spec fn concat(parts: Seq<Seq<u8>>) -> Seq<u8>
    decreases parts.len(),
{
    if parts.len() == 0 {
        Seq::empty()
    } else {
        concat(parts.drop_last()) + parts.last()
    }
}

pub proof fn lemma_concat_head(parts: Seq<Seq<u8>>)
    requires
        parts.len() > 0,
    ensures
        concat(parts) == parts[0] + concat(parts.skip(1)),
    decreases parts.len(),
{
    if parts.len() == 1 {
        assert(parts.drop_last() =~= Seq::<Seq<u8>>::empty());
        assert(parts.skip(1) =~= Seq::<Seq<u8>>::empty());
        assert(concat(parts) =~= parts[0] + concat(parts.skip(1)));
    } else {
        lemma_concat_head(parts.drop_last());
        assert(parts.drop_last().skip(1) =~= parts.skip(1).drop_last());
        assert(parts.skip(1).last() == parts.last());
        assert(concat(parts) =~= parts[0] + concat(parts.skip(1)));
    }
}

proof fn lemma_concat_push(parts: Seq<Seq<u8>>, p: Seq<u8>)
    ensures
        concat(parts.push(p)) == concat(parts) + p,
{
    assert(parts.push(p).drop_last() =~= parts);
}

/// A transaction as plain values.
pub struct TxModel {
    pub signature: Seq<u8>,
    pub from: Seq<u8>,
    pub to: Seq<u8>,
    pub value: u64,
    pub blobs: Seq<Seq<u8>>,
    pub nonce: u64,
    pub gas_price: u64,
    pub hash: Seq<u8>,
}

/// A header as plain values.
pub struct HeaderModel {
    pub block_number: u64,
    pub timestamp: u64,
    pub block_hash: Seq<u8>,
    pub da_commitment: Seq<Seq<u8>>,
    pub parent_hash: Seq<u8>,
    pub data_hash: Seq<u8>,
    pub proposer: Seq<u8>,
}

/// A block as plain values.
pub struct BlockModel {
    pub header: HeaderModel,
    pub transactions: Seq<TxModel>,
}

pub open spec fn tx_model(t: Transaction) -> TxModel {
    TxModel {
        signature: t.signature.0@,
        from: t.from@,
        to: t.to@,
        value: t.value,
        blobs: seq![t.data[0]@, t.data[1]@, t.data[2]@, t.data[3]@],
        nonce: t.nonce,
        gas_price: t.gas_price,
        hash: t.hash@,
    }
}

pub open spec fn header_model(h: Header) -> HeaderModel {
    HeaderModel {
        block_number: h.block_number,
        timestamp: h.timestamp,
        block_hash: h.block_hash@,
        da_commitment: h.da_commitment@.map_values(|c: [u8; 32]| c@),
        parent_hash: h.parent_hash@,
        data_hash: h.data_hash@,
        proposer: h.proposer_address.0@,
    }
}

pub open spec fn block_model(b: Block) -> BlockModel {
    BlockModel {
        header: header_model(b.header),
        transactions: b.transactions@.map_values(|t: Transaction| tx_model(t)),
    }
}

pub open spec fn enc_tx(m: TxModel) -> Seq<u8> {
    m.signature + m.from + m.to + be64(m.value) + enc_bytes(m.blobs[0]) + enc_bytes(m.blobs[1])
        + enc_bytes(m.blobs[2]) + enc_bytes(m.blobs[3]) + be64(m.nonce) + be64(m.gas_price)
        + m.hash
}

pub open spec fn enc_header(m: HeaderModel) -> Seq<u8> {
    be64(m.block_number) + be64(m.timestamp) + m.block_hash + be64(m.da_commitment.len() as u64)
        + concat(m.da_commitment) + m.parent_hash + m.data_hash + m.proposer
}

pub open spec fn enc_block(m: BlockModel) -> Seq<u8> {
    enc_header(m.header) + be64(m.transactions.len() as u64) + concat(
        m.transactions.map_values(|t: TxModel| enc_tx(t)),
    )
}

/// Reads `n` 32-byte hashes.
pub open spec fn parse_hashes(s: Seq<u8>, n: nat) -> Option<(Seq<Seq<u8>>, Seq<u8>)>
    decreases n,
{
    if n == 0 {
        Some((Seq::empty(), s))
    } else {
        match parse_raw(s, 32) {
            None => None,
            Some((h, rest)) => match parse_hashes(rest, (n - 1) as nat) {
                None => None,
                Some((hs, rest2)) => Some((seq![h] + hs, rest2)),
            },
        }
    }
}

/// Reads a blob: a length-prefixed byte string of exactly `BLOB_SIZE` bytes.
pub open spec fn parse_blob(s: Seq<u8>) -> Option<(Seq<u8>, Seq<u8>)> {
    match parse_bytes(s) {
        Some((b, rest)) => if b.len() == BLOB_SIZE {
            Some((b, rest))
        } else {
            None
        },
        None => None,
    }
}

/// Reads a transaction's signature, sender, recipient and value.
#[verifier::opaque]
pub open spec fn parse_tx_head(s: Seq<u8>) -> Option<((Seq<u8>, Seq<u8>, Seq<u8>, u64), Seq<u8>)> {
    match parse_raw(s, 64) {
        None => None,
        Some((signature, s1)) => match parse_raw(s1, 32) {
            None => None,
            Some((from, s2)) => match parse_raw(s2, 32) {
                None => None,
                Some((to, s3)) => match parse_u64(s3) {
                    None => None,
                    Some((value, s4)) => Some(((signature, from, to, value), s4)),
                },
            },
        },
    }
}

/// Reads a transaction's four blobs.
#[verifier::opaque]
pub open spec fn parse_blobs(s: Seq<u8>) -> Option<(Seq<Seq<u8>>, Seq<u8>)> {
    match parse_blob(s) {
        None => None,
        Some((b0, s1)) => match parse_blob(s1) {
            None => None,
            Some((b1, s2)) => match parse_blob(s2) {
                None => None,
                Some((b2, s3)) => match parse_blob(s3) {
                    None => None,
                    Some((b3, s4)) => Some((seq![b0, b1, b2, b3], s4)),
                },
            },
        },
    }
}

/// Reads a transaction's nonce, gas price and hash.
#[verifier::opaque]
pub open spec fn parse_tx_tail(s: Seq<u8>) -> Option<((u64, u64, Seq<u8>), Seq<u8>)> {
    match parse_u64(s) {
        None => None,
        Some((nonce, s1)) => match parse_u64(s1) {
            None => None,
            Some((gas_price, s2)) => match parse_raw(s2, 32) {
                None => None,
                Some((hash, s3)) => Some(((nonce, gas_price, hash), s3)),
            },
        },
    }
}

#[verifier::opaque]
pub open spec fn parse_tx(s: Seq<u8>) -> Option<(TxModel, Seq<u8>)> {
    match parse_tx_head(s) {
        None => None,
        Some(((signature, from, to, value), s1)) => match parse_blobs(s1) {
            None => None,
            Some((blobs, s2)) => match parse_tx_tail(s2) {
                None => None,
                Some(((nonce, gas_price, hash), s3)) => Some(
                    (TxModel { signature, from, to, value, blobs, nonce, gas_price, hash }, s3),
                ),
            },
        },
    }
}

pub open spec fn parse_txs(s: Seq<u8>, n: nat) -> Option<(Seq<TxModel>, Seq<u8>)>
    decreases n,
{
    if n == 0 {
        Some((Seq::empty(), s))
    } else {
        match parse_tx(s) {
            None => None,
            Some((t, rest)) => match parse_txs(rest, (n - 1) as nat) {
                None => None,
                Some((ts, rest2)) => Some((seq![t] + ts, rest2)),
            },
        }
    }
}

pub open spec fn parse_header(s: Seq<u8>) -> Option<(HeaderModel, Seq<u8>)> {
    match parse_u64(s) {
        None => None,
        Some((block_number, s1)) => match parse_u64(s1) {
            None => None,
            Some((timestamp, s2)) => match parse_raw(s2, 32) {
                None => None,
                Some((block_hash, s3)) => match parse_u64(s3) {
                    None => None,
                    Some((n, s4)) => match parse_hashes(s4, n as nat) {
                        None => None,
                        Some((da_commitment, s5)) => match parse_raw(s5, 32) {
                            None => None,
                            Some((parent_hash, s6)) => match parse_raw(s6, 32) {
                                None => None,
                                Some((data_hash, s7)) => match parse_raw(s7, 20) {
                                    None => None,
                                    Some((proposer, s8)) => Some(
                                        (
                                            HeaderModel {
                                                block_number,
                                                timestamp,
                                                block_hash,
                                                da_commitment,
                                                parent_hash,
                                                data_hash,
                                                proposer,
                                            },
                                            s8,
                                        ),
                                    ),
                                },
                            },
                        },
                    },
                },
            },
        },
    }
}

/// The block that some bytes hold: a header and transactions that use up
/// all of them.
pub open spec fn parse_block(s: Seq<u8>) -> Option<BlockModel> {
    match parse_header(s) {
        None => None,
        Some((header, s1)) => match parse_u64(s1) {
            None => None,
            Some((n, s2)) => match parse_txs(s2, n as nat) {
                None => None,
                Some((transactions, s3)) => if s3.len() == 0 {
                    Some(BlockModel { header, transactions })
                } else {
                    None
                },
            },
        },
    }
}

/// Lengths that the types guarantee: hashes of 32 bytes, keys of 32,
/// signatures of 64, addresses of 20, four blobs of `BLOB_SIZE` bytes.
pub open spec fn tx_model_wf(m: TxModel) -> bool {
    &&& m.signature.len() == 64
    &&& m.from.len() == 32
    &&& m.to.len() == 32
    &&& m.blobs.len() == 4
    &&& forall|i: int| 0 <= i < 4 ==> (#[trigger] m.blobs[i]).len() == BLOB_SIZE
    &&& m.hash.len() == 32
}

pub open spec fn header_model_wf(m: HeaderModel) -> bool {
    &&& m.block_hash.len() == 32
    &&& m.da_commitment.len() <= u64::MAX
    &&& forall|i: int| 0 <= i < m.da_commitment.len() ==> (#[trigger] m.da_commitment[i]).len() == 32
    &&& m.parent_hash.len() == 32
    &&& m.data_hash.len() == 32
    &&& m.proposer.len() == 20
}

pub open spec fn block_model_wf(m: BlockModel) -> bool {
    &&& header_model_wf(m.header)
    &&& m.transactions.len() <= u64::MAX
    &&& forall|i: int| 0 <= i < m.transactions.len() ==> tx_model_wf(#[trigger] m.transactions[i])
}

proof fn lemma_parse_hashes(hs: Seq<Seq<u8>>, tail: Seq<u8>)
    requires
        forall|i: int| 0 <= i < hs.len() ==> (#[trigger] hs[i]).len() == 32,
    ensures
        parse_hashes(concat(hs) + tail, hs.len()) == Some((hs, tail)),
    decreases hs.len(),
{
    if hs.len() == 0 {
        assert(concat(hs) + tail =~= tail);
    } else {
        lemma_concat_head(hs);
        let rest = hs.skip(1);
        assert(concat(hs) + tail =~= hs[0] + (concat(rest) + tail));
        lemma_parse_raw(hs[0], concat(rest) + tail);
        lemma_parse_hashes(rest, tail);
        assert(seq![hs[0]] + rest =~= hs);
    }
}

proof fn lemma_parse_blob(b: Seq<u8>, tail: Seq<u8>)
    requires
        b.len() == BLOB_SIZE,
    ensures
        parse_blob(enc_bytes(b) + tail) == Some((b, tail)),
{
    lemma_parse_bytes(b, tail);
}

/// `enc_tx(m)` followed by `tail`, grouped from the right.
pub open spec fn enc_tx_onto(m: TxModel, tail: Seq<u8>) -> Seq<u8> {
    m.signature + (m.from + (m.to + (be64(m.value) + (enc_bytes(m.blobs[0]) + (enc_bytes(m.blobs[1])
        + (enc_bytes(m.blobs[2]) + (enc_bytes(m.blobs[3]) + (be64(m.nonce) + (be64(m.gas_price) + (
    m.hash + tail))))))))))
}

#[verifier::rlimit(60)]
proof fn lemma_enc_tx_onto(m: TxModel, tail: Seq<u8>)
    ensures
        enc_tx(m) + tail == enc_tx_onto(m, tail),
{
    assert(enc_tx(m) + tail =~= enc_tx_onto(m, tail));
}

proof fn lemma_parse_tx_head(signature: Seq<u8>, from: Seq<u8>, to: Seq<u8>, value: u64, rest: Seq<u8>)
    requires
        signature.len() == 64,
        from.len() == 32,
        to.len() == 32,
    ensures
        parse_tx_head(signature + (from + (to + (be64(value) + rest)))) == Some(
            ((signature, from, to, value), rest),
        ),
{
    reveal(parse_tx_head);
    lemma_parse_raw(signature, from + (to + (be64(value) + rest)));
    lemma_parse_raw(from, to + (be64(value) + rest));
    lemma_parse_raw(to, be64(value) + rest);
    lemma_parse_u64(value, rest);
}

proof fn lemma_parse_blobs(b0: Seq<u8>, b1: Seq<u8>, b2: Seq<u8>, b3: Seq<u8>, rest: Seq<u8>)
    requires
        b0.len() == BLOB_SIZE,
        b1.len() == BLOB_SIZE,
        b2.len() == BLOB_SIZE,
        b3.len() == BLOB_SIZE,
    ensures
        parse_blobs(enc_bytes(b0) + (enc_bytes(b1) + (enc_bytes(b2) + (enc_bytes(b3) + rest))))
            == Some((seq![b0, b1, b2, b3], rest)),
{
    reveal(parse_blobs);
    lemma_parse_blob(b0, enc_bytes(b1) + (enc_bytes(b2) + (enc_bytes(b3) + rest)));
    lemma_parse_blob(b1, enc_bytes(b2) + (enc_bytes(b3) + rest));
    lemma_parse_blob(b2, enc_bytes(b3) + rest);
    lemma_parse_blob(b3, rest);
}

proof fn lemma_parse_tx_tail(nonce: u64, gas_price: u64, hash: Seq<u8>, rest: Seq<u8>)
    requires
        hash.len() == 32,
    ensures
        parse_tx_tail(be64(nonce) + (be64(gas_price) + (hash + rest))) == Some(
            ((nonce, gas_price, hash), rest),
        ),
{
    reveal(parse_tx_tail);
    lemma_parse_u64(nonce, be64(gas_price) + (hash + rest));
    lemma_parse_u64(gas_price, hash + rest);
    lemma_parse_raw(hash, rest);
}

pub proof fn lemma_parse_tx(m: TxModel, tail: Seq<u8>)
    requires
        tx_model_wf(m),
    ensures
        parse_tx(enc_tx(m) + tail) == Some((m, tail)),
{
    lemma_enc_tx_onto(m, tail);
    let y = be64(m.nonce) + (be64(m.gas_price) + (m.hash + tail));
    let x = enc_bytes(m.blobs[0]) + (enc_bytes(m.blobs[1]) + (enc_bytes(m.blobs[2]) + (enc_bytes(
        m.blobs[3],
    ) + y)));
    assert(m.blobs[0].len() == BLOB_SIZE);
    assert(m.blobs[1].len() == BLOB_SIZE);
    assert(m.blobs[2].len() == BLOB_SIZE);
    assert(m.blobs[3].len() == BLOB_SIZE);
    lemma_parse_tx_head(m.signature, m.from, m.to, m.value, x);
    lemma_parse_blobs(m.blobs[0], m.blobs[1], m.blobs[2], m.blobs[3], y);
    lemma_parse_tx_tail(m.nonce, m.gas_price, m.hash, tail);
    assert(seq![m.blobs[0], m.blobs[1], m.blobs[2], m.blobs[3]] =~= m.blobs);
    reveal(parse_tx);
}

#[verifier::rlimit(60)]
proof fn lemma_parse_txs(ms: Seq<TxModel>, tail: Seq<u8>)
    requires
        forall|i: int| 0 <= i < ms.len() ==> tx_model_wf(#[trigger] ms[i]),
    ensures
        parse_txs(concat(ms.map_values(|t: TxModel| enc_tx(t))) + tail, ms.len()) == Some((ms, tail)),
    decreases ms.len(),
{
    let encs = ms.map_values(|t: TxModel| enc_tx(t));
    if ms.len() == 0 {
        assert(concat(encs) + tail =~= tail);
    } else {
        lemma_concat_head(encs);
        let rest = ms.skip(1);
        assert(encs.skip(1) =~= rest.map_values(|t: TxModel| enc_tx(t)));
        let after = concat(rest.map_values(|t: TxModel| enc_tx(t))) + tail;
        assert(concat(encs) + tail =~= enc_tx(ms[0]) + after);
        lemma_parse_tx(ms[0], after);
        lemma_parse_txs(rest, tail);
        assert(seq![ms[0]] + rest =~= ms);
    }
}

pub proof fn lemma_parse_header(m: HeaderModel, tail: Seq<u8>)
    requires
        header_model_wf(m),
    ensures
        parse_header(enc_header(m) + tail) == Some((m, tail)),
{
    let t7 = m.proposer + tail;
    let t6 = m.data_hash + t7;
    let t5 = m.parent_hash + t6;
    let t4 = concat(m.da_commitment) + t5;
    let t3 = be64(m.da_commitment.len() as u64) + t4;
    let t2 = m.block_hash + t3;
    let t1 = be64(m.timestamp) + t2;
    assert(enc_header(m) + tail =~= be64(m.block_number) + t1);
    lemma_parse_u64(m.block_number, t1);
    lemma_parse_u64(m.timestamp, t2);
    lemma_parse_raw(m.block_hash, t3);
    lemma_parse_u64(m.da_commitment.len() as u64, t4);
    lemma_parse_hashes(m.da_commitment, t5);
    lemma_parse_raw(m.parent_hash, t6);
    lemma_parse_raw(m.data_hash, t7);
    lemma_parse_raw(m.proposer, tail);
}

/// Decoding the canonical bytes of a block gives the block back.
pub proof fn lemma_block_round_trip(m: BlockModel)
    requires
        block_model_wf(m),
    ensures
        parse_block(enc_block(m)) == Some(m),
{
    let txs = concat(m.transactions.map_values(|t: TxModel| enc_tx(t)));
    let t1 = be64(m.transactions.len() as u64) + txs;
    assert(enc_block(m) =~= enc_header(m.header) + t1);
    lemma_parse_header(m.header, t1);
    lemma_parse_u64(m.transactions.len() as u64, txs);
    lemma_parse_txs(m.transactions, Seq::empty());
    assert(txs + Seq::<u8>::empty() =~= txs);
}

fn put_tx(out: &mut Vec<u8>, t: &Transaction)
    ensures
        final(out)@ == old(out)@ + enc_tx(tx_model(*t)),
        tx_model_wf(tx_model(*t)),
{
    put_raw(out, &t.signature.0);
    put_raw(out, &t.from.0);
    put_raw(out, &t.to.0);
    put_u64(out, t.value);
    put_bytes(out, t.data[0].data());
    put_bytes(out, t.data[1].data());
    put_bytes(out, t.data[2].data());
    put_bytes(out, t.data[3].data());
    put_u64(out, t.nonce);
    put_u64(out, t.gas_price);
    put_raw(out, &t.hash);
    assert(final(out)@ =~= old(out)@ + enc_tx(tx_model(*t)));
    // Each blob's length is `BLOB_SIZE`, as its accessor states.
    let _ = t.data[0].data();
    let _ = t.data[1].data();
    let _ = t.data[2].data();
    let _ = t.data[3].data();
    assert forall|j: int| 0 <= j < 4 implies (#[trigger] tx_model(*t).blobs[j]).len() == BLOB_SIZE by {
        assert(tx_model(*t).blobs[j] == t.data[j]@);
    }
}

fn put_header(out: &mut Vec<u8>, h: &Header)
    ensures
        final(out)@ == old(out)@ + enc_header(header_model(*h)),
{
    let ghost start = out@;
    put_u64(out, h.block_number);
    put_u64(out, h.timestamp);
    put_raw(out, &h.block_hash);
    put_u64(out, h.da_commitment.len() as u64);
    let ghost mid = out@;
    let ghost cs = h.da_commitment@.map_values(|c: [u8; 32]| c@);
    let mut i: usize = 0;
    while i < h.da_commitment.len()
        invariant
            i <= h.da_commitment@.len(),
            cs == h.da_commitment@.map_values(|c: [u8; 32]| c@),
            out@ == mid + concat(cs.take(i as int)),
        decreases h.da_commitment@.len() - i,
    {
        put_raw(out, &h.da_commitment[i]);
        proof {
            assert(cs.take(i + 1) =~= cs.take(i as int).push(cs[i as int]));
            lemma_concat_push(cs.take(i as int), cs[i as int]);
        }
        i = i + 1;
    }
    assert(cs.take(i as int) =~= cs);
    put_raw(out, &h.parent_hash);
    put_raw(out, &h.data_hash);
    put_raw(out, &h.proposer_address.0);
    assert(final(out)@ =~= start + enc_header(header_model(*h)));
}

impl Block {
    /// The canonical bytes of the block, from which `from_bytes` gives it back.
    pub fn to_bytes(&self) -> (r: Vec<u8>)
        ensures
            r@ == enc_block(block_model(*self)),
            parse_block(r@) == Some(block_model(*self)),
    {
        let mut out: Vec<u8> = Vec::new();
        // The number of commitments fits the 64-bit count written before them.
        let _ = self.header.da_commitment.len();
        put_header(&mut out, &self.header);
        put_u64(&mut out, self.transactions.len() as u64);
        let ghost mid = out@;
        let ghost encs = self.transactions@.map_values(|t: Transaction| enc_tx(tx_model(t)));
        let mut i: usize = 0;
        while i < self.transactions.len()
            invariant
                i <= self.transactions@.len(),
                encs == self.transactions@.map_values(|t: Transaction| enc_tx(tx_model(t))),
                out@ == mid + concat(encs.take(i as int)),
                forall|j: int| 0 <= j < i ==> tx_model_wf(tx_model(#[trigger] self.transactions@[j])),
            decreases self.transactions@.len() - i,
        {
            put_tx(&mut out, &self.transactions[i]);
            proof {
                assert(encs.take(i + 1) =~= encs.take(i as int).push(encs[i as int]));
                lemma_concat_push(encs.take(i as int), encs[i as int]);
            }
            i = i + 1;
        }
        proof {
            assert(encs.take(i as int) =~= encs);
            let m = block_model(*self);
            assert(m.transactions.map_values(|t: TxModel| enc_tx(t)) =~= encs);
            assert(out@ =~= enc_block(m));
            assert forall|j: int| 0 <= j < m.header.da_commitment.len() implies (#[trigger] m.header.da_commitment[j]).len() == 32 by {
                assert(m.header.da_commitment[j] == self.header.da_commitment@[j]@);
            }
            assert forall|j: int| 0 <= j < m.transactions.len() implies tx_model_wf(#[trigger] m.transactions[j]) by {
                assert(m.transactions[j] == tx_model(self.transactions@[j]));
            }
            lemma_block_round_trip(m);
        }
        out
    }
}

/// Reads 20 raw bytes into an array.
fn read_array20(buf: &[u8], pos: usize) -> (r: Option<([u8; 20], usize)>)
    requires
        pos <= buf@.len(),
    ensures
        match parse_raw(buf@.skip(pos as int), 20) {
            None => r is None,
            Some((v, rest)) => r matches Some((a, p)) && a@ == v && p <= buf@.len() && rest
                == buf@.skip(p as int),
        },
{
    let (v, p) = match read_raw(buf, pos, 20) {
        None => return None,
        Some(x) => x,
    };
    let mut a = [0u8; 20];
    let mut i: usize = 0;
    while i < 20
        invariant
            v@.len() == 20,
            i <= 20,
            a@.len() == 20,
            forall|j: int| 0 <= j < i ==> a@[j] == v@[j],
        decreases 20 - i,
    {
        a[i] = v[i];
        i = i + 1;
    }
    assert(a@ =~= v@);
    Some((a, p))
}

/// Reads 32 raw bytes into an array.
fn read_array32(buf: &[u8], pos: usize) -> (r: Option<([u8; 32], usize)>)
    requires
        pos <= buf@.len(),
    ensures
        match parse_raw(buf@.skip(pos as int), 32) {
            None => r is None,
            Some((v, rest)) => r matches Some((a, p)) && a@ == v && p <= buf@.len() && rest
                == buf@.skip(p as int),
        },
{
    let (v, p) = match read_raw(buf, pos, 32) {
        None => return None,
        Some(x) => x,
    };
    let mut a = [0u8; 32];
    let mut i: usize = 0;
    while i < 32
        invariant
            v@.len() == 32,
            i <= 32,
            a@.len() == 32,
            forall|j: int| 0 <= j < i ==> a@[j] == v@[j],
        decreases 32 - i,
    {
        a[i] = v[i];
        i = i + 1;
    }
    assert(a@ =~= v@);
    Some((a, p))
}

/// Reads 64 raw bytes into an array.
fn read_array64(buf: &[u8], pos: usize) -> (r: Option<([u8; 64], usize)>)
    requires
        pos <= buf@.len(),
    ensures
        match parse_raw(buf@.skip(pos as int), 64) {
            None => r is None,
            Some((v, rest)) => r matches Some((a, p)) && a@ == v && p <= buf@.len() && rest
                == buf@.skip(p as int),
        },
{
    let (v, p) = match read_raw(buf, pos, 64) {
        None => return None,
        Some(x) => x,
    };
    let mut a = [0u8; 64];
    let mut i: usize = 0;
    while i < 64
        invariant
            v@.len() == 64,
            i <= 64,
            a@.len() == 64,
            forall|j: int| 0 <= j < i ==> a@[j] == v@[j],
        decreases 64 - i,
    {
        a[i] = v[i];
        i = i + 1;
    }
    assert(a@ =~= v@);
    Some((a, p))
}

fn read_blob(buf: &[u8], pos: usize) -> (r: Option<(Blob, usize)>)
    requires
        pos <= buf@.len(),
    ensures
        match parse_blob(buf@.skip(pos as int)) {
            None => r is None,
            Some((v, rest)) => r matches Some((b, p)) && b@ == v && p <= buf@.len() && rest
                == buf@.skip(p as int),
        },
{
    let (v, p) = match read_bytes(buf, pos) {
        None => return None,
        Some(x) => x,
    };
    if v.len() != BLOB_SIZE {
        return None;
    }
    Some((Blob::new(v), p))
}

fn read_tx_head(buf: &[u8], pos: usize) -> (r: Option<(([u8; 64], [u8; 32], [u8; 32], u64), usize)>)
    requires
        pos <= buf@.len(),
    ensures
        match parse_tx_head(buf@.skip(pos as int)) {
            None => r is None,
            Some((m, rest)) => r matches Some((v, p)) && (v.0@, v.1@, v.2@, v.3) == m && p
                <= buf@.len() && rest == buf@.skip(p as int),
        },
{
    reveal(parse_tx_head);
    let (signature, p) = match read_array64(buf, pos) {
        None => return None,
        Some(x) => x,
    };
    let (from, p) = match read_array32(buf, p) {
        None => return None,
        Some(x) => x,
    };
    let (to, p) = match read_array32(buf, p) {
        None => return None,
        Some(x) => x,
    };
    let (value, p) = match read_u64(buf, p) {
        None => return None,
        Some(x) => x,
    };
    Some(((signature, from, to, value), p))
}

fn read_blobs(buf: &[u8], pos: usize) -> (r: Option<([Blob; 4], usize)>)
    requires
        pos <= buf@.len(),
    ensures
        match parse_blobs(buf@.skip(pos as int)) {
            None => r is None,
            Some((m, rest)) => r matches Some((v, p)) && seq![v[0]@, v[1]@, v[2]@, v[3]@] == m
                && p <= buf@.len() && rest == buf@.skip(p as int),
        },
{
    reveal(parse_blobs);
    let (b0, p) = match read_blob(buf, pos) {
        None => return None,
        Some(x) => x,
    };
    let (b1, p) = match read_blob(buf, p) {
        None => return None,
        Some(x) => x,
    };
    let (b2, p) = match read_blob(buf, p) {
        None => return None,
        Some(x) => x,
    };
    let (b3, p) = match read_blob(buf, p) {
        None => return None,
        Some(x) => x,
    };
    Some(([b0, b1, b2, b3], p))
}

fn read_tx_tail(buf: &[u8], pos: usize) -> (r: Option<((u64, u64, [u8; 32]), usize)>)
    requires
        pos <= buf@.len(),
    ensures
        match parse_tx_tail(buf@.skip(pos as int)) {
            None => r is None,
            Some((m, rest)) => r matches Some((v, p)) && (v.0, v.1, v.2@) == m && p <= buf@.len()
                && rest == buf@.skip(p as int),
        },
{
    reveal(parse_tx_tail);
    let (nonce, p) = match read_u64(buf, pos) {
        None => return None,
        Some(x) => x,
    };
    let (gas_price, p) = match read_u64(buf, p) {
        None => return None,
        Some(x) => x,
    };
    let (hash, p) = match read_array32(buf, p) {
        None => return None,
        Some(x) => x,
    };
    Some(((nonce, gas_price, hash), p))
}

fn read_tx(buf: &[u8], pos: usize) -> (r: Option<(Transaction, usize)>)
    requires
        pos <= buf@.len(),
    ensures
        match parse_tx(buf@.skip(pos as int)) {
            None => r is None,
            Some((m, rest)) => r matches Some((t, p)) && tx_model(t) == m && p <= buf@.len() && rest
                == buf@.skip(p as int),
        },
{
    reveal(parse_tx);
    let ((signature, from, to, value), p) = match read_tx_head(buf, pos) {
        None => return None,
        Some(x) => x,
    };
    let (data, p) = match read_blobs(buf, p) {
        None => return None,
        Some(x) => x,
    };
    let ((nonce, gas_price, hash), p) = match read_tx_tail(buf, p) {
        None => return None,
        Some(x) => x,
    };
    let tx = Transaction {
        signature: Signature(signature),
        from: VerificationKey(from),
        to: VerificationKey(to),
        value,
        data,
        nonce,
        gas_price,
        hash,
    };
    Some((tx, p))
}

fn read_hashes(buf: &[u8], pos: usize, n: u64) -> (r: Option<(Vec<[u8; 32]>, usize)>)
    requires
        pos <= buf@.len(),
    ensures
        match parse_hashes(buf@.skip(pos as int), n as nat) {
            None => r is None,
            Some((hs, rest)) => r matches Some((v, p)) && v@.map_values(|c: [u8; 32]| c@) == hs
                && p <= buf@.len() && rest == buf@.skip(p as int),
        },
{
    let ghost s0 = buf@.skip(pos as int);
    let mut commitments: Vec<[u8; 32]> = Vec::new();
    let mut q = pos;
    let mut i: u64 = 0;
    assert(commitments@.map_values(|c: [u8; 32]| c@) + Seq::<Seq<u8>>::empty() =~= Seq::<Seq<u8>>::empty());
    while i < n
        invariant
            s0 == buf@.skip(pos as int),
            q <= buf@.len(),
            i <= n,
            parse_hashes(s0, n as nat) == match parse_hashes(buf@.skip(q as int), (n - i) as nat) {
                None => None,
                Some((hs, rest)) => Some((commitments@.map_values(|c: [u8; 32]| c@) + hs, rest)),
            },
        decreases n - i,
    {
        let (c, q2) = match read_array32(buf, q) {
            None => {
                assert(parse_hashes(buf@.skip(q as int), (n - i) as nat) is None);
                return None;
            },
            Some(x) => x,
        };
        proof {
            match parse_hashes(buf@.skip(q2 as int), (n - i - 1) as nat) {
                None => {},
                Some((hs, rest)) => {
                    assert(commitments@.map_values(|c: [u8; 32]| c@) + (seq![c@] + hs) =~= commitments@.push(c).map_values(|c: [u8; 32]| c@) + hs);
                },
            }
        }
        commitments.push(c);
        q = q2;
        i = i + 1;
    }
    assert(commitments@.map_values(|c: [u8; 32]| c@) + Seq::<Seq<u8>>::empty() =~= commitments@.map_values(|c: [u8; 32]| c@));
    Some((commitments, q))
}

fn read_txs(buf: &[u8], pos: usize, n: u64) -> (r: Option<(Vec<Transaction>, usize)>)
    requires
        pos <= buf@.len(),
    ensures
        match parse_txs(buf@.skip(pos as int), n as nat) {
            None => r is None,
            Some((ts, rest)) => r matches Some((v, p)) && v@.map_values(|t: Transaction| tx_model(t))
                == ts && p <= buf@.len() && rest == buf@.skip(p as int),
        },
{
    let ghost s0 = buf@.skip(pos as int);
    let mut txs: Vec<Transaction> = Vec::new();
    let mut q = pos;
    let mut i: u64 = 0;
    assert(txs@.map_values(|t: Transaction| tx_model(t)) + Seq::<TxModel>::empty() =~= Seq::<TxModel>::empty());
    while i < n
        invariant
            s0 == buf@.skip(pos as int),
            q <= buf@.len(),
            i <= n,
            parse_txs(s0, n as nat) == match parse_txs(buf@.skip(q as int), (n - i) as nat) {
                None => None,
                Some((ts, rest)) => Some((txs@.map_values(|t: Transaction| tx_model(t)) + ts, rest)),
            },
        decreases n - i,
    {
        let (t, q2) = match read_tx(buf, q) {
            None => {
                assert(parse_txs(buf@.skip(q as int), (n - i) as nat) is None);
                return None;
            },
            Some(x) => x,
        };
        proof {
            let tm = tx_model(t);
            match parse_txs(buf@.skip(q2 as int), (n - i - 1) as nat) {
                None => {},
                Some((ts, rest)) => {
                    assert(txs@.map_values(|t: Transaction| tx_model(t)) + (seq![tm] + ts) =~= txs@.push(t).map_values(|t: Transaction| tx_model(t)) + ts);
                },
            }
        }
        txs.push(t);
        q = q2;
        i = i + 1;
    }
    assert(txs@.map_values(|t: Transaction| tx_model(t)) + Seq::<TxModel>::empty() =~= txs@.map_values(|t: Transaction| tx_model(t)));
    Some((txs, q))
}

fn read_header(buf: &[u8], pos: usize) -> (r: Option<(Header, usize)>)
    requires
        pos <= buf@.len(),
    ensures
        match parse_header(buf@.skip(pos as int)) {
            None => r is None,
            Some((m, rest)) => r matches Some((h, p)) && header_model(h) == m && p <= buf@.len()
                && rest == buf@.skip(p as int),
        },
{
    let (block_number, p) = match read_u64(buf, pos) {
        None => return None,
        Some(x) => x,
    };
    let (timestamp, p) = match read_u64(buf, p) {
        None => return None,
        Some(x) => x,
    };
    let (block_hash, p) = match read_array32(buf, p) {
        None => return None,
        Some(x) => x,
    };
    let (n, p) = match read_u64(buf, p) {
        None => return None,
        Some(x) => x,
    };
    let (commitments, q) = match read_hashes(buf, p, n) {
        None => return None,
        Some(x) => x,
    };
    let (parent_hash, p) = match read_array32(buf, q) {
        None => return None,
        Some(x) => x,
    };
    let (data_hash, p) = match read_array32(buf, p) {
        None => return None,
        Some(x) => x,
    };
    let (proposer, p) = match read_array20(buf, p) {
        None => return None,
        Some(x) => x,
    };
    let header = Header {
        block_number,
        timestamp,
        block_hash,
        da_commitment: commitments,
        parent_hash,
        data_hash,
        proposer_address: Address(proposer),
    };
    Some((header, p))
}

impl Block {
    /// The block that `bytes` hold, if they are the canonical bytes of one.
    pub fn from_bytes(bytes: &[u8]) -> (r: Option<Block>)
        ensures
            r is None <==> parse_block(bytes@) is None,
            r matches Some(b) ==> parse_block(bytes@) == Some(block_model(b)),
    {
        assert(bytes@.skip(0) =~= bytes@);
        let (header, p) = match read_header(bytes, 0) {
            None => return None,
            Some(x) => x,
        };
        let (n, p) = match read_u64(bytes, p) {
            None => return None,
            Some(x) => x,
        };
        let (txs, q) = match read_txs(bytes, p, n) {
            None => return None,
            Some(x) => x,
        };
        if q != bytes.len() {
            return None;
        }
        Some(Block { header, transactions: txs })
    }
}

} // verus!
