//! The application state that answers the consensus engine: it builds and
//! streams proposals, checks and stores received ones, and commits decisions.
//!
//! Work that this library does not do (reading the clock, computing the
//! data-availability commitments of blobs, talking to the engine) is done by
//! the caller, which hands the results to these functions.
use vstd::prelude::*;

use crate::block::{block_valid, Block};
use crate::block_codec::{block_model, parse_block};
use crate::codec::{be64, put_raw, put_u64};
use crate::crypto::{
    ed25519_public_key_of, ed25519_signature_of, ed25519_verifies, keccak256, keccak256_of,
    sip_hash_of,
};
use crate::error::BlockError;
use crate::height::{Height, Round};
use crate::keys::{Address, PrivateKey, Signature};
use crate::pool::TransactionPool;
use crate::proposal::{
    same_proposed, CommitCertificate, DecidedValue, LocallyProposedValue, ProposalData,
    first_with_address, ProposalFin, ProposalInit, ProposalPart, ProposalParts, ProposedValue, StreamContent,
    StreamMessage, Validator, ValidatorSet, Validity,
};
use crate::store::{height_key, round_key, Store};
use crate::streaming::{PartStreamsMap, PeerId};
use crate::table::{Table, TableKey};
use crate::transaction::{tx_valid, Transaction};
use crate::value::{value_of, Value};

verus! {

/// Size of the chunks in which a proposal's bytes are streamed.
pub const CHUNK_SIZE: usize = 131072;

/// Number of decided heights that the store keeps.
pub const MAX_HISTORY_LENGTH: u64 = 25;

/// Why a proposal's signature was refused.
#[derive(Debug, PartialEq, Eq, Structural)]
pub enum SignatureVerificationError {
    /// The proposal has no `Fin` part.
    MissingFinPart,
    /// The proposer is not in the validator set.
    ProposerNotFound,
    /// The signature in the `Fin` part does not verify.
    InvalidSignature,
}

/// Why the state could not do what was asked.
#[derive(Debug)]
pub enum StateError {
    /// The block decided at the height below is not in the store.
    MissingPreviousBlock,
    /// Stored block bytes do not decode.
    UndecodableBlock,
    /// A block could not be built.
    Block(BlockError),
}

/// The bytes of the chunks of a list of parts, one after the other.
pub open spec fn data_bytes(parts: Seq<ProposalPart>) -> Seq<u8>
    decreases parts.len(),
{
    if parts.len() == 0 {
        Seq::empty()
    } else {
        data_bytes(parts.drop_last()) + match parts.last() {
            ProposalPart::Data(d) => d.bytes@,
            _ => Seq::empty(),
        }
    }
}

/// What a proposer signs: the Keccak-256 hash of height and round (big-endian,
/// the round as a signed number) and the proposal's bytes.
pub open spec fn proposal_digest(height: u64, round: Round, data: Seq<u8>) -> Seq<u8> {
    keccak256_of(be64(height) + be64(round.spec_as_i64() as u64) + data)
}

/// The signature of the last `Fin` part, if any.
pub open spec fn last_fin(parts: Seq<ProposalPart>) -> Option<Signature>
    decreases parts.len(),
{
    if parts.len() == 0 {
        None
    } else {
        match parts.last() {
            ProposalPart::Fin(f) => Some(f.signature),
            _ => last_fin(parts.drop_last()),
        }
    }
}

/// Completed parts carry a `Fin` signature that verifies, under the key of
/// the first validator with the proposer's address, over the proposal digest.
pub open spec fn proposal_signed(
    validators: Seq<Validator>,
    height: Height,
    round: Round,
    proposer: Address,
    parts: Seq<ProposalPart>,
) -> bool {
    &&& last_fin(parts) matches Some(sig)
    &&& first_with_address(validators, proposer.0@) matches Some(v)
    &&& ed25519_verifies(v.public_key@, proposal_digest(height.0, round, data_bytes(parts)), sig.0@)
}

/// The bytes of the `Data` parts, one after the other.
fn assemble_data(parts: &ProposalParts) -> (r: Vec<u8>)
    ensures
        r@ == data_bytes(parts.parts@),
{
    let mut data: Vec<u8> = Vec::new();
    let mut i: usize = 0;
    while i < parts.parts.len()
        invariant
            i <= parts.parts@.len(),
            data@ == data_bytes(parts.parts@.take(i as int)),
        decreases parts.parts@.len() - i,
    {
        proof {
            assert(parts.parts@.take(i + 1).drop_last() =~= parts.parts@.take(i as int));
        }
        match &parts.parts[i] {
            ProposalPart::Data(d) => put_raw(&mut data, d.bytes.as_slice()),
            _ => {},
        }
        proof {
            assert(data@ =~= data_bytes(parts.parts@.take(i + 1)));
        }
        i = i + 1;
    }
    assert(parts.parts@.take(i as int) =~= parts.parts@);
    data
}

/// The bytes of a block of height zero, with the genesis timestamp, a zero
/// parent hash and no transactions.
pub open spec fn is_genesis_bytes(bytes: Seq<u8>) -> bool {
    exists|g: Block| {
        &&& parse_block(bytes) == Some(block_model(g))
        &&& g.header.block_number == 0
        &&& g.header.timestamp == crate::block::GENESIS_TIMESTAMP
        &&& g.header.parent_hash@ == crate::block::zero_hash()
        &&& g.transactions@.len() == 0
    }
}

/// The canonical bytes of the genesis block.
pub fn genesis_bytes() -> (r: Vec<u8>)
    ensures
        is_genesis_bytes(r@),
{
    let genesis = Block::genesis();
    let r = genesis.to_bytes();
    assert(parse_block(r@) == Some(block_model(genesis)));
    r
}

/// The bytes that stand for a value in synchronization: the value's bytes.
pub fn encode_value(value: &Value) -> (r: Vec<u8>)
    ensures
        r@ == value.extensions@,
{
    crate::store::copy_bytes(&value.extensions)
}

/// The value that some bytes stand for.
pub fn decode_value(bytes: Vec<u8>) -> (r: Value)
    ensures
        r.view() == value_of(bytes@),
{
    Value::new(bytes)
}

/// Encoding a value identified by the hash of its bytes, then decoding it,
/// gives the same value.
pub proof fn lemma_value_round_trip(value: Value)
    requires
        value.value == sip_hash_of(value.extensions@),
    ensures
        value_of(value.extensions@) == value.view(),
{
}

/// A block that passes the checks at height `height` on top of `prev` has
/// that height, names `prev`'s hash as its parent and is not older than `prev`.
pub proof fn lemma_valid_block_chains(
    b: Block,
    height: u64,
    prev: Block,
    now: i64,
    commitments: Seq<[u8; 32]>,
)
    requires
        block_valid(b, height, prev, now, commitments),
    ensures
        b.header.parent_hash@ == prev.header.block_hash@,
        b.header.block_number == height,
        b.header.timestamp >= prev.header.timestamp,
{
}

proof fn lemma_blobs_follow_model(t1: Seq<Transaction>, t2: Seq<Transaction>)
    requires
        t1.map_values(|t: Transaction| crate::block_codec::tx_model(t)) == t2.map_values(
            |t: Transaction| crate::block_codec::tx_model(t),
        ),
    ensures
        crate::block::block_blobs(t1) == crate::block::block_blobs(t2),
    decreases t1.len(),
{
    let f = |t: Transaction| crate::block_codec::tx_model(t);
    assert(t1.len() == t1.map_values(f).len());
    assert(t2.len() == t2.map_values(f).len());
    if t1.len() > 0 {
        assert(t1.drop_last().map_values(f) =~= t1.map_values(f).drop_last());
        assert(t2.drop_last().map_values(f) =~= t2.map_values(f).drop_last());
        lemma_blobs_follow_model(t1.drop_last(), t2.drop_last());
        assert(t1.map_values(f)[t1.len() - 1] == t2.map_values(f)[t1.len() - 1]);
        assert(crate::block::tx_blobs(t1.last()) =~= crate::block::tx_blobs(t2.last()));
    }
}

proof fn lemma_prev_follows_model(
    b: Block,
    height: u64,
    p1: Block,
    p2: Block,
    now: i64,
    commitments: Seq<[u8; 32]>,
)
    requires
        block_model(p1) == block_model(p2),
    ensures
        block_valid(b, height, p1, now, commitments) == block_valid(b, height, p2, now, commitments),
{
}

/// Whether a block passes the checks depends only on its bytes.
pub proof fn lemma_validity_follows_model(
    b1: Block,
    b2: Block,
    height: u64,
    prev: Block,
    now: i64,
    commitments: Seq<[u8; 32]>,
)
    requires
        block_model(b1) == block_model(b2),
    ensures
        block_valid(b1, height, prev, now, commitments) == block_valid(b2, height, prev, now, commitments),
{
    lemma_blobs_follow_model(b1.transactions@, b2.transactions@);
    let h1 = b1.header;
    let h2 = b2.header;
    assert(crate::header::block_hash_input(h1.block_number, h1.parent_hash, h1.data_hash, h1.proposer_address)
        =~= crate::header::block_hash_input(h2.block_number, h2.parent_hash, h2.data_hash, h2.proposer_address));
}

/// A block that passes the checks has the data hash of its blobs, the
/// commitments recomputed over them and its own block hash.
pub proof fn lemma_valid_block_commits_to_data(
    b: Block,
    height: u64,
    prev: Block,
    now: i64,
    commitments: Seq<[u8; 32]>,
)
    requires
        block_valid(b, height, prev, now, commitments),
    ensures
        b.header.data_hash@ == crate::block::data_root(crate::block::block_blobs(b.transactions@)),
        crate::block::hashes_view(b.header.da_commitment@) == crate::block::hashes_view(commitments),
        b.header.block_hash@ == crate::header::spec_block_hash(b.header),
{
}

/// A received proposal whose signature checks out, waiting for its block to be
/// checked.
#[derive(Debug)]
pub struct ReceivedProposal {
    pub value: ProposedValue,
    pub data: Vec<u8>,
}

pub struct State {
    pub validator_set: ValidatorSet,
    pub signing_key: PrivateKey,
    pub address: Address,
    pub store: Store,
    pub stream_nonce: u32,
    pub streams_map: PartStreamsMap,
    pub transaction_pool: TransactionPool,
    pub current_height: Height,
    pub current_round: Round,
    pub current_proposer: Option<Address>,
    pub peers: Vec<PeerId>,
}

/// The `i`-th chunk of a proposal's bytes, counted from one.
pub open spec fn chunk_at(data: Seq<u8>, i: int) -> Seq<u8> {
    data.subrange((i - 1) * CHUNK_SIZE, if i * CHUNK_SIZE < data.len() { i * CHUNK_SIZE } else { data.len() as int })
}

/// Big-endian bytes of a 32-bit integer.
pub open spec fn be32(x: u32) -> Seq<u8> {
    seq![(x >> 24u32) as u8, (x >> 16u32) as u8, (x >> 8u32) as u8, x as u8]
}

/// The stream counter after one more stream: it counts up and wraps to zero
/// after `u32::MAX`, so identifiers repeat only after 2^32 streams at the same
/// height and round.
pub open spec fn next_nonce(n: u32) -> u32 {
    if n == u32::MAX { 0 } else { (n + 1) as u32 }
}

/// The round number that goes into a stream identifier; zero for nil.
pub open spec fn round_number(r: Round) -> u32 {
    match r {
        Round::Nil => 0,
        Round::Num(n) => n,
    }
}

/// The lowest height kept after deciding `height`.
pub open spec fn retain_height(height: u64) -> u64 {
    if height >= MAX_HISTORY_LENGTH { (height - MAX_HISTORY_LENGTH) as u64 } else { 0 }
}

/// Outside key `k`, `after` holds exactly the entries of `before` at height
/// `retain` or above, unchanged.
pub open spec fn kept_elsewhere<V>(before: Map<TableKey, V>, after: Map<TableKey, V>, k: TableKey, retain: u64) -> bool {
    forall|k2: TableKey| k2 != k ==> (#[trigger] after.contains_key(k2) <==> before.contains_key(k2) && k2.height >= retain)
        && (after.contains_key(k2) ==> after[k2] == before[k2])
}

/// Every stored proposal's value is identified by the hash of its bytes.
pub open spec fn proposals_hashed(m: Map<TableKey, ProposedValue>) -> bool {
    forall|k: TableKey| #[trigger]
        m.contains_key(k) ==> m[k].value.value == sip_hash_of(m[k].value.extensions@)
}

impl State {
    pub open spec fn wf(&self) -> bool {
        &&& self.store.wf()
        &&& self.transaction_pool.wf()
        &&& proposals_hashed(self.store.undecided_proposals())
        &&& self.streams_map.wf()
        &&& self.current_height.0 >= 1
    }

    pub open spec fn decided_block_data_at(&self, k: TableKey) -> bool {
        self.store.decided_block_data().contains_key(k)
    }

    pub open spec fn validators(&self) -> Seq<Validator> {
        self.validator_set.validators@
    }

    pub open spec fn address(&self) -> Address {
        self.address
    }

    pub open spec fn signing_seed(&self) -> Seq<u8> {
        self.signing_key.seed@
    }

    pub fn new(
        validator_set: ValidatorSet,
        signing_key: PrivateKey,
        address: Address,
        height: Height,
        store: Store,
        transaction_pool: TransactionPool,
    ) -> (r: State)
        requires
            store.wf(),
            transaction_pool.wf(),
            proposals_hashed(store.undecided_proposals()),
            height.0 >= 1,
        ensures
            r.wf(),
            r.current_height == height,
            r.current_round == Round::Num(0),
            r.validators() == validator_set.validators@,
            r.address() == address,
            r.signing_seed() == signing_key.seed@,
            r.store == store,
            r.transaction_pool == transaction_pool,
    {
        State {
            validator_set,
            signing_key,
            address,
            store,
            stream_nonce: 0,
            streams_map: PartStreamsMap::new(),
            transaction_pool,
            current_height: height,
            current_round: Round::Num(0),
            current_proposer: None,
            peers: Vec::new(),
        }
    }

    /// A node at height 1 whose store holds only the genesis block, decided at
    /// height 0.
    pub fn from_genesis(
        validator_set: ValidatorSet,
        signing_key: PrivateKey,
        address: Address,
        transaction_pool: TransactionPool,
    ) -> (r: State)
        requires
            transaction_pool.wf(),
        ensures
            r.wf(),
            r.current_height.0 == 1,
            r.current_round == Round::Num(0),
            r.validators() == validator_set.validators@,
            r.address() == address,
            r.store.decided_block_data().dom() == set![height_key(0)],
            is_genesis_bytes(r.store.decided_block_data()[height_key(0)]@),
            r.store.decided_values() == Map::<TableKey, Value>::empty(),
            r.store.undecided_proposals() == Map::<TableKey, ProposedValue>::empty(),
            r.store.undecided_block_data() == Map::<TableKey, Vec<u8>>::empty(),
    {
        let mut store = Store::new();
        let bytes = genesis_bytes();
        store.store_decided_block_data(Height(0), bytes);
        assert(store.decided_block_data().dom() =~= set![height_key(0)]);
        assert(proposals_hashed(store.undecided_proposals()));
        State::new(validator_set, signing_key, address, Height(1), store, transaction_pool)
    }

    /// The validator set, the same at every height.
    pub fn get_validator_set(&self) -> (r: &ValidatorSet)
        ensures
            r.validators@ == self.validators(),
    {
        &self.validator_set
    }

    /// Verifies the `Fin` signature of completed parts against the proposer's key.
    pub fn verify_proposal_signature(&self, parts: &ProposalParts) -> (r: Result<
        (),
        SignatureVerificationError,
    >)
        ensures
            r is Ok <==> proposal_signed(self.validators(), parts.height, parts.round, parts.proposer, parts.parts@),
            r matches Err(e) ==> (e == SignatureVerificationError::MissingFinPart <==> last_fin(
                parts.parts@,
            ) is None),
    {
        let mut msg: Vec<u8> = Vec::new();
        put_u64(&mut msg, parts.height.0);
        put_u64(&mut msg, #[verifier::truncate] (parts.round.as_i64() as u64));
        let ghost head = msg@;
        let mut signature: Option<Signature> = None;
        let mut i: usize = 0;
        while i < parts.parts.len()
            invariant
                i <= parts.parts@.len(),
                msg@ == head + data_bytes(parts.parts@.take(i as int)),
                signature == last_fin(parts.parts@.take(i as int)),
            decreases parts.parts@.len() - i,
        {
            proof {
                assert(parts.parts@.take(i + 1).drop_last() =~= parts.parts@.take(i as int));
            }
            match &parts.parts[i] {
                ProposalPart::Init(_) => {},
                ProposalPart::Data(d) => {
                    put_raw(&mut msg, d.bytes.as_slice());
                },
                ProposalPart::Fin(f) => {
                    signature = Some(f.signature);
                },
            }
            i = i + 1;
        }
        proof {
            assert(parts.parts@.take(i as int) =~= parts.parts@);
            assert(msg@ =~= be64(parts.height.0) + be64(parts.round.spec_as_i64() as u64) + data_bytes(parts.parts@));
        }
        let hash = keccak256(msg.as_slice());
        let signature = match signature {
            None => return Err(SignatureVerificationError::MissingFinPart),
            Some(s) => s,
        };
        let validator = match self.validator_set.get_by_address(&parts.proposer) {
            None => return Err(SignatureVerificationError::ProposerNotFound),
            Some(v) => v,
        };
        if !validator.public_key.verify(&hash, &signature) {
            return Err(SignatureVerificationError::InvalidSignature);
        }
        Ok(())
    }

    /// The parts of a proposal of `data` at `height` and `round`: `Init`, the
    /// bytes in chunks of `CHUNK_SIZE`, and `Fin` with this node's signature
    /// over the proposal digest.
    pub fn make_proposal_parts(&self, height: Height, round: Round, data: &[u8]) -> (r: Vec<
        ProposalPart,
    >)
        ensures
            r@.len() >= 2,
            r@[0] == ProposalPart::Init(ProposalInit { height, round, proposer: self.address }),
            data_bytes(r@) == data@,
            r@.last() matches ProposalPart::Fin(f) && f.signature.0@ == ed25519_signature_of(
                self.signing_key.seed@,
                proposal_digest(height.0, round, data@),
            ),
            (r@.len() - 2) * CHUNK_SIZE >= data@.len(),
            data@.len() > 0 ==> (r@.len() - 3) * CHUNK_SIZE < data@.len(),
            data@.len() == 0 ==> r@.len() == 2,
            forall|i: int| 1 <= i < r@.len() - 1 ==> (#[trigger] r@[i] matches ProposalPart::Data(d) && d.bytes@ == chunk_at(data@, i)),
            last_fin(r@) matches Some(sig) && sig.0@ == ed25519_signature_of(
                self.signing_key.seed@,
                proposal_digest(height.0, round, data@),
            ) && ed25519_verifies(
                ed25519_public_key_of(self.signing_key.seed@),
                proposal_digest(height.0, round, data@),
                sig.0@,
            ),
            forall|i: int| 0 < i < r@.len() - 1 ==> #[trigger] r@[i] is Data,
    {
        let mut parts: Vec<ProposalPart> = Vec::new();
        parts.push(ProposalPart::Init(ProposalInit::new(height, round, self.address)));
        assert(data_bytes(parts@) =~= Seq::<u8>::empty()) by {
            assert(parts@.drop_last() =~= Seq::<ProposalPart>::empty());
            assert(data_bytes(parts@.drop_last()) =~= Seq::<u8>::empty());
        }
        let mut start: usize = 0;
        while start < data.len()
            invariant
                start <= data@.len(),
                parts@.len() >= 1,
                parts@[0] == ProposalPart::Init(ProposalInit { height, round, proposer: self.address }),
                data_bytes(parts@) == data@.take(start as int),
                forall|i: int| 0 < i < parts@.len() ==> #[trigger] parts@[i] is Data,
                start == (parts@.len() - 1) * CHUNK_SIZE || (start == data@.len() && (parts@.len() - 2) * CHUNK_SIZE < start && start <= (parts@.len() - 1) * CHUNK_SIZE),
                forall|i: int| 1 <= i < parts@.len() ==> (#[trigger] parts@[i] matches ProposalPart::Data(d) && d.bytes@ == chunk_at(data@, i)),
            decreases data@.len() - start,
        {
            let end = if data.len() - start > CHUNK_SIZE { start + CHUNK_SIZE } else { data.len() };
            let mut chunk: Vec<u8> = Vec::new();
            put_raw(&mut chunk, &data[start..end]);
            assert(chunk@ =~= chunk_at(data@, parts@.len() as int));
            let ghost before = parts@;
            parts.push(ProposalPart::Data(ProposalData::new(chunk)));
            proof {
                assert(parts@.drop_last() =~= before);
                assert(data@.take(end as int) =~= data@.take(start as int) + data@.subrange(start as int, end as int));
            }
            start = end;
        }
        assert(data@.take(start as int) =~= data@);
        let mut msg: Vec<u8> = Vec::new();
        put_u64(&mut msg, height.0);
        put_u64(&mut msg, #[verifier::truncate] (round.as_i64() as u64));
        put_raw(&mut msg, data);
        let hash = keccak256(msg.as_slice());
        let signature = self.signing_key.sign(&hash);
        let ghost before = parts@;
        parts.push(ProposalPart::Fin(ProposalFin::new(signature)));
        proof {
            assert(parts@.drop_last() =~= before);
        }
        parts
    }

    /// A fresh stream identifier: height, round and a counter, big-endian.
    fn stream_id(&mut self) -> (r: Vec<u8>)
        ensures
            r@ == be64(old(self).current_height.0) + be32(round_number(old(self).current_round)) + be32(old(self).stream_nonce),
            final(self).current_round == old(self).current_round,
            final(self).streams_map == old(self).streams_map,
            final(self).peers == old(self).peers,
            final(self).stream_nonce == next_nonce(old(self).stream_nonce),
            final(self).store == old(self).store,
            final(self).transaction_pool == old(self).transaction_pool,
            final(self).current_height == old(self).current_height,
            final(self).validator_set == old(self).validator_set,
            final(self).signing_key == old(self).signing_key,
            final(self).address == old(self).address,
    {
        let mut bytes: Vec<u8> = Vec::new();
        put_u64(&mut bytes, self.current_height.0);
        let round: u32 = match self.current_round {
            Round::Nil => 0,
            Round::Num(r) => r,
        };
        let nonce = self.stream_nonce;
        bytes.push((round >> 24u32) as u8);
        bytes.push((round >> 16u32) as u8);
        bytes.push((round >> 8u32) as u8);
        bytes.push(round as u8);
        bytes.push((nonce >> 24u32) as u8);
        bytes.push((nonce >> 16u32) as u8);
        bytes.push((nonce >> 8u32) as u8);
        bytes.push(nonce as u8);
        self.stream_nonce = if nonce == u32::MAX { 0 } else { nonce + 1 };
        assert(bytes@ =~= be64(old(self).current_height.0) + be32(round_number(old(self).current_round)) + be32(old(self).stream_nonce));
        bytes
    }

    /// The stream messages of a proposal: its parts numbered from zero, then
    /// the end-of-stream marker, all under one fresh stream identifier.
    pub fn stream_proposal(&mut self, value: &LocallyProposedValue, data: &[u8]) -> (r: Vec<
        StreamMessage,
    >)
        ensures
            final(self).store == old(self).store,
            final(self).transaction_pool == old(self).transaction_pool,
            final(self).current_height == old(self).current_height,
            r@.len() >= 3,
            forall|i: int| 0 <= i < r@.len() ==> (#[trigger] r@[i]).sequence == i && r@[i].stream_id@ == r@[0].stream_id@,
            r@.last().content is Fin,
            forall|i: int| 0 <= i < r@.len() - 1 ==> #[trigger] r@[i].content is Data,
            r@[0].content == StreamContent::Data(ProposalPart::Init(ProposalInit { height: value.height, round: value.round, proposer: old(self).address })),
            r@[0].stream_id@ == be64(old(self).current_height.0) + be32(round_number(old(self).current_round)) + be32(old(self).stream_nonce),
            (r@.len() - 3) * CHUNK_SIZE >= data@.len(),
            data@.len() > 0 ==> (r@.len() - 4) * CHUNK_SIZE < data@.len(),
            data@.len() == 0 ==> r@.len() == 3,
            final(self).stream_nonce == next_nonce(old(self).stream_nonce),
            r@[r@.len() - 2].content matches StreamContent::Data(ProposalPart::Fin(f)) && ed25519_verifies(
                ed25519_public_key_of(old(self).signing_key.seed@),
                proposal_digest(value.height.0, value.round, data@),
                f.signature.0@,
            ),
            forall|i: int| 1 <= i < r@.len() - 2 ==> (#[trigger] r@[i].content matches StreamContent::Data(ProposalPart::Data(d)) && d.bytes@ == chunk_at(data@, i)),
            r@[r@.len() - 2].content matches StreamContent::Data(ProposalPart::Fin(f)) && f.signature.0@ == ed25519_signature_of(
                old(self).signing_key.seed@,
                proposal_digest(value.height.0, value.round, data@),
            ),
    {
        let parts = self.make_proposal_parts(value.height, value.round, data);
        let stream_id = self.stream_id();
        let ghost orig = parts@;
        let mut msgs: Vec<StreamMessage> = Vec::new();
        let mut sequence: usize = 0;
        let mut parts = parts;
        while parts.len() > 0
            invariant
                sequence as int == msgs@.len(),
                msgs@.len() + parts@.len() == orig.len(),
                orig.len() >= 2,
                parts@ == orig.skip(msgs@.len() as int),
                forall|j: int|
                    0 <= j < msgs@.len() ==> (#[trigger] msgs@[j]).sequence == j
                        && msgs@[j].stream_id@ == stream_id@ && msgs@[j].content
                        == StreamContent::Data(orig[j]),
            decreases parts@.len(),
        {
            let part = parts.remove(0);
            let id = crate::store::copy_bytes(&stream_id);
            msgs.push(StreamMessage::new(id, sequence as u64, StreamContent::Data(part)));
            assert(parts@ =~= orig.skip(msgs@.len() as int));
            sequence = msgs.len();
        }
        msgs.push(StreamMessage::new(stream_id, sequence as u64, StreamContent::Fin));
        msgs
    }

    /// Records a value that this node proposes at the current height and round,
    /// with its block bytes.
    pub fn propose_value(&mut self, height: Height, round: Round, data: Vec<u8>) -> (r:
        LocallyProposedValue)
        requires
            old(self).wf(),
            height == old(self).current_height,
            round == old(self).current_round,
        ensures
            final(self).wf(),
            r.height == height,
            r.round == round,
            r.value.view() == value_of(data@),
            old(self).store.undecided_proposals().contains_key(round_key(height.0, round))
                ==> final(self).store.undecided_proposals() == old(self).store.undecided_proposals(),
            !old(self).store.undecided_proposals().contains_key(round_key(height.0, round))
                ==> final(self).store.undecided_proposals().contains_key(round_key(height.0, round))
                && same_proposed(
                final(self).store.undecided_proposals()[round_key(height.0, round)],
                ProposedValue {
                    height,
                    round,
                    valid_round: Round::Nil,
                    proposer: old(self).address,
                    value: r.value,
                    validity: Validity::Valid,
                },
            ),
            final(self).store.undecided_block_data() == if old(self).store.undecided_block_data().contains_key(round_key(height.0, round)) {
                old(self).store.undecided_block_data()
            } else {
                old(self).store.undecided_block_data().insert(round_key(height.0, round), data)
            },
            final(self).store.decided_values() == old(self).store.decided_values(),
            final(self).store.certificates() == old(self).store.certificates(),
            final(self).store.decided_block_data() == old(self).store.decided_block_data(),
            final(self).current_height == old(self).current_height,
            final(self).address == old(self).address,
    {
        let bytes = crate::store::copy_bytes(&data);
        let value = Value::new(bytes);
        let proposal = ProposedValue {
            height,
            round,
            valid_round: Round::Nil,
            proposer: self.address,
            value: value.duplicate(),
            validity: Validity::Valid,
        };
        self.store.store_undecided_proposal(proposal);
        self.store.store_undecided_block_data(height, round, data);
        LocallyProposedValue { height, round, value }
    }

    /// Takes transactions from the pool, highest gas price first, until a valid
    /// one comes; invalid ones are dropped. `None` when no pooled transaction
    /// is valid, and the pool is then empty.
    pub fn next_valid_transaction(&mut self) -> (r: Option<Transaction>)
        requires
            old(self).wf(),
        ensures
            final(self).wf(),
            r is None <==> forall|i: int|
                0 <= i < old(self).transaction_pool@.len() ==> !tx_valid(#[trigger] old(self).transaction_pool@[i]),
            r is None ==> final(self).transaction_pool@.len() == 0,
            r matches Some(t) ==> exists|j: int| {
                &&& 0 <= j < old(self).transaction_pool@.len()
                &&& t == old(self).transaction_pool@[j]
                &&& tx_valid(t)
                &&& forall|i: int| j < i < old(self).transaction_pool@.len() ==> !tx_valid(#[trigger] old(self).transaction_pool@[i])
                &&& final(self).transaction_pool@ == old(self).transaction_pool@.take(j)
            },
            final(self).store == old(self).store,
            final(self).current_height == old(self).current_height,
            final(self).address == old(self).address,
    {
        let ghost o = self.transaction_pool@;
        loop
            invariant
                self.wf(),
                o == old(self).transaction_pool@,
                self.transaction_pool@.len() <= o.len(),
                self.transaction_pool@ == o.take(self.transaction_pool@.len() as int),
                forall|i: int| self.transaction_pool@.len() <= i < o.len() ==> !tx_valid(#[trigger] o[i]),
                self.store == old(self).store,
                self.current_height == old(self).current_height,
                self.address == old(self).address,
            decreases self.transaction_pool@.len(),
        {
            let ghost k = self.transaction_pool@.len();
            match self.transaction_pool.get_top_transaction() {
                None => {
                    return None;
                },
                Some(tx) => {
                    assert(tx == o[k - 1]);
                    assert(self.transaction_pool@ =~= o.take(k - 1));
                    if tx.validate() {
                        return Some(tx);
                    }
                },
            }
        }
    }

    /// Builds the block of the current height on top of the block decided at
    /// the height below, and returns its bytes. `da_commitment` holds the
    /// commitments of the blobs of `tx`.
    pub fn make_block(
        &self,
        timestamp: u64,
        tx: Option<Transaction>,
        da_commitment: Vec<[u8; 32]>,
    ) -> (r: Result<Vec<u8>, StateError>)
        requires
            self.wf(),
        ensures
            (r matches Err(StateError::MissingPreviousBlock)) <==> !self.store.decided_block_data().contains_key(height_key((self.current_height.0 - 1) as u64)),
            (r matches Err(StateError::UndecodableBlock)) <==> self.store.decided_block_data().contains_key(height_key((self.current_height.0 - 1) as u64))
                && parse_block(self.store.decided_block_data()[height_key((self.current_height.0 - 1) as u64)]@) is None,
            !(r matches Err(StateError::Block(_))),
            self.store.decided_block_data().contains_key(height_key((self.current_height.0 - 1) as u64))
                && parse_block(self.store.decided_block_data()[height_key((self.current_height.0 - 1) as u64)]@) is Some ==> r is Ok,
            r matches Ok(bytes) ==> exists|b: Block, prev: Block| {
                &&& bytes@ == crate::block_codec::enc_block(block_model(b))
                &&& parse_block(bytes@) == Some(block_model(b))
                &&& self.store.decided_block_data().contains_key(height_key((self.current_height.0 - 1) as u64))
                &&& parse_block(self.store.decided_block_data()[height_key((self.current_height.0 - 1) as u64)]@) == Some(block_model(prev))
                &&& b.header.parent_hash == prev.header.block_hash
                &&& b.header.block_number == self.current_height.0
                &&& b.header.timestamp == timestamp
                &&& b.header.proposer_address == self.address
                &&& b.header.da_commitment == da_commitment
                &&& b.transactions@ == match tx { Some(t) => seq![t], None => Seq::empty() }
            },
    {
        let prev_bytes = match self.store.get_decided_block(Height(self.current_height.0 - 1)) {
            None => return Err(StateError::MissingPreviousBlock),
            Some(b) => b,
        };
        let prev = match Block::from_bytes(prev_bytes.as_slice()) {
            None => return Err(StateError::UndecodableBlock),
            Some(b) => b,
        };
        let mut txs: Vec<Transaction> = Vec::new();
        match tx {
            Some(t) => txs.push(t),
            None => {},
        }
        let ghost tx_seq = txs@;
        assert(tx_seq =~= match tx { Some(t) => seq![t], None => Seq::<Transaction>::empty() });
        let block = match Block::new(self.current_height.0, timestamp, prev.hash(), self.address, txs, da_commitment) {
            Err(e) => return Err(StateError::Block(e)),
            Ok(b) => b,
        };
        let bytes = block.to_bytes();
        Ok(bytes)
    }

    /// The first step of handling a received part: feeds the stream message and
    /// returns the proposal once its stream completes, when it is not for a
    /// past height and the signature of its last `Fin` part verifies under the
    /// proposer's key over the digest of height, round and chunks. Nothing is
    /// stored and the block is not checked: `received_proposal_part` does both.
    pub fn reassemble_signed(&mut self, from: PeerId, part: StreamMessage) -> (r: Option<ReceivedProposal>)
        requires
            old(self).wf(),
        ensures
            final(self).wf(),
            final(self).store == old(self).store,
            final(self).current_height == old(self).current_height,
            final(self).validator_set == old(self).validator_set,
            r is Some <==> (old(self).streams_map.completion(from.0@, part) matches Some((init, parts))
                && init.height.0 >= old(self).current_height.0
                && proposal_signed(old(self).validators(), init.height, init.round, init.proposer, parts)),
            r matches Some(rp) ==> (old(self).streams_map.completion(from.0@, part) matches Some((init, parts)) && {
                &&& rp.value.height == init.height
                &&& rp.value.round == init.round
                &&& rp.value.proposer == init.proposer
                &&& rp.data@ == data_bytes(parts)
                &&& rp.value.value.view() == value_of(rp.data@)
                &&& rp.value.validity == Validity::Valid
                &&& rp.value.valid_round == Round::Nil
            }),
            final(self).streams_map.pending(from.0@, part.stream_id@) == old(self).streams_map.pending_after(from.0@, part),
            forall|p: Seq<u8>, s: Seq<u8>| !(p == from.0@ && s == part.stream_id@) ==> #[trigger] final(self).streams_map.pending(p, s) == old(self).streams_map.pending(p, s),
            forall|p: Seq<u8>, s: Seq<u8>| #[trigger] final(self).streams_map.completed(p, s) == (old(self).streams_map.completed(p, s)
                || (p == from.0@ && s == part.stream_id@ && old(self).streams_map.completion(from.0@, part) is Some)),
    {
        let parts = match self.streams_map.insert(from, part) {
            None => return None,
            Some(p) => p,
        };
        if parts.height.0 < self.current_height.0 {
            return None;
        }
        match self.verify_proposal_signature(&parts) {
            Err(_) => return None,
            Ok(()) => {},
        }
        let data = assemble_data(&parts);
        let value = Value::new(crate::store::copy_bytes(&data));
        let proposed = ProposedValue {
            height: parts.height,
            round: parts.round,
            valid_round: Round::Nil,
            proposer: parts.proposer,
            value,
            validity: Validity::Valid,
        };
        Some(ReceivedProposal { value: proposed, data })
    }

    /// Feeds a received stream message and, when it completes a signed
    /// proposal, checks its block at the proposal's height on top of the block
    /// decided below it, at clock time `now` with the commitments recomputed
    /// over its blobs, and stores the proposal and its bytes if the block is
    /// valid. Returns the stored proposal; `None` in every other case, with the
    /// store unchanged.
    pub fn received_proposal_part(&mut self, from: PeerId, part: StreamMessage, now: i64, commitments: &[[u8; 32]]) -> (r: Option<ProposedValue>)
        requires
            old(self).wf(),
        ensures
            final(self).wf(),
            final(self).current_height == old(self).current_height,
            r is None ==> final(self).store == old(self).store,
            r matches Some(v) ==> (old(self).streams_map.completion(from.0@, part) matches Some((init, parts)) && {
                &&& init.height.0 >= old(self).current_height.0
                &&& proposal_signed(old(self).validators(), init.height, init.round, init.proposer, parts)
                &&& v.height == init.height
                &&& v.round == init.round
                &&& v.proposer.0@ == init.proposer.0@
                &&& v.valid_round == Round::Nil
                &&& v.validity == Validity::Valid
                &&& v.value.view() == value_of(data_bytes(parts))
                &&& init.height.0 >= 1
                &&& exists|b: Block, prev: Block| {
                    &&& parse_block(data_bytes(parts)) == Some(block_model(b))
                    &&& old(self).store.decided_block_data().contains_key(height_key((init.height.0 - 1) as u64))
                    &&& parse_block(old(self).store.decided_block_data()[height_key((init.height.0 - 1) as u64)]@) == Some(block_model(prev))
                    &&& block_valid(b, init.height.0, prev, now, commitments@)
                }
                &&& final(self).store.undecided_proposals().contains_key(round_key(init.height.0, init.round))
                &&& final(self).store.undecided_block_data().contains_key(round_key(init.height.0, init.round))
            }),
            (old(self).streams_map.completion(from.0@, part) matches Some((init, parts))
                && init.height.0 >= old(self).current_height.0
                && proposal_signed(old(self).validators(), init.height, init.round, init.proposer, parts)
                && init.height.0 >= 1
                && exists|b: Block, prev: Block| {
                    &&& parse_block(data_bytes(parts)) == Some(block_model(b))
                    &&& old(self).store.decided_block_data().contains_key(height_key((init.height.0 - 1) as u64))
                    &&& parse_block(old(self).store.decided_block_data()[height_key((init.height.0 - 1) as u64)]@) == Some(block_model(prev))
                    &&& block_valid(b, init.height.0, prev, now, commitments@)
                }) ==> r is Some,
            forall|p: Seq<u8>, s: Seq<u8>| #[trigger] final(self).streams_map.completed(p, s) == (old(self).streams_map.completed(p, s)
                || (p == from.0@ && s == part.stream_id@ && old(self).streams_map.completion(from.0@, part) is Some)),
    {
        let received = match self.reassemble_signed(from, part) {
            None => return None,
            Some(rp) => rp,
        };
        match self.accept_proposal(received, now, commitments) {
            Ok(v) => v,
            Err(_) => None,
        }
    }

    /// Checks the block of a received proposal at the proposal's height, on top
    /// of the block decided at the height below, at clock time `now` and with the commitments
    /// recomputed over its blobs; stores the proposal and its bytes when the
    /// block is valid. Undecodable bytes, a missing previous block and an
    /// invalid block give `None`.
    pub fn accept_proposal(&mut self, proposal: ReceivedProposal, now: i64, commitments: &[[u8; 32]]) -> (r: Result<Option<ProposedValue>, StateError>)
        requires
            old(self).wf(),
        ensures
            final(self).wf(),
            final(self).current_height == old(self).current_height,
            final(self).streams_map == old(self).streams_map,
            r is Ok,
            r matches Ok(Some(v)) ==> {
                &&& v.height == proposal.value.height
                &&& v.round == proposal.value.round
                &&& v.valid_round == proposal.value.valid_round
                &&& v.proposer.0@ == proposal.value.proposer.0@
                &&& v.validity == proposal.value.validity
                &&& v.value.view() == value_of(proposal.data@)
                &&& proposal.value.height.0 >= 1
                &&& exists|b: Block, prev: Block| {
                    &&& parse_block(proposal.data@) == Some(block_model(b))
                    &&& old(self).store.decided_block_data().contains_key(height_key((proposal.value.height.0 - 1) as u64))
                    &&& parse_block(old(self).store.decided_block_data()[height_key((proposal.value.height.0 - 1) as u64)]@) == Some(block_model(prev))
                    &&& block_valid(b, proposal.value.height.0, prev, now, commitments@)
                }
                &&& final(self).store.undecided_proposals().contains_key(round_key(v.height.0, v.round))
                &&& final(self).store.undecided_block_data().contains_key(round_key(v.height.0, v.round))
            },
            !(r matches Ok(Some(_))) ==> final(self).store == old(self).store,
            proposal.value.height.0 >= 1 && (exists|b: Block, prev: Block| {
                &&& parse_block(proposal.data@) == Some(block_model(b))
                &&& old(self).store.decided_block_data().contains_key(height_key((proposal.value.height.0 - 1) as u64))
                &&& parse_block(old(self).store.decided_block_data()[height_key((proposal.value.height.0 - 1) as u64)]@) == Some(block_model(prev))
                &&& block_valid(b, proposal.value.height.0, prev, now, commitments@)
            }) ==> !(r matches Ok(None)),
    {
        let block = match Block::from_bytes(proposal.data.as_slice()) {
            None => return Ok(None),
            Some(b) => b,
        };
        if proposal.value.height.0 == 0 {
            return Ok(None);
        }
        let height = proposal.value.height.0;
        let prev_bytes = match self.store.get_decided_block(Height(height - 1)) {
            None => return Ok(None),
            Some(b) => b,
        };
        let prev = match Block::from_bytes(prev_bytes.as_slice()) {
            None => return Ok(None),
            Some(b) => b,
        };
        match block.is_valid(height, &prev, now, commitments) {
            Err(e) => return Err(StateError::Block(e)),
            Ok(false) => {
                proof {
                    assert forall|b: Block, p: Block|
                        parse_block(proposal.data@) == Some(block_model(b)) && parse_block(
                            prev_bytes@,
                        ) == Some(block_model(p)) implies !block_valid(b, height, p, now, commitments@) by {
                        lemma_validity_follows_model(b, block, height, p, now, commitments@);
                        lemma_prev_follows_model(block, height, p, prev, now, commitments@);
                    }
                }
                return Ok(None);
            },
            Ok(true) => {},
        }
        let stored = ProposedValue {
            height: proposal.value.height,
            round: proposal.value.round,
            valid_round: proposal.value.valid_round,
            proposer: proposal.value.proposer,
            value: Value::new(crate::store::copy_bytes(&proposal.data)),
            validity: proposal.value.validity,
        };
        let value = stored.duplicate();
        let height = value.height;
        let round = value.round;
        self.store.store_undecided_proposal(stored);
        self.store.store_undecided_block_data(height, round, proposal.data);
        Ok(Some(value))
    }

    /// Records the decision of `certificate`: the proposal stored at its height
    /// and round becomes the decided value, its block bytes become the decided
    /// block, everything more than `MAX_HISTORY_LENGTH` heights below is pruned
    /// (stored entries and open proposal streams),
    /// and the state moves to the next height at round zero. Returns `false`,
    /// changing nothing, when no proposal is stored there. When the stored
    /// proposal's identifier is the certificate's, the decided value is the
    /// one whose bytes hash to that identifier.
    pub fn commit(&mut self, certificate: &CommitCertificate) -> (r: bool)
        requires
            old(self).wf(),
            certificate.height.0 < u64::MAX,
        ensures
            final(self).wf(),
            r <==> old(self).store.undecided_proposals().contains_key(round_key(certificate.height.0, certificate.round)),
            !r ==> *final(self) == *old(self),
            r ==> {
                let p = old(self).store.undecided_proposals()[round_key(certificate.height.0, certificate.round)];
                let k = height_key(certificate.height.0);
                &&& final(self).store.decided_values().contains_key(k)
                &&& final(self).store.decided_values()[k].view() == p.value.view()
                &&& sip_hash_of(final(self).store.decided_values()[k].extensions@) == final(self).store.decided_values()[k].value
                &&& p.value.value == certificate.value_id.0 ==> final(self).store.decided_values()[k].value == certificate.value_id.0
                    && sip_hash_of(final(self).store.decided_values()[k].extensions@) == certificate.value_id.0
                &&& final(self).store.certificates().contains_key(k)
                &&& crate::proposal::same_certificate(final(self).store.certificates()[k], *certificate)
                &&& final(self).store.all_at_or_above(retain_height(certificate.height.0))
                &&& final(self).current_height.0 == certificate.height.0 + 1
                &&& final(self).current_round == Round::Num(0)
                &&& old(self).decided_block_data_at(k) ==> final(self).store.decided_block_data().contains_key(k)
                    && final(self).store.decided_block_data()[k] == old(self).store.decided_block_data()[k]
                &&& !old(self).decided_block_data_at(k) && old(self).store.undecided_block_data().contains_key(round_key(certificate.height.0, certificate.round))
                    ==> final(self).store.decided_block_data().contains_key(k)
                    && final(self).store.decided_block_data()[k]@ == old(self).store.undecided_block_data()[round_key(certificate.height.0, certificate.round)]@
                &&& !old(self).decided_block_data_at(k) && !old(self).store.undecided_block_data().contains_key(round_key(certificate.height.0, certificate.round))
                    ==> !final(self).store.decided_block_data().contains_key(k)
                &&& kept_elsewhere(old(self).store.decided_values(), final(self).store.decided_values(), k, retain_height(certificate.height.0))
                &&& kept_elsewhere(old(self).store.certificates(), final(self).store.certificates(), k, retain_height(certificate.height.0))
                &&& kept_elsewhere(old(self).store.decided_block_data(), final(self).store.decided_block_data(), k, retain_height(certificate.height.0))
                &&& final(self).store.undecided_proposals() == Table::retained(old(self).store.undecided_proposals(), retain_height(certificate.height.0))
                &&& final(self).store.undecided_block_data() == Table::retained(old(self).store.undecided_block_data(), retain_height(certificate.height.0))
            },
    {
        let proposal = match self.store.get_undecided_proposal(certificate.height, certificate.round) {
            None => return false,
            Some(p) => p,
        };
        let ghost k = height_key(certificate.height.0);
        self.store.store_decided_value(certificate, proposal.value);
        match self.store.get_block_data(certificate.height, certificate.round) {
            Some(data) => self.store.store_decided_block_data(certificate.height, data),
            None => {},
        }
        let retain = certificate.height.decrement_by(MAX_HISTORY_LENGTH);
        let _ = self.store.prune(retain);
        self.streams_map.evict_below(retain.0);
        proof {
            assert(self.store.decided_values().dom().contains(k));
            assert(self.store.certificates().dom().contains(k));
            assert forall|key: TableKey| #[trigger] self.store.undecided_proposals().contains_key(key) implies
                self.store.undecided_proposals()[key].value.value == sip_hash_of(self.store.undecided_proposals()[key].value.extensions@) by {
                assert(old(self).store.undecided_proposals().contains_key(key));
            }
        }
        self.current_height = Height(certificate.height.0 + 1);
        self.current_round = Round::Num(0);
        true
    }

    /// Moves to `height` and `round` with `proposer`; returns the proposal
    /// stored for them, if any.
    pub fn started_round(&mut self, height: Height, round: Round, proposer: Address) -> (r: Option<ProposedValue>)
        requires
            old(self).wf(),
            height.0 >= 1,
        ensures
            final(self).wf(),
            final(self).current_height == height,
            final(self).current_round == round,
            final(self).current_proposer == Some(proposer),
            final(self).store == old(self).store,
            r is Some <==> old(self).store.undecided_proposals().contains_key(round_key(height.0, round)),
            r matches Some(p) ==> same_proposed(p, old(self).store.undecided_proposals()[round_key(height.0, round)]),
    {
        self.current_height = height;
        self.current_round = round;
        self.current_proposer = Some(proposer);
        self.store.get_undecided_proposal(height, round)
    }

    /// The decided value at `height` with its certificate.
    pub fn get_decided_value(&self, height: Height) -> (r: Option<DecidedValue>)
        requires
            self.wf(),
        ensures
            r is Some <==> self.store.decided_values().contains_key(height_key(height.0))
                && self.store.certificates().contains_key(height_key(height.0)),
            r matches Some(d) ==> d.value.view() == self.store.decided_values()[height_key(height.0)].view()
                && crate::proposal::same_certificate(d.certificate, self.store.certificates()[height_key(height.0)]),
    {
        self.store.get_decided_value(height)
    }

    /// The lowest height with a decided value, or the first height when none is stored.
    pub fn get_earliest_height(&self) -> (r: Height)
        requires
            self.wf(),
        ensures
            self.store.decided_values().dom() == Set::<TableKey>::empty() ==> r.0 == 1,
            self.store.decided_values().dom() != Set::<TableKey>::empty() ==> (exists|k: TableKey|
                #[trigger] self.store.decided_values().contains_key(k) && k.height == r.0)
                && forall|k: TableKey| #[trigger] self.store.decided_values().contains_key(k) ==> r.0 <= k.height,
    {
        match self.store.min_decided_value_height() {
            Some(h) => h,
            None => Height(1),
        }
    }

    /// Adds a peer to the known peers, unless it is there already.
    pub fn peer_joined(&mut self, peer: PeerId)
        ensures
            (exists|i: int| 0 <= i < old(self).peers@.len() && (#[trigger] old(self).peers@[i]).0@ == peer.0@)
                ==> final(self).peers@ == old(self).peers@,
            !(exists|i: int| 0 <= i < old(self).peers@.len() && (#[trigger] old(self).peers@[i]).0@ == peer.0@)
                ==> final(self).peers@ == old(self).peers@.push(peer),
            final(self).store == old(self).store,
            final(self).current_height == old(self).current_height,
            final(self).transaction_pool == old(self).transaction_pool,
            final(self).current_round == old(self).current_round,
            final(self).current_proposer == old(self).current_proposer,
            final(self).streams_map == old(self).streams_map,
            final(self).validator_set == old(self).validator_set,
    {
        let mut i: usize = 0;
        while i < self.peers.len()
            invariant
                self == old(self),
                i <= self.peers@.len(),
                forall|j: int| 0 <= j < i ==> (#[trigger] self.peers@[j]).0@ != peer.0@,
            decreases self.peers@.len() - i,
        {
            if crate::keys::bytes_eq(&self.peers[i].0, &peer.0) {
                return;
            }
            i = i + 1;
        }
        self.peers.push(peer);
    }

    /// Removes a peer from the known peers; the others stay.
    pub fn peer_left(&mut self, peer: &PeerId)
        ensures
            forall|i: int| 0 <= i < final(self).peers@.len() ==> (#[trigger] final(self).peers@[i]).0@ != peer.0@
                && exists|j: int| 0 <= j < old(self).peers@.len() && old(self).peers@[j] == final(self).peers@[i],
            forall|j: int| 0 <= j < old(self).peers@.len() && (#[trigger] old(self).peers@[j]).0@ != peer.0@
                ==> exists|i: int| 0 <= i < final(self).peers@.len() && final(self).peers@[i] == old(self).peers@[j],
            final(self).store == old(self).store,
            final(self).current_height == old(self).current_height,
            final(self).transaction_pool == old(self).transaction_pool,
            final(self).current_round == old(self).current_round,
            final(self).current_proposer == old(self).current_proposer,
            final(self).streams_map == old(self).streams_map,
            final(self).validator_set == old(self).validator_set,
    {
        let ghost orig = self.peers@;
        let mut kept: Vec<PeerId> = Vec::new();
        while self.peers.len() > 0
            invariant
                orig == old(self).peers@,
                self.peers@.len() <= orig.len(),
                self.peers@ == orig.take(self.peers@.len() as int),
                forall|i: int| 0 <= i < kept@.len() ==> (#[trigger] kept@[i]).0@ != peer.0@
                    && exists|j: int| self.peers@.len() <= j < orig.len() && orig[j] == kept@[i],
                forall|j: int| self.peers@.len() <= j < orig.len() && (#[trigger] orig[j]).0@ != peer.0@
                    ==> exists|i: int| 0 <= i < kept@.len() && kept@[i] == orig[j],
                self.store == old(self).store,
                self.current_height == old(self).current_height,
                self.transaction_pool == old(self).transaction_pool,
                self.current_round == old(self).current_round,
                self.current_proposer == old(self).current_proposer,
                self.streams_map == old(self).streams_map,
                self.validator_set == old(self).validator_set,
            decreases self.peers@.len(),
        {
            let ghost n = self.peers@.len() - 1;
            let ghost cur = self.peers@;
            let p = self.peers.pop().unwrap();
            assert(p == cur[n] && cur[n] == orig[n]);
            assert(self.peers@ =~= orig.take(n));
            let ghost kb = kept@;
            if !crate::keys::bytes_eq(&p.0, &peer.0) {
                kept.push(p);
                proof {
                    assert forall|i: int| 0 <= i < kept@.len() implies (#[trigger] kept@[i]).0@ != peer.0@
                        && exists|j: int| n <= j < orig.len() && orig[j] == kept@[i] by {
                        if i < kb.len() {
                            assert(kept@[i] == kb[i]);
                            let j = choose|j: int| n + 1 <= j < orig.len() && orig[j] == kb[i];
                        } else {
                            assert(orig[n] == kept@[i]);
                        }
                    }
                    assert forall|j: int| n <= j < orig.len() && (#[trigger] orig[j]).0@ != peer.0@
                        implies exists|i: int| 0 <= i < kept@.len() && kept@[i] == orig[j] by {
                        if j == n {
                            assert(kept@[kb.len() as int] == orig[j]);
                        } else {
                            let i = choose|i: int| 0 <= i < kb.len() && kb[i] == orig[j];
                            assert(kept@[i] == kb[i]);
                        }
                    }
                }
            } else {
                proof {
                    assert forall|i: int| 0 <= i < kept@.len() implies (#[trigger] kept@[i]).0@ != peer.0@
                        && exists|j: int| n <= j < orig.len() && orig[j] == kept@[i] by {
                        let j = choose|j: int| n + 1 <= j < orig.len() && orig[j] == kept@[i];
                    }
                }
            }
        }
        let ghost kv = kept@;
        self.peers = kept;
        proof {
            assert forall|i: int| 0 <= i < self.peers@.len() implies (#[trigger] self.peers@[i]).0@ != peer.0@
                && exists|j: int| 0 <= j < old(self).peers@.len() && old(self).peers@[j] == self.peers@[i] by {
                assert(self.peers@[i] == kv[i]);
                let j = choose|j: int| 0 <= j < orig.len() && orig[j] == kv[i];
                assert(0 <= j < old(self).peers@.len() && old(self).peers@[j] == self.peers@[i]);
            }
            assert forall|j: int| 0 <= j < old(self).peers@.len() && (#[trigger] old(self).peers@[j]).0@ != peer.0@
                implies exists|i: int| 0 <= i < self.peers@.len() && self.peers@[i] == old(self).peers@[j] by {
                let i = choose|i: int| 0 <= i < kv.len() && kv[i] == orig[j];
                assert(self.peers@[i] == kv[i]);
            }
        }
    }

    /// The proposal of a value received through synchronization: its bytes
    /// decoded, marked valid. The certificate that comes with it is the
    /// authority, so the block is not checked again.
    pub fn process_synced_value(&self, height: Height, round: Round, proposer: Address, value_bytes: Vec<u8>) -> (r: ProposedValue)
        ensures
            r.height == height,
            r.round == round,
            r.valid_round == Round::Nil,
            r.proposer == proposer,
            r.value.view() == value_of(value_bytes@),
            r.validity == Validity::Valid,
    {
        ProposedValue {
            height,
            round,
            valid_round: Round::Nil,
            proposer,
            value: decode_value(value_bytes),
            validity: Validity::Valid,
        }
    }
}

} // verus!
