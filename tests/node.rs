use mikan::blob::{Blob, BLOB_SIZE};
use mikan::block::Block;
use mikan::context::TestContext;
use mikan::height::{Height, Round};
use mikan::keys::{Address, PrivateKey, Signature};
use mikan::pool::TransactionPool;
use mikan::proposal::{
    CommitCertificate, ProposalPart, StreamContent, StreamMessage, Validator, ValidatorSet,
};
use mikan::state::{decode_value, encode_value, State, CHUNK_SIZE};
use mikan::store::Store;
use mikan::streaming::{PartStreamsMap, PeerId};
use mikan::transaction::Transaction;
use mikan::value::ValueId;

fn key(n: u8) -> PrivateKey {
    PrivateKey::from_seed([n; 32])
}

fn address(n: u8) -> Address {
    Address::from_public_key(&key(n).public_key())
}

fn validators() -> ValidatorSet {
    ValidatorSet {
        validators: (1..=3u8)
            .map(|n| Validator { address: address(n), public_key: key(n).public_key(), voting_power: 1 })
            .collect(),
    }
}

fn node(n: u8) -> State {
    let mut store = Store::new();
    store.store_decided_block_data(Height::new(0), Block::genesis().to_bytes());
    State::new(validators(), key(n), address(n), Height::new(1), store, TransactionPool::new())
}

fn transaction(seed: u8, gas_price: u64) -> Transaction {
    let k = PrivateKey::from_seed([seed; 32]);
    let data = [
        Blob::new(vec![seed; BLOB_SIZE]),
        Blob::new(vec![1; BLOB_SIZE]),
        Blob::new(vec![2; BLOB_SIZE]),
        Blob::new(vec![3; BLOB_SIZE]),
    ];
    Transaction::signed(&k, k.public_key(), 1, data, 0, gas_price)
}

fn commitments() -> Vec<[u8; 32]> {
    vec![[1u8; 32], [2u8; 32], [3u8; 32], [4u8; 32]]
}

fn now() -> u64 {
    chrono::Utc::now().timestamp() as u64
}

/// The proposer's side of `GetValue(1, 0)`: the block bytes and the stream.
fn propose(state: &mut State) -> (Vec<u8>, ValueId, Vec<StreamMessage>) {
    state.transaction_pool.add_transaction(transaction(9, 5));
    let tx = state.next_valid_transaction();
    assert!(tx.is_some());
    let bytes = state.make_block(now(), tx, commitments()).unwrap();
    let value = state.propose_value(Height::new(1), Round::new(0), bytes.clone());
    let msgs = state.stream_proposal(&value, &bytes);
    (bytes, value.value.id(), msgs)
}

#[test]
fn proposal_is_stored_and_streamed() {
    let mut a = node(1);
    let (bytes, _, msgs) = propose(&mut a);
    assert!(a.store.get_undecided_proposal(Height::new(1), Round::new(0)).is_some());
    assert!(a.store.get_block_data(Height::new(1), Round::new(0)).is_some());
    let chunks = (bytes.len() + CHUNK_SIZE - 1) / CHUNK_SIZE;
    assert_eq!(msgs.len(), chunks + 3);
    for (i, m) in msgs.iter().enumerate() {
        assert_eq!(m.sequence, i as u64);
    }
    assert!(matches!(msgs[0].content, StreamContent::Data(ProposalPart::Init(_))));
    assert!(matches!(msgs[msgs.len() - 2].content, StreamContent::Data(ProposalPart::Fin(_))));
    assert!(matches!(msgs[msgs.len() - 1].content, StreamContent::Fin));
    let block = Block::from_bytes(&bytes).unwrap();
    assert_eq!(block.parent_hash(), Block::genesis().hash());
    assert_eq!(block.header.block_number, 1);
    assert_eq!(block.header.proposer_address, address(1));
}

#[test]
fn out_of_order_parts_reassemble_once() {
    let mut a = node(1);
    let (bytes, _, msgs) = propose(&mut a);
    let n = msgs.len();
    let mut order: Vec<usize> = vec![n - 1, 0, 2, 1];
    order.extend(3..n - 1);
    let mut b = node(2);
    let mut completed = Vec::new();
    for &i in &order {
        if let Some(rp) = b.reassemble_signed(PeerId(vec![1]), msgs[i].clone()) {
            completed.push(rp);
        }
    }
    assert_eq!(completed.len(), 1);
    let rp = completed.pop().unwrap();
    assert_eq!(rp.data, bytes);
    assert_eq!(rp.value.proposer, address(1));
    let accepted = b.accept_proposal(rp, now() as i64, &commitments()).unwrap();
    assert!(accepted.is_some());
    assert!(b.store.get_undecided_proposal(Height::new(1), Round::new(0)).is_some());

    for m in &msgs {
        assert!(b.reassemble_signed(PeerId(vec![1]), m.clone()).is_none());
    }
}

#[test]
fn flipped_signature_bit_is_refused() {
    let mut a = node(1);
    let (_, _, mut msgs) = propose(&mut a);
    let fin = msgs.len() - 2;
    if let StreamContent::Data(ProposalPart::Fin(f)) = &mut msgs[fin].content {
        let mut sig = f.signature.to_bytes();
        sig[10] ^= 0x01;
        f.signature = Signature::from_bytes(sig);
    } else {
        panic!("no Fin part");
    }
    let mut c = node(3);
    for m in &msgs {
        assert!(c.reassemble_signed(PeerId(vec![1]), m.clone()).is_none());
    }
    assert!(c.store.get_undecided_proposal(Height::new(1), Round::new(0)).is_none());
}

#[test]
fn stream_without_init_is_dropped() {
    let mut a = node(1);
    let (_, _, msgs) = propose(&mut a);
    let mut map = PartStreamsMap::new();
    for m in msgs.iter().skip(1) {
        let mut m = m.clone();
        m.sequence -= 1;
        assert!(map.insert(PeerId(vec![2]), m).is_none());
    }
}

#[test]
fn decided_value_is_the_proposed_one() {
    let mut a = node(1);
    let (bytes, id, _) = propose(&mut a);
    let cert = CommitCertificate {
        height: Height::new(1),
        round: Round::new(0),
        value_id: id,
        aggregated_signature: vec![7, 7],
    };
    assert!(a.commit(&cert));
    let decided = a.get_decided_value(Height::new(1)).unwrap();
    assert_eq!(decided.value.extensions, bytes);
    assert_eq!(decided.value.id(), id);
    assert_eq!(decided.certificate.aggregated_signature, vec![7, 7]);
    assert_eq!(a.current_height, Height::new(2));
    assert_eq!(a.current_round, Round::new(0));
    assert_eq!(a.store.get_decided_block(Height::new(1)), Some(bytes.clone()));
    let synced = a.process_synced_value(Height::new(1), Round::new(0), address(1), encode_value(&decided.value));
    assert_eq!(synced.value.value, decided.value.value);
    assert_eq!(decode_value(bytes).id(), id);
}

#[test]
fn commit_without_matching_proposal_is_skipped() {
    let mut a = node(1);
    let cert = CommitCertificate {
        height: Height::new(1),
        round: Round::new(0),
        value_id: ValueId::new(1),
        aggregated_signature: vec![],
    };
    assert!(!a.commit(&cert));
    assert_eq!(a.current_height, Height::new(1));
}

#[test]
fn prune_keeps_the_last_heights() {
    let mut s = node(1);
    for h in 1..=30u64 {
        s.started_round(Height::new(h), Round::new(0), address(1));
        let data = h.to_be_bytes().to_vec();
        let value = s.propose_value(Height::new(h), Round::new(0), data);
        let cert = CommitCertificate {
            height: Height::new(h),
            round: Round::new(0),
            value_id: value.value.id(),
            aggregated_signature: vec![],
        };
        assert!(s.commit(&cert));
    }
    assert_eq!(s.get_earliest_height(), Height::new(5));
    assert_eq!(s.store.min_decided_value_height(), Some(Height::new(5)));
    for h in 0..=4u64 {
        assert!(s.store.get_undecided_proposal(Height::new(h), Round::new(0)).is_none());
        assert!(s.get_decided_value(Height::new(h)).is_none());
    }
    assert!(s.get_decided_value(Height::new(5)).is_some());
    assert_eq!(s.current_height, Height::new(31));
}

#[test]
fn store_keeps_first_write_and_falls_back_to_decided() {
    let mut store = Store::new();
    store.store_undecided_block_data(Height::new(3), Round::new(1), vec![1]);
    store.store_undecided_block_data(Height::new(3), Round::new(1), vec![2]);
    assert_eq!(store.get_block_data(Height::new(3), Round::new(1)), Some(vec![1]));
    store.store_decided_block_data(Height::new(3), vec![9]);
    assert_eq!(store.get_block_data(Height::new(3), Round::new(2)), Some(vec![9]));
    assert_eq!(store.get_block_data(Height::new(4), Round::new(2)), None);
    let pruned = store.prune(Height::new(4));
    assert!(pruned.is_empty());
    assert_eq!(store.get_block_data(Height::new(3), Round::new(1)), None);
    assert_eq!(store.min_decided_value_height(), None);
}

#[test]
fn started_round_replays_known_proposal() {
    let mut a = node(1);
    let (_, id, _) = propose(&mut a);
    let replay = a.started_round(Height::new(1), Round::new(0), address(1)).unwrap();
    assert_eq!(replay.value.id(), id);
    assert!(a.started_round(Height::new(1), Round::new(1), address(2)).is_none());
    assert_eq!(a.current_round, Round::new(1));
}

#[test]
fn proposers_take_turns() {
    let ctx = TestContext::new();
    let set = validators();
    assert_eq!(ctx.select_proposer(&set, Height::new(1), Round::new(0)).address, address(1));
    assert_eq!(ctx.select_proposer(&set, Height::new(2), Round::new(0)).address, address(2));
    assert_eq!(ctx.select_proposer(&set, Height::new(1), Round::new(2)).address, address(3));
    assert_eq!(ctx.select_proposer(&set, Height::new(3), Round::new(1)).address, address(1));
    assert_eq!(set.get_by_address(&address(2)).unwrap().address, address(2));
    assert!(set.get_by_address(&Address::new([0; 20])).is_none());
}

#[test]
fn peers_are_tracked() {
    let mut a = node(1);
    a.peer_joined(PeerId(vec![1]));
    a.peer_joined(PeerId(vec![1]));
    a.peer_joined(PeerId(vec![2]));
    assert_eq!(a.peers.len(), 2);
    a.peer_left(&PeerId(vec![1]));
    assert_eq!(a.peers.len(), 1);
    assert_eq!(a.peers[0].0, vec![2]);
}

#[test]
fn stale_open_streams_are_evicted() {
    let mut a = node(1);
    let (_, _, msgs) = propose(&mut a);
    let mut map = PartStreamsMap::new();
    assert!(map.insert(PeerId(vec![4]), msgs[0].clone()).is_none());
    assert!(map.insert(PeerId(vec![4]), msgs[2].clone()).is_none());
    assert_eq!(map.open_streams(), 1);
    map.evict_below(1);
    assert_eq!(map.open_streams(), 1);
    map.evict_below(2);
    assert_eq!(map.open_streams(), 0);
}

#[test]
fn processed_parts_are_checked_and_stored_once() {
    let mut a = node(1);
    let (bytes, id, msgs) = propose(&mut a);
    let mut b = node(2);
    let mut stored = Vec::new();
    for m in msgs.iter().rev() {
        if let Some(v) = b.received_proposal_part(PeerId(vec![1]), m.clone(), now() as i64, &commitments()) {
            stored.push(v);
        }
    }
    assert_eq!(stored.len(), 1);
    assert_eq!(stored[0].value.id(), id);
    assert_eq!(b.store.get_block_data(Height::new(1), Round::new(0)), Some(bytes));
    for m in &msgs {
        assert!(b.received_proposal_part(PeerId(vec![1]), m.clone(), now() as i64, &commitments()).is_none());
    }

    let mut c = node(3);
    let mut wrong = Vec::new();
    for m in &msgs {
        if let Some(v) = c.received_proposal_part(PeerId(vec![1]), m.clone(), now() as i64, &[]) {
            wrong.push(v);
        }
    }
    assert!(wrong.is_empty());
    assert!(c.store.get_undecided_proposal(Height::new(1), Round::new(0)).is_none());
}

#[test]
fn only_valid_transactions_are_taken() {
    let mut a = node(1);
    a.transaction_pool.add_transaction(transaction(5, 10));
    a.transaction_pool.add_transaction(transaction(6, 20));
    let got = a.next_valid_transaction().unwrap();
    assert_eq!(got.gas_price(), 20);
    assert_eq!(a.transaction_pool.tx_count(), 1);
    assert!(a.next_valid_transaction().is_some());
    assert!(a.next_valid_transaction().is_none());
    assert!(a.make_block(now(), None, vec![]).is_ok());
}

#[test]
fn prune_returns_deleted_heights_in_ascending_order() {
    let mut store = Store::new();
    for h in [3u64, 1, 7, 2] {
        let cert = CommitCertificate {
            height: Height::new(h),
            round: Round::new(0),
            value_id: ValueId::new(h),
            aggregated_signature: vec![],
        };
        store.store_decided_value(&cert, mikan::value::Value::new(vec![h as u8]));
    }
    let pruned = store.prune(Height::new(4));
    assert_eq!(pruned, vec![Height::new(1), Height::new(2), Height::new(3)]);
    assert_eq!(store.min_decided_value_height(), Some(Height::new(7)));
}

#[test]
fn commit_follows_the_stored_proposal() {
    let mut a = node(1);
    let (bytes, id, _) = propose(&mut a);
    let cert = CommitCertificate {
        height: Height::new(1),
        round: Round::new(0),
        value_id: ValueId::new(id.as_u64().wrapping_add(1)),
        aggregated_signature: vec![],
    };
    assert!(a.commit(&cert));
    assert_eq!(a.get_decided_value(Height::new(1)).unwrap().value.extensions, bytes);
    assert_eq!(a.current_height, Height::new(2));
}

#[test]
fn node_from_genesis_builds_on_genesis() {
    let mut s = State::from_genesis(validators(), key(1), address(1), TransactionPool::new());
    s.transaction_pool.add_transaction(transaction(3, 1));
    let tx = s.next_valid_transaction();
    let bytes = s.make_block(now(), tx, commitments()).unwrap();
    assert_eq!(Block::from_bytes(&bytes).unwrap().parent_hash(), Block::genesis().hash());
    let value = mikan::proposal::LocallyProposedValue {
        height: Height::new(1),
        round: Round::new(0),
        value: mikan::value::Value::new(vec![]),
    };
    assert_eq!(s.stream_proposal(&value, &[]).len(), 3);
}
