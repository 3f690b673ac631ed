//! Reassembly of streamed proposals: messages of one (peer, stream) are
//! buffered in sequence order until a contiguous run from zero ends with the
//! end-of-stream marker.
use vstd::prelude::*;

use crate::keys::bytes_eq;
use crate::proposal::{ProposalInit, ProposalPart, ProposalParts, StreamContent, StreamMessage};

verus! {

/// The network identity of a peer.
#[derive(Debug)]
pub struct PeerId(pub Vec<u8>);

/// Messages received so far on one stream, ordered by sequence number.
struct PartialStream {
    peer: Vec<u8>,
    stream_id: Vec<u8>,
    buffer: Vec<StreamMessage>,
}

/// What the buffer of a stream holds.
enum Assembly {
    /// Some message of the contiguous run from zero is still missing.
    Incomplete,
    /// The message numbered zero is not an `Init` part: the stream is dropped.
    Invalid,
    /// The contiguous run from zero ends at the end-of-stream marker at this index.
    Complete(usize),
}

/// Sequence numbers strictly increase along the buffer.
pub open spec fn seq_sorted(buf: Seq<StreamMessage>) -> bool {
    forall|i: int, j: int| 0 <= i < j < buf.len() ==> (#[trigger] buf[i]).sequence < (#[trigger] buf[j]).sequence
}

/// Some buffered message has sequence number `s`.
pub open spec fn has_seq(buf: Seq<StreamMessage>, s: u64) -> bool {
    exists|i: int| 0 <= i < buf.len() && (#[trigger] buf[i]).sequence == s
}

pub open spec fn index_from(buf: Seq<StreamMessage>, s: u64, i: int) -> int
    decreases buf.len() - i,
{
    if i < 0 || i >= buf.len() || buf[i].sequence >= s {
        i
    } else {
        index_from(buf, s, i + 1)
    }
}

/// The buffer with `m` inserted in sequence order.
pub open spec fn with_message(buf: Seq<StreamMessage>, m: StreamMessage) -> Seq<StreamMessage> {
    buf.insert(index_from(buf, m.sequence, 0), m)
}

/// From index `i` on, while the messages are numbered by their index, the
/// index of the first end-of-stream marker.
pub open spec fn first_fin_from(buf: Seq<StreamMessage>, i: int) -> Option<int>
    decreases buf.len() - i,
{
    if i < 0 || i >= buf.len() || buf[i].sequence != i as u64 {
        None
    } else if buf[i].content is Fin {
        Some(i)
    } else {
        first_fin_from(buf, i + 1)
    }
}

/// Where the stream ends, when its messages numbered from zero up to an
/// end-of-stream marker are all there and the first is an `Init` part.
pub open spec fn complete_at(buf: Seq<StreamMessage>) -> Option<int> {
    if buf.len() > 0 && buf[0].sequence == 0 && (buf[0].content matches StreamContent::Data(
        ProposalPart::Init(_),
    )) {
        first_fin_from(buf, 1)
    } else {
        None
    }
}

/// The message numbered zero is there and is not an `Init` part.
pub open spec fn starts_invalid(buf: Seq<StreamMessage>) -> bool {
    buf.len() > 0 && buf[0].sequence == 0 && !(buf[0].content matches StreamContent::Data(
        ProposalPart::Init(_),
    ))
}

pub open spec fn part_of(c: StreamContent) -> ProposalPart {
    match c {
        StreamContent::Data(p) => p,
        StreamContent::Fin => arbitrary(),
    }
}

/// The parts carried by the first `n` messages.
pub open spec fn parts_before(buf: Seq<StreamMessage>, n: int) -> Seq<ProposalPart> {
    Seq::new(n as nat, |i: int| part_of(buf[i].content))
}

pub open spec fn init_of(buf: Seq<StreamMessage>) -> ProposalInit {
    match buf[0].content {
        StreamContent::Data(ProposalPart::Init(i)) => i,
        _ => arbitrary(),
    }
}

spec fn key_is(st: PartialStream, peer: Seq<u8>, stream_id: Seq<u8>) -> bool {
    st.peer@ == peer && st.stream_id@ == stream_id
}

spec fn pending_in(streams: Seq<PartialStream>, peer: Seq<u8>, stream_id: Seq<u8>) -> Seq<StreamMessage> {
    if exists|i: int| 0 <= i < streams.len() && key_is(#[trigger] streams[i], peer, stream_id) {
        streams[choose|i: int| 0 <= i < streams.len() && key_is(#[trigger] streams[i], peer, stream_id)].buffer@
    } else {
        Seq::empty()
    }
}

spec fn streams_wf(streams: Seq<PartialStream>) -> bool {
    &&& forall|i: int, j: int|
        0 <= i < j < streams.len() ==> !key_is(#[trigger] streams[i], (#[trigger] streams[j]).peer@, streams[j].stream_id@)
    &&& forall|i: int| 0 <= i < streams.len() ==> seq_sorted((#[trigger] streams[i]).buffer@)
}

proof fn lemma_pending_at(streams: Seq<PartialStream>, i: int, peer: Seq<u8>, stream_id: Seq<u8>)
    requires
        streams_wf(streams),
        0 <= i < streams.len(),
        key_is(streams[i], peer, stream_id),
    ensures
        pending_in(streams, peer, stream_id) == streams[i].buffer@,
{
    let j = choose|j: int| 0 <= j < streams.len() && key_is(#[trigger] streams[j], peer, stream_id);
    if j < i {
        assert(!key_is(streams[j], streams[i].peer@, streams[i].stream_id@));
    } else if j > i {
        assert(!key_is(streams[i], streams[j].peer@, streams[j].stream_id@));
    }
}

/// Removing the stream at `i` or pushing one leaves the other keys' buffers alone.
proof fn lemma_pending_remove(streams: Seq<PartialStream>, i: int, peer: Seq<u8>, stream_id: Seq<u8>)
    requires
        streams_wf(streams),
        0 <= i < streams.len(),
        !key_is(streams[i], peer, stream_id),
    ensures
        pending_in(streams.remove(i), peer, stream_id) == pending_in(streams, peer, stream_id),
        streams_wf(streams.remove(i)),
{
    lemma_wf_remove(streams, i);
    let r = streams.remove(i);
    if exists|j: int| 0 <= j < streams.len() && key_is(#[trigger] streams[j], peer, stream_id) {
        let j = choose|j: int| 0 <= j < streams.len() && key_is(#[trigger] streams[j], peer, stream_id);
        lemma_pending_at(streams, j, peer, stream_id);
        let j2 = if j < i { j } else { j - 1 };
        assert(r[j2] == streams[j]);
        lemma_pending_at(r, j2, peer, stream_id);
    } else {
        assert forall|j: int| 0 <= j < r.len() implies !key_is(#[trigger] r[j], peer, stream_id) by {
            let j0 = if j < i { j } else { j + 1 };
            assert(r[j] == streams[j0]);
        }
    }
}

proof fn lemma_wf_remove(streams: Seq<PartialStream>, i: int)
    requires
        streams_wf(streams),
        0 <= i < streams.len(),
    ensures
        streams_wf(streams.remove(i)),
{
    let r = streams.remove(i);
    assert forall|a: int, b: int| 0 <= a < b < r.len() implies !key_is(#[trigger] r[a], (#[trigger] r[b]).peer@, r[b].stream_id@) by {
        let a0 = if a < i { a } else { a + 1 };
        let b0 = if b < i { b } else { b + 1 };
        assert(r[a] == streams[a0] && r[b] == streams[b0]);
    }
    assert forall|a: int| 0 <= a < r.len() implies seq_sorted((#[trigger] r[a]).buffer@) by {
        let a0 = if a < i { a } else { a + 1 };
        assert(r[a] == streams[a0]);
    }
}

proof fn lemma_pending_push(streams: Seq<PartialStream>, st: PartialStream, peer: Seq<u8>, stream_id: Seq<u8>)
    requires
        streams_wf(streams),
        seq_sorted(st.buffer@),
        forall|i: int| 0 <= i < streams.len() ==> !key_is(#[trigger] streams[i], st.peer@, st.stream_id@),
    ensures
        streams_wf(streams.push(st)),
        pending_in(streams.push(st), st.peer@, st.stream_id@) == st.buffer@,
        !(peer == st.peer@ && stream_id == st.stream_id@) ==> pending_in(streams.push(st), peer, stream_id) == pending_in(streams, peer, stream_id),
{
    let r = streams.push(st);
    assert forall|a: int, b: int| 0 <= a < b < r.len() implies !key_is(#[trigger] r[a], (#[trigger] r[b]).peer@, r[b].stream_id@) by {
        if b == streams.len() {
            assert(!key_is(streams[a], st.peer@, st.stream_id@));
        }
    }
    assert forall|a: int| 0 <= a < r.len() implies seq_sorted((#[trigger] r[a]).buffer@) by {
        if a < streams.len() {
            assert(r[a] == streams[a]);
        }
    }
    lemma_pending_at(r, streams.len() as int, st.peer@, st.stream_id@);
    if !(peer == st.peer@ && stream_id == st.stream_id@) {
        if exists|j: int| 0 <= j < streams.len() && key_is(#[trigger] streams[j], peer, stream_id) {
            let j = choose|j: int| 0 <= j < streams.len() && key_is(#[trigger] streams[j], peer, stream_id);
            lemma_pending_at(streams, j, peer, stream_id);
            assert(r[j] == streams[j]);
            lemma_pending_at(r, j, peer, stream_id);
        } else {
            assert forall|j: int| 0 <= j < r.len() implies !key_is(#[trigger] r[j], peer, stream_id) by {
                if j < streams.len() {
                    assert(r[j] == streams[j]);
                }
            }
        }
    }
}

proof fn lemma_first_fin(buf: Seq<StreamMessage>, i: int, n: int)
    requires
        0 <= i,
        first_fin_from(buf, i) == Some(n),
    ensures
        i <= n < buf.len(),
        buf[n].sequence == n as u64,
        buf[n].content is Fin,
        forall|j: int| i <= j < n ==> (#[trigger] buf[j]).content is Data,
    decreases buf.len() - i,
{
    if !(buf[i].content is Fin) {
        lemma_first_fin(buf, i + 1, n);
    }
}

proof fn lemma_sorted_insert(buf: Seq<StreamMessage>, p: int, m: StreamMessage)
    requires
        seq_sorted(buf),
        0 <= p <= buf.len(),
        forall|j: int| 0 <= j < p ==> (#[trigger] buf[j]).sequence < m.sequence,
        forall|j: int| p <= j < buf.len() ==> (#[trigger] buf[j]).sequence > m.sequence,
    ensures
        seq_sorted(buf.insert(p, m)),
{
    let b = buf.insert(p, m);
    assert forall|i: int, j: int| 0 <= i < j < b.len() implies (#[trigger] b[i]).sequence < (#[trigger] b[j]).sequence by {
        if i < p && j < p {
        } else if i < p && j == p {
        } else if i < p {
            assert(b[j] == buf[j - 1]);
        } else if i == p {
            assert(b[j] == buf[j - 1]);
        } else {
            assert(b[i] == buf[i - 1] && b[j] == buf[j - 1]);
        }
    }
}

/// The open streams, and the streams that have already been completed.
pub struct PartStreamsMap {
    streams: Vec<PartialStream>,
    completed: Vec<(Vec<u8>, Vec<u8>)>,
}

/// Where a message with sequence `seq` goes in a sorted buffer, or `None` if
/// one with that sequence is there already.
fn insert_position(buffer: &Vec<StreamMessage>, seq: u64) -> (r: Option<usize>)
    requires
        seq_sorted(buffer@),
    ensures
        r is None <==> has_seq(buffer@, seq),
        r matches Some(p) ==> p == index_from(buffer@, seq, 0) && p <= buffer@.len()
            && (forall|j: int| 0 <= j < p ==> (#[trigger] buffer@[j]).sequence < seq)
            && (forall|j: int| p <= j < buffer@.len() ==> (#[trigger] buffer@[j]).sequence > seq),
{
    let mut i: usize = 0;
    while i < buffer.len()
        invariant
            seq_sorted(buffer@),
            i <= buffer@.len(),
            forall|j: int| 0 <= j < i ==> (#[trigger] buffer@[j]).sequence < seq,
            index_from(buffer@, seq, 0) == index_from(buffer@, seq, i as int),
        decreases buffer@.len() - i,
    {
        if buffer[i].sequence == seq {
            assert(has_seq(buffer@, seq));
            return None;
        }
        if buffer[i].sequence > seq {
            assert forall|j: int| i <= j < buffer@.len() implies (#[trigger] buffer@[j]).sequence > seq by {
                if j > i {
                    assert(buffer@[i as int].sequence < buffer@[j].sequence);
                }
            }
            return Some(i);
        }
        i = i + 1;
    }
    Some(i)
}

fn assess(buffer: &Vec<StreamMessage>) -> (r: Assembly)
    ensures
        r matches Assembly::Complete(n) ==> complete_at(buffer@) == Some(n as int),
        r is Invalid <==> starts_invalid(buffer@),
        r is Incomplete ==> complete_at(buffer@) is None,
{
    if buffer.len() == 0 || buffer[0].sequence != 0 {
        return Assembly::Incomplete;
    }
    match &buffer[0].content {
        StreamContent::Data(ProposalPart::Init(_)) => {},
        _ => return Assembly::Invalid,
    }
    let mut i: usize = 1;
    while i < buffer.len()
        invariant
            1 <= i <= buffer@.len(),
            complete_at(buffer@) == first_fin_from(buffer@, i as int),
            !starts_invalid(buffer@),
        decreases buffer@.len() - i,
    {
        if buffer[i].sequence != i as u64 {
            return Assembly::Incomplete;
        }
        if let StreamContent::Fin = buffer[i].content {
            return Assembly::Complete(i);
        }
        i = i + 1;
    }
    Assembly::Incomplete
}

impl PartStreamsMap {
    pub closed spec fn wf(&self) -> bool {
        streams_wf(self.streams@)
    }

    /// The messages buffered for the open stream `stream_id` of `peer`, in
    /// sequence order; empty when that stream is not open.
    pub closed spec fn pending(&self, peer: Seq<u8>, stream_id: Seq<u8>) -> Seq<StreamMessage> {
        pending_in(self.streams@, peer, stream_id)
    }

    /// Whether the stream `stream_id` from `peer` has been completed.
    pub closed spec fn completed(&self, peer: Seq<u8>, stream_id: Seq<u8>) -> bool {
        exists|i: int|
            0 <= i < self.completed@.len() && (#[trigger] self.completed@[i]).0@ == peer
                && self.completed@[i].1@ == stream_id
    }

    /// What feeding `msg` from `peer` completes: the `Init` part and the parts
    /// of messages numbered from zero up to the end-of-stream marker, once the
    /// buffer with `msg` holds them all and its first is an `Init` part.
    /// Nothing for a completed stream or a repeated sequence number.
    pub open spec fn completion(&self, peer: Seq<u8>, msg: StreamMessage) -> Option<(ProposalInit, Seq<ProposalPart>)> {
        let buf = self.pending(peer, msg.stream_id@);
        if self.completed(peer, msg.stream_id@) || has_seq(buf, msg.sequence) {
            None
        } else {
            let b = with_message(buf, msg);
            match complete_at(b) {
                Some(n) => Some((init_of(b), parts_before(b, n))),
                None => None,
            }
        }
    }

    /// What stays buffered for the stream of `msg` after feeding it.
    pub open spec fn pending_after(&self, peer: Seq<u8>, msg: StreamMessage) -> Seq<StreamMessage> {
        let buf = self.pending(peer, msg.stream_id@);
        if self.completed(peer, msg.stream_id@) || has_seq(buf, msg.sequence) {
            buf
        } else {
            let b = with_message(buf, msg);
            if complete_at(b) is Some || starts_invalid(b) {
                Seq::empty()
            } else {
                b
            }
        }
    }

    /// How many streams are open.
    pub closed spec fn open_count(&self) -> nat {
        self.streams@.len()
    }

    pub fn new() -> (r: PartStreamsMap)
        ensures
            r.wf(),
            forall|p: Seq<u8>, s: Seq<u8>| !r.completed(p, s) && r.pending(p, s) == Seq::<StreamMessage>::empty(),
    {
        PartStreamsMap { streams: Vec::new(), completed: Vec::new() }
    }

    fn is_completed(&self, peer: &Vec<u8>, stream_id: &Vec<u8>) -> (r: bool)
        ensures
            r == self.completed(peer@, stream_id@),
    {
        let mut i: usize = 0;
        while i < self.completed.len()
            invariant
                i <= self.completed@.len(),
                forall|j: int|
                    0 <= j < i ==> !((#[trigger] self.completed@[j]).0@ == peer@
                        && self.completed@[j].1@ == stream_id@),
            decreases self.completed@.len() - i,
        {
            if bytes_eq(&self.completed[i].0, peer) && bytes_eq(&self.completed[i].1, stream_id) {
                return true;
            }
            i = i + 1;
        }
        false
    }

    /// Takes the open stream of `peer` and `stream_id` out of the map, or starts one.
    fn take_stream(&mut self, peer: &Vec<u8>, stream_id: &Vec<u8>) -> (r: PartialStream)
        requires
            old(self).wf(),
        ensures
            final(self).wf(),
            final(self).completed@ == old(self).completed@,
            r.peer@ == peer@,
            r.stream_id@ == stream_id@,
            r.buffer@ == old(self).pending(peer@, stream_id@),
            seq_sorted(r.buffer@),
            forall|i: int| 0 <= i < final(self).streams@.len() ==> !key_is(#[trigger] final(self).streams@[i], peer@, stream_id@),
            forall|p: Seq<u8>, s: Seq<u8>| !(p == peer@ && s == stream_id@) ==> #[trigger] final(self).pending(p, s) == old(self).pending(p, s),
    {
        let mut i: usize = 0;
        while i < self.streams.len()
            invariant
                self == old(self),
                self.wf(),
                i <= self.streams@.len(),
                forall|j: int| 0 <= j < i ==> !key_is(#[trigger] self.streams@[j], peer@, stream_id@),
            decreases self.streams@.len() - i,
        {
            if bytes_eq(&self.streams[i].peer, peer) && bytes_eq(&self.streams[i].stream_id, stream_id) {
                let ghost before = self.streams@;
                proof {
                    lemma_pending_at(before, i as int, peer@, stream_id@);
                    assert forall|j: int| i < j < before.len() implies !key_is(#[trigger] before[j], peer@, stream_id@) by {
                        assert(!key_is(before[i as int], before[j].peer@, before[j].stream_id@));
                    }
                }
                let st = self.streams.remove(i);
                proof {
                    assert(self.streams@ == before.remove(i as int));
                    assert forall|j: int| 0 <= j < self.streams@.len() implies !key_is(#[trigger] self.streams@[j], peer@, stream_id@) by {
                        let j0 = if j < i { j } else { j + 1 };
                        assert(self.streams@[j] == before[j0]);
                    }
                    assert forall|p: Seq<u8>, s: Seq<u8>| !(p == peer@ && s == stream_id@) implies #[trigger] pending_in(self.streams@, p, s) == pending_in(before, p, s) by {
                        lemma_pending_remove(before, i as int, p, s);
                    }
                    lemma_wf_remove(before, i as int);
                    assert(seq_sorted(before[i as int].buffer@));
                }
                return st;
            }
            i = i + 1;
        }
        proof {
            assert(!(exists|j: int| 0 <= j < self.streams@.len() && key_is(#[trigger] self.streams@[j], peer@, stream_id@)));
        }
        let st = PartialStream { peer: copy_id(peer), stream_id: copy_id(stream_id), buffer: Vec::new() };
        assert(st.buffer@ =~= Seq::<StreamMessage>::empty());
        st
    }

    /// Puts a stream back; its key is not among the open streams.
    fn put_stream(&mut self, st: PartialStream)
        requires
            old(self).wf(),
            seq_sorted(st.buffer@),
            forall|i: int| 0 <= i < old(self).streams@.len() ==> !key_is(#[trigger] old(self).streams@[i], st.peer@, st.stream_id@),
        ensures
            final(self).wf(),
            final(self).completed@ == old(self).completed@,
            final(self).pending(st.peer@, st.stream_id@) == st.buffer@,
            forall|p: Seq<u8>, s: Seq<u8>| !(p == st.peer@ && s == st.stream_id@) ==> #[trigger] final(self).pending(p, s) == old(self).pending(p, s),
    {
        let ghost before = self.streams@;
        let ghost sv = st;
        self.streams.push(st);
        proof {
            lemma_pending_push(before, sv, Seq::empty(), Seq::empty());
            assert forall|p: Seq<u8>, s: Seq<u8>| !(p == sv.peer@ && s == sv.stream_id@) implies #[trigger] pending_in(self.streams@, p, s) == pending_in(before, p, s) by {
                lemma_pending_push(before, sv, p, s);
            }
        }
    }

    /// Feeds one message from `peer`. Returns the parts of its stream, in
    /// sequence order, the one time that the stream completes: when the
    /// messages numbered from zero up to an end-of-stream marker have all
    /// arrived and the first of them is an `Init` part. Messages of a completed
    /// stream and repeated sequence numbers are ignored; a stream whose first
    /// message is not `Init` is dropped.
    pub fn insert(&mut self, peer: PeerId, msg: StreamMessage) -> (r: Option<ProposalParts>)
        requires
            old(self).wf(),
        ensures
            final(self).wf(),
            r is Some <==> old(self).completion(peer.0@, msg) is Some,
            r matches Some(pp) ==> old(self).completion(peer.0@, msg) == Some((
                ProposalInit { height: pp.height, round: pp.round, proposer: pp.proposer },
                pp.parts@,
            )),
            final(self).pending(peer.0@, msg.stream_id@) == old(self).pending_after(peer.0@, msg),
            forall|p: Seq<u8>, s: Seq<u8>| !(p == peer.0@ && s == msg.stream_id@) ==> #[trigger] final(self).pending(p, s) == old(self).pending(p, s),
            forall|p: Seq<u8>, s: Seq<u8>| #[trigger] final(self).completed(p, s) == (old(self).completed(p, s)
                || (p == peer.0@ && s == msg.stream_id@ && r is Some)),
    {
        let peer = peer.0;
        let stream_id = copy_id(&msg.stream_id);
        if self.is_completed(&peer, &stream_id) {
            return None;
        }
        let ghost msgv = msg;
        let ghost buf0 = self.pending(peer@, stream_id@);
        let mut stream = self.take_stream(&peer, &stream_id);
        let ghost taken = self.streams@;
        let ghost mid = *self;
        proof {
            lemma_same_completed(*old(self), *self);
            lemma_same_completed(*self, *old(self));
        }
        let p = match insert_position(&stream.buffer, msg.sequence) {
            None => {
                self.put_stream(stream);
                proof {
                    lemma_same_completed(*old(self), *self);
                    lemma_same_completed(*self, *old(self));
                }
                return None;
            },
            Some(p) => p,
        };
        proof {
            lemma_sorted_insert(stream.buffer@, p as int, msgv);
        }
        stream.buffer.insert(p, msg);
        let ghost b = stream.buffer@;
        assert(b == with_message(buf0, msgv));
        match assess(&stream.buffer) {
            Assembly::Incomplete => {
                assert(!starts_invalid(b));
                self.put_stream(stream);
                proof {
                    lemma_same_completed(*old(self), *self);
                    lemma_same_completed(*self, *old(self));
                }
                None
            },
            Assembly::Invalid => {
                proof {
                    assert(self.streams@ == taken);
                    assert forall|pp: Seq<u8>, ss: Seq<u8>| !(pp == peer@ && ss == stream_id@) implies #[trigger] self.pending(pp, ss) == old(self).pending(pp, ss) by {
                        assert(mid.pending(pp, ss) == old(self).pending(pp, ss));
                        assert(self.pending(pp, ss) == pending_in(taken, pp, ss));
                    }
                    assert(!(exists|j: int| 0 <= j < self.streams@.len() && key_is(#[trigger] self.streams@[j], peer@, stream_id@)));
                    assert(self.pending(peer@, stream_id@) =~= Seq::<StreamMessage>::empty());
                    assert(complete_at(b) is None);
                }
                None
            },
            Assembly::Complete(n) => {
                proof {
                    lemma_first_fin(b, 1, n as int);
                }
                let mut buffer = stream.buffer;
                buffer.truncate(n);
                let first = buffer.remove(0);
                let init = match first.content {
                    StreamContent::Data(ProposalPart::Init(init)) => init,
                    _ => {
                        assert(false);
                        return None;
                    },
                };
                let mut parts: Vec<ProposalPart> = Vec::new();
                parts.push(ProposalPart::Init(init));
                assert(parts@ =~= parts_before(b, 1));
                let mut k: usize = 1;
                while buffer.len() > 0
                    invariant
                        1 <= k <= n,
                        n < b.len(),
                        buffer@ == b.take(n as int).skip(k as int),
                        parts@ == parts_before(b, k as int),
                        forall|j: int| 1 <= j < n ==> (#[trigger] b[j]).content is Data,
                    decreases buffer@.len(),
                {
                    let m = buffer.remove(0);
                    assert(m == b[k as int]);
                    match m.content {
                        StreamContent::Data(part) => {
                            parts.push(part);
                        },
                        StreamContent::Fin => {
                            assert(false);
                        },
                    }
                    k = k + 1;
                    assert(parts@ =~= parts_before(b, k as int));
                    assert(buffer@ =~= b.take(n as int).skip(k as int));
                }
                let ghost before = self.completed@;
                self.completed.push((peer, stream_id));
                proof {
                    assert(k == n);
                    let last = self.completed@.len() - 1;
                    assert(self.completed@[last].0@ == peer@ && self.completed@[last].1@ == stream_id@);
                    assert forall|pp: Seq<u8>, s: Seq<u8>| #[trigger] self.completed(pp, s) == (old(self).completed(pp, s)
                        || (pp == peer@ && s == stream_id@)) by {
                        if old(self).completed(pp, s) {
                            let j = choose|j: int| 0 <= j < before.len() && (#[trigger] before[j]).0@ == pp && before[j].1@ == s;
                            assert(self.completed@[j] == before[j]);
                        }
                        if self.completed(pp, s) && !(pp == peer@ && s == stream_id@) {
                            let j = choose|j: int| 0 <= j < self.completed@.len() && (#[trigger] self.completed@[j]).0@ == pp && self.completed@[j].1@ == s;
                            assert(j != last);
                            assert(before[j] == self.completed@[j]);
                        }
                    }
                    assert(self.streams@ == taken);
                    assert forall|pp: Seq<u8>, ss: Seq<u8>| !(pp == peer@ && ss == stream_id@) implies #[trigger] self.pending(pp, ss) == old(self).pending(pp, ss) by {
                        assert(mid.pending(pp, ss) == old(self).pending(pp, ss));
                        assert(self.pending(pp, ss) == pending_in(taken, pp, ss));
                    }
                    assert(!(exists|j: int| 0 <= j < self.streams@.len() && key_is(#[trigger] self.streams@[j], peer@, stream_id@)));
                    assert(self.pending(peer@, stream_id@) =~= Seq::<StreamMessage>::empty());
                }
                Some(ProposalParts {
                    height: init.height,
                    round: init.round,
                    proposer: init.proposer,
                    parts,
                })
            },
        }
    }

    /// Drops the open streams whose `Init` part is for a height below `height`.
    /// Completed streams stay recorded.
    pub fn evict_below(&mut self, height: u64)
        requires
            old(self).wf(),
        ensures
            final(self).wf(),
            forall|p: Seq<u8>, s: Seq<u8>| #[trigger] final(self).completed(p, s) == old(self).completed(p, s),
    {
        let mut kept: Vec<PartialStream> = Vec::new();
        let ghost orig = self.streams@;
        while self.streams.len() > 0
            invariant
                self.completed@ == old(self).completed@,
                streams_wf(orig),
                self.streams@.len() <= orig.len(),
                self.streams@ == orig.take(self.streams@.len() as int),
                streams_wf(kept@),
                forall|i: int| 0 <= i < kept@.len() ==> exists|j: int|
                    self.streams@.len() <= j < orig.len() && orig[j] == #[trigger] kept@[i],
            decreases self.streams@.len(),
        {
            let ghost n = self.streams@.len() - 1;
            let ghost cur = self.streams@;
            let stream = self.streams.pop().unwrap();
            assert(stream == cur[n]);
            assert(cur[n] == orig[n]);
            assert(self.streams@ =~= orig.take(n));
            let stale = if stream.buffer.len() > 0 {
                match &stream.buffer[0].content {
                    StreamContent::Data(ProposalPart::Init(init)) => init.height.0 < height,
                    _ => false,
                }
            } else {
                false
            };
            if !stale {
                let ghost kb = kept@;
                proof {
                    assert(seq_sorted(orig[n].buffer@));
                    assert forall|i: int| 0 <= i < kb.len() implies !key_is(#[trigger] kb[i], stream.peer@, stream.stream_id@) by {
                        let j = choose|j: int| n + 1 <= j < orig.len() && orig[j] == kb[i];
                        assert(!key_is(orig[n], orig[j].peer@, orig[j].stream_id@));
                    }
                    lemma_pending_push(kb, stream, Seq::empty(), Seq::empty());
                }
                kept.push(stream);
                proof {
                    assert forall|i: int| 0 <= i < kept@.len() implies exists|j: int|
                        n <= j < orig.len() && orig[j] == #[trigger] kept@[i] by {
                        if i < kb.len() {
                            assert(kept@[i] == kb[i]);
                            let j = choose|j: int| n <= j < orig.len() && orig[j] == kb[i];
                        } else {
                            assert(orig[n] == kept@[i]);
                        }
                    }
                }
            }
        }
        self.streams = kept;
        proof {
            lemma_same_completed(*old(self), *self);
            lemma_same_completed(*self, *old(self));
        }
    }

    /// The number of streams still open.
    pub fn open_streams(&self) -> (r: usize)
        ensures
            r == self.open_count(),
    {
        self.streams.len()
    }
}

/// Once a stream has completed, no message of it completes it again.
pub proof fn lemma_completion_at_most_once(map: PartStreamsMap, peer: Seq<u8>, msg: StreamMessage)
    requires
        map.completed(peer, msg.stream_id@),
    ensures
        map.completion(peer, msg) is None,
{
}

proof fn lemma_same_completed(a: PartStreamsMap, b: PartStreamsMap)
    requires
        a.completed@ == b.completed@,
    ensures
        forall|p: Seq<u8>, s: Seq<u8>| #[trigger] a.completed(p, s) ==> b.completed(p, s),
{
    assert forall|p: Seq<u8>, s: Seq<u8>| #[trigger] a.completed(p, s) implies b.completed(p, s) by {
        let j = choose|j: int|
            0 <= j < a.completed@.len() && (#[trigger] a.completed@[j]).0@ == p
                && a.completed@[j].1@ == s;
        assert(b.completed@[j] == a.completed@[j]);
    }
}

fn copy_id(id: &Vec<u8>) -> (r: Vec<u8>)
    ensures
        r@ == id@,
{
    let r = id.clone();
    assert(r@ =~= id@);
    r
}

} // verus!
