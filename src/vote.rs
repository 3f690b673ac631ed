//! Votes and the finality parameters that collect them, with the canonical
//! bytes of a vote.
//!
//! Vote bytes: validator (20 bytes), signature (length-prefixed), block,
//! height, round (tag 0 for nil, tag 1 and the number), type (0 prevote,
//! 1 precommit), validator address (20 bytes), value (tag 0 for nil, tag 1
//! and the identifier). Integers are big-endian 64-bit.
use vstd::prelude::*;

use crate::codec::{
    be64, enc_bytes, lemma_parse_bytes, lemma_parse_raw, lemma_parse_u64, parse_bytes, parse_raw,
    parse_u64, put_bytes, put_raw, put_u64, read_bytes, read_raw, read_u64,
};
use crate::crypto::{merkle_root, merkle_root_of, sha256, sha256_of};
use crate::error::BlockError;
use crate::height::{Height, Round};
use crate::keys::Address;
use crate::value::ValueId;

verus! {

/// The kind of a vote.
#[derive(Clone, Copy, Debug, PartialEq, Eq, Structural)]
pub enum VoteType {
    Prevote,
    Precommit,
}

/// A vote for a value, or for nil, at a height and round.
#[derive(Clone, Debug, PartialEq, Eq)]
pub struct Vote {
    pub validator: Address,
    pub signature: Vec<u8>,
    pub block: u64,
    pub height: Height,
    pub round: Round,
    pub typ: VoteType,
    pub validator_address: Address,
    pub value: Option<ValueId>,
}

/// A vote as plain values.
pub struct VoteModel {
    pub validator: Seq<u8>,
    pub signature: Seq<u8>,
    pub block: u64,
    pub height: u64,
    pub round: Round,
    pub typ: VoteType,
    pub validator_address: Seq<u8>,
    pub value: Option<u64>,
}

pub open spec fn vote_model(v: Vote) -> VoteModel {
    VoteModel {
        validator: v.validator.0@,
        signature: v.signature@,
        block: v.block,
        height: v.height.0,
        round: v.round,
        typ: v.typ,
        validator_address: v.validator_address.0@,
        value: match v.value {
            None => None,
            Some(id) => Some(id.0),
        },
    }
}

pub open spec fn enc_round(r: Round) -> Seq<u8> {
    match r {
        Round::Nil => seq![0u8],
        Round::Num(n) => seq![1u8] + be64(n as u64),
    }
}

pub open spec fn enc_type(t: VoteType) -> Seq<u8> {
    match t {
        VoteType::Prevote => seq![0u8],
        VoteType::Precommit => seq![1u8],
    }
}

pub open spec fn enc_value(v: Option<u64>) -> Seq<u8> {
    match v {
        None => seq![0u8],
        Some(id) => seq![1u8] + be64(id),
    }
}

pub open spec fn enc_vote(m: VoteModel) -> Seq<u8> {
    m.validator + (enc_bytes(m.signature) + (be64(m.block) + (be64(m.height) + (enc_round(m.round)
        + (enc_type(m.typ) + (m.validator_address + enc_value(m.value)))))))
}

pub open spec fn parse_tag(s: Seq<u8>) -> Option<(u8, Seq<u8>)> {
    if s.len() >= 1 {
        Some((s[0], s.skip(1)))
    } else {
        None
    }
}

pub open spec fn parse_round(s: Seq<u8>) -> Option<(Round, Seq<u8>)> {
    match parse_tag(s) {
        None => None,
        Some((t, rest)) => if t == 0 {
            Some((Round::Nil, rest))
        } else if t == 1 {
            match parse_u64(rest) {
                None => None,
                Some((n, rest2)) => if n <= u32::MAX {
                    Some((Round::Num(n as u32), rest2))
                } else {
                    None
                },
            }
        } else {
            None
        },
    }
}

pub open spec fn parse_type(s: Seq<u8>) -> Option<(VoteType, Seq<u8>)> {
    match parse_tag(s) {
        None => None,
        Some((t, rest)) => if t == 0 {
            Some((VoteType::Prevote, rest))
        } else if t == 1 {
            Some((VoteType::Precommit, rest))
        } else {
            None
        },
    }
}

pub open spec fn parse_value(s: Seq<u8>) -> Option<(Option<u64>, Seq<u8>)> {
    match parse_tag(s) {
        None => None,
        Some((t, rest)) => if t == 0 {
            Some((None, rest))
        } else if t == 1 {
            match parse_u64(rest) {
                None => None,
                Some((v, rest2)) => Some((Some(v), rest2)),
            }
        } else {
            None
        },
    }
}

/// Reads the validator, signature, block and height of a vote.
#[verifier::opaque]
pub open spec fn parse_vote_head(s: Seq<u8>) -> Option<((Seq<u8>, Seq<u8>, u64, u64), Seq<u8>)> {
    match parse_raw(s, 20) {
        None => None,
        Some((validator, s1)) => match parse_bytes(s1) {
            None => None,
            Some((signature, s2)) => match parse_u64(s2) {
                None => None,
                Some((block, s3)) => match parse_u64(s3) {
                    None => None,
                    Some((height, s4)) => Some(((validator, signature, block, height), s4)),
                },
            },
        },
    }
}

/// Reads the round, type, validator address and value of a vote.
#[verifier::opaque]
pub open spec fn parse_vote_tail(s: Seq<u8>) -> Option<((Round, VoteType, Seq<u8>, Option<u64>), Seq<u8>)> {
    match parse_round(s) {
        None => None,
        Some((round, s1)) => match parse_type(s1) {
            None => None,
            Some((typ, s2)) => match parse_raw(s2, 20) {
                None => None,
                Some((address, s3)) => match parse_value(s3) {
                    None => None,
                    Some((value, s4)) => Some(((round, typ, address, value), s4)),
                },
            },
        },
    }
}

/// The vote that some bytes hold, if they hold exactly one.
pub open spec fn parse_vote(s: Seq<u8>) -> Option<VoteModel> {
    match parse_vote_head(s) {
        None => None,
        Some(((validator, signature, block, height), s1)) => match parse_vote_tail(s1) {
            None => None,
            Some(((round, typ, validator_address, value), s2)) => if s2.len() == 0 {
                Some(
                    VoteModel {
                        validator,
                        signature,
                        block,
                        height,
                        round,
                        typ,
                        validator_address,
                        value,
                    },
                )
            } else {
                None
            },
        },
    }
}

proof fn lemma_parse_tag(t: u8, tail: Seq<u8>)
    ensures
        parse_tag(seq![t] + tail) == Some((t, tail)),
{
    assert((seq![t] + tail).skip(1) =~= tail);
}

proof fn lemma_vote_head(validator: Seq<u8>, signature: Seq<u8>, block: u64, height: u64, rest: Seq<u8>)
    requires
        validator.len() == 20,
        signature.len() <= u64::MAX,
    ensures
        parse_vote_head(validator + (enc_bytes(signature) + (be64(block) + (be64(height) + rest))))
            == Some(((validator, signature, block, height), rest)),
{
    reveal(parse_vote_head);
    lemma_parse_raw(validator, enc_bytes(signature) + (be64(block) + (be64(height) + rest)));
    lemma_parse_bytes(signature, be64(block) + (be64(height) + rest));
    lemma_parse_u64(block, be64(height) + rest);
    lemma_parse_u64(height, rest);
}

proof fn lemma_vote_tail(round: Round, typ: VoteType, address: Seq<u8>, value: Option<u64>, rest: Seq<u8>)
    requires
        address.len() == 20,
    ensures
        parse_vote_tail(enc_round(round) + (enc_type(typ) + (address + (enc_value(value) + rest))))
            == Some(((round, typ, address, value), rest)),
{
    reveal(parse_vote_tail);
    let after_round = enc_type(typ) + (address + (enc_value(value) + rest));
    match round {
        Round::Nil => {
            lemma_parse_tag(0u8, after_round);
        },
        Round::Num(n) => {
            assert(enc_round(round) + after_round =~= seq![1u8] + (be64(n as u64) + after_round));
            lemma_parse_tag(1u8, be64(n as u64) + after_round);
            lemma_parse_u64(n as u64, after_round);
        },
    }
    let after_type = address + (enc_value(value) + rest);
    match typ {
        VoteType::Prevote => lemma_parse_tag(0u8, after_type),
        VoteType::Precommit => lemma_parse_tag(1u8, after_type),
    }
    lemma_parse_raw(address, enc_value(value) + rest);
    match value {
        None => lemma_parse_tag(0u8, rest),
        Some(v) => {
            assert(enc_value(value) + rest =~= seq![1u8] + (be64(v) + rest));
            lemma_parse_tag(1u8, be64(v) + rest);
            lemma_parse_u64(v, rest);
        },
    }
}

/// Decoding the canonical bytes of a vote gives the vote back.
pub proof fn lemma_vote_round_trip(m: VoteModel)
    requires
        m.validator.len() == 20,
        m.validator_address.len() == 20,
        m.signature.len() <= u64::MAX,
    ensures
        parse_vote(enc_vote(m)) == Some(m),
{
    let tail = enc_round(m.round) + (enc_type(m.typ) + (m.validator_address + enc_value(m.value)));
    lemma_vote_head(m.validator, m.signature, m.block, m.height, tail);
    let empty = Seq::<u8>::empty();
    assert(m.validator_address + enc_value(m.value) =~= m.validator_address + (enc_value(m.value) + empty));
    lemma_vote_tail(m.round, m.typ, m.validator_address, m.value, empty);
}

fn read_tag(buf: &[u8], pos: usize) -> (r: Option<(u8, usize)>)
    requires
        pos <= buf@.len(),
    ensures
        match parse_tag(buf@.skip(pos as int)) {
            None => r is None,
            Some((t, rest)) => r matches Some((u, p)) && u == t && p == pos + 1 && p <= buf@.len()
                && rest == buf@.skip(p as int),
        },
{
    if pos >= buf.len() {
        return None;
    }
    let t = buf[pos];
    assert(buf@.skip(pos as int)[0] == t);
    assert(buf@.skip(pos as int).skip(1) =~= buf@.skip(pos + 1));
    Some((t, pos + 1))
}

fn read_address(buf: &[u8], pos: usize) -> (r: Option<(Address, usize)>)
    requires
        pos <= buf@.len(),
    ensures
        match parse_raw(buf@.skip(pos as int), 20) {
            None => r is None,
            Some((v, rest)) => r matches Some((a, p)) && a.0@ == v && p <= buf@.len() && rest
                == buf@.skip(p as int),
        },
{
    let (v, p) = match read_raw(buf, pos, 20) {
        None => return None,
        Some(x) => x,
    };
    let mut a = [0u8; 20];
    let mut i: usize = 0;
    while i < 20
        invariant
            v@.len() == 20,
            i <= 20,
            forall|j: int| 0 <= j < i ==> a@[j] == v@[j],
        decreases 20 - i,
    {
        a[i] = v[i];
        i = i + 1;
    }
    assert(a@ =~= v@);
    Some((Address(a), p))
}

fn read_vote_head(buf: &[u8], pos: usize) -> (r: Option<((Address, Vec<u8>, u64, u64), usize)>)
    requires
        pos <= buf@.len(),
    ensures
        match parse_vote_head(buf@.skip(pos as int)) {
            None => r is None,
            Some((m, rest)) => r matches Some((v, p)) && (v.0.0@, v.1@, v.2, v.3) == m && p
                <= buf@.len() && rest == buf@.skip(p as int),
        },
{
    reveal(parse_vote_head);
    let (validator, p) = match read_address(buf, pos) {
        None => return None,
        Some(x) => x,
    };
    let (signature, p) = match read_bytes(buf, p) {
        None => return None,
        Some(x) => x,
    };
    let (block, p) = match read_u64(buf, p) {
        None => return None,
        Some(x) => x,
    };
    let (height, p) = match read_u64(buf, p) {
        None => return None,
        Some(x) => x,
    };
    Some(((validator, signature, block, height), p))
}

fn read_vote_tail(buf: &[u8], pos: usize) -> (r: Option<((Round, VoteType, Address, Option<ValueId>), usize)>)
    requires
        pos <= buf@.len(),
    ensures
        match parse_vote_tail(buf@.skip(pos as int)) {
            None => r is None,
            Some((m, rest)) => r matches Some((v, p)) && (v.0, v.1, v.2.0@, match v.3 {
                None => None,
                Some(id) => Some(id.0),
            }) == m && p <= buf@.len() && rest == buf@.skip(p as int),
        },
{
    reveal(parse_vote_tail);
    let (t, p) = match read_tag(buf, pos) {
        None => return None,
        Some(x) => x,
    };
    let (round, p) = if t == 0 {
        (Round::Nil, p)
    } else if t == 1 {
        let (n, p) = match read_u64(buf, p) {
            None => return None,
            Some(x) => x,
        };
        if n > u32::MAX as u64 {
            return None;
        }
        (Round::Num(n as u32), p)
    } else {
        return None;
    };
    let (t, p) = match read_tag(buf, p) {
        None => return None,
        Some(x) => x,
    };
    let typ = if t == 0 {
        VoteType::Prevote
    } else if t == 1 {
        VoteType::Precommit
    } else {
        return None;
    };
    let (address, p) = match read_address(buf, p) {
        None => return None,
        Some(x) => x,
    };
    let (t, p) = match read_tag(buf, p) {
        None => return None,
        Some(x) => x,
    };
    let (value, p) = if t == 0 {
        (None, p)
    } else if t == 1 {
        let (v, p) = match read_u64(buf, p) {
            None => return None,
            Some(x) => x,
        };
        (Some(ValueId(v)), p)
    } else {
        return None;
    };
    Some(((round, typ, address, value), p))
}

impl Vote {
    #[allow(clippy::too_many_arguments)]
    pub fn new(
        validator: Address,
        signature: Vec<u8>,
        block: u64,
        height: Height,
        round: Round,
        typ: VoteType,
        validator_address: Address,
        value: Option<ValueId>,
    ) -> (r: Vote)
        ensures
            r == (Vote { validator, signature, block, height, round, typ, validator_address, value }),
    {
        Vote { validator, signature, block, height, round, typ, validator_address, value }
    }

    /// A prevote by `address`, with no signature yet.
    pub fn new_prevote(height: Height, round: Round, value: Option<ValueId>, address: Address) -> (r: Vote)
        ensures
            r.typ == VoteType::Prevote,
            r.height == height,
            r.round == round,
            r.value == value,
            r.validator == address,
            r.validator_address == address,
            r.signature@.len() == 0,
            r.block == height.0,
    {
        Vote {
            validator: address,
            signature: Vec::new(),
            block: height.0,
            height,
            round,
            typ: VoteType::Prevote,
            validator_address: address,
            value,
        }
    }

    /// A precommit by `address`, with no signature yet.
    pub fn new_precommit(height: Height, round: Round, value: Option<ValueId>, address: Address) -> (r: Vote)
        ensures
            r.typ == VoteType::Precommit,
            r.height == height,
            r.round == round,
            r.value == value,
            r.validator == address,
            r.validator_address == address,
            r.signature@.len() == 0,
            r.block == height.0,
    {
        Vote {
            validator: address,
            signature: Vec::new(),
            block: height.0,
            height,
            round,
            typ: VoteType::Precommit,
            validator_address: address,
            value,
        }
    }

    /// The canonical bytes of the vote.
    pub fn to_bytes(&self) -> (r: Vec<u8>)
        ensures
            r@ == enc_vote(vote_model(*self)),
    {
        let mut out: Vec<u8> = Vec::new();
        put_raw(&mut out, &self.validator.0);
        put_bytes(&mut out, self.signature.as_slice());
        put_u64(&mut out, self.block);
        put_u64(&mut out, self.height.0);
        match self.round {
            Round::Nil => out.push(0u8),
            Round::Num(n) => {
                out.push(1u8);
                put_u64(&mut out, n as u64);
            },
        }
        match self.typ {
            VoteType::Prevote => out.push(0u8),
            VoteType::Precommit => out.push(1u8),
        }
        put_raw(&mut out, &self.validator_address.0);
        match self.value {
            None => out.push(0u8),
            Some(id) => {
                out.push(1u8);
                put_u64(&mut out, id.0);
            },
        }
        assert(out@ =~= enc_vote(vote_model(*self)));
        out
    }

    /// The vote that `bytes` hold, if they are the canonical bytes of one.
    pub fn from_bytes(bytes: &[u8]) -> (r: Option<Vote>)
        ensures
            r is None <==> parse_vote(bytes@) is None,
            r matches Some(v) ==> parse_vote(bytes@) == Some(vote_model(v)),
    {
        assert(bytes@.skip(0) =~= bytes@);
        let ((validator, signature, block, height), p) = match read_vote_head(bytes, 0) {
            None => return None,
            Some(x) => x,
        };
        let ((round, typ, validator_address, value), p) = match read_vote_tail(bytes, p) {
            None => return None,
            Some(x) => x,
        };
        if p != bytes.len() {
            return None;
        }
        Some(Vote { validator, signature, block, height: Height(height), round, typ, validator_address, value })
    }
}

/// The votes that finalized a block.
#[derive(Debug)]
pub struct FinalityParams {
    pub height: u64,
    /// The validators' votes on the block.
    pub votes: Vec<Vote>,
}

/// The SHA-256 hashes of the votes' signatures.
pub open spec fn signature_leaves(votes: Seq<Vote>) -> Seq<Seq<u8>> {
    votes.map_values(|v: Vote| sha256_of(v.signature@))
}

impl FinalityParams {
    pub fn new(height: u64, votes: Vec<Vote>) -> (r: FinalityParams)
        ensures
            r.height == height,
            r.votes == votes,
    {
        FinalityParams { height, votes }
    }

    /// The Merkle root over the SHA-256 hashes of the votes' signatures.
    pub fn tree_root(&self) -> (r: Result<[u8; 32], BlockError>)
        ensures
            r matches Ok(root) ==> root@ == merkle_root_of(signature_leaves(self.votes@)),
            r is Err <==> self.votes@.len() == 0,
            r matches Err(e) ==> e == BlockError::MerkleTreeError,
    {
        let mut leaves: Vec<[u8; 32]> = Vec::new();
        let mut i: usize = 0;
        while i < self.votes.len()
            invariant
                i <= self.votes@.len(),
                leaves@.map_values(|l: [u8; 32]| l@) == signature_leaves(self.votes@.take(i as int)),
            decreases self.votes@.len() - i,
        {
            let ghost before = leaves@;
            leaves.push(sha256(self.votes[i].signature.as_slice()));
            proof {
                assert(leaves@.map_values(|l: [u8; 32]| l@) =~= before.map_values(|l: [u8; 32]| l@).push(leaves@[i as int]@));
                assert(signature_leaves(self.votes@.take(i + 1)) =~= signature_leaves(self.votes@.take(i as int)).push(sha256_of(self.votes@[i as int].signature@)));
            }
            i = i + 1;
        }
        assert(self.votes@.take(i as int) =~= self.votes@);
        if leaves.len() == 0 {
            return Err(BlockError::MerkleTreeError);
        }
        match merkle_root(leaves.as_slice()) {
            Some(root) => Ok(root),
            None => Err(BlockError::MerkleTreeError),
        }
    }

    /// Refuses height zero.
    pub fn basic_validation(&self) -> (r: Result<(), BlockError>)
        ensures
            r is Err <==> self.height == 0,
            r matches Err(e) ==> e == BlockError::InvalidBlockNumber(self.height),
    {
        if self.height == 0 {
            return Err(BlockError::InvalidBlockNumber(self.height));
        }
        Ok(())
    }
}

} // verus!
