//! Proposals, their streamed parts, certificates and the validator set.
use vstd::prelude::*;

use crate::height::{Height, Round};
use crate::keys::{Address, Signature, VerificationKey};
use crate::value::{Value, ValueId};

verus! {

/// Whether a proposed value was found valid.
#[derive(Clone, Copy, Debug, PartialEq, Eq, Structural)]
pub enum Validity {
    Valid,
    Invalid,
}

/// The first part of a streamed proposal: where it belongs and who made it.
#[derive(Clone, Copy, Debug)]
pub struct ProposalInit {
    pub height: Height,
    pub round: Round,
    pub proposer: Address,
}

impl ProposalInit {
    pub fn new(height: Height, round: Round, proposer: Address) -> (r: ProposalInit)
        ensures
            r == (ProposalInit { height, round, proposer }),
    {
        ProposalInit { height, round, proposer }
    }
}

/// A chunk of the proposed value's bytes.
#[derive(Clone, Debug)]
pub struct ProposalData {
    pub bytes: Vec<u8>,
}

impl ProposalData {
    pub fn new(bytes: Vec<u8>) -> (r: ProposalData)
        ensures
            r.bytes == bytes,
    {
        ProposalData { bytes }
    }
}

/// The last part of a streamed proposal: the proposer's signature.
#[derive(Clone, Copy, Debug)]
pub struct ProposalFin {
    pub signature: Signature,
}

impl ProposalFin {
    pub fn new(signature: Signature) -> (r: ProposalFin)
        ensures
            r.signature == signature,
    {
        ProposalFin { signature }
    }
}

/// One part of a streamed proposal.
#[derive(Clone, Debug)]
pub enum ProposalPart {
    Init(ProposalInit),
    Data(ProposalData),
    Fin(ProposalFin),
}

impl ProposalPart {
    pub fn as_init(&self) -> (r: Option<&ProposalInit>)
        ensures
            r matches Some(i) ==> *self == ProposalPart::Init(*i),
            r is None <==> !(*self is Init),
    {
        match self {
            ProposalPart::Init(init) => Some(init),
            _ => None,
        }
    }

    pub fn as_data(&self) -> (r: Option<&ProposalData>)
        ensures
            r matches Some(d) ==> (*self matches ProposalPart::Data(e) && e == *d),
            r is None <==> !(*self is Data),
    {
        match self {
            ProposalPart::Data(data) => Some(data),
            _ => None,
        }
    }

    /// The name of the part's kind.
    pub fn get_type(&self) -> (r: &'static str)
        ensures
            r@ == (match *self {
                ProposalPart::Init(_) => "init"@,
                ProposalPart::Data(_) => "data"@,
                ProposalPart::Fin(_) => "fin"@,
            }),
    {
        match self {
            ProposalPart::Init(_) => "init",
            ProposalPart::Data(_) => "data",
            ProposalPart::Fin(_) => "fin",
        }
    }

    pub fn is_first(&self) -> (r: bool)
        ensures
            r == (*self is Init),
    {
        match self {
            ProposalPart::Init(_) => true,
            _ => false,
        }
    }

    pub fn is_last(&self) -> (r: bool)
        ensures
            r == (*self is Fin),
    {
        match self {
            ProposalPart::Fin(_) => true,
            _ => false,
        }
    }
}

/// What a stream message carries: a part, or the end of the stream.
#[derive(Clone, Debug)]
pub enum StreamContent {
    Data(ProposalPart),
    Fin,
}

/// A message of a proposal stream.
#[derive(Clone, Debug)]
pub struct StreamMessage {
    pub stream_id: Vec<u8>,
    pub sequence: u64,
    pub content: StreamContent,
}

impl StreamMessage {
    pub fn new(stream_id: Vec<u8>, sequence: u64, content: StreamContent) -> (r: StreamMessage)
        ensures
            r.stream_id == stream_id,
            r.sequence == sequence,
            r.content == content,
    {
        StreamMessage { stream_id, sequence, content }
    }
}

/// The parts of a completed stream, in sequence order.
#[derive(Debug)]
pub struct ProposalParts {
    pub height: Height,
    pub round: Round,
    pub proposer: Address,
    pub parts: Vec<ProposalPart>,
}

/// A value proposed at a height and round.
#[derive(Debug)]
pub struct ProposedValue {
    pub height: Height,
    pub round: Round,
    pub valid_round: Round,
    pub proposer: Address,
    pub value: Value,
    pub validity: Validity,
}

/// Two proposed values with the same fields and the same value bytes.
pub open spec fn same_proposed(a: ProposedValue, b: ProposedValue) -> bool {
    &&& a.height == b.height
    &&& a.round == b.round
    &&& a.valid_round == b.valid_round
    &&& a.proposer.0@ == b.proposer.0@
    &&& a.value.view() == b.value.view()
    &&& a.validity == b.validity
}

impl ProposedValue {
    pub fn duplicate(&self) -> (r: ProposedValue)
        ensures
            same_proposed(r, *self),
    {
        ProposedValue {
            height: self.height,
            round: self.round,
            valid_round: self.valid_round,
            proposer: self.proposer,
            value: self.value.duplicate(),
            validity: self.validity,
        }
    }
}

/// A proposal for a value in a round.
#[derive(Debug)]
pub struct Proposal {
    pub height: Height,
    pub round: Round,
    pub value: Value,
    pub pol_round: Round,
    pub validator_address: Address,
}

impl Proposal {
    pub fn new(height: Height, round: Round, value: Value, pol_round: Round, validator_address: Address) -> (r: Proposal)
        ensures
            r == (Proposal { height, round, value, pol_round, validator_address }),
    {
        Proposal { height, round, value, pol_round, validator_address }
    }
}

/// A value that this node proposes.
#[derive(Debug)]
pub struct LocallyProposedValue {
    pub height: Height,
    pub round: Round,
    pub value: Value,
}

/// A certificate that consensus decided a value: height, round, the value's
/// identifier and the aggregated commit signatures, carried as bytes.
#[derive(Debug)]
pub struct CommitCertificate {
    pub height: Height,
    pub round: Round,
    pub value_id: ValueId,
    pub aggregated_signature: Vec<u8>,
}

pub open spec fn same_certificate(a: CommitCertificate, b: CommitCertificate) -> bool {
    &&& a.height == b.height
    &&& a.round == b.round
    &&& a.value_id == b.value_id
    &&& a.aggregated_signature@ == b.aggregated_signature@
}

impl CommitCertificate {
    pub fn duplicate(&self) -> (r: CommitCertificate)
        ensures
            same_certificate(r, *self),
    {
        let sig = self.aggregated_signature.clone();
        assert(sig@ =~= self.aggregated_signature@);
        CommitCertificate {
            height: self.height,
            round: self.round,
            value_id: self.value_id,
            aggregated_signature: sig,
        }
    }
}

/// A decided value with its certificate.
#[derive(Debug)]
pub struct DecidedValue {
    pub value: Value,
    pub certificate: CommitCertificate,
}

/// A validator: its address, key and voting power.
#[derive(Clone, Copy, Debug)]
pub struct Validator {
    pub address: Address,
    pub public_key: VerificationKey,
    pub voting_power: u64,
}

/// The first validator in `vals` with address `addr`.
pub open spec fn first_with_address(vals: Seq<Validator>, addr: Seq<u8>) -> Option<Validator>
    decreases vals.len(),
{
    if vals.len() == 0 {
        None
    } else if vals[0].address.0@ == addr {
        Some(vals[0])
    } else {
        first_with_address(vals.skip(1), addr)
    }
}

/// The validators, in a fixed order.
#[derive(Clone, Debug)]
pub struct ValidatorSet {
    pub validators: Vec<Validator>,
}

/// What the chain starts from: its validators.
#[derive(Clone, Debug)]
pub struct Genesis {
    pub validator_set: ValidatorSet,
}

impl ValidatorSet {
    pub fn count(&self) -> (r: usize)
        ensures
            r == self.validators@.len(),
    {
        self.validators.len()
    }

    /// The first validator with the given address.
    pub fn get_by_address(&self, address: &Address) -> (r: Option<Validator>)
        ensures
            r == first_with_address(self.validators@, address.0@),
    {
        let mut i: usize = 0;
        assert(self.validators@.skip(0) =~= self.validators@);
        while i < self.validators.len()
            invariant
                i <= self.validators@.len(),
                first_with_address(self.validators@, address.0@) == first_with_address(
                    self.validators@.skip(i as int),
                    address.0@,
                ),
            decreases self.validators@.len() - i,
        {
            let ghost rest = self.validators@.skip(i as int);
            assert(rest[0] == self.validators@[i as int]);
            if self.validators[i].address == *address {
                return Some(self.validators[i]);
            }
            assert(rest.skip(1) =~= self.validators@.skip(i + 1));
            i = i + 1;
        }
        None
    }

    pub fn get_by_index(&self, index: usize) -> (r: Option<Validator>)
        ensures
            index < self.validators@.len() ==> r == Some(self.validators@[index as int]),
            index >= self.validators@.len() ==> r is None,
    {
        if index < self.validators.len() {
            Some(self.validators[index])
        } else {
            None
        }
    }
}

} // verus!
