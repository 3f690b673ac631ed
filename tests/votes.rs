use rs_merkle::Hasher;
use mikan::height::{Height, Round};
use mikan::keys::{Address, PrivateKey};
use mikan::proposal::{ProposalData, ProposalPart};
use mikan::value::ValueId;
use mikan::vote::{FinalityParams, Vote, VoteType};

fn sha256(b: &[u8]) -> [u8; 32] {
    rs_merkle::algorithms::Sha256::hash(b)
}

fn create_test_vote() -> Vote {
    Vote::new(
        Address::new([1u8; 20]),
        vec![2u8; 64],
        1,
        Height::new(100),
        Round::new(2),
        VoteType::Prevote,
        Address::new([3u8; 20]),
        None,
    )
}

fn create_test_prevote() -> Vote {
    Vote::new_prevote(Height::new(100), Round::new(2), Some(ValueId::new(3)), Address::new([3u8; 20]))
}

fn mock_make_validator(seed: u8) -> Address {
    Address::from_public_key(&PrivateKey::from_seed([seed; 32]).public_key())
}

#[test]
fn test_vote_bincode_roundtrip() {
    let vote = create_test_vote();
    let encoded = vote.to_bytes();
    let decoded = Vote::from_bytes(&encoded).unwrap();
    assert_eq!(vote, decoded);
}

#[test]
fn test_vote_bincode_with_value() {
    let mut vote = create_test_vote();
    vote.value = Some(ValueId::new(4));

    let encoded = vote.to_bytes();
    println!("Encoded bytes with value: {:?}", encoded);
    let decoded = Vote::from_bytes(&encoded).unwrap();

    assert_eq!(vote, decoded);
    assert_eq!(vote.value, decoded.value);
}

#[test]
fn vote_test_vote_bincode_roundtrip() {
    let vote = create_test_prevote();
    let encoded = vote.to_bytes();
    let decoded = Vote::from_bytes(&encoded).unwrap();
    assert_eq!(vote, decoded);
}

#[test]
fn vote_test_vote_bincode_with_value() {
    let mut vote = create_test_prevote();
    vote.value = Some(ValueId::new(4));

    let encoded = vote.to_bytes();
    println!("Encoded bytes with value: {:?}", encoded);
    let decoded = Vote::from_bytes(&encoded).unwrap();

    assert_eq!(vote, decoded);
    assert_eq!(vote.value, decoded.value);
}

#[test]
fn vote_bytes_reject_garbage() {
    let vote = Vote::new_precommit(Height::new(7), Round::Nil, None, Address::new([9; 20]));
    let encoded = vote.to_bytes();
    assert_eq!(Vote::from_bytes(&encoded).unwrap(), vote);
    assert!(Vote::from_bytes(&encoded[..encoded.len() - 1]).is_none());
    let mut bad_tag = encoded.clone();
    let type_at = 20 + 8 + 0 + 8 + 8 + 1;
    bad_tag[type_at] = 7;
    assert!(Vote::from_bytes(&bad_tag).is_none());
    assert!(Vote::from_bytes(&[]).is_none());
}

#[test]
fn signature_merkle_tree_verification() {
    let vote_1 = Vote::new(mock_make_validator(1), Vec::from("1234"), 2, Height::new(2), Round::new(0), VoteType::Precommit, mock_make_validator(1), None);
    let vote_2 = Vote::new(mock_make_validator(2), Vec::from("5678"), 2, Height::new(2), Round::new(0), VoteType::Precommit, mock_make_validator(2), None);
    let vote_3 = Vote::new(mock_make_validator(3), Vec::from("9012"), 2, Height::new(2), Round::new(0), VoteType::Precommit, mock_make_validator(3), None);
    let vote_4 = Vote::new(mock_make_validator(4), Vec::from("3456"), 2, Height::new(2), Round::new(0), VoteType::Precommit, mock_make_validator(4), None);

    let finality_param = FinalityParams::new(2, [vote_1, vote_2.clone(), vote_3, vote_4].to_vec());
    let leaves: Vec<[u8; 32]> = finality_param.votes.iter().map(|v| sha256(&v.signature)).collect();
    let tree = rs_merkle::MerkleTree::<rs_merkle::algorithms::Sha256>::from_leaves(&leaves);

    let index = vec![1];
    let leaf_value_to_prove = vec![sha256(&vote_2.signature)];

    let merkle_proof = tree.proof(&index);
    let merkle_root = finality_param.tree_root().unwrap();

    assert!(merkle_proof.verify(merkle_root, &index, &leaf_value_to_prove, 4));
    assert!(finality_param.basic_validation().is_ok());
    assert!(FinalityParams::new(0, vec![]).basic_validation().is_err());
}

#[test]
fn part_types_are_named() {
    assert_eq!(ProposalPart::Data(ProposalData::new(vec![1])).get_type(), "data");
}
