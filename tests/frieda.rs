use mikan::error::BlockError;
use mikan::frieda::DaCommitment;

#[test]
fn test_frieda() {
    let data_size = 1024 * 32;
    let data: Vec<u8> = (0..data_size).map(|i| (i % 256) as u8).collect();

    let commitment = DaCommitment::commit(&data);
    assert!(commitment.is_ok());
    assert_eq!(commitment.unwrap().len(), data_size);
}

#[test]
fn test_basic_workflow() {
    let data = b"Hello, world! This is a test of the FRI-based data availability sampling scheme.";

    let commitment = DaCommitment::commit(data).unwrap();

    let sample_result = commitment.sample();
    assert!(sample_result.is_ok());
}

#[test]
fn test_empty_data() {
    let result = DaCommitment::commit(&[]);
    assert!(matches!(result, Err(BlockError::FriedaError(_))));
}

#[test]
fn test_proof_generation() {
    let data = b"Test data for proof generation";
    let commitment = DaCommitment::commit(data).unwrap();

    let proof_result = commitment.generate_proof();
    assert!(proof_result.is_err());
}
