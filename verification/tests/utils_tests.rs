use elgamal_ristretto::ciphertext::Ciphertext;

use sinkhole::errors::{QueryError, StorageError};
use sinkhole::utils::{calculate_vector_boundaries, num_parallel_tasks, zero_ciphertext_from_pk};

fn new_ciphertext() -> Ciphertext {
    let (_, pk) = sinkhole::elgamal::generate_key_pair();
    zero_ciphertext_from_pk(pk)
}

#[test]
fn test_parallel_tasks_set() {
    assert_eq!(num_parallel_tasks(Some(b"3".to_vec())), 3);
}

#[test]
fn test_parallel_tasks_not_set() {
    assert!(num_parallel_tasks(None) > 0);
}

#[test]
fn parallel_tasks_fall_back_on_bad_values() {
    // zero, text and emptiness all fall back to the positive CPU count
    assert!(num_parallel_tasks(Some(b"0".to_vec())) >= 1);
    assert!(num_parallel_tasks(Some(b"three".to_vec())) >= 1);
    assert!(num_parallel_tasks(Some(Vec::new())) >= 1);
    assert!(num_parallel_tasks(Some(b"12x".to_vec())) >= 1);
}

#[test]
fn parallel_tasks_reads_large_values() {
    assert_eq!(num_parallel_tasks(Some(b"64".to_vec())), 64);
    assert_eq!(num_parallel_tasks(Some(b"1".to_vec())), 1);
}

#[test]
fn test_boundaries() {
    let v = vec![
        new_ciphertext(),
        new_ciphertext(),
        new_ciphertext(),
        new_ciphertext(),
        new_ciphertext(),
        new_ciphertext(),
        new_ciphertext(),
        new_ciphertext(),
        new_ciphertext(),
        new_ciphertext(),
    ];

    assert_eq!(calculate_vector_boundaries(&v, 2), vec![0, 5]);
    assert_eq!(calculate_vector_boundaries(&v, 3), vec![0, 3, 6, 9]);
    assert_eq!(calculate_vector_boundaries(&v, 5), vec![0, 2, 4, 6, 8]);
}

#[test]
fn storage_error_messages() {
    assert_eq!(
        StorageError::index_out_of_range().error,
        "Index should not be larger than the size of the storage"
    );
    assert_eq!(
        StorageError::size_mismatch().error,
        "Query vector should have the same size as the storage"
    );
    assert_eq!(
        QueryError::index_out_of_range().error,
        "Index of query should not be larger than the size of the query"
    );
    assert_eq!(
        QueryError::out_of_range().error,
        "Scalar is not within the searched range"
    );
}

#[test]
fn error_cause_text() {
    assert_eq!(
        StorageError::size_mismatch().cause(),
        "Cause: Query vector should have the same size as the storage"
    );
    assert_eq!(
        QueryError::out_of_range().cause(),
        "Cause: Scalar is not within the searched range"
    );
}
