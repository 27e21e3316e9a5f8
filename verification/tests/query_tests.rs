use curve25519_dalek::constants::RISTRETTO_BASEPOINT_TABLE;
use curve25519_dalek::ristretto::RistrettoPoint;
use curve25519_dalek::scalar::Scalar;
use curve25519_dalek::traits::Identity;
use elgamal_ristretto::private::SecretKey;
use elgamal_ristretto::public::PublicKey;
use rand_core::OsRng;

use sinkhole::client::{generate_query, recover_scalar, recover_scalar_mul, Query};
use sinkhole::storage::Storage;

fn generate_key_pair() -> (PublicKey, SecretKey) {
    let sk = SecretKey::new(&mut OsRng);
    let pk = PublicKey::from(&sk);
    (pk, sk)
}

#[test]
fn test_query() {
    // A) storage setup
    let (_, sk) = generate_key_pair();

    let content_idx_0 = Scalar::from(3224u64);
    let content_idx_1 = Scalar::from(1048575u64);
    let storage = vec![content_idx_0, content_idx_1];

    let server = Storage::new(sk, storage.clone());

    // B) client-side
    let (client_pk, client_sk) = generate_key_pair();

    let query_idx = 1;
    let query = generate_query(client_pk, 2, query_idx).unwrap();

    // C) run query on server-side
    let enc_result = server.retrieve(query).unwrap();

    // D) decrypt result client-side
    let result = client_sk.decrypt(&enc_result);

    // E) retrieve Scalar from RistrettoPoint
    let result_content = recover_scalar_mul(result, 20).unwrap();

    assert!(result_content == storage[query_idx]);
}

#[test]
fn generate_query_is_one_hot() {
    let (pk, sk) = generate_key_pair();
    let index = 2;
    let size = 5;
    let query = generate_query(pk, size, index).unwrap();

    assert_eq!(query.len(), size);
    let generator = &Scalar::one() * &RISTRETTO_BASEPOINT_TABLE;
    for (j, ciphertext) in query.iter().enumerate() {
        let plaintext = sk.decrypt(ciphertext);
        if j == index {
            assert_eq!(plaintext, generator);
        } else {
            assert_eq!(plaintext, RistrettoPoint::identity());
        }
    }
}

#[test]
fn generate_query_index_out_of_range() {
    let (pk, _) = generate_key_pair();
    let err = generate_query(pk, 4, 4).unwrap_err();
    assert_eq!(
        err,
        "Index of query should not be larger than the size of the query"
    );
}

#[test]
fn build_index_out_of_range() {
    let (_, sk) = generate_key_pair();
    let err = match Query::new(sk, 8, 8) {
        Err(e) => e,
        Ok(_) => panic!("expected an index error"),
    };
    assert_eq!(
        err.error,
        "Index of query should not be larger than the size of the query"
    );
}

#[test]
fn build_for_empty_query_fails() {
    let (_, sk) = generate_key_pair();
    assert!(Query::new(sk, 0, 0).is_err());
}

#[test]
fn single_element_round_trip() {
    let (_, storage_sk) = generate_key_pair();
    let server = Storage::new(storage_sk, vec![Scalar::from(77u64)]);

    let (_, client_sk) = generate_key_pair();
    let query = Query::new(client_sk, 1, 0).unwrap();

    let enc_result = server.retrieve(query.encrypted.clone()).unwrap();
    let result = query.extract_result(enc_result, 10).unwrap();
    assert_eq!(result, Scalar::from(77u64));
}

#[test]
fn endpoint_round_trips() {
    let (_, storage_sk) = generate_key_pair();
    let content = vec![
        Scalar::from(11u64),
        Scalar::from(22u64),
        Scalar::from(33u64),
        Scalar::from(44u64),
    ];
    let server = Storage::new(storage_sk, content);

    let (_, first_sk) = generate_key_pair();
    let first = Query::new(first_sk, 4, 0).unwrap();
    let enc_first = server.retrieve(first.encrypted.clone()).unwrap();
    assert_eq!(first.extract_result(enc_first, 8).unwrap(), Scalar::from(11u64));

    let (_, last_sk) = generate_key_pair();
    let last = Query::new(last_sk, 4, 3).unwrap();
    let enc_last = server.retrieve(last.encrypted.clone()).unwrap();
    assert_eq!(last.extract_result(enc_last, 8).unwrap(), Scalar::from(44u64));
}

#[test]
fn decode_overflow() {
    // the record is 2^16, the search covers [0, 2^8): the decode must fail
    // with the range error, never return a wrong scalar
    let (_, storage_sk) = generate_key_pair();
    let server = Storage::new(storage_sk, vec![Scalar::from(65536u64)]);

    let (_, client_sk) = generate_key_pair();
    let query = Query::new(client_sk, 1, 0).unwrap();

    let enc_result = server.retrieve(query.encrypted.clone()).unwrap();
    let err = query.extract_result(enc_result, 8).unwrap_err();
    assert_eq!(err.error, "Scalar is not within the searched range");
}

#[test]
fn recover_scalar_finds_small_value() {
    let point = &Scalar::from(5u64) * &RISTRETTO_BASEPOINT_TABLE;
    assert_eq!(recover_scalar(point, 4).unwrap(), Scalar::from(5u64));
    assert_eq!(recover_scalar_mul(point, 4).unwrap(), Scalar::from(5u64));
}

#[test]
fn recover_scalar_rejects_out_of_range() {
    let point = &Scalar::from(16u64) * &RISTRETTO_BASEPOINT_TABLE;
    assert!(recover_scalar(point, 4).is_err());
    assert!(recover_scalar_mul(point, 4).is_err());
}

#[test]
fn recover_scalar_finds_zero() {
    let point = RistrettoPoint::identity();
    assert_eq!(recover_scalar(point, 4).unwrap(), Scalar::zero());
}

#[test]
fn server_key_independence() {
    // the server's own key plays no role: a server keyed with any secret
    // still produces the right plaintext for the client
    let (_, storage_sk) = generate_key_pair();
    let (_, unrelated_sk) = generate_key_pair();
    let content = vec![Scalar::from(5u64), Scalar::from(6u64), Scalar::from(7u64)];

    let keyed = Storage::new(storage_sk, content.clone());
    let unrelated = Storage::new(unrelated_sk, content);

    let (_, client_sk) = generate_key_pair();
    let query = Query::new(client_sk, 3, 2).unwrap();

    let from_keyed = keyed.retrieve(query.encrypted.clone()).unwrap();
    let from_unrelated = unrelated.retrieve(query.encrypted.clone()).unwrap();

    assert_eq!(query.extract_result(from_keyed, 8).unwrap(), Scalar::from(7u64));
    assert_eq!(query.extract_result(from_unrelated, 8).unwrap(), Scalar::from(7u64));
}
