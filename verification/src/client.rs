//! The query builder (the client side): builds the encrypted one-hot
//! selector vector and decodes the server's answer back to a scalar.
//!
//! A query for index `i` of a database of size `N` is a vector of `N`
//! ElGamal ciphertexts under the client's key: position `i` encrypts the
//! generator `G` (selector `1`) and every other position encrypts the
//! identity (selector `0`), each with its own fresh randomness.  The answer
//! ciphertext decrypts to `db[i] * G`, and the scalar `db[i]` is recovered
//! by a bounded brute-force discrete-log search.

use vstd::arithmetic::power2::pow2;
use vstd::prelude::*;

use curve25519_dalek::ristretto::RistrettoPoint;
use curve25519_dalek::scalar::Scalar;
use elgamal_ristretto::ciphertext::Ciphertext;
use elgamal_ristretto::private::SecretKey;
use elgamal_ristretto::public::PublicKey;

use crate::elgamal::{
    basepoint, basepoint_mul, ct_public, decrypt, decrypts_to, encrypt, encrypts, group_order,
    lemma_lmod_range, point_add, point_dlog, point_eq, point_identity, public_dlog, public_key_of,
    scalar_add, scalar_from_u64, scalar_one, scalar_val, scalar_zero, secret_val, selector,
};
use crate::errors::{query_index_out_of_range_msg, query_out_of_range_msg, QueryError};
use crate::storage::uniform_key;

verus! {

/// Builds the encrypted selector vector for position `query_index` of a
/// query of length `size_query` under the public key `pk`: position
/// `query_index` encrypts `1 * G`, every other position encrypts `0 * G`,
/// each with fresh independent randomness.  Succeeds exactly when the index
/// lies inside the query.
pub fn generate_query(pk: PublicKey, size_query: usize, query_index: usize) -> (r: Result<
    Vec<Ciphertext>,
    String,
>)
    ensures
        r is Ok <==> query_index < size_query,
        r matches Ok(q) ==> {
            &&& q@.len() == size_query
            &&& forall|j: int|
                0 <= j < size_query ==> encrypts(
                    #[trigger] q@[j],
                    public_dlog(pk),
                    selector(j, query_index as int),
                )
            &&& uniform_key(q@)
        },
        r matches Err(e) ==> e@ == query_index_out_of_range_msg(),
{
    if query_index >= size_query {
        return Err("Index of query should not be larger than the size of the query".to_string());
    }
    let mut query: Vec<Ciphertext> = Vec::new();
    let mut j: usize = 0;
    while j < size_query
        invariant
            j <= size_query,
            query@.len() == j,
            query_index < size_query,
            forall|jj: int|
                0 <= jj < j ==> encrypts(
                    #[trigger] query@[jj],
                    public_dlog(pk),
                    selector(jj, query_index as int),
                ),
        decreases size_query - j,
    {
        let m = if j == query_index {
            scalar_one()
        } else {
            scalar_zero()
        };
        let point = basepoint_mul(&m);
        let c = encrypt(&pk, &point);
        query.push(c);
        j = j + 1;
    }
    proof {
        assert forall|j: int|
            0 <= j < query@.len() implies #[trigger] ct_public(query@[j]) == ct_public(
            query@[0],
        ) by {
            assert(encrypts(query@[j], public_dlog(pk), selector(j, query_index as int)));
            assert(encrypts(query@[0], public_dlog(pk), selector(0, query_index as int)));
        }
    }
    Ok(query)
}

/// Recovers the unique `m` in `[0, 2^k)` with `m * G == point`: an
/// incremental brute-force search from `m == 0`, accumulating `m * G` one
/// group addition at a time and comparing against `point`, halting on the
/// first match.  Fails exactly when the discrete logarithm of `point` lies
/// outside the range.  The search counter is a machine word, so `k` stays
/// below `64`.
pub fn recover_scalar(point: RistrettoPoint, k: u32) -> (r: Result<Scalar, QueryError>)
    requires
        k < 64,
    ensures
        r is Ok <==> point_dlog(point) < pow2(k as nat),
        r matches Ok(s) ==> scalar_val(s) == point_dlog(point),
        r matches Err(e) ==> e.error@ == query_out_of_range_msg(),
{
    proof {
        vstd::bits::lemma_u64_pow2_no_overflow(k as nat);
        vstd::bits::lemma_u64_shl_is_mul(1u64, k as u64);
    }
    let bound: u64 = 1u64 << (k as u64);
    let generator = basepoint();
    let mut candidate = point_identity();
    let mut accumulator = scalar_zero();
    let mut m: u64 = 0;
    while m < bound
        invariant
            bound == pow2(k as nat),
            m <= bound,
            point_dlog(generator) == 1,
            scalar_val(accumulator) == m,
            point_dlog(candidate) == m,
            point_dlog(point) >= m,
        decreases bound - m,
    {
        if point_eq(&candidate, &point) {
            return Ok(accumulator);
        }
        let one = scalar_one();
        proof {
            assert(u64::MAX < group_order());
            lemma_lmod_range(m + 1);
        }
        candidate = point_add(&candidate, &generator);
        accumulator = scalar_add(&accumulator, &one);
        m = m + 1;
    }
    Err(QueryError::out_of_range())
}

/// Recovers the unique `m` in `[0, 2^k)` with `m * G == point`, keeping a
/// plain counter and embedding it as a scalar only at the match.  The same
/// contract as [`recover_scalar`]: two implementations of one search.
pub fn recover_scalar_mul(point: RistrettoPoint, k: u32) -> (r: Result<Scalar, QueryError>)
    requires
        k < 64,
    ensures
        r is Ok <==> point_dlog(point) < pow2(k as nat),
        r matches Ok(s) ==> scalar_val(s) == point_dlog(point),
        r matches Err(e) ==> e.error@ == query_out_of_range_msg(),
{
    proof {
        vstd::bits::lemma_u64_pow2_no_overflow(k as nat);
        vstd::bits::lemma_u64_shl_is_mul(1u64, k as u64);
    }
    let bound: u64 = 1u64 << (k as u64);
    let generator = basepoint();
    let mut candidate = point_identity();
    let mut i: u64 = 0;
    while i < bound
        invariant
            bound == pow2(k as nat),
            i <= bound,
            point_dlog(generator) == 1,
            point_dlog(candidate) == i,
            point_dlog(point) >= i,
        decreases bound - i,
    {
        if point_eq(&candidate, &point) {
            return Ok(scalar_from_u64(i));
        }
        proof {
            assert(u64::MAX < group_order());
            lemma_lmod_range(i + 1);
        }
        candidate = point_add(&candidate, &generator);
        i = i + 1;
    }
    Err(QueryError::out_of_range())
}

/// A client query: the encrypted one-hot selector vector together with the
/// client's secret key for decoding the answer, and the fixed length.  The
/// queried position survives only as a ghost value: nothing in the compiled
/// query records it.
pub struct Query {
    pub encrypted: Vec<Ciphertext>,
    pub private_key: SecretKey,
    pub size: usize,
    pub index: Ghost<usize>,
}

impl Query {
    /// The query is a well-formed one-hot encryption: `size` ciphertexts
    /// under the key pair of `private_key`, encrypting selector `1` at the
    /// ghost position and selector `0` everywhere else.
    pub open spec fn wf(self) -> bool {
        &&& self.encrypted@.len() == self.size
        &&& self.index@ < self.size
        &&& forall|j: int|
            0 <= j < self.size ==> encrypts(
                #[trigger] self.encrypted@[j],
                secret_val(self.private_key),
                selector(j, self.index@ as int),
            )
    }

    /// Builds the query for position `index` of a database of size `size`:
    /// derives the public key from `sk` and encrypts the selector vector.
    /// Succeeds exactly when the index lies inside the query.
    pub fn new(sk: SecretKey, size: usize, index: usize) -> (r: Result<Query, QueryError>)
        ensures
            r is Ok <==> index < size,
            r matches Ok(q) ==> {
                &&& q.wf()
                &&& q.size == size
                &&& q.index@ == index
                &&& q.private_key == sk
                &&& q.encrypted@.len() == size
                &&& uniform_key(q.encrypted@)
            },
            r matches Err(e) ==> e.error@ == query_index_out_of_range_msg(),
    {
        let pk = public_key_of(&sk);
        match generate_query(pk, size, index) {
            Ok(encrypted) => Ok(Query { encrypted, private_key: sk, size, index: Ghost(index) }),
            Err(_) => Err(QueryError::index_out_of_range()),
        }
    }

    /// Decrypts the answer ciphertext with the client's secret key and
    /// recovers the plaintext scalar by the bounded discrete-log search
    /// over `[0, 2^k)`, with `k` below `64`.  Succeeds exactly when the
    /// decrypted value lies in the range; a mis-sized `k` yields the range
    /// error, never a wrong scalar.
    pub fn extract_result(&self, result: Ciphertext, k: u32) -> (r: Result<Scalar, QueryError>)
        requires
            k < 64,
        ensures
            r is Ok <==> decrypts_to(secret_val(self.private_key), result) < pow2(k as nat),
            r matches Ok(s) ==> scalar_val(s) == decrypts_to(secret_val(self.private_key), result),
            r matches Err(e) ==> e.error@ == query_out_of_range_msg(),
    {
        let point_result = decrypt(&self.private_key, &result);
        recover_scalar(point_result, k)
    }
}

} // verus!
