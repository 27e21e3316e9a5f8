//! The storage engine (the server side): holds the scalar database and
//! answers a retrieval request with the homomorphic inner product of the
//! query ciphertext vector and the database.
//!
//! The inner product is specified by [`dot_first`] and [`dot_second`], the
//! unreduced sums of the two ciphertext components weighted by the database
//! residues.  Every retrieval path — the plain fold of [`Storage::retrieve`],
//! the segmented fold of [`Storage::retrieve_partitioned`], and
//! [`Storage::retrieve_parallel`] — ensures the same reduced sums, so the
//! answer does not depend on how the index range was split.

use vstd::prelude::*;

use curve25519_dalek::scalar::Scalar;
use elgamal_ristretto::ciphertext::Ciphertext;
use elgamal_ristretto::private::SecretKey;

use crate::elgamal::{
    ciphertext_add, ciphertext_mul, ciphertext_public_key, ct_first, ct_public, ct_second,
    lemma_lmod_add, lemma_lmod_range, lmod, scalar_random, scalar_val,
};
use crate::errors::{storage_index_out_of_range_msg, storage_size_mismatch_msg, StorageError};
use crate::utils::{available_cpus, calculate_vector_boundaries, share_size, zero_ciphertext_from_pk};

verus! {

/// The unreduced inner product of the first ciphertext components with the
/// database residues over the index range `[from, to)`.
pub open spec fn dot_first(q: Seq<Ciphertext>, d: Seq<Scalar>, from: int, to: int) -> int
    decreases to - from,
{
    if from >= to {
        0
    } else {
        dot_first(q, d, from, to - 1) + ct_first(q[to - 1]) * scalar_val(d[to - 1])
    }
}

/// The unreduced inner product of the second ciphertext components with the
/// database residues over the index range `[from, to)`.
pub open spec fn dot_second(q: Seq<Ciphertext>, d: Seq<Scalar>, from: int, to: int) -> int
    decreases to - from,
{
    if from >= to {
        0
    } else {
        dot_second(q, d, from, to - 1) + ct_second(q[to - 1]) * scalar_val(d[to - 1])
    }
}

/// Splitting the index range anywhere splits the homomorphic inner product:
/// the sum over `[a, c)` is the sum of the partial sums over `[a, b)` and
/// `[b, c)`.  Any partition of the range therefore yields the same total.
pub proof fn lemma_dot_split(q: Seq<Ciphertext>, d: Seq<Scalar>, a: int, b: int, c: int)
    requires
        a <= b <= c,
    ensures
        dot_first(q, d, a, c) == dot_first(q, d, a, b) + dot_first(q, d, b, c),
        dot_second(q, d, a, c) == dot_second(q, d, a, b) + dot_second(q, d, b, c),
    decreases c - b,
{
    if c > b {
        lemma_dot_split(q, d, a, b, c - 1);
    }
}

/// All ciphertexts of a query vector carry the same public key (compared by
/// key residue; Ristretto elements are equal exactly when their residues
/// are).
pub open spec fn uniform_key(q: Seq<Ciphertext>) -> bool {
    forall|j: int| 0 <= j < q.len() ==> #[trigger] ct_public(q[j]) == ct_public(q[0])
}

/// The partial homomorphic inner product over the index segment
/// `[start, end)`: an accumulator seeded with the identity ciphertext under
/// the query's public key, folded with `query[j] * store[j]` for each `j` of
/// the segment.
pub fn retrieve_segment(query: &Vec<Ciphertext>, store: &Vec<Scalar>, start: usize, end: usize) -> (r:
    Ciphertext)
    requires
        query@.len() == store@.len(),
        query@.len() >= 1,
        uniform_key(query@),
        start <= end <= query@.len(),
    ensures
        ct_public(r) == ct_public(query@[0]),
        ct_first(r) == lmod(dot_first(query@, store@, start as int, end as int)),
        ct_second(r) == lmod(dot_second(query@, store@, start as int, end as int)),
{
    let pk = ciphertext_public_key(&query[0]);
    let mut sum = zero_ciphertext_from_pk(pk);
    proof {
        lemma_lmod_range(0);
    }
    let mut j: usize = start;
    while j < end
        invariant
            query@.len() == store@.len(),
            query@.len() >= 1,
            uniform_key(query@),
            start <= j <= end <= query@.len(),
            ct_public(sum) == ct_public(query@[0]),
            ct_first(sum) == lmod(dot_first(query@, store@, start as int, j as int)),
            ct_second(sum) == lmod(dot_second(query@, store@, start as int, j as int)),
        decreases end - j,
    {
        let term = ciphertext_mul(&query[j], &store[j]);
        proof {
            assert(ct_public(query@[j as int]) == ct_public(query@[0]));
            lemma_lmod_add(
                dot_first(query@, store@, start as int, j as int),
                (ct_first(query@[j as int]) * scalar_val(store@[j as int])) as int,
            );
            lemma_lmod_add(
                dot_second(query@, store@, start as int, j as int),
                (ct_second(query@[j as int]) * scalar_val(store@[j as int])) as int,
            );
        }
        sum = ciphertext_add(&sum, &term);
        j = j + 1;
    }
    sum
}

/// The server-side database: the server's own key, the fixed size, and the
/// scalar records.
pub struct Storage {
    pub secret_key: SecretKey,
    pub size: usize,
    pub store: Vec<Scalar>,
}

impl Storage {
    /// The database holds exactly `size` records.
    pub open spec fn wf(self) -> bool {
        self.size == self.store@.len()
    }

    /// Takes ownership of the record vector; the size is its length.
    pub fn new(sk: SecretKey, store: Vec<Scalar>) -> (r: Storage)
        ensures
            r.wf(),
            r.secret_key == sk,
            r.size == store@.len(),
            r.store@ == store@,
    {
        let size = store.len();
        Storage { secret_key: sk, size, store }
    }

    /// A database of `size` uniformly random records.
    pub fn new_empty(sk: SecretKey, size: usize) -> (r: Storage)
        ensures
            r.wf(),
            r.secret_key == sk,
            r.size == size,
            forall|j: int|
                0 <= j < size ==> scalar_val(r.store@[j]) < crate::elgamal::group_order(),
    {
        let mut store: Vec<Scalar> = Vec::new();
        let mut j: usize = 0;
        while j < size
            invariant
                j <= size,
                store@.len() == j,
                forall|k: int|
                    0 <= k < j ==> scalar_val(store@[k]) < crate::elgamal::group_order(),
            decreases size - j,
        {
            store.push(scalar_random());
            j = j + 1;
        }
        Storage { secret_key: sk, size, store }
    }

    /// Overwrites record `index` with `content`.  Succeeds exactly when the
    /// index lies inside the database; there is no collision policy beyond
    /// the overwrite.
    pub fn add(&mut self, content: Scalar, index: usize) -> (r: Result<(), StorageError>)
        requires
            old(self).wf(),
        ensures
            final(self).wf(),
            final(self).size == old(self).size,
            final(self).secret_key == old(self).secret_key,
            r is Ok <==> index < old(self).size,
            r is Ok ==> final(self).store@ == old(self).store@.update(index as int, content),
            r matches Err(e) ==> final(self).store@ == old(self).store@ && e.error@
                == storage_index_out_of_range_msg(),
    {
        if index >= self.size {
            return Err(StorageError::index_out_of_range());
        }
        self.store.set(index, content);
        Ok(())
    }

    /// The homomorphic inner product of the query vector with the database:
    /// a single fold over the whole index range.  Succeeds exactly when the
    /// query length matches the database size; the answer's components are
    /// the reduced inner products, under the query's public key.
    ///
    /// The sum is seeded with the identity ciphertext under the first
    /// ciphertext's key, and ciphertext addition is defined only within one
    /// key: the preconditions exclude an empty query against an empty
    /// database and mixed-key query vectors.
    pub fn retrieve(&self, query: Vec<Ciphertext>) -> (r: Result<Ciphertext, StorageError>)
        requires
            self.wf(),
            !(self.size == 0 && query@.len() == 0),
            query@.len() == self.size ==> uniform_key(query@),
        ensures
            r is Ok <==> query@.len() == self.size,
            r matches Ok(c) ==> {
                &&& ct_public(c) == ct_public(query@[0])
                &&& ct_first(c) == lmod(dot_first(query@, self.store@, 0, self.size as int))
                &&& ct_second(c) == lmod(dot_second(query@, self.store@, 0, self.size as int))
            },
            r matches Err(e) ==> e.error@ == storage_size_mismatch_msg(),
    {
        if query.len() != self.size {
            return Err(StorageError::size_mismatch());
        }
        let c = retrieve_segment(&query, &self.store, 0, self.size);
        Ok(c)
    }

    /// The same inner product, computed the way the parallel path shards
    /// it: the index range is partitioned into `n_tasks` contiguous
    /// segments, each segment is folded into its own identity-seeded
    /// accumulator, and the partial sums are combined at the end.  The
    /// answer is the same as [`Storage::retrieve`]'s: the partition does
    /// not show in the result.
    pub fn retrieve_partitioned(&self, query: Vec<Ciphertext>, n_tasks: usize) -> (r: Result<
        Ciphertext,
        StorageError,
    >)
        requires
            self.wf(),
            1 <= n_tasks <= self.size,
            query@.len() == self.size ==> uniform_key(query@),
        ensures
            r is Ok <==> query@.len() == self.size,
            r matches Ok(c) ==> {
                &&& ct_public(c) == ct_public(query@[0])
                &&& ct_first(c) == lmod(dot_first(query@, self.store@, 0, self.size as int))
                &&& ct_second(c) == lmod(dot_second(query@, self.store@, 0, self.size as int))
            },
            r matches Err(e) ==> e.error@ == storage_size_mismatch_msg(),
    {
        if query.len() != self.size {
            return Err(StorageError::size_mismatch());
        }
        let len = query.len();
        let ghost s = share_size(len as int, n_tasks as int);
        proof {
            assert(s >= 1) by {
                vstd::arithmetic::div_mod::lemma_div_is_ordered(
                    n_tasks as int,
                    len as int,
                    n_tasks as int,
                );
                vstd::arithmetic::div_mod::lemma_div_by_self(n_tasks as int);
            }
        }
        let boundaries = calculate_vector_boundaries(&query, n_tasks);
        let cnt = boundaries.len();
        let pk = ciphertext_public_key(&query[0]);
        let mut sum = zero_ciphertext_from_pk(pk);
        proof {
            lemma_lmod_range(0);
        }
        let mut t: usize = 0;
        while t < cnt
            invariant
                self.wf(),
                len == self.size,
                len == query@.len(),
                len >= 1,
                uniform_key(query@),
                cnt == boundaries@.len(),
                cnt >= 1,
                s == share_size(len as int, n_tasks as int),
                s >= 1,
                forall|k: int| 0 <= k < cnt ==> boundaries@[k] == k * s,
                (cnt - 1) * s < len <= cnt * s,
                t <= cnt,
                ct_public(sum) == ct_public(query@[0]),
                ct_first(sum) == lmod(
                    dot_first(
                        query@,
                        self.store@,
                        0,
                        if t < cnt {
                            boundaries@[t as int] as int
                        } else {
                            len as int
                        },
                    ),
                ),
                ct_second(sum) == lmod(
                    dot_second(
                        query@,
                        self.store@,
                        0,
                        if t < cnt {
                            boundaries@[t as int] as int
                        } else {
                            len as int
                        },
                    ),
                ),
            decreases cnt - t,
        {
            let start = boundaries[t];
            let end = if t + 1 < cnt {
                boundaries[t + 1]
            } else {
                len
            };
            proof {
                vstd::arithmetic::mul::lemma_mul_inequality(t as int, t + 1, s);
                if t + 1 < cnt {
                    vstd::arithmetic::mul::lemma_mul_inequality(t + 1, cnt - 1, s);
                }
                vstd::arithmetic::mul::lemma_mul_inequality(t as int, cnt - 1, s);
            }
            let partial = retrieve_segment(&query, &self.store, start, end);
            proof {
                lemma_dot_split(query@, self.store@, 0, start as int, end as int);
                lemma_lmod_add(
                    dot_first(query@, self.store@, 0, start as int),
                    dot_first(query@, self.store@, start as int, end as int),
                );
                lemma_lmod_add(
                    dot_second(query@, self.store@, 0, start as int),
                    dot_second(query@, self.store@, start as int, end as int),
                );
            }
            sum = ciphertext_add(&sum, &partial);
            t = t + 1;
        }
        Ok(sum)
    }

    /// The parallel-path entry point: partitions the range into one segment
    /// per available CPU (capped at the database size) and combines the
    /// per-segment partial sums.  Each segment's fold is independent of the
    /// others and owns its accumulator, so a driver may run the segments on
    /// OS threads and join before combining; the answer proved here is the
    /// one any such schedule returns.  The preconditions are those of
    /// [`Storage::retrieve`].
    pub fn retrieve_parallel(&self, query: Vec<Ciphertext>) -> (r: Result<Ciphertext, StorageError>)
        requires
            self.wf(),
            !(self.size == 0 && query@.len() == 0),
            query@.len() == self.size ==> uniform_key(query@),
        ensures
            r is Ok <==> query@.len() == self.size,
            r matches Ok(c) ==> {
                &&& ct_public(c) == ct_public(query@[0])
                &&& ct_first(c) == lmod(dot_first(query@, self.store@, 0, self.size as int))
                &&& ct_second(c) == lmod(dot_second(query@, self.store@, 0, self.size as int))
            },
            r matches Err(e) ==> e.error@ == storage_size_mismatch_msg(),
    {
        if query.len() != self.size {
            return Err(StorageError::size_mismatch());
        }
        let cpus = available_cpus();
        let tasks = if cpus > self.size {
            self.size
        } else {
            cpus
        };
        self.retrieve_partitioned(query, tasks)
    }
}

} // verus!
