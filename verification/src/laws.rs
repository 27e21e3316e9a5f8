//! The protocol's laws, proved once and for all over the algebraic model.
//!
//! The contracts of [`crate::storage::Storage::retrieve`] and
//! [`crate::client::Query::extract_result`] describe one call each; the
//! proofs here tie them together: an answer whose components are the
//! reduced inner products of a well-formed query with any database decrypts
//! to exactly the queried record.

use vstd::prelude::*;

use curve25519_dalek::scalar::Scalar;
use elgamal_ristretto::ciphertext::Ciphertext;

use crate::client::Query;
use crate::elgamal::{
    ct_first, ct_second, decrypts_to, encrypts, group_order, lemma_lmod_add, lemma_lmod_mul,
    lemma_lmod_range, lemma_lmod_sub, lmod, scalar_val, secret_val, selector,
};
use crate::storage::{dot_first, dot_second};

verus! {

/// The decryption of the partial inner product over `[0, n)` of a one-hot
/// query for position `i`: the queried record once `n` passes `i`, and the
/// identity before.  Every term with selector `0` contributes the identity;
/// the one term with selector `1` contributes `d[i]`.
proof fn lemma_dot_decrypts(q: Seq<Ciphertext>, d: Seq<Scalar>, s: nat, i: int, n: int)
    requires
        d.len() == q.len(),
        0 <= i < q.len(),
        0 <= n <= q.len(),
        forall|j: int| 0 <= j < q.len() ==> encrypts(#[trigger] q[j], s, selector(j, i)),
    ensures
        lmod(dot_second(q, d, 0, n) - s * dot_first(q, d, 0, n)) == lmod(
            if i < n {
                scalar_val(d[i]) as int
            } else {
                0
            },
        ),
    decreases n,
{
    if n > 0 {
        lemma_dot_decrypts(q, d, s, i, n - 1);
        let fprev = dot_first(q, d, 0, n - 1);
        let sprev = dot_second(q, d, 0, n - 1);
        let a = ct_first(q[n - 1]) as int;
        let b = ct_second(q[n - 1]) as int;
        let dd = scalar_val(d[n - 1]) as int;
        let m = selector(n - 1, i) as int;
        let prev: int = if i < n - 1 {
            scalar_val(d[i]) as int
        } else {
            0
        };
        assert(b == lmod(m + a * s));
        assert(sprev + b * dd - s * (fprev + a * dd) == (sprev - s * fprev) + (b - s * a) * dd)
            by (nonlinear_arith);
        // the step term is congruent to `m * dd`
        assert(lmod((b - s * a) * dd) == lmod(m * dd)) by {
            assert(lmod(b - s * a) == lmod(m)) by {
                lemma_lmod_sub(m + a * s, s * a);
                assert(m + a * s - s * a == m) by (nonlinear_arith);
            }
            lemma_lmod_mul(b - s * a, dd);
            lemma_lmod_mul(m, dd);
            assert(lmod(lmod(b - s * a) * dd) == lmod((b - s * a) * dd));
            assert(lmod(lmod(m) * dd) == lmod(m * dd));
        }
        // fold the step term into the partial sum
        lemma_lmod_add((sprev - s * fprev) as int, ((b - s * a) * dd) as int);
        lemma_lmod_add(prev, (m * dd) as int);
        assert(lmod(lmod(sprev - s * fprev) + lmod((b - s * a) * dd)) == lmod(
            (sprev - s * fprev) + (b - s * a) * dd,
        ));
        if i == n - 1 {
            assert(prev + m * dd == dd) by (nonlinear_arith)
                requires
                    m == 1,
                    prev == 0,
            ;
        } else {
            assert(m == 0);
            assert(m * dd == 0) by (nonlinear_arith)
                requires
                    m == 0,
            ;
        }
    }
}

/// The round-trip law, the core correctness of the protocol: for every
/// well-formed query `q` for position `i`, every database `db` of matching
/// size, and every answer ciphertext whose components are the reduced
/// homomorphic inner products of `q.encrypted` with `db` — what every
/// retrieval path of [`crate::storage::Storage`] ensures — decrypting the
/// answer with the client's secret key yields exactly the record `db[i]`.
///
/// No server-side key appears anywhere in the statement: the protocol is
/// keyed by the client alone, and a server running with any key of its own
/// produces the right plaintext for the client.
pub proof fn lemma_retrieval_round_trip(q: Query, db: Seq<Scalar>, answer: Ciphertext)
    requires
        q.wf(),
        db.len() == q.size,
        scalar_val(db[q.index@ as int]) < group_order(),
        ct_first(answer) == lmod(dot_first(q.encrypted@, db, 0, q.size as int)),
        ct_second(answer) == lmod(dot_second(q.encrypted@, db, 0, q.size as int)),
    ensures
        decrypts_to(secret_val(q.private_key), answer) == scalar_val(db[q.index@ as int]),
{
    let s = secret_val(q.private_key);
    let i = q.index@ as int;
    let n = q.size as int;
    let f = dot_first(q.encrypted@, db, 0, n);
    let snd = dot_second(q.encrypted@, db, 0, n);
    lemma_dot_decrypts(q.encrypted@, db, s, i, n);
    // peel the reductions inside `decrypts_to(s, answer)`
    lemma_lmod_mul(s as int, f);
    lemma_lmod_sub(snd, (s * lmod(f)) as int);
    lemma_lmod_sub(snd, (s * f) as int);
    lemma_lmod_range(scalar_val(db[i]) as int);
}

/// Overwriting a record twice with the same scalar leaves the database
/// exactly as overwriting it once: the observable effect of
/// [`crate::storage::Storage::add`] is idempotent.
pub proof fn lemma_add_idempotent(d: Seq<Scalar>, content: Scalar, j: int)
    requires
        0 <= j < d.len(),
    ensures
        d.update(j, content).update(j, content) == d.update(j, content),
{
    assert(d.update(j, content).update(j, content) =~= d.update(j, content));
}

} // verus!

