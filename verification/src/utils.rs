//! Helpers shared by the storage engine: the identity ciphertext, the
//! partitioning of the index range into contiguous segments, and the choice
//! of the number of parallel tasks.

use vstd::prelude::*;

use curve25519_dalek::ristretto::RistrettoPoint;
use curve25519_dalek::traits::Identity;
use elgamal_ristretto::ciphertext::Ciphertext;
use elgamal_ristretto::public::PublicKey;

use crate::elgamal::{ct_first, ct_public, ct_second, public_dlog};

verus! {

/// Relies on `RistrettoPoint::identity`: the ciphertext `(O, O)` under `pk`
/// is the additive identity for ciphertext addition and encrypts the
/// identity element `0 * G`.
#[verifier::external_body]
pub fn zero_ciphertext_from_pk(pk: PublicKey) -> (r: Ciphertext)
    ensures
        ct_public(r) == public_dlog(pk),
        ct_first(r) == 0,
        ct_second(r) == 0,
{
    Ciphertext {
        pk,
        points: (RistrettoPoint::identity(), RistrettoPoint::identity()),
    }
}

/// Relies on `num_cpus::get`, which always reports at least one available
/// CPU.  The count depends on the machine, so no more is stated.
#[verifier::external_body]
pub(crate) fn available_cpus() -> (r: usize)
    ensures
        r >= 1,
{
    num_cpus::get()
}

/// The length every share gets when `len` indices are split into `n_shares`
/// contiguous segments (the last segment additionally absorbs the
/// remainder).
pub open spec fn share_size(len: int, n_shares: int) -> int {
    len / n_shares
}

/// Splits the index range of `v` into `n_shares` contiguous segments and
/// returns the starting index of each: the multiples of
/// `share_size(len, n_shares)` below `len` (and `0` alone for an empty
/// vector).  A boundary at `b` opens the segment from `b` to the next
/// boundary; the last segment extends to `len` and so absorbs the remainder
/// when `n_shares` does not divide `len`.  Every index is covered by exactly
/// one segment.
pub fn calculate_vector_boundaries(v: &Vec<Ciphertext>, n_shares: usize) -> (r: Vec<usize>)
    requires
        n_shares >= 1,
        n_shares <= v@.len() || v@.len() == 0,
    ensures
        r@.len() >= 1,
        forall|k: int| 0 <= k < r@.len() ==> r@[k] == k * share_size(v@.len() as int, n_shares as int),
        v@.len() == 0 ==> r@.len() == 1,
        v@.len() > 0 ==> (r@.len() - 1) * share_size(v@.len() as int, n_shares as int) < v@.len()
            <= r@.len() * share_size(v@.len() as int, n_shares as int),
{
    let len = v.len();
    let s = len / n_shares;
    proof {
        if len > 0 {
            assert(s >= 1) by {
                vstd::arithmetic::div_mod::lemma_div_is_ordered(n_shares as int, len as int, n_shares as int);
                vstd::arithmetic::div_mod::lemma_div_by_self(n_shares as int);
            }
        }
    }
    let mut sep_shares: Vec<usize> = Vec::new();
    sep_shares.push(0);
    let mut i: usize = 0;
    while len - i > s
        invariant
            s == share_size(len as int, n_shares as int),
            len == v@.len(),
            len > 0 ==> s >= 1,
            i <= len,
            len > 0 ==> i < len,
            len == 0 ==> i == 0 && sep_shares@.len() == 1,
            sep_shares@.len() >= 1,
            i == (sep_shares@.len() - 1) * s,
            forall|k: int| 0 <= k < sep_shares@.len() ==> sep_shares@[k] == k * s,
        decreases len - i,
    {
        proof {
            assert((sep_shares@.len() - 1) * s + s == sep_shares@.len() * s) by (nonlinear_arith);
        }
        i = i + s;
        sep_shares.push(i);
    }
    proof {
        assert((sep_shares@.len() - 1) * s + s == sep_shares@.len() * s) by (nonlinear_arith);
    }
    sep_shares
}

/// `b` is the code of an ASCII decimal digit.
pub open spec fn is_ascii_digit(b: u8) -> bool {
    0x30 <= b <= 0x39
}

/// `s` is a non-empty run of ASCII decimal digits.
pub open spec fn is_decimal(s: Seq<u8>) -> bool {
    s.len() > 0 && forall|k: int| 0 <= k < s.len() ==> is_ascii_digit(s[k])
}

/// The value of a run of ASCII decimal digits read most significant first.
pub open spec fn decimal_val(s: Seq<u8>) -> int
    decreases s.len(),
{
    if s.len() == 0 {
        0
    } else {
        decimal_val(s.drop_last()) * 10 + (s.last() - 0x30)
    }
}

proof fn lemma_decimal_val_nonneg(s: Seq<u8>)
    requires
        forall|k: int| 0 <= k < s.len() ==> is_ascii_digit(s[k]),
    ensures
        decimal_val(s) >= 0,
    decreases s.len(),
{
    if s.len() > 0 {
        lemma_decimal_val_nonneg(s.drop_last());
    }
}

/// Reading further digits never shrinks the value: the value of a prefix is
/// a lower bound for the value of the whole run.
proof fn lemma_decimal_val_prefix_le(s: Seq<u8>, i: int)
    requires
        0 <= i <= s.len(),
        forall|k: int| 0 <= k < s.len() ==> is_ascii_digit(s[k]),
    ensures
        decimal_val(s.take(i)) <= decimal_val(s),
    decreases s.len() - i,
{
    if i == s.len() {
        assert(s.take(i) =~= s);
    } else {
        assert(s.take(i + 1).drop_last() =~= s.take(i));
        lemma_decimal_val_nonneg(s.take(i));
        lemma_decimal_val_prefix_le(s, i + 1);
    }
}

/// Reads a non-empty run of ASCII decimal digits as a `usize`.  Returns
/// `None` exactly when the text is not such a run or its value does not fit.
pub(crate) fn parse_usize(bytes: &Vec<u8>) -> (r: Option<usize>)
    ensures
        match r {
            Some(v) => is_decimal(bytes@) && v == decimal_val(bytes@),
            None => !is_decimal(bytes@) || decimal_val(bytes@) > usize::MAX,
        },
{
    let n = bytes.len();
    if n == 0 {
        return None;
    }
    let mut acc: usize = 0;
    let mut idx: usize = 0;
    while idx < n
        invariant
            n == bytes@.len(),
            0 <= idx <= n,
            forall|k: int| 0 <= k < idx ==> is_ascii_digit(bytes@[k]),
            acc == decimal_val(bytes@.take(idx as int)),
        decreases n - idx,
    {
        let b = bytes[idx];
        if b < 0x30 || b > 0x39 {
            return None;
        }
        proof {
            assert(bytes@.take(idx + 1).drop_last() =~= bytes@.take(idx as int));
        }
        let shifted = match acc.checked_mul(10) {
            Some(x) => x,
            None => {
                proof {
                    if forall|k: int| 0 <= k < bytes@.len() ==> is_ascii_digit(bytes@[k]) {
                        lemma_decimal_val_prefix_le(bytes@, idx + 1);
                    }
                }
                return None;
            },
        };
        let next = match shifted.checked_add((b - 0x30) as usize) {
            Some(x) => x,
            None => {
                proof {
                    if forall|k: int| 0 <= k < bytes@.len() ==> is_ascii_digit(bytes@[k]) {
                        lemma_decimal_val_prefix_le(bytes@, idx + 1);
                    }
                }
                return None;
            },
        };
        acc = next;
        idx = idx + 1;
    }
    proof {
        assert(bytes@.take(n as int) =~= bytes@);
    }
    Some(acc)
}

/// Decides how many parallel tasks a retrieval uses.  The caller passes the
/// bytes of the `N_PARALLEL_TASKS` environment variable, if it was set; a
/// value that reads as a positive integer is taken as is, and anything else
/// falls back to the number of available CPUs.
pub fn num_parallel_tasks(env_value: Option<Vec<u8>>) -> (r: usize)
    ensures
        r >= 1,
        match env_value {
            Some(s) => (is_decimal(s@) && 1 <= decimal_val(s@) <= usize::MAX) ==> r
                == decimal_val(s@),
            None => true,
        },
{
    match env_value {
        Some(s) => {
            match parse_usize(&s) {
                Some(v) => {
                    if v >= 1 {
                        v
                    } else {
                        available_cpus()
                    }
                },
                None => available_cpus(),
            }
        },
        None => available_cpus(),
    }
}

} // verus!
