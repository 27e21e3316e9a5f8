//! The crypto primitives facade: a thin, typed adapter over the group
//! library.
//!
//! Only this module touches the curve crates.  The rest of the crate reasons
//! about group elements purely algebraically, through an abstract model: the
//! Ristretto group is cyclic of prime order [`group_order()`] with generator
//! `G`, so every group element is `m * G` for exactly one `m` in
//! `[0, group_order())` — its discrete logarithm — and every scalar has one
//! canonical residue in the same range.  The uninterpreted functions below
//! ([`scalar_val`], [`point_dlog`], [`secret_val`], [`public_dlog`],
//! [`ct_public`], [`ct_first`], [`ct_second`]) name those residues; the
//! contracts of the trusted wrappers state, over the names, exactly what the
//! curve crates compute.

use vstd::prelude::*;

use curve25519_dalek::constants::RISTRETTO_BASEPOINT_POINT;
use curve25519_dalek::constants::RISTRETTO_BASEPOINT_TABLE;
use curve25519_dalek::ristretto::RistrettoPoint;
use curve25519_dalek::scalar::Scalar;
use curve25519_dalek::traits::Identity;
use elgamal_ristretto::ciphertext::Ciphertext;
use elgamal_ristretto::private::SecretKey;
use elgamal_ristretto::public::PublicKey;
use rand_core::OsRng;

verus! {

#[verifier::external_type_specification]
#[verifier::external_body]
pub struct ExScalar(Scalar);

#[verifier::external_type_specification]
#[verifier::external_body]
pub struct ExRistrettoPoint(RistrettoPoint);

#[verifier::external_type_specification]
#[verifier::external_body]
pub struct ExSecretKey(SecretKey);

#[verifier::external_type_specification]
#[verifier::external_body]
pub struct ExPublicKey(PublicKey);

#[verifier::external_type_specification]
#[verifier::external_body]
pub struct ExCiphertext(Ciphertext);

/// The order of the Ristretto group: the prime
/// `2^252 + 27742317777372353535851937790883648493`.
pub open spec fn group_order() -> int {
    0x1000000000000000000000000000000014def9dea2f79cd65812631a5cf5d3edint
}

// The canonical residue of a scalar modulo the group order.
pub uninterp spec fn scalar_val(s: Scalar) -> nat;

// The discrete logarithm of a group element with respect to the fixed
// generator `G`: the unique `m` in `[0, group_order())` with `p == m * G`.
pub uninterp spec fn point_dlog(p: RistrettoPoint) -> nat;

// The residue of the scalar inside a secret key.
pub uninterp spec fn secret_val(sk: SecretKey) -> nat;

// The discrete logarithm of the group element inside a public key.
pub uninterp spec fn public_dlog(pk: PublicKey) -> nat;

// The discrete logarithm of the public key a ciphertext carries.
pub uninterp spec fn ct_public(c: Ciphertext) -> nat;

// The discrete logarithm of the first component of a ciphertext.
pub uninterp spec fn ct_first(c: Ciphertext) -> nat;

// The discrete logarithm of the second component of a ciphertext.
pub uninterp spec fn ct_second(c: Ciphertext) -> nat;

/// Reduction modulo the group order, into `[0, group_order())`.
pub open spec fn lmod(x: int) -> int {
    x % group_order()
}

/// The discrete logarithm of the plaintext that `c` decrypts to under a
/// secret key of residue `sk`: decryption computes `B - sk * A`.
pub open spec fn decrypts_to(sk: nat, c: Ciphertext) -> int {
    lmod(ct_second(c) - sk * ct_first(c))
}

/// `c` is a well-formed ElGamal encryption of the plaintext `m * G` under
/// the key pair of residue `sk`: its public key is `sk * G` and its second
/// component is `m * G + r * (sk * G)` where `r * G` is its first component.
pub open spec fn encrypts(c: Ciphertext, sk: nat, m: nat) -> bool {
    &&& ct_public(c) == sk
    &&& ct_second(c) == lmod((m + ct_first(c) * sk) as int)
}

/// Relies on `SecretKey::new` (a uniformly random canonical scalar) and on
/// `PublicKey::from(&sk)`, which computes `sk * G`.
#[verifier::external_body]
pub fn generate_key_pair() -> (r: (SecretKey, PublicKey))
    ensures
        public_dlog(r.1) == secret_val(r.0),
        secret_val(r.0) < group_order(),
{
    let sk = SecretKey::new(&mut OsRng);
    let pk = PublicKey::from(&sk);
    (sk, pk)
}

/// Relies on `PublicKey::from(&sk)`, which computes `sk * G`.
#[verifier::external_body]
pub(crate) fn public_key_of(sk: &SecretKey) -> (r: PublicKey)
    ensures
        public_dlog(r) == secret_val(*sk),
{
    PublicKey::from(sk)
}

/// Relies on `Scalar::zero`.
#[verifier::external_body]
pub(crate) fn scalar_zero() -> (r: Scalar)
    ensures
        scalar_val(r) == 0,
{
    Scalar::zero()
}

/// Relies on `Scalar::one`.
#[verifier::external_body]
pub(crate) fn scalar_one() -> (r: Scalar)
    ensures
        scalar_val(r) == 1,
{
    Scalar::one()
}

/// Relies on `Scalar::from(u64)`, which embeds an integer below the group
/// order as the scalar of that residue.
#[verifier::external_body]
pub(crate) fn scalar_from_u64(u: u64) -> (r: Scalar)
    ensures
        scalar_val(r) == u,
{
    Scalar::from(u)
}

/// Relies on `Add for Scalar`: addition in the scalar field, reduced
/// modulo the group order.
#[verifier::external_body]
pub(crate) fn scalar_add(a: &Scalar, b: &Scalar) -> (r: Scalar)
    ensures
        scalar_val(r) == lmod((scalar_val(*a) + scalar_val(*b)) as int),
{
    a + b
}

/// Relies on `Scalar::random`, a uniformly random canonical scalar.
/// Nothing relates two calls: only the range of the residue is known.
#[verifier::external_body]
pub(crate) fn scalar_random() -> (r: Scalar)
    ensures
        scalar_val(r) < group_order(),
{
    Scalar::random(&mut OsRng)
}

/// Relies on multiplication by `RISTRETTO_BASEPOINT_TABLE`, which computes
/// `s * G`.
#[verifier::external_body]
pub(crate) fn basepoint_mul(s: &Scalar) -> (r: RistrettoPoint)
    ensures
        point_dlog(r) == scalar_val(*s),
{
    s * &RISTRETTO_BASEPOINT_TABLE
}

/// Relies on `RISTRETTO_BASEPOINT_POINT`: the fixed generator `G` itself,
/// the element of discrete logarithm `1`.
#[verifier::external_body]
pub(crate) fn basepoint() -> (r: RistrettoPoint)
    ensures
        point_dlog(r) == 1,
{
    RISTRETTO_BASEPOINT_POINT
}

/// Relies on `RistrettoPoint::identity`: the group identity `0 * G`.
#[verifier::external_body]
pub(crate) fn point_identity() -> (r: RistrettoPoint)
    ensures
        point_dlog(r) == 0,
{
    RistrettoPoint::identity()
}

/// Relies on `Add for RistrettoPoint`: group addition, which adds discrete
/// logarithms modulo the group order.
#[verifier::external_body]
pub(crate) fn point_add(p: &RistrettoPoint, q: &RistrettoPoint) -> (r: RistrettoPoint)
    ensures
        point_dlog(r) == lmod((point_dlog(*p) + point_dlog(*q)) as int),
{
    p + q
}

/// Relies on `PartialEq for RistrettoPoint`: two Ristretto group elements
/// are equal exactly when they are the same element of the cyclic group,
/// that is, when their discrete logarithms agree.
#[verifier::external_body]
pub(crate) fn point_eq(p: &RistrettoPoint, q: &RistrettoPoint) -> (r: bool)
    ensures
        r <==> point_dlog(*p) == point_dlog(*q),
{
    p == q
}

/// Relies on `PublicKey::encrypt`, which draws a fresh random scalar `r` and
/// returns `(r * G, M + r * pk)` tagged with `pk`.  The randomness `r` is
/// not named: only the algebraic relation between the two components is
/// stated, which holds whatever `r` was drawn.
#[verifier::external_body]
pub(crate) fn encrypt(pk: &PublicKey, m: &RistrettoPoint) -> (r: Ciphertext)
    ensures
        ct_public(r) == public_dlog(*pk),
        ct_second(r) == lmod((point_dlog(*m) + ct_first(r) * public_dlog(*pk)) as int),
{
    pk.encrypt(m)
}

/// Relies on `SecretKey::decrypt`, which returns `B - sk * A` for a
/// ciphertext `(A, B)`.
#[verifier::external_body]
pub(crate) fn decrypt(sk: &SecretKey, c: &Ciphertext) -> (r: RistrettoPoint)
    ensures
        point_dlog(r) == decrypts_to(secret_val(*sk), *c),
{
    sk.decrypt(c)
}

/// Relies on `Add for Ciphertext`: component-wise group addition.  The
/// addition panics unless both ciphertexts carry the same public key, so
/// equal key residues are required.
#[verifier::external_body]
pub(crate) fn ciphertext_add(c1: &Ciphertext, c2: &Ciphertext) -> (r: Ciphertext)
    requires
        ct_public(*c1) == ct_public(*c2),
    ensures
        ct_public(r) == ct_public(*c1),
        ct_first(r) == lmod((ct_first(*c1) + ct_first(*c2)) as int),
        ct_second(r) == lmod((ct_second(*c1) + ct_second(*c2)) as int),
{
    c1 + c2
}

/// Relies on `Mul<Scalar> for Ciphertext`: component-wise scalar
/// multiplication, keeping the public key.
#[verifier::external_body]
pub(crate) fn ciphertext_mul(c: &Ciphertext, s: &Scalar) -> (r: Ciphertext)
    ensures
        ct_public(r) == ct_public(*c),
        ct_first(r) == lmod((ct_first(*c) * scalar_val(*s)) as int),
        ct_second(r) == lmod((ct_second(*c) * scalar_val(*s)) as int),
{
    c * s
}

/// Relies on the public `pk` field of `Ciphertext`.
#[verifier::external_body]
pub(crate) fn ciphertext_public_key(c: &Ciphertext) -> (r: PublicKey)
    ensures
        public_dlog(r) == ct_public(*c),
{
    c.pk
}

/// The one-hot selector: `1` at the queried position `i`, `0` elsewhere.
pub open spec fn selector(j: int, i: int) -> nat {
    if j == i {
        1
    } else {
        0
    }
}

/// Reduction commutes with addition.
pub proof fn lemma_lmod_add(x: int, y: int)
    ensures
        lmod(lmod(x) + lmod(y)) == lmod(x + y),
        lmod(lmod(x) + y) == lmod(x + y),
{
    vstd::arithmetic::div_mod::lemma_add_mod_noop(x, y, group_order());
    vstd::arithmetic::div_mod::lemma_add_mod_noop_right(y, x, group_order());
}

/// Reduction commutes with subtraction.
pub proof fn lemma_lmod_sub(x: int, y: int)
    ensures
        lmod(lmod(x) - lmod(y)) == lmod(x - y),
        lmod(x - lmod(y)) == lmod(x - y),
        lmod(lmod(x) - y) == lmod(x - y),
{
    vstd::arithmetic::div_mod::lemma_sub_mod_noop(x, y, group_order());
    vstd::arithmetic::div_mod::lemma_sub_mod_noop_right(x, y, group_order());
    vstd::arithmetic::div_mod::lemma_sub_mod_noop(lmod(x), y, group_order());
    vstd::arithmetic::div_mod::lemma_mod_twice(x, group_order());
}

/// Reduction of one factor commutes with multiplication.
pub proof fn lemma_lmod_mul(x: int, y: int)
    ensures
        lmod(lmod(x) * y) == lmod(x * y),
        lmod(x * lmod(y)) == lmod(x * y),
{
    vstd::arithmetic::div_mod::lemma_mul_mod_noop_left(x, y, group_order());
    vstd::arithmetic::div_mod::lemma_mul_mod_noop_right(x, y, group_order());
}

/// A reduced value lies in `[0, group_order())`, and a value already there
/// is its own reduction.
pub proof fn lemma_lmod_range(x: int)
    ensures
        0 <= lmod(x) < group_order(),
        0 <= x < group_order() ==> lmod(x) == x,
{
    vstd::arithmetic::div_mod::lemma_mod_bound(x, group_order());
    if 0 <= x < group_order() {
        vstd::arithmetic::div_mod::lemma_small_mod(x as nat, group_order() as nat);
    }
}

} // verus!
