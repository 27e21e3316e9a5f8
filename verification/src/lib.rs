//! A single-server private information retrieval (PIR) protocol built on
//! additively homomorphic ElGamal encryption over the Ristretto group.
//!
//! A client holds a secret key and retrieves the record at index `i` of a
//! server-side database of `N` scalars without revealing `i`: the client
//! sends the encryption of the one-hot selector vector `e_i`, the server
//! answers with the homomorphic inner product of that vector and the
//! database, and the client decrypts the answer and recovers the scalar by
//! a bounded discrete-log search.

pub mod client;
pub mod elgamal;
pub mod errors;
pub mod laws;
pub mod storage;
pub mod utils;
