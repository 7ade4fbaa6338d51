//! A Chaum–Pedersen zero-knowledge authentication core.
//!
//! A prover holds a secret scalar `x` and publishes the commitments
//! `y1 = a^x mod p` and `y2 = b^x mod p` over a prime-order subgroup with
//! generators `a` and `b`. To authenticate, it commits to a fresh nonce `k`
//! with `r1 = a^k mod p`, `r2 = b^k mod p`, receives a random challenge `c`,
//! and answers with the response `s = k - c*x (mod q)`. The verifier accepts
//! when `r1 == a^s * y1^c (mod p)` and `r2 == b^s * y2^c (mod p)`.
//!
//! The crate provides the arithmetic primitive ([`zkp::ZKP`]), the prover-side
//! turn computations ([`client`]), and the verifier's registry and protocol
//! state machine ([`server`]). Big unsigned integers are carried as canonical
//! big-endian byte strings ([`bignum::BigNum`]) whose mathematical value is the
//! subject of every contract.

pub mod bignum;
pub mod client;
mod bigops;
pub mod errors;
pub mod rng;
pub mod params;
pub mod server;
pub mod strmap;
pub mod zkp;

pub use bignum::BigNum;
pub use errors::AuthError;
pub use zkp::ZKP;
