//! A FROST-style threshold Schnorr signing engine.
//!
//! A set of `n` participants jointly generates a group signing key through a
//! Pedersen-style distributed key generation, such that any `t` of them can
//! later cooperate to produce a single Schnorr signature that verifies under
//! the group public key.  The elliptic-curve arithmetic itself is supplied by
//! `frost_dalek` and `curve25519_dalek`; this crate drives the protocol,
//! models every record by the plain values the protocol reads from it, and
//! proves the bookkeeping around the cryptographic calls.
//!
//! Signatures are checked with the scheme's own Schnorr verifier over the
//! Ristretto group.  `frost_dalek` exposes no re-encoding of Ristretto keys
//! and signatures into the Ed25519 wire format, so no Ed25519 compatibility
//! layer is offered here.

pub mod crypto;
pub mod errors;
pub mod handles;
pub mod keygen;
pub mod signing;
