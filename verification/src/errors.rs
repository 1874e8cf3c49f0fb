use vstd::prelude::*;

verus! {

/// Everything that can go wrong while running the protocol.
///
/// Cryptographic verification failures are terminal for the session in which
/// they arise; only the participant or signer composition may be adjusted and
/// retried by the caller.
#[derive(Debug)]
pub enum ProtocolError {
    /// A participant's proof of knowledge of its secret does not verify.
    InvalidProof,
    /// One or more peers failed admission into the key generation; the list
    /// names every offending participant index that was detected.
    MisbehavingParticipants(Vec<u32>),
    /// A received secret share failed the consistency check against the
    /// published commitments.  It names no sender: received shares carry
    /// only their receiver's index, so the offender cannot be identified.
    ShareVerificationFailed,
    /// Fewer secret shares were supplied than the session requires.
    IncompleteShares,
    /// Fewer signers were registered than the threshold requires.
    InsufficientSigners,
    /// The signer has exhausted its pool of one-time commitment shares.
    NoUnusedCommitmentShares,
    /// A registered signer never contributed its partial signature.
    MissingPartialSignature(u32),
    /// The aggregated or supplied signature does not verify.
    SignatureInvalid,
}

} // verus!
