use vstd::prelude::*;

use curve25519_dalek::ristretto::RistrettoPoint;

use crate::crypto;
use crate::errors::ProtocolError;

verus! {

/// The configuration of one protocol instance: `n` participants, of which any
/// `t` can produce a signature.
#[derive(Clone, Copy, Debug, PartialEq, Eq, Structural)]
pub struct Params {
    /// The total number of participants.
    pub n: u32,
    /// The signing threshold.
    pub t: u32,
}

impl Params {
    /// A usable configuration has `1 <= t <= n`.
    pub open spec fn valid(self) -> bool {
        1 <= self.t <= self.n
    }
}

/// The plain values a participant record carries: its index and how many
/// polynomial commitments it holds.
pub struct ParticipantView {
    /// The participant's index.
    pub index: u32,
    /// The number of polynomial commitments.
    pub commitment_count: u32,
}

/// The public record a participant broadcasts at setup: its index, `t`
/// commitments to its secret polynomial, and a proof of knowledge of the
/// polynomial's constant term.  Records are only built by [`create_participant`]
/// and [`participant_from_broadcast`], which keep the view bound to the
/// underlying record, so contracts over the view hold of the record itself.
pub struct ParticipantRecord {
    pub(crate) index: u32,
    pub(crate) commitment_count: u32,
    pub(crate) inner: frost_dalek::Participant,
}

impl View for ParticipantRecord {
    type V = ParticipantView;

    closed spec fn view(&self) -> ParticipantView {
        ParticipantView { index: self.index, commitment_count: self.commitment_count }
    }
}

impl ParticipantRecord {
    /// The participant's index.
    pub fn index(&self) -> (r: u32)
        ensures
            r == self@.index,
    {
        self.index
    }

    /// How many polynomial commitments the record carries.
    pub fn commitment_count(&self) -> (r: u32)
        ensures
            r == self@.commitment_count,
    {
        self.commitment_count
    }

    /// The record's commitment points, for broadcast.
    pub fn commitments(&self) -> (r: Vec<RistrettoPoint>)
        ensures
            r@.len() == self@.commitment_count,
    {
        crypto::participant_commitments(self)
    }

    /// The record's proof of knowledge, for broadcast.
    pub fn proof_of_secret_key(&self) -> frost_dalek::nizk::NizkOfSecretKey {
        crypto::participant_proof(self)
    }

    /// An identical copy of the record, for handing to several sessions.
    pub fn duplicate(&self) -> (r: ParticipantRecord)
        ensures
            r@ == self@,
    {
        crypto::clone_participant(self)
    }
}

/// Reassemble a broadcast participant record from its transmitted parts: a
/// claimed index, commitment points and a proof of knowledge.  Nothing is
/// checked here — [`verify_participant`] decides whether the proof matches
/// the claimed index and commitments.
pub fn participant_from_broadcast(
    index: u32,
    commitments: Vec<RistrettoPoint>,
    proof: frost_dalek::nizk::NizkOfSecretKey,
) -> (r: ParticipantRecord)
    requires
        commitments@.len() <= u32::MAX,
    ensures
        r@.index == index,
        r@.commitment_count == commitments@.len(),
{
    crypto::assemble_participant(index, commitments, proof)
}

/// A participant's own secret polynomial coefficients.  They exist only
/// between setup and round one and are consumed (and zeroed) when the
/// participant derives its outgoing secret shares.
pub struct SecretCoefficients {
    pub(crate) inner: frost_dalek::keygen::Coefficients,
}

/// A secret share: one evaluation of a sender's secret polynomial at a
/// receiver's index.  It travels from its sender to that receiver only; its
/// view is the index it was evaluated at, used for routing.
pub struct ShareRecord {
    pub(crate) receiver_index: u32,
    pub(crate) inner: frost_dalek::keygen::SecretShare,
}

impl View for ShareRecord {
    type V = u32;

    closed spec fn view(&self) -> u32 {
        self.receiver_index
    }
}

impl ShareRecord {
    /// The index of the participant this share is destined for.
    pub fn receiver_index(&self) -> (r: u32)
        ensures
            r == self@,
    {
        self.receiver_index
    }

    /// An identical copy of the share.
    pub fn duplicate(&self) -> (r: ShareRecord)
        ensures
            r@ == self@,
    {
        crypto::clone_share(self)
    }
}

/// The plain values a key generation state carries.
pub struct DkgView {
    /// The session configuration.
    pub params: Params,
    /// The index of the participant driving this state machine.
    pub my_index: u32,
}

/// Round-one state of the key generation: the peers have been admitted and
/// this participant's outgoing shares have been derived.  Only
/// [`begin_round_one`] builds one, so the view is bound to the state inside.
pub struct DkgRoundOne {
    pub(crate) params: Params,
    pub(crate) my_index: u32,
    pub(crate) inner: crate::crypto::RoundOneState,
}

impl View for DkgRoundOne {
    type V = DkgView;

    closed spec fn view(&self) -> DkgView {
        DkgView { params: self.params, my_index: self.my_index }
    }
}

/// Round-two state of the key generation: the incoming shares have been
/// received and stored.  Only [`advance_to_round_two`] builds one.
pub struct DkgRoundTwo {
    pub(crate) params: Params,
    pub(crate) my_index: u32,
    pub(crate) inner: crate::crypto::RoundTwoState,
}

impl View for DkgRoundTwo {
    type V = DkgView;

    closed spec fn view(&self) -> DkgView {
        DkgView { params: self.params, my_index: self.my_index }
    }
}

/// The public key of the whole group: the sum of every participant's
/// constant-term commitment.  Its view is the canonical 32-byte encoding,
/// which determines the key: both constructors derive the bytes from the key
/// they hold.
pub struct GroupPublicKey {
    pub(crate) bytes: Vec<u8>,
    pub(crate) inner: frost_dalek::GroupKey,
}

impl View for GroupPublicKey {
    type V = Seq<u8>;

    closed spec fn view(&self) -> Seq<u8> {
        self.bytes@
    }
}

impl GroupPublicKey {
    /// The canonical 32-byte encoding of the key.
    pub fn to_bytes(&self) -> (r: Vec<u8>)
        ensures
            r@ == self@,
    {
        let mut out: Vec<u8> = Vec::new();
        let mut i: usize = 0;
        while i < self.bytes.len()
            invariant
                i <= self.bytes@.len(),
                out@ == self.bytes@.subrange(0, i as int),
            decreases self.bytes@.len() - i,
        {
            out.push(self.bytes[i]);
            proof {
                assert(out@ =~= self.bytes@.subrange(0, i + 1));
            }
            i += 1;
        }
        proof {
            assert(out@ =~= self.bytes@);
        }
        out
    }
}

/// One participant's long-lived signing share of the group key.  Its view is
/// the participant index it belongs to; only [`finish_keygen`] builds one.
pub struct IndividualSecretKey {
    pub(crate) index: u32,
    pub(crate) inner: frost_dalek::keygen::SecretKey,
}

impl View for IndividualSecretKey {
    type V = u32;

    closed spec fn view(&self) -> u32 {
        self.index
    }
}

impl IndividualSecretKey {
    /// The participant index this key belongs to.
    pub fn index(&self) -> (r: u32)
        ensures
            r == self@,
    {
        self.index
    }
}

/// The public half of an [`IndividualSecretKey`]: a plain pair of an index
/// and a verification share.
pub struct IndividualPublicKey {
    /// The participant index this key belongs to.
    pub index: u32,
    /// The public verification share.
    pub share: RistrettoPoint,
}

/// Whether `v` is the index of one of `peers` whose proof of knowledge
/// fails.
pub open spec fn names_an_offender(peers: Seq<ParticipantRecord>, v: u32) -> bool {
    exists|i: int|
        0 <= i < peers.len() && peers[i]@.index == v && !crypto::proof_verifies(peers[i])
}

/// Create a new participant for the distributed key generation.
///
/// Returns the broadcastable public record and the private coefficients that
/// must be retained for round one.
pub fn create_participant(params: Params, own_index: u32) -> (r: (ParticipantRecord, SecretCoefficients))
    requires
        params.valid(),
        1 <= own_index <= params.n,
    ensures
        r.0@.index == own_index,
        r.0@.commitment_count == params.t,
        crypto::proof_verifies(r.0),
{
    crypto::new_participant(params.n, params.t, own_index)
}

/// Check a peer's proof of knowledge of its secret key against the peer's own
/// claimed index and commitments.  Every peer record must pass this check
/// before being admitted into a key generation session.
pub fn verify_participant(p: &ParticipantRecord) -> (r: Result<(), ProtocolError>)
    ensures
        r is Ok <==> crypto::proof_verifies(*p),
        r is Err ==> r == Err::<(), ProtocolError>(ProtocolError::InvalidProof),
{
    if crypto::check_participant(p) {
        Ok(())
    } else {
        Err(ProtocolError::InvalidProof)
    }
}

/// Enter round one of the key generation: admit every peer whose proof of
/// knowledge verifies, and derive this participant's outgoing secret share
/// for each peer.  The secret coefficients are consumed (and zeroed) here.
///
/// Every offending peer is named in the error, not just the first one found,
/// so that the caller can exclude them all and retry; an empty offender list
/// reports a peer count other than `n - 1`.
pub fn begin_round_one(
    params: Params,
    my_index: u32,
    my_coefficients: SecretCoefficients,
    peers: &Vec<ParticipantRecord>,
) -> (r: Result<(DkgRoundOne, Vec<ShareRecord>), ProtocolError>)
    ensures
        r is Ok <==> peers@.len() + 1 == params.n && (forall|i: int|
            0 <= i < peers@.len() ==> #[trigger] crypto::proof_verifies(peers@[i])),
        r matches Err(e) ==> e matches ProtocolError::MisbehavingParticipants(l)
            && (l@.len() == 0 ==> peers@.len() + 1 != params.n) && (forall|k: int|
            0 <= k < l@.len() ==> names_an_offender(peers@, l@[k])) && (peers@.len() + 1
            == params.n ==> forall|i: int|
            0 <= i < peers@.len() && !(#[trigger] crypto::proof_verifies(peers@[i]))
                ==> l@.contains(peers@[i]@.index)),
        r matches Ok(p) ==> p.0@.params == params && p.0@.my_index == my_index && p.1@.len()
            == peers@.len() && forall|i: int|
            0 <= i < peers@.len() ==> p.1@[i]@ == peers@[i]@.index,
{
    if params.n == 0 || peers.len() != (params.n - 1) as usize {
        return Err(ProtocolError::MisbehavingParticipants(Vec::new()));
    }
    let mut misbehaving: Vec<u32> = Vec::new();
    let mut j: usize = 0;
    while j < peers.len()
        invariant
            j <= peers@.len(),
            forall|k: int| 0 <= k < misbehaving@.len() ==> names_an_offender(
                peers@,
                misbehaving@[k],
            ),
            forall|i: int|
                0 <= i < j && !(#[trigger] crypto::proof_verifies(peers@[i]))
                    ==> misbehaving@.contains(peers@[i]@.index),
        decreases peers@.len() - j,
    {
        let ghost seen = misbehaving@;
        if !crypto::check_participant(&peers[j]) {
            proof {
                let idx = peers@[j as int]@.index;
                assert(names_an_offender(peers@, idx));
            }
            misbehaving.push(peers[j].index);
            proof {
                assert(misbehaving@[seen.len() as int] == peers@[j as int]@.index);
                assert forall|i: int|
                    0 <= i < j + 1 && !(#[trigger] crypto::proof_verifies(peers@[i])) implies
                    misbehaving@.contains(peers@[i]@.index) by {
                    if i < j {
                        let w = choose|w: int|
                            0 <= w < seen.len() && seen[w] == peers@[i]@.index;
                        assert(misbehaving@[w] == peers@[i]@.index);
                    } else {
                        assert(misbehaving@[seen.len() as int] == peers@[i]@.index);
                    }
                }
            }
        }
        j += 1;
    }
    if misbehaving.len() > 0 {
        proof {
            assert(names_an_offender(peers@, misbehaving@[0]));
        }
        return Err(ProtocolError::MisbehavingParticipants(misbehaving));
    }
    proof {
        assert forall|i: int| 0 <= i < peers@.len() implies #[trigger] crypto::proof_verifies(
            peers@[i],
        ) by {
            if !crypto::proof_verifies(peers@[i]) {
                assert(misbehaving@.contains(peers@[i]@.index));
            }
        }
    }
    match crypto::dkg_round_one(params, my_index, &my_coefficients, peers) {
        Ok(p) => Ok(p),
        Err(bad) => Err(ProtocolError::MisbehavingParticipants(bad)),
    }
}

/// Advance to round two with the shares received from the other
/// participants.  Fails with `IncompleteShares` exactly when fewer or more
/// than `n - 1` shares are supplied, and otherwise succeeds exactly when the
/// supplied shares pass the consistency check — which the underlying
/// library applies only as far as it matches shares to commitments; received
/// shares carry no sender identity, so no sender can be named.
pub fn advance_to_round_two(state: DkgRoundOne, my_shares: Vec<ShareRecord>) -> (r: Result<
    DkgRoundTwo,
    ProtocolError,
>)
    ensures
        r is Ok <==> my_shares@.len() + 1 == state@.params.n && crypto::shares_accepted(
            state,
            my_shares@,
        ),
        r == Err::<DkgRoundTwo, ProtocolError>(ProtocolError::IncompleteShares) <==> my_shares@.len()
            + 1 != state@.params.n,
        r matches Ok(st) ==> st@ == state@,
        r matches Err(e) ==> e is IncompleteShares || e is ShareVerificationFailed,
{
    if state.params.n == 0 || my_shares.len() != (state.params.n - 1) as usize {
        return Err(ProtocolError::IncompleteShares);
    }
    match crypto::dkg_to_round_two(state, my_shares) {
        Ok(st) => Ok(st),
        Err(()) => Err(ProtocolError::ShareVerificationFailed),
    }
}

/// Finish the key generation: sum the verified shares (including the
/// self-share) into this participant's signing key, and sum all constant-term
/// commitments into the group public key.  The round-two state is consumed;
/// no further transition is possible on it.  For a record that carries at
/// least one commitment this always succeeds.
pub fn finish_keygen(state: DkgRoundTwo, me: &ParticipantRecord) -> (r: Result<
    (GroupPublicKey, IndividualSecretKey),
    ProtocolError,
>)
    requires
        me@.commitment_count >= 1,
    ensures
        r is Ok,
        r matches Ok(p) ==> p.0@.len() == 32 && p.1@ == state@.my_index,
{
    match crypto::dkg_finish(state, me) {
        Ok(p) => Ok(p),
        Err(()) => Err(ProtocolError::IncompleteShares),
    }
}

/// Derive the public verification share of a signing key.
pub fn derive_public_key(sk: &IndividualSecretKey) -> (r: IndividualPublicKey)
    ensures
        r.index == sk@,
{
    crypto::derive_public_key(sk)
}

/// Decode a group public key from its canonical 32-byte encoding.  Succeeds
/// exactly on the canonical encodings of group elements, and the decoded
/// key re-encodes to the same bytes.
pub fn group_key_from_bytes(bytes: &Vec<u8>) -> (r: Option<GroupPublicKey>)
    ensures
        r is Some <==> bytes@.len() == 32 && crypto::group_key_decodable(bytes@),
        r matches Some(k) ==> k@ == bytes@,
{
    if bytes.len() != 32 {
        return None;
    }
    crypto::decode_group_key(bytes)
}

} // verus!
