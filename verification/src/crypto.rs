//! The trusted boundary towards `frost_dalek` and `curve25519_dalek`.
//!
//! Every item in this module either declares an outside type so that it can
//! stand in signatures and fields, names the value an outside computation
//! returns, or wraps a single protocol step of the outside library in a
//! function whose contract states what that library's source shows.

use vstd::prelude::*;

use curve25519_dalek::ristretto::RistrettoPoint;

use crate::keygen::{
    names_an_offender, DkgRoundOne, DkgRoundTwo, GroupPublicKey, IndividualPublicKey,
    IndividualSecretKey, Params, ParticipantRecord, SecretCoefficients, ShareRecord,
};
use crate::signing::{
    contains_index, distinct_signer_indices, PartialSignature, PublicCommitmentList, SignerEntry,
};

verus! {

// ---------------------------------------------------------------------------
// Outside types, declared so that they can be carried opaquely.
// ---------------------------------------------------------------------------

#[verifier::external_type_specification]
#[verifier::external_body]
pub struct ExRistrettoPoint(curve25519_dalek::ristretto::RistrettoPoint);

#[verifier::external_type_specification]
#[verifier::external_body]
pub struct ExNizkOfSecretKey(frost_dalek::nizk::NizkOfSecretKey);

#[verifier::external_type_specification]
#[verifier::external_body]
pub struct ExParticipant(frost_dalek::Participant);

#[verifier::external_type_specification]
#[verifier::external_body]
pub struct ExCoefficients(frost_dalek::keygen::Coefficients);

#[verifier::external_type_specification]
#[verifier::external_body]
pub struct ExSecretShare(frost_dalek::keygen::SecretShare);

/// Holds the opaque round-one state of the outside key generation library;
/// the state type's own generics keep Verus from declaring it directly.
#[verifier::external_body]
pub struct RoundOneState {
    pub(crate) st: frost_dalek::DistributedKeyGeneration<frost_dalek::keygen::RoundOne>,
}

/// Holds the opaque round-two state of the outside key generation library.
#[verifier::external_body]
pub struct RoundTwoState {
    pub(crate) st: frost_dalek::DistributedKeyGeneration<frost_dalek::keygen::RoundTwo>,
}

#[verifier::external_type_specification]
#[verifier::external_body]
pub struct ExGroupKey(frost_dalek::GroupKey);

#[verifier::external_type_specification]
#[verifier::external_body]
pub struct ExSecretKey(frost_dalek::keygen::SecretKey);

#[verifier::external_type_specification]
#[verifier::external_body]
pub struct ExSecretCommitmentShareList(frost_dalek::precomputation::SecretCommitmentShareList);

#[verifier::external_type_specification]
#[verifier::external_body]
pub struct ExPartialThresholdSignature(frost_dalek::signature::PartialThresholdSignature);

/// Holds the opaque collecting-stage state of the outside signature
/// aggregator; the aggregator type's own generics keep Verus from declaring
/// it directly.  It borrows the context and message it was opened over.
#[verifier::external_body]
pub struct InitialAggregator<'a> {
    pub(crate) st: frost_dalek::SignatureAggregator<frost_dalek::signature::Initial<'a>>,
}

/// Holds the opaque finalized state of the outside signature aggregator.
#[verifier::external_body]
pub struct FinalizedFrostAggregator {
    pub(crate) st: frost_dalek::SignatureAggregator<frost_dalek::signature::Finalized>,
}

// ---------------------------------------------------------------------------
// Names for what outside computations return.
// ---------------------------------------------------------------------------

/// The 64-byte hash that `frost_dalek::compute_message_hash` derives from a
/// context string and a message; a function of the two byte strings alone.
pub uninterp spec fn digest_of(context: Seq<u8>, message: Seq<u8>) -> Seq<u8>;

/// Whether `frost_dalek::signature::ThresholdSignature::verify` accepts the
/// 64-byte signature for the group key with the given canonical encoding and
/// the given 64-byte message hash; a function of the three byte strings
/// alone.
pub uninterp spec fn schnorr_verifies(
    group_key: Seq<u8>,
    message_hash: Seq<u8>,
    signature: Seq<u8>,
) -> bool;

/// Whether `frost_dalek::GroupKey::from_bytes` accepts the 32 bytes as the
/// canonical encoding of a group element; a function of the bytes alone.
pub uninterp spec fn group_key_decodable(bytes: Seq<u8>) -> bool;

/// Whether the record carries at least one commitment and its proof of
/// knowledge verifies, via `NizkOfSecretKey::verify`, against the record's
/// own index and first commitment; deterministic in the record.
pub uninterp spec fn proof_verifies(p: ParticipantRecord) -> bool;

/// Whether `DistributedKeyGeneration::<RoundOne>::to_round_two` accepts the
/// given shares against the state's stored commitments, as far as the
/// library matches them up; deterministic in the state and the shares.
pub uninterp spec fn shares_accepted(state: DkgRoundOne, shares: Seq<ShareRecord>) -> bool;

/// Whether every partial signature the finalized aggregator holds verifies
/// against its signer's public key, binding factor and the fixed message
/// hash; deterministic in the aggregator's state.
pub uninterp spec fn partials_valid(aggregator: FinalizedFrostAggregator) -> bool;

/// The indices of the signers a collecting aggregator has registered so
/// far: those whose commitment share pair and public key are on file.
pub uninterp spec fn registered_signers(aggregator: InitialAggregator) -> Set<u32>;

/// The indices whose partial signatures a collecting aggregator holds.
pub uninterp spec fn registered_partials(aggregator: InitialAggregator) -> Set<u32>;

/// How many one-time commitment shares the list still holds.
pub uninterp spec fn unused_count(
    list: frost_dalek::precomputation::SecretCommitmentShareList,
) -> nat;

// ---------------------------------------------------------------------------
// Wrappers around the identity and commitment layer.
// ---------------------------------------------------------------------------

/// Relies on `frost_dalek::Participant::new`: it returns a participant record
/// carrying the given index together with `t` polynomial commitments, and the
/// matching secret coefficients.  The freshly generated Schnorr proof is a
/// valid proof of knowledge for that index and first commitment, so the
/// record verifies.
#[verifier::external_body]
pub(crate) fn new_participant(n: u32, t: u32, index: u32) -> (r: (ParticipantRecord, SecretCoefficients))
    requires
        1 <= t,
    ensures
        r.0@.index == index,
        r.0@.commitment_count == t,
        proof_verifies(r.0),
{
    let params = frost_dalek::Parameters { n, t };
    let (p, coeff) = frost_dalek::Participant::new(&params, index);
    (
        ParticipantRecord { index: p.index, commitment_count: t, inner: p },
        SecretCoefficients { inner: coeff },
    )
}

/// Relies on `frost_dalek::Participant::public_key` and
/// `frost_dalek::nizk::NizkOfSecretKey::verify`: the result is `true` exactly
/// when the record carries at least one commitment and its proof of knowledge
/// verifies against the record's own index and first commitment.
#[verifier::external_body]
pub(crate) fn check_participant(p: &ParticipantRecord) -> (r: bool)
    ensures
        r == proof_verifies(*p),
{
    match p.inner.public_key() {
        Some(pk) => p.inner.proof_of_secret_key.verify(&p.inner.index, pk).is_ok(),
        None => false,
    }
}

/// Relies on `frost_dalek::Participant`'s `commitments` field: the record's
/// commitment points, whose number the record's view carries.
#[verifier::external_body]
pub(crate) fn participant_commitments(p: &ParticipantRecord) -> (r: Vec<RistrettoPoint>)
    ensures
        r@.len() == p@.commitment_count,
{
    p.inner.commitments.clone()
}

/// Relies on `frost_dalek::Participant`'s `proof_of_secret_key` field.
#[verifier::external_body]
pub(crate) fn participant_proof(p: &ParticipantRecord) -> frost_dalek::nizk::NizkOfSecretKey {
    p.inner.proof_of_secret_key.clone()
}

/// Relies on the derived `Clone` of `frost_dalek::Participant`: an identical
/// copy of the record.
#[verifier::external_body]
pub(crate) fn clone_participant(p: &ParticipantRecord) -> (r: ParticipantRecord)
    ensures
        r@ == p@,
{
    ParticipantRecord {
        index: p.index,
        commitment_count: p.commitment_count,
        inner: p.inner.clone(),
    }
}

/// Relies on the derived `Clone` of `frost_dalek::keygen::SecretShare`: an
/// identical copy of the share.
#[verifier::external_body]
pub(crate) fn clone_share(s: &ShareRecord) -> (r: ShareRecord)
    ensures
        r@ == s@,
{
    ShareRecord { receiver_index: s.receiver_index, inner: s.inner.clone() }
}

/// Relies on `frost_dalek::Participant`'s public fields: rebuilds a record
/// from transmitted parts, binding the view to the claimed index and the
/// number of commitment points.
#[verifier::external_body]
pub(crate) fn assemble_participant(
    index: u32,
    commitments: Vec<RistrettoPoint>,
    proof: frost_dalek::nizk::NizkOfSecretKey,
) -> (r: ParticipantRecord)
    requires
        commitments@.len() <= u32::MAX,
    ensures
        r@.index == index,
        r@.commitment_count == commitments@.len(),
{
    let count = commitments.len() as u32;
    let inner = frost_dalek::Participant { index, commitments, proof_of_secret_key: proof };
    ParticipantRecord { index, commitment_count: count, inner }
}

// ---------------------------------------------------------------------------
// Wrappers around the key generation state machine.
// ---------------------------------------------------------------------------

/// Relies on `DistributedKeyGeneration::<RoundOne>::new` and
/// `their_secret_shares`: with fewer or more than `n - 1` peers it returns an
/// empty offender list; otherwise it runs the same proof check as
/// [`check_participant`] on every peer, succeeds exactly when all pass, and
/// on failure names exactly the peers whose proofs fail, by index.  On
/// success it evaluates the caller's polynomial once per peer, in the peers'
/// order.
#[verifier::external_body]
pub(crate) fn dkg_round_one(
    params: Params,
    my_index: u32,
    coefficients: &SecretCoefficients,
    peers: &Vec<ParticipantRecord>,
) -> (r: Result<(DkgRoundOne, Vec<ShareRecord>), Vec<u32>>)
    requires
        params.n >= 1,
    ensures
        r is Ok ==> peers@.len() + 1 == params.n && (forall|i: int|
            0 <= i < peers@.len() ==> #[trigger] proof_verifies(peers@[i])),
        r is Err ==> !(peers@.len() + 1 == params.n && (forall|i: int|
            0 <= i < peers@.len() ==> #[trigger] proof_verifies(peers@[i]))),
        r matches Err(l) ==> (peers@.len() + 1 != params.n ==> l@.len() == 0) && (forall|k: int|
            0 <= k < l@.len() ==> names_an_offender(peers@, l@[k])) && (peers@.len() + 1
            == params.n ==> forall|i: int|
            0 <= i < peers@.len() && !(#[trigger] proof_verifies(peers@[i]))
                ==> l@.contains(peers@[i]@.index)),
        r matches Ok(p) ==> p.0@.params == params && p.0@.my_index == my_index && p.1@.len()
            == peers@.len() && forall|i: int|
            0 <= i < peers@.len() ==> p.1@[i]@ == peers@[i]@.index,
{
    let fp = frost_dalek::Parameters { n: params.n, t: params.t };
    let mut inner: Vec<frost_dalek::Participant> = peers.iter().map(|x| x.inner.clone()).collect();
    match frost_dalek::DistributedKeyGeneration::new(&fp, &my_index, &coefficients.inner, &mut inner) {
        Ok(state) => {
            let shares = match state.their_secret_shares() {
                Ok(ss) => ss
                    .iter()
                    .map(|s| ShareRecord { receiver_index: s.index, inner: s.clone() })
                    .collect(),
                Err(()) => Vec::new(),
            };
            Ok((DkgRoundOne { params, my_index, inner: RoundOneState { st: state } }, shares))
        }
        Err(bad) => Err(bad),
    }
}

/// Relies on `DistributedKeyGeneration::<RoundOne>::to_round_two`: it
/// succeeds exactly when the share count is `n - 1` and the received shares
/// pass the library's consistency check against the stored commitments, and
/// then only moves the state forward.
#[verifier::external_body]
pub(crate) fn dkg_to_round_two(
    state: DkgRoundOne,
    my_shares: Vec<ShareRecord>,
) -> (r: Result<DkgRoundTwo, ()>)
    ensures
        r is Ok ==> my_shares@.len() + 1 == state@.params.n && shares_accepted(state, my_shares@),
        r is Err ==> my_shares@.len() + 1 != state@.params.n || !shares_accepted(state, my_shares@),
        r matches Ok(st) ==> st@ == state@,
{
    let inner_shares: Vec<frost_dalek::keygen::SecretShare> =
        my_shares.into_iter().map(|s| s.inner).collect();
    match state.inner.st.to_round_two(inner_shares) {
        Ok(st) => Ok(DkgRoundTwo {
            params: state.params,
            my_index: state.my_index,
            inner: RoundTwoState { st },
        }),
        Err(()) => Err(()),
    }
}

/// Relies on `Participant::public_key` and
/// `DistributedKeyGeneration::<RoundTwo>::finish`: the secret key is the sum
/// of the verified shares and carries the state's own index, and the group
/// key is the sum of all constant-term commitments, encoded canonically in
/// 32 bytes by `GroupKey::to_bytes`.  Success is owed: a record whose view
/// counts a commitment holds one, and for the round-two states this library
/// builds — the only ones that exist — the stored shares are present and
/// every admitted commitment list is non-empty, which rules out both of the
/// library's failure paths.
#[verifier::external_body]
pub(crate) fn dkg_finish(
    state: DkgRoundTwo,
    me: &ParticipantRecord,
) -> (r: Result<(GroupPublicKey, IndividualSecretKey), ()>)
    requires
        me@.commitment_count >= 1,
    ensures
        r is Ok,
        r matches Ok(p) ==> p.0@.len() == 32 && p.1@ == state@.my_index,
{
    let pk = match me.inner.public_key() {
        Some(k) => k,
        None => return Err(()),
    };
    let my_index = state.my_index;
    match state.inner.st.finish(pk) {
        Ok((gk, sk)) => Ok((
            GroupPublicKey { bytes: gk.to_bytes().to_vec(), inner: gk },
            IndividualSecretKey { index: my_index, inner: sk },
        )),
        Err(()) => Err(()),
    }
}

/// Relies on `SecretKey::to_public`: the public half keeps the key's index
/// and is the secret scalar times the basepoint.
#[verifier::external_body]
pub(crate) fn derive_public_key(sk: &IndividualSecretKey) -> (r: IndividualPublicKey)
    ensures
        r.index == sk@,
{
    let pk = sk.inner.to_public();
    IndividualPublicKey { index: sk.index, share: pk.share }
}

/// Relies on `GroupKey::from_bytes` and `GroupKey::to_bytes`: decoding
/// accepts exactly the canonical encodings, of which each group element has
/// one, so the decoded key re-encodes to the very same bytes.
#[verifier::external_body]
pub(crate) fn decode_group_key(bytes: &Vec<u8>) -> (r: Option<GroupPublicKey>)
    requires
        bytes@.len() == 32,
    ensures
        r is Some <==> group_key_decodable(bytes@),
        r matches Some(k) ==> k@ == bytes@,
{
    let mut arr = [0u8; 32];
    arr.copy_from_slice(bytes.as_slice());
    match frost_dalek::GroupKey::from_bytes(arr) {
        Ok(gk) => Some(GroupPublicKey { bytes: gk.to_bytes().to_vec(), inner: gk }),
        Err(()) => None,
    }
}

// ---------------------------------------------------------------------------
// Wrappers around the signing session.
// ---------------------------------------------------------------------------

/// Relies on `frost_dalek::generate_commitment_share_lists` with the
/// operating system's secure random number generator: it draws `count` fresh
/// nonce pairs and publishes one commitment point pair per nonce pair, in
/// order, under the given participant index.
#[verifier::external_body]
pub(crate) fn gen_commitment_shares(index: u32, count: usize) -> (r: (
    PublicCommitmentList,
    frost_dalek::precomputation::SecretCommitmentShareList,
))
    ensures
        r.0.participant_index == index,
        r.0.commitments@.len() == count,
        unused_count(r.1) == count,
{
    let (public_list, secret_list) =
        frost_dalek::generate_commitment_share_lists(&mut rand_core::OsRng, index, count);
    (
        PublicCommitmentList {
            participant_index: public_list.participant_index,
            commitments: public_list.commitments,
        },
        secret_list,
    )
}

/// Relies on `SecretCommitmentShareList`'s `commitments` field: the number of
/// shares the list still holds.
#[verifier::external_body]
pub(crate) fn commitment_share_count(
    list: &frost_dalek::precomputation::SecretCommitmentShareList,
) -> (r: usize)
    ensures
        r == unused_count(*list),
{
    list.commitments.len()
}

/// Relies on `frost_dalek::compute_message_hash`: a SHA-512 digest of the
/// context string followed by the message.
#[verifier::external_body]
pub(crate) fn message_digest(context: &Vec<u8>, message: &Vec<u8>) -> (r: Vec<u8>)
    ensures
        r@ == digest_of(context@, message@),
        r@.len() == 64,
{
    frost_dalek::compute_message_hash(context.as_slice(), message.as_slice()).to_vec()
}

/// Relies on `frost_dalek::keygen::SecretKey::sign`: with an empty share list
/// it refuses; otherwise it consumes exactly the first remaining commitment
/// share (removing and zeroing it), and succeeds whenever the signer stands,
/// once, among the given signers, returning a partial signature under the
/// signer's own index.  On failure the list is untouched.
#[verifier::external_body]
pub(crate) fn frost_sign(
    sk: &IndividualSecretKey,
    message_hash: &Vec<u8>,
    group_key: &GroupPublicKey,
    list: &mut frost_dalek::precomputation::SecretCommitmentShareList,
    signers: &Vec<SignerEntry>,
) -> (r: Result<PartialSignature, ()>)
    requires
        message_hash@.len() == 64,
    ensures
        r matches Ok(p) ==> p@ == sk@ && unused_count(*old(list)) > 0 && unused_count(
            *final(list),
        ) + 1 == unused_count(*old(list)),
        r is Err ==> *final(list) == *old(list),
        r is Err ==> !(unused_count(*old(list)) > 0 && distinct_signer_indices(signers@)
            && contains_index(signers@, sk@)),
{
    let mut arr = [0u8; 64];
    arr.copy_from_slice(message_hash.as_slice());
    let inner_signers: Vec<frost_dalek::signature::Signer> = signers
        .iter()
        .map(|s| frost_dalek::signature::Signer {
            participant_index: s.index,
            published_commitment_share: (s.hiding, s.binding),
        })
        .collect();
    match sk.inner.sign(&arr, &group_key.inner, list, 0, inner_signers.as_slice()) {
        Ok(ps) => Ok(PartialSignature { index: sk.index, inner: ps }),
        Err(_) => Err(()),
    }
}

/// Relies on `frost_dalek::SignatureAggregator::new`: opens a collecting
/// aggregator over the given parameters, group key, context and message,
/// with no signers and no partial signatures registered yet.
#[verifier::external_body]
pub(crate) fn agg_new<'a>(
    params: Params,
    group_key: &GroupPublicKey,
    context: &'a Vec<u8>,
    message: &'a Vec<u8>,
) -> (r: InitialAggregator<'a>)
    ensures
        registered_signers(r) == Set::<u32>::empty(),
        registered_partials(r) == Set::<u32>::empty(),
{
    let fp = frost_dalek::Parameters { n: params.n, t: params.t };
    InitialAggregator {
        st: frost_dalek::SignatureAggregator::new(
            fp,
            group_key.inner,
            context.as_slice(),
            message.as_slice(),
        ),
    }
}

/// Relies on `SignatureAggregator::include_signer`: registers the signer's
/// commitment share pair and public key under the entry's index.  The
/// library's index-consistency assertion cannot fire because the public key
/// is rebuilt here under that same index.
#[verifier::external_body]
pub(crate) fn agg_include_signer(aggregator: &mut InitialAggregator<'_>, signer: &SignerEntry)
    ensures
        registered_signers(*final(aggregator)) == registered_signers(*old(aggregator)).insert(
            signer.index,
        ),
        registered_partials(*final(aggregator)) == registered_partials(*old(aggregator)),
{
    aggregator.st.include_signer(
        signer.index,
        (signer.hiding, signer.binding),
        frost_dalek::IndividualPublicKey { index: signer.index, share: signer.public_share },
    );
}

/// Relies on `SignatureAggregator::include_partial_signature`: stores the
/// partial signature under its signer's index, overwriting an earlier one.
#[verifier::external_body]
pub(crate) fn agg_include_partial(
    aggregator: &mut InitialAggregator<'_>,
    partial: PartialSignature,
)
    ensures
        registered_partials(*final(aggregator)) == registered_partials(*old(aggregator)).insert(
            partial@,
        ),
        registered_signers(*final(aggregator)) == registered_signers(*old(aggregator)),
{
    aggregator.st.include_partial_signature(partial.inner);
}

/// Relies on `SignatureAggregator::finalize`: it fails exactly when some
/// registered signer still lacks a partial signature, and otherwise fixes
/// the signer set and the message hash.  Registration stores the public key
/// beside every signer, so no other failure path remains for the
/// aggregators this module builds — the only ones that exist.
#[verifier::external_body]
pub(crate) fn agg_finalize(aggregator: InitialAggregator<'_>) -> (r: Result<
    FinalizedFrostAggregator,
    (),
>)
    ensures
        r is Ok <==> registered_signers(aggregator).subset_of(registered_partials(aggregator)),
{
    match aggregator.st.finalize() {
        Ok(f) => Ok(FinalizedFrostAggregator { st: f }),
        Err(_) => Err(()),
    }
}

/// Relies on `SignatureAggregator::aggregate` and
/// `ThresholdSignature::to_bytes`: it succeeds exactly when every collected
/// partial signature verifies against its signer's public key, and then the
/// combined signature is serialized as the 32-byte commitment point followed
/// by the 32-byte response scalar.
#[verifier::external_body]
pub(crate) fn agg_aggregate(aggregator: &FinalizedFrostAggregator) -> (r: Result<Vec<u8>, ()>)
    ensures
        r is Ok <==> partials_valid(*aggregator),
        r matches Ok(s) ==> s@.len() == 64,
{
    match aggregator.st.aggregate() {
        Ok(sig) => Ok(sig.to_bytes().to_vec()),
        Err(_) => Err(()),
    }
}

/// Relies on `ThresholdSignature::from_bytes` and
/// `ThresholdSignature::verify`: whether the 64-byte signature decodes and
/// verifies for this group key and message hash.  The result depends only on
/// the signature bytes, the key's canonical encoding and the hash.
#[verifier::external_body]
pub(crate) fn threshold_verify(
    group_key: &GroupPublicKey,
    message_hash: &Vec<u8>,
    signature: &Vec<u8>,
) -> (r: bool)
    requires
        message_hash@.len() == 64,
        signature@.len() == 64,
    ensures
        r == schnorr_verifies(group_key@, message_hash@, signature@),
{
    let mut hash_arr = [0u8; 64];
    hash_arr.copy_from_slice(message_hash.as_slice());
    let mut sig_arr = [0u8; 64];
    sig_arr.copy_from_slice(signature.as_slice());
    match frost_dalek::signature::ThresholdSignature::from_bytes(sig_arr) {
        Ok(sig) => sig.verify(&group_key.inner, &hash_arr).is_ok(),
        Err(()) => false,
    }
}

} // verus!
