use vstd::prelude::*;

use curve25519_dalek::ristretto::RistrettoPoint;

use crate::crypto;
use crate::errors::ProtocolError;
use crate::keygen::{GroupPublicKey, IndividualPublicKey, IndividualSecretKey, Params};

verus! {

/// One registered signer of a signing session: its index, the commitment
/// point pair it published for this session, and its public key share.
pub struct SignerEntry {
    /// The signer's participant index.
    pub index: u32,
    /// The public half of the signer's hiding nonce.
    pub hiding: RistrettoPoint,
    /// The public half of the signer's binding nonce.
    pub binding: RistrettoPoint,
    /// The signer's public verification share.
    pub public_share: RistrettoPoint,
}

/// The public halves of a batch of one-time commitment shares, for broadcast.
pub struct PublicCommitmentList {
    /// The index of the participant that published the batch.
    pub participant_index: u32,
    /// One (hiding, binding) commitment point pair per nonce pair, in order.
    pub commitments: Vec<(RistrettoPoint, RistrettoPoint)>,
}

/// One signer's contribution to a threshold signature.  Its view is the
/// index of the signer that produced it; only [`compute_partial_signature`]
/// builds one, so the view is bound to the contribution inside.
pub struct PartialSignature {
    pub(crate) index: u32,
    pub(crate) inner: frost_dalek::signature::PartialThresholdSignature,
}

impl View for PartialSignature {
    type V = u32;

    closed spec fn view(&self) -> u32 {
        self.index
    }
}

impl PartialSignature {
    /// The index of the signer that produced this contribution.
    pub fn index(&self) -> (r: u32)
        ensures
            r == self@,
    {
        self.index
    }
}

/// Whether `v` is the index of one of the entries of `s`.
pub open spec fn contains_index(s: Seq<SignerEntry>, v: u32) -> bool {
    exists|i: int| 0 <= i < s.len() && s[i].index == v
}

/// Whether no two entries of `s` share an index.
pub open spec fn distinct_signer_indices(s: Seq<SignerEntry>) -> bool {
    forall|i: int, j: int| 0 <= i < j < s.len() ==> s[i].index != s[j].index
}

/// Whether the entries of `s` are in strictly ascending index order.
pub open spec fn sorted_by_index(s: Seq<SignerEntry>) -> bool {
    forall|i: int, j: int| 0 <= i < j < s.len() ==> s[i].index < s[j].index
}

/// Whether `e` is one of the entries of `s`.
pub open spec fn has_entry(s: Seq<SignerEntry>, e: SignerEntry) -> bool {
    exists|i: int| 0 <= i < s.len() && s[i] == e
}

/// Whether `s` holds a partial signature from signer `v`.
pub open spec fn has_partial_for(s: Seq<PartialSignature>, v: u32) -> bool {
    exists|i: int| 0 <= i < s.len() && s[i]@ == v
}

/// Whether `p` is one of the partial signatures of `s`.
pub open spec fn has_partial_entry(s: Seq<PartialSignature>, p: PartialSignature) -> bool {
    exists|i: int| 0 <= i < s.len() && s[i] == p
}

/// Whether no two partial signatures of `s` share a signer index.
pub open spec fn distinct_partial_indices(s: Seq<PartialSignature>) -> bool {
    forall|i: int, j: int| 0 <= i < j < s.len() ==> s[i]@ != s[j]@
}

/// Draw `count` fresh one-time nonce pairs for the given participant.
/// Returns the public commitment point pairs for broadcast, and the secret
/// list for local signing use only.  Every pair must be consumed at most
/// once: each call to [`compute_partial_signature`] takes one pair out.
pub fn generate_commitment_shares(own_index: u32, count: usize) -> (r: (
    PublicCommitmentList,
    frost_dalek::precomputation::SecretCommitmentShareList,
))
    ensures
        r.0.participant_index == own_index,
        r.0.commitments@.len() == count,
        crypto::unused_count(r.1) == count,
{
    crypto::gen_commitment_shares(own_index, count)
}

/// How many one-time commitment shares the list still holds.
pub fn remaining_commitment_shares(
    list: &frost_dalek::precomputation::SecretCommitmentShareList,
) -> (r: usize)
    ensures
        r == crypto::unused_count(*list),
{
    crypto::commitment_share_count(list)
}

/// Produce this signer's partial signature over `message` for the fixed
/// signer set of a session.  Exactly one unused nonce pair is consumed from
/// `my_commitment_shares`; when none remains the call fails with
/// `NoUnusedCommitmentShares` and consumes nothing, so a pair can never be
/// used twice.
pub fn compute_partial_signature(
    sk: &IndividualSecretKey,
    group_key: &GroupPublicKey,
    context: &Vec<u8>,
    message: &Vec<u8>,
    my_commitment_shares: &mut frost_dalek::precomputation::SecretCommitmentShareList,
    signers: &Vec<SignerEntry>,
) -> (r: Result<PartialSignature, ProtocolError>)
    requires
        distinct_signer_indices(signers@),
        contains_index(signers@, sk@),
    ensures
        r is Err <==> crypto::unused_count(*old(my_commitment_shares)) == 0,
        r matches Err(e) ==> e is NoUnusedCommitmentShares && *final(my_commitment_shares)
            == *old(my_commitment_shares),
        r matches Ok(p) ==> p@ == sk@ && crypto::unused_count(
            *final(my_commitment_shares),
        ) + 1 == crypto::unused_count(*old(my_commitment_shares)),
{
    if crypto::commitment_share_count(my_commitment_shares) == 0 {
        return Err(ProtocolError::NoUnusedCommitmentShares);
    }
    let digest = crypto::message_digest(context, message);
    match crypto::frost_sign(sk, &digest, group_key, my_commitment_shares, signers) {
        Ok(p) => Ok(p),
        Err(()) => Err(ProtocolError::NoUnusedCommitmentShares),
    }
}

/// A signing session collecting signers and their partial signatures.
///
/// The session keeps its registered signers sorted by index with one entry
/// per index, the last registration winning, so the state it reaches does
/// not depend on the order in which signers were included.
pub struct SigningAggregator {
    /// The session configuration.
    pub params: Params,
    /// The group key the final signature must verify under.
    pub group_key: GroupPublicKey,
    /// The context string bound into the message hash.
    pub context: Vec<u8>,
    /// The message being signed.
    pub message: Vec<u8>,
    /// The registered signers, sorted by index, one entry per index.
    pub signers: Vec<SignerEntry>,
    /// The collected partial signatures, one per signer index.
    pub partials: Vec<PartialSignature>,
}

/// A signing session whose signer set has been fixed and found large enough.
pub struct FinalizedAggregator {
    /// The session configuration.
    pub params: Params,
    /// The group key the final signature must verify under.
    pub group_key: GroupPublicKey,
    /// The context string bound into the message hash.
    pub context: Vec<u8>,
    /// The message being signed.
    pub message: Vec<u8>,
    /// The fixed signer set, sorted by index, one entry per index.
    pub signers: Vec<SignerEntry>,
    /// The collected partial signatures, one per signer index.
    pub partials: Vec<PartialSignature>,
}

impl SigningAggregator {
    /// The session's bookkeeping invariant.
    pub open spec fn wf(self) -> bool {
        sorted_by_index(self.signers@) && distinct_partial_indices(self.partials@)
    }

    /// Open a signing session for `message` under `group_key`.
    pub fn new(params: Params, group_key: GroupPublicKey, context: Vec<u8>, message: Vec<u8>) -> (r:
        SigningAggregator)
        ensures
            r.wf(),
            r.params == params,
            r.group_key == group_key,
            r.context == context,
            r.message == message,
            r.signers@.len() == 0,
            r.partials@.len() == 0,
    {
        SigningAggregator {
            params,
            group_key,
            context,
            message,
            signers: Vec::new(),
            partials: Vec::new(),
        }
    }

    /// Register a signer's session commitment pair and public key.  May be
    /// called any number of times before finalization; for a given index the
    /// last registration wins.  The caller must not register conflicting
    /// data under one index: the public key must carry the signer's index.
    pub fn include_signer(
        &mut self,
        index: u32,
        commitment_share: (RistrettoPoint, RistrettoPoint),
        public_key: IndividualPublicKey,
    )
        requires
            old(self).wf(),
            public_key.index == index,
        ensures
            final(self).wf(),
            final(self).params == old(self).params,
            final(self).group_key == old(self).group_key,
            final(self).context == old(self).context,
            final(self).message == old(self).message,
            final(self).partials == old(self).partials,
            forall|e: SignerEntry| #[trigger] has_entry(final(self).signers@, e) <==> ((has_entry(
                old(self).signers@,
                e,
            ) && e.index != index) || e == (SignerEntry {
                index,
                hiding: commitment_share.0,
                binding: commitment_share.1,
                public_share: public_key.share,
            })),
    {
        let entry = SignerEntry {
            index,
            hiding: commitment_share.0,
            binding: commitment_share.1,
            public_share: public_key.share,
        };
        let ghost e0 = entry;
        let mut pos: usize = 0;
        while pos < self.signers.len() && self.signers[pos].index < index
            invariant
                pos <= self.signers@.len(),
                forall|i: int| 0 <= i < pos ==> self.signers@[i].index < index,
                *self == *old(self),
            decreases self.signers@.len() - pos,
        {
            pos += 1;
        }
        if pos < self.signers.len() && self.signers[pos].index == index {
            self.signers[pos] = entry;
            proof {
                lemma_upsert_replace(old(self).signers@, self.signers@, pos as int, e0);
            }
        } else {
            self.signers.insert(pos, entry);
            proof {
                lemma_upsert_insert(old(self).signers@, self.signers@, pos as int, e0);
            }
        }
    }

    /// Collect a signer's partial signature.  For a given signer index the
    /// last contribution wins: the stored contribution for that index is the
    /// one just supplied, and every other contribution is untouched.
    pub fn include_partial_signature(&mut self, partial: PartialSignature)
        requires
            old(self).wf(),
        ensures
            final(self).wf(),
            final(self).params == old(self).params,
            final(self).group_key == old(self).group_key,
            final(self).context == old(self).context,
            final(self).message == old(self).message,
            final(self).signers == old(self).signers,
            forall|x: PartialSignature| #[trigger] has_partial_entry(final(self).partials@, x)
                <==> ((has_partial_entry(old(self).partials@, x) && x@ != partial@) || x
                == partial),
            forall|v: u32| #[trigger] has_partial_for(final(self).partials@, v) <==> (
            has_partial_for(old(self).partials@, v) || v == partial@),
    {
        let ghost p0 = partial;
        let mut pos: usize = 0;
        while pos < self.partials.len() && self.partials[pos].index != partial.index
            invariant
                pos <= self.partials@.len(),
                forall|i: int| 0 <= i < pos ==> self.partials@[i]@ != p0@,
                partial == p0,
                *self == *old(self),
            decreases self.partials@.len() - pos,
        {
            pos += 1;
        }
        if pos < self.partials.len() {
            proof {
                assert(old(self).partials@[pos as int]@ == p0@);
            }
            self.partials[pos] = partial;
            proof {
                assert forall|x: PartialSignature| #[trigger] has_partial_entry(self.partials@, x)
                    implies ((has_partial_entry(old(self).partials@, x) && x@ != p0@) || x == p0)
                    by {
                    let i = choose|i: int|
                        0 <= i < self.partials@.len() && self.partials@[i] == x;
                    if i != pos {
                        assert(old(self).partials@[i] == x);
                        if i < pos {
                            assert(old(self).partials@[i]@ != p0@);
                        } else {
                            assert(old(self).partials@[pos as int]@ != old(self).partials@[i]@);
                        }
                    }
                }
                assert forall|x: PartialSignature| ((has_partial_entry(old(self).partials@, x)
                    && x@ != p0@) || x == p0) implies #[trigger] has_partial_entry(
                    self.partials@,
                    x,
                ) by {
                    if x == p0 {
                        assert(self.partials@[pos as int] == x);
                    } else {
                        let i = choose|i: int|
                            0 <= i < old(self).partials@.len() && old(self).partials@[i] == x;
                        assert(i != pos);
                        assert(self.partials@[i] == x);
                    }
                }
                assert forall|v: u32| #[trigger] has_partial_for(self.partials@, v) implies (
                has_partial_for(old(self).partials@, v) || v == p0@) by {
                    let i = choose|i: int| 0 <= i < self.partials@.len() && self.partials@[i]@ == v;
                    if i != pos {
                        assert(old(self).partials@[i]@ == v);
                    }
                }
                assert forall|v: u32| (has_partial_for(old(self).partials@, v) || v == p0@)
                    implies #[trigger] has_partial_for(self.partials@, v) by {
                    if v == p0@ {
                        assert(self.partials@[pos as int]@ == v);
                    } else {
                        let i = choose|i: int|
                            0 <= i < old(self).partials@.len() && old(self).partials@[i]@ == v;
                        assert(self.partials@[i]@ == v);
                    }
                }
            }
        } else {
            self.partials.push(partial);
            proof {
                let ghost n0 = old(self).partials@.len() as int;
                assert(self.partials@[n0] == p0);
                assert forall|x: PartialSignature| #[trigger] has_partial_entry(self.partials@, x)
                    implies ((has_partial_entry(old(self).partials@, x) && x@ != p0@) || x == p0)
                    by {
                    let i = choose|i: int|
                        0 <= i < self.partials@.len() && self.partials@[i] == x;
                    if i < n0 {
                        assert(old(self).partials@[i] == x);
                        assert(old(self).partials@[i]@ != p0@);
                    }
                }
                assert forall|x: PartialSignature| ((has_partial_entry(old(self).partials@, x)
                    && x@ != p0@) || x == p0) implies #[trigger] has_partial_entry(
                    self.partials@,
                    x,
                ) by {
                    if x == p0 {
                        assert(self.partials@[n0] == x);
                    } else {
                        let i = choose|i: int|
                            0 <= i < old(self).partials@.len() && old(self).partials@[i] == x;
                        assert(self.partials@[i] == x);
                    }
                }
                assert forall|v: u32| #[trigger] has_partial_for(self.partials@, v) implies (
                has_partial_for(old(self).partials@, v) || v == p0@) by {
                    let i = choose|i: int| 0 <= i < self.partials@.len() && self.partials@[i]@ == v;
                    if i < n0 {
                        assert(old(self).partials@[i]@ == v);
                    }
                }
                assert forall|v: u32| (has_partial_for(old(self).partials@, v) || v == p0@)
                    implies #[trigger] has_partial_for(self.partials@, v) by {
                    if v == p0@ {
                        assert(self.partials@[n0]@ == v);
                    } else {
                        let i = choose|i: int|
                            0 <= i < old(self).partials@.len() && old(self).partials@[i]@ == v;
                        assert(self.partials@[i]@ == v);
                    }
                }
            }
        }
    }

    /// How many distinct signers are registered.
    pub fn signer_count(&self) -> (r: usize)
        ensures
            r == self.signers@.len(),
    {
        self.signers.len()
    }

    /// The registered signers, sorted by index.
    pub fn signers(&self) -> (r: &Vec<SignerEntry>)
        ensures
            r@ == self.signers@,
    {
        &self.signers
    }

    /// Fix the signer set.  Fails with `InsufficientSigners` exactly when
    /// fewer signers are registered than the threshold `t` requires; the
    /// session is otherwise carried over unchanged, and each signer's
    /// binding factor is later derived from the full fixed set and message,
    /// which is what ties every contribution to this session.
    pub fn finalize(self) -> (r: Result<FinalizedAggregator, ProtocolError>)
        requires
            self.wf(),
        ensures
            r is Err <==> self.signers@.len() < self.params.t,
            r matches Err(e) ==> e is InsufficientSigners,
            r matches Ok(f) ==> f.params == self.params && f.group_key == self.group_key
                && f.context == self.context && f.message == self.message && f.signers
                == self.signers && f.partials == self.partials && f.wf(),
    {
        if (self.signers.len() as u64) < (self.params.t as u64) {
            return Err(ProtocolError::InsufficientSigners);
        }
        Ok(
            FinalizedAggregator {
                params: self.params,
                group_key: self.group_key,
                context: self.context,
                message: self.message,
                signers: self.signers,
                partials: self.partials,
            },
        )
    }
}

/// Whether `v` stands among the first `k` entries of `s`.
spec fn contains_index_upto(s: Seq<SignerEntry>, k: int, v: u32) -> bool {
    exists|q: int| 0 <= q < k && s[q].index == v
}

/// Whether `v` stands among the entries of `s` from position `k` on.
spec fn partial_index_from(s: Seq<PartialSignature>, k: int, v: u32) -> bool {
    exists|q: int| k <= q < s.len() && s[q]@ == v
}

/// Whether `partials` holds a contribution from signer `v`.
fn find_partial(partials: &Vec<PartialSignature>, v: u32) -> (r: bool)
    ensures
        r == has_partial_for(partials@, v),
{
    let mut i: usize = 0;
    while i < partials.len()
        invariant
            i <= partials@.len(),
            forall|q: int| 0 <= q < i ==> partials@[q]@ != v,
        decreases partials@.len() - i,
    {
        if partials[i].index == v {
            proof {
                assert(partials@[i as int]@ == v);
            }
            return true;
        }
        i += 1;
    }
    false
}

impl FinalizedAggregator {
    /// The session's bookkeeping invariant.
    pub open spec fn wf(self) -> bool {
        sorted_by_index(self.signers@) && distinct_partial_indices(self.partials@)
    }

    /// Combine the collected partial signatures into one 64-byte threshold
    /// signature: each signer's contribution is weighted by its Lagrange
    /// coefficient over the fixed signer set and the responses are summed
    /// next to the summed nonce commitments.  Fails with
    /// `MissingPartialSignature` exactly when some fixed signer never
    /// contributed, naming one such signer; once every signer has
    /// contributed, the outside aggregation succeeds exactly when every
    /// contribution verifies against its signer's public key (the iff stands
    /// on the aggregation wrapper), and `SignatureInvalid` reports the
    /// remaining case.
    pub fn aggregate(self) -> (r: Result<Vec<u8>, ProtocolError>)
        requires
            self.wf(),
        ensures
            (exists|k: int|
                0 <= k < self.signers@.len() && !has_partial_for(
                    self.partials@,
                    #[trigger] self.signers@[k].index,
                )) <==> (r matches Err(e) && e is MissingPartialSignature),
            r matches Err(e) ==> (e matches ProtocolError::MissingPartialSignature(v)
                ==> contains_index(self.signers@, v) && !has_partial_for(self.partials@, v)) && (
            e is MissingPartialSignature || e is SignatureInvalid) && (e is SignatureInvalid
                ==> forall|k: int|
                0 <= k < self.signers@.len() ==> has_partial_for(
                    self.partials@,
                    #[trigger] self.signers@[k].index,
                )),
            r matches Ok(s) ==> s@.len() == 64,
    {
        let mut k: usize = 0;
        while k < self.signers.len()
            invariant
                k <= self.signers@.len(),
                forall|q: int| 0 <= q < k ==> has_partial_for(
                    self.partials@,
                    #[trigger] self.signers@[q].index,
                ),
            decreases self.signers@.len() - k,
        {
            if !find_partial(&self.partials, self.signers[k].index) {
                proof {
                    assert(!has_partial_for(self.partials@, self.signers@[k as int].index));
                    assert(contains_index(self.signers@, self.signers@[k as int].index));
                }
                return Err(ProtocolError::MissingPartialSignature(self.signers[k].index));
            }
            k += 1;
        }
        let FinalizedAggregator { params, group_key, context, message, signers, partials } = self;
        let mut aggregator = crypto::agg_new(params, &group_key, &context, &message);
        let mut i: usize = 0;
        while i < signers.len()
            invariant
                i <= signers@.len(),
                crypto::registered_partials(aggregator) == Set::<u32>::empty(),
                forall|v: u32| #[trigger] crypto::registered_signers(aggregator).contains(v)
                    <==> contains_index_upto(signers@, i as int, v),
            decreases signers@.len() - i,
        {
            let ghost before = crypto::registered_signers(aggregator);
            crypto::agg_include_signer(&mut aggregator, &signers[i]);
            proof {
                let ghost after = crypto::registered_signers(aggregator);
                assert forall|v: u32| #[trigger] after.contains(v) implies contains_index_upto(
                    signers@,
                    i + 1,
                    v,
                ) by {
                    if v == signers@[i as int].index {
                        assert(signers@[i as int].index == v);
                    } else {
                        assert(before.contains(v));
                        let q = choose|q: int| 0 <= q < i && signers@[q].index == v;
                        assert(signers@[q].index == v);
                    }
                }
                assert forall|v: u32| contains_index_upto(signers@, i + 1, v) implies #[trigger]
                after.contains(v) by {
                    let q = choose|q: int| 0 <= q < i + 1 && signers@[q].index == v;
                    if q == i {
                    } else {
                        assert(contains_index_upto(signers@, i as int, v));
                    }
                }
            }
            i += 1;
        }
        let mut pending = partials;
        let ghost partials0 = pending@;
        proof {
            assert(pending@ =~= partials0.subrange(0, pending@.len() as int));
        }
        while pending.len() > 0
            invariant
                pending@.len() <= partials0.len(),
                pending@ == partials0.subrange(0, pending@.len() as int),
                forall|v: u32| #[trigger] crypto::registered_signers(aggregator).contains(v)
                    <==> contains_index(signers@, v),
                forall|v: u32| #[trigger] crypto::registered_partials(aggregator).contains(v)
                    <==> partial_index_from(partials0, pending@.len() as int, v),
            decreases pending@.len(),
        {
            let ghost k = pending@.len() as int;
            let ghost before = crypto::registered_partials(aggregator);
            match pending.pop() {
                Some(p) => {
                    proof {
                        assert(1 <= k <= partials0.len());
                        assert(p == partials0.subrange(0, k).last());
                        assert(p == partials0.subrange(0, k)[k - 1]);
                        assert(p == partials0[k - 1]);
                        assert(pending@ =~= partials0.subrange(0, k - 1));
                    }
                    crypto::agg_include_partial(&mut aggregator, p);
                    proof {
                        let ghost after = crypto::registered_partials(aggregator);
                        assert forall|v: u32| #[trigger] after.contains(v) implies
                            partial_index_from(partials0, k - 1, v) by {
                            if v == partials0[k - 1]@ {
                                assert(partials0[k - 1]@ == v);
                            } else {
                                assert(before.contains(v));
                                let q = choose|q: int|
                                    k <= q < partials0.len() && partials0[q]@ == v;
                                assert(partials0[q]@ == v);
                            }
                        }
                        assert forall|v: u32| partial_index_from(partials0, k - 1, v) implies
                            #[trigger] after.contains(v) by {
                            let q = choose|q: int|
                                k - 1 <= q < partials0.len() && partials0[q]@ == v;
                            if q == k - 1 {
                            } else {
                                assert(partial_index_from(partials0, k, v));
                            }
                        }
                    }
                },
                None => (),
            }
        }
        proof {
            assert forall|v: u32| crypto::registered_signers(aggregator).contains(v) implies
                #[trigger] crypto::registered_partials(aggregator).contains(v) by {
                assert(contains_index(signers@, v));
                let q = choose|q: int| 0 <= q < signers@.len() && signers@[q].index == v;
                assert(has_partial_for(partials0, signers@[q].index));
                let w = choose|w: int| 0 <= w < partials0.len() && partials0[w]@ == v;
                assert(partial_index_from(partials0, 0, v));
            }
            assert(crypto::registered_signers(aggregator).subset_of(
                crypto::registered_partials(aggregator),
            ));
        }
        let finalized = match crypto::agg_finalize(aggregator) {
            Ok(f) => f,
            Err(()) => {
                return Err(ProtocolError::SignatureInvalid);
            },
        };
        match crypto::agg_aggregate(&finalized) {
            Ok(signature) => Ok(signature),
            Err(()) => Err(ProtocolError::SignatureInvalid),
        }
    }
}

/// Check a 64-byte threshold signature over `message` (hashed together with
/// `context`) against the group public key.  Succeeds exactly when the
/// outside verifier accepts the signature; the error is `SignatureInvalid`
/// and retrying with the same inputs cannot succeed.
pub fn verify_signature(
    group_key: &GroupPublicKey,
    context: &Vec<u8>,
    message: &Vec<u8>,
    signature: &Vec<u8>,
) -> (r: Result<(), ProtocolError>)
    ensures
        r is Ok <==> signature@.len() == 64 && crypto::schnorr_verifies(
            group_key@,
            crypto::digest_of(context@, message@),
            signature@,
        ),
        r matches Err(e) ==> e is SignatureInvalid,
{
    if signature.len() != 64 {
        return Err(ProtocolError::SignatureInvalid);
    }
    let digest = crypto::message_digest(context, message);
    if crypto::threshold_verify(group_key, &digest, signature) {
        Ok(())
    } else {
        Err(ProtocolError::SignatureInvalid)
    }
}

/// With the same signers registered — in whatever order the
/// `include_signer` calls were made — two sessions hold literally the same
/// signer sequence, so the aggregation pipeline receives identical input.
pub proof fn lemma_signer_order_independence(a: SigningAggregator, b: SigningAggregator)
    requires
        a.wf(),
        b.wf(),
        forall|e: SignerEntry| #[trigger] has_entry(a.signers@, e) <==> has_entry(b.signers@, e),
    ensures
        a.signers@ == b.signers@,
{
    lemma_sorted_same_entries(a.signers@, b.signers@);
}

/// Two sequences that are strictly sorted by index and hold the same entries
/// are equal.
proof fn lemma_sorted_same_entries(a: Seq<SignerEntry>, b: Seq<SignerEntry>)
    requires
        sorted_by_index(a),
        sorted_by_index(b),
        forall|e: SignerEntry| #[trigger] has_entry(a, e) <==> has_entry(b, e),
    ensures
        a == b,
    decreases a.len(),
{
    if a.len() == 0 {
        if b.len() > 0 {
            assert(has_entry(b, b[0]));
            assert(!has_entry(a, b[0]));
            assert(false);
        }
        assert(a =~= b);
    } else {
        let n = a.len() - 1;
        let m = b.len() - 1;
        assert(a.last() == a[n]);
        assert(has_entry(a, a[n]));
        let j = choose|j: int| 0 <= j < b.len() && b[j] == a[n];
        assert(b.len() > 0);
        assert(b.last() == b[m]);
        assert(has_entry(a, b[m])) by {
            assert(has_entry(b, b[m]));
        }
        let i = choose|i: int| 0 <= i < a.len() && a[i] == b[m];
        // The two last entries carry the two maximal indices, so they agree.
        assert(b[j].index <= b[m].index) by {
            if j < m {
                assert(b[j].index < b[m].index);
            }
        }
        assert(a[i].index <= a[n].index) by {
            if i < n {
                assert(a[i].index < a[n].index);
            }
        }
        assert(a[n].index == b[m].index);
        assert(j == m) by {
            if j < m {
                assert(b[j].index < b[m].index);
            }
        }
        assert(a.last() == b.last());
        let a1 = a.drop_last();
        let b1 = b.drop_last();
        assert forall|e: SignerEntry| #[trigger] has_entry(a1, e) implies has_entry(b1, e) by {
            let k = choose|k: int| 0 <= k < a1.len() && a1[k] == e;
            assert(a[k] == e);
            assert(a[k].index < a[n].index);
            assert(has_entry(a, e));
            let q = choose|q: int| 0 <= q < b.len() && b[q] == e;
            assert(q < m) by {
                if q == m {
                    assert(e == b[m]);
                }
            }
            assert(b1[q] == e);
        }
        assert forall|e: SignerEntry| #[trigger] has_entry(b1, e) implies has_entry(a1, e) by {
            let k = choose|k: int| 0 <= k < b1.len() && b1[k] == e;
            assert(b[k] == e);
            assert(b[k].index < b[m].index);
            assert(has_entry(b, e));
            assert(has_entry(a, e));
            let q = choose|q: int| 0 <= q < a.len() && a[q] == e;
            assert(q < n) by {
                if q == n {
                    assert(e == a[n]);
                }
            }
            assert(a1[q] == e);
        }
        lemma_sorted_same_entries(a1, b1);
        assert(a.len() == b.len());
        assert forall|idx: int| 0 <= idx < a.len() implies a[idx] == b[idx] by {
            if idx < n {
                assert(a1[idx] == b1[idx]);
                assert(a[idx] == a1[idx]);
                assert(b[idx] == b1[idx]);
            }
        }
        assert(a =~= b);
    }
}

/// After replacing the entry at `pos` (whose index equals `e.index`) in a
/// sorted sequence, the entries are the old ones at other indices plus `e`.
proof fn lemma_upsert_replace(s0: Seq<SignerEntry>, s1: Seq<SignerEntry>, pos: int, e: SignerEntry)
    requires
        sorted_by_index(s0),
        0 <= pos < s0.len(),
        s0[pos].index == e.index,
        s1 == s0.update(pos, e),
    ensures
        sorted_by_index(s1),
        forall|x: SignerEntry| #[trigger] has_entry(s1, x) <==> ((has_entry(s0, x) && x.index
            != e.index) || x == e),
{
    assert forall|x: SignerEntry| #[trigger] has_entry(s1, x) implies ((has_entry(s0, x) && x.index
        != e.index) || x == e) by {
        let i = choose|i: int| 0 <= i < s1.len() && s1[i] == x;
        if i != pos {
            assert(s0[i] == x);
            assert(x.index != e.index) by {
                if i < pos {
                    assert(s0[i].index < s0[pos].index);
                } else {
                    assert(s0[pos].index < s0[i].index);
                }
            }
        }
    }
    assert forall|x: SignerEntry| ((has_entry(s0, x) && x.index != e.index) || x == e) implies
        #[trigger] has_entry(s1, x) by {
        if x == e {
            assert(s1[pos] == x);
        } else {
            let i = choose|i: int| 0 <= i < s0.len() && s0[i] == x;
            assert(i != pos);
            assert(s1[i] == x);
        }
    }
}

/// After inserting `e` at `pos` in a sorted sequence whose entries below
/// `pos` have smaller indices and from `pos` on have larger ones, the result
/// is sorted and holds the old entries plus `e`.
proof fn lemma_upsert_insert(s0: Seq<SignerEntry>, s1: Seq<SignerEntry>, pos: int, e: SignerEntry)
    requires
        sorted_by_index(s0),
        0 <= pos <= s0.len(),
        forall|i: int| 0 <= i < pos ==> s0[i].index < e.index,
        forall|i: int| pos <= i < s0.len() ==> s0[i].index > e.index,
        s1 == s0.insert(pos, e),
    ensures
        sorted_by_index(s1),
        forall|x: SignerEntry| #[trigger] has_entry(s1, x) <==> ((has_entry(s0, x) && x.index
            != e.index) || x == e),
{
    assert forall|i: int, j: int| 0 <= i < j < s1.len() implies s1[i].index < s1[j].index by {
        if i < pos && j < pos {
            assert(s1[i] == s0[i] && s1[j] == s0[j]);
        } else if i < pos && j == pos {
            assert(s1[i] == s0[i] && s1[j] == e);
        } else if i < pos && j > pos {
            assert(s1[i] == s0[i] && s1[j] == s0[j - 1]);
            assert(s0[i].index < e.index && e.index < s0[j - 1].index);
        } else if i == pos {
            assert(s1[i] == e && s1[j] == s0[j - 1]);
        } else {
            assert(s1[i] == s0[i - 1] && s1[j] == s0[j - 1]);
        }
    }
    assert forall|x: SignerEntry| #[trigger] has_entry(s1, x) implies ((has_entry(s0, x) && x.index
        != e.index) || x == e) by {
        let i = choose|i: int| 0 <= i < s1.len() && s1[i] == x;
        if i < pos {
            assert(s0[i] == x);
        } else if i > pos {
            assert(s0[i - 1] == x);
        }
    }
    assert forall|x: SignerEntry| ((has_entry(s0, x) && x.index != e.index) || x == e) implies
        #[trigger] has_entry(s1, x) by {
        if x == e {
            assert(s1[pos] == x);
        } else {
            let i = choose|i: int| 0 <= i < s0.len() && s0[i] == x;
            if i < pos {
                assert(s1[i] == x);
            } else {
                assert(s1[i + 1] == x);
            }
        }
    }
}

} // verus!
