use frost_threshold::errors::ProtocolError;
use frost_threshold::keygen::{
    advance_to_round_two, begin_round_one, create_participant, derive_public_key, finish_keygen,
    group_key_from_bytes, participant_from_broadcast, verify_participant, GroupPublicKey,
    IndividualSecretKey, Params, ShareRecord,
};
use frost_threshold::signing::{
    compute_partial_signature, generate_commitment_shares, remaining_commitment_shares,
    verify_signature, SignerEntry, SigningAggregator,
};

/// Run a full 2-of-3 key generation and hand back each participant's view of
/// the group key together with the three signing shares, indexed 1..=3.
fn run_dkg_2_of_3() -> (Vec<GroupPublicKey>, Vec<IndividualSecretKey>) {
    let params = Params { n: 3, t: 2 };
    let (p1, c1) = create_participant(params, 1);
    let (p2, c2) = create_participant(params, 2);
    let (p3, c3) = create_participant(params, 3);

    assert!(verify_participant(&p1).is_ok());
    assert!(verify_participant(&p2).is_ok());
    assert!(verify_participant(&p3).is_ok());

    let peers1 = vec![p2.duplicate(), p3.duplicate()];
    let peers2 = vec![p1.duplicate(), p3.duplicate()];
    let peers3 = vec![p1.duplicate(), p2.duplicate()];

    let (st1, out1) = begin_round_one(params, 1, c1, &peers1).unwrap();
    let (st2, out2) = begin_round_one(params, 2, c2, &peers2).unwrap();
    let (st3, out3) = begin_round_one(params, 3, c3, &peers3).unwrap();

    // Outgoing shares are in peer order and carry the receiver's index.
    assert_eq!(out1.len(), 2);
    assert_eq!(out1[0].receiver_index(), 2);
    assert_eq!(out1[1].receiver_index(), 3);

    let route = |me: u32, batches: [&Vec<ShareRecord>; 2]| -> Vec<ShareRecord> {
        let mut mine = Vec::new();
        for batch in batches {
            for s in batch.iter() {
                if s.receiver_index() == me {
                    mine.push(s.duplicate());
                }
            }
        }
        mine
    };

    let st1 = advance_to_round_two(st1, route(1, [&out2, &out3])).unwrap();
    let st2 = advance_to_round_two(st2, route(2, [&out1, &out3])).unwrap();
    let st3 = advance_to_round_two(st3, route(3, [&out1, &out2])).unwrap();

    let (gk1, sk1) = finish_keygen(st1, &p1).unwrap();
    let (gk2, sk2) = finish_keygen(st2, &p2).unwrap();
    let (gk3, sk3) = finish_keygen(st3, &p3).unwrap();

    assert_eq!(sk1.index(), 1);
    assert_eq!(sk2.index(), 2);
    assert_eq!(sk3.index(), 3);
    assert_eq!(gk1.to_bytes(), gk2.to_bytes());
    assert_eq!(gk2.to_bytes(), gk3.to_bytes());

    (vec![gk1, gk2, gk3], vec![sk1, sk2, sk3])
}

fn copy_entries(entries: &[SignerEntry]) -> Vec<SignerEntry> {
    entries
        .iter()
        .map(|s| SignerEntry {
            index: s.index,
            hiding: s.hiding,
            binding: s.binding,
            public_share: s.public_share,
        })
        .collect()
}

/// Sign `message` with the two given signers and return the signature.
fn sign_with_two(
    gks: &mut Vec<GroupPublicKey>,
    sks: &Vec<IndividualSecretKey>,
    a: usize,
    b: usize,
    context: &Vec<u8>,
    message: &Vec<u8>,
) -> Vec<u8> {
    let params = Params { n: 3, t: 2 };
    let sk_a = &sks[a - 1];
    let sk_b = &sks[b - 1];
    let (pub_a, mut sec_a) = generate_commitment_shares(sk_a.index(), 1);
    let (pub_b, mut sec_b) = generate_commitment_shares(sk_b.index(), 1);
    assert_eq!(pub_a.participant_index, sk_a.index());
    assert_eq!(remaining_commitment_shares(&sec_a), 1);

    let gk = gks.pop().unwrap();
    let gk_bytes = gk.to_bytes();
    let mut agg = SigningAggregator::new(params, gk, context.clone(), message.clone());
    agg.include_signer(sk_a.index(), pub_a.commitments[0], derive_public_key(sk_a));
    agg.include_signer(sk_b.index(), pub_b.commitments[0], derive_public_key(sk_b));
    let signers = copy_entries(agg.signers());

    let gk_again = group_key_from_bytes(&gk_bytes).unwrap();
    let partial_a =
        compute_partial_signature(sk_a, &gk_again, context, message, &mut sec_a, &signers)
            .unwrap();
    let partial_b =
        compute_partial_signature(sk_b, &gk_again, context, message, &mut sec_b, &signers)
            .unwrap();
    assert_eq!(partial_a.index(), sk_a.index());
    assert_eq!(remaining_commitment_shares(&sec_a), 0);

    agg.include_partial_signature(partial_a);
    agg.include_partial_signature(partial_b);
    let finalized = agg.finalize().unwrap();
    let signature = finalized.aggregate().unwrap();
    assert_eq!(signature.len(), 64);
    signature
}

#[test]
fn dkg_and_threshold_signing_2_of_3() {
    let (mut gks, sks) = run_dkg_2_of_3();
    let context = b"frost threshold test".to_vec();
    let message = b"hello".to_vec();

    let sig_12 = sign_with_two(&mut gks, &sks, 1, 2, &context, &message);
    let sig_13 = sign_with_two(&mut gks, &sks, 1, 3, &context, &message);
    assert_ne!(sig_12, sig_13);

    let gk = gks.pop().unwrap();
    assert!(verify_signature(&gk, &context, &message, &sig_12).is_ok());
    assert!(verify_signature(&gk, &context, &message, &sig_13).is_ok());
}

#[test]
fn single_signer_is_insufficient() {
    let (mut gks, sks) = run_dkg_2_of_3();
    let params = Params { n: 3, t: 2 };
    let context = b"frost threshold test".to_vec();
    let message = b"hello".to_vec();
    let sk1 = &sks[0];
    let (pub1, mut sec1) = generate_commitment_shares(1, 1);

    let gk = gks.pop().unwrap();
    let gk_bytes = gk.to_bytes();
    let mut agg = SigningAggregator::new(params, gk, context.clone(), message.clone());
    agg.include_signer(1, pub1.commitments[0], derive_public_key(sk1));
    let signers = copy_entries(agg.signers());

    let gk_again = group_key_from_bytes(&gk_bytes).unwrap();
    let partial =
        compute_partial_signature(sk1, &gk_again, &context, &message, &mut sec1, &signers)
            .unwrap();
    agg.include_partial_signature(partial);
    assert!(matches!(agg.finalize(), Err(ProtocolError::InsufficientSigners)));
}

#[test]
fn nonce_pair_cannot_be_consumed_twice() {
    let (mut gks, sks) = run_dkg_2_of_3();
    let params = Params { n: 3, t: 2 };
    let context = b"frost threshold test".to_vec();
    let message = b"hello".to_vec();
    let sk1 = &sks[0];
    let sk2 = &sks[1];
    let (pub1, mut sec1) = generate_commitment_shares(1, 1);
    let (pub2, _sec2) = generate_commitment_shares(2, 1);

    let gk = gks.pop().unwrap();
    let mut agg = SigningAggregator::new(params, gk, context.clone(), message.clone());
    agg.include_signer(1, pub1.commitments[0], derive_public_key(sk1));
    agg.include_signer(2, pub2.commitments[0], derive_public_key(sk2));
    let signers = copy_entries(agg.signers());

    let gk1 = gks.pop().unwrap();
    let first =
        compute_partial_signature(sk1, &gk1, &context, &message, &mut sec1, &signers);
    assert!(first.is_ok());
    assert_eq!(remaining_commitment_shares(&sec1), 0);

    let second =
        compute_partial_signature(sk1, &gk1, &context, &message, &mut sec1, &signers);
    assert!(matches!(second, Err(ProtocolError::NoUnusedCommitmentShares)));
}

#[test]
fn wrong_index_proof_is_rejected_and_named() {
    let params = Params { n: 3, t: 2 };
    let (p1, c1) = create_participant(params, 1);
    let (p2, _c2) = create_participant(params, 2);
    let (p3, _c3) = create_participant(params, 3);

    // A cheater claims index 3 but presents participant 2's commitments and
    // proof of knowledge.
    let cheater = participant_from_broadcast(3, p2.commitments(), p2.proof_of_secret_key());
    assert!(matches!(verify_participant(&cheater), Err(ProtocolError::InvalidProof)));
    assert!(verify_participant(&p3).is_ok());

    let peers = vec![cheater, p3.duplicate()];
    match begin_round_one(params, 1, c1, &peers) {
        Err(ProtocolError::MisbehavingParticipants(named)) => {
            assert_eq!(named, vec![3]);
        }
        _ => panic!("the cheater must be rejected and named"),
    }
    let _ = p1;
}

#[test]
fn all_offenders_are_named() {
    let params = Params { n: 3, t: 2 };
    let (_p1, c1) = create_participant(params, 1);
    let (p2, _c2) = create_participant(params, 2);
    let (p3, _c3) = create_participant(params, 3);

    // Both peers present someone else's commitments and proof under their
    // claimed indices, so both must be rejected, and both must be named.
    let cheater2 = participant_from_broadcast(2, p3.commitments(), p3.proof_of_secret_key());
    let cheater3 = participant_from_broadcast(3, p2.commitments(), p2.proof_of_secret_key());

    let peers = vec![cheater2, cheater3];
    match begin_round_one(params, 1, c1, &peers) {
        Err(ProtocolError::MisbehavingParticipants(named)) => {
            assert_eq!(named, vec![2, 3]);
        }
        _ => panic!("both cheaters must be rejected and named"),
    }
}

#[test]
fn wrong_peer_count_is_refused() {
    let params = Params { n: 3, t: 2 };
    let (_p1, c1) = create_participant(params, 1);
    let (p2, _c2) = create_participant(params, 2);

    let peers = vec![p2.duplicate()];
    match begin_round_one(params, 1, c1, &peers) {
        Err(ProtocolError::MisbehavingParticipants(named)) => assert!(named.is_empty()),
        _ => panic!("one peer is too few for n = 3"),
    }
}

#[test]
fn missing_shares_are_incomplete() {
    let params = Params { n: 3, t: 2 };
    let (p1, c1) = create_participant(params, 1);
    let (p2, c2) = create_participant(params, 2);
    let (p3, c3) = create_participant(params, 3);

    let peers1 = vec![p2.duplicate(), p3.duplicate()];
    let peers2 = vec![p1.duplicate(), p3.duplicate()];
    let (st1, _out1) = begin_round_one(params, 1, c1, &peers1).unwrap();
    let (_st2, out2) = begin_round_one(params, 2, c2, &peers2).unwrap();
    let _ = c3;

    // Participant 1 received only participant 2's share: one share short.
    let only_one = vec![out2[0].duplicate()];
    assert!(matches!(
        advance_to_round_two(st1, only_one),
        Err(ProtocolError::IncompleteShares)
    ));
}

#[test]
fn misrouted_shares_fail_verification() {
    let params = Params { n: 3, t: 2 };
    let (p1, c1) = create_participant(params, 1);
    let (p2, c2) = create_participant(params, 2);
    let (p3, c3) = create_participant(params, 3);

    let peers1 = vec![p2.duplicate(), p3.duplicate()];
    let peers2 = vec![p1.duplicate(), p3.duplicate()];
    let peers3 = vec![p1.duplicate(), p2.duplicate()];
    let (st1, _out1) = begin_round_one(params, 1, c1, &peers1).unwrap();
    let (_st2, out2) = begin_round_one(params, 2, c2, &peers2).unwrap();
    let (_st3, out3) = begin_round_one(params, 3, c3, &peers3).unwrap();

    // Participant 1 is handed the shares the others evaluated for each
    // other: right senders, wrong evaluation points.
    let wrong = vec![out2[1].duplicate(), out3[1].duplicate()];
    assert!(matches!(
        advance_to_round_two(st1, wrong),
        Err(ProtocolError::ShareVerificationFailed)
    ));
}

#[test]
fn missing_partial_signature_is_named() {
    let (mut gks, sks) = run_dkg_2_of_3();
    let params = Params { n: 3, t: 2 };
    let context = b"frost threshold test".to_vec();
    let message = b"hello".to_vec();
    let sk1 = &sks[0];
    let sk2 = &sks[1];
    let (pub1, mut sec1) = generate_commitment_shares(1, 1);
    let (pub2, _sec2) = generate_commitment_shares(2, 1);

    let gk = gks.pop().unwrap();
    let mut agg = SigningAggregator::new(params, gk, context.clone(), message.clone());
    agg.include_signer(1, pub1.commitments[0], derive_public_key(sk1));
    agg.include_signer(2, pub2.commitments[0], derive_public_key(sk2));
    let signers = copy_entries(agg.signers());

    let gk1 = gks.pop().unwrap();
    let partial1 =
        compute_partial_signature(sk1, &gk1, &context, &message, &mut sec1, &signers)
            .unwrap();
    agg.include_partial_signature(partial1);

    let finalized = agg.finalize().unwrap();
    assert!(matches!(
        finalized.aggregate(),
        Err(ProtocolError::MissingPartialSignature(2))
    ));
}

#[test]
fn include_signer_order_does_not_matter() {
    let (mut gks, sks) = run_dkg_2_of_3();
    let params = Params { n: 3, t: 2 };
    let context = b"frost threshold test".to_vec();
    let message = b"hello".to_vec();
    let sk1 = &sks[0];
    let sk2 = &sks[1];
    let (pub1, mut sec1) = generate_commitment_shares(1, 1);
    let (pub2, mut sec2) = generate_commitment_shares(2, 1);

    let mut agg_a =
        SigningAggregator::new(params, gks.pop().unwrap(), context.clone(), message.clone());
    agg_a.include_signer(1, pub1.commitments[0], derive_public_key(sk1));
    agg_a.include_signer(2, pub2.commitments[0], derive_public_key(sk2));

    let mut agg_b =
        SigningAggregator::new(params, gks.pop().unwrap(), context.clone(), message.clone());
    agg_b.include_signer(2, pub2.commitments[0], derive_public_key(sk2));
    agg_b.include_signer(1, pub1.commitments[0], derive_public_key(sk1));

    assert_eq!(agg_a.signer_count(), 2);
    assert_eq!(agg_b.signer_count(), 2);
    {
        let a = agg_a.signers();
        let b = agg_b.signers();
        assert_eq!(a.len(), b.len());
        for (x, y) in a.iter().zip(b.iter()) {
            assert_eq!(x.index, y.index);
            assert_eq!(x.hiding, y.hiding);
            assert_eq!(x.binding, y.binding);
            assert_eq!(x.public_share, y.public_share);
        }
    }

    // The reversed-order session signs and verifies like any other.
    let signers = copy_entries(agg_b.signers());
    let gk = gks.pop().unwrap();
    let partial1 =
        compute_partial_signature(sk1, &gk, &context, &message, &mut sec1, &signers).unwrap();
    let partial2 =
        compute_partial_signature(sk2, &gk, &context, &message, &mut sec2, &signers).unwrap();
    agg_b.include_partial_signature(partial1);
    agg_b.include_partial_signature(partial2);
    let signature = agg_b.finalize().unwrap().aggregate().unwrap();
    assert!(verify_signature(&gk, &context, &message, &signature).is_ok());
}

#[test]
fn include_signer_last_registration_wins() {
    let (mut gks, sks) = run_dkg_2_of_3();
    let params = Params { n: 3, t: 2 };
    let sk1 = &sks[0];
    let (pub_first, _s1) = generate_commitment_shares(1, 1);
    let (pub_second, _s2) = generate_commitment_shares(1, 1);

    let mut agg = SigningAggregator::new(
        params,
        gks.pop().unwrap(),
        b"ctx".to_vec(),
        b"msg".to_vec(),
    );
    agg.include_signer(1, pub_first.commitments[0], derive_public_key(sk1));
    agg.include_signer(1, pub_second.commitments[0], derive_public_key(sk1));

    let signers = agg.signers();
    assert_eq!(signers.len(), 1);
    assert_eq!(signers[0].index, 1);
    assert_eq!(signers[0].hiding, pub_second.commitments[0].0);
    assert_eq!(signers[0].binding, pub_second.commitments[0].1);
}

#[test]
fn verification_rejects_tampering() {
    let (mut gks, sks) = run_dkg_2_of_3();
    let context = b"frost threshold test".to_vec();
    let message = b"hello".to_vec();
    let signature = sign_with_two(&mut gks, &sks, 1, 2, &context, &message);
    let gk = gks.pop().unwrap();

    let other_message = b"goodbye".to_vec();
    assert!(matches!(
        verify_signature(&gk, &context, &other_message, &signature),
        Err(ProtocolError::SignatureInvalid)
    ));
    let other_context = b"another context".to_vec();
    assert!(matches!(
        verify_signature(&gk, &other_context, &message, &signature),
        Err(ProtocolError::SignatureInvalid)
    ));
    let truncated = signature[..63].to_vec();
    assert!(matches!(
        verify_signature(&gk, &context, &message, &truncated),
        Err(ProtocolError::SignatureInvalid)
    ));
    assert!(verify_signature(&gk, &context, &message, &signature).is_ok());
}

#[test]
fn group_key_bytes_round_trip() {
    let (mut gks, _sks) = run_dkg_2_of_3();
    let gk = gks.pop().unwrap();
    let again = group_key_from_bytes(&gk.to_bytes()).unwrap();
    assert_eq!(again.to_bytes(), gk.to_bytes());
    assert_eq!(again.to_bytes().len(), 32);

    assert!(group_key_from_bytes(&vec![0u8; 31]).is_none());
}

#[test]
fn participant_record_carries_its_shape() {
    let params = Params { n: 5, t: 3 };
    let (p, _c) = create_participant(params, 4);
    assert_eq!(p.index(), 4);
    assert_eq!(p.commitment_count(), 3);
    assert!(verify_participant(&p).is_ok());
}
