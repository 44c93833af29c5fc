use bls::basic_bls::BLSSignature;
use bls::curve::{G1Point, G2Point, Scalar};
use bls::threshold_bls::party_i::{KeyGenComm, KeyGenDecom, Keys, PartialSignature, SharedKeys};
use bls::vss::{lagrange_coeff, ShamirSecretSharing, VssScheme};
use bls::Error;
use ff_zeroize::PrimeField;
use pairing_plus::bls12_381::{Bls12, Fr, FrRepr, G1, G2, G2Affine};
use pairing_plus::serdes::SerDes;
use pairing_plus::{CurveAffine, CurveProjective, Engine};
use std::io::Cursor;

#[test]
fn test_keygen_t1_n2() {
    keygen_t_n_parties(1, 2);
}

#[test]
fn test_keygen_t2_n3() {
    keygen_t_n_parties(2, 3);
}

// 2 out of 2
#[test]
fn test_sign_n2_t1_tprime2() {
    let message = vec![100, 101, 102, 103];
    let signatories: Vec<u16> = vec![0, 1];
    sign(&message[..], 1, 2, &signatories[..], None);
}

// 3 out of 3
#[test]
fn test_sign_n3_t2_tprime3() {
    let message = vec![100, 101, 102, 103];
    let signatories: Vec<u16> = vec![0, 1, 2];
    sign(&message[..], 2, 3, &signatories[..], None);
}

// 3 out of 5 with 4 signatories
#[test]
fn test_sign_n5_t2_tprime4() {
    let message = [100, 101, 102, 103];
    let signatories: Vec<u16> = vec![0, 2, 3, 4];
    sign(&message[..], 2, 5, &signatories[..], None);
}

// any t+1 subset of the signatories produces the same signature bits
#[test]
fn subsets_yield_identical_signature() {
    let message = vec![100, 101, 102, 103];
    let keygen = keygen_t_n_parties(2, 5);
    let sig_a = sign(&message[..], 2, 5, &[0, 2, 3], Some(clone_keygen(&keygen)));
    let sig_b = sign(&message[..], 2, 5, &[1, 3, 4], Some(clone_keygen(&keygen)));
    assert_eq!(sig_a.to_bytes(true), sig_b.to_bytes(true));
}

// flipping one bit of the message between sign and verify breaks it
#[test]
fn tampered_message_fails_verification() {
    let message = vec![100, 101, 102, 103];
    let keygen = keygen_t_n_parties(1, 2);
    let sig = sign(&message[..], 1, 2, &[0, 1], Some(clone_keygen(&keygen)));
    let mut corrupt = message.clone();
    corrupt[0] ^= 1;
    assert!(keygen.0[0].verify(&sig, &message[..]));
    assert!(!keygen.0[0].verify(&sig, &corrupt[..]));
}

fn clone_keygen(k: &(Vec<SharedKeys>, Vec<G2Point>)) -> (Vec<SharedKeys>, Vec<G2Point>) {
    (k.0.clone(), k.1.clone())
}

pub fn keygen_t_n_parties(t: u16, n: u16) -> (Vec<SharedKeys>, Vec<G2Point>) {
    let parames = ShamirSecretSharing {
        threshold: t,
        share_count: n,
    };
    let party_keys_vec = (0..n).map(Keys::phase1_create).collect::<Vec<Keys>>();

    let (bc1_vec, decom_vec): (Vec<KeyGenComm>, Vec<KeyGenDecom>) =
        party_keys_vec.iter().map(|k| k.phase1_broadcast()).unzip();

    let y_vec = (0..n as usize)
        .map(|i| decom_vec[i].y_i.clone())
        .collect::<Vec<G2Point>>();

    let mut vss_scheme_vec: Vec<VssScheme> = Vec::new();
    let mut secret_shares_vec: Vec<Vec<Scalar>> = Vec::new();
    let mut index_vec: Vec<u16> = Vec::new();

    for k in &party_keys_vec {
        let (vss_scheme, secret_shares, index) = k
            .phase1_verify_com_phase2_distribute(&parames, &decom_vec, &bc1_vec)
            .expect("");
        vss_scheme_vec.push(vss_scheme);
        secret_shares_vec.push(secret_shares);
        index_vec.push(index);
    }

    let party_shares = (0..n as usize)
        .map(|i| {
            (0..n as usize)
                .map(|j| secret_shares_vec[j][i].clone())
                .collect::<Vec<Scalar>>()
        })
        .collect::<Vec<Vec<Scalar>>>();

    let mut shared_keys_vec: Vec<SharedKeys> = Vec::new();
    let mut dlog_proof_vec = Vec::new();
    for (i, key) in party_keys_vec.iter().enumerate() {
        let (shared_keys, dlog_proof) = key
            .phase2_verify_vss_construct_keypair_prove_dlog(
                &parames,
                &y_vec,
                &party_shares[i],
                &vss_scheme_vec,
                index_vec[i] + 1,
            )
            .expect("");
        shared_keys_vec.push(shared_keys);
        dlog_proof_vec.push(dlog_proof);
    }

    let vk_vec = (0..n as usize)
        .map(|i| dlog_proof_vec[i].pk.clone())
        .collect::<Vec<G2Point>>();

    // all parties run:
    Keys::verify_dlog_proofs(&parames, &dlog_proof_vec).expect("");

    // test: interpolating any t+1 shares at zero recovers the summed secret
    let subset = &index_vec[0..=t as usize];
    let mut x: Option<Scalar> = None;
    for i in 0..=t as usize {
        let lambda = lagrange_coeff(index_vec[i], subset);
        let term = shared_keys_vec[i].sk_i.mul(&lambda);
        x = Some(match x {
            None => term,
            Some(acc) => acc.add(&term),
        });
    }
    let x = x.unwrap();
    let mut sum_u_i: Option<Scalar> = None;
    for k in &party_keys_vec {
        sum_u_i = Some(match sum_u_i {
            None => k.u_i.clone(),
            Some(acc) => acc.add(&k.u_i),
        });
    }
    assert_eq!(x.to_bytes(), sum_u_i.unwrap().to_bytes());

    (shared_keys_vec, vk_vec)
}

pub fn sign(
    message: &[u8],
    t: u16,
    n: u16,
    s: &[u16],
    keygen: Option<(Vec<SharedKeys>, Vec<G2Point>)>,
) -> BLSSignature {
    // run keygen
    let (shared_keys_vec, vk_vec) = keygen.unwrap_or_else(|| keygen_t_n_parties(t, n));

    let t_prime = s.len();
    // carry on signing with shared keys of indices from s
    let shared_keys_participating_parties = (0..t_prime)
        .map(|i| shared_keys_vec[s[i] as usize].clone())
        .collect::<Vec<SharedKeys>>();
    let vk_participating_parties = (0..t_prime)
        .map(|i| vk_vec[s[i] as usize].clone())
        .collect::<Vec<G2Point>>();

    // each party performs a partial sign
    let (partial_sign_vec, h_x): (Vec<PartialSignature>, Vec<G1Point>) =
        shared_keys_participating_parties
            .iter()
            .map(|k| k.partial_sign(message))
            .unzip();

    // each party runs combine and outputs the signature
    let bls_sig_vec = shared_keys_participating_parties
        .iter()
        .map(|k| {
            k.combine(
                &vk_participating_parties[..],
                &partial_sign_vec[..],
                &h_x[0],
                s,
            )
            .expect("")
        })
        .collect::<Vec<BLSSignature>>();

    // test all signatures are equal
    let first = bls_sig_vec[0].to_bytes(true);
    assert!(bls_sig_vec.iter().all(|item| item.to_bytes(true) == first));
    // test the signatures pass verification
    assert!(shared_keys_vec[0].verify(&bls_sig_vec[0], message));

    bls_sig_vec[0].clone()
}

#[test]
fn another_bls_impl_validates_signature() {
    // Run keygen
    let keygen = keygen_t_n_parties(1, 2);
    let public_key_bytes = keygen.0[0].vk.to_bytes();

    // Sign message
    let message = b"KZen";
    let signature = sign(&message[..], 1, 2, &[0, 1], Some(clone_keygen(&keygen))).to_bytes(true);

    // Parse public key, signature, and the hashed message with pairing-plus
    let public_key =
        G2::deserialize(&mut Cursor::new(public_key_bytes), true).expect("deserialize public key");
    let signature =
        G1::deserialize(&mut Cursor::new(signature), true).expect("deserialize signature");
    let h_m_bytes = G1Point::hash_to_curve(&message[..]).to_bytes();
    let h_m = G1::deserialize(&mut Cursor::new(h_m_bytes), true).expect("deserialize hash");

    // Re-verify the pairing equation e(H(m), vk) == e(sigma, g2) with the
    // external pairing engine
    let lhs = Bls12::pairing(h_m.into_affine(), public_key.into_affine());
    let rhs = Bls12::pairing(signature.into_affine(), G2Affine::one());
    assert_eq!(lhs, rhs);
}

#[test]
fn we_recognize_signatures_generated_by_ref_impl() {
    // Keygen with the external arithmetic: pk = g2 * sk
    let secret_key = Fr::from_repr(FrRepr::from(20_260_712u64)).expect("valid scalar");
    let mut public_key: G2 = G2Affine::one().into_projective();
    public_key.mul_assign(secret_key);

    // Sign message with the external arithmetic: sigma = H(m) * sk (the
    // hashed point is exported from this library, since the external
    // expander is tied to an older digest generation)
    let message = b"KZen";
    let h_m_bytes = G1Point::hash_to_curve(&message[..]).to_bytes();
    let mut signature = G1::deserialize(&mut Cursor::new(h_m_bytes), true).expect("hash point");
    signature.mul_assign(secret_key);

    // Now check that our primitive `BLSSignature` successfully verifies it
    let mut pk_bytes = vec![];
    public_key
        .into_affine()
        .serialize(&mut pk_bytes, true)
        .expect("serialize public key");
    let mut sig_bytes = vec![];
    signature
        .into_affine()
        .serialize(&mut sig_bytes, true)
        .expect("serialize signature");
    let pk = G2Point::from_bytes(&pk_bytes).expect("valid public key bytes");
    let sigma = G1Point::from_bytes(&sig_bytes).expect("valid signature bytes");
    let signature = BLSSignature { sigma };
    let valid = signature.verify(message, &pk);
    assert!(valid);
}

#[test]
fn keygen_then_sign_hello_threshold_world() {
    let message = b"Hello threshold World";
    let keygen = keygen_t_n_parties(1, 2);
    let sig = sign(&message[..], 1, 2, &[0, 1], Some((keygen.0.clone(), keygen.1.clone())));
    assert!(keygen.0[0].verify(&sig, &message[..]));
}

#[test]
fn combine_with_too_few_shares_is_mismatched_vectors() {
    let message = vec![100, 101, 102, 103];
    let (shared_keys, vk_vec) = keygen_t_n_parties(2, 3);
    // only two of the required three shares
    let psigs: Vec<_> = (0..2)
        .map(|i| shared_keys[i].partial_sign(&message).0)
        .collect();
    let h_x = shared_keys[0].partial_sign(&message).1;
    let vks = vec![vk_vec[0].clone(), vk_vec[1].clone()];
    let r = shared_keys[0].combine(&vks, &psigs, &h_x, &[0, 1]);
    assert!(matches!(r, Err(Error::SigningMisMatchedVectors)));
}

#[test]
fn tampered_partial_signature_is_rejected_before_combination() {
    let message = vec![100, 101, 102, 103];
    let (shared_keys, vk_vec) = keygen_t_n_parties(1, 2);
    let mut psigs: Vec<_> = (0..2)
        .map(|i| shared_keys[i].partial_sign(&message).0)
        .collect();
    let h_x = shared_keys[0].partial_sign(&message).1;
    // replace one share with a random group element
    psigs[1].sigma_i = G1Point::hash_to_curve(b"somewhere else").mul(&Scalar::random());
    let vks = vec![vk_vec[0].clone(), vk_vec[1].clone()];
    let r = shared_keys[0].combine(&vks, &psigs, &h_x, &[0, 1]);
    assert!(matches!(r, Err(Error::PartialSignatureVerificationError)));
}

#[test]
fn malformed_decommitment_blames_bad_commitment() {
    let params = ShamirSecretSharing { threshold: 1, share_count: 2 };
    let party_keys: Vec<Keys> = (0..2).map(Keys::phase1_create).collect();
    let (bc1_vec, mut decom_vec): (Vec<_>, Vec<_>) =
        party_keys.iter().map(|k| k.phase1_broadcast()).unzip();
    // party 1 opens with a corrupted blind
    let mut bad_blind = decom_vec[1].blind_factor.clone();
    bad_blind[0] ^= 0xff;
    decom_vec[1].blind_factor = bad_blind;
    // every honest party rejects at round 2, blaming the faulty party
    for k in &party_keys {
        let r = k.phase1_verify_com_phase2_distribute(&params, &decom_vec, &bc1_vec);
        assert!(matches!(r, Err(Error::KeyGenBadCommitment { party: 2 })));
    }
}
