use bls::basic_bls::BLSSignature;
use bls::curve::{G1Point, G2Point, Scalar};
use bls::stores::Msg;
use bls::threshold_bls::keygen::{Error as KeygenError, InvalidLocalKey, Keygen, LocalKey};
use bls::threshold_bls::sign::{Error as SignError, ReceivedPartialSigNotValid, Round1, Sign};


#[test]
fn keygen_construction_errors() {
    assert!(matches!(Keygen::new(1, 1, 1), Err(KeygenError::TooFewParties)));
    assert!(matches!(Keygen::new(1, 0, 3), Err(KeygenError::InvalidThreshold)));
    assert!(matches!(Keygen::new(1, 3, 3), Err(KeygenError::InvalidThreshold)));
    assert!(matches!(Keygen::new(0, 1, 3), Err(KeygenError::InvalidPartyIndex)));
    assert!(matches!(Keygen::new(4, 1, 3), Err(KeygenError::InvalidPartyIndex)));
    assert!(Keygen::new(2, 1, 3).is_ok());
}

fn sample_local_key(t: u16, n: u16) -> LocalKey {
    let sk = Scalar::random();
    let g2 = G2Point::generator();
    let mut vk_vec = vec![g2.mul(&sk)];
    for _ in 1..n {
        vk_vec.push(g2.mul(&Scalar::random()));
    }
    let tpk = g2.mul(&Scalar::random());
    LocalKey::new(t, n, sk, vk_vec, tpk).expect("valid local key parts")
}

#[test]
fn sign_construction_errors() {
    let key = sample_local_key(1, 3);
    let msg = b"m".to_vec();
    assert!(matches!(
        Sign::new(msg.clone(), 1, 1, key.clone()),
        Err(SignError::TooFewParties)
    ));
    assert!(matches!(
        Sign::new(msg.clone(), 1, 4, key.clone()),
        Err(SignError::TooManyParties)
    ));
    assert!(matches!(
        Sign::new(msg.clone(), 0, 2, key.clone()),
        Err(SignError::InvalidPartyIndex)
    ));
    assert!(matches!(
        Sign::new(msg.clone(), 3, 2, key.clone()),
        Err(SignError::InvalidPartyIndex)
    ));
    assert!(Sign::new(msg, 1, 2, key).is_ok());
}

#[test]
fn local_key_construction_errors() {
    let sk = Scalar::random();
    let g2 = G2Point::generator();
    let vk_vec = vec![g2.mul(&sk), g2.mul(&Scalar::random())];
    let tpk = g2.mul(&Scalar::random());
    assert!(matches!(
        LocalKey::new(1, 1, sk.clone(), vec![g2.mul(&sk)], tpk.clone()),
        Err(InvalidLocalKey::TooFewParties { n: 1 })
    ));
    assert!(matches!(
        LocalKey::new(0, 2, sk.clone(), vk_vec.clone(), tpk.clone()),
        Err(InvalidLocalKey::ThresholdNotInRange { t: 0, n: 2 })
    ));
    // a vector that does not hold g2 * sk is refused
    let stranger = vec![g2.mul(&Scalar::random()), g2.mul(&Scalar::random())];
    assert!(matches!(
        LocalKey::new(1, 2, sk.clone(), stranger, tpk.clone()),
        Err(InvalidLocalKey::VkDoesntIncludeSk)
    ));
    assert!(LocalKey::new(1, 2, sk, vk_vec, tpk).is_ok());
}

#[test]
fn local_key_bytes_round_trip() {
    let key = sample_local_key(2, 4);
    let bytes = key.to_bytes();
    let back = LocalKey::from_bytes(&bytes).expect("round trip succeeds");
    assert_eq!(back.to_bytes(), bytes);
    assert_eq!(back.i, key.i);
    assert_eq!(back.t, key.t);
    assert_eq!(back.n, key.n);
    assert_eq!(
        back.shared_keys.sk_i.to_bytes(),
        key.shared_keys.sk_i.to_bytes()
    );
    assert_eq!(back.shared_keys.vk.to_bytes(), key.shared_keys.vk.to_bytes());
    for j in 0..key.vk_vec.len() {
        assert_eq!(back.vk_vec[j].to_bytes(), key.vk_vec[j].to_bytes());
    }
    // tampering with the stored secret is caught on reload
    let mut corrupt = bytes.clone();
    corrupt[6] = 0xff;
    assert!(LocalKey::from_bytes(&corrupt).is_none());
    // truncation is caught as well
    assert!(LocalKey::from_bytes(&bytes[..bytes.len() - 1]).is_none());
}

#[test]
fn compressed_point_round_trip_and_rejection() {
    let p = G1Point::hash_to_curve(b"some point");
    let bytes = p.to_bytes();
    assert_eq!(bytes.len(), 48);
    let back = G1Point::from_bytes(&bytes).expect("valid encoding");
    assert_eq!(back.to_bytes(), bytes);

    let q = G2Point::generator().mul(&Scalar::random());
    let qbytes = q.to_bytes();
    assert_eq!(qbytes.len(), 96);
    let qback = G2Point::from_bytes(&qbytes).expect("valid encoding");
    assert_eq!(qback.to_bytes(), qbytes);

    // strings that encode nothing are refused
    assert!(G1Point::from_bytes(&vec![0u8; 48]).is_none());
    assert!(G2Point::from_bytes(&vec![0u8; 96]).is_none());
    assert!(G1Point::from_bytes(&vec![1u8; 47]).is_none());
    assert!(G2Point::from_bytes(&vec![1u8; 95]).is_none());

    // scalars at and above the group order are refused
    let mut big = vec![0xffu8; 32];
    assert!(Scalar::from_bytes(&big).is_none());
    big = vec![0u8; 31];
    assert!(Scalar::from_bytes(&big).is_none());
}

#[test]
fn generator_encodings_match_the_standard() {
    let g1: Vec<u8> = vec![
        0x97, 0xf1, 0xd3, 0xa7, 0x31, 0x97, 0xd7, 0x94, 0x26, 0x95, 0x63, 0x8c, 0x4f, 0xa9, 0xac,
        0x0f, 0xc3, 0x68, 0x8c, 0x4f, 0x97, 0x74, 0xb9, 0x05, 0xa1, 0x4e, 0x3a, 0x3f, 0x17, 0x1b,
        0xac, 0x58, 0x6c, 0x55, 0xe8, 0x3f, 0xf9, 0x7a, 0x1a, 0xef, 0xfb, 0x3a, 0xf0, 0x0a, 0xdb,
        0x22, 0xc6, 0xbb,
    ];
    let g2: Vec<u8> = vec![
        0x93, 0xe0, 0x2b, 0x60, 0x52, 0x71, 0x9f, 0x60, 0x7d, 0xac, 0xd3, 0xa0, 0x88, 0x27, 0x4f,
        0x65, 0x59, 0x6b, 0xd0, 0xd0, 0x99, 0x20, 0xb6, 0x1a, 0xb5, 0xda, 0x61, 0xbb, 0xdc, 0x7f,
        0x50, 0x49, 0x33, 0x4c, 0xf1, 0x12, 0x13, 0x94, 0x5d, 0x57, 0xe5, 0xac, 0x7d, 0x05, 0x5d,
        0x04, 0x2b, 0x7e, 0x02, 0x4a, 0xa2, 0xb2, 0xf0, 0x8f, 0x0a, 0x91, 0x26, 0x08, 0x05, 0x27,
        0x2d, 0xc5, 0x10, 0x51, 0xc6, 0xe4, 0x7a, 0xd4, 0xfa, 0x40, 0x3b, 0x02, 0xb4, 0x51, 0x0b,
        0x64, 0x7a, 0xe3, 0xd1, 0x77, 0x0b, 0xac, 0x03, 0x26, 0xa8, 0x05, 0xbb, 0xef, 0xd4, 0x80,
        0x56, 0xc8, 0xc1, 0x21, 0xbd, 0xb8,
    ];
    assert_eq!(G1Point::generator().to_bytes(), g1);
    assert_eq!(G2Point::generator().to_bytes(), g2);
}

#[test]
fn bls_signature_uncompressed_form_has_double_length() {
    let keypair = bls::basic_bls::KeyPairG2::new();
    let sig = BLSSignature::sign(b"either form", &keypair);
    assert_eq!(sig.to_bytes(true).len(), 48);
    assert_eq!(sig.to_bytes(false).len(), 96);
}

#[test]
fn rebroadcast_of_own_share_is_rejected() {
    let key = sample_local_key(1, 3);
    let h_x = G1Point::hash_to_curve(b"round message");
    let mut store = Round1::expects_messages(1, 2, &key, h_x.clone());
    // a malicious signer echoes the combiner's own valid share under the
    // combiner's keygen index; admitting it would duplicate a Lagrange point
    let (own_share, _) = key.shared_keys.partial_sign(b"round message");
    let echo = Msg { sender: 2, receiver: None, body: (key.i, own_share) };
    assert!(matches!(
        store.push_msg(echo),
        Err(ReceivedPartialSigNotValid::ShareOverwrite)
    ));
}

#[test]
fn duplicate_keygen_index_is_rejected() {
    // party 1 of 3 holds keygen index 1; parties 2 and 3 sign with it
    let sk2 = Scalar::random();
    let g2 = G2Point::generator();
    let sk1 = Scalar::random();
    let vk_vec = vec![g2.mul(&sk1), g2.mul(&sk2), g2.mul(&Scalar::random())];
    let tpk = g2.mul(&Scalar::random());
    let key1 = LocalKey::new(2, 3, sk1, vk_vec.clone(), tpk.clone()).expect("key 1");
    let key2 = LocalKey::new(2, 3, sk2, vk_vec, tpk).expect("key 2");

    let message = b"round message";
    let h_x = G1Point::hash_to_curve(message);
    let mut store = Round1::expects_messages(1, 3, &key1, h_x);
    let (share2, _) = key2.shared_keys.partial_sign(message);
    let ok = Msg { sender: 2, receiver: None, body: (key2.i, share2.clone()) };
    assert!(store.push_msg(ok).is_ok());
    // the same share again, from another sender: same keygen index twice
    let dup = Msg { sender: 3, receiver: None, body: (key2.i, share2) };
    assert!(matches!(
        store.push_msg(dup),
        Err(ReceivedPartialSigNotValid::ShareOverwrite)
    ));
}
