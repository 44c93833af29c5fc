use bls::curve::{G1Point, G2Point, Scalar};
use bls::threshold_bls::utilities::{ECDDHProof, ECDDHStatement, ECDDHWitness};

fn scalar_one() -> Scalar {
    let mut bytes = vec![0u8; 32];
    bytes[31] = 1;
    Scalar::from_bytes(&bytes).expect("one is a valid scalar")
}

#[test]
fn test_ecddh_proof() {
    let x1 = Scalar::random();

    let g1 = G1Point::generator();
    let g2 = G2Point::generator();
    let h1 = g1.mul(&x1);
    let h2 = g2.mul(&x1);

    let delta = ECDDHStatement {
        g1: g1.clone(),
        h1,
        g2: g2.clone(),
        h2,
    };
    let w = ECDDHWitness {
        x: x1.to_bigint_bytes(),
    };
    let proof = ECDDHProof::prove(&w, &delta);
    assert!(proof.verify(&delta));
}

#[test]
fn test_bad_ecddh_proof() {
    let x1 = Scalar::random();
    let x2 = x1.add(&scalar_one());

    let g1 = G1Point::generator();
    let g2 = G2Point::generator();
    let h1 = g1.mul(&x1);
    let h2 = g2.mul(&x2);

    let delta = ECDDHStatement {
        g1: g1.clone(),
        h1,
        g2: g2.clone(),
        h2,
    };
    let w = ECDDHWitness {
        x: x1.to_bigint_bytes(),
    };
    let proof = ECDDHProof::prove(&w, &delta);
    assert!(!proof.verify(&delta));
}
