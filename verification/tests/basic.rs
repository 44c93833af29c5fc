use bls::basic_bls::{BLSSignature, KeyPairG2};

#[test]
pub fn test_simple_bls() {
    let keypair = KeyPairG2::new();
    let y = keypair.Y.clone();
    let message_bytes = [1, 2, 3, 4, 5];
    let signature = BLSSignature::sign(&message_bytes[..], &keypair);
    assert!(signature.verify(&message_bytes[..], &y));
}

#[test]
#[should_panic]
pub fn test_bad_simple_bls() {
    let keypair = KeyPairG2::new();
    let y = keypair.Y.clone();
    let message_bytes = [1, 2, 3, 4, 5];
    let signature = BLSSignature::sign(&message_bytes[..], &keypair);
    let message_bytes_corrupt = [0, 2, 3, 4, 5];
    assert!(signature.verify(&message_bytes_corrupt[..], &y));
}
