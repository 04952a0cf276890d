use blockchain::wallet::keys::{generate_keys_pair, public_key, sign, verify_private, verify_public};

#[test]
fn generate_keys() {
    let _ = generate_keys_pair();
}

#[test]
fn sign_message() {
    let keys = generate_keys_pair();
    let message: [u8; 16] = [
        0x00, 0x01, 0x02, 0x03, 0x04, 0x05, 0x06, 0x07, 0x08, 0x09, 0x0A, 0x0B, 0x0C, 0x0D, 0x0E, 0x0F,
    ];
    let _ = sign(&keys, &message);
}

#[test]
fn verify_signed_message_private() {
    let keys = generate_keys_pair();
    let message: [u8; 16] = [
        0x00, 0x01, 0x02, 0x03, 0x04, 0x05, 0x06, 0x07, 0x08, 0x09, 0x0A, 0x0B, 0x0C, 0x0D, 0x0E, 0x0F,
    ];
    let signature = sign(&keys, &message);
    assert!(verify_private(&keys, &signature, &message));
}

#[test]
fn verify_signed_message_public() {
    let keys = generate_keys_pair();
    let message: [u8; 16] = [
        0x00, 0x01, 0x02, 0x03, 0x04, 0x05, 0x06, 0x07, 0x08, 0x09, 0x0A, 0x0B, 0x0C, 0x0D, 0x0E, 0x0F,
    ];
    let signature = sign(&keys, &message);
    assert!(verify_public(&public_key(&keys), &signature, &message));
}

#[test]
fn signature_of_another_message_does_not_verify() {
    let keys = generate_keys_pair();
    let signature = sign(&keys, b"one message");
    assert!(!verify_private(&keys, &signature, b"another message"));
    let other_keys = generate_keys_pair();
    assert!(!verify_public(&public_key(&other_keys), &signature, b"one message"));
}

#[test]
fn rfc8032_first_test_vector() {
    let secret: [u8; 32] = [
        0x9d, 0x61, 0xb1, 0x9d, 0xef, 0xfd, 0x5a, 0x60, 0xba, 0x84, 0x4a, 0xf4, 0x92, 0xec, 0x2c, 0xc4,
        0x44, 0x49, 0xc5, 0x69, 0x7b, 0x32, 0x69, 0x19, 0x70, 0x3b, 0xac, 0x03, 0x1c, 0xae, 0x7f, 0x60,
    ];
    let expected_public: [u8; 32] = [
        0xd7, 0x5a, 0x98, 0x01, 0x82, 0xb1, 0x0a, 0xb7, 0xd5, 0x4b, 0xfe, 0xd3, 0xc9, 0x64, 0x07, 0x3a,
        0x0e, 0xe1, 0x72, 0xf3, 0xda, 0xa6, 0x23, 0x25, 0xaf, 0x02, 0x1a, 0x68, 0xf7, 0x07, 0x51, 0x1a,
    ];
    assert_eq!(public_key(&secret), expected_public);
    let signature = sign(&secret, &[]);
    assert_eq!(signature[0], 0xe5);
    assert_eq!(signature[63], 0x0b);
    assert!(verify_public(&expected_public, &signature, &[]));
}
