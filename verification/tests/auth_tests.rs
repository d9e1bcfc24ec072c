use ed25519_dalek::{ExpandedSecretKey, PublicKey, SecretKey};
use eventcast::auth::verify_signature;

fn keypair() -> (PublicKey, ExpandedSecretKey) {
    let secret = SecretKey::from_bytes(&[7u8; 32]).unwrap();
    let public = PublicKey::from(&secret);
    let expanded = ExpandedSecretKey::from(&secret);
    (public, expanded)
}

fn signed_request(timestamp: &str, body: &str) -> (String, String) {
    let (public, expanded) = keypair();
    let message = [timestamp.as_bytes(), body.as_bytes()].concat();
    let signature = expanded.sign(&message, &public);
    (hex::encode(public.to_bytes()), hex::encode(signature.to_bytes()))
}

#[test]
fn round_trip_accepts_identical_bytes() {
    let timestamp = "1700000000";
    let body = "{\"type\":1}";
    let (key_hex, sig_hex) = signed_request(timestamp, body);
    assert!(verify_signature(
        key_hex.as_bytes(),
        Some(timestamp.as_bytes()),
        Some(sig_hex.as_bytes()),
        Some(body.as_bytes()),
    ));
}

#[test]
fn flipped_body_byte_fails() {
    let timestamp = "1700000000";
    let body = "{\"type\":1}";
    let (key_hex, sig_hex) = signed_request(timestamp, body);
    let mut tampered = body.as_bytes().to_vec();
    tampered[0] ^= 0x01;
    assert!(!verify_signature(
        key_hex.as_bytes(),
        Some(timestamp.as_bytes()),
        Some(sig_hex.as_bytes()),
        Some(&tampered),
    ));
}

#[test]
fn flipped_timestamp_byte_fails() {
    let timestamp = "1700000000";
    let body = "{\"type\":1}";
    let (key_hex, sig_hex) = signed_request(timestamp, body);
    assert!(!verify_signature(
        key_hex.as_bytes(),
        Some("1700000001".as_bytes()),
        Some(sig_hex.as_bytes()),
        Some(body.as_bytes()),
    ));
}

#[test]
fn flipped_signature_byte_fails() {
    let timestamp = "1700000000";
    let body = "{\"type\":1}";
    let (public, expanded) = keypair();
    let message = [timestamp.as_bytes(), body.as_bytes()].concat();
    let mut sig = expanded.sign(&message, &public).to_bytes();
    sig[10] ^= 0x01;
    let key_hex = hex::encode(public.to_bytes());
    let sig_hex = hex::encode(sig);
    assert!(!verify_signature(
        key_hex.as_bytes(),
        Some(timestamp.as_bytes()),
        Some(sig_hex.as_bytes()),
        Some(body.as_bytes()),
    ));
}

#[test]
fn missing_header_or_body_fails() {
    let timestamp = "1700000000";
    let body = "{\"type\":1}";
    let (key_hex, sig_hex) = signed_request(timestamp, body);
    assert!(!verify_signature(
        key_hex.as_bytes(),
        None,
        Some(sig_hex.as_bytes()),
        Some(body.as_bytes()),
    ));
    assert!(!verify_signature(
        key_hex.as_bytes(),
        Some(timestamp.as_bytes()),
        None,
        Some(body.as_bytes()),
    ));
    assert!(!verify_signature(
        key_hex.as_bytes(),
        Some(timestamp.as_bytes()),
        Some(sig_hex.as_bytes()),
        None,
    ));
}

#[test]
fn malformed_hex_signature_fails() {
    let timestamp = "1700000000";
    let body = "{\"type\":1}";
    let (key_hex, sig_hex) = signed_request(timestamp, body);
    let odd = &sig_hex.as_bytes()[..sig_hex.len() - 1];
    assert!(!verify_signature(
        key_hex.as_bytes(),
        Some(timestamp.as_bytes()),
        Some(odd),
        Some(body.as_bytes()),
    ));
    assert!(!verify_signature(
        key_hex.as_bytes(),
        Some(timestamp.as_bytes()),
        Some("zz".as_bytes()),
        Some(body.as_bytes()),
    ));
}
