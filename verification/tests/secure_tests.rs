use sighfar::models::SecureKeyPair;
use sighfar::secure::{normalized_salt, random_code, SecureEnvelope};

#[test]
fn secure_envelope_round_trip() {
    let envelope = SecureEnvelope;
    let pair = SecureKeyPair {
        passphrase: "alpha".to_string(),
        companion_code: "BRAVO987".to_string(),
    };

    let payload = envelope.seal("cipher-stack-output", &pair).unwrap();
    let opened = envelope.open(&payload, &pair).unwrap();

    assert_eq!(opened, "cipher-stack-output");
}

#[test]
fn envelope_with_fixed_nonce_is_deterministic_and_carries_the_nonce() {
    let envelope = SecureEnvelope;
    let pair = SecureKeyPair { passphrase: "alpha".to_string(), companion_code: "BRAVO987".to_string() };
    let nonce = [1u8; 12];
    let a = envelope.seal_with_nonce("hello", &pair, &nonce).unwrap();
    let b = envelope.seal_with_nonce("hello", &pair, &nonce).unwrap();
    assert_eq!(a, b);
    // 12 nonce bytes + 5 plaintext bytes + 16 tag bytes = 33 bytes = 44 base64 characters
    assert_eq!(a.len(), 44);
    assert!(a.starts_with("AQEBAQEBAQEBAQEB"));
    assert_eq!(envelope.open(&a, &pair).unwrap(), "hello");
}

#[test]
fn envelope_open_errors() {
    let envelope = SecureEnvelope;
    let pair = SecureKeyPair { passphrase: "alpha".to_string(), companion_code: "BRAVO987".to_string() };
    assert_eq!(envelope.open("not base64!!", &pair).unwrap_err().message(), "secure payload is not valid base64");
    assert_eq!(envelope.open("AAAA", &pair).unwrap_err().message(), "secure payload is malformed");
    let other = SecureKeyPair { passphrase: "beta".to_string(), companion_code: "BRAVO987".to_string() };
    let sealed = envelope.seal("x", &pair).unwrap();
    assert_eq!(
        envelope.open(&sealed, &other).unwrap_err().message(),
        "failed to decrypt payload with the provided keys"
    );
}

#[test]
fn key_pair_has_an_eighteen_character_code() {
    let envelope = SecureEnvelope;
    let kp = envelope.make_key_pair("pass");
    assert_eq!(kp.passphrase, "pass");
    assert_eq!(kp.companion_code.chars().count(), 18);
    assert!(kp.companion_code.chars().all(|c| "ABCDEFGHJKLMNPQRSTUVWXYZ23456789".contains(c)));
}

#[test]
fn random_code_uses_the_alphabet() {
    let code = random_code(40);
    assert_eq!(code.chars().count(), 40);
    assert!(!code.contains('I') && !code.contains('O') && !code.contains('0') && !code.contains('1'));
}

#[test]
fn salt_repeats_the_code() {
    assert_eq!(&normalized_salt("ABC"), b"ABCABCABCABCABCA");
    assert_eq!(&normalized_salt(""), b"XXXXXXXXXXXXXXXX");
    assert_eq!(&normalized_salt("0123456789abcdefXYZ"), b"0123456789abcdef");
}

#[test]
fn derive_key_is_deterministic() {
    let pair = SecureKeyPair { passphrase: "alpha".to_string(), companion_code: "BRAVO987".to_string() };
    let a = sighfar::secure::derive_key(&pair).unwrap();
    let b = sighfar::secure::derive_key(&pair).unwrap();
    assert_eq!(a, b);
    let other = SecureKeyPair { passphrase: "alpha".to_string(), companion_code: "BRAVO988".to_string() };
    assert_ne!(a, sighfar::secure::derive_key(&other).unwrap());
}

#[test]
fn workflow_envelope_opens_to_transformed_text() {
    let wf = sighfar::workflow::SighFarCore::with_root("/tmp/sighfar-open".to_string());
    let m = wf.encode("Hi there", "caesar:1", true, Some("pw")).unwrap();
    let kp = m.key_pair.as_ref().unwrap();
    let opened = SecureEnvelope.open(m.secure_payload.as_ref().unwrap(), kp).unwrap();
    assert_eq!(opened, m.transformed_text);
    assert_eq!(opened, "Ij uifsf");
}
