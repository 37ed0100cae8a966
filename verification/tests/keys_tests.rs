use sighfar::keys::{find_label, RsaKeyStore};
use sighfar::models::KeyEntry;

fn entry(label: &str, fingerprint: &str) -> KeyEntry {
    KeyEntry {
        label: label.to_string(),
        fingerprint: fingerprint.to_string(),
        private_key_b64: "!!".to_string(),
        public_key_b64: "AAAA".to_string(),
        created_secs: 1,
        created_nanos: 0,
    }
}

#[test]
fn rsa_key_generate_and_round_trip() {
    let mut entries: Vec<KeyEntry> = Vec::new();
    let entry = RsaKeyStore::generate(&mut entries, "test", 1_700_000_000, 0).unwrap();
    assert_eq!(entry.label, "test");
    assert!(entry.fingerprint.starts_with("sha256:"));
    assert_eq!(entry.fingerprint.len(), 7 + 64);

    let plaintext = b"hello sighfar";
    let ciphertext = RsaKeyStore::encrypt(&entries, "test", plaintext).unwrap();
    let recovered = RsaKeyStore::decrypt(&entries, "test", &ciphertext).unwrap();
    assert_eq!(recovered, plaintext);
}

#[test]
fn rsa_primary_auto_generates() {
    let mut entries: Vec<KeyEntry> = Vec::new();
    let primary = RsaKeyStore::primary(&mut entries, 1_700_000_000, 0).unwrap();
    assert_eq!(primary.label, "primary");
    // Calling again should return the same key (same fingerprint).
    let primary2 = RsaKeyStore::primary(&mut entries, 1_700_000_001, 0).unwrap();
    assert_eq!(primary.fingerprint, primary2.fingerprint);
    assert_eq!(entries.len(), 1);
}

#[test]
fn find_takes_the_first_entry_with_the_label() {
    let entries = vec![entry("a", "1"), entry("b", "2"), entry("a", "3")];
    assert_eq!(find_label(&entries, "a"), Some(0));
    assert_eq!(find_label(&entries, "b"), Some(1));
    assert_eq!(find_label(&entries, "c"), None);
}

#[test]
fn delete_removes_every_entry_with_the_label() {
    let mut entries = vec![entry("a", "1"), entry("b", "2"), entry("a", "3")];
    assert!(RsaKeyStore::delete(&mut entries, "a"));
    assert_eq!(entries.len(), 1);
    assert_eq!(entries[0].fingerprint, "2");
    assert!(!RsaKeyStore::delete(&mut entries, "a"));
    assert_eq!(entries.len(), 1);
}

#[test]
fn existing_primary_is_returned_unchanged() {
    let mut entries = vec![entry("work", "1"), entry("primary", "2")];
    let p = RsaKeyStore::primary(&mut entries, 5, 0).unwrap();
    assert_eq!(p.fingerprint, "2");
    assert_eq!(entries.len(), 2);
}

#[test]
fn key_errors() {
    let entries = vec![entry("bad", "1")];
    assert_eq!(RsaKeyStore::encrypt(&entries, "none", b"x").unwrap_err().message(), "RSA key 'none' not found");
    assert_eq!(RsaKeyStore::decrypt(&entries, "bad", b"x").unwrap_err().message(), "failed to decode private key base64");
    assert_eq!(RsaKeyStore::encrypt(&entries, "bad", b"x").unwrap_err().message(), "failed to parse RSA public key");
    let mut other = entry("bad2", "1");
    other.public_key_b64 = "@@".to_string();
    other.private_key_b64 = "AAAA".to_string();
    let entries = vec![other];
    assert_eq!(RsaKeyStore::encrypt(&entries, "bad2", b"x").unwrap_err().message(), "failed to decode public key base64");
    assert_eq!(RsaKeyStore::decrypt(&entries, "bad2", b"x").unwrap_err().message(), "failed to parse RSA private key");
}

#[test]
fn key_store_files_and_key() {
    let store = RsaKeyStore::with_root("/home/u/.sighfar".to_string());
    assert_eq!(store.key_file, "/home/u/.sighfar/keys.key");
    assert_eq!(store.store_file, "/home/u/.sighfar/keys.enc");
    assert_eq!(
        RsaKeyStore::load_key(Some(&[0u8; 3])).unwrap_err().message(),
        "key store key has unexpected length"
    );
}

#[test]
fn key_store_file_round_trip() {
    let key = [3u8; 32];
    assert_eq!(RsaKeyStore::open_entries(&[1, 2], &key).unwrap(), None);
    let sealed = RsaKeyStore::seal_entries(b"[]", &key).unwrap();
    assert_eq!(RsaKeyStore::open_entries(&sealed, &key).unwrap().unwrap(), b"[]".to_vec());
    assert_eq!(
        RsaKeyStore::open_entries(&sealed, &[4u8; 32]).unwrap_err().message(),
        "failed to decrypt key store"
    );
}

#[test]
fn workflow_rsa_round_trip() {
    let wf = sighfar::workflow::SighFarCore::with_root("/tmp/sighfar-rsa".to_string());
    let mut entries: Vec<KeyEntry> = Vec::new();
    RsaKeyStore::generate(&mut entries, "work", 1, 0).unwrap();
    let c = wf.rsa_encrypt(&entries, "work", b"payload").unwrap();
    assert_eq!(wf.rsa_decrypt(&entries, "work", &c).unwrap(), b"payload".to_vec());
    assert!(wf.rsa_decrypt(&entries, "work", b"not a ciphertext").is_err());
    assert!(wf.rsa_encrypt(&entries, "work", &[7u8; 190]).is_ok());
    assert_eq!(wf.rsa_encrypt(&entries, "work", &[7u8; 191]).unwrap_err().message(), "RSA encryption failed");
}
