//! RSA-2048 key pairs kept in an encrypted key database: generating them,
//! finding them by label, deleting them, and encrypting and decrypting with
//! them (OAEP over SHA-256).  The database file has the same format as the
//! history file, under a key of its own.
use vstd::prelude::*;
use vstd::string::StringExecFns;
use crate::error::{ErrorModel, SighFarError};
use crate::models::{KeyEntry, KeyRecord};
use crate::morse::chars_equal;
use crate::primitives::{
    base64_decode, base64_decoded, base64_encode, base64_encode_spec, hex_encode, hex_lower, rsa_private_modulus_len,
    rsa_public_modulus_len,
    random_nonce, rsa_generate_private_der, rsa_oaep_decrypt, rsa_oaep_decrypted, rsa_oaep_encrypt,
    rsa_private_der_parses, rsa_public_der, rsa_public_der_of, rsa_public_der_parses, sha256_digest, sha256_of,
    RsaFailure,
};
use crate::store::{base64_fits, join_path, join_path_text, key_or_fresh, open_file, opened_file, seal_file, sealed_file};
use crate::text::chars_of;

verus! {

// ---------------------------------------------------------------- finding

/// Whether entry `i` is the first one with this label.
pub open spec fn is_first_label(entries: Seq<KeyEntry>, label: Seq<char>, i: int) -> bool {
    &&& 0 <= i < entries.len()
    &&& entries[i].label@ == label
    &&& forall|j: int| 0 <= j < i ==> (#[trigger] entries[j]).label@ != label
}

/// The index of the first entry with this label, if any has it.
pub open spec fn first_with_label(entries: Seq<KeyEntry>, label: Seq<char>) -> Option<int> {
    if exists|i: int| 0 <= i < entries.len() && (#[trigger] entries[i]).label@ == label {
        Some(choose|i: int| is_first_label(entries, label, i))
    } else {
        None
    }
}

/// The first entry with a label is the one that `first_with_label` names.
pub proof fn lemma_first_label(entries: Seq<KeyEntry>, label: Seq<char>, i: int)
    requires
        is_first_label(entries, label, i),
    ensures
        first_with_label(entries, label) == Some(i),
{
    assert(0 <= i < entries.len() && entries[i].label@ == label);
    let c = choose|c: int| is_first_label(entries, label, c);
    assert(is_first_label(entries, label, c));
    if c < i {
        assert(entries[c].label@ != label);
    } else if c > i {
        assert(entries[i].label@ != label);
    }
}

/// With no entry of this label, `first_with_label` finds none.
proof fn lemma_no_label(entries: Seq<KeyEntry>, label: Seq<char>)
    requires
        forall|j: int| 0 <= j < entries.len() ==> (#[trigger] entries[j]).label@ != label,
    ensures
        first_with_label(entries, label) is None,
{
}

/// The position of the first entry with this label.
pub fn find_label(entries: &[KeyEntry], label: &str) -> (r: Option<usize>)
    ensures
        match r {
            Some(i) => first_with_label(entries@, label@) == Some(i as int) && is_first_label(entries@, label@, i as int),
            None => first_with_label(entries@, label@) is None,
        },
{
    let target = chars_of(label);
    let mut i: usize = 0;
    while i < entries.len()
        invariant
            i <= entries@.len(),
            target@ == label@,
            forall|j: int| 0 <= j < i ==> (#[trigger] entries@[j]).label@ != label@,
        decreases entries@.len() - i,
    {
        let name = chars_of(entries[i].label.as_str());
        if chars_equal(name.as_slice(), target.as_slice()) {
            proof {
                lemma_first_label(entries@, label@, i as int);
            }
            return Some(i);
        }
        i = i + 1;
    }
    proof {
        lemma_no_label(entries@, label@);
    }
    None
}

// ---------------------------------------------------------------- generating

/// The label of the key pair that is made when first asked for.
pub open spec fn primary_label() -> Seq<char> {
    seq!['p', 'r', 'i', 'm', 'a', 'r', 'y']
}

/// `sha256:` and the lowercase hex SHA-256 digest of a public key's DER.
pub open spec fn fingerprint_of(public_der: Seq<u8>) -> Seq<char> {
    seq!['s', 'h', 'a', '2', '5', '6', ':'] + hex_lower(sha256_of(public_der))
}

/// Whether a stored key holds, in base64, a private key and its own public
/// half, under the fingerprint of that public half.
pub open spec fn key_record_consistent(k: KeyRecord) -> bool {
    exists|d: Seq<u8>|
        #![trigger rsa_public_der_of(d)]
        rsa_private_der_parses(d)
            && base64_decoded(k.private_key_b64) == Some(d)
            && base64_decoded(k.public_key_b64) == Some(rsa_public_der_of(d))
            && k.fingerprint == fingerprint_of(rsa_public_der_of(d))
}

/// Whether a stored key is one that `new_key_entry` makes: an RSA-2048
/// private key and its own public half (which the crate accepts), each the
/// base64 of its DER (PKCS#8 and PKCS#1), under `sha256:` and the 64 hex
/// digits of the public DER's SHA-256.
pub open spec fn key_record_generated(k: KeyRecord) -> bool {
    exists|d: Seq<u8>|
        #![trigger rsa_public_der_of(d)]
        rsa_private_der_parses(d)
            && rsa_private_modulus_len(d) == 256
            && rsa_public_der_parses(rsa_public_der_of(d))
            && rsa_public_modulus_len(rsa_public_der_of(d)) == 256
            && k.private_key_b64 == base64_encode_spec(d)
            && base64_decoded(k.private_key_b64) == Some(d)
            && k.public_key_b64 == base64_encode_spec(rsa_public_der_of(d))
            && base64_decoded(k.public_key_b64) == Some(rsa_public_der_of(d))
            && k.fingerprint == fingerprint_of(rsa_public_der_of(d))
            && k.fingerprint.len() == 71
}

/// A generated key is a consistent one.
pub proof fn lemma_generated_consistent(k: KeyRecord)
    requires
        key_record_generated(k),
    ensures
        key_record_consistent(k),
{
    let d = choose|d: Seq<u8>|
        #![trigger rsa_public_der_of(d)]
        rsa_private_der_parses(d)
            && rsa_private_modulus_len(d) == 256
            && rsa_public_der_parses(rsa_public_der_of(d))
            && rsa_public_modulus_len(rsa_public_der_of(d)) == 256
            && k.private_key_b64 == base64_encode_spec(d)
            && base64_decoded(k.private_key_b64) == Some(d)
            && k.public_key_b64 == base64_encode_spec(rsa_public_der_of(d))
            && base64_decoded(k.public_key_b64) == Some(rsa_public_der_of(d))
            && k.fingerprint == fingerprint_of(rsa_public_der_of(d))
            && k.fingerprint.len() == 71;
    assert(rsa_private_der_parses(d) && base64_decoded(k.private_key_b64) == Some(d)
        && base64_decoded(k.public_key_b64) == Some(rsa_public_der_of(d))
        && k.fingerprint == fingerprint_of(rsa_public_der_of(d)));
}

/// The fingerprint law: a generated key's fingerprint is `sha256:` followed
/// by the lowercase hex SHA-256 digest of the DER bytes that its stored public
/// key decodes to (the digest is over the decoded DER, not its base64 text),
/// 71 characters in all.
pub proof fn lemma_generated_fingerprint(k: KeyRecord)
    requires
        key_record_generated(k),
    ensures
        base64_decoded(k.public_key_b64) is Some,
        k.fingerprint == seq!['s', 'h', 'a', '2', '5', '6', ':'] + hex_lower(
            sha256_of(base64_decoded(k.public_key_b64)->Some_0),
        ),
        k.fingerprint.len() == 71,
{
}

/// A new RSA-2048 key pair under `label`, created at the given time (seconds
/// and nanoseconds since the Unix epoch).  Key generation can fail, and then
/// `RsaKeyGenerationFailed` comes back.
pub fn new_key_entry(label: &str, created_secs: i64, created_nanos: u32) -> (r: Result<KeyEntry, SighFarError>)
    ensures
        match r {
            Ok(e) => {
                &&& e@.label == label@
                &&& e@.created_secs == created_secs
                &&& e@.created_nanos == created_nanos
                &&& key_record_generated(e@)
                &&& key_record_consistent(e@)
                &&& base64_decoded(e@.public_key_b64) is Some
                &&& e@.fingerprint == seq!['s', 'h', 'a', '2', '5', '6', ':'] + hex_lower(
                    sha256_of(base64_decoded(e@.public_key_b64)->Some_0),
                )
            },
            Err(x) => x@ == ErrorModel::RsaKeyGenerationFailed,
        },
{
    let private_der = match rsa_generate_private_der() {
        Some(d) => d,
        None => return Err(SighFarError::RsaKeyGenerationFailed),
    };
    let public_der = match rsa_public_der(private_der.as_slice()) {
        Some(p) => p,
        None => return Err(SighFarError::RsaKeyGenerationFailed),
    };
    if !base64_fits(private_der.len()) || !base64_fits(public_der.len()) {
        return Err(SighFarError::RsaKeyGenerationFailed);
    }
    let digest = sha256_digest(public_der.as_slice());
    let fingerprint = String::from_str("sha256:").concat(hex_encode(digest.as_slice()).as_str());
    let private_key_b64 = base64_encode(private_der.as_slice());
    let public_key_b64 = base64_encode(public_der.as_slice());
    let entry = KeyEntry {
        label: label.to_owned(),
        fingerprint,
        private_key_b64,
        public_key_b64,
        created_secs,
        created_nanos,
    };
    proof {
        let d = private_der@;
        reveal_strlit("sha256:");
        assert(fingerprint_of(rsa_public_der_of(d)) =~= entry.fingerprint@);
        assert(rsa_private_der_parses(d) && base64_decoded(entry@.private_key_b64) == Some(d)
            && base64_decoded(entry@.public_key_b64) == Some(rsa_public_der_of(d))
            && entry@.fingerprint == fingerprint_of(rsa_public_der_of(d)));
        assert(entry@.fingerprint.len() == 71);
        assert(rsa_private_modulus_len(d) == 256);
        assert(public_der@ == rsa_public_der_of(d));
        assert(rsa_public_modulus_len(public_der@) == 256);
        assert(rsa_public_der_parses(public_der@));
        lemma_generated_consistent(entry@);
        lemma_generated_fingerprint(entry@);
    }
    Ok(entry)
}

// ---------------------------------------------------------------- using

/// What decrypting `ciphertext` with the key labelled `label` gives.
pub open spec fn decrypt_outcome(entries: Seq<KeyEntry>, label: Seq<char>, ciphertext: Seq<u8>) -> Result<Seq<u8>, ErrorModel> {
    match first_with_label(entries, label) {
        None => Err(ErrorModel::RsaKeyNotFound(label)),
        Some(i) => match base64_decoded(entries[i].private_key_b64@) {
            None => Err(ErrorModel::PrivateKeyNotBase64),
            Some(der) => if !rsa_private_der_parses(der) {
                Err(ErrorModel::PrivateKeyUnparsable)
            } else {
                match rsa_oaep_decrypted(der, ciphertext) {
                    Some(v) => Ok(v),
                    None => Err(ErrorModel::RsaDecryptionFailed),
                }
            },
        },
    }
}

/// The public key DER that encrypting with the key labelled `label` uses,
/// or the error that comes before any encryption.
pub open spec fn encryption_key(entries: Seq<KeyEntry>, label: Seq<char>) -> Result<Seq<u8>, ErrorModel> {
    match first_with_label(entries, label) {
        None => Err(ErrorModel::RsaKeyNotFound(label)),
        Some(i) => match base64_decoded(entries[i].public_key_b64@) {
            None => Err(ErrorModel::PublicKeyNotBase64),
            Some(der) => if !rsa_public_der_parses(der) {
                Err(ErrorModel::PublicKeyUnparsable)
            } else {
                Ok(der)
            },
        },
    }
}

/// What encrypting `plaintext` with the key labelled `label` gives: the
/// errors that come before encryption, exactly; otherwise a ciphertext that
/// decrypts to `plaintext` under the matching private key (so that, for a key
/// pair made by `generate`, `decrypt` gives `plaintext` back) when the
/// plaintext is at most the modulus length less 66 bytes (190 bytes for a
/// key pair made by `generate`), else a refusal.
pub open spec fn encryption_result(
    r: Result<Vec<u8>, SighFarError>,
    entries: Seq<KeyEntry>,
    label: Seq<char>,
    plaintext: Seq<u8>,
) -> bool {
    &&& match encryption_key(entries, label) {
        Err(e) => r matches Err(x) && x@ == e,
        Ok(der) => match r {
            Ok(c) => plaintext.len() + 66 <= rsa_public_modulus_len(der) && forall|sk: Seq<u8>|
                rsa_private_der_parses(sk) && rsa_public_der_of(sk) == der
                    ==> #[trigger] rsa_oaep_decrypted(sk, c@) == Some(plaintext),
            Err(x) => plaintext.len() + 66 > rsa_public_modulus_len(der) && x@ == ErrorModel::RsaEncryptionFailed,
        },
    }
    &&& r matches Ok(c) ==> (first_with_label(entries, label) matches Some(i) ==> (key_record_consistent(entries[i]@)
        ==> decrypt_outcome(entries, label, c@) == Ok::<Seq<u8>, ErrorModel>(plaintext)))
    &&& first_with_label(entries, label) matches Some(i) ==> (key_record_generated(entries[i]@) ==> (r is Ok
        <==> plaintext.len() <= 190))
}

/// What asking for the primary key pair does to the entries and returns: the
/// first entry labelled `primary`, entries unchanged, when there is one;
/// otherwise a newly generated key pair under that label, added at the end.
/// Either way a key pair that comes back is the first `primary` entry after.
pub open spec fn primary_result(
    before: Seq<KeyEntry>,
    after: Seq<KeyEntry>,
    r: Result<KeyEntry, SighFarError>,
    created_secs: i64,
    created_nanos: u32,
) -> bool {
    &&& match first_with_label(before, primary_label()) {
        Some(i) => {
            &&& after == before
            &&& r matches Ok(e) && e@ == before[i]@
        },
        None => match r {
            Ok(e) => {
                &&& after.len() == before.len() + 1
                &&& after.drop_last() == before
                &&& after.last()@ == e@
                &&& e@.label == primary_label()
                &&& e@.created_secs == created_secs
                &&& e@.created_nanos == created_nanos
                &&& key_record_generated(e@)
            },
            Err(x) => after == before && x@ == ErrorModel::RsaKeyGenerationFailed,
        },
    }
    &&& r matches Ok(e) ==> (first_with_label(after, primary_label()) matches Some(j) && after[j]@ == e@)
}

/// Asking for the primary key pair twice gives the same key pair the second
/// time, and the second call leaves the entries as the first one left them.
pub proof fn lemma_primary_stable(
    a: Seq<KeyEntry>,
    b: Seq<KeyEntry>,
    c: Seq<KeyEntry>,
    r1: Result<KeyEntry, SighFarError>,
    r2: Result<KeyEntry, SighFarError>,
    secs1: i64,
    nanos1: u32,
    secs2: i64,
    nanos2: u32,
)
    requires
        primary_result(a, b, r1, secs1, nanos1),
        r1 is Ok,
        primary_result(b, c, r2, secs2, nanos2),
    ensures
        c == b,
        r2 matches Ok(e2) && e2@ == r1->Ok_0@,
{
}

/// The RSA key database, held as its entries in the order they were added.
/// Its files are `keys.key` (the database key) and `keys.enc` under `root`.
#[derive(Debug, Clone, PartialEq, Eq)]
pub struct RsaKeyStore {
    pub root: String,
    pub key_file: String,
    pub store_file: String,
}

impl RsaKeyStore {
    /// The store whose files are `keys.key` and `keys.enc` under `root`.
    pub fn with_root(root: String) -> (s: RsaKeyStore)
        ensures
            s.root@ == root@,
            s.key_file@ == join_path(root@, "keys.key"@),
            s.store_file@ == join_path(root@, "keys.enc"@),
    {
        let key_file = join_path_text(root.as_str(), "keys.key");
        let store_file = join_path_text(root.as_str(), "keys.enc");
        RsaKeyStore { root, key_file, store_file }
    }

    /// The database key: the key file's bytes when there is a key file (they
    /// must be 32), else a fresh random key, marked `true`, to be written out
    /// as the new key file.
    pub fn load_key(existing: Option<&[u8]>) -> (r: Result<([u8; 32], bool), SighFarError>)
        ensures
            match existing {
                Some(b) => match r {
                    Ok((k, fresh)) => b@.len() == 32 && k@ == b@ && !fresh,
                    Err(e) => b@.len() != 32 && e@ == ErrorModel::KeyStoreKeyLength,
                },
                None => r matches Ok((_, fresh)) && fresh,
            },
    {
        match key_or_fresh(existing) {
            Some(found) => Ok(found),
            None => Err(SighFarError::KeyStoreKeyLength),
        }
    }

    /// The serialized entries held in the database file's bytes: none for a
    /// file shorter than a nonce.  A file written by `seal_entries` under the
    /// same key gives back what was written.
    pub fn open_entries(payload: &[u8], key: &[u8; 32]) -> (r: Result<Option<Vec<u8>>, SighFarError>)
        ensures
            payload@.len() < 12 ==> r matches Ok(None),
            payload@.len() >= 12 ==> match r {
                Ok(Some(v)) => opened_file(payload@, key@) == Some(v@),
                Ok(None) => false,
                Err(e) => opened_file(payload@, key@) is None && e@ == ErrorModel::KeyStoreDecryptionFailed,
            },
            forall|p: Seq<u8>, nonce: Seq<u8>|
                nonce.len() == 12 && p.len() <= 0x10_0000_0000 && payload@ == #[trigger] sealed_file(p, key@, nonce) ==> (r matches Ok(Some(v)) && v@ == p),
    {
        if payload.len() < 12 {
            return Ok(None);
        }
        match open_file(payload, key) {
            Some(v) => Ok(Some(v)),
            None => Err(SighFarError::KeyStoreDecryptionFailed),
        }
    }

    /// The database file's bytes for the serialized entries, under `nonce`.
    pub fn seal_entries_with_nonce(plaintext: &[u8], key: &[u8; 32], nonce: &[u8; 12]) -> (r: Result<Vec<u8>, SighFarError>)
        ensures
            match r {
                Ok(v) => plaintext@.len() <= 0x10_0000_0000 && v@ == sealed_file(plaintext@, key@, nonce@),
                Err(e) => plaintext@.len() > 0x10_0000_0000 && e@ == ErrorModel::KeyStoreEncryptionFailed,
            },
    {
        match seal_file(plaintext, key, nonce) {
            Some(v) => Ok(v),
            None => Err(SighFarError::KeyStoreEncryptionFailed),
        }
    }

    /// The database file's bytes for the serialized entries, under a fresh
    /// random nonce.
    pub fn seal_entries(plaintext: &[u8], key: &[u8; 32]) -> (r: Result<Vec<u8>, SighFarError>)
        ensures
            match r {
                Ok(v) => plaintext@.len() <= 0x10_0000_0000 && exists|nonce: Seq<u8>|
                    nonce.len() == 12 && v@ == #[trigger] sealed_file(plaintext@, key@, nonce),
                Err(e) => plaintext@.len() > 0x10_0000_0000 && e@ == ErrorModel::KeyStoreEncryptionFailed,
            },
    {
        let nonce = random_nonce();
        Self::seal_entries_with_nonce(plaintext, key, &nonce)
    }
}

/// The entries as records, in order.
pub open spec fn records(entries: Seq<KeyEntry>) -> Seq<KeyRecord> {
    entries.map_values(|e: KeyEntry| e@)
}

/// Whether a record does not carry this label.
pub open spec fn label_differs(label: Seq<char>) -> spec_fn(KeyRecord) -> bool {
    |k: KeyRecord| k.label != label
}

/// Whether a byte result is the one a spec names, error for error.
pub open spec fn bytes_result_matches(r: Result<Vec<u8>, SighFarError>, spec: Result<Seq<u8>, ErrorModel>) -> bool {
    match r {
        Ok(v) => spec == Ok::<Seq<u8>, ErrorModel>(v@),
        Err(e) => spec == Err::<Seq<u8>, ErrorModel>(e@),
    }
}

impl RsaKeyStore {
    /// Generates a new key pair under `label` and adds it at the end.
    pub fn generate(entries: &mut Vec<KeyEntry>, label: &str, created_secs: i64, created_nanos: u32) -> (r: Result<KeyEntry, SighFarError>)
        ensures
            match r {
                Ok(e) => {
                    &&& final(entries)@.len() == old(entries)@.len() + 1
                    &&& final(entries)@.drop_last() == old(entries)@
                    &&& final(entries)@.last()@ == e@
                    &&& e@.label == label@
                    &&& e@.created_secs == created_secs
                    &&& e@.created_nanos == created_nanos
                    &&& key_record_generated(e@)
                    &&& base64_decoded(e@.public_key_b64) is Some
                    &&& e@.fingerprint == seq!['s', 'h', 'a', '2', '5', '6', ':'] + hex_lower(
                        sha256_of(base64_decoded(e@.public_key_b64)->Some_0),
                    )
                },
                Err(x) => final(entries)@ == old(entries)@ && x@ == ErrorModel::RsaKeyGenerationFailed,
            },
    {
        let entry = new_key_entry(label, created_secs, created_nanos)?;
        let copy = entry.duplicate();
        entries.push(entry);
        assert(entries@.drop_last() =~= old(entries)@);
        Ok(copy)
    }

    /// The key pair labelled `primary`; when there is none, a new one is
    /// generated under that label and added at the end.  Asking again then
    /// gives the same key pair.
    pub fn primary(entries: &mut Vec<KeyEntry>, created_secs: i64, created_nanos: u32) -> (r: Result<KeyEntry, SighFarError>)
        ensures
            primary_result(old(entries)@, final(entries)@, r, created_secs, created_nanos),
    {
        proof {
            reveal_strlit("primary");
            assert("primary"@ =~= primary_label());
        }
        match find_label(entries.as_slice(), "primary") {
            Some(i) => Ok(entries[i].duplicate()),
            None => {
                let r = Self::generate(entries, "primary", created_secs, created_nanos);
                proof {
                    if r is Ok {
                        let n = old(entries)@.len() as int;
                        assert forall|j: int| 0 <= j < n implies (#[trigger] entries@[j]).label@ != primary_label() by {
                            assert(entries@[j] == entries@.drop_last()[j]);
                            assert(old(entries)@[j].label@ != primary_label());
                        }
                        lemma_first_label(entries@, primary_label(), n);
                    }
                }
                r
            },
        }
    }

    /// Removes every key pair labelled `label`; says whether there was one.
    pub fn delete(entries: &mut Vec<KeyEntry>, label: &str) -> (removed: bool)
        ensures
            records(final(entries)@) == records(old(entries)@).filter(label_differs(label@)),
            removed == (first_with_label(old(entries)@, label@) is Some),
            removed == exists|i: int| 0 <= i < old(entries)@.len() && (#[trigger] old(entries)@[i]).label@ == label@,
    {
        let target = chars_of(label);
        let mut kept: Vec<KeyEntry> = Vec::new();
        let mut removed = false;
        let mut i: usize = 0;
        while i < entries.len()
            invariant
                i <= entries@.len(),
                target@ == label@,
                records(kept@) == records(entries@).take(i as int).filter(label_differs(label@)),
                removed == exists|j: int| 0 <= j < i && (#[trigger] entries@[j]).label@ == label@,
            decreases entries@.len() - i,
        {
            let name = chars_of(entries[i].label.as_str());
            let same = chars_equal(name.as_slice(), target.as_slice());
            let ghost before = records(entries@).take(i as int);
            proof {
                assert(records(entries@).take(i as int + 1) =~= before.push(entries@[i as int]@));
                before.lemma_filter_push(entries@[i as int]@, label_differs(label@));
            }
            if same {
                removed = true;
            } else {
                let copy = entries[i].duplicate();
                kept.push(copy);
                assert(records(kept@) =~= records(entries@).take(i as int).filter(label_differs(label@)).push(copy@));
            }
            i = i + 1;
        }
        assert(records(entries@).take(entries@.len() as int) =~= records(entries@));
        proof {
            if removed {
                let j = choose|j: int| 0 <= j < entries@.len() && (#[trigger] entries@[j]).label@ == label@;
                assert(0 <= j < entries@.len() && entries@[j].label@ == label@);
            } else {
                lemma_no_label(entries@, label@);
            }
        }
        *entries = kept;
        removed
    }

    /// Encrypts `plaintext` with the public key labelled `label` (OAEP over
    /// SHA-256).  The ciphertext is random; it decrypts to `plaintext` under
    /// the matching private key, so a key pair made by `generate` decrypts it
    /// back with `decrypt`.
    pub fn encrypt(entries: &[KeyEntry], label: &str, plaintext: &[u8]) -> (r: Result<Vec<u8>, SighFarError>)
        ensures
            encryption_result(r, entries@, label@, plaintext@),
    {
        let i = match find_label(entries, label) {
            Some(i) => i,
            None => return Err(SighFarError::RsaKeyNotFound(label.to_owned())),
        };
        let der = match base64_decode(entries[i].public_key_b64.as_str()) {
            Some(d) => d,
            None => return Err(SighFarError::PublicKeyNotBase64),
        };
        match rsa_oaep_encrypt(der.as_slice(), plaintext) {
            Ok(c) => {
                proof {
                    if key_record_consistent(entries@[i as int]@) {
                        let d = choose|d: Seq<u8>|
                            #![trigger rsa_public_der_of(d)]
                            rsa_private_der_parses(d)
                                && base64_decoded(entries@[i as int]@.private_key_b64) == Some(d)
                                && base64_decoded(entries@[i as int]@.public_key_b64) == Some(rsa_public_der_of(d))
                                && entries@[i as int]@.fingerprint == fingerprint_of(rsa_public_der_of(d));
                        assert(der@ == rsa_public_der_of(d));
                        assert(rsa_oaep_decrypted(d, c@) == Some(plaintext@));
                    }
                }
                Ok(c)
            },
            Err(RsaFailure::BadKey) => Err(SighFarError::PublicKeyUnparsable),
            Err(RsaFailure::Refused) => Err(SighFarError::RsaEncryptionFailed),
        }
    }

    /// Decrypts `ciphertext` with the private key labelled `label` (OAEP
    /// over SHA-256).
    pub fn decrypt(entries: &[KeyEntry], label: &str, ciphertext: &[u8]) -> (r: Result<Vec<u8>, SighFarError>)
        ensures
            bytes_result_matches(r, decrypt_outcome(entries@, label@, ciphertext@)),
    {
        let i = match find_label(entries, label) {
            Some(i) => i,
            None => return Err(SighFarError::RsaKeyNotFound(label.to_owned())),
        };
        let der = match base64_decode(entries[i].private_key_b64.as_str()) {
            Some(d) => d,
            None => return Err(SighFarError::PrivateKeyNotBase64),
        };
        match rsa_oaep_decrypt(der.as_slice(), ciphertext) {
            Ok(v) => Ok(v),
            Err(RsaFailure::BadKey) => Err(SighFarError::PrivateKeyUnparsable),
            Err(RsaFailure::Refused) => Err(SighFarError::RsaDecryptionFailed),
        }
    }
}

} // verus!
