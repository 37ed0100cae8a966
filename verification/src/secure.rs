//! The secure envelope: the output of a cipher chain sealed with AES-256-GCM
//! under a key that Argon2id derives from a passphrase and a companion code.
//! The envelope is the 12-byte nonce followed by the ciphertext, in base64.
use vstd::prelude::*;
use vstd::utf8::{decode_utf8, encode_utf8, valid_utf8};
use crate::error::{ErrorModel, SighFarError};
use crate::models::SecureKeyPair;
use crate::primitives::{
    aes_gcm_decrypt, aes_gcm_encrypt, aes_gcm_opened, aes_gcm_sealed, argon2_derive, argon2_key, base64_len_fits,
    base64_decode, base64_decoded, base64_encode, base64_encode_spec, random_below, random_nonce,
    utf8_to_string,
};
use crate::text::string_from_chars;

verus! {

broadcast use {vstd::utf8::encode_utf8_valid_utf8, vstd::utf8::encode_utf8_decode_utf8};

/// The characters a companion code is drawn from (no I, O, 0 or 1).
pub open spec fn code_alphabet() -> Seq<char> {
    seq![
        'A', 'B', 'C', 'D', 'E', 'F', 'G', 'H', 'J', 'K', 'L', 'M', 'N', 'P', 'Q', 'R',
        'S', 'T', 'U', 'V', 'W', 'X', 'Y', 'Z', '2', '3', '4', '5', '6', '7', '8', '9',
    ]
}

fn code_alphabet_chars() -> (v: Vec<char>)
    ensures
        v@ == code_alphabet(),
{
    vec![
        'A', 'B', 'C', 'D', 'E', 'F', 'G', 'H', 'J', 'K', 'L', 'M', 'N', 'P', 'Q', 'R',
        'S', 'T', 'U', 'V', 'W', 'X', 'Y', 'Z', '2', '3', '4', '5', '6', '7', '8', '9',
    ]
}

/// Whether every character of `s` comes from the companion-code alphabet.
pub open spec fn is_code_text(s: Seq<char>) -> bool {
    forall|i: int| 0 <= i < s.len() ==> code_alphabet().contains(#[trigger] s[i])
}

/// A random code of `length` characters from the companion-code alphabet.
pub fn random_code(length: usize) -> (s: String)
    ensures
        s@.len() == length,
        is_code_text(s@),
{
    let alphabet = code_alphabet_chars();
    let mut out: Vec<char> = Vec::new();
    let mut i: usize = 0;
    while i < length
        invariant
            alphabet@ == code_alphabet(),
            i <= length,
            out@.len() == i,
            is_code_text(out@),
        decreases length - i,
    {
        let idx = random_below(alphabet.len());
        let c = alphabet[idx];
        assert(code_alphabet()[idx as int] == c);
        out.push(c);
        i = i + 1;
    }
    string_from_chars(out.as_slice())
}

/// The 16-byte salt: the companion code's bytes repeated to fill it, or all
/// `X` when the code is empty.
pub open spec fn salt_spec(code_bytes: Seq<u8>) -> Seq<u8> {
    Seq::new(16, |i: int| if code_bytes.len() == 0 { 88u8 } else { code_bytes[i % code_bytes.len() as int] })
}

/// The salt a companion code gives.
pub fn normalized_salt(companion_code: &str) -> (salt: [u8; 16])
    ensures
        salt@ == salt_spec(encode_utf8(companion_code@)),
{
    let bytes = companion_code.as_bytes();
    let mut salt = [0u8; 16];
    let mut idx: usize = 0;
    while idx < 16
        invariant
            bytes@ == encode_utf8(companion_code@),
            idx <= 16,
            salt@.len() == 16,
            forall|j: int| 0 <= j < idx ==> salt@[j] == salt_spec(bytes@)[j],
        decreases 16 - idx,
    {
        let b: u8 = if bytes.len() == 0 { 88 } else { bytes[idx % bytes.len()] };
        salt[idx] = b;
        idx = idx + 1;
    }
    assert(salt@ =~= salt_spec(bytes@));
    salt
}

/// The key a key pair derives: Argon2id over the passphrase's bytes and the
/// companion code's salt; none when the passphrase is over 2^32 - 1 bytes.
pub open spec fn derive_key_spec(passphrase: Seq<char>, companion_code: Seq<char>) -> Option<Seq<u8>> {
    if encode_utf8(passphrase).len() <= 0xFFFF_FFFF {
        Some(argon2_key(encode_utf8(passphrase), salt_spec(encode_utf8(companion_code))))
    } else {
        None
    }
}

/// Derives the envelope key from a key pair.
pub fn derive_key(key_pair: &SecureKeyPair) -> (r: Result<[u8; 32], SighFarError>)
    ensures
        match r {
            Ok(k) => derive_key_spec(key_pair.passphrase@, key_pair.companion_code@) == Some(k@),
            Err(e) => derive_key_spec(key_pair.passphrase@, key_pair.companion_code@) is None
                && e@ == ErrorModel::KeyDerivationFailed,
        },
{
    let salt = normalized_salt(key_pair.companion_code.as_str());
    match argon2_derive(key_pair.passphrase.as_str().as_bytes(), &salt) {
        Some(key) => Ok(key),
        None => Err(SighFarError::KeyDerivationFailed),
    }
}

/// The envelope of `message` under a key pair with a given nonce.
pub open spec fn seal_spec(
    message: Seq<char>,
    passphrase: Seq<char>,
    companion_code: Seq<char>,
    nonce: Seq<u8>,
) -> Result<Seq<char>, ErrorModel> {
    match derive_key_spec(passphrase, companion_code) {
        None => Err(ErrorModel::KeyDerivationFailed),
        Some(key) => if encode_utf8(message).len() > 0x10_0000_0000 || !base64_len_fits(
            encode_utf8(message).len() + 28int,
        ) {
            Err(ErrorModel::EncryptionFailed)
        } else {
            Ok(base64_encode_spec(nonce + aes_gcm_sealed(key, nonce, encode_utf8(message))))
        },
    }
}

/// What opening an envelope gives: each failure in the order the checks run.
pub open spec fn open_spec(payload: Seq<char>, passphrase: Seq<char>, companion_code: Seq<char>) -> Result<Seq<char>, ErrorModel> {
    match base64_decoded(payload) {
        None => Err(ErrorModel::PayloadNotBase64),
        Some(bytes) => if bytes.len() < 12 {
            Err(ErrorModel::PayloadMalformed)
        } else {
            match derive_key_spec(passphrase, companion_code) {
                None => Err(ErrorModel::KeyDerivationFailed),
                Some(key) => match aes_gcm_opened(key, bytes.take(12), bytes.skip(12)) {
                    None => Err(ErrorModel::DecryptionFailed),
                    Some(plain) => if valid_utf8(plain) {
                        Ok(decode_utf8(plain))
                    } else {
                        Err(ErrorModel::PayloadNotUtf8)
                    },
                },
            }
        },
    }
}

/// `payload` is what sealing `message` with some nonce produced.
pub open spec fn sealed_from(
    payload: Seq<char>,
    passphrase: Seq<char>,
    companion_code: Seq<char>,
    message: Seq<char>,
    nonce: Seq<u8>,
) -> bool {
    nonce.len() == 12 && seal_spec(message, passphrase, companion_code, nonce) == Ok::<Seq<char>, ErrorModel>(payload)
}

pub open spec fn string_result_matches(r: Result<String, SighFarError>, spec: Result<Seq<char>, ErrorModel>) -> bool {
    match r {
        Ok(s) => spec == Ok::<Seq<char>, ErrorModel>(s@),
        Err(e) => spec == Err::<Seq<char>, ErrorModel>(e@),
    }
}

/// Seals and opens envelopes.
#[derive(Debug, Clone, Copy, Default)]
pub struct SecureEnvelope;

impl SecureEnvelope {
    /// A key pair: the given passphrase and a fresh 18-character companion code.
    pub fn make_key_pair(&self, passphrase: &str) -> (kp: SecureKeyPair)
        ensures
            kp.passphrase@ == passphrase@,
            kp.companion_code@.len() == 18,
            is_code_text(kp.companion_code@),
    {
        SecureKeyPair { passphrase: passphrase.to_owned(), companion_code: random_code(18) }
    }

    /// Seals `message` with a fresh random nonce.
    pub fn seal(&self, message: &str, key_pair: &SecureKeyPair) -> (r: Result<String, SighFarError>)
        ensures
            exists|nonce: Seq<u8>|
                nonce.len() == 12 && string_result_matches(
                    r,
                    #[trigger] seal_spec(message@, key_pair.passphrase@, key_pair.companion_code@, nonce),
                ),
            r matches Ok(p) ==> open_spec(p@, key_pair.passphrase@, key_pair.companion_code@) == Ok::<Seq<char>, ErrorModel>(
                message@,
            ),
    {
        let nonce = random_nonce();
        self.seal_with_nonce(message, key_pair, &nonce)
    }

    /// Seals `message` with the given nonce.  The envelope opens, with the
    /// same key pair, to `message`.
    pub fn seal_with_nonce(&self, message: &str, key_pair: &SecureKeyPair, nonce: &[u8; 12]) -> (r: Result<String, SighFarError>)
        ensures
            string_result_matches(r, seal_spec(message@, key_pair.passphrase@, key_pair.companion_code@, nonce@)),
            r matches Ok(p) ==> open_spec(p@, key_pair.passphrase@, key_pair.companion_code@) == Ok::<Seq<char>, ErrorModel>(
                message@,
            ),
    {
        let key = derive_key(key_pair)?;
        let ciphertext = match aes_gcm_encrypt(&key, nonce, message.as_bytes()) {
            Some(c) => c,
            None => return Err(SighFarError::EncryptionFailed),
        };
        let mut payload: Vec<u8> = Vec::new();
        let mut i: usize = 0;
        while i < 12
            invariant
                i <= 12,
                payload@ == nonce@.take(i as int),
            decreases 12 - i,
        {
            payload.push(nonce[i]);
            i = i + 1;
            assert(payload@ =~= nonce@.take(i as int));
        }
        let mut j: usize = 0;
        while j < ciphertext.len()
            invariant
                j <= ciphertext@.len(),
                ciphertext@.len() <= 0x10_0000_0010,
                payload@ == nonce@ + ciphertext@.take(j as int),
            decreases ciphertext@.len() - j,
        {
            payload.push(ciphertext[j]);
            j = j + 1;
            assert(payload@ =~= nonce@ + ciphertext@.take(j as int));
        }
        assert(ciphertext@.take(ciphertext@.len() as int) =~= ciphertext@);
        // an envelope whose base64 text would not fit in memory is refused
        let whole = payload.len() / 3;
        let extra: usize = if payload.len() % 3 == 0 { 0 } else { 4 };
        let room = (usize::MAX - extra) / 4;
        proof {
            assert(payload@.len() == encode_utf8(message@).len() + 28);
            assert(whole > room <==> whole * 4 + extra > usize::MAX) by (nonlinear_arith)
                requires room == (usize::MAX - extra) / 4, extra <= 4;
        }
        if whole > room {
            return Err(SighFarError::EncryptionFailed);
        }
        let text = base64_encode(payload.as_slice());
        proof {
            assert(payload@.take(12) =~= nonce@);
            assert(payload@.skip(12) =~= ciphertext@);
        }
        Ok(text)
    }

    /// Opens an envelope with its key pair.  An envelope sealed from a
    /// message with this key pair opens to that message.
    pub fn open(&self, payload: &str, key_pair: &SecureKeyPair) -> (r: Result<String, SighFarError>)
        ensures
            string_result_matches(r, open_spec(payload@, key_pair.passphrase@, key_pair.companion_code@)),
            forall|message: Seq<char>, nonce: Seq<u8>|
                #[trigger] sealed_from(payload@, key_pair.passphrase@, key_pair.companion_code@, message, nonce)
                    ==> (r matches Ok(s) && s@ == message),
    {
        let ghost pass = key_pair.passphrase@;
        let ghost code = key_pair.companion_code@;
        let decoded = match base64_decode(payload) {
            Some(d) => d,
            None => {
                assert forall|m: Seq<char>, n: Seq<u8>| #[trigger] sealed_from(payload@, pass, code, m, n) implies false by {
                    let key = derive_key_spec(pass, code)->Some_0;
                    assert(payload@ == base64_encode_spec(n + aes_gcm_sealed(key, n, encode_utf8(m))));
                }
                return Err(SighFarError::PayloadNotBase64);
            },
        };
        if decoded.len() < 12 {
            assert forall|m: Seq<char>, n: Seq<u8>| #[trigger] sealed_from(payload@, pass, code, m, n) implies false by {
                let key = derive_key_spec(pass, code)->Some_0;
                let x = n + aes_gcm_sealed(key, n, encode_utf8(m));
                assert(payload@ == base64_encode_spec(x));
                assert(decoded@ == x);
            }
            return Err(SighFarError::PayloadMalformed);
        }
        let mut nonce: Vec<u8> = Vec::new();
        let mut i: usize = 0;
        while i < 12
            invariant
                i <= 12,
                decoded@.len() >= 12,
                nonce@ == decoded@.take(i as int),
            decreases 12 - i,
        {
            nonce.push(decoded[i]);
            i = i + 1;
            assert(nonce@ =~= decoded@.take(i as int));
        }
        let mut ciphertext: Vec<u8> = Vec::new();
        let mut j: usize = 12;
        while j < decoded.len()
            invariant
                12 <= j <= decoded@.len(),
                ciphertext@ == decoded@.subrange(12, j as int),
            decreases decoded@.len() - j,
        {
            ciphertext.push(decoded[j]);
            j = j + 1;
            assert(ciphertext@ =~= decoded@.subrange(12, j as int));
        }
        assert(ciphertext@ =~= decoded@.skip(12));
        let key = match derive_key(key_pair) {
            Ok(k) => k,
            Err(e) => {
                return Err(e);
            },
        };
        let plain = match aes_gcm_decrypt(&key, nonce.as_slice(), ciphertext.as_slice()) {
            Some(p) => p,
            None => {
                assert forall|m: Seq<char>, n: Seq<u8>| #[trigger] sealed_from(payload@, pass, code, m, n) implies false by {
                    let x = n + aes_gcm_sealed(key@, n, encode_utf8(m));
                    assert(payload@ == base64_encode_spec(x));
                    assert(decoded@ == x);
                    assert(nonce@ =~= n);
                    assert(ciphertext@ =~= aes_gcm_sealed(key@, n, encode_utf8(m)));
                }
                return Err(SighFarError::DecryptionFailed);
            },
        };
        proof {
            assert forall|m: Seq<char>, n: Seq<u8>| #[trigger] sealed_from(payload@, pass, code, m, n) implies plain@ == encode_utf8(m) by {
                let x = n + aes_gcm_sealed(key@, n, encode_utf8(m));
                assert(payload@ == base64_encode_spec(x));
                assert(decoded@ == x);
                assert(nonce@ =~= n);
                assert(ciphertext@ =~= aes_gcm_sealed(key@, n, encode_utf8(m)));
            }
        }
        match utf8_to_string(plain) {
            Some(s) => Ok(s),
            None => Err(SighFarError::PayloadNotUtf8),
        }
    }
}

} // verus!
