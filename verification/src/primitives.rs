//! The calls into outside crates (and the few standard-library functions
//! that vstd does not specify) that the library's logic makes, each with what
//! it is trusted to do.  Nothing here is proved; everything else in the
//! library is proved against these contracts.  (`text::string_from_chars` is
//! the one other trusted call.)
use vstd::prelude::*;
use vstd::utf8::{decode_utf8, valid_utf8};

verus! {

// ---------------------------------------------------------------- digests

/// The SHA-256 digest of a byte string (FIPS 180-4).
pub uninterp spec fn sha256_of(data: Seq<u8>) -> Seq<u8>;

/// The SHA-512 digest of a byte string (FIPS 180-4).
pub uninterp spec fn sha512_of(data: Seq<u8>) -> Seq<u8>;

/// `sha2::Sha256::digest`: trusted to return the 32-byte SHA-256 digest of
/// `data`, a function of `data` alone.
#[verifier::external_body]
pub(crate) fn sha256_digest(data: &[u8]) -> (d: Vec<u8>)
    ensures
        d@ == sha256_of(data@),
        d@.len() == 32,
{
    <sha2::Sha256 as sha2::Digest>::digest(data).to_vec()
}

/// `sha2::Sha512::digest`: trusted to return the 64-byte SHA-512 digest of
/// `data`, a function of `data` alone.
#[verifier::external_body]
pub(crate) fn sha512_digest(data: &[u8]) -> (d: Vec<u8>)
    ensures
        d@ == sha512_of(data@),
        d@.len() == 64,
{
    <sha2::Sha512 as sha2::Digest>::digest(data).to_vec()
}

// ---------------------------------------------------------------- hex

pub open spec fn hex_digit(n: int) -> char {
    if n < 10 { ((48 + n) as u8) as char } else { ((87 + n) as u8) as char }
}

/// Two lowercase hex digits per byte, high nibble first.
pub open spec fn hex_lower(data: Seq<u8>) -> Seq<char> {
    Seq::new(
        2 * data.len(),
        |i: int| if i % 2 == 0 { hex_digit(data[i / 2] as int / 16) } else { hex_digit(data[i / 2] as int % 16) },
    )
}

/// `hex::encode`: trusted to write each byte as two lowercase hex digits
/// from the table `0123456789abcdef`, high nibble first.
#[verifier::external_body]
pub(crate) fn hex_encode(data: &[u8]) -> (s: String)
    ensures
        s@ == hex_lower(data@),
{
    hex::encode(data)
}


// ---------------------------------------------------------------- base64

/// The character for a 6-bit value in the standard base64 alphabet.
pub open spec fn base64_char(n: int) -> char {
    if n < 26 {
        ((65 + n) as u8) as char
    } else if n < 52 {
        ((71 + n) as u8) as char
    } else if n < 62 {
        ((n - 4) as u8) as char
    } else if n == 62 {
        '+'
    } else {
        '/'
    }
}

/// Standard base64 with `=` padding (RFC 4648, section 4).
pub open spec fn base64_encode_spec(b: Seq<u8>) -> Seq<char>
    decreases b.len(),
{
    if b.len() == 0 {
        Seq::empty()
    } else if b.len() == 1 {
        let x = b[0] as int;
        seq![base64_char(x / 4), base64_char((x % 4) * 16), '=', '=']
    } else if b.len() == 2 {
        let (x, y) = (b[0] as int, b[1] as int);
        seq![base64_char(x / 4), base64_char((x % 4) * 16 + y / 16), base64_char((y % 16) * 4), '=']
    } else {
        let (x, y, z) = (b[0] as int, b[1] as int, b[2] as int);
        seq![
            base64_char(x / 4),
            base64_char((x % 4) * 16 + y / 16),
            base64_char((y % 16) * 4 + z / 64),
            base64_char(z % 64),
        ] + base64_encode_spec(b.skip(3))
    }
}

/// Whether the padded base64 length of `n` bytes fits in a `usize`.
pub open spec fn base64_len_fits(n: int) -> bool {
    (n / 3) * 4 + (if n % 3 == 0 { 0int } else { 4int }) <= usize::MAX
}

/// What `base64`'s standard engine decodes a text into, if it accepts it.
pub uninterp spec fn base64_decoded(text: Seq<char>) -> Option<Seq<u8>>;

/// `base64::engine::general_purpose::STANDARD.encode`: trusted to write the
/// standard padded base64 of `data`, which the same engine decodes back to
/// `data`.  It panics when the output length
/// overflows `usize`, which `requires` rules out.
#[verifier::external_body]
pub(crate) fn base64_encode(data: &[u8]) -> (s: String)
    requires
        base64_len_fits(data@.len() as int),
    ensures
        s@ == base64_encode_spec(data@),
        base64_decoded(s@) == Some(data@),
{
    <base64::engine::GeneralPurpose as base64::Engine>::encode(&base64::engine::general_purpose::STANDARD, data)
}

/// `base64::engine::general_purpose::STANDARD.decode`: trusted to be a
/// function of the text, and to give back the bytes of any text that its own
/// encoder wrote.  Which other texts it accepts is not stated here.
#[verifier::external_body]
pub(crate) fn base64_decode(text: &str) -> (r: Option<Vec<u8>>)
    ensures
        r is Some <==> base64_decoded(text@) is Some,
        r matches Some(v) ==> base64_decoded(text@) == Some(v@),
        (exists|x: Seq<u8>| text@ == base64_encode_spec(x)) ==> r is Some,
        r matches Some(v) ==> forall|x: Seq<u8>| text@ == base64_encode_spec(x) ==> v@ == x,
{
    <base64::engine::GeneralPurpose as base64::Engine>::decode(&base64::engine::general_purpose::STANDARD, text).ok()
}

// ---------------------------------------------------------------- AES-256-GCM

/// AES-256-GCM ciphertext with its 16-byte tag appended, no associated data.
pub uninterp spec fn aes_gcm_sealed(key: Seq<u8>, nonce: Seq<u8>, plaintext: Seq<u8>) -> Seq<u8>;

/// AES-256-GCM decryption, no associated data: the plaintext when the tag
/// checks out.
pub uninterp spec fn aes_gcm_opened(key: Seq<u8>, nonce: Seq<u8>, ciphertext: Seq<u8>) -> Option<Seq<u8>>;

/// `aes_gcm::Aes256Gcm::encrypt` under a 32-byte key and a 12-byte nonce:
/// trusted to succeed exactly when the plaintext is at most 2^36 bytes (the
/// crate's `P_MAX`), and then to return the ciphertext followed by the tag,
/// which `decrypt` under the same key and nonce opens to the plaintext.
#[verifier::external_body]
pub(crate) fn aes_gcm_encrypt(key: &[u8], nonce: &[u8], plaintext: &[u8]) -> (r: Option<Vec<u8>>)
    requires
        key@.len() == 32,
        nonce@.len() == 12,
    ensures
        r is Some <==> plaintext@.len() <= 0x10_0000_0000,
        r matches Some(c) ==> c@ == aes_gcm_sealed(key@, nonce@, plaintext@) && c@.len() == plaintext@.len() + 16,
        r matches Some(c) ==> aes_gcm_opened(key@, nonce@, c@) == Some(plaintext@),
{
    let cipher = <aes_gcm::Aes256Gcm as aes_gcm::KeyInit>::new_from_slice(key).ok()?;
    aes_gcm::aead::Aead::encrypt(&cipher, aes_gcm::Nonce::from_slice(nonce), plaintext).ok()
}

/// `aes_gcm::Aes256Gcm::decrypt` under a 32-byte key and a 12-byte nonce:
/// trusted to be a function of its arguments, to refuse anything shorter than
/// a tag, and to give back the plaintext of what `encrypt` made under the
/// same key and nonce from a plaintext of at most 2^36 bytes (longer
/// ciphertexts than the crate's `C_MAX` are refused).
#[verifier::external_body]
pub(crate) fn aes_gcm_decrypt(key: &[u8], nonce: &[u8], ciphertext: &[u8]) -> (r: Option<Vec<u8>>)
    requires
        key@.len() == 32,
        nonce@.len() == 12,
    ensures
        r is Some <==> aes_gcm_opened(key@, nonce@, ciphertext@) is Some,
        r matches Some(v) ==> aes_gcm_opened(key@, nonce@, ciphertext@) == Some(v@),
        ciphertext@.len() < 16 ==> r is None,
        (exists|p: Seq<u8>| p.len() <= 0x10_0000_0000 && ciphertext@ == aes_gcm_sealed(key@, nonce@, p)) ==> r is Some,
        r matches Some(v) ==> forall|p: Seq<u8>|
            p.len() <= 0x10_0000_0000 && ciphertext@ == aes_gcm_sealed(key@, nonce@, p) ==> v@ == p,
{
    let cipher = <aes_gcm::Aes256Gcm as aes_gcm::KeyInit>::new_from_slice(key).ok()?;
    aes_gcm::aead::Aead::decrypt(&cipher, aes_gcm::Nonce::from_slice(nonce), ciphertext).ok()
}

// ---------------------------------------------------------------- Argon2

/// The 32-byte key Argon2id (version 0x13, m = 19 MiB, t = 2, p = 1) derives.
pub uninterp spec fn argon2_key(password: Seq<u8>, salt: Seq<u8>) -> Seq<u8>;

/// `argon2::Argon2::default().hash_password_into` with a 32-byte output:
/// trusted to fail only for a password over 2^32 - 1 bytes (the salt's
/// length is required to be in range), and otherwise to fill the key.
#[verifier::external_body]
pub(crate) fn argon2_derive(password: &[u8], salt: &[u8]) -> (r: Option<[u8; 32]>)
    requires
        8 <= salt@.len() <= 0xFFFF_FFFF,
    ensures
        r is Some <==> password@.len() <= 0xFFFF_FFFF,
        r matches Some(k) ==> k@ == argon2_key(password@, salt@),
{
    let mut key = [0u8; 32];
    argon2::Argon2::default().hash_password_into(password, salt, &mut key).ok()?;
    Some(key)
}

// ---------------------------------------------------------------- randomness

/// `rand::rng().fill` on 12 bytes: a fresh random nonce.  Nothing is
/// claimed about the bytes.
#[verifier::external_body]
pub(crate) fn random_nonce() -> (n: [u8; 12]) {
    let mut nonce = [0u8; 12];
    rand::Rng::fill(&mut rand::rng(), &mut nonce);
    nonce
}

/// `rand::rng().fill` on 32 bytes: a fresh random key.  Nothing is claimed
/// about the bytes.
#[verifier::external_body]
pub(crate) fn random_key() -> (k: [u8; 32]) {
    let mut key = [0u8; 32];
    rand::Rng::fill(&mut rand::rng(), &mut key);
    key
}

/// `rand::rng().random_range(0..bound)`: trusted to lie below `bound`; it
/// panics on an empty range, which `requires` rules out.
#[verifier::external_body]
pub(crate) fn random_below(bound: usize) -> (r: usize)
    requires
        bound > 0,
    ensures
        r < bound,
{
    rand::Rng::random_range(&mut rand::rng(), 0..bound)
}

// ---------------------------------------------------------------- UTF-8

/// `String::from_utf8`: trusted to accept exactly valid UTF-8 and to decode it.
#[verifier::external_body]
pub(crate) fn utf8_to_string(bytes: Vec<u8>) -> (r: Option<String>)
    ensures
        r is Some <==> valid_utf8(bytes@),
        r matches Some(s) ==> s@ == decode_utf8(bytes@),
{
    String::from_utf8(bytes).ok()
}


// ---------------------------------------------------------------- RSA

/// Why an RSA call failed: the key's DER did not parse, or the operation
/// itself was refused.
#[derive(Debug, Clone, Copy, PartialEq, Eq, Structural)]
pub enum RsaFailure {
    BadKey,
    Refused,
}

/// Whether bytes are the PKCS#8 DER of an RSA private key.
pub uninterp spec fn rsa_private_der_parses(der: Seq<u8>) -> bool;

/// Whether bytes are the PKCS#1 DER of an RSA public key that the crate
/// accepts (its modulus at most 4096 bits).
pub uninterp spec fn rsa_public_der_parses(der: Seq<u8>) -> bool;

/// The PKCS#1 DER of the public half of a PKCS#8 private key.
pub uninterp spec fn rsa_public_der_of(private_der: Seq<u8>) -> Seq<u8>;

/// The length in bytes of the modulus of a PKCS#8 private key (`size()`).
pub uninterp spec fn rsa_private_modulus_len(private_der: Seq<u8>) -> nat;

/// The length in bytes of the modulus of a PKCS#1 public key (`size()`).
pub uninterp spec fn rsa_public_modulus_len(public_der: Seq<u8>) -> nat;

/// RSA-OAEP (SHA-256) decryption under a PKCS#8 private key.
pub uninterp spec fn rsa_oaep_decrypted(private_der: Seq<u8>, ciphertext: Seq<u8>) -> Option<Seq<u8>>;

/// `rsa::RsaPrivateKey::new` with the OS generator and 2048 bits, written
/// out with `to_pkcs8_der`: a fresh key, or nothing when generation or
/// encoding fails.  Trusted to give DER that parses back as a private key
/// whose modulus is exactly 2048 bits (256 bytes): the generator retries
/// until the modulus has the asked bit size.
#[verifier::external_body]
pub(crate) fn rsa_generate_private_der() -> (r: Option<Vec<u8>>)
    ensures
        r matches Some(d) ==> rsa_private_der_parses(d@) && rsa_private_modulus_len(d@) == 256,
{
    let key = rsa::RsaPrivateKey::new(&mut rand_core::OsRng, 2048).ok()?;
    let der = <rsa::RsaPrivateKey as rsa::pkcs8::EncodePrivateKey>::to_pkcs8_der(&key).ok()?;
    Some(der.as_bytes().to_vec())
}

/// `rsa::RsaPublicKey::from` on the key that `from_pkcs8_der` reads, written
/// out with `to_pkcs1_der`: trusted to succeed exactly for a private key DER
/// that parses, and to be a function of those bytes, with the same modulus.
/// The result parses back as a public key when the modulus is at most 4096
/// bits (512 bytes): the crate refuses larger public keys, which it does not
/// refuse as private keys, and the private key's own checks are the others
/// that a public key must pass.
#[verifier::external_body]
pub(crate) fn rsa_public_der(private_der: &[u8]) -> (r: Option<Vec<u8>>)
    ensures
        r is Some <==> rsa_private_der_parses(private_der@),
        r matches Some(v) ==> v@ == rsa_public_der_of(private_der@),
        r matches Some(v) ==> rsa_public_modulus_len(v@) == rsa_private_modulus_len(private_der@),
        r matches Some(v) ==> (rsa_private_modulus_len(private_der@) <= 512 ==> rsa_public_der_parses(v@)),
{
    let key = <rsa::RsaPrivateKey as rsa::pkcs8::DecodePrivateKey>::from_pkcs8_der(private_der).ok()?;
    let public = rsa::RsaPublicKey::from(&key);
    let der = <rsa::RsaPublicKey as rsa::pkcs1::EncodeRsaPublicKey>::to_pkcs1_der(&public).ok()?;
    Some(der.as_bytes().to_vec())
}

/// `rsa::RsaPublicKey::encrypt` with the OS generator and OAEP over SHA-256,
/// on the key that `from_pkcs1_der` reads.  The ciphertext is random;
/// trusted to decrypt to the plaintext under any private key whose public
/// half is this key, and, for a key that parses, to succeed exactly when the
/// plaintext is at most the modulus length less 66 bytes (twice the SHA-256
/// size, plus 2).  A failure of the OS random source panics in the crate and
/// is not a result.
#[verifier::external_body]
pub(crate) fn rsa_oaep_encrypt(public_der: &[u8], plaintext: &[u8]) -> (r: Result<Vec<u8>, RsaFailure>)
    ensures
        (r matches Err(f) && f == RsaFailure::BadKey) <==> !rsa_public_der_parses(public_der@),
        rsa_public_der_parses(public_der@) ==> (r is Ok <==> plaintext@.len() + 66 <= rsa_public_modulus_len(
            public_der@,
        )),
        r matches Ok(c) ==> forall|sk: Seq<u8>|
            rsa_private_der_parses(sk) && rsa_public_der_of(sk) == public_der@
                ==> #[trigger] rsa_oaep_decrypted(sk, c@) == Some(plaintext@),
{
    let key = <rsa::RsaPublicKey as rsa::pkcs1::DecodeRsaPublicKey>::from_pkcs1_der(public_der)
        .map_err(|_| RsaFailure::BadKey)?;
    key.encrypt(&mut rand_core::OsRng, rsa::Oaep::new::<rsa::sha2::Sha256>(), plaintext)
        .map_err(|_| RsaFailure::Refused)
}

/// `rsa::RsaPrivateKey::decrypt` with OAEP over SHA-256, on the key that
/// `from_pkcs8_der` reads: trusted to be a function of the key's bytes and
/// the ciphertext.
#[verifier::external_body]
pub(crate) fn rsa_oaep_decrypt(private_der: &[u8], ciphertext: &[u8]) -> (r: Result<Vec<u8>, RsaFailure>)
    ensures
        r matches Ok(v) ==> rsa_private_der_parses(private_der@) && rsa_oaep_decrypted(private_der@, ciphertext@) == Some(v@),
        r matches Err(f) ==> (f == RsaFailure::BadKey <==> !rsa_private_der_parses(private_der@))
            && (f == RsaFailure::Refused ==> rsa_oaep_decrypted(private_der@, ciphertext@) is None),
{
    let key = <rsa::RsaPrivateKey as rsa::pkcs8::DecodePrivateKey>::from_pkcs8_der(private_der)
        .map_err(|_| RsaFailure::BadKey)?;
    key.decrypt(rsa::Oaep::new::<rsa::sha2::Sha256>(), ciphertext).map_err(|_| RsaFailure::Refused)
}

// ---------------------------------------------------------------- time

/// The RFC 3339 text of a UTC time given in seconds and nanoseconds since
/// the Unix epoch, when the time is one chrono can represent.
pub uninterp spec fn rfc3339_text(secs: i64, nanos: u32) -> Option<Seq<char>>;

/// `chrono::DateTime::<chrono::Utc>::from_timestamp` followed by
/// `to_rfc3339`: trusted to be a function of the two numbers, and to give
/// nothing exactly when chrono cannot represent the time.
#[verifier::external_body]
pub(crate) fn rfc3339_utc(secs: i64, nanos: u32) -> (r: Option<String>)
    ensures
        r is Some <==> rfc3339_text(secs, nanos) is Some,
        r matches Some(s) ==> rfc3339_text(secs, nanos) == Some(s@),
{
    match chrono::DateTime::<chrono::Utc>::from_timestamp(secs, nanos) {
        Some(t) => Some(t.to_rfc3339()),
        None => None,
    }
}

// ---------------------------------------------------------------- lowercase

/// What `str::to_lowercase` gives for a text, by the standard library's
/// Unicode tables and context rules.
pub uninterp spec fn text_lowercase(s: Seq<char>) -> Seq<char>;

/// `str::to_lowercase`: trusted to be a function of the text.
#[verifier::external_body]
pub(crate) fn str_lowercase(s: &str) -> (r: String)
    ensures
        r@ == text_lowercase(s@),
{
    s.to_lowercase()
}

} // verus!
