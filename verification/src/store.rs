//! The encrypted file format that the history and the key store share: a
//! 12-byte nonce followed by the AES-256-GCM ciphertext of the contents,
//! under a 32-byte key kept in a file of its own.
use vstd::prelude::*;
use crate::primitives::{aes_gcm_decrypt, aes_gcm_encrypt, aes_gcm_opened, aes_gcm_sealed, base64_len_fits, random_key};
use crate::text::{string_from_chars};

verus! {

/// A key file's contents as a key: exactly 32 bytes.
pub fn key_from_bytes(bytes: &[u8]) -> (r: Option<[u8; 32]>)
    ensures
        r is Some <==> bytes@.len() == 32,
        r matches Some(k) ==> k@ == bytes@,
{
    if bytes.len() != 32 {
        return None;
    }
    let mut key = [0u8; 32];
    let mut i: usize = 0;
    while i < 32
        invariant
            bytes@.len() == 32,
            i <= 32,
            key@.len() == 32,
            forall|j: int| 0 <= j < i ==> key@[j] == bytes@[j],
        decreases 32 - i,
    {
        key[i] = bytes[i];
        i = i + 1;
    }
    assert(key@ =~= bytes@);
    Some(key)
}

/// The key of a store: the key file's bytes when there is a key file (they
/// must be 32), else a fresh random key, marked `true`, that the caller is to
/// write out as the new key file.
pub fn key_or_fresh(existing: Option<&[u8]>) -> (r: Option<([u8; 32], bool)>)
    ensures
        match existing {
            Some(b) => (r is Some <==> b@.len() == 32) && (r matches Some((k, fresh)) ==> k@ == b@ && !fresh),
            None => r matches Some((_, fresh)) && fresh,
        },
{
    match existing {
        Some(b) => match key_from_bytes(b) {
            Some(k) => Some((k, false)),
            None => None,
        },
        None => Some((random_key(), true)),
    }
}

/// Whether `n` bytes have a base64 text whose length fits in a `usize`.
pub fn base64_fits(n: usize) -> (b: bool)
    ensures
        b == base64_len_fits(n as int),
{
    let whole = n / 3;
    let extra: usize = if n % 3 == 0 { 0 } else { 4 };
    let room = (usize::MAX - extra) / 4;
    assert(whole > room <==> whole * 4 + extra > usize::MAX) by (nonlinear_arith)
        requires
            room == (usize::MAX - extra) / 4,
            extra <= 4,
    ;
    whole <= room
}

/// The stored form of `plaintext`.
pub open spec fn sealed_file(plaintext: Seq<u8>, key: Seq<u8>, nonce: Seq<u8>) -> Seq<u8> {
    nonce + aes_gcm_sealed(key, nonce, plaintext)
}

/// What a stored file decrypts to.
pub open spec fn opened_file(payload: Seq<u8>, key: Seq<u8>) -> Option<Seq<u8>> {
    aes_gcm_opened(key, payload.take(12), payload.skip(12))
}

/// Encrypts file contents under `key` with `nonce`; contents over 2^36 bytes
/// are refused.
pub fn seal_file(plaintext: &[u8], key: &[u8; 32], nonce: &[u8; 12]) -> (r: Option<Vec<u8>>)
    ensures
        r is Some <==> plaintext@.len() <= 0x10_0000_0000,
        r matches Some(v) ==> v@ == sealed_file(plaintext@, key@, nonce@),
{
    let ciphertext = aes_gcm_encrypt(key, nonce, plaintext)?;
    let mut out: Vec<u8> = Vec::new();
    let mut i: usize = 0;
    while i < 12
        invariant
            i <= 12,
            out@ == nonce@.take(i as int),
        decreases 12 - i,
    {
        out.push(nonce[i]);
        i = i + 1;
        assert(out@ =~= nonce@.take(i as int));
    }
    let mut j: usize = 0;
    while j < ciphertext.len()
        invariant
            j <= ciphertext@.len(),
            out@ == nonce@ + ciphertext@.take(j as int),
        decreases ciphertext@.len() - j,
    {
        out.push(ciphertext[j]);
        j = j + 1;
        assert(out@ =~= nonce@ + ciphertext@.take(j as int));
    }
    assert(ciphertext@.take(ciphertext@.len() as int) =~= ciphertext@);
    Some(out)
}

/// Decrypts a stored file of at least 12 bytes.  A file sealed under the
/// same key opens to what was sealed.
pub fn open_file(payload: &[u8], key: &[u8; 32]) -> (r: Option<Vec<u8>>)
    requires
        payload@.len() >= 12,
    ensures
        r is Some <==> opened_file(payload@, key@) is Some,
        r matches Some(v) ==> opened_file(payload@, key@) == Some(v@),
        forall|p: Seq<u8>, nonce: Seq<u8>|
            nonce.len() == 12 && p.len() <= 0x10_0000_0000 && payload@ == #[trigger] sealed_file(p, key@, nonce) ==> (r matches Some(v) && v@ == p),
{
    let mut nonce: Vec<u8> = Vec::new();
    let mut i: usize = 0;
    while i < 12
        invariant
            payload@.len() >= 12,
            i <= 12,
            nonce@ == payload@.take(i as int),
        decreases 12 - i,
    {
        nonce.push(payload[i]);
        i = i + 1;
        assert(nonce@ =~= payload@.take(i as int));
    }
    let mut ciphertext: Vec<u8> = Vec::new();
    let mut j: usize = 12;
    while j < payload.len()
        invariant
            12 <= j <= payload@.len(),
            ciphertext@ == payload@.subrange(12, j as int),
        decreases payload@.len() - j,
    {
        ciphertext.push(payload[j]);
        j = j + 1;
        assert(ciphertext@ =~= payload@.subrange(12, j as int));
    }
    assert(ciphertext@ =~= payload@.skip(12));
    let r = aes_gcm_decrypt(key, nonce.as_slice(), ciphertext.as_slice());
    proof {
        assert forall|p: Seq<u8>, n: Seq<u8>|
            n.len() == 12 && p.len() <= 0x10_0000_0000 && payload@ == #[trigger] sealed_file(p, key@, n) implies (r matches Some(v) && v@ == p) by {
            assert(nonce@ =~= n);
            assert(ciphertext@ =~= aes_gcm_sealed(key@, n, p));
        }
    }
    r
}

/// `base` and `name` joined with a `/` unless `base` is empty or already ends
/// in one.
pub open spec fn join_path(base: Seq<char>, name: Seq<char>) -> Seq<char> {
    if base.len() == 0 {
        name
    } else if base.last() == '/' {
        base + name
    } else {
        base + seq!['/'] + name
    }
}

/// A file path under a directory.
pub fn join_path_text(base: &str, name: &str) -> (r: String)
    ensures
        r@ == join_path(base@, name@),
{
    let b = crate::text::chars_of(base);
    let n = crate::text::chars_of(name);
    let mut out: Vec<char> = Vec::new();
    let mut i: usize = 0;
    while i < b.len()
        invariant
            i <= b@.len(),
            out@ == b@.take(i as int),
        decreases b@.len() - i,
    {
        out.push(b[i]);
        i = i + 1;
        assert(out@ =~= b@.take(i as int));
    }
    assert(b@.take(b@.len() as int) =~= b@);
    if b.len() > 0 && b[b.len() - 1] != '/' {
        out.push('/');
    }
    let ghost mid = out@;
    let mut j: usize = 0;
    while j < n.len()
        invariant
            j <= n@.len(),
            out@ == mid + n@.take(j as int),
        decreases n@.len() - j,
    {
        out.push(n[j]);
        j = j + 1;
        assert(out@ =~= mid + n@.take(j as int));
    }
    assert(n@.take(n@.len() as int) =~= n@);
    proof {
        if b@.len() == 0 {
            assert(out@ =~= n@);
        }
    }
    string_from_chars(out.as_slice())
}

} // verus!
