//! Authenticated encryption of the stored secret.
//!
//! A secret is sealed with ChaCha20-Poly1305 under a 32-byte master key and
//! a fresh 96-bit random nonce, and persisted as a versioned payload whose
//! nonce and ciphertext are base64 strings.  Decryption authenticates the
//! ciphertext: a tampered payload or a wrong key is rejected, never decrypted
//! to a different secret.

use vstd::prelude::*;
use vstd::string::*;
use vstd::utf8::*;

use chacha20poly1305::aead::{Aead, Generate, KeyInit};
use chacha20poly1305::{ChaCha20Poly1305, Key, Nonce};
use base64::Engine;
use zeroize::Zeroize;

verus! {

/// Ciphertext (with its appended authentication tag) that ChaCha20-Poly1305
/// produces for the given key, nonce and plaintext.
pub uninterp spec fn aead_seal(key: Seq<u8>, nonce: Seq<u8>, plaintext: Seq<u8>) -> Seq<u8>;

/// The canonical padded base64 encoding of a byte sequence.
pub uninterp spec fn b64_of(bytes: Seq<u8>) -> Seq<char>;

/// Secrets above this size are refused; it lies far below the cipher's own
/// message limit, so a sealed secret of at most this size always opens.
pub const MAX_SECRET_BYTES: usize = 0xFFFF_FFF0;

/// A persisted encrypted secret: version tag, then base64 nonce and
/// base64 ciphertext.
#[derive(Debug, Clone)]
pub struct EncryptedPayload {
    pub version: u8,
    pub nonce: String,
    pub ciphertext: String,
}

#[derive(Debug, Clone, PartialEq, Eq)]
pub enum CryptoError {
    EncryptionFailed(String),
    DecryptionFailed(String),
    InvalidVersion(u8),
    InvalidNonce,
    InvalidCiphertext,
    InvalidUtf8,
}

/// The payload is exactly what sealing `plaintext` under `key` with some
/// 96-bit nonce produces.
pub open spec fn encodes(pl: EncryptedPayload, key: Seq<u8>, plaintext: Seq<u8>) -> bool {
    &&& pl.version == 1
    &&& exists|n: Seq<u8>|
        {
            &&& n.len() == 12
            &&& pl.nonce@ == #[trigger] b64_of(n)
            &&& pl.ciphertext@ == b64_of(aead_seal(key, n, plaintext))
        }
}

/// The nonce field decodes to exactly 12 bytes.
pub open spec fn nonce_decodes(pl: EncryptedPayload) -> bool {
    exists|n: Seq<u8>| n.len() == 12 && pl.nonce@ == #[trigger] b64_of(n)
}

/// The ciphertext field is well-formed base64.
pub open spec fn ciphertext_decodes(pl: EncryptedPayload) -> bool {
    exists|c: Seq<u8>| pl.ciphertext@ == #[trigger] b64_of(c)
}

/// Some plaintext of admissible size authenticates under `key`.
pub open spec fn authentic(pl: EncryptedPayload, key: Seq<u8>) -> bool {
    exists|p: Seq<u8>| #[trigger] encodes(pl, key, p) && p.len() <= MAX_SECRET_BYTES
}

/// The authenticated plaintext is valid UTF-8, so decryption yields a string.
pub open spec fn yields_text(pl: EncryptedPayload, key: Seq<u8>) -> bool {
    exists|p: Seq<u8>|
        #[trigger] encodes(pl, key, p) && p.len() <= MAX_SECRET_BYTES && valid_utf8(p)
}

/// Relies on `Generate` for `chacha20poly1305::Key`: 32 random bytes from the
/// system RNG; nothing is promised of their value.
#[verifier::external_body]
fn aead_generate_key_bytes() -> (r: [u8; 32]) {
    Key::generate().into()
}

/// Relies on `Generate` for `chacha20poly1305::Nonce`: 12 random bytes from
/// the system RNG; nothing is promised of their value.
#[verifier::external_body]
fn aead_generate_nonce_bytes() -> (r: [u8; 12]) {
    Nonce::generate().into()
}

/// Relies on `chacha20poly1305::ChaCha20Poly1305` via `aead::Aead::encrypt`:
/// sealing is a deterministic function of key, nonce and plaintext, appends a
/// 16-byte tag, and succeeds for any message below the cipher's block-count
/// limit (far above `MAX_SECRET_BYTES`).
#[verifier::external_body]
fn aead_encrypt(key: &[u8; 32], nonce: &[u8; 12], plaintext: &[u8]) -> (r: Vec<u8>)
    requires
        plaintext@.len() <= MAX_SECRET_BYTES,
    ensures
        r@ == aead_seal(key@, nonce@, plaintext@),
        r@.len() == plaintext@.len() + 16,
{
    let cipher = ChaCha20Poly1305::new(&Key::from(*key));
    cipher.encrypt(&Nonce::from(*nonce), plaintext).expect("message within the cipher's limit")
}

/// Relies on `chacha20poly1305::ChaCha20Poly1305` via `aead::Aead::decrypt`:
/// it verifies the Poly1305 tag and then inverts the keystream, so it returns
/// a plaintext exactly when the ciphertext is what sealing that plaintext
/// under this key and nonce produces; the plaintext is 16 bytes shorter than
/// the ciphertext.
#[verifier::external_body]
fn aead_decrypt(key: &[u8; 32], nonce: &[u8; 12], ciphertext: &[u8]) -> (r: Option<Vec<u8>>)
    ensures
        r is Some ==> ciphertext@ == aead_seal(key@, nonce@, r->0@) && r->0@.len() + 16
            == ciphertext@.len(),
        forall|p: Seq<u8>|
            ciphertext@ == aead_seal(key@, nonce@, p) && p.len() <= MAX_SECRET_BYTES ==> r is Some
                && r->0@ == p,
{
    let cipher = ChaCha20Poly1305::new(&Key::from(*key));
    cipher.decrypt(&Nonce::from(*nonce), ciphertext).ok()
}

/// Relies on `base64::engine::general_purpose::STANDARD.encode`.
#[verifier::external_body]
pub(crate) fn b64_encode(bytes: &[u8]) -> (r: String)
    ensures
        r@ == b64_of(bytes@),
{
    base64::engine::general_purpose::STANDARD.encode(bytes)
}

/// Relies on `base64::engine::general_purpose::STANDARD.decode`: the engine
/// requires canonical padding and rejects set trailing bits, so it accepts
/// exactly the canonical encodings and inverts them.
#[verifier::external_body]
fn b64_decode(s: &str) -> (r: Option<Vec<u8>>)
    ensures
        r is Some ==> s@ == b64_of(r->0@),
        forall|b: Seq<u8>| s@ == b64_of(b) ==> r is Some && r->0@ == b,
{
    base64::engine::general_purpose::STANDARD.decode(s).ok()
}

/// Relies on `String::from_utf8`: it succeeds exactly on valid UTF-8 and
/// decodes it.
#[verifier::external_body]
pub(crate) fn string_from_utf8(bytes: Vec<u8>) -> (r: Option<String>)
    ensures
        r is Some <==> valid_utf8(bytes@),
        r is Some ==> r->0@ == decode_utf8(bytes@),
{
    String::from_utf8(bytes).ok()
}

/// Relies on `zeroize::Zeroize` for `String`: the backing bytes are
/// overwritten with zeros before the length is set to zero.
#[verifier::external_body]
pub fn zeroize_string(s: &mut String)
    ensures
        final(s)@ == Seq::<char>::empty(),
{
    s.zeroize();
}

/// Lays a build-time passphrase out as a fixed-size byte array, for the
/// static-key storage strategy; the passphrase must be exactly `N` bytes.
pub fn str_to_bytes<const N: usize>(s: &str) -> (r: [u8; N])
    requires
        encode_utf8(s@).len() == N,
    ensures
        r@ == encode_utf8(s@),
{
    let bytes = s.as_bytes();
    let mut arr: [u8; N] = [0u8; N];
    let mut i: usize = 0;
    while i < N
        invariant
            bytes@ == encode_utf8(s@),
            bytes@.len() == N,
            0 <= i <= N,
            arr@.len() == N,
            forall|j: int| 0 <= j < i ==> arr@[j] == bytes@[j],
        decreases N - i,
    {
        arr[i] = bytes[i];
        i += 1;
    }
    proof {
        assert(arr@ =~= encode_utf8(s@));
    }
    arr
}

/// A fresh random 32-byte master key.
pub fn generate_master_key() -> (r: Result<[u8; 32], CryptoError>)
    ensures
        r is Ok,
{
    Ok(aead_generate_key_bytes())
}

/// Seals `api_key` under `master_key` with a fresh random nonce.
pub fn encrypt_api_key(api_key: &str, master_key: &[u8; 32]) -> (r: Result<
    EncryptedPayload,
    CryptoError,
>)
    ensures
        r is Ok <==> encode_utf8(api_key@).len() <= MAX_SECRET_BYTES,
        r is Ok ==> encodes(r->Ok_0, master_key@, encode_utf8(api_key@)),
        r is Err ==> r->Err_0 matches CryptoError::EncryptionFailed(_),
{
    let bytes = api_key.as_bytes_vec();
    if bytes.len() > MAX_SECRET_BYTES {
        return Err(CryptoError::EncryptionFailed(String::from_str("message too long")));
    }
    let nonce = aead_generate_nonce_bytes();
    let sealed = aead_encrypt(master_key, &nonce, bytes.as_slice());
    let payload = EncryptedPayload {
        version: 1,
        nonce: b64_encode(nonce.as_slice()),
        ciphertext: b64_encode(sealed.as_slice()),
    };
    proof {
        assert(payload.nonce@ == b64_of(nonce@));
        assert(encodes(payload, master_key@, encode_utf8(api_key@)));
    }
    Ok(payload)
}

/// Opens a payload under `master_key`.
///
/// Every secret the payload authentically encodes is returned, and only such
/// a secret is ever returned; each malformation is rejected with its own
/// error, in the order version, nonce, ciphertext, authentication, UTF-8.
pub fn decrypt_api_key(payload: &EncryptedPayload, master_key: &[u8; 32]) -> (r: Result<
    String,
    CryptoError,
>)
    ensures
        (payload.version != 1) <==> r == Err::<String, CryptoError>(
            CryptoError::InvalidVersion(payload.version),
        ),
        (payload.version == 1 && !nonce_decodes(*payload)) <==> r == Err::<String, CryptoError>(
            CryptoError::InvalidNonce,
        ),
        (payload.version == 1 && nonce_decodes(*payload) && !ciphertext_decodes(*payload)) <==> r
            == Err::<String, CryptoError>(CryptoError::InvalidCiphertext),
        (payload.version == 1 && nonce_decodes(*payload) && ciphertext_decodes(*payload)
            && !authentic(*payload, master_key@)) <==> (r matches Err(
            CryptoError::DecryptionFailed(_),
        )),
        (authentic(*payload, master_key@) && !yields_text(*payload, master_key@)) <==> r
            == Err::<String, CryptoError>(CryptoError::InvalidUtf8),
        r is Ok ==> encodes(*payload, master_key@, encode_utf8(r->Ok_0@)),
        forall|s: Seq<char>|
            #[trigger] encodes(*payload, master_key@, encode_utf8(s)) && encode_utf8(s).len()
                <= MAX_SECRET_BYTES ==> r is Ok && r->Ok_0@ == s,
{
    broadcast use encode_utf8_valid_utf8, encode_utf8_decode_utf8, decode_utf8_encode_utf8;

    if payload.version != 1 {
        return Err(CryptoError::InvalidVersion(payload.version));
    }
    let nonce_bytes = match b64_decode(payload.nonce.as_str()) {
        Some(b) => b,
        None => {
            return Err(CryptoError::InvalidNonce);
        },
    };
    if nonce_bytes.len() != 12 {
        return Err(CryptoError::InvalidNonce);
    }
    let mut nonce: [u8; 12] = [0u8; 12];
    let mut i: usize = 0;
    while i < 12
        invariant
            0 <= i <= 12,
            nonce_bytes@.len() == 12,
            forall|j: int| 0 <= j < i ==> nonce@[j] == nonce_bytes@[j],
        decreases 12 - i,
    {
        nonce[i] = nonce_bytes[i];
        i += 1;
    }
    proof {
        assert(nonce@ =~= nonce_bytes@);
    }
    let ciphertext = match b64_decode(payload.ciphertext.as_str()) {
        Some(b) => b,
        None => {
            return Err(CryptoError::InvalidCiphertext);
        },
    };
    let opened = match aead_decrypt(master_key, &nonce, ciphertext.as_slice()) {
        Some(p) => p,
        None => {
            return Err(CryptoError::DecryptionFailed(String::from_str("authentication failed")));
        },
    };
    if opened.len() > MAX_SECRET_BYTES {
        return Err(CryptoError::DecryptionFailed(String::from_str("authentication failed")));
    }
    proof {
        assert(encodes(*payload, master_key@, opened@));
    }
    match string_from_utf8(opened) {
        Some(text) => Ok(text),
        None => Err(CryptoError::InvalidUtf8),
    }
}

} // verus!
