//! The cryptographic boundary of the library.
//!
//! Each outside primitive (the password KDF, the authenticated cipher, the
//! hash, base64, the random generator) is reached through one trusted item
//! whose contract states what that crate's source shows. Everything above
//! these wrappers is verified.

use vstd::prelude::*;

use aes_gcm::aead::Aead;
use aes_gcm::{Aes256Gcm, KeyInit};
use argon2::password_hash::SaltString;
use argon2::{Argon2, PasswordHasher};
use base64::engine::general_purpose::STANDARD;
use base64::Engine;
use sha2::{Digest, Sha256};

use crate::models::VaultError;
use crate::text::bytes_of_str;
use crate::transform::{fibbil_hash, spec_fibbil_hash};

verus! {

/// The 32-byte key that the Argon2id KDF (default parameters) derives from
/// a password and a salt. A function of its arguments alone.
pub uninterp spec fn argon2_key(password: Seq<u8>, salt: Seq<u8>) -> Seq<u8>;

/// What AES-256-GCM decryption returns for a key, nonce and ciphertext:
/// the plaintext when the ciphertext authenticates, nothing otherwise.
/// A function of its arguments alone.
pub uninterp spec fn gcm_plain(key: Seq<u8>, nonce: Seq<u8>, ct: Seq<u8>) -> Option<Seq<u8>>;

/// The SHA-256 digest of a byte sequence.
pub uninterp spec fn sha256_of(data: Seq<u8>) -> Seq<u8>;

/// The standard (padded) base64 text of a byte sequence.
pub uninterp spec fn b64_text(data: Seq<u8>) -> Seq<char>;

/// What standard base64 decoding returns: the bytes when the text is a
/// valid encoding, nothing otherwise.
pub uninterp spec fn b64_data(text: Seq<char>) -> Option<Seq<u8>>;

/// The characters base64 text is made of.
pub open spec fn is_b64_char(c: char) -> bool {
    ('A' <= c && c <= 'Z') || ('a' <= c && c <= 'z') || ('0' <= c && c <= '9') || c == '+' || c
        == '/' || c == '='
}

/// Relies on `rand::random` for fresh nonce and salt bytes. Nothing can
/// be promised of a random value, so this has no `ensures`; what matters
/// (nonce freshness per save) is checked statistically by the tests.
pub assume_specification<T>[ rand::random::<T> ]() -> (r: T)
    where
        rand::distributions::Standard: rand::distributions::Distribution<T>,
;

/// Relies on `argon2::Argon2::hash_password` with default parameters and
/// `SaltString::encode_b64`: the KDF is deterministic, yields a 32-byte
/// output, and the pipeline fails exactly when the salt is shorter than 8
/// or longer than 48 bytes, or the password exceeds 2^32 - 1 bytes.
/// Salts of fewer than 3 bytes encode to fewer than the four base64
/// characters the salt conversion insists on and would panic inside
/// `hash_password`, so the caller excludes them.
#[verifier::external_body]
fn argon2_hash32(password: &[u8], salt: &[u8]) -> (r: Option<[u8; 32]>)
    requires
        salt@.len() >= 3,
    ensures
        r is Some <==> (8 <= salt@.len() <= 48 && password@.len() <= 0xFFFF_FFFF),
        r matches Some(k) ==> k@ == argon2_key(password@, salt@),
{
    let salt_str = SaltString::encode_b64(salt).ok()?;
    let hash = Argon2::default().hash_password(password, &salt_str).ok()?;
    let out = hash.hash?;
    let bytes = out.as_bytes();
    if bytes.len() < 32 {
        return None;
    }
    let mut key = [0u8; 32];
    key.copy_from_slice(&bytes[..32]);
    Some(key)
}

/// Relies on `Aes256Gcm::encrypt` (AEAD): it succeeds for any plaintext up
/// to 2^36 bytes, appends a 16-byte tag, and decrypting the result with the
/// same key and nonce returns the plaintext.
#[verifier::external_body]
fn aes256_encrypt(key: &[u8; 32], nonce: &[u8; 12], data: &[u8]) -> (r: Option<Vec<u8>>)
    ensures
        r is Some <==> data@.len() <= 0x10_0000_0000,
        r matches Some(ct) ==> ct@.len() == data@.len() + 16 && gcm_plain(key@, nonce@, ct@)
            == Some(data@),
{
    let cipher = Aes256Gcm::new(key.into());
    cipher.encrypt(&(*nonce).into(), data).ok()
}

/// Relies on `Aes256Gcm::decrypt` (AEAD): deterministic in its arguments,
/// it returns the plaintext exactly when the ciphertext authenticates under
/// the key and nonce, and always rejects ciphertexts shorter than the
/// 16-byte tag.
#[verifier::external_body]
fn aes256_decrypt(key: &[u8; 32], nonce: &[u8; 12], ct: &[u8]) -> (r: Option<Vec<u8>>)
    ensures
        r is Some <==> gcm_plain(key@, nonce@, ct@) is Some,
        r matches Some(p) ==> gcm_plain(key@, nonce@, ct@) == Some(p@) && p@.len() + 16
            == ct@.len(),
        ct@.len() < 16 ==> r is None,
{
    let cipher = Aes256Gcm::new(key.into());
    cipher.decrypt((&nonce[..]).into(), ct).ok()
}

/// Relies on `sha2::Sha256`: a deterministic 32-byte digest.
#[verifier::external_body]
pub(crate) fn sha256(data: &[u8]) -> (r: Vec<u8>)
    ensures
        r@ == sha256_of(data@),
        r@.len() == 32,
{
    Sha256::digest(data).to_vec()
}

/// Relies on the `base64` standard engine: encoding is deterministic, emits
/// four alphabet characters per three input bytes (padded), and decoding
/// inverts it.
#[verifier::external_body]
pub(crate) fn b64_encode(data: &[u8]) -> (r: String)
    ensures
        r@ == b64_text(data@),
        r@.len() == 4 * ((data@.len() + 2) / 3),
        forall|i: int| 0 <= i < r@.len() ==> is_b64_char(#[trigger] r@[i]),
        b64_data(r@) == Some(data@),
{
    STANDARD.encode(data)
}

/// Relies on the `base64` standard engine: decoding is deterministic and
/// succeeds exactly on valid encodings.
#[verifier::external_body]
pub(crate) fn b64_decode(text: &str) -> (r: Option<Vec<u8>>)
    ensures
        r is Some <==> b64_data(text@) is Some,
        r matches Some(v) ==> b64_data(text@) == Some(v@),
{
    STANDARD.decode(text).ok()
}

/// Draws a fresh random nonce for the authenticated cipher, one byte at a
/// time. Nothing is assumed about the values drawn.
pub fn random_nonce() -> (r: [u8; 12])
{
    let mut nonce = [0u8; 12];
    let mut i: usize = 0;
    while i < 12
        decreases 12 - i,
    {
        nonce[i] = rand::random();
        i = i + 1;
    }
    nonce
}

/// Draws a fresh random 16-byte salt for key derivation.
pub fn random_salt() -> (r: Vec<u8>)
    ensures
        r@.len() == 16,
{
    let mut salt: Vec<u8> = Vec::new();
    let mut i: usize = 0;
    while i < 16
        invariant
            i <= 16,
            salt@.len() == i,
        decreases 16 - i,
    {
        salt.push(rand::random());
        i = i + 1;
    }
    salt
}

/// The byte sequence the KDF is fed for a password: the UTF-8 bytes of the
/// legacy pre-hash transform of the password.
pub open spec fn kdf_input(password: Seq<char>) -> Seq<u8> {
    vstd::utf8::encode_utf8(spec_fibbil_hash(password))
}

/// The key the vault uses for a password and salt.
pub open spec fn vault_key(password: Seq<char>, salt: Seq<u8>) -> Seq<u8> {
    argon2_key(kdf_input(password), salt)
}

/// Derives the 256-bit vault key from the master password and salt: the
/// legacy character-shift transform is applied to the password first, then
/// the memory-hard KDF. Deterministic; fails exactly when the salt length
/// is outside 8..=48 bytes or the password exceeds 2^32 - 1 characters.
pub fn derive_key(password: &str, salt: &[u8]) -> (r: Result<[u8; 32], VaultError>)
    ensures
        r is Ok <==> (8 <= salt@.len() <= 48 && password@.len() <= 0xFFFF_FFFF),
        r matches Ok(k) ==> k@ == vault_key(password@, salt@),
        r matches Err(e) ==> e == VaultError::KeyDerivation,
{
    if salt.len() < 3 {
        // Too short even to hand to the KDF's salt conversion; in any
        // case far below the 8 bytes it accepts.
        return Err(VaultError::KeyDerivation);
    }
    let hashed = fibbil_hash(password);
    let hb = bytes_of_str(hashed.as_str());
    proof {
        broadcast use vstd::utf8::is_ascii_chars_encode_utf8;

        assert(vstd::utf8::is_ascii_chars(spec_fibbil_hash(password@)));
        assert(hb@.len() == password@.len());
    }
    match argon2_hash32(hb.as_slice(), salt) {
        Some(k) => Ok(k),
        None => Err(VaultError::KeyDerivation),
    }
}

/// Encrypts serialized entry data under the key with a freshly drawn
/// random nonce. On success the nonce is 12 bytes and decrypting the
/// ciphertext with the same key and nonce yields the data back.
pub fn encrypt_data(data: &[u8], key: &[u8; 32]) -> (r: Result<(Vec<u8>, Vec<u8>), VaultError>)
    ensures
        r is Ok <==> data@.len() <= 0x10_0000_0000,
        r matches Ok((nonce, ct)) ==> nonce@.len() == 12 && ct@.len() == data@.len() + 16
            && gcm_plain(key@, nonce@, ct@) == Some(data@),
        r matches Err(e) ==> e == VaultError::Encryption,
{
    let nonce = random_nonce();
    match aes256_encrypt(key, &nonce, data) {
        Some(ct) => {
            let nv = vstd::slice::slice_to_vec(nonce.as_slice());
            Ok((nv, ct))
        },
        None => Err(VaultError::Encryption),
    }
}

/// Decrypts vault data. Fails (authentication failure) whenever the key or
/// nonce is wrong or the data is corrupted; this is the sole authority for
/// "is this the right password".
pub fn decrypt_data(ciphertext: &[u8], key: &[u8; 32], nonce: &[u8]) -> (r: Result<
    Vec<u8>,
    VaultError,
>)
    ensures
        nonce@.len() == 12 ==> ((r is Ok <==> gcm_plain(key@, nonce@, ciphertext@) is Some) && (
        r matches Ok(p) ==> gcm_plain(key@, nonce@, ciphertext@) == Some(p@))),
        nonce@.len() != 12 ==> r is Err,
        r matches Err(e) ==> e == VaultError::Decryption,
{
    if nonce.len() != 12 {
        return Err(VaultError::Decryption);
    }
    let mut n = [0u8; 12];
    let mut i: usize = 0;
    while i < 12
        invariant
            i <= 12,
            nonce@.len() == 12,
            forall|j: int| 0 <= j < i ==> n@[j] == nonce@[j],
        decreases 12 - i,
    {
        n[i] = nonce[i];
        i = i + 1;
    }
    proof {
        assert(n@ =~= nonce@);
    }
    match aes256_decrypt(key, &n, ciphertext) {
        Some(p) => Ok(p),
        None => Err(VaultError::Decryption),
    }
}

} // verus!
