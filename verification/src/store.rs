//! The session-state mirror and the key cache: two small side files, each
//! an encrypted two-field JSON blob.
//!
//! Both are encrypted under a key derived from a constant, non-secret
//! string. This is an obfuscation and restart-consistency mechanism, not a
//! security boundary: anyone with the code can derive the same key.

use vstd::prelude::*;

use crate::crypto::{
    b64_data, b64_decode, b64_encode, b64_text, decrypt_data, encrypt_data, gcm_plain, sha256,
    sha256_of,
};
use crate::jsontext::{expect_lit, jstr, lemma_sp_lit, lemma_sp_string, parse_string, push_jstr,
    push_lit, sp_lit, sp_string};
use crate::models::VaultError;
use crate::text::{bytes_of_str, chars_of, string_from_utf8, string_of_chars};

verus! {

/// The decrypted payload of the session-state mirror.
pub struct AppStateFile {
    pub unlocked: bool,
}

/// The on-disk form of both side files: a nonce and the ciphertext, each
/// base64.
pub struct EncryptedStateFile {
    pub nonce: String,
    pub encrypted_data: String,
}

/// The fixed, non-secret key both side files are encrypted under.
pub open spec fn fixed_key() -> Seq<u8> {
    sha256_of(vstd::utf8::encode_utf8("rustpass_state_key_v1"@))
}

/// Derives the fixed side-file key by hashing a constant string.
pub fn derive_fixed_key() -> (r: [u8; 32])
    ensures
        r@ == fixed_key(),
{
    let bytes = bytes_of_str("rustpass_state_key_v1");
    let digest = sha256(bytes.as_slice());
    let mut key = [0u8; 32];
    let mut i: usize = 0;
    while i < 32
        invariant
            i <= 32,
            digest@.len() == 32,
            digest@ == fixed_key(),
            forall|j: int| 0 <= j < i ==> key@[j] == digest@[j],
        decreases 32 - i,
    {
        key[i] = digest[i];
        i = i + 1;
    }
    proof {
        assert(key@ =~= digest@);
    }
    key
}

// ---------------------------------------------------------------------------
// The two-field side-file format.
// ---------------------------------------------------------------------------

/// The canonical JSON text of a side file.
pub open spec fn ser_side_file(nonce: Seq<char>, data: Seq<char>) -> Seq<char> {
    "{\"nonce\":"@ + jstr(nonce) + ",\"encrypted_data\":"@ + jstr(data) + "}"@
}

/// Parses a side-file object.
pub open spec fn sp_side_file(s: Seq<char>) -> Option<((Seq<char>, Seq<char>), Seq<char>)> {
    match sp_lit(s, "{\"nonce\":"@) {
        None => None,
        Some(s1) => match sp_string(s1) {
            None => None,
            Some((nonce, s2)) => match sp_lit(s2, ",\"encrypted_data\":"@) {
                None => None,
                Some(s3) => match sp_string(s3) {
                    None => None,
                    Some((data, s4)) => match sp_lit(s4, "}"@) {
                        None => None,
                        Some(s5) => Some(((nonce, data), s5)),
                    },
                },
            },
        },
    }
}

/// Parsing inverts serialization for side files.
pub proof fn lemma_sp_side_file(nonce: Seq<char>, data: Seq<char>, rest: Seq<char>)
    ensures
        sp_side_file(ser_side_file(nonce, data) + rest) == Some(((nonce, data), rest)),
{
    let t4 = "}"@ + rest;
    let t3 = jstr(data) + t4;
    let t2 = ",\"encrypted_data\":"@ + t3;
    let t1 = jstr(nonce) + t2;
    let t0 = "{\"nonce\":"@ + t1;
    assert(ser_side_file(nonce, data) + rest =~= t0);
    lemma_sp_lit("{\"nonce\":"@, t1);
    lemma_sp_string(nonce, t2);
    assert(jstr(nonce) + t2 =~= t1);
    lemma_sp_lit(",\"encrypted_data\":"@, t3);
    lemma_sp_string(data, t4);
    assert(jstr(data) + t4 =~= t3);
    lemma_sp_lit("}"@, rest);
}

/// A complete side-file document: the object and nothing after it.
pub open spec fn parse_side_text(s: Seq<char>) -> Option<(Seq<char>, Seq<char>)> {
    match sp_side_file(s) {
        Some((f, rest)) => if rest.len() == 0 {
            Some(f)
        } else {
            None
        },
        None => None,
    }
}

/// The byte image of a side file for a nonce and ciphertext.
pub open spec fn side_image(nonce: Seq<u8>, ct: Seq<u8>) -> Seq<u8> {
    vstd::utf8::encode_utf8(ser_side_file(b64_text(nonce), b64_text(ct)))
}

/// Builds the side-file image around an encrypted payload.
fn build_side_image(nonce: &Vec<u8>, ct: &Vec<u8>) -> (r: Vec<u8>)
    ensures
        r@ == side_image(nonce@, ct@),
        b64_data(b64_text(nonce@)) == Some(nonce@),
        b64_data(b64_text(ct@)) == Some(ct@),
{
    let nonce_b64 = b64_encode(nonce.as_slice());
    let data_b64 = b64_encode(ct.as_slice());
    let mut out: Vec<char> = Vec::new();
    push_lit(&mut out, "{\"nonce\":");
    push_jstr(&mut out, nonce_b64.as_str());
    push_lit(&mut out, ",\"encrypted_data\":");
    push_jstr(&mut out, data_b64.as_str());
    push_lit(&mut out, "}");
    proof {
        assert(out@ =~= ser_side_file(b64_text(nonce@), b64_text(ct@)));
    }
    bytes_of_str(string_of_chars(&out).as_str())
}

/// Parses a side-file object starting at `pos`.
pub fn parse_side_file(input: &Vec<char>, pos: usize) -> (r: Option<(EncryptedStateFile, usize)>)
    requires
        pos <= input@.len(),
    ensures
        r is Some <==> sp_side_file(input@.skip(pos as int)) is Some,
        r matches Some((f, np)) ==> pos <= np <= input@.len() && sp_side_file(
            input@.skip(pos as int),
        ) == Some(((f.nonce@, f.encrypted_data@), input@.skip(np as int))),
{
    let p1 = match expect_lit(input, pos, "{\"nonce\":") {
        Some(p) => p,
        None => {
            return None;
        },
    };
    let (nonce, p2) = match parse_string(input, p1) {
        Some(r) => r,
        None => {
            return None;
        },
    };
    let p3 = match expect_lit(input, p2, ",\"encrypted_data\":") {
        Some(p) => p,
        None => {
            return None;
        },
    };
    let (data, p4) = match parse_string(input, p3) {
        Some(r) => r,
        None => {
            return None;
        },
    };
    let p5 = match expect_lit(input, p4, "}") {
        Some(p) => p,
        None => {
            return None;
        },
    };
    let f = EncryptedStateFile {
        nonce: string_of_chars(&nonce),
        encrypted_data: string_of_chars(&data),
    };
    Some((f, p5))
}

/// Decrypts a side-file image under the fixed key, yielding the payload
/// bytes.
fn open_side_image(file: &[u8]) -> (r: Result<Vec<u8>, VaultError>)
    ensures
        r is Ok <==> side_payload(file@) is Some,
        r matches Ok(p) ==> side_payload(file@) == Some(p@),
        r matches Err(e) ==> e == VaultError::Decryption,
{
    let text = match string_from_utf8(vstd::slice::slice_to_vec(file)) {
        Some(t) => t,
        None => {
            return Err(VaultError::Decryption);
        },
    };
    let cs = chars_of(text.as_str());
    proof {
        assert(cs@.skip(0) =~= cs@);
    }
    let (f, np) = match parse_side_file(&cs, 0) {
        Some(r) => r,
        None => {
            return Err(VaultError::Decryption);
        },
    };
    if np != cs.len() {
        proof {
            assert(cs@.skip(np as int).len() != 0);
        }
        return Err(VaultError::Decryption);
    }
    proof {
        assert(cs@.skip(np as int).len() == 0);
    }
    let nonce = match b64_decode(f.nonce.as_str()) {
        Some(v) => v,
        None => {
            return Err(VaultError::Decryption);
        },
    };
    let ct = match b64_decode(f.encrypted_data.as_str()) {
        Some(v) => v,
        None => {
            return Err(VaultError::Decryption);
        },
    };
    let key = derive_fixed_key();
    match decrypt_data(ct.as_slice(), &key, nonce.as_slice()) {
        Ok(p) => Ok(p),
        Err(_) => Err(VaultError::Decryption),
    }
}

/// What decrypting a side-file image under the fixed key yields.
pub open spec fn side_payload(file: Seq<u8>) -> Option<Seq<u8>> {
    if !vstd::utf8::valid_utf8(file) {
        None
    } else {
        match parse_side_text(vstd::utf8::decode_utf8(file)) {
            None => None,
            Some((nb, db)) => match (b64_data(nb), b64_data(db)) {
                (Some(nonce), Some(ct)) => {
                    if nonce.len() != 12 {
                        None
                    } else {
                        gcm_plain(fixed_key(), nonce, ct)
                    }
                },
                _ => None,
            },
        }
    }
}

// ---------------------------------------------------------------------------
// The session-state mirror.
// ---------------------------------------------------------------------------

/// The payload text recording whether the session is unlocked.
pub open spec fn ser_state_text(unlocked: bool) -> Seq<char> {
    if unlocked {
        "{\"unlocked\":true}"@
    } else {
        "{\"unlocked\":false}"@
    }
}

/// What loading a session-state mirror image yields.
pub open spec fn load_state_spec(file: Seq<u8>) -> Result<bool, VaultError> {
    match side_payload(file) {
        None => Err(VaultError::Decryption),
        Some(p) => {
            if p == vstd::utf8::encode_utf8(ser_state_text(true)) {
                Ok(true)
            } else if p == vstd::utf8::encode_utf8(ser_state_text(false)) {
                Ok(false)
            } else {
                Err(VaultError::Decryption)
            }
        },
    }
}

/// Produces the session-state mirror image recording `unlocked`,
/// encrypted under the fixed key with a fresh nonce.
pub fn save_state(unlocked: bool) -> (r: Result<Vec<u8>, VaultError>)
    ensures
        r is Ok,
        r matches Ok(img) ==> exists|nonce: Seq<u8>, ct: Seq<u8>|
            #![trigger side_image(nonce, ct)]
            {
                &&& nonce.len() == 12
                &&& b64_data(b64_text(nonce)) == Some(nonce)
                &&& b64_data(b64_text(ct)) == Some(ct)
                &&& gcm_plain(fixed_key(), nonce, ct) == Some(
                    vstd::utf8::encode_utf8(ser_state_text(unlocked)),
                )
                &&& img@ == side_image(nonce, ct)
            },
{
    let data = if unlocked {
        bytes_of_str("{\"unlocked\":true}")
    } else {
        bytes_of_str("{\"unlocked\":false}")
    };
    proof {
        lemma_state_text_short(unlocked);
    }
    let key = derive_fixed_key();
    let (nonce, ct) = match encrypt_data(data.as_slice(), &key) {
        Ok(p) => p,
        Err(_) => {
            return Err(VaultError::Encryption);
        },
    };
    Ok(build_side_image(&nonce, &ct))
}

/// The state payload is short enough to encrypt.
proof fn lemma_state_text_short(unlocked: bool)
    ensures
        vstd::utf8::encode_utf8(ser_state_text(unlocked)).len() <= 20,
{
    broadcast use vstd::utf8::is_ascii_chars_encode_utf8;

    reveal_strlit("{\"unlocked\":true}");
    reveal_strlit("{\"unlocked\":false}");
    assert(vstd::utf8::is_ascii_chars(ser_state_text(unlocked)));
}

/// Reads a session-state mirror image back. Behaves exactly as
/// [`load_state_spec`] says; a missing file is the caller's
/// "default to locked" case.
pub fn load_state(file: &[u8]) -> (r: Result<bool, VaultError>)
    ensures
        r is Ok <==> load_state_spec(file@) is Ok,
        r matches Ok(b) ==> load_state_spec(file@) == Ok::<bool, VaultError>(b),
        r matches Err(e) ==> load_state_spec(file@) == Err::<bool, VaultError>(e),
{
    let payload = match open_side_image(file) {
        Ok(p) => p,
        Err(e) => {
            return Err(e);
        },
    };
    let t = bytes_of_str("{\"unlocked\":true}");
    let f = bytes_of_str("{\"unlocked\":false}");
    if eq_bytes(payload.as_slice(), t.as_slice()) {
        Ok(true)
    } else if eq_bytes(payload.as_slice(), f.as_slice()) {
        Ok(false)
    } else {
        Err(VaultError::Decryption)
    }
}

/// Compares two byte slices.
fn eq_bytes(a: &[u8], b: &[u8]) -> (r: bool)
    ensures
        r == (a@ == b@),
{
    if a.len() != b.len() {
        proof {
            assert(a@.len() != b@.len());
        }
        return false;
    }
    let mut i: usize = 0;
    while i < a.len()
        invariant
            i <= a@.len(),
            a@.len() == b@.len(),
            forall|j: int| 0 <= j < i ==> a@[j] == b@[j],
        decreases a@.len() - i,
    {
        if a[i] != b[i] {
            return false;
        }
        i = i + 1;
    }
    proof {
        assert(a@ =~= b@);
    }
    true
}

/// Saving the state and loading it back yields the same flag. The
/// hypotheses are what `save_state` ensures of the image it produced.
pub proof fn lemma_state_round_trip(unlocked: bool, nonce: Seq<u8>, ct: Seq<u8>)
    requires
        b64_data(b64_text(nonce)) == Some(nonce),
        b64_data(b64_text(ct)) == Some(ct),
        nonce.len() == 12,
        gcm_plain(fixed_key(), nonce, ct) == Some(
            vstd::utf8::encode_utf8(ser_state_text(unlocked)),
        ),
    ensures
        load_state_spec(side_image(nonce, ct)) == Ok::<bool, VaultError>(unlocked),
{
    broadcast use vstd::utf8::encode_utf8_valid_utf8;
    broadcast use vstd::utf8::encode_utf8_decode_utf8;

    let doc = ser_side_file(b64_text(nonce), b64_text(ct));
    lemma_sp_side_file(b64_text(nonce), b64_text(ct), Seq::empty());
    assert(doc + Seq::<char>::empty() =~= doc);
    assert(vstd::utf8::decode_utf8(vstd::utf8::encode_utf8(doc)) == doc);
    assert(vstd::utf8::decode_utf8(vstd::utf8::encode_utf8(ser_state_text(true)))
        == ser_state_text(true));
    assert(vstd::utf8::decode_utf8(vstd::utf8::encode_utf8(ser_state_text(false)))
        == ser_state_text(false));
    lemma_state_texts_differ();
}

/// The two state payloads are distinct.
proof fn lemma_state_texts_differ()
    ensures
        ser_state_text(true) != ser_state_text(false),
{
    reveal_strlit("{\"unlocked\":true}");
    reveal_strlit("{\"unlocked\":false}");
    assert(ser_state_text(true).len() != ser_state_text(false).len());
}

// ---------------------------------------------------------------------------
// The key cache.
// ---------------------------------------------------------------------------

/// What loading a key-cache image yields: the cached master password.
pub open spec fn load_key_spec(file: Seq<u8>) -> Result<Seq<char>, VaultError> {
    match side_payload(file) {
        None => Err(VaultError::Decryption),
        Some(p) => {
            if vstd::utf8::valid_utf8(p) {
                Ok(vstd::utf8::decode_utf8(p))
            } else {
                Err(VaultError::Decryption)
            }
        },
    }
}

/// Produces the key-cache image holding the master password, encrypted
/// under the fixed key with a fresh nonce. Written on every successful
/// unlock; the caller deletes it on lock.
pub fn save_key(password: &str) -> (r: Result<Vec<u8>, VaultError>)
    ensures
        r is Ok <==> vstd::utf8::encode_utf8(password@).len() <= 0x10_0000_0000,
        r matches Ok(img) ==> exists|nonce: Seq<u8>, ct: Seq<u8>|
            #![trigger side_image(nonce, ct)]
            {
                &&& nonce.len() == 12
                &&& b64_data(b64_text(nonce)) == Some(nonce)
                &&& b64_data(b64_text(ct)) == Some(ct)
                &&& gcm_plain(fixed_key(), nonce, ct) == Some(
                    vstd::utf8::encode_utf8(password@),
                )
                &&& img@ == side_image(nonce, ct)
            },
        r matches Err(e) ==> e == VaultError::Encryption,
{
    let data = bytes_of_str(password);
    let key = derive_fixed_key();
    let (nonce, ct) = match encrypt_data(data.as_slice(), &key) {
        Ok(p) => p,
        Err(_) => {
            return Err(VaultError::Encryption);
        },
    };
    Ok(build_side_image(&nonce, &ct))
}

/// Reads a key-cache image back. Behaves exactly as [`load_key_spec`]
/// says.
pub fn load_key(file: &[u8]) -> (r: Result<String, VaultError>)
    ensures
        r is Ok <==> load_key_spec(file@) is Ok,
        r matches Ok(p) ==> load_key_spec(file@) == Ok::<Seq<char>, VaultError>(p@),
        r matches Err(e) ==> load_key_spec(file@) == Err::<Seq<char>, VaultError>(e),
{
    let payload = match open_side_image(file) {
        Ok(p) => p,
        Err(e) => {
            return Err(e);
        },
    };
    match string_from_utf8(payload) {
        Some(s) => Ok(s),
        None => Err(VaultError::Decryption),
    }
}

/// Saving the key cache and loading it back yields the password. The
/// hypotheses are what `save_key` ensures of the image it produced.
pub proof fn lemma_key_round_trip(password: Seq<char>, nonce: Seq<u8>, ct: Seq<u8>)
    requires
        b64_data(b64_text(nonce)) == Some(nonce),
        b64_data(b64_text(ct)) == Some(ct),
        nonce.len() == 12,
        gcm_plain(fixed_key(), nonce, ct) == Some(vstd::utf8::encode_utf8(password)),
    ensures
        load_key_spec(side_image(nonce, ct)) == Ok::<Seq<char>, VaultError>(password),
{
    broadcast use vstd::utf8::encode_utf8_valid_utf8;
    broadcast use vstd::utf8::encode_utf8_decode_utf8;

    let doc = ser_side_file(b64_text(nonce), b64_text(ct));
    lemma_sp_side_file(b64_text(nonce), b64_text(ct), Seq::empty());
    assert(doc + Seq::<char>::empty() =~= doc);
}

} // verus!
