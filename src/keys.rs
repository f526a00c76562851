//! Recovery of a Chromium profile's master key from what the platform's
//! keystore handed over.
use crate::bytes::copy_range;
use crate::cookie::CookieError;
use vstd::prelude::*;

use base64::Engine;

verus! {

/// PBKDF2 iterations of the Linux key derivation.
pub const LINUX_ITERATIONS: u32 = 1;
/// PBKDF2 iterations of the macOS key derivation.
pub const MACOS_ITERATIONS: u32 = 1003;
/// Length of the AES-256 key that DPAPI unwraps on Windows.
pub const WINDOWS_KEY_LEN: usize = 32;

/// The 16-byte PBKDF2-HMAC-SHA1 output for `password`, `salt` and `rounds`.
pub uninterp spec fn pbkdf2_sha1_16(password: Seq<u8>, salt: Seq<u8>, rounds: u32) -> Seq<u8>;

/// Relies on pbkdf2's `pbkdf2_hmac::<Sha1>`, which fills the 16-byte output
/// buffer and accepts any password length.
#[verifier::external_body]
fn pbkdf2_sha1(password: &[u8], salt: &[u8], rounds: u32) -> (r: Vec<u8>)
    ensures
        r@ == pbkdf2_sha1_16(password@, salt@, rounds),
        r@.len() == 16,
{
    let mut out = vec![0u8; 16];
    pbkdf2::pbkdf2_hmac::<sha1::Sha1>(password, salt, rounds, &mut out);
    out
}

/// `saltysalt`, Chromium's fixed PBKDF2 salt.
pub open spec fn salt_spec() -> Seq<u8> {
    seq![0x73u8, 0x61u8, 0x6cu8, 0x74u8, 0x79u8, 0x73u8, 0x61u8, 0x6cu8, 0x74u8]
}

/// `peanuts`, the password Chromium falls back to on Linux.
pub open spec fn fallback_password_spec() -> Seq<u8> {
    seq![0x70u8, 0x65u8, 0x61u8, 0x6eu8, 0x75u8, 0x74u8, 0x73u8]
}

/// `DPAPI`, the prefix of the wrapped key in `Local State`.
pub open spec fn dpapi_prefix_spec() -> Seq<u8> {
    seq![0x44u8, 0x50u8, 0x41u8, 0x50u8, 0x49u8]
}

fn chromium_salt() -> (r: Vec<u8>)
    ensures
        r@ == salt_spec(),
{
    let mut v: Vec<u8> = Vec::new();
    v.push(0x73u8);
    v.push(0x61u8);
    v.push(0x6cu8);
    v.push(0x74u8);
    v.push(0x79u8);
    v.push(0x73u8);
    v.push(0x61u8);
    v.push(0x6cu8);
    v.push(0x74u8);
    assert(v@ =~= salt_spec());
    v
}

/// The password Chromium uses on Linux when no keystore answers.
pub fn fallback_password() -> (r: Vec<u8>)
    ensures
        r@ == fallback_password_spec(),
{
    let mut v: Vec<u8> = Vec::new();
    v.push(0x70u8);
    v.push(0x65u8);
    v.push(0x61u8);
    v.push(0x6eu8);
    v.push(0x75u8);
    v.push(0x74u8);
    v.push(0x73u8);
    assert(v@ =~= fallback_password_spec());
    v
}

/// The Linux password in order of preference: libsecret's, then kwallet's,
/// then the fixed fallback.
pub open spec fn linux_password_spec(libsecret: Option<Seq<u8>>, kwallet: Option<Seq<u8>>) -> Seq<u8> {
    match libsecret {
        Some(p) => p,
        None => match kwallet {
            Some(p) => p,
            None => fallback_password_spec(),
        },
    }
}

/// Chooses the Linux safe-storage password among the keystores' answers.
pub fn linux_password(libsecret: Option<Vec<u8>>, kwallet: Option<Vec<u8>>) -> (r: Vec<u8>)
    ensures
        r@ == linux_password_spec(
            match libsecret { Some(v) => Some(v@), None => None },
            match kwallet { Some(v) => Some(v@), None => None },
        ),
{
    match libsecret {
        Some(p) => p,
        None => match kwallet {
            Some(p) => p,
            None => fallback_password(),
        },
    }
}

/// Derives the Linux AES-128 key: PBKDF2-HMAC-SHA1, salt `saltysalt`, one
/// iteration.
pub fn derive_linux_key(password: &[u8]) -> (r: Vec<u8>)
    ensures
        r@ == pbkdf2_sha1_16(password@, salt_spec(), LINUX_ITERATIONS),
        r@.len() == 16,
{
    let salt = chromium_salt();
    pbkdf2_sha1(password, salt.as_slice(), LINUX_ITERATIONS)
}

/// Derives the macOS AES-128 key: PBKDF2-HMAC-SHA1, salt `saltysalt`, 1003
/// iterations.
pub fn derive_macos_key(password: &[u8]) -> (r: Vec<u8>)
    ensures
        r@ == pbkdf2_sha1_16(password@, salt_spec(), MACOS_ITERATIONS),
        r@.len() == 16,
{
    let salt = chromium_salt();
    pbkdf2_sha1(password, salt.as_slice(), MACOS_ITERATIONS)
}

/// The DPAPI blob inside the decoded `os_crypt.encrypted_key`, or
/// `KeyMalformed` when the `DPAPI` prefix is missing.
pub open spec fn dpapi_blob_spec(decoded: Seq<u8>) -> Result<Seq<u8>, CookieError> {
    if decoded.len() >= 5 && decoded.subrange(0, 5) == dpapi_prefix_spec() {
        Ok(decoded.subrange(5, decoded.len() as int))
    } else {
        Err(CookieError::KeyMalformed)
    }
}

/// Strips the literal `DPAPI` prefix from the decoded wrapped key.
pub fn dpapi_blob(decoded: &[u8]) -> (r: Result<Vec<u8>, CookieError>)
    ensures
        match r {
            Ok(v) => dpapi_blob_spec(decoded@) == Ok::<Seq<u8>, CookieError>(v@),
            Err(e) => dpapi_blob_spec(decoded@) == Err::<Seq<u8>, CookieError>(e),
        },
{
    if decoded.len() < 5 {
        return Err(CookieError::KeyMalformed);
    }
    let ok = decoded[0] == 0x44u8 && decoded[1] == 0x50u8 && decoded[2] == 0x41u8
        && decoded[3] == 0x50u8 && decoded[4] == 0x49u8;
    if !ok {
        assert(decoded@.subrange(0, 5) != dpapi_prefix_spec()) by {
            assert(exists|i: int| 0 <= i < 5 && decoded@.subrange(0, 5)[i] != dpapi_prefix_spec()[i]);
        }
        return Err(CookieError::KeyMalformed);
    }
    assert(decoded@.subrange(0, 5) =~= dpapi_prefix_spec());
    Ok(copy_range(decoded, 5, decoded.len()))
}

/// Checks the key that DPAPI unwrapped: it must be an AES-256 key.
pub fn check_windows_key(key: Vec<u8>) -> (r: Result<Vec<u8>, CookieError>)
    ensures
        key@.len() == WINDOWS_KEY_LEN ==> r == Ok::<Vec<u8>, CookieError>(key),
        key@.len() != WINDOWS_KEY_LEN ==> r == Err::<Vec<u8>, CookieError>(CookieError::KeyMalformed),
{
    if key.len() == WINDOWS_KEY_LEN {
        Ok(key)
    } else {
        Err(CookieError::KeyMalformed)
    }
}


/// The string that a JSON text holds at a JSON pointer; `None` when the
/// text is not JSON or holds no string there.
pub uninterp spec fn json_string_at(text: Seq<char>, pointer: Seq<char>) -> Option<Seq<char>>;

/// The bytes that a standard-alphabet, padded base64 text encodes; `None`
/// when the text is not valid base64.
pub uninterp spec fn base64_decoded(text: Seq<char>) -> Option<Seq<u8>>;

/// Relies on serde_json: `from_str::<Value>` parses the text,
/// `Value::pointer` looks the pointer up and `Value::as_str` reads a string.
#[verifier::external_body]
fn json_lookup(text: &str, pointer: &str) -> (r: Option<String>)
    ensures
        match r {
            Some(s) => json_string_at(text@, pointer@) == Some(s@),
            None => json_string_at(text@, pointer@) is None,
        },
{
    serde_json::from_str::<serde_json::Value>(text).ok()?.pointer(pointer)?.as_str().map(String::from)
}

/// Relies on base64's `STANDARD` engine: `Engine::decode` returns the bytes
/// or an error on invalid input.
#[verifier::external_body]
fn base64_decode(text: &str) -> (r: Option<Vec<u8>>)
    ensures
        match r {
            Some(b) => base64_decoded(text@) == Some(b@),
            None => base64_decoded(text@) is None,
        },
{
    base64::engine::general_purpose::STANDARD.decode(text).ok()
}

/// Where `Local State` keeps the wrapped master key.
pub open spec fn encrypted_key_pointer() -> Seq<char> {
    "/os_crypt/encrypted_key"@
}

/// The DPAPI blob of a Windows profile's master key, read from the text of
/// its `Local State`: `KeyNotFound` without `os_crypt.encrypted_key`,
/// `KeyMalformed` when that is not base64 or lacks the `DPAPI` prefix.
pub open spec fn windows_key_blob_spec(local_state: Seq<char>) -> Result<Seq<u8>, CookieError> {
    match json_string_at(local_state, encrypted_key_pointer()) {
        None => Err(CookieError::KeyNotFound),
        Some(k) => match base64_decoded(k) {
            None => Err(CookieError::KeyMalformed),
            Some(d) => dpapi_blob_spec(d),
        },
    }
}

/// Reads the DPAPI-wrapped master key out of a `Local State` text.
pub fn windows_key_blob(local_state: &str) -> (r: Result<Vec<u8>, CookieError>)
    ensures
        match r {
            Ok(v) => windows_key_blob_spec(local_state@) == Ok::<Seq<u8>, CookieError>(v@),
            Err(e) => windows_key_blob_spec(local_state@) == Err::<Seq<u8>, CookieError>(e),
        },
{
    let pointer = "/os_crypt/encrypted_key";
    match json_lookup(local_state, pointer) {
        None => Err(CookieError::KeyNotFound),
        Some(k) => match base64_decode(k.as_str()) {
            None => Err(CookieError::KeyMalformed),
            Some(d) => dpapi_blob(d.as_slice()),
        },
    }
}

} // verus!
