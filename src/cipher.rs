//! Decryption of Chromium cookie values: the scheme is chosen by the value's
//! version prefix and by the platform whose browser wrote it.
use crate::bytes::copy_range;
use crate::cookie::CookieError;
use vstd::prelude::*;
use vstd::string::StringSliceAdditionalSpecFns;

use aes_gcm::aead::Aead;
use aes_gcm::KeyInit;
use cbc::cipher::BlockDecryptMut;
use cbc::cipher::KeyIvInit;
use sha2::Digest;

verus! {

/// The operating system whose browser wrote a store.
#[derive(Clone, Copy, Debug, PartialEq, Eq, Structural)]
pub enum Platform {
    Windows,
    Linux,
    MacOs,
}

/// How one encrypted value is to be opened.
#[derive(Clone, Copy, Debug, PartialEq, Eq, Structural)]
pub enum Scheme {
    /// AES-128-CBC with an IV of sixteen spaces and PKCS#7 padding.
    AesCbc,
    /// AES-256-GCM: 3-byte tag, 12-byte nonce, ciphertext, 16-byte auth tag.
    AesGcm,
}

/// Length of the version tag (`v10`, `v11`, `v20`) in front of a value.
pub const VERSION_TAG_LEN: usize = 3;
/// Length of the GCM nonce that follows the version tag.
pub const GCM_NONCE_LEN: usize = 12;
/// Length of the GCM authentication tag at the end of a value.
pub const GCM_TAG_LEN: usize = 16;
/// Length of the SHA-256 digest of the host that newer values carry first.
pub const HOST_DIGEST_LEN: usize = 32;
/// AES block length, and the largest PKCS#7 pad.
pub const AES_BLOCK_LEN: usize = 16;

/// What AES-256-GCM decryption returns, or `None` when the key has the
/// wrong length or the authentication tag does not match.
pub uninterp spec fn aes_gcm_open(key: Seq<u8>, nonce: Seq<u8>, sealed: Seq<u8>) -> Option<Seq<u8>>;

/// What AES-128-CBC decryption without unpadding returns, or `None` when
/// the key or IV has the wrong length or the input is not whole blocks.
pub uninterp spec fn aes_cbc_raw(key: Seq<u8>, iv: Seq<u8>, data: Seq<u8>) -> Option<Seq<u8>>;

/// The SHA-256 digest of `data`.
pub uninterp spec fn sha256_of(data: Seq<u8>) -> Seq<u8>;

/// The view of an optional byte vector.
pub open spec fn opt_bytes(r: Option<Vec<u8>>) -> Option<Seq<u8>> {
    match r {
        Some(v) => Some(v@),
        None => None,
    }
}

/// Relies on aes_gcm's `Aes256Gcm`: `new_from_slice` refuses a key that is
/// not 32 bytes, and `Aead::decrypt` returns the plaintext or an error when
/// the trailing 16-byte tag does not authenticate.
#[verifier::external_body]
fn gcm_decrypt(key: &[u8], nonce: &[u8], sealed: &[u8]) -> (r: Option<Vec<u8>>)
    requires
        nonce@.len() == GCM_NONCE_LEN,
    ensures
        opt_bytes(r) == aes_gcm_open(key@, nonce@, sealed@),
        key@.len() != 32 ==> r is None,
        sealed@.len() < GCM_TAG_LEN ==> r is None,
{
    let cipher = aes_gcm::Aes256Gcm::new_from_slice(key).ok()?;
    cipher.decrypt(aes_gcm::Nonce::from_slice(nonce), sealed).ok()
}

/// Relies on cbc's `Decryptor<Aes128>`: `new_from_slices` refuses a key or
/// IV that is not 16 bytes, and `decrypt_padded_vec_mut::<NoPadding>`
/// returns one output byte per input byte, or an error when the input is
/// not a whole number of blocks.
#[verifier::external_body]
fn cbc_decrypt(key: &[u8], iv: &[u8], data: &[u8]) -> (r: Option<Vec<u8>>)
    ensures
        opt_bytes(r) == aes_cbc_raw(key@, iv@, data@),
        r matches Some(p) ==> p@.len() == data@.len(),
        key@.len() != 16 ==> r is None,
        data@.len() % 16 != 0 ==> r is None,
{
    let dec = cbc::Decryptor::<aes::Aes128>::new_from_slices(key, iv).ok()?;
    dec.decrypt_padded_vec_mut::<cbc::cipher::block_padding::NoPadding>(data).ok()
}

/// Relies on sha2's `Sha256::digest`: a 32-byte digest of `data`.
#[verifier::external_body]
fn sha256(data: &[u8]) -> (r: Vec<u8>)
    ensures
        r@ == sha256_of(data@),
        r@.len() == 32,
{
    sha2::Sha256::digest(data).to_vec()
}

/// The version tag that marks a Chromium value, if it carries one.
pub open spec fn has_version_tag(blob: Seq<u8>) -> bool {
    &&& blob.len() >= 3
    &&& blob[0] == 0x76u8
    &&& (blob[1] == 0x31u8 && (blob[2] == 0x30u8 || blob[2] == 0x31u8)
        || blob[1] == 0x32u8 && blob[2] == 0x30u8)
}

/// The tag is `v10` or `v11` (not the app-bound `v20`).
pub open spec fn is_v1x(blob: Seq<u8>) -> bool {
    has_version_tag(blob) && blob[1] == 0x31u8
}

/// Which scheme opens `blob` on `platform`, if any: GCM for every tag on
/// Windows, CBC for `v10` and `v11` elsewhere.
pub open spec fn scheme_spec(platform: Platform, blob: Seq<u8>) -> Option<Scheme> {
    if !has_version_tag(blob) {
        None
    } else if platform == Platform::Windows {
        Some(Scheme::AesGcm)
    } else if is_v1x(blob) {
        Some(Scheme::AesCbc)
    } else {
        None
    }
}

/// Recognises the scheme of a stored value by its version prefix.
pub fn detect_scheme(platform: Platform, blob: &[u8]) -> (r: Option<Scheme>)
    ensures
        r == scheme_spec(platform, blob@),
{
    if blob.len() < 3 || blob[0] != 0x76u8 {
        return None;
    }
    let v1x = blob[1] == 0x31u8 && (blob[2] == 0x30u8 || blob[2] == 0x31u8);
    let v20 = blob[1] == 0x32u8 && blob[2] == 0x30u8;
    if !v1x && !v20 {
        None
    } else if platform == Platform::Windows {
        Some(Scheme::AesGcm)
    } else if v1x {
        Some(Scheme::AesCbc)
    } else {
        None
    }
}

/// `p` ends in a well-formed PKCS#7 pad.
pub open spec fn pkcs7_ok(p: Seq<u8>) -> bool {
    &&& p.len() > 0
    &&& 1 <= p.last() <= 16
    &&& p.last() <= p.len()
    &&& forall|i: int| p.len() - p.last() <= i < p.len() ==> #[trigger] p[i] == p.last()
}

/// `p` without its PKCS#7 pad.
pub open spec fn pkcs7_strip_spec(p: Seq<u8>) -> Option<Seq<u8>> {
    if pkcs7_ok(p) {
        Some(p.subrange(0, p.len() - p.last()))
    } else {
        None
    }
}

/// Removes a PKCS#7 pad; `None` when the pad is malformed.
pub fn strip_pkcs7(p: &[u8]) -> (r: Option<Vec<u8>>)
    ensures
        opt_bytes(r) == pkcs7_strip_spec(p@),
{
    let len = p.len();
    if len == 0 {
        return None;
    }
    let n = p[len - 1];
    if n < 1 || n > 16 || (n as usize) > len {
        return None;
    }
    let start = len - n as usize;
    let mut i: usize = start;
    while i < len
        invariant
            start <= i <= len,
            len == p@.len(),
            n == p@.last(),
            start == len - n,
            forall|j: int| start <= j < i ==> #[trigger] p@[j] == n,
        decreases len - i,
    {
        if p[i] != n {
            return None;
        }
        i = i + 1;
    }
    let out = copy_range(p, 0, start);
    assert(out@ =~= p@.subrange(0, p@.len() - p@.last()));
    Some(out)
}

/// Strips the host digest: a plaintext longer than the digest that begins
/// with `digest` loses that prefix; any other plaintext is kept verbatim.
pub open spec fn strip_digest_spec(plain: Seq<u8>, digest: Seq<u8>) -> Seq<u8> {
    if plain.len() > digest.len() && digest.len() == HOST_DIGEST_LEN
        && plain.subrange(0, digest.len() as int) == digest {
        plain.subrange(digest.len() as int, plain.len() as int)
    } else {
        plain
    }
}

/// Removes the SHA-256 host digest that newer Chromium versions put in
/// front of a decrypted value.
pub fn strip_host_digest(plain: Vec<u8>, digest: &[u8]) -> (r: Vec<u8>)
    ensures
        r@ == strip_digest_spec(plain@, digest@),
{
    let dl = digest.len();
    if dl != HOST_DIGEST_LEN || plain.len() <= dl {
        return plain;
    }
    let mut i: usize = 0;
    while i < dl
        invariant
            0 <= i <= dl,
            dl == digest@.len(),
            dl < plain@.len(),
            forall|j: int| 0 <= j < i ==> plain@[j] == digest@[j],
        decreases dl - i,
    {
        if plain[i] != digest[i] {
            assert(plain@.subrange(0, dl as int)[i as int] != digest@[i as int]);
            return plain;
        }
        i = i + 1;
    }
    assert(plain@.subrange(0, dl as int) =~= digest@);
    let out = copy_range(plain.as_slice(), dl, plain.len());
    assert(out@ =~= plain@.subrange(dl as int, plain@.len() as int));
    out
}

/// The sixteen spaces that Chromium uses as the CBC IV.
pub open spec fn cbc_iv_spec() -> Seq<u8> {
    Seq::new(16, |i: int| 0x20u8)
}

/// The plaintext of a tagged Chromium value, before the host digest is
/// stripped, or the error that stops it.
pub open spec fn open_spec(platform: Platform, key: Seq<u8>, blob: Seq<u8>) -> Result<Seq<u8>, CookieError> {
    match scheme_spec(platform, blob) {
        None => Err(CookieError::UnknownScheme),
        Some(Scheme::AesCbc) => match aes_cbc_raw(key, cbc_iv_spec(), blob.subrange(3, blob.len() as int)) {
            None => Err(CookieError::PaddingInvalid),
            Some(p) => match pkcs7_strip_spec(p) {
                None => Err(CookieError::PaddingInvalid),
                Some(q) => Ok(q),
            },
        },
        Some(Scheme::AesGcm) => if blob.len() < 15 {
            Err(CookieError::AuthTagMismatch)
        } else {
            match aes_gcm_open(key, blob.subrange(3, 15), blob.subrange(15, blob.len() as int)) {
                None => Err(CookieError::AuthTagMismatch),
                Some(p) => Ok(p),
            }
        },
    }
}

/// The decrypted bytes of a Chromium value of `host`, host digest stripped.
pub open spec fn decrypt_spec(platform: Platform, key: Seq<u8>, host_bytes: Seq<u8>, blob: Seq<u8>) -> Result<Seq<u8>, CookieError> {
    match open_spec(platform, key, blob) {
        Err(e) => Err(e),
        Ok(p) => Ok(strip_digest_spec(p, sha256_of(host_bytes))),
    }
}

/// The view of a byte result.
pub open spec fn res_bytes(r: Result<Vec<u8>, CookieError>) -> Result<Seq<u8>, CookieError> {
    match r {
        Ok(v) => Ok(v@),
        Err(e) => Err(e),
    }
}

fn cbc_iv() -> (r: Vec<u8>)
    ensures
        r@ == cbc_iv_spec(),
{
    let mut v: Vec<u8> = Vec::new();
    while v.len() < 16
        invariant
            v@.len() <= 16,
            forall|j: int| 0 <= j < v@.len() ==> v@[j] == 0x20u8,
        decreases 16 - v@.len(),
    {
        v.push(0x20u8);
    }
    assert(v@ =~= cbc_iv_spec());
    v
}

/// Decrypts a Chromium cookie value with the profile's master key and strips
/// the host digest that newer versions prepend.
pub fn decrypt_chromium_value(platform: Platform, key: &[u8], host: &str, blob: &[u8]) -> (r: Result<Vec<u8>, CookieError>)
    ensures
        res_bytes(r) == decrypt_spec(platform, key@, host.spec_bytes(), blob@),
{
    let opened: Vec<u8> = match detect_scheme(platform, blob) {
        None => {
            return Err(CookieError::UnknownScheme);
        },
        Some(Scheme::AesCbc) => {
            let iv = cbc_iv();
            let body = copy_range(blob, VERSION_TAG_LEN, blob.len());
            match cbc_decrypt(key, iv.as_slice(), body.as_slice()) {
                None => {
                    return Err(CookieError::PaddingInvalid);
                },
                Some(p) => match strip_pkcs7(p.as_slice()) {
                    None => {
                        return Err(CookieError::PaddingInvalid);
                    },
                    Some(q) => q,
                },
            }
        },
        Some(Scheme::AesGcm) => {
            if blob.len() < VERSION_TAG_LEN + GCM_NONCE_LEN {
                return Err(CookieError::AuthTagMismatch);
            }
            let nonce = copy_range(blob, VERSION_TAG_LEN, VERSION_TAG_LEN + GCM_NONCE_LEN);
            let sealed = copy_range(blob, VERSION_TAG_LEN + GCM_NONCE_LEN, blob.len());
            match gcm_decrypt(key, nonce.as_slice(), sealed.as_slice()) {
                None => {
                    return Err(CookieError::AuthTagMismatch);
                },
                Some(p) => p,
            }
        },
    };
    let digest = sha256(host.as_bytes());
    Ok(strip_host_digest(opened, digest.as_slice()))
}


/// The three version tags.
pub open spec fn version_tag(minor: u8) -> Seq<u8> {
    if minor == 2 {
        seq![0x76u8, 0x32u8, 0x30u8]
    } else if minor == 1 {
        seq![0x76u8, 0x31u8, 0x31u8]
    } else {
        seq![0x76u8, 0x31u8, 0x30u8]
    }
}

/// A Windows value framed as tag, 12-byte nonce and sealed part is opened
/// with exactly that nonce and that sealed part, for each of the three tags.
pub proof fn lemma_gcm_framing(minor: u8, key: Seq<u8>, nonce: Seq<u8>, sealed: Seq<u8>)
    requires
        nonce.len() == GCM_NONCE_LEN,
    ensures
        open_spec(Platform::Windows, key, version_tag(minor) + nonce + sealed) == match aes_gcm_open(key, nonce, sealed) {
            None => Err::<Seq<u8>, CookieError>(CookieError::AuthTagMismatch),
            Some(p) => Ok(p),
        },
{
    let blob = version_tag(minor) + nonce + sealed;
    assert(blob.subrange(3, 15) =~= nonce);
    assert(blob.subrange(15, blob.len() as int) =~= sealed);
}

/// A Linux or macOS value framed as `v10` or `v11` and a CBC body is opened
/// from exactly that body, with the sixteen-space IV.
pub proof fn lemma_cbc_framing(minor: u8, platform: Platform, key: Seq<u8>, body: Seq<u8>)
    requires
        minor < 2,
        platform != Platform::Windows,
    ensures
        open_spec(platform, key, version_tag(minor) + body) == match aes_cbc_raw(key, cbc_iv_spec(), body) {
            None => Err::<Seq<u8>, CookieError>(CookieError::PaddingInvalid),
            Some(p) => match pkcs7_strip_spec(p) {
                None => Err(CookieError::PaddingInvalid),
                Some(q) => Ok(q),
            },
        },
{
    let blob = version_tag(minor) + body;
    assert(blob.subrange(3, blob.len() as int) =~= body);
}


/// `data` padded to whole blocks with PKCS#7.
pub open spec fn pkcs7_pad_spec(data: Seq<u8>) -> Seq<u8> {
    let n = (16 - data.len() % 16) as u8;
    data + Seq::new(n as nat, |i: int| n)
}

/// Removing a PKCS#7 pad gives back the data that was padded.
pub proof fn lemma_pkcs7_round_trip(data: Seq<u8>)
    ensures
        pkcs7_strip_spec(pkcs7_pad_spec(data)) == Some(data),
{
    let n = (16 - data.len() % 16) as u8;
    let p = pkcs7_pad_spec(data);
    assert(1 <= 16 - data.len() % 16 <= 16);
    assert(p.len() == data.len() + n);
    assert(p.last() == n);
    assert(pkcs7_ok(p));
    assert(p.subrange(0, p.len() - p.last()) =~= data);
}

} // verus!
