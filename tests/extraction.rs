use aes_gcm::aead::Aead;
use base64::Engine;
use aes_gcm::KeyInit;
use cbc::cipher::block_padding::Pkcs7;
use cbc::cipher::BlockEncryptMut;
use cbc::cipher::KeyIvInit;
use rookie::cipher::{decrypt_chromium_value, detect_scheme, strip_host_digest, strip_pkcs7, Platform, Scheme};
use rookie::cookie::{convert_expires, normalize_same_site, Cookie, CookieError, ExpiryEpoch, RawCookieRow};
use rookie::domain::{domain_matches, filter_allows};
use rookie::keys::{
    check_windows_key, derive_linux_key, derive_macos_key, dpapi_blob, fallback_password, linux_password, windows_key_blob,
};
use rookie::normalize::{extract_cookies, ValueCodec};
use rookie::profiles::{all_profiles, first_profile, require_key_file, ProfilePaths};
use rookie::safari::{mac_time_to_unix, parse_binarycookies};
use rookie::{
    any_browser, brave, chrome, chrome_v2, chromium, edge, firefox, internet_explorer, libre_wolf, load,
    octo_browser, opera, opera_gx, safari, vivaldi, ChromiumProfile, StoreCandidates,
};
use sha2::Digest;

fn row(host: &str, name: &str, value: &str, encrypted: Vec<u8>) -> RawCookieRow {
    RawCookieRow {
        host: host.to_string(),
        name: name.to_string(),
        value: value.to_string(),
        encrypted_value: encrypted,
        path: "/".to_string(),
        expires_raw: 0,
        is_secure: false,
        is_http_only: false,
        same_site_raw: 0,
    }
}

fn linux_key() -> Vec<u8> {
    let mut k = vec![0u8; 16];
    pbkdf2::pbkdf2_hmac::<sha1::Sha1>(b"peanuts", b"saltysalt", 1, &mut k);
    k
}

fn cbc_encrypt(key: &[u8], plain: &[u8]) -> Vec<u8> {
    let iv = [0x20u8; 16];
    let enc = cbc::Encryptor::<aes::Aes128>::new_from_slices(key, &iv).unwrap();
    let mut out = b"v10".to_vec();
    out.extend(enc.encrypt_padded_vec_mut::<Pkcs7>(plain));
    out
}

fn gcm_encrypt(tag: &[u8], key: &[u8], nonce: &[u8], plain: &[u8]) -> Vec<u8> {
    let c = aes_gcm::Aes256Gcm::new_from_slice(key).unwrap();
    let sealed = c.encrypt(aes_gcm::Nonce::from_slice(nonce), plain).unwrap();
    let mut out = tag.to_vec();
    out.extend_from_slice(nonce);
    out.extend(sealed);
    out
}

fn profile(platform: Platform, key: Vec<u8>, rows: Vec<RawCookieRow>) -> ChromiumProfile {
    ChromiumProfile { platform, key, rows, last_version: None }
}

fn names(cs: &[Cookie]) -> Vec<String> {
    cs.iter().map(|c| c.name.clone()).collect()
}

// A cookie record of a binarycookies file.
fn record(host: &str, name: &str, path: &str, value: &str, flags: u32, expiry: f64) -> Vec<u8> {
    let mut strings = Vec::new();
    let mut offs = Vec::new();
    for s in [host, name, path, value] {
        offs.push(56 + strings.len() as u32);
        strings.extend_from_slice(s.as_bytes());
        strings.push(0);
    }
    let size = 56 + strings.len() as u32;
    let mut r = Vec::new();
    r.extend_from_slice(&size.to_le_bytes());
    r.extend_from_slice(&0u32.to_le_bytes());
    r.extend_from_slice(&flags.to_le_bytes());
    r.extend_from_slice(&0u32.to_le_bytes());
    for o in offs {
        r.extend_from_slice(&o.to_le_bytes());
    }
    r.extend_from_slice(&[0u8; 8]);
    r.extend_from_slice(&expiry.to_bits().to_le_bytes());
    r.extend_from_slice(&0f64.to_bits().to_le_bytes());
    r.extend_from_slice(&strings);
    r
}

fn page(records: &[Vec<u8>]) -> Vec<u8> {
    let mut p = vec![0u8, 0, 1, 0];
    p.extend_from_slice(&(records.len() as u32).to_le_bytes());
    let mut off = 8 + 4 * records.len() as u32 + 4;
    for r in records {
        p.extend_from_slice(&off.to_le_bytes());
        off += r.len() as u32;
    }
    p.extend_from_slice(&[0u8; 4]);
    for r in records {
        p.extend_from_slice(r);
    }
    p
}

fn binarycookies(pages: &[Vec<u8>]) -> Vec<u8> {
    let mut f = b"cook".to_vec();
    f.extend_from_slice(&(pages.len() as u32).to_be_bytes());
    for p in pages {
        f.extend_from_slice(&(p.len() as u32).to_be_bytes());
    }
    for p in pages {
        f.extend_from_slice(p);
    }
    f.extend_from_slice(&[0x07, 0x17, 0x20, 0x05, 0, 0, 0, 0x4b]);
    f
}

#[test]
fn chromium_linux_peanuts_profile() {
    let key = derive_linux_key(&fallback_password());
    assert_eq!(key, linux_key());
    let blob = cbc_encrypt(&key, b"ABC");
    let p = profile(Platform::Linux, key, vec![row(".example.com", "sid", "", blob)]);
    let cs = chrome(Ok(p), None).unwrap();
    assert_eq!(cs.len(), 1);
    assert_eq!(cs[0].domain, ".example.com");
    assert_eq!(cs[0].name, "sid");
    assert_eq!(cs[0].value, "ABC");
}

#[test]
fn chromium_windows_v11_profile() {
    let key: Vec<u8> = (0u8..32).collect();
    let mut wrapped = b"DPAPI".to_vec();
    wrapped.extend_from_slice(&key);
    let local_state = format!(
        "{{\"os_crypt\": {{\"encrypted_key\": \"{}\"}}, \"other\": 1}}",
        base64::engine::general_purpose::STANDARD.encode(&wrapped)
    );
    // The DPAPI unwrap itself is the platform's; here the blob is the key.
    let unwrapped = windows_key_blob(&local_state).unwrap();
    assert_eq!(unwrapped, key);
    let key = check_windows_key(unwrapped).unwrap();
    let blob = gcm_encrypt(b"v11", &key, &[7u8; 12], b"XYZ");
    let p = profile(Platform::Windows, key, vec![row("example.com", "sid", "", blob)]);
    let cs = edge(Ok(p), None).unwrap();
    assert_eq!(cs.len(), 1);
    assert_eq!(cs[0].value, "XYZ");
}

#[test]
fn version_tags_round_trip() {
    let key: Vec<u8> = (100u8..132).collect();
    for tag in [b"v10", b"v11", b"v20"] {
        let blob = gcm_encrypt(tag, &key, &[3u8; 12], b"plain text");
        let got = decrypt_chromium_value(Platform::Windows, &key, "a.com", &blob).unwrap();
        assert_eq!(got, b"plain text".to_vec());
    }
    let lkey = linux_key();
    for tag in [b"v10", b"v11"] {
        let mut blob = cbc_encrypt(&lkey, b"secret");
        blob[..3].copy_from_slice(tag);
        let got = decrypt_chromium_value(Platform::Linux, &lkey, "a.com", &blob).unwrap();
        assert_eq!(got, b"secret".to_vec());
    }
    let mkey = derive_macos_key(b"pw");
    let mut expected = vec![0u8; 16];
    pbkdf2::pbkdf2_hmac::<sha1::Sha1>(b"pw", b"saltysalt", 1003, &mut expected);
    assert_eq!(mkey, expected);
    let blob = cbc_encrypt(&mkey, b"mac value");
    assert_eq!(decrypt_chromium_value(Platform::MacOs, &mkey, "a.com", &blob).unwrap(), b"mac value".to_vec());
}

#[test]
fn host_digest_prefix_is_stripped() {
    let digest = sha2::Sha256::digest(b".example.com").to_vec();
    let mut plain = digest.clone();
    plain.extend_from_slice(b"value");
    assert_eq!(strip_host_digest(plain.clone(), &digest), b"value".to_vec());
    assert_eq!(strip_host_digest(b"value".to_vec(), &digest), b"value".to_vec());
    assert_eq!(strip_host_digest(digest.clone(), &digest), digest);
    let key: Vec<u8> = (0u8..32).collect();
    let blob = gcm_encrypt(b"v10", &key, &[1u8; 12], &plain);
    let got = decrypt_chromium_value(Platform::Windows, &key, ".example.com", &blob).unwrap();
    assert_eq!(got, b"value".to_vec());
    let other = decrypt_chromium_value(Platform::Windows, &key, "other.com", &blob).unwrap();
    assert_eq!(other, plain);
}

#[test]
fn cipher_errors() {
    let key: Vec<u8> = (0u8..32).collect();
    assert_eq!(decrypt_chromium_value(Platform::Windows, &key, "a", b"x11abc"), Err(CookieError::UnknownScheme));
    assert_eq!(decrypt_chromium_value(Platform::Linux, &key, "a", b"v20abcdefghijklmnop"), Err(CookieError::UnknownScheme));
    let mut blob = gcm_encrypt(b"v10", &key, &[1u8; 12], b"abc");
    let last = blob.len() - 1;
    blob[last] ^= 1;
    assert_eq!(decrypt_chromium_value(Platform::Windows, &key, "a", &blob), Err(CookieError::AuthTagMismatch));
    assert_eq!(decrypt_chromium_value(Platform::Windows, &key, "a", b"v10short"), Err(CookieError::AuthTagMismatch));
    let lkey = linux_key();
    assert_eq!(decrypt_chromium_value(Platform::Linux, &lkey, "a", b"v10abc"), Err(CookieError::PaddingInvalid));
    assert_eq!(detect_scheme(Platform::Windows, b"v20xx"), Some(Scheme::AesGcm));
    assert_eq!(detect_scheme(Platform::MacOs, b"v11xx"), Some(Scheme::AesCbc));
    assert_eq!(detect_scheme(Platform::Linux, b"v2"), None);
}

#[test]
fn pkcs7_padding() {
    assert_eq!(strip_pkcs7(&[1, 2, 3, 2, 2]), Some(vec![1, 2, 3]));
    assert_eq!(strip_pkcs7(&[5, 1]), Some(vec![5]));
    assert_eq!(strip_pkcs7(&[1, 2, 3, 1, 2]), None);
    assert_eq!(strip_pkcs7(&[1, 0]), None);
    assert_eq!(strip_pkcs7(&[17; 17]), None);
    assert_eq!(strip_pkcs7(&[]), None);
    assert_eq!(strip_pkcs7(&[16; 16]), Some(vec![]));
}

#[test]
fn firefox_domain_filter() {
    let rows = vec![row(".google.com", "a", "1", vec![]), row("example.org", "b", "2", vec![])];
    let cs = firefox(Ok(rows.clone()), Some(vec!["google.com"])).unwrap();
    assert_eq!(names(&cs), vec!["a".to_string()]);
    assert_eq!(cs[0].value, "1");
    let all = libre_wolf(Ok(rows), None).unwrap();
    assert_eq!(names(&all), vec!["a".to_string(), "b".to_string()]);
}

#[test]
fn domain_rule() {
    assert!(domain_matches("google.com", "google.com"));
    assert!(domain_matches(".google.com", "google.com"));
    assert!(domain_matches("mail.Google.COM", "google.com"));
    assert!(domain_matches("mail.google.com", ".google.com"));
    assert!(!domain_matches("notgoogle.com", "google.com"));
    assert!(!domain_matches("google.com.evil", "google.com"));
    assert!(!domain_matches("google.com", ""));
    assert!(!domain_matches("com", "google.com"));
    assert!(filter_allows("x.org", &None));
    assert!(!filter_allows("x.org", &Some(vec![])));
    assert!(filter_allows("a.x.org", &Some(vec!["y.org", "x.org"])));
}

#[test]
fn safari_two_pages_in_file_order() {
    let first_page = page(&[record("a.com", "n1", "/", "v1", 1, 100.0), record("b.com", "n2", "/p", "v2", 4, 200.0)]);
    let second_page = page(&[record("c.com", "n3", "/", "v3", 5, 300.0), record("d.com", "n4", "/", "v4", 0, 400.0)]);
    let file = binarycookies(&[first_page, second_page]);
    let cs = safari(Ok(file), None).unwrap();
    assert_eq!(names(&cs), vec!["n1", "n2", "n3", "n4"]);
    assert_eq!(cs[1].domain, "b.com");
    assert_eq!(cs[1].path, "/p");
    assert_eq!(cs[1].value, "v2");
    assert!(cs[0].secure && !cs[0].http_only);
    assert!(!cs[1].secure && cs[1].http_only);
    assert!(cs[2].secure && cs[2].http_only);
    assert_eq!(cs[3].expires, Some(978307200 + 400));
}

#[test]
fn safari_record_round_trip() {
    let file = binarycookies(&[page(&[record(".apple.com", "sid", "/x", "hello", 5, 12345.75)])]);
    let rows = parse_binarycookies(&file).unwrap();
    assert_eq!(rows.len(), 1);
    let r = &rows[0];
    assert_eq!(r.host, ".apple.com");
    assert_eq!(r.name, "sid");
    assert_eq!(r.path, "/x");
    assert_eq!(r.value, "hello");
    assert!(r.is_secure && r.is_http_only);
    assert_eq!(r.expires_raw, 978307200 + 12345);
    assert!(r.encrypted_value.is_empty());
}

#[test]
fn safari_malformed_files() {
    assert_eq!(parse_binarycookies(b"kooc\0\0\0\0").unwrap_err(), CookieError::StoreCorrupt);
    assert_eq!(parse_binarycookies(b"cook\0\0\0\x05").unwrap_err(), CookieError::StoreCorrupt);
    let mut file = binarycookies(&[page(&[record("a.com", "n", "/", "v", 0, 1.0)])]);
    file[16] = 9;
    assert_eq!(parse_binarycookies(&file).unwrap_err(), CookieError::StoreCorrupt);
    let truncated = binarycookies(&[page(&[record("a.com", "n", "/", "v", 0, 1.0)])]);
    assert_eq!(parse_binarycookies(&truncated[..40]).unwrap_err(), CookieError::StoreCorrupt);
    assert_eq!(safari(Err(CookieError::PathNotFound), None).unwrap_err(), CookieError::PathNotFound);
}

#[test]
fn mac_times() {
    assert_eq!(mac_time_to_unix(0f64.to_bits()), 978307200);
    assert_eq!(mac_time_to_unix(0.5f64.to_bits()), 978307200);
    assert_eq!(mac_time_to_unix(1.0f64.to_bits()), 978307201);
    assert_eq!(mac_time_to_unix(700000000.9f64.to_bits()), 978307200 + 700000000);
    assert_eq!(mac_time_to_unix(4503599627370496.0f64.to_bits()), 978307200 + 4503599627370496);
    assert_eq!(mac_time_to_unix((-5.0f64).to_bits()), 0);
    assert_eq!(mac_time_to_unix(f64::NAN.to_bits()), 0);
    assert_eq!(mac_time_to_unix(1e300f64.to_bits()), 0);
}

#[test]
fn any_browser_uses_firefox_rows() {
    let c = StoreCandidates { chromium: None, firefox: Some(vec![row("a.com", "x", "1", vec![])]), bytes: Some(vec![1, 2, 3]) };
    let cs = any_browser(c, None).unwrap();
    assert_eq!(names(&cs), vec!["x"]);
    let none = StoreCandidates { chromium: None, firefox: None, bytes: Some(vec![1, 2, 3]) };
    assert_eq!(any_browser(none, None).unwrap_err(), CookieError::NoDecoderMatched);
    let file = binarycookies(&[page(&[record("s.com", "saf", "/", "v", 0, 1.0)])]);
    let saf = StoreCandidates { chromium: None, firefox: None, bytes: Some(file) };
    assert_eq!(names(&any_browser(saf, None).unwrap()), vec!["saf"]);
    let key = linux_key();
    let blob = cbc_encrypt(&key, b"c");
    let ch = StoreCandidates {
        chromium: Some(profile(Platform::Linux, key, vec![row("c.com", "chr", "", blob)])),
        firefox: Some(vec![row("a.com", "x", "1", vec![])]),
        bytes: None,
    };
    assert_eq!(names(&any_browser(ch, None).unwrap()), vec!["chr"]);
}

#[test]
fn load_with_only_firefox() {
    let ff = firefox(Ok(vec![row("a.com", "f1", "1", vec![]), row("b.com", "f2", "2", vec![])]), None);
    let results = vec![
        ff,
        libre_wolf(Err(CookieError::PathNotFound), None),
        opera(Err(CookieError::PathNotFound), None),
        chromium(Err(CookieError::KeyNotFound), None),
        brave(Err(CookieError::PathNotFound), None),
        vivaldi(Err(CookieError::PathNotFound), None),
    ];
    let cs = load(results).unwrap();
    assert_eq!(names(&cs), vec!["f1", "f2"]);
    assert!(load(vec![]).unwrap().is_empty());
}

#[test]
fn empty_store_is_not_an_error() {
    assert!(firefox(Ok(vec![]), None).unwrap().is_empty());
    let key = linux_key();
    assert!(opera_gx(Ok(profile(Platform::Linux, key, vec![])), None).unwrap().is_empty());
    assert!(safari(Ok(binarycookies(&[])), None).unwrap().is_empty());
    assert!(safari(Ok(binarycookies(&[page(&[])])), None).unwrap().is_empty());
}

#[test]
fn zero_expiry_is_session_cookie() {
    assert_eq!(convert_expires(ExpiryEpoch::WebKitMicros, 0), None);
    assert_eq!(convert_expires(ExpiryEpoch::WebKitMicros, 11644473600000000 + 5_500_000), Some(5));
    assert_eq!(convert_expires(ExpiryEpoch::WebKitMicros, 100), Some(0));
    assert_eq!(convert_expires(ExpiryEpoch::UnixSeconds, 0), None);
    assert_eq!(convert_expires(ExpiryEpoch::UnixSeconds, 1700000000), Some(1700000000));
    let mut r = row("a.com", "n", "v", vec![]);
    r.expires_raw = 0;
    let cs = chromium(Ok(profile(Platform::Linux, linux_key(), vec![r])), None).unwrap();
    assert_eq!(cs[0].expires, None);
}

#[test]
fn same_site_values() {
    assert_eq!(normalize_same_site(-1), -1);
    assert_eq!(normalize_same_site(0), 0);
    assert_eq!(normalize_same_site(1), 1);
    assert_eq!(normalize_same_site(2), 2);
    assert_eq!(normalize_same_site(3), 0);
    assert_eq!(normalize_same_site(-7), 0);
    let mut r = row("a.com", "n", "v", vec![]);
    r.same_site_raw = 9;
    let cs = firefox(Ok(vec![r]), None).unwrap();
    assert_eq!(cs[0].same_site, 0);
}

#[test]
fn rows_dropped_when_unusable() {
    let key = linux_key();
    let good = cbc_encrypt(&key, b"ok");
    let bad_utf8 = cbc_encrypt(&key, &[0xff, 0xfe]);
    let rows = vec![
        row("a.com", "", "v", vec![]),
        row("a.com", "bad", "", b"v10garbage".to_vec()),
        row("a.com", "utf", "", bad_utf8),
        row("a.com", "unknown", "", b"zzz".to_vec()),
        row("a.com", "good", "", good),
        row("a.com", "empty", "", vec![]),
    ];
    let cs = extract_cookies(&rows, &ValueCodec::Chromium { platform: Platform::Linux, key }, ExpiryEpoch::WebKitMicros, &None);
    assert_eq!(names(&cs), vec!["good", "empty"]);
    assert_eq!(cs[0].value, "ok");
    assert_eq!(cs[1].value, "");
}

#[test]
fn repeated_extraction_is_equal() {
    let rows = vec![row(".google.com", "a", "1", vec![]), row("x.org", "b", "2", vec![])];
    let a = firefox(Ok(rows.clone()), Some(vec!["google.com"])).unwrap();
    let b = firefox(Ok(rows), Some(vec!["google.com"])).unwrap();
    assert_eq!(names(&a), names(&b));
    assert_eq!(a[0].value, b[0].value);
}

#[test]
fn multi_profile_versions() {
    let key = linux_key();
    let mut p = profile(Platform::Linux, key.clone(), vec![row("a.com", "n", "v", vec![])]);
    p.last_version = Some(" 120.0.1 \n".to_string());
    let q = profile(Platform::Linux, key, vec![]);
    let out = chrome_v2(Ok(vec![p, q]), None).unwrap();
    assert_eq!(out.len(), 2);
    assert_eq!(out[0].1, Some("120.0.1".to_string()));
    assert_eq!(names(&out[0].0), vec!["n"]);
    assert_eq!(out[1].1, None);
    assert!(out[1].0.is_empty());
    assert_eq!(rookie::brave_v2(Err(CookieError::PathNotFound), None).unwrap_err(), CookieError::PathNotFound);
    assert!(rookie::edge_v2(Ok(vec![]), None).unwrap().is_empty());
}

#[test]
fn keys_and_errors() {
    assert_eq!(linux_password(Some(b"s".to_vec()), Some(b"k".to_vec())), b"s".to_vec());
    assert_eq!(linux_password(None, Some(b"k".to_vec())), b"k".to_vec());
    assert_eq!(linux_password(None, None), b"peanuts".to_vec());
    assert_eq!(dpapi_blob(b"DPAP"), Err(CookieError::KeyMalformed));
    assert_eq!(dpapi_blob(b"XPAPIabc"), Err(CookieError::KeyMalformed));
    assert_eq!(dpapi_blob(b"DPAPIabc"), Ok(b"abc".to_vec()));
    assert_eq!(check_windows_key(vec![0; 16]), Err(CookieError::KeyMalformed));
    assert_eq!(octo_browser(Err(CookieError::KeyNotFound), None).unwrap_err(), CookieError::KeyNotFound);
    assert_eq!(internet_explorer(Err(CookieError::StoreLocked), None).unwrap_err(), CookieError::StoreLocked);
    let ie = internet_explorer(Ok(vec![row("a.com", "ie", "v", vec![])]), Some(vec![".a.com"])).unwrap();
    assert_eq!(names(&ie), vec!["ie"]);
}

#[test]
fn profile_selection_rules() {
    let a = ProfilePaths { key_path: None, cookie_path: "/a/Cookies".to_string() };
    let b = ProfilePaths { key_path: Some("/b/Local State".to_string()), cookie_path: "/b/Cookies".to_string() };
    assert_eq!(first_profile(vec![]).unwrap_err(), CookieError::PathNotFound);
    assert_eq!(first_profile(vec![a.clone(), b.clone()]).unwrap().cookie_path, "/a/Cookies");
    assert_eq!(all_profiles(vec![]).unwrap_err(), CookieError::PathNotFound);
    assert_eq!(all_profiles(vec![a.clone(), b.clone()]).unwrap().len(), 2);
    assert_eq!(require_key_file(Platform::Windows, a.clone()).unwrap_err(), CookieError::KeyNotFound);
    assert_eq!(require_key_file(Platform::Linux, a).unwrap().cookie_path, "/a/Cookies");
    assert_eq!(require_key_file(Platform::Windows, b).unwrap().cookie_path, "/b/Cookies");
}

#[test]
fn local_state_key_errors() {
    assert_eq!(windows_key_blob("{}"), Err(CookieError::KeyNotFound));
    assert_eq!(windows_key_blob("not json"), Err(CookieError::KeyNotFound));
    assert_eq!(windows_key_blob("{\"os_crypt\": {\"encrypted_key\": 5}}"), Err(CookieError::KeyNotFound));
    assert_eq!(windows_key_blob("{\"os_crypt\": {\"encrypted_key\": \"@@@\"}}"), Err(CookieError::KeyMalformed));
    // "QUJDREVGRw==" is base64 for "ABCDEFG": no DPAPI prefix.
    assert_eq!(windows_key_blob("{\"os_crypt\": {\"encrypted_key\": \"QUJDREVGRw==\"}}"), Err(CookieError::KeyMalformed));
    // "RFBBUElrZXk=" is base64 for "DPAPIkey".
    assert_eq!(windows_key_blob("{\"os_crypt\": {\"encrypted_key\": \"RFBBUElrZXk=\"}}"), Ok(b"key".to_vec()));
}
