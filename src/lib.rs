//! Extraction of browser cookies: store parsing, value decryption and
//! normalisation into a uniform cookie record.
//!
//! Reading files and querying the platform's keystore is left to the
//! caller; the functions here take what was read and return the cookies.
pub mod bytes;
pub mod cipher;
pub mod cookie;
pub mod domain;
pub mod keys;
pub mod normalize;
pub mod profiles;
pub mod safari;

use crate::cipher::Platform;
use crate::cookie::{rows_view, Cookie, CookieError, CookieView, ExpiryEpoch, RawCookieRow};
use crate::domain::domains_view;
use crate::normalize::{
    cookies_view, extract_cookies, extract_spec, extract_store, result_view, store_spec, store_view,
    CodecView, ValueCodec,
};
use crate::safari::{binarycookies_spec, parse_binarycookies};
use vstd::prelude::*;

verus! {

/// What was read from one Chromium profile: the platform that wrote it, its
/// master key and the rows of its `cookies` table.
#[derive(Clone, Debug)]
pub struct ChromiumProfile {
    pub platform: Platform,
    pub key: Vec<u8>,
    pub rows: Vec<RawCookieRow>,
    /// The text of the `Last Version` file beside the profile, if any.
    pub last_version: Option<String>,
}

/// The codec that opens a profile's values.
pub open spec fn profile_codec(p: ChromiumProfile) -> CodecView {
    CodecView::Chromium { platform: p.platform, key: p.key@ }
}

/// The cookies of a Chromium profile, or the error that kept it from being
/// read.
pub open spec fn chromium_spec(
    profile: Result<ChromiumProfile, CookieError>,
    domains: Option<Seq<Seq<char>>>,
) -> Result<Seq<CookieView>, CookieError> {
    match profile {
        Err(e) => Err(e),
        Ok(p) => Ok(extract_spec(rows_view(p.rows@), profile_codec(p), ExpiryEpoch::WebKitMicros, domains)),
    }
}

fn chromium_based(profile: &ChromiumProfile, domains: &Option<Vec<&str>>) -> (r: Vec<Cookie>)
    ensures
        cookies_view(r@) == extract_spec(
            rows_view(profile.rows@),
            profile_codec(*profile),
            ExpiryEpoch::WebKitMicros,
            domains_view(*domains),
        ),
{
    let codec = ValueCodec::Chromium { platform: profile.platform, key: profile.key.clone() };
    extract_cookies(&profile.rows, &codec, ExpiryEpoch::WebKitMicros, domains)
}

fn chromium_profile(profile: Result<ChromiumProfile, CookieError>, domains: Option<Vec<&str>>) -> (r: Result<Vec<Cookie>, CookieError>)
    ensures
        result_view(r) == chromium_spec(profile, domains_view(domains)),
{
    match profile {
        Err(e) => Err(e),
        Ok(p) => Ok(chromium_based(&p, &domains)),
    }
}

/// The cookies of a Firefox-family store (plaintext values, unix-second
/// expiry), or the error that kept the store from being read.
pub open spec fn plain_store_spec(
    store: Result<Vec<RawCookieRow>, CookieError>,
    domains: Option<Vec<&str>>,
) -> Result<Seq<CookieView>, CookieError> {
    store_spec(store_view(store), CodecView::Plain, ExpiryEpoch::UnixSeconds, domains_view(domains))
}

/// Returns the cookies of a Firefox `cookies.sqlite` store.
pub fn firefox(store: Result<Vec<RawCookieRow>, CookieError>, domains: Option<Vec<&str>>) -> (r: Result<Vec<Cookie>, CookieError>)
    ensures
        result_view(r) == plain_store_spec(store, domains),
{
    extract_store(&store, &ValueCodec::Plain, ExpiryEpoch::UnixSeconds, &domains)
}

/// Returns the cookies of a LibreWolf `cookies.sqlite` store.
pub fn libre_wolf(store: Result<Vec<RawCookieRow>, CookieError>, domains: Option<Vec<&str>>) -> (r: Result<Vec<Cookie>, CookieError>)
    ensures
        result_view(r) == plain_store_spec(store, domains),
{
    extract_store(&store, &ValueCodec::Plain, ExpiryEpoch::UnixSeconds, &domains)
}

/// Returns the cookies of a Chrome profile.
pub fn chrome(profile: Result<ChromiumProfile, CookieError>, domains: Option<Vec<&str>>) -> (r: Result<Vec<Cookie>, CookieError>)
    ensures
        result_view(r) == chromium_spec(profile, domains_view(domains)),
{
    chromium_profile(profile, domains)
}

/// Returns the cookies of a Chromium profile.
pub fn chromium(profile: Result<ChromiumProfile, CookieError>, domains: Option<Vec<&str>>) -> (r: Result<Vec<Cookie>, CookieError>)
    ensures
        result_view(r) == chromium_spec(profile, domains_view(domains)),
{
    chromium_profile(profile, domains)
}

/// Returns the cookies of a Brave profile.
pub fn brave(profile: Result<ChromiumProfile, CookieError>, domains: Option<Vec<&str>>) -> (r: Result<Vec<Cookie>, CookieError>)
    ensures
        result_view(r) == chromium_spec(profile, domains_view(domains)),
{
    chromium_profile(profile, domains)
}

/// Returns the cookies of an Edge profile.
pub fn edge(profile: Result<ChromiumProfile, CookieError>, domains: Option<Vec<&str>>) -> (r: Result<Vec<Cookie>, CookieError>)
    ensures
        result_view(r) == chromium_spec(profile, domains_view(domains)),
{
    chromium_profile(profile, domains)
}

/// Returns the cookies of a Vivaldi profile.
pub fn vivaldi(profile: Result<ChromiumProfile, CookieError>, domains: Option<Vec<&str>>) -> (r: Result<Vec<Cookie>, CookieError>)
    ensures
        result_view(r) == chromium_spec(profile, domains_view(domains)),
{
    chromium_profile(profile, domains)
}

/// Returns the cookies of an Opera profile.
pub fn opera(profile: Result<ChromiumProfile, CookieError>, domains: Option<Vec<&str>>) -> (r: Result<Vec<Cookie>, CookieError>)
    ensures
        result_view(r) == chromium_spec(profile, domains_view(domains)),
{
    chromium_profile(profile, domains)
}

/// Returns the cookies of an Opera GX profile.
pub fn opera_gx(profile: Result<ChromiumProfile, CookieError>, domains: Option<Vec<&str>>) -> (r: Result<Vec<Cookie>, CookieError>)
    ensures
        result_view(r) == chromium_spec(profile, domains_view(domains)),
{
    chromium_profile(profile, domains)
}

/// Returns the cookies of an Octo Browser profile, which is laid out as an
/// Opera GX one.
pub fn octo_browser(profile: Result<ChromiumProfile, CookieError>, domains: Option<Vec<&str>>) -> (r: Result<Vec<Cookie>, CookieError>)
    ensures
        result_view(r) == chromium_spec(profile, domains_view(domains)),
{
    chromium_profile(profile, domains)
}

/// The cookies of a Safari `binarycookies` file, or why it could not be
/// read or parsed (`StoreCorrupt`).
pub open spec fn safari_spec(
    file: Result<Seq<u8>, CookieError>,
    domains: Option<Seq<Seq<char>>>,
) -> Result<Seq<CookieView>, CookieError> {
    match file {
        Err(e) => Err(e),
        Ok(b) => match binarycookies_spec(b) {
            None => Err(CookieError::StoreCorrupt),
            Some(rows) => Ok(extract_spec(rows, CodecView::Plain, ExpiryEpoch::UnixSeconds, domains)),
        },
    }
}


/// Returns the cookies of a Safari `Cookies.binarycookies` file.
pub fn safari(file: Result<Vec<u8>, CookieError>, domains: Option<Vec<&str>>) -> (r: Result<Vec<Cookie>, CookieError>)
    ensures
        result_view(r) == safari_spec(
            match file { Ok(b) => Ok(b@), Err(e) => Err(e) },
            domains_view(domains),
        ),
{
    match file {
        Err(e) => Err(e),
        Ok(b) => match parse_binarycookies(b.as_slice()) {
            Err(e) => Err(e),
            Ok(rows) => Ok(extract_cookies(&rows, &ValueCodec::Plain, ExpiryEpoch::UnixSeconds, &domains)),
        },
    }
}

/// Returns the cookies of Internet Explorer's cookie store, given as rows
/// whose values DPAPI already unwrapped and whose expiry is in unix seconds.
pub fn internet_explorer(store: Result<Vec<RawCookieRow>, CookieError>, domains: Option<Vec<&str>>) -> (r: Result<Vec<Cookie>, CookieError>)
    ensures
        result_view(r) == plain_store_spec(store, domains),
{
    extract_store(&store, &ValueCodec::Plain, ExpiryEpoch::UnixSeconds, &domains)
}


/// The text of a string with leading and trailing whitespace removed.
pub uninterp spec fn trim_of(s: Seq<char>) -> Seq<char>;

/// Relies on `str::trim`: the text without leading and trailing white space.
#[verifier::external_body]
fn trim_text(s: &str) -> (r: String)
    ensures
        r@ == trim_of(s@),
{
    s.trim().to_string()
}

/// The trimmed `Last Version` text of a profile.
pub open spec fn last_version_spec(v: Option<String>) -> Option<Seq<char>> {
    match v {
        Some(s) => Some(trim_of(s@)),
        None => None,
    }
}

/// The cookies of each profile, with its trimmed `Last Version`.
pub open spec fn profiles_spec(
    ps: Seq<ChromiumProfile>,
    domains: Option<Seq<Seq<char>>>,
) -> Seq<(Seq<CookieView>, Option<Seq<char>>)> {
    ps.map_values(
        |p: ChromiumProfile|
            (
                extract_spec(rows_view(p.rows@), profile_codec(p), ExpiryEpoch::WebKitMicros, domains),
                last_version_spec(p.last_version),
            ),
    )
}

/// The view of per-profile results.
pub open spec fn profile_results_view(rs: Seq<(Vec<Cookie>, Option<String>)>) -> Seq<(Seq<CookieView>, Option<Seq<char>>)> {
    rs.map_values(
        |r: (Vec<Cookie>, Option<String>)|
            (cookies_view(r.0@), match r.1 { Some(s) => Some(s@), None => None }),
    )
}

/// The result of a multi-profile extraction.
pub open spec fn multi_profile_spec(
    profiles: Result<Vec<ChromiumProfile>, CookieError>,
    domains: Option<Seq<Seq<char>>>,
) -> Result<Seq<(Seq<CookieView>, Option<Seq<char>>)>, CookieError> {
    match profiles {
        Err(e) => Err(e),
        Ok(ps) => Ok(profiles_spec(ps@, domains)),
    }
}

/// The view of a multi-profile result.
pub open spec fn multi_result_view(
    r: Result<Vec<(Vec<Cookie>, Option<String>)>, CookieError>,
) -> Result<Seq<(Seq<CookieView>, Option<Seq<char>>)>, CookieError> {
    match r {
        Ok(v) => Ok(profile_results_view(v@)),
        Err(e) => Err(e),
    }
}

fn chromium_profiles(
    profiles: Result<Vec<ChromiumProfile>, CookieError>,
    domains: Option<Vec<&str>>,
) -> (r: Result<Vec<(Vec<Cookie>, Option<String>)>, CookieError>)
    ensures
        multi_result_view(r) == multi_profile_spec(profiles, domains_view(domains)),
{
    match profiles {
        Err(e) => Err(e),
        Ok(ps) => {
            let ghost target = profiles_spec(ps@, domains_view(domains));
            let mut out: Vec<(Vec<Cookie>, Option<String>)> = Vec::new();
            let mut i: usize = 0;
            while i < ps.len()
                invariant
                    0 <= i <= ps@.len(),
                    target == profiles_spec(ps@, domains_view(domains)),
                    profile_results_view(out@) =~= target.subrange(0, i as int),
                decreases ps@.len() - i,
            {
                let p = &ps[i];
                let cookies = chromium_based(p, &domains);
                let last = match &p.last_version {
                    Some(s) => Some(trim_text(s.as_str())),
                    None => None,
                };
                let ghost before = out@;
                out.push((cookies, last));
                proof {
                    assert(last_version_spec(p.last_version) == match last { Some(s) => Some(s@), None => None::<Seq<char>> });
                    assert(profile_results_view(out@) =~= profile_results_view(before).push(target[i as int]));
                }
                i = i + 1;
            }
            assert(target.subrange(0, ps@.len() as int) =~= target);
            Ok(out)
        },
    }
}

/// Returns the cookies of every Chrome profile, each with its version.
pub fn chrome_v2(
    profiles: Result<Vec<ChromiumProfile>, CookieError>,
    domains: Option<Vec<&str>>,
) -> (r: Result<Vec<(Vec<Cookie>, Option<String>)>, CookieError>)
    ensures
        multi_result_view(r) == multi_profile_spec(profiles, domains_view(domains)),
{
    chromium_profiles(profiles, domains)
}

/// Returns the cookies of every Brave profile, each with its version.
pub fn brave_v2(
    profiles: Result<Vec<ChromiumProfile>, CookieError>,
    domains: Option<Vec<&str>>,
) -> (r: Result<Vec<(Vec<Cookie>, Option<String>)>, CookieError>)
    ensures
        multi_result_view(r) == multi_profile_spec(profiles, domains_view(domains)),
{
    chromium_profiles(profiles, domains)
}

/// Returns the cookies of every Edge profile, each with its version.
pub fn edge_v2(
    profiles: Result<Vec<ChromiumProfile>, CookieError>,
    domains: Option<Vec<&str>>,
) -> (r: Result<Vec<(Vec<Cookie>, Option<String>)>, CookieError>)
    ensures
        multi_result_view(r) == multi_profile_spec(profiles, domains_view(domains)),
{
    chromium_profiles(profiles, domains)
}

/// The concatenated cookies of the browsers that answered; a browser that
/// failed contributes nothing.
pub open spec fn load_spec(rs: Seq<Result<Seq<CookieView>, CookieError>>) -> Seq<CookieView>
    decreases rs.len(),
{
    if rs.len() == 0 {
        Seq::empty()
    } else {
        let prev = load_spec(rs.drop_last());
        match rs.last() {
            Ok(cs) => prev + cs,
            Err(_) => prev,
        }
    }
}

/// The views of the per-browser results.
pub open spec fn results_view(rs: Seq<Result<Vec<Cookie>, CookieError>>) -> Seq<Result<Seq<CookieView>, CookieError>> {
    rs.map_values(|r: Result<Vec<Cookie>, CookieError>| result_view(r))
}

/// Returns the cookies of all browsers, given each browser's result in
/// turn: a browser's error is replaced by an empty list.
pub fn load(results: Vec<Result<Vec<Cookie>, CookieError>>) -> (r: Result<Vec<Cookie>, CookieError>)
    ensures
        r matches Ok(cs) && cookies_view(cs@) == load_spec(results_view(results@)),
{
    let ghost all = results_view(results@);
    let total = results.len();
    let mut rest = results;
    let mut out: Vec<Cookie> = Vec::new();
    let mut taken: usize = 0;
    while rest.len() > 0
        invariant
            taken + rest@.len() == all.len(),
            all.len() == total,
            results_view(rest@) =~= all.subrange(taken as int, all.len() as int),
            cookies_view(out@) == load_spec(all.subrange(0, taken as int)),
        decreases rest@.len(),
    {
        let ghost before = out@;
        proof {
            assert(all.subrange(0, taken + 1).drop_last() =~= all.subrange(0, taken as int));
            assert(all.subrange(0, taken + 1).last() == all[taken as int]);
            assert(results_view(rest@)[0] == result_view(rest@[0]));
            assert(all[taken as int] == result_view(rest@[0]));
        }
        let ghost old_rest = rest@;
        let first = rest.remove(0);
        proof {
            assert forall|j: int| 0 <= j < rest@.len() implies
                #[trigger] results_view(rest@)[j] == all[taken + 1 + j] by {
                assert(rest@[j] == old_rest[j + 1]);
                assert(results_view(old_rest)[j + 1] == all[taken + 1 + j]);
            }
        }
        match first {
            Ok(mut cs) => {
                let ghost added = cs@;
                out.append(&mut cs);
                assert(cookies_view(out@) =~= cookies_view(before) + cookies_view(added));
            },
            Err(_) => {},
        }
        taken = taken + 1;
        assert(results_view(rest@) =~= all.subrange(taken as int, all.len() as int));
    }
    assert(all.subrange(0, taken as int) =~= all);
    Ok(out)
}

/// What a caller could read from a cookie file of unknown origin: a
/// Chromium profile when the file has a `cookies` table and a key was
/// found, the rows of a Firefox `moz_cookies` table, and the raw bytes.
#[derive(Clone, Debug)]
pub struct StoreCandidates {
    pub chromium: Option<ChromiumProfile>,
    pub firefox: Option<Vec<RawCookieRow>>,
    pub bytes: Option<Vec<u8>>,
}

/// The decoders tried in turn: Chromium, then Firefox, then Safari; the
/// first that succeeds gives the cookies.
pub open spec fn any_browser_spec(c: StoreCandidates, domains: Option<Seq<Seq<char>>>) -> Result<Seq<CookieView>, CookieError> {
    match c.chromium {
        Some(p) => chromium_spec(Ok(p), domains),
        None => match c.firefox {
            Some(rows) => Ok(extract_spec(rows_view(rows@), CodecView::Plain, ExpiryEpoch::UnixSeconds, domains)),
            None => match c.bytes {
                Some(b) => match safari_spec(Ok(b@), domains) {
                    Ok(cs) => Ok(cs),
                    Err(_) => Err(CookieError::NoDecoderMatched),
                },
                None => Err(CookieError::NoDecoderMatched),
            },
        },
    }
}

/// Returns the cookies of a cookie file of unknown origin, from the first
/// decoder that accepts it; `NoDecoderMatched` when none does.
pub fn any_browser(candidates: StoreCandidates, domains: Option<Vec<&str>>) -> (r: Result<Vec<Cookie>, CookieError>)
    ensures
        result_view(r) == any_browser_spec(candidates, domains_view(domains)),
{
    let StoreCandidates { chromium, firefox, bytes } = candidates;
    if let Some(p) = chromium {
        return chromium_profile(Ok(p), domains);
    }
    if let Some(rows) = firefox {
        return Ok(extract_cookies(&rows, &ValueCodec::Plain, ExpiryEpoch::UnixSeconds, &domains));
    }
    if let Some(b) = bytes {
        if let Ok(cs) = safari(Ok(b), domains) {
            return Ok(cs);
        }
    }
    Err(CookieError::NoDecoderMatched)
}

} // verus!
