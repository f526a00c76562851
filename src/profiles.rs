//! The rules that pick a browser's profile among those found on disk.
use crate::cipher::Platform;
use crate::cookie::CookieError;
use vstd::prelude::*;

verus! {

/// Where one profile keeps its key file (if it has one) and its cookie store.
#[derive(Clone, Debug)]
pub struct ProfilePaths {
    pub key_path: Option<String>,
    pub cookie_path: String,
}

/// The profile that a single-profile extraction uses: the first candidate,
/// or `PathNotFound` when there is none.
pub open spec fn first_profile_spec(candidates: Seq<ProfilePaths>) -> Result<ProfilePaths, CookieError> {
    if candidates.len() == 0 {
        Err(CookieError::PathNotFound)
    } else {
        Ok(candidates[0])
    }
}

/// Picks the first candidate profile.
pub fn first_profile(candidates: Vec<ProfilePaths>) -> (r: Result<ProfilePaths, CookieError>)
    ensures
        r == first_profile_spec(candidates@),
{
    let mut candidates = candidates;
    if candidates.len() == 0 {
        Err(CookieError::PathNotFound)
    } else {
        Ok(candidates.remove(0))
    }
}

/// The profiles of a multi-profile extraction: all candidates, or
/// `PathNotFound` when there is none.
pub fn all_profiles(candidates: Vec<ProfilePaths>) -> (r: Result<Vec<ProfilePaths>, CookieError>)
    ensures
        candidates@.len() == 0 ==> r == Err::<Vec<ProfilePaths>, CookieError>(CookieError::PathNotFound),
        candidates@.len() > 0 ==> r == Ok::<Vec<ProfilePaths>, CookieError>(candidates),
{
    if candidates.len() == 0 {
        Err(CookieError::PathNotFound)
    } else {
        Ok(candidates)
    }
}

/// A Chromium profile is usable without a key file except on Windows, where
/// the key lives only in `Local State`.
pub open spec fn key_rule_spec(platform: Platform, p: ProfilePaths) -> Result<ProfilePaths, CookieError> {
    if platform == Platform::Windows && p.key_path is None {
        Err(CookieError::KeyNotFound)
    } else {
        Ok(p)
    }
}

/// Applies the key-file rule to a Chromium profile.
pub fn require_key_file(platform: Platform, p: ProfilePaths) -> (r: Result<ProfilePaths, CookieError>)
    ensures
        r == key_rule_spec(platform, p),
{
    if platform == Platform::Windows && p.key_path.is_none() {
        Err(CookieError::KeyNotFound)
    } else {
        Ok(p)
    }
}

} // verus!
