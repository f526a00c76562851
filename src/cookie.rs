//! The cookie record, the raw row that store readers produce, and the
//! normalisation of a row's attributes.
use vstd::prelude::*;

verus! {

/// `same_site` of a cookie sent with cross-site requests.
pub const SAME_SITE_NONE: i64 = -1;
/// `same_site` when the store says nothing usable.
pub const SAME_SITE_UNSPECIFIED: i64 = 0;
/// `same_site` of a cookie withheld from cross-site subrequests.
pub const SAME_SITE_LAX: i64 = 1;
/// `same_site` of a cookie withheld from every cross-site request.
pub const SAME_SITE_STRICT: i64 = 2;

/// Microseconds between 1601-01-01 and 1970-01-01.
pub const WEBKIT_EPOCH_OFFSET_MICROS: i64 = 11644473600000000;

/// A decrypted cookie as handed to callers.
#[derive(Clone, Debug)]
pub struct Cookie {
    pub domain: String,
    pub path: String,
    pub secure: bool,
    /// Unix seconds; absent for a session cookie.
    pub expires: Option<u64>,
    pub name: String,
    pub value: String,
    pub http_only: bool,
    pub same_site: i64,
}

/// The mathematical content of a [`Cookie`].
pub ghost struct CookieView {
    pub domain: Seq<char>,
    pub path: Seq<char>,
    pub secure: bool,
    pub expires: Option<u64>,
    pub name: Seq<char>,
    pub value: Seq<char>,
    pub http_only: bool,
    pub same_site: i64,
}

impl View for Cookie {
    type V = CookieView;

    open spec fn view(&self) -> CookieView {
        CookieView {
            domain: self.domain@,
            path: self.path@,
            secure: self.secure,
            expires: self.expires,
            name: self.name@,
            value: self.value@,
            http_only: self.http_only,
            same_site: self.same_site,
        }
    }
}

/// How a store counts expiry times.
#[derive(Clone, Copy, Debug, PartialEq, Eq, Structural)]
pub enum ExpiryEpoch {
    /// Microseconds since 1601-01-01 (Chromium); zero marks a session cookie.
    WebKitMicros,
    /// Seconds since 1970-01-01 (Firefox, and Safari once converted); zero
    /// or less marks a session cookie.
    UnixSeconds,
}

/// One row of a cookie store, before filtering and decryption.
#[derive(Clone, Debug)]
pub struct RawCookieRow {
    pub host: String,
    pub name: String,
    /// The plaintext value, empty when the store keeps it encrypted.
    pub value: String,
    pub encrypted_value: Vec<u8>,
    pub path: String,
    pub expires_raw: i64,
    pub is_secure: bool,
    pub is_http_only: bool,
    pub same_site_raw: i64,
}

/// Why an extraction, or the decoding of one value, failed.
#[derive(Clone, Copy, Debug, PartialEq, Eq, Structural)]
pub enum CookieError {
    PathNotFound,
    StoreLocked,
    StoreCorrupt,
    KeystoreUnavailable,
    KeyNotFound,
    KeyMalformed,
    UnknownScheme,
    AuthTagMismatch,
    PaddingInvalid,
    Utf8Invalid,
    NoDecoderMatched,
}

/// The four values that `same_site` may take.
pub open spec fn valid_same_site(v: i64) -> bool {
    -1 <= v <= 2
}

/// A store's `samesite` column mapped onto the four known values; anything
/// else means "unspecified".
pub open spec fn same_site_spec(raw: i64) -> i64 {
    if valid_same_site(raw) {
        raw
    } else {
        SAME_SITE_UNSPECIFIED
    }
}

/// A raw expiry time as unix seconds; `None` for a session cookie. Times
/// before 1970 are clamped to zero.
pub open spec fn expires_spec(epoch: ExpiryEpoch, raw: i64) -> Option<u64> {
    match epoch {
        ExpiryEpoch::WebKitMicros => {
            if raw == 0 {
                None
            } else if raw <= WEBKIT_EPOCH_OFFSET_MICROS {
                Some(0u64)
            } else {
                Some(((raw - WEBKIT_EPOCH_OFFSET_MICROS) / 1_000_000) as u64)
            }
        },
        ExpiryEpoch::UnixSeconds => {
            if raw <= 0 {
                None
            } else {
                Some(raw as u64)
            }
        },
    }
}

/// Normalises a store's `samesite` value (unknown values become
/// "unspecified").
pub fn normalize_same_site(raw: i64) -> (r: i64)
    ensures
        r == same_site_spec(raw),
        valid_same_site(r),
{
    if -1 <= raw && raw <= 2 {
        raw
    } else {
        SAME_SITE_UNSPECIFIED
    }
}

/// Converts a store's raw expiry time to unix seconds.
pub fn convert_expires(epoch: ExpiryEpoch, raw: i64) -> (r: Option<u64>)
    ensures
        r == expires_spec(epoch, raw),
{
    match epoch {
        ExpiryEpoch::WebKitMicros => {
            if raw == 0 {
                None
            } else if raw <= WEBKIT_EPOCH_OFFSET_MICROS {
                Some(0u64)
            } else {
                Some(((raw - WEBKIT_EPOCH_OFFSET_MICROS) / 1_000_000) as u64)
            }
        },
        ExpiryEpoch::UnixSeconds => {
            if raw <= 0 {
                None
            } else {
                Some(raw as u64)
            }
        },
    }
}


/// The content of a [`RawCookieRow`].
pub ghost struct RawRowView {
    pub host: Seq<char>,
    pub name: Seq<char>,
    pub value: Seq<char>,
    pub encrypted_value: Seq<u8>,
    pub path: Seq<char>,
    pub expires_raw: i64,
    pub is_secure: bool,
    pub is_http_only: bool,
    pub same_site_raw: i64,
}

impl View for RawCookieRow {
    type V = RawRowView;

    open spec fn view(&self) -> RawRowView {
        RawRowView {
            host: self.host@,
            name: self.name@,
            value: self.value@,
            encrypted_value: self.encrypted_value@,
            path: self.path@,
            expires_raw: self.expires_raw,
            is_secure: self.is_secure,
            is_http_only: self.is_http_only,
            same_site_raw: self.same_site_raw,
        }
    }
}

/// The views of a list of rows.
pub open spec fn rows_view(rows: Seq<RawCookieRow>) -> Seq<RawRowView> {
    rows.map_values(|r: RawCookieRow| r@)
}

/// A Chromium row whose raw expiry is zero is a session cookie.
pub proof fn lemma_zero_expiry_is_session()
    ensures
        expires_spec(ExpiryEpoch::WebKitMicros, 0) is None,
{
}

} // verus!
