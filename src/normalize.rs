//! Turns the rows of a store into cookies: filter by domain, pick or decrypt
//! the value, convert the expiry and normalise `same_site`.
use crate::cipher::{decrypt_chromium_value, decrypt_spec, Platform};
use crate::cookie::{
    convert_expires, expires_spec, normalize_same_site, same_site_spec, valid_same_site, Cookie,
    rows_view, CookieError, CookieView, ExpiryEpoch, RawCookieRow, RawRowView,
};
use crate::domain::{domains_view, filter_allows, filter_keeps};
use vstd::prelude::*;
use vstd::utf8::encode_utf8;

verus! {

/// The text that a byte sequence holds as UTF-8, or `None` when it is not
/// valid UTF-8.
pub uninterp spec fn utf8_decode(b: Seq<u8>) -> Option<Seq<char>>;

/// Relies on `String::from_utf8`: the bytes as a string, or an error when
/// they are not valid UTF-8.
#[verifier::external_body]
pub(crate) fn utf8_string(b: Vec<u8>) -> (r: Option<String>)
    ensures
        match r {
            Some(s) => utf8_decode(b@) == Some(s@),
            None => utf8_decode(b@) is None,
        },
{
    String::from_utf8(b).ok()
}

/// How the values of a store are recovered.
#[derive(Clone, Debug)]
pub enum ValueCodec {
    /// Values are stored as plaintext (Firefox, Safari).
    Plain,
    /// Values are encrypted with a Chromium master key.
    Chromium { platform: Platform, key: Vec<u8> },
}

/// The content of a [`ValueCodec`].
pub ghost enum CodecView {
    Plain,
    Chromium { platform: Platform, key: Seq<u8> },
}

impl View for ValueCodec {
    type V = CodecView;

    open spec fn view(&self) -> CodecView {
        match self {
            ValueCodec::Plain => CodecView::Plain,
            ValueCodec::Chromium { platform, key } => CodecView::Chromium { platform: *platform, key: key@ },
        }
    }
}

/// The value of `row`, or `None` when it cannot be decrypted or is not
/// UTF-8: the plaintext column when it is set, else the decrypted column.
pub open spec fn row_value_spec(codec: CodecView, row: RawRowView) -> Option<Seq<char>> {
    if row.value.len() > 0 || row.encrypted_value.len() == 0 {
        Some(row.value)
    } else {
        match codec {
            CodecView::Plain => Some(row.value),
            CodecView::Chromium { platform, key } => match decrypt_spec(
                platform,
                key,
                encode_utf8(row.host),
                row.encrypted_value,
            ) {
                Err(_) => None,
                Ok(b) => utf8_decode(b),
            },
        }
    }
}


/// The cookie built from `row` with value `value`.
pub open spec fn cookie_spec(row: RawRowView, value: Seq<char>, epoch: ExpiryEpoch) -> CookieView {
    CookieView {
        domain: row.host,
        path: row.path,
        secure: row.is_secure,
        expires: expires_spec(epoch, row.expires_raw),
        name: row.name,
        value: value,
        http_only: row.is_http_only,
        same_site: same_site_spec(row.same_site_raw),
    }
}

/// Whether `row` becomes a cookie: its host passes the filter, its name is
/// not empty and its value can be recovered.
pub open spec fn row_kept(row: RawRowView, codec: CodecView, domains: Option<Seq<Seq<char>>>) -> bool {
    &&& filter_keeps(row.host, domains)
    &&& row.name.len() > 0
    &&& row_value_spec(codec, row) is Some
}

/// The cookies of `rows`, in row order.
pub open spec fn extract_spec(
    rows: Seq<RawRowView>,
    codec: CodecView,
    epoch: ExpiryEpoch,
    domains: Option<Seq<Seq<char>>>,
) -> Seq<CookieView>
    decreases rows.len(),
{
    if rows.len() == 0 {
        Seq::empty()
    } else {
        let prev = extract_spec(rows.drop_last(), codec, epoch, domains);
        let row = rows.last();
        if row_kept(row, codec, domains) {
            prev.push(cookie_spec(row, row_value_spec(codec, row)->Some_0, epoch))
        } else {
            prev
        }
    }
}

/// A cookie as every extraction emits it: a name, and a known `same_site`.
pub open spec fn well_formed(c: CookieView) -> bool {
    c.name.len() > 0 && valid_same_site(c.same_site)
}

/// The views of a list of cookies.
pub open spec fn cookies_view(cs: Seq<Cookie>) -> Seq<CookieView> {
    cs.map_values(|c: Cookie| c@)
}

/// Every cookie of `extract_spec` is well formed, and its domain passes the
/// filter.
pub proof fn lemma_extract_well_formed(
    rows: Seq<RawRowView>,
    codec: CodecView,
    epoch: ExpiryEpoch,
    domains: Option<Seq<Seq<char>>>,
)
    ensures
        forall|i: int| 0 <= i < extract_spec(rows, codec, epoch, domains).len() ==> {
            let c = #[trigger] extract_spec(rows, codec, epoch, domains)[i];
            well_formed(c) && filter_keeps(c.domain, domains)
        },
    decreases rows.len(),
{
    if rows.len() > 0 {
        lemma_extract_well_formed(rows.drop_last(), codec, epoch, domains);
    }
}

/// Recovers the value of one row.
pub fn row_value(codec: &ValueCodec, row: &RawCookieRow) -> (r: Option<String>)
    ensures
        match r {
            Some(s) => row_value_spec(codec@, row@) == Some(s@),
            None => row_value_spec(codec@, row@) is None,
        },
{
    if row.value.unicode_len() > 0 || row.encrypted_value.len() == 0 {
        return Some(row.value.clone());
    }
    match codec {
        ValueCodec::Plain => Some(row.value.clone()),
        ValueCodec::Chromium { platform, key } => {
            match decrypt_chromium_value(*platform, key.as_slice(), row.host.as_str(), row.encrypted_value.as_slice()) {
                Err(_) => None,
                Ok(b) => utf8_string(b),
            }
        },
    }
}

/// Builds the cookies of `rows` in row order, keeping the rows whose host
/// passes `domains`, whose name is set and whose value can be recovered.
pub fn extract_cookies(
    rows: &Vec<RawCookieRow>,
    codec: &ValueCodec,
    epoch: ExpiryEpoch,
    domains: &Option<Vec<&str>>,
) -> (r: Vec<Cookie>)
    ensures
        cookies_view(r@) == extract_spec(rows_view(rows@), codec@, epoch, domains_view(*domains)),
        forall|i: int| 0 <= i < r@.len() ==> well_formed(#[trigger] r@[i]@)
            && filter_keeps(r@[i]@.domain, domains_view(*domains)),
{
    let ghost dv = domains_view(*domains);
    let mut out: Vec<Cookie> = Vec::new();
    let mut i: usize = 0;
    while i < rows.len()
        invariant
            0 <= i <= rows@.len(),
            dv == domains_view(*domains),
            cookies_view(out@) == extract_spec(rows_view(rows@.subrange(0, i as int)), codec@, epoch, dv),
        decreases rows@.len() - i,
    {
        let row = &rows[i];
        proof {
            assert(rows_view(rows@.subrange(0, i + 1)).drop_last() =~= rows_view(rows@.subrange(0, i as int)));
            assert(rows_view(rows@.subrange(0, i + 1)).last() == rows@[i as int]@);
        }
        if filter_allows(row.host.as_str(), domains) && row.name.unicode_len() > 0 {
            match row_value(codec, row) {
                Some(value) => {
                    let c = Cookie {
                        domain: row.host.clone(),
                        path: row.path.clone(),
                        secure: row.is_secure,
                        expires: convert_expires(epoch, row.expires_raw),
                        name: row.name.clone(),
                        value: value,
                        http_only: row.is_http_only,
                        same_site: normalize_same_site(row.same_site_raw),
                    };
                    out.push(c);
                    assert(cookies_view(out@) =~= extract_spec(rows_view(rows@.subrange(0, i + 1)), codec@, epoch, dv));
                },
                None => {},
            }
        }
        i = i + 1;
    }
    assert(rows@.subrange(0, rows@.len() as int) =~= rows@);
    proof {
        lemma_extract_well_formed(rows_view(rows@), codec@, epoch, dv);
        assert forall|k: int| 0 <= k < out@.len() implies well_formed(#[trigger] out@[k]@)
            && filter_keeps(out@[k]@.domain, dv) by {
            assert(cookies_view(out@)[k] == out@[k]@);
        }
    }
    out
}


/// The view of an extraction's result.
pub open spec fn result_view(r: Result<Vec<Cookie>, CookieError>) -> Result<Seq<CookieView>, CookieError> {
    match r {
        Ok(cs) => Ok(cookies_view(cs@)),
        Err(e) => Err(e),
    }
}

/// An extraction from a store that the caller could or could not open: its
/// error is passed on, its rows become cookies.
pub open spec fn store_spec(
    store: Result<Seq<RawRowView>, CookieError>,
    codec: CodecView,
    epoch: ExpiryEpoch,
    domains: Option<Seq<Seq<char>>>,
) -> Result<Seq<CookieView>, CookieError> {
    match store {
        Err(e) => Err(e),
        Ok(rows) => Ok(extract_spec(rows, codec, epoch, domains)),
    }
}

/// The rows of a store result.
pub open spec fn store_view(store: Result<Vec<RawCookieRow>, CookieError>) -> Result<Seq<RawRowView>, CookieError> {
    match store {
        Ok(rows) => Ok(rows_view(rows@)),
        Err(e) => Err(e),
    }
}

/// Extracts the cookies of a store, or passes on why it could not be read.
pub fn extract_store(
    store: &Result<Vec<RawCookieRow>, CookieError>,
    codec: &ValueCodec,
    epoch: ExpiryEpoch,
    domains: &Option<Vec<&str>>,
) -> (r: Result<Vec<Cookie>, CookieError>)
    ensures
        result_view(r) == store_spec(store_view(*store), codec@, epoch, domains_view(*domains)),
{
    match store {
        Err(e) => Err(*e),
        Ok(rows) => Ok(extract_cookies(rows, codec, epoch, domains)),
    }
}

/// A store with no rows gives no cookies, and no error.
pub proof fn lemma_empty_store(codec: CodecView, epoch: ExpiryEpoch, domains: Option<Seq<Seq<char>>>)
    ensures
        extract_spec(Seq::empty(), codec, epoch, domains) == Seq::<CookieView>::empty(),
        store_spec(Ok(Seq::empty()), codec, epoch, domains) == Ok::<Seq<CookieView>, CookieError>(Seq::empty()),
{
}

/// Two extractions of one unchanged store give the same cookies.
pub proof fn lemma_extraction_repeatable(
    rows: Seq<RawRowView>,
    codec: CodecView,
    epoch: ExpiryEpoch,
    domains: Option<Seq<Seq<char>>>,
    first: Seq<Cookie>,
    second: Seq<Cookie>,
)
    requires
        cookies_view(first) == extract_spec(rows, codec, epoch, domains),
        cookies_view(second) == extract_spec(rows, codec, epoch, domains),
    ensures
        cookies_view(first) == cookies_view(second),
{
}

} // verus!
