//! Reader of Safari's `Cookies.binarycookies` file.
//!
//! Layout: the magic `cook`, a big-endian page count and one big-endian size
//! per page, then the pages. A page starts with `00 00 01 00`, a
//! little-endian cookie count and one little-endian offset per cookie. A
//! cookie record holds, little-endian: its size, an unused word, its flags,
//! an unused word, the offsets of its domain, name, path and value strings
//! (NUL-terminated, relative to the record), eight unused bytes, then its
//! expiry and creation times as IEEE-754 doubles of seconds since
//! 2001-01-01.
use crate::cookie::{rows_view, CookieError, RawCookieRow, RawRowView};
use crate::normalize::{utf8_decode, utf8_string};
use vstd::prelude::*;

verus! {

/// Seconds between 1970-01-01 and 2001-01-01.
pub const MAC_EPOCH_OFFSET: i64 = 978307200;
/// Fixed part of a cookie record, up to and including the two times.
pub const RECORD_HEADER_LEN: usize = 56;
/// Flag bit of a secure cookie.
pub const FLAG_SECURE: u32 = 1;
/// Flag bit of an HTTP-only cookie.
pub const FLAG_HTTP_ONLY: u32 = 4;

/// Big-endian `u32` at `off`.
pub open spec fn u32_be(b: Seq<u8>, off: int) -> int {
    b[off] as int * 16777216 + b[off + 1] as int * 65536 + b[off + 2] as int * 256 + b[off + 3] as int
}

/// Little-endian `u32` at `off`.
pub open spec fn u32_le(b: Seq<u8>, off: int) -> int {
    b[off + 3] as int * 16777216 + b[off + 2] as int * 65536 + b[off + 1] as int * 256 + b[off] as int
}

/// Little-endian `u64` at `off`.
pub open spec fn u64_le(b: Seq<u8>, off: int) -> int {
    u32_le(b, off + 4) * 4294967296 + u32_le(b, off)
}

fn read_u32_be(b: &[u8], off: usize) -> (r: u32)
    requires
        off + 4 <= b@.len(),
    ensures
        r as int == u32_be(b@, off as int),
{
    let _n = b.len();
    (b[off] as u32) * 16777216 + (b[off + 1] as u32) * 65536 + (b[off + 2] as u32) * 256 + (b[off + 3] as u32)
}

fn read_u32_le(b: &[u8], off: usize) -> (r: u32)
    requires
        off + 4 <= b@.len(),
    ensures
        r as int == u32_le(b@, off as int),
{
    let _n = b.len();
    (b[off + 3] as u32) * 16777216 + (b[off + 2] as u32) * 65536 + (b[off + 1] as u32) * 256 + (b[off] as u32)
}

fn read_u64_le(b: &[u8], off: usize) -> (r: u64)
    requires
        off + 8 <= b@.len(),
    ensures
        r as int == u64_le(b@, off as int),
{
    let _n = b.len();
    let hi = read_u32_le(b, off + 4);
    let lo = read_u32_le(b, off);
    (hi as u64) * 4294967296 + (lo as u64)
}

/// The whole seconds of a non-negative double given by its bits, shifted to
/// the unix epoch; zero (no expiry) for a negative, infinite or NaN value
/// and for one too large to hold.
pub open spec fn mac_time_spec(bits: u64) -> i64 {
    let exp = ((bits / 0x10000000000000) % 2048) as u64;
    let m = (bits % 0x10000000000000 + 0x10000000000000) as u64;
    if bits >= 0x8000000000000000 || exp > 1084 {
        0
    } else if exp < 1023 {
        MAC_EPOCH_OFFSET
    } else if exp <= 1075 {
        ((m >> ((1075 - exp) as u64)) + 978307200) as i64
    } else {
        ((m << ((exp - 1075) as u64)) + 978307200) as i64
    }
}

/// Converts a Safari expiry double (seconds since 2001) to unix seconds,
/// truncating toward zero.
pub fn mac_time_to_unix(bits: u64) -> (r: i64)
    ensures
        r == mac_time_spec(bits),
{
    let exp: u64 = (bits / 0x10000000000000) % 2048;
    let m: u64 = bits % 0x10000000000000 + 0x10000000000000;
    if bits >= 0x8000000000000000 || exp > 1084 {
        0
    } else if exp < 1023 {
        MAC_EPOCH_OFFSET
    } else if exp <= 1075 {
        let s: u64 = 1075 - exp;
        assert(m < 0x20000000000000 ==> (m >> s) < 0x20000000000000) by (bit_vector);
        ((m >> s) + 978307200) as i64
    } else {
        let s: u64 = exp - 1075;
        assert(m < 0x20000000000000 && s <= 9 ==> (m << s) < 0x4000000000000000) by (bit_vector);
        ((m << s) + 978307200) as i64
    }
}

/// The index of the first NUL in `b[from..limit]`.
pub open spec fn first_nul(b: Seq<u8>, from: int, limit: int) -> Option<int>
    decreases limit - from,
{
    if from >= limit || from < 0 || limit > b.len() {
        None
    } else if b[from] == 0 {
        Some(from)
    } else {
        first_nul(b, from + 1, limit)
    }
}

/// A NUL found by [`first_nul`] lies in the range searched.
proof fn lemma_first_nul_in_range(b: Seq<u8>, from: int, limit: int)
    ensures
        first_nul(b, from, limit) matches Some(e) ==> from <= e < limit && limit <= b.len() && b[e] == 0,
    decreases limit - from,
{
    if from < limit && from >= 0 && limit <= b.len() && b[from] != 0 {
        lemma_first_nul_in_range(b, from + 1, limit);
    }
}

fn find_nul(b: &[u8], from: usize, limit: usize) -> (r: Option<usize>)
    requires
        limit <= b@.len(),
    ensures
        match r {
            Some(e) => first_nul(b@, from as int, limit as int) == Some(e as int),
            None => first_nul(b@, from as int, limit as int) is None,
        },
{
    let mut i: usize = from;
    while i < limit
        invariant
            from <= i,
            limit <= b@.len(),
            first_nul(b@, from as int, limit as int) == first_nul(b@, i as int, limit as int),
        decreases limit - i,
    {
        if b[i] == 0 {
            return Some(i);
        }
        i = i + 1;
    }
    None
}

/// The NUL-terminated string at `start + off`, which must end before `end`.
pub open spec fn cstr_spec(b: Seq<u8>, start: int, off: int, end: int) -> Option<Seq<char>> {
    match first_nul(b, start + off, end) {
        None => None,
        Some(e) => utf8_decode(b.subrange(start + off, e)),
    }
}

fn read_cstr(b: &[u8], start: usize, off: u32, end: usize) -> (r: Option<String>)
    requires
        start <= end <= b@.len(),
    ensures
        match r {
            Some(s) => cstr_spec(b@, start as int, off as int, end as int) == Some(s@),
            None => cstr_spec(b@, start as int, off as int, end as int) is None,
        },
{
    if off as usize >= end - start {
        return None;
    }
    let from = start + off as usize;
    match find_nul(b, from, end) {
        None => None,
        Some(e) => {
            proof {
                lemma_first_nul_in_range(b@, from as int, end as int);
            }
            let bytes = crate::bytes::copy_range(b, from, e);
            utf8_string(bytes)
        },
    }
}

/// The cookie record at `[cs, b.len())`, bounded by `pe`, or `None` when it
/// is malformed.
pub open spec fn record_spec(b: Seq<u8>, cs: int, pe: int) -> Option<RawRowView> {
    if cs + RECORD_HEADER_LEN > pe {
        None
    } else {
        let size = u32_le(b, cs);
        let ce = cs + size;
        let flags = u32_le(b, cs + 8);
        if size < RECORD_HEADER_LEN || ce > pe {
            None
        } else {
            match (
                cstr_spec(b, cs, u32_le(b, cs + 16), ce),
                cstr_spec(b, cs, u32_le(b, cs + 20), ce),
                cstr_spec(b, cs, u32_le(b, cs + 24), ce),
                cstr_spec(b, cs, u32_le(b, cs + 28), ce),
            ) {
                (Some(host), Some(name), Some(path), Some(value)) => Some(
                    RawRowView {
                        host,
                        name,
                        value,
                        encrypted_value: Seq::empty(),
                        path,
                        expires_raw: mac_time_spec(u64_le(b, cs + 40) as u64),
                        is_secure: (flags as u32) & FLAG_SECURE != 0,
                        is_http_only: (flags as u32) & FLAG_HTTP_ONLY != 0,
                        same_site_raw: 0,
                    },
                ),
                _ => None,
            }
        }
    }
}


fn parse_record(b: &[u8], cs: usize, pe: usize) -> (r: Option<RawCookieRow>)
    requires
        cs <= pe <= b@.len(),
    ensures
        match r {
            Some(row) => record_spec(b@, cs as int, pe as int) == Some(row@),
            None => record_spec(b@, cs as int, pe as int) is None,
        },
{
    if RECORD_HEADER_LEN > pe - cs {
        return None;
    }
    let size = read_u32_le(b, cs);
    if (size as usize) < RECORD_HEADER_LEN || size as usize > pe - cs {
        return None;
    }
    let ce = cs + size as usize;
    let flags = read_u32_le(b, cs + 8);
    let host = read_cstr(b, cs, read_u32_le(b, cs + 16), ce);
    let name = read_cstr(b, cs, read_u32_le(b, cs + 20), ce);
    let path = read_cstr(b, cs, read_u32_le(b, cs + 24), ce);
    let value = read_cstr(b, cs, read_u32_le(b, cs + 28), ce);
    let expires_raw = mac_time_to_unix(read_u64_le(b, cs + 40));
    match (host, name, path, value) {
        (Some(host), Some(name), Some(path), Some(value)) => {
            let row = RawCookieRow {
                host,
                name,
                value,
                encrypted_value: Vec::new(),
                path,
                expires_raw,
                is_secure: flags & FLAG_SECURE != 0,
                is_http_only: flags & FLAG_HTTP_ONLY != 0,
                same_site_raw: 0,
            };
            assert(row@.encrypted_value =~= Seq::<u8>::empty());
            Some(row)
        },
        _ => None,
    }
}

/// The first `k` cookies of the page `[ps, pe)`, or `None` when one of them
/// is malformed.
pub open spec fn page_prefix(b: Seq<u8>, ps: int, pe: int, k: nat) -> Option<Seq<RawRowView>>
    decreases k,
{
    if k == 0 {
        Some(Seq::empty())
    } else {
        match page_prefix(b, ps, pe, (k - 1) as nat) {
            None => None,
            Some(rows) => match record_spec(b, ps + u32_le(b, ps + 8 + 4 * (k - 1)), pe) {
                None => None,
                Some(row) => Some(rows.push(row)),
            },
        }
    }
}

/// The cookies of the page `[ps, pe)`, or `None` when it is malformed.
pub open spec fn page_spec(b: Seq<u8>, ps: int, pe: int) -> Option<Seq<RawRowView>> {
    if pe - ps < 8 || !(b[ps] == 0 && b[ps + 1] == 0 && b[ps + 2] == 1 && b[ps + 3] == 0) {
        None
    } else {
        let count = u32_le(b, ps + 4);
        if 8 + 4 * count > pe - ps {
            None
        } else {
            page_prefix(b, ps, pe, count as nat)
        }
    }
}

fn parse_page(b: &[u8], ps: usize, pe: usize, out: &mut Vec<RawCookieRow>) -> (ok: bool)
    requires
        ps <= pe <= b@.len(),
    ensures
        ok == page_spec(b@, ps as int, pe as int) is Some,
        ok ==> rows_view(final(out)@) == rows_view(old(out)@) + page_spec(b@, ps as int, pe as int)->Some_0,
{
    if pe - ps < 8 || !(b[ps] == 0 && b[ps + 1] == 0 && b[ps + 2] == 1 && b[ps + 3] == 0) {
        return false;
    }
    let count = read_u32_le(b, ps + 4);
    if count as usize > (pe - ps - 8) / 4 {
        return false;
    }
    let ghost start = rows_view(out@);
    let mut k: usize = 0;
    while k < count as usize
        invariant
            ps <= pe <= b@.len(),
            8 + 4 * count <= pe - ps,
            count as int == u32_le(b@, ps + 4),
            0 <= k <= count,
            page_prefix(b@, ps as int, pe as int, k as nat) matches Some(rows)
                && rows_view(out@) == start + rows,
        decreases count - k,
    {
        let off = read_u32_le(b, ps + 8 + 4 * k);
        if off as usize > pe - ps {
            proof {
                assert(record_spec(b@, ps + off, pe as int) is None);
                assert(page_prefix(b@, ps as int, pe as int, (k + 1) as nat) is None);
                lemma_page_prefix_none(b@, ps as int, pe as int, (k + 1) as nat, count as nat);
            }
            return false;
        }
        match parse_record(b, ps + off as usize, pe) {
            None => {
                proof {
                    lemma_page_prefix_none(b@, ps as int, pe as int, (k + 1) as nat, count as nat);
                }
                return false;
            },
            Some(row) => {
                let ghost before = out@;
                out.push(row);
                proof {
                    let rows = page_prefix(b@, ps as int, pe as int, k as nat)->Some_0;
                    assert(rows_view(out@) =~= rows_view(before) + seq![row@]);
                    assert(rows_view(out@) =~= start + rows.push(row@));
                }
            },
        }
        k = k + 1;
    }
    true
}

/// Once a prefix of a page fails, every longer prefix fails.
proof fn lemma_page_prefix_none(b: Seq<u8>, ps: int, pe: int, k: nat, n: nat)
    requires
        page_prefix(b, ps, pe, k) is None,
        k <= n,
    ensures
        page_prefix(b, ps, pe, n) is None,
    decreases n - k,
{
    if k < n {
        lemma_page_prefix_none(b, ps, pe, k + 1, n);
    }
}


/// The first `k` pages of a file with `n` pages: where page `k` starts, and
/// the cookies of the pages before it; `None` once a page is malformed or
/// runs past the end of the file.
pub open spec fn pages_prefix(b: Seq<u8>, n: int, k: nat) -> Option<(int, Seq<RawRowView>)>
    decreases k,
{
    if k == 0 {
        Some((8 + 4 * n, Seq::empty()))
    } else {
        match pages_prefix(b, n, (k - 1) as nat) {
            None => None,
            Some((ps, rows)) => {
                let pe = ps + u32_be(b, 8 + 4 * (k - 1));
                if pe > b.len() {
                    None
                } else {
                    match page_spec(b, ps, pe) {
                        None => None,
                        Some(more) => Some((pe, rows + more)),
                    }
                }
            },
        }
    }
}

/// The magic `cook` that opens the file.
pub open spec fn has_magic(b: Seq<u8>) -> bool {
    b.len() >= 8 && b[0] == 0x63u8 && b[1] == 0x6fu8 && b[2] == 0x6fu8 && b[3] == 0x6bu8
}

/// The cookies of a `binarycookies` file in file order, or `None` when it
/// is malformed.
pub open spec fn binarycookies_spec(b: Seq<u8>) -> Option<Seq<RawRowView>> {
    if !has_magic(b) {
        None
    } else {
        let n = u32_be(b, 4);
        if 8 + 4 * n > b.len() {
            None
        } else {
            match pages_prefix(b, n, n as nat) {
                None => None,
                Some((_, rows)) => Some(rows),
            }
        }
    }
}

/// Once a prefix of the pages fails, every longer prefix fails.
proof fn lemma_pages_prefix_none(b: Seq<u8>, n: int, k: nat, m: nat)
    requires
        pages_prefix(b, n, k) is None,
        k <= m,
    ensures
        pages_prefix(b, n, m) is None,
    decreases m - k,
{
    if k < m {
        lemma_pages_prefix_none(b, n, k + 1, m);
    }
}

/// Parses a `binarycookies` file into its rows, in file order; a malformed
/// file is `StoreCorrupt`.
pub fn parse_binarycookies(b: &[u8]) -> (r: Result<Vec<RawCookieRow>, CookieError>)
    ensures
        match r {
            Ok(rows) => binarycookies_spec(b@) == Some(rows_view(rows@)),
            Err(e) => binarycookies_spec(b@) is None && e == CookieError::StoreCorrupt,
        },
{
    let len = b.len();
    if len < 8 || !(b[0] == 0x63u8 && b[1] == 0x6fu8 && b[2] == 0x6fu8 && b[3] == 0x6bu8) {
        return Err(CookieError::StoreCorrupt);
    }
    let n = read_u32_be(b, 4);
    if n as usize > (len - 8) / 4 {
        return Err(CookieError::StoreCorrupt);
    }
    let mut out: Vec<RawCookieRow> = Vec::new();
    let mut ps: usize = 8 + 4 * n as usize;
    let mut k: usize = 0;
    while k < n as usize
        invariant
            len == b@.len(),
            n as int == u32_be(b@, 4),
            8 + 4 * n <= len,
            0 <= k <= n,
            pages_prefix(b@, n as int, k as nat) == Some((ps as int, rows_view(out@))),
            ps <= len,
        decreases n - k,
    {
        let size = read_u32_be(b, 8 + 4 * k);
        if size as usize > len - ps {
            proof {
                lemma_pages_prefix_none(b@, n as int, (k + 1) as nat, n as nat);
            }
            return Err(CookieError::StoreCorrupt);
        }
        let pe = ps + size as usize;
        let ghost before = rows_view(out@);
        if !parse_page(b, ps, pe, &mut out) {
            proof {
                lemma_pages_prefix_none(b@, n as int, (k + 1) as nat, n as nat);
            }
            return Err(CookieError::StoreCorrupt);
        }
        ps = pe;
        k = k + 1;
    }
    Ok(out)
}


/// A file with the magic and no pages holds no cookies, and is no error.
pub proof fn lemma_empty_file(b: Seq<u8>)
    requires
        has_magic(b),
        u32_be(b, 4) == 0,
    ensures
        binarycookies_spec(b) == Some(Seq::<RawRowView>::empty()),
{
}

} // verus!
