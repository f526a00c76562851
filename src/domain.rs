//! The `domains` filter: which cookie hosts a list of domain names selects.
use vstd::prelude::*;

verus! {

/// `a` and `b` are the same character up to ASCII case.
pub open spec fn char_eq_ci(a: char, b: char) -> bool {
    a == b
    || ('A' <= a && a <= 'Z' && (a as u32) + 32 == (b as u32))
    || ('A' <= b && b <= 'Z' && (b as u32) + 32 == (a as u32))
}

/// `h` ends with `s`, comparing characters up to ASCII case.
pub open spec fn ends_with_ci(h: Seq<char>, s: Seq<char>) -> bool {
    &&& s.len() <= h.len()
    &&& forall|i: int| 0 <= i < s.len() ==> char_eq_ci(#[trigger] h[h.len() - s.len() + i], s[i])
}

/// A filter entry without its optional leading dot.
pub open spec fn bare_domain(d: Seq<char>) -> Seq<char> {
    if d.len() > 0 && d[0] == '.' {
        d.drop_first()
    } else {
        d
    }
}

/// Host `h` is the domain `d` itself or one of its subdomains; a leading
/// dot on either side is read as "this host or any subdomain of it".
pub open spec fn host_matches(h: Seq<char>, d: Seq<char>) -> bool {
    let b = bare_domain(d);
    &&& b.len() > 0
    &&& ends_with_ci(h, b)
    &&& (h.len() == b.len() || h[h.len() - b.len() - 1] == '.')
}

/// Host `h` matches some entry of the filter `ds`.
pub open spec fn matches_any(h: Seq<char>, ds: Seq<Seq<char>>) -> bool {
    exists|i: int| 0 <= i < ds.len() && host_matches(h, #[trigger] ds[i])
}

/// What a filter keeps: everything when absent, else the hosts that match.
pub open spec fn filter_keeps(h: Seq<char>, domains: Option<Seq<Seq<char>>>) -> bool {
    match domains {
        None => true,
        Some(ds) => matches_any(h, ds),
    }
}

/// The views of a list of filter entries.
pub open spec fn domains_view(domains: Option<Vec<&str>>) -> Option<Seq<Seq<char>>> {
    match domains {
        None => None,
        Some(v) => Some(v@.map_values(|s: &str| s@)),
    }
}

fn char_eq_ignore_case(a: char, b: char) -> (r: bool)
    ensures
        r == char_eq_ci(a, b),
{
    a == b
    || ('A' <= a && a <= 'Z' && (a as u32) + 32 == (b as u32))
    || ('A' <= b && b <= 'Z' && (b as u32) + 32 == (a as u32))
}

/// Whether `host` is `domain` or a subdomain of it (ASCII case ignored).
pub fn domain_matches(host: &str, domain: &str) -> (r: bool)
    ensures
        r == host_matches(host@, domain@),
{
    let dlen = domain.unicode_len();
    let start: usize = if dlen > 0 && domain.get_char(0) == '.' { 1 } else { 0 };
    let ghost b = bare_domain(domain@);
    assert(b =~= domain@.subrange(start as int, dlen as int));
    let blen = dlen - start;
    let hlen = host.unicode_len();
    if blen == 0 || blen > hlen {
        return false;
    }
    let off = hlen - blen;
    let mut i: usize = 0;
    while i < blen
        invariant
            0 <= i <= blen,
            blen == b.len(),
            b == bare_domain(domain@),
            hlen == host@.len(),
            off == hlen - blen,
            dlen == domain@.len(),
            start + blen == dlen,
            b =~= domain@.subrange(start as int, dlen as int),
            forall|j: int| 0 <= j < i ==> char_eq_ci(#[trigger] host@[off + j], b[j]),
        decreases blen - i,
    {
        if !char_eq_ignore_case(host.get_char(off + i), domain.get_char(start + i)) {
            assert(domain@[start + i] == b[i as int]);
            assert(!char_eq_ci(host@[host@.len() - b.len() + i as int], b[i as int]));
            return false;
        }
        i = i + 1;
    }
    assert(ends_with_ci(host@, b)) by {
        assert forall|j: int| 0 <= j < b.len() implies
            char_eq_ci(#[trigger] host@[host@.len() - b.len() + j], b[j]) by {
            assert(host@[off + j] == host@[host@.len() - b.len() + j]);
        }
    }
    off == 0 || host.get_char(off - 1) == '.'
}

/// Whether the filter keeps a cookie of `host`: any host when the filter is
/// absent, else a host that matches at least one entry.
pub fn filter_allows(host: &str, domains: &Option<Vec<&str>>) -> (r: bool)
    ensures
        r == filter_keeps(host@, domains_view(*domains)),
{
    match domains {
        None => true,
        Some(ds) => {
            let ghost dv = ds@.map_values(|s: &str| s@);
            let mut i: usize = 0;
            while i < ds.len()
                invariant
                    0 <= i <= ds.len(),
                    dv == ds@.map_values(|s: &str| s@),
                    domains_view(*domains) == Some(dv),
                    forall|j: int| 0 <= j < i ==> !host_matches(host@, #[trigger] dv[j]),
                decreases ds.len() - i,
            {
                if domain_matches(host, ds[i]) {
                    assert(dv[i as int] == ds@[i as int]@);
                    assert(host_matches(host@, dv[i as int]));
                    return true;
                }
                i = i + 1;
            }
            false
        },
    }
}

} // verus!
