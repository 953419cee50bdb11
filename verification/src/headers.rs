//! What a request's headers and query decide: the token a caller presents,
//! whether it is let in, the base URL that links are built on, the language of
//! the guest pages, and the public address a tunnel announces.

use vstd::prelude::*;
use crate::text::{
    before_char, chars_of, contains, find_char, find_char_exec, https_scheme, is_whitespace, is_ws,
    lemma_find_char, occurs_at, slice_contains, slice_starts_with, starts_with, string_of,
    strip_prefix_range, trim, trim_range,
};

verus! {

/// The view of an optional string slice.
pub open spec fn opt_view(o: Option<&str>) -> Option<Seq<char>> {
    match o {
        Some(s) => Some(s@),
        None => None,
    }
}

pub open spec fn cookie_key() -> Seq<char> {
    "flit_token="@
}

/// The token in a `Cookie` header, looking at the `;`-separated parts from
/// index `i` on: the first part that, trimmed, begins with `flit_token=` gives
/// what follows that prefix.
pub open spec fn cookie_from(s: Seq<char>, i: int) -> Option<Seq<char>>
    decreases s.len() - i,
{
    if 0 <= i <= s.len() {
        let e = find_char(s, ';', i);
        let part = trim(s.subrange(i, e));
        if starts_with(part, cookie_key()) {
            Some(part.skip(cookie_key().len() as int))
        } else if e < s.len() {
            proof {
                lemma_find_char(s, ';', i);
            }
            cookie_from(s, e + 1)
        } else {
            None
        }
    } else {
        None
    }
}

/// The token in a `Cookie` header.
pub open spec fn cookie_token_spec(s: Seq<char>) -> Option<Seq<char>> {
    cookie_from(s, 0)
}

pub open spec fn bearer_prefix() -> Seq<char> {
    "Bearer "@
}

/// The token of an `Authorization: Bearer ...` header, trimmed.
pub open spec fn bearer_of(h: Seq<char>) -> Option<Seq<char>> {
    if starts_with(h, bearer_prefix()) {
        Some(trim(h.skip(bearer_prefix().len() as int)))
    } else {
        None
    }
}

/// The token a request presents, taken from the first place that has one:
/// a bearer `Authorization` header, the `x-flit-token` header, the `token`
/// query parameter, the `flit_token` cookie.
pub open spec fn presented_token(
    authorization: Option<Seq<char>>,
    legacy: Option<Seq<char>>,
    query: Option<Seq<char>>,
    cookie: Option<Seq<char>>,
) -> Option<Seq<char>> {
    let bearer = match authorization {
        Some(h) => bearer_of(h),
        None => None,
    };
    if bearer is Some {
        bearer
    } else if legacy is Some {
        legacy
    } else if query is Some {
        query
    } else {
        match cookie {
            Some(c) => cookie_token_spec(c),
            None => None,
        }
    }
}

/// A request is let in when no token is set, or when the token it presents is
/// the server's token.
pub open spec fn admits(token: Seq<char>, presented: Option<Seq<char>>) -> bool {
    token.len() == 0 || presented == Some(token)
}

pub open spec fn default_host() -> Seq<char> {
    "localhost:7777"@
}

pub open spec fn default_scheme() -> Seq<char> {
    "http"@
}

/// The scheme named by an `x-forwarded-proto` header: its first comma-separated
/// entry, trimmed, unless that is empty.
pub open spec fn scheme_of(proto: Option<Seq<char>>) -> Seq<char> {
    match proto {
        Some(p) => {
            let t = trim(before_char(p, ','));
            if t.len() > 0 {
                t
            } else {
                default_scheme()
            }
        },
        None => default_scheme(),
    }
}

/// The base that links are built on: the public tunnel URL when there is one,
/// else `scheme://host` from the request.
pub open spec fn base_url(
    public: Option<Seq<char>>,
    host: Option<Seq<char>>,
    proto: Option<Seq<char>>,
) -> Seq<char> {
    match public {
        Some(u) => u,
        None => {
            let h = match host {
                Some(h) => h,
                None => default_host(),
            };
            scheme_of(proto) + "://"@ + h
        },
    }
}

/// The two languages of the guest pages.
#[derive(PartialEq, Eq, Structural, Clone, Copy, Debug)]
pub enum Lang {
    En,
    Ko,
}

/// Korean is wanted when the first entry of `Accept-Language`, trimmed, begins
/// with `ko` in either case.
pub open spec fn lang_of(accept: Seq<char>) -> Lang {
    let t = trim(before_char(accept, ','));
    if t.len() >= 2 && (t[0] == 'k' || t[0] == 'K') && (t[1] == 'o' || t[1] == 'O') {
        Lang::Ko
    } else {
        Lang::En
    }
}

/// The URL that the pairing QR code encodes: the inbox, with the token in the
/// query when one is set.
pub open spec fn pairing_url_spec(base: Seq<char>, token: Seq<char>) -> Seq<char> {
    if token.len() == 0 {
        base + "/"@
    } else {
        base + "/?token="@ + token
    }
}

/// The first index at or after `i` where `p` occurs, or the length of `s`.
pub open spec fn find_sub(s: Seq<char>, p: Seq<char>, i: int) -> int
    decreases s.len() - i,
{
    if i < 0 || i >= s.len() || i + p.len() > s.len() {
        s.len() as int
    } else if occurs_at(s, p, i) {
        i
    } else {
        find_sub(s, p, i + 1)
    }
}

/// The index of the first white-space character at or after `i`, or the length.
pub open spec fn find_ws(s: Seq<char>, i: int) -> int
    decreases s.len() - i,
{
    if 0 <= i < s.len() && !is_ws(s[i]) {
        find_ws(s, i + 1)
    } else {
        i
    }
}

/// The end of `s[..j]` once trailing `|` are removed.
pub open spec fn strip_pipes(s: Seq<char>, j: int) -> int
    decreases j,
{
    if 0 < j <= s.len() && s[j - 1] == '|' {
        strip_pipes(s, j - 1)
    } else {
        j
    }
}

/// The public URL that a line of the tunnel's log announces: from the first
/// `https://` to the next white space, without trailing `|`, when it names a
/// Cloudflare tunnel host.
pub open spec fn tunnel_url(line: Seq<char>) -> Option<Seq<char>> {
    let k = find_sub(line, https_scheme(), 0);
    if k < line.len() {
        let rest = line.skip(k);
        let tok = rest.take(find_ws(rest, 0));
        let cand = tok.take(strip_pipes(tok, tok.len() as int));
        if contains(cand, "trycloudflare.com"@) || contains(cand, "cfargotunnel.com"@) {
            Some(cand)
        } else {
            None
        }
    } else {
        None
    }
}

pub proof fn lemma_find_sub(s: Seq<char>, p: Seq<char>, i: int)
    requires
        0 <= i,
        p.len() > 0,
    ensures
        find_sub(s, p, i) >= i || find_sub(s, p, i) == s.len(),
        find_sub(s, p, i) < s.len() ==> occurs_at(s, p, find_sub(s, p, i)),
        forall|k: int| i <= k < find_sub(s, p, i) && k + p.len() <= s.len() ==> !occurs_at(s, p, k),
    decreases s.len() - i,
{
    if i >= s.len() || i + p.len() > s.len() {
    } else if occurs_at(s, p, i) {
    } else {
        lemma_find_sub(s, p, i + 1);
    }
}

pub proof fn lemma_find_ws(s: Seq<char>, i: int)
    requires
        0 <= i <= s.len(),
    ensures
        i <= find_ws(s, i) <= s.len(),
    decreases s.len() - i,
{
    if i < s.len() && !is_ws(s[i]) {
        lemma_find_ws(s, i + 1);
    }
}

pub proof fn lemma_strip_pipes(s: Seq<char>, j: int)
    requires
        0 <= j <= s.len(),
    ensures
        0 <= strip_pipes(s, j) <= j,
    decreases j,
{
    if 0 < j && s[j - 1] == '|' {
        lemma_strip_pipes(s, j - 1);
    }
}

// ---------------------------------------------------------------------------

/// The `flit_token` value of a `Cookie` header.
pub fn cookie_token(raw: &str) -> (r: Option<String>)
    ensures
        opt_string_view(&r) == cookie_token_spec(raw@),
{
    let v = chars_of(raw);
    let mut i: usize = 0;
    loop
        invariant
            i <= v.len(),
            v@ == raw@,
            cookie_from(v@, 0) == cookie_from(v@, i as int),
        decreases v.len() - i,
    {
        let e = find_char_exec(&v, ';', i);
        let (a, b) = trim_range(&v, i, e);
        match strip_prefix_range(&v, a, b, "flit_token=") {
            Some(k) => {
                let r = string_of(&v, k, b);
                assert(v@.subrange(a as int, b as int).skip(cookie_key().len() as int)
                    =~= v@.subrange(k as int, b as int));
                return Some(r);
            },
            None => {},
        }
        if e >= v.len() {
            return None;
        }
        i = e + 1;
    }
}

/// The view of an optional `String`.
pub open spec fn opt_string_view(o: &Option<String>) -> Option<Seq<char>> {
    match o {
        Some(s) => Some(s@),
        None => None,
    }
}

/// The bearer token of an `Authorization` header value.
pub fn bearer_token(h: &str) -> (r: Option<String>)
    ensures
        opt_string_view(&r) == bearer_of(h@),
{
    let v = chars_of(h);
    match strip_prefix_range(&v, 0, v.len(), "Bearer ") {
        Some(k) => {
            let (a, b) = trim_range(&v, k, v.len());
            proof {
                assert(v@.subrange(0, v.len() as int) =~= v@);
                assert(v@.skip(bearer_prefix().len() as int) =~= v@.subrange(k as int, v.len() as int));
            }
            Some(string_of(&v, a, b))
        },
        None => {
            assert(v@.subrange(0, v.len() as int) =~= v@);
            None
        },
    }
}

/// Whether `a` and `b` hold the same characters.
pub fn str_eq(a: &str, b: &str) -> (r: bool)
    ensures
        r == (a@ == b@),
{
    let va = chars_of(a);
    let vb = chars_of(b);
    if va.len() != vb.len() {
        return false;
    }
    let mut i: usize = 0;
    while i < va.len()
        invariant
            va@ == a@,
            vb@ == b@,
            va.len() == vb.len(),
            i <= va.len(),
            forall|k: int| 0 <= k < i ==> va@[k] == vb@[k],
        decreases va.len() - i,
    {
        if va[i] != vb[i] {
            return false;
        }
        i += 1;
    }
    assert(va@ =~= vb@);
    true
}

/// Whether a request that presents these headers and query is let in under
/// `token`.
pub fn admits_request(
    token: &str,
    authorization: Option<&str>,
    legacy: Option<&str>,
    query: Option<&str>,
    cookie: Option<&str>,
) -> (r: bool)
    ensures
        r == admits(
            token@,
            presented_token(
                opt_view(authorization),
                opt_view(legacy),
                opt_view(query),
                opt_view(cookie),
            ),
        ),
{
    if token.is_empty() {
        return true;
    }
    let bearer = match authorization {
        Some(h) => bearer_token(h),
        None => None,
    };
    match bearer {
        Some(b) => str_eq(b.as_str(), token),
        None => match legacy {
            Some(l) => str_eq(l, token),
            None => match query {
                Some(q) => str_eq(q, token),
                None => match cookie {
                    Some(c) => match cookie_token(c) {
                        Some(t) => str_eq(t.as_str(), token),
                        None => false,
                    },
                    None => false,
                },
            },
        },
    }
}

/// The base that links are built on (see `base_url`).
pub fn base_url_of(public: Option<&str>, host: Option<&str>, proto: Option<&str>) -> (r: String)
    ensures
        r@ == base_url(opt_view(public), opt_view(host), opt_view(proto)),
{
    match public {
        Some(u) => String::from_str(u),
        None => {
            let mut r = match proto {
                Some(p) => {
                    let v = chars_of(p);
                    let e = find_char_exec(&v, ',', 0);
                    let (a, b) = trim_range(&v, 0, e);
                    assert(v@.subrange(0, e as int) =~= before_char(p@, ','));
                    if a < b {
                        string_of(&v, a, b)
                    } else {
                        String::from_str("http")
                    }
                },
                None => String::from_str("http"),
            };
            r.append("://");
            match host {
                Some(h) => r.append(h),
                None => r.append("localhost:7777"),
            }
            r
        },
    }
}

/// The view of an optional header value, empty when absent.
pub open spec fn accept_view(a: Option<&str>) -> Seq<char> {
    match a {
        Some(s) => s@,
        None => Seq::<char>::empty(),
    }
}

/// The language of the guest pages for an `Accept-Language` value.
pub fn want_lang(accept: Option<&str>) -> (r: Lang)
    ensures
        r == lang_of(accept_view(accept)),
{
    let a = match accept {
        Some(a) => a,
        None => "",
    };
    proof {
        reveal_strlit("");
        assert(a@ =~= accept_view(accept));
    }
    let v = chars_of(a);
    let e = find_char_exec(&v, ',', 0);
    let (x, y) = trim_range(&v, 0, e);
    assert(v@.subrange(0, e as int) =~= before_char(a@, ','));
    if y - x >= 2 && (v[x] == 'k' || v[x] == 'K') && (v[x + 1] == 'o' || v[x + 1] == 'O') {
        Lang::Ko
    } else {
        Lang::En
    }
}

/// The URL that the pairing QR code encodes.
pub fn pairing_url(base: &str, token: &str) -> (r: String)
    ensures
        r@ == pairing_url_spec(base@, token@),
{
    let mut r = String::from_str(base);
    if token.is_empty() {
        r.append("/");
    } else {
        r.append("/?token=");
        r.append(token);
    }
    r
}

/// The first index where `p` occurs in `v`, or `v.len()`.
pub fn find_sub_exec(v: &Vec<char>, p: &str) -> (r: usize)
    requires
        p@.len() > 0,
    ensures
        r == find_sub(v@, p@, 0),
        r <= v.len(),
{
    let pv = chars_of(p);
    let m = pv.len();
    let n = v.len();
    let mut k: usize = 0;
    while k < n
        invariant
            k <= n == v.len(),
            m == p@.len(),
            m > 0,
            find_sub(v@, p@, 0) == find_sub(v@, p@, k as int),
        decreases n - k,
    {
        if m > n - k {
            return n;
        }
        assert(v@.subrange(k as int, n as int).subrange(0, m as int) =~= v@.subrange(
            k as int,
            k + m,
        ));
        if slice_starts_with(v, k, n, p) {
            return k;
        }
        k += 1;
    }
    n
}

/// The public URL announced by one line of the tunnel's log, if any.
pub fn tunnel_url_in(line: &str) -> (r: Option<String>)
    ensures
        opt_string_view(&r) == tunnel_url(line@),
{
    let v = chars_of(line);
    let n = v.len();
    proof {
        reveal_strlit("https://");
    }
    let k = find_sub_exec(&v, "https://");
    if k >= n {
        return None;
    }
    let ghost rest = v@.skip(k as int);
    // The token up to the next white space.
    let mut e = k;
    while e < n && !is_whitespace(v[e])
        invariant
            k <= e <= n == v.len(),
            rest == v@.skip(k as int),
            find_ws(rest, 0) == find_ws(rest, e - k),
        decreases n - e,
    {
        e += 1;
    }
    let ghost tok = rest.take(e - k);
    // Without trailing `|`.
    let mut j = e;
    while j > k && v[j - 1] == '|'
        invariant
            k <= j <= e <= n == v.len(),
            tok == rest.take(e - k),
            rest == v@.skip(k as int),
            strip_pipes(tok, tok.len() as int) == strip_pipes(tok, j - k),
        decreases j,
    {
        j -= 1;
    }
    assert(tok.take(j - k) =~= v@.subrange(k as int, j as int));
    if slice_contains(&v, k, j, "trycloudflare.com") || slice_contains(&v, k, j, "cfargotunnel.com") {
        Some(string_of(&v, k, j))
    } else {
        None
    }
}

} // verus!
