//! Character-level text handling, stated over `Seq<char>`.

use vstd::prelude::*;

verus! {

/// The Unicode `White_Space` property, which `char::is_whitespace`, `str::trim`
/// and `str::split_whitespace` go by.
pub open spec fn is_ws(c: char) -> bool {
    let n = c as u32;
    ||| 0x9 <= n <= 0xd
    ||| n == 0x20
    ||| n == 0x85
    ||| n == 0xa0
    ||| n == 0x1680
    ||| 0x2000 <= n <= 0x200a
    ||| n == 0x2028
    ||| n == 0x2029
    ||| n == 0x202f
    ||| n == 0x205f
    ||| n == 0x3000
}

/// The first index at or after `i` whose character is not white space.
pub open spec fn skip_ws(s: Seq<char>, i: int) -> int
    decreases s.len() - i,
{
    if 0 <= i < s.len() && is_ws(s[i]) {
        skip_ws(s, i + 1)
    } else {
        i
    }
}

/// Walking back from `j` (not below `lo`), the end of the last character that is
/// not white space.
pub open spec fn back_ws(s: Seq<char>, lo: int, j: int) -> int
    decreases j - lo,
{
    if lo < j <= s.len() && is_ws(s[j - 1]) {
        back_ws(s, lo, j - 1)
    } else {
        j
    }
}

/// `s` without its leading and trailing white space, as `str::trim` gives it.
pub open spec fn trim(s: Seq<char>) -> Seq<char> {
    let a = skip_ws(s, 0);
    s.subrange(a, back_ws(s, a, s.len() as int))
}

/// Nothing but white space (or nothing at all).
pub open spec fn is_blank(s: Seq<char>) -> bool {
    forall|i: int| 0 <= i < s.len() ==> is_ws(#[trigger] s[i])
}

/// Some character of `s` is white space.
pub open spec fn has_ws(s: Seq<char>) -> bool {
    exists|i: int| 0 <= i < s.len() && is_ws(#[trigger] s[i])
}

pub open spec fn starts_with(s: Seq<char>, p: Seq<char>) -> bool {
    p.len() <= s.len() && s.subrange(0, p.len() as int) == p
}

/// `p` occurs in `s` starting at index `k`.
pub open spec fn occurs_at(s: Seq<char>, p: Seq<char>, k: int) -> bool {
    0 <= k && k + p.len() <= s.len() && s.subrange(k, k + p.len()) == p
}

/// `p` occurs somewhere in `s`, as `str::contains` answers.
pub open spec fn contains(s: Seq<char>, p: Seq<char>) -> bool {
    exists|k: int| occurs_at(s, p, k)
}

pub open spec fn http_scheme() -> Seq<char> {
    "http://"@
}

pub open spec fn https_scheme() -> Seq<char> {
    "https://"@
}

/// What counts as a link: the trimmed text is not empty, holds no white space
/// and begins with `http://` or `https://`.
pub open spec fn is_url_spec(s: Seq<char>) -> bool {
    let t = trim(s);
    &&& t.len() > 0
    &&& !has_ws(t)
    &&& (starts_with(t, http_scheme()) || starts_with(t, https_scheme()))
}

/// The index of the first `c` at or after `i`, or the length when there is none.
pub open spec fn find_char(s: Seq<char>, c: char, i: int) -> int
    decreases s.len() - i,
{
    if 0 <= i < s.len() && s[i] != c {
        find_char(s, c, i + 1)
    } else {
        i
    }
}

/// The first line, as `str::lines().next().unwrap_or("")` gives it: up to the
/// first `\n`, without a `\r` just before it.
pub open spec fn first_line(s: Seq<char>) -> Seq<char> {
    let e = find_char(s, '\n', 0);
    if e < s.len() && e > 0 && s[e - 1] == '\r' {
        s.take(e - 1)
    } else {
        s.take(e)
    }
}

/// At most the first `n` characters.
pub open spec fn take_chars(s: Seq<char>, n: nat) -> Seq<char> {
    if s.len() <= n {
        s
    } else {
        s.take(n as int)
    }
}

/// The label of a text: at most `n` characters of its first line.
pub open spec fn label_of(s: Seq<char>, n: nat) -> Seq<char> {
    take_chars(first_line(s), n)
}

/// How one character reads in HTML text.
pub open spec fn escape_char(c: char) -> Seq<char> {
    if c == '&' {
        "&amp;"@
    } else if c == '<' {
        "&lt;"@
    } else if c == '>' {
        "&gt;"@
    } else {
        seq![c]
    }
}

/// `s` with `&`, `<` and `>` written as character references.
pub open spec fn html_escaped(s: Seq<char>) -> Seq<char>
    decreases s.len(),
{
    if s.len() == 0 {
        seq![]
    } else {
        html_escaped(s.drop_last()) + escape_char(s.last())
    }
}

/// The part of `s` before the first `c` (all of it when there is none), as
/// `str::split(c).next()` gives it.
pub open spec fn before_char(s: Seq<char>, c: char) -> Seq<char> {
    s.take(find_char(s, c, 0))
}

pub open spec fn ascii_lower(c: char) -> char {
    if 'A' <= c <= 'Z' {
        ((c as u32) + 32) as char
    } else {
        c
    }
}

/// A name made safe for a header's quoted string: each `\n` becomes a space,
/// and, when `drop_quotes`, each `"` is left out.
pub open spec fn header_safe(s: Seq<char>, drop_quotes: bool) -> Seq<char>
    decreases s.len(),
{
    if s.len() == 0 {
        seq![]
    } else {
        let c = s.last();
        header_safe(s.drop_last(), drop_quotes) + if c == '\n' {
            seq![' ']
        } else if drop_quotes && c == '"' {
            Seq::<char>::empty()
        } else {
            seq![c]
        }
    }
}

// ---------------------------------------------------------------------------
// Lemmas on the definitions above.

pub proof fn lemma_skip_ws(s: Seq<char>, i: int)
    requires
        0 <= i <= s.len(),
    ensures
        i <= skip_ws(s, i) <= s.len(),
        forall|k: int| i <= k < skip_ws(s, i) ==> is_ws(#[trigger] s[k]),
        skip_ws(s, i) < s.len() ==> !is_ws(s[skip_ws(s, i)]),
    decreases s.len() - i,
{
    if i < s.len() && is_ws(s[i]) {
        lemma_skip_ws(s, i + 1);
    }
}

pub proof fn lemma_back_ws(s: Seq<char>, lo: int, j: int)
    requires
        0 <= lo <= j <= s.len(),
    ensures
        lo <= back_ws(s, lo, j) <= j,
        forall|k: int| back_ws(s, lo, j) <= k < j ==> is_ws(#[trigger] s[k]),
        back_ws(s, lo, j) > lo ==> !is_ws(s[back_ws(s, lo, j) - 1]),
    decreases j - lo,
{
    if lo < j && is_ws(s[j - 1]) {
        lemma_back_ws(s, lo, j - 1);
    }
}

pub proof fn lemma_find_char(s: Seq<char>, c: char, i: int)
    requires
        0 <= i <= s.len(),
    ensures
        i <= find_char(s, c, i) <= s.len(),
        forall|k: int| i <= k < find_char(s, c, i) ==> #[trigger] s[k] != c,
        find_char(s, c, i) < s.len() ==> s[find_char(s, c, i)] == c,
    decreases s.len() - i,
{
    if i < s.len() && s[i] != c {
        lemma_find_char(s, c, i + 1);
    }
}

/// A text is blank exactly when trimming leaves nothing.
pub proof fn lemma_trim_empty_iff_blank(s: Seq<char>)
    ensures
        trim(s).len() == 0 <==> is_blank(s),
{
    lemma_skip_ws(s, 0);
    let a = skip_ws(s, 0);
    lemma_back_ws(s, a, s.len() as int);
    if a < s.len() {
        assert(!is_ws(s[a]));
        assert(!is_blank(s));
    }
}

/// Trimming leaves no white space at either end.
pub proof fn lemma_trim_ends(s: Seq<char>)
    ensures
        trim(s).len() > 0 ==> !is_ws(trim(s)[0]) && !is_ws(trim(s)[trim(s).len() - 1]),
{
    lemma_skip_ws(s, 0);
    let a = skip_ws(s, 0);
    lemma_back_ws(s, a, s.len() as int);
}

/// Trimming gives back the middle of a text whose ends are white space and
/// whose middle neither begins nor ends with white space.
pub proof fn lemma_trim_of(s: Seq<char>, a: int, b: int)
    requires
        0 <= a <= b <= s.len(),
        forall|k: int| 0 <= k < a ==> is_ws(#[trigger] s[k]),
        forall|k: int| b <= k < s.len() ==> is_ws(#[trigger] s[k]),
        a < b ==> !is_ws(s[a]) && !is_ws(s[b - 1]),
    ensures
        trim(s) == s.subrange(a, b),
{
    lemma_skip_ws(s, 0);
    let k = skip_ws(s, 0);
    if a < b {
        if k < a {
            assert(is_ws(s[k]));
        }
        if k > a {
            assert(is_ws(s[a]));
        }
        assert(k == a);
        lemma_back_ws(s, a, s.len() as int);
        let j = back_ws(s, a, s.len() as int);
        if j > b {
            assert(is_ws(s[j - 1]));
        }
        if j < b {
            assert(is_ws(s[b - 1]));
        }
        assert(j == b);
    } else {
        if k < s.len() {
            assert(is_ws(s[k]));
        }
        assert(k == s.len());
        assert(s.subrange(k, k) =~= s.subrange(a, b));
    }
}

/// Trimming twice is trimming once.
pub proof fn lemma_trim_idempotent(s: Seq<char>)
    ensures
        trim(trim(s)) == trim(s),
{
    let t = trim(s);
    lemma_trim_ends(s);
    lemma_trim_of(t, 0, t.len() as int);
    assert(t.subrange(0, t.len() as int) =~= t);
}

/// White space around a text does not change its trimmed form.
pub proof fn lemma_trim_ignores_outer_ws(s: Seq<char>, pre: Seq<char>, post: Seq<char>)
    requires
        is_blank(pre),
        is_blank(post),
    ensures
        trim(pre + s + post) == trim(s),
{
    lemma_skip_ws(s, 0);
    let a = skip_ws(s, 0);
    lemma_back_ws(s, a, s.len() as int);
    let b = back_ws(s, a, s.len() as int);
    let u = pre + s + post;
    let p = pre.len() as int;
    assert forall|k: int| 0 <= k < p + a implies is_ws(#[trigger] u[k]) by {
        if k < p {
            assert(u[k] == pre[k]);
        } else {
            assert(u[k] == s[k - p]);
        }
    }
    assert forall|k: int| p + b <= k < u.len() implies is_ws(#[trigger] u[k]) by {
        if k < p + s.len() {
            assert(u[k] == s[k - p]);
        } else {
            assert(u[k] == post[k - p - s.len()]);
        }
    }
    if a < b {
        assert(u[p + a] == s[a]);
        assert(u[p + b - 1] == s[b - 1]);
    }
    lemma_trim_of(u, p + a, p + b);
    assert(u.subrange(p + a, p + b) =~= s.subrange(a, b));
}

// ---------------------------------------------------------------------------
// Executable text functions.

/// Appends one character to a `String`.
/// Trusted: calls `String::push`, which std documents as appending the character
/// to the end; the contract says that of the view.
#[verifier::external_body]
pub(crate) fn push_char(s: &mut String, c: char)
    ensures
        final(s)@ == old(s)@.push(c),
{
    s.push(c);
}

/// Whether `c` is white space.
pub fn is_whitespace(c: char) -> (r: bool)
    ensures
        r == is_ws(c),
{
    let n = c as u32;
    (0x9 <= n && n <= 0xd) || n == 0x20 || n == 0x85 || n == 0xa0 || n == 0x1680 || (0x2000 <= n
        && n <= 0x200a) || n == 0x2028 || n == 0x2029 || n == 0x202f || n == 0x205f || n == 0x3000
}

/// The characters of a string, one by one.
pub fn chars_of(s: &str) -> (v: Vec<char>)
    ensures
        v@ == s@,
{
    let mut v: Vec<char> = Vec::new();
    for c in it: s.chars()
        invariant
            v@ == it.history(),
    {
        v.push(c);
    }
    v
}

/// A `String` holding the characters `v[from..to]`.
pub fn string_of(v: &Vec<char>, from: usize, to: usize) -> (r: String)
    requires
        from <= to <= v.len(),
    ensures
        r@ == v@.subrange(from as int, to as int),
{
    let mut r = String::new();
    let mut i = from;
    while i < to
        invariant
            from <= i <= to <= v.len(),
            r@ == v@.subrange(from as int, i as int),
        decreases to - i,
    {
        push_char(&mut r, v[i]);
        i += 1;
        assert(r@ =~= v@.subrange(from as int, i as int));
    }
    r
}

/// The bounds of `v[from..to]` once trimmed:
/// `trim(v@[from..to]) == v@[a..b]`.
pub fn trim_range(v: &Vec<char>, from: usize, to: usize) -> (ab: (usize, usize))
    requires
        from <= to <= v.len(),
    ensures
        from <= ab.0 <= ab.1 <= to,
        trim(v@.subrange(from as int, to as int)) == v@.subrange(ab.0 as int, ab.1 as int),
{
    let ghost s = v@.subrange(from as int, to as int);
    let mut a: usize = from;
    while a < to && is_whitespace(v[a])
        invariant
            from <= a <= to <= v.len(),
            s == v@.subrange(from as int, to as int),
            skip_ws(s, 0) == skip_ws(s, a - from),
        decreases to - a,
    {
        a += 1;
    }
    let mut b: usize = to;
    while b > a && is_whitespace(v[b - 1])
        invariant
            from <= a <= b <= to <= v.len(),
            s == v@.subrange(from as int, to as int),
            skip_ws(s, 0) == a - from,
            back_ws(s, a - from, s.len() as int) == back_ws(s, a - from, b - from),
        decreases b,
    {
        b -= 1;
    }
    assert(s.subrange(a - from, b - from) =~= v@.subrange(a as int, b as int));
    (a, b)
}

/// The bounds of `v` once trimmed: `trim(v@) == v@[a..b]`.
pub fn trim_bounds(v: &Vec<char>) -> (ab: (usize, usize))
    ensures
        ab.0 <= ab.1 <= v.len(),
        trim(v@) == v@.subrange(ab.0 as int, ab.1 as int),
{
    assert(v@.subrange(0, v.len() as int) =~= v@);
    trim_range(v, 0, v.len())
}

/// When `v[from..to]` begins with `p`, the index just after that prefix.
pub fn strip_prefix_range(v: &Vec<char>, from: usize, to: usize, p: &str) -> (r: Option<usize>)
    requires
        from <= to <= v.len(),
    ensures
        r is Some <==> starts_with(v@.subrange(from as int, to as int), p@),
        r matches Some(k) ==> k == from + p@.len() && k <= to,
{
    let pv = chars_of(p);
    if slice_starts_with(v, from, to, p) {
        Some(from + pv.len())
    } else {
        None
    }
}

/// `v[from..to]` begins with the characters of `p`.
pub fn slice_starts_with(v: &Vec<char>, from: usize, to: usize, p: &str) -> (r: bool)
    requires
        from <= to <= v.len(),
    ensures
        r == starts_with(v@.subrange(from as int, to as int), p@),
{
    let pv = chars_of(p);
    let ghost s = v@.subrange(from as int, to as int);
    if pv.len() > to - from {
        return false;
    }
    let mut i: usize = 0;
    while i < pv.len()
        invariant
            from <= to <= v.len(),
            pv@ == p@,
            s == v@.subrange(from as int, to as int),
            pv.len() <= to - from,
            i <= pv.len(),
            forall|k: int| 0 <= k < i ==> s[k] == pv@[k],
        decreases pv.len() - i,
    {
        if v[from + i] != pv[i] {
            assert(s.subrange(0, pv.len() as int)[i as int] != pv@[i as int]);
            return false;
        }
        i += 1;
    }
    assert(s.subrange(0, pv.len() as int) =~= pv@);
    true
}

/// `p` occurs in `v[from..to]`.
pub fn slice_contains(v: &Vec<char>, from: usize, to: usize, p: &str) -> (r: bool)
    requires
        from <= to <= v.len(),
    ensures
        r == contains(v@.subrange(from as int, to as int), p@),
{
    let pv = chars_of(p);
    let ghost s = v@.subrange(from as int, to as int);
    let m = pv.len();
    if m > to - from {
        assert forall|k: int| !occurs_at(s, p@, k) by {}
        return false;
    }
    let mut k: usize = from;
    loop
        invariant
            from <= k <= to - m,
            to <= v.len(),
            pv@ == p@,
            m == pv.len(),
            m <= to - from,
            s == v@.subrange(from as int, to as int),
            forall|j: int| 0 <= j < k - from ==> !occurs_at(s, p@, j),
        ensures
            forall|j: int| 0 <= j <= to - m - from ==> !occurs_at(s, p@, j),
        decreases to - k,
    {
        assert(v@.subrange(k as int, to as int).subrange(0, m as int) =~= s.subrange(
            k - from,
            k - from + m,
        ));
        if slice_starts_with(v, k, to, p) {
            assert(occurs_at(s, p@, k - from));
            return true;
        }
        if k == to - m {
            break;
        }
        k += 1;
    }
    assert forall|j: int| !occurs_at(s, p@, j) by {
        if 0 <= j <= to - m - from {
        }
    }
    false
}

/// Whether the text is a link: see `is_url_spec`.
pub fn is_url(s: &str) -> (r: bool)
    ensures
        r == is_url_spec(s@),
{
    let v = chars_of(s);
    let (a, b) = trim_bounds(&v);
    let ghost t = trim(v@);
    if a >= b {
        return false;
    }
    let mut i = a;
    while i < b
        invariant
            a <= i <= b <= v.len(),
            t == v@.subrange(a as int, b as int),
            t == trim(s@),
            forall|k: int| 0 <= k < i - a ==> !is_ws(#[trigger] t[k]),
        decreases b - i,
    {
        if is_whitespace(v[i]) {
            assert(is_ws(t[i - a]));
            return false;
        }
        i += 1;
    }
    slice_starts_with(&v, a, b, "http://") || slice_starts_with(&v, a, b, "https://")
}

/// Whether the text is blank (empty once trimmed).
pub fn is_blank_str(s: &str) -> (r: bool)
    ensures
        r == is_blank(s@),
        r == (trim(s@).len() == 0),
{
    let v = chars_of(s);
    let (a, b) = trim_bounds(&v);
    proof {
        lemma_trim_empty_iff_blank(s@);
    }
    a == b
}

/// The text with `&`, `<` and `>` escaped for HTML.
pub fn html_escape(s: &str) -> (r: String)
    ensures
        r@ == html_escaped(s@),
{
    let v = chars_of(s);
    let mut out = String::new();
    let n = v.len();
    let mut i: usize = 0;
    while i < n
        invariant
            n == v.len(),
            i <= n,
            v@ == s@,
            out@ == html_escaped(v@.take(i as int)),
        decreases n - i,
    {
        let c = v[i];
        proof {
            assert(v@.take(i + 1).drop_last() =~= v@.take(i as int));
        }
        if c == '&' {
            out.append("&amp;");
        } else if c == '<' {
            out.append("&lt;");
        } else if c == '>' {
            out.append("&gt;");
        } else {
            push_char(&mut out, c);
        }
        i += 1;
    }
    assert(v@.take(n as int) =~= v@);
    out
}

/// The index of the first `c` in `v` at or after `from`, or `v.len()`.
pub fn find_char_exec(v: &Vec<char>, c: char, from: usize) -> (r: usize)
    requires
        from <= v.len(),
    ensures
        r == find_char(v@, c, from as int),
        from <= r <= v.len(),
{
    let mut i = from;
    while i < v.len() && v[i] != c
        invariant
            from <= i <= v.len(),
            find_char(v@, c, from as int) == find_char(v@, c, i as int),
        decreases v.len() - i,
    {
        i += 1;
    }
    i
}

/// At most the first `n` characters of the first line of `s`.
pub fn label_of_text(s: &str, n: usize) -> (r: String)
    ensures
        r@ == label_of(s@, n as nat),
{
    let v = chars_of(s);
    let e = find_char_exec(&v, '\n', 0);
    let end = if e < v.len() && e > 0 && v[e - 1] == '\r' {
        e - 1
    } else {
        e
    };
    let stop = if end - 0 <= n {
        end
    } else {
        n
    };
    let r = string_of(&v, 0, stop);
    proof {
        let fl = first_line(s@);
        assert(fl =~= v@.take(end as int));
        if fl.len() > n {
            assert(fl.take(n as int) =~= v@.subrange(0, stop as int));
        } else {
            assert(fl =~= v@.subrange(0, stop as int));
        }
    }
    r
}

/// The name made safe for a header (see `header_safe`).
pub fn header_safe_name(s: &str, drop_quotes: bool) -> (r: String)
    ensures
        r@ == header_safe(s@, drop_quotes),
{
    let v = chars_of(s);
    let mut out = String::new();
    let n = v.len();
    let mut i: usize = 0;
    while i < n
        invariant
            n == v.len(),
            i <= n,
            v@ == s@,
            out@ == header_safe(v@.take(i as int), drop_quotes),
        decreases n - i,
    {
        let c = v[i];
        proof {
            assert(v@.take(i + 1).drop_last() =~= v@.take(i as int));
        }
        if c == '\n' {
            push_char(&mut out, ' ');
        } else if drop_quotes && c == '"' {
        } else {
            push_char(&mut out, c);
        }
        proof {
            assert(out@ =~= header_safe(v@.take(i + 1), drop_quotes));
        }
        i += 1;
    }
    assert(v@.take(n as int) =~= v@);
    out
}

} // verus!
