//! Properties that hold across the operations of the library.

use vstd::prelude::*;
use crate::flit::{
    Flit, Link, Reply, drop_created, share_created, shared_item_reply, drop_upload_begun, tunnel_step, guest_name, sent_reply_is, guest_text_stored, file_stored, lapsed, raw_item_reply, share_served, text_posted,
};
use crate::headers::{admits, presented_token};
use crate::inbox::{lists_newest_first, live_part};
use crate::item::{Item, expiry, is_file_item, is_live};
use crate::text::{
    escape_char, first_line, html_escaped, is_blank, is_url_spec, label_of, lemma_trim_idempotent,
    lemma_trim_ignores_outer_ws, trim,
};

verus! {

/// What was posted is what the raw view gives back: after a text is posted
/// under `id`, the raw view of `id` answers with the text's bytes.
pub proof fn law_raw_view_returns_posted_text(
    old: Flit,
    body: Seq<char>,
    id: Seq<char>,
    created: u64,
    new: Flit,
    r: Reply,
    raw: Reply,
)
    requires
        text_posted(old, body, id, created, new, r),
        !crate::text::is_blank(body),
        new.items().contains_key(id) ==> raw_item_reply(new.items()[id], raw),
    ensures
        raw matches Reply::Content { bytes, .. } && bytes@ == vstd::utf8::encode_utf8(body),
{
}

/// What was uploaded is what the raw view gives back.
pub proof fn law_raw_view_returns_stored_file(
    old: Flit,
    name: Seq<char>,
    ctype: Seq<char>,
    data: Seq<u8>,
    id: Seq<char>,
    created: u64,
    new: Flit,
    raw: Reply,
)
    requires
        file_stored(old, name, ctype, data, id, created, new),
        new.items().contains_key(id) ==> raw_item_reply(new.items()[id], raw),
    ensures
        raw matches Reply::Content { content_type, bytes, .. } && bytes@ == data && content_type@
            == ctype,
{
}

/// Storing an item leaves every other item as it was.
pub proof fn law_store_keeps_other_items(
    old: Flit,
    name: Seq<char>,
    ctype: Seq<char>,
    data: Seq<u8>,
    id: Seq<char>,
    created: u64,
    new: Flit,
    k: Seq<char>,
)
    requires
        file_stored(old, name, ctype, data, id, created, new),
        old.items().contains_key(k),
        k != id,
    ensures
        new.items().contains_key(k),
        new.items()[k] == old.items()[k],
{
    assert(new.items().remove(id).contains_key(k));
    assert(new.items().remove(id)[k] == new.items()[k]);
    assert(old.items().remove(id)[k] == old.items()[k]);
}

/// A guest drop can only add: whatever a guest sends, every item that was in
/// the inbox under another id is still there, unchanged, and the share links
/// and drops are untouched.
pub proof fn law_guest_text_only_adds(
    old: Flit,
    label: Seq<char>,
    text: Seq<char>,
    id: Seq<char>,
    created: u64,
    new: Flit,
    stored: bool,
    k: Seq<char>,
)
    requires
        guest_text_stored(old, label, text, id, created, new, stored),
        old.items().contains_key(k),
        k != id,
    ensures
        new.items().contains_key(k),
        new.items()[k] == old.items()[k],
        new.shares() == old.shares(),
        new.drops() == old.drops(),
{
    if stored {
        assert(new.items().remove(id).contains_key(k));
        assert(new.items().remove(id)[k] == new.items()[k]);
        assert(old.items().remove(id)[k] == old.items()[k]);
    }
}

/// After the reaper runs at `now`, nothing expired by `now` is left, and every
/// item still live is kept as it was.
pub proof fn law_reap_removes_exactly_the_expired(m: Map<Seq<char>, Item>, now: u64, k: Seq<char>)
    ensures
        live_part(m, now).contains_key(k) <==> m.contains_key(k) && is_live(m[k], now),
        live_part(m, now).contains_key(k) ==> live_part(m, now)[k] == m[k],
{
}

/// Items posted under a time to live of `ttl` seconds at `created` (without
/// overflow) survive the reaper before `created + ttl` and are gone from then
/// on; with a time to live of 0 they are never reaped.
pub proof fn law_items_expire_after_ttl(it: Item, ttl: u64, created: u64, now: u64)
    requires
        it.expires == expiry(ttl, created),
        created + ttl <= u64::MAX,
    ensures
        ttl == 0 ==> is_live(it, now),
        ttl > 0 ==> (is_live(it, now) <==> now < created + ttl),
{
}

/// A one-time link works once: after it has served its item, opening it again
/// finds nothing.
pub proof fn law_one_time_share_serves_once(
    s0: Flit,
    sid: Seq<char>,
    t1: u64,
    s1: Flit,
    r1: Reply,
    t2: u64,
    s2: Flit,
    r2: Reply,
)
    requires
        s0.shares().contains_key(sid),
        s0.shares()[sid].once,
        !lapsed(s0.shares()[sid].expires, t1),
        s0.items().contains_key(s0.shares()[sid].item_id@),
        share_served(s0, sid, t1, s1, r1),
        share_served(s1, sid, t2, s2, r2),
    ensures
        r2 == Reply::Text(404, "expired or missing"),
{
}

/// A link that has lapsed is answered "expired" and removed, so that it is
/// missing from then on.
pub proof fn law_lapsed_share_is_removed(
    s0: Flit,
    sid: Seq<char>,
    t1: u64,
    s1: Flit,
    r1: Reply,
    t2: u64,
    s2: Flit,
    r2: Reply,
)
    requires
        s0.shares().contains_key(sid),
        lapsed(s0.shares()[sid].expires, t1),
        share_served(s0, sid, t1, s1, r1),
        share_served(s1, sid, t2, s2, r2),
    ensures
        r1 == Reply::Text(404, "expired"),
        r2 == Reply::Text(404, "expired or missing"),
{
}

/// Opening a link never changes the inbox.
pub proof fn law_serving_a_share_keeps_the_inbox(s0: Flit, sid: Seq<char>, t: u64, s1: Flit, r: Reply)
    requires
        share_served(s0, sid, t, s1, r),
    ensures
        s1.items() == s0.items(),
{
}

/// Without a token every request is let in.
pub proof fn law_no_token_admits_all(
    authorization: Option<Seq<char>>,
    legacy: Option<Seq<char>>,
    query: Option<Seq<char>>,
    cookie: Option<Seq<char>>,
)
    ensures
        admits(Seq::<char>::empty(), presented_token(authorization, legacy, query, cookie)),
{
}

/// With a token, a request that presents nothing is refused, and one that
/// presents the token in the `token` query parameter (and in no header) is let
/// in.
pub proof fn law_token_is_needed(token: Seq<char>, q: Option<Seq<char>>)
    requires
        token.len() > 0,
    ensures
        !admits(token, presented_token(None, None, None, None)),
        admits(token, presented_token(None, None, Some(token), None)),
        q != Some(token) ==> !admits(token, presented_token(None, None, q, None)),
{
}

/// Escaped text holds no `<` or `>`: what a share page shows cannot open a tag.
pub proof fn law_escaped_text_has_no_angle_brackets(s: Seq<char>)
    ensures
        forall|i: int| 0 <= i < html_escaped(s).len() ==> #[trigger] html_escaped(s)[i] != '<'
            && html_escaped(s)[i] != '>',
    decreases s.len(),
{
    reveal_strlit("&amp;");
    reveal_strlit("&lt;");
    reveal_strlit("&gt;");
    if s.len() > 0 {
        law_escaped_text_has_no_angle_brackets(s.drop_last());
        let a = html_escaped(s.drop_last());
        let b = escape_char(s.last());
        assert forall|i: int| 0 <= i < html_escaped(s).len() implies #[trigger] html_escaped(s)[i]
            != '<' && html_escaped(s)[i] != '>' by {
            if i < a.len() {
                assert(html_escaped(s)[i] == a[i]);
            } else {
                assert(html_escaped(s)[i] == b[i - a.len()]);
            }
        }
    }
}

/// A label is at most `n` characters and begins the text's first line.
pub proof fn law_label_is_short(s: Seq<char>, n: nat)
    ensures
        label_of(s, n).len() <= n,
        label_of(s, n).is_prefix_of(first_line(s)),
{
    crate::text::lemma_find_char(s, '\n', 0);
}

/// The inbox listing after clearing is empty.
pub proof fn law_cleared_inbox_lists_nothing(l: Seq<crate::item::ItemInfo>)
    requires
        lists_newest_first(l, Map::<Seq<char>, Item>::empty()),
    ensures
        l.len() == 0,
{
    if l.len() > 0 {
        assert(Map::<Seq<char>, Item>::empty().contains_key(l[0].id@));
    }
}

/// A deleted item is gone: the raw view of its id answers 404.
pub proof fn law_deleted_item_is_gone(old: Flit, new: Flit, id: Seq<char>, raw: Reply)
    requires
        new.items() == old.items().remove(id),
        new.items().contains_key(id) ==> raw_item_reply(new.items()[id], raw),
        !new.items().contains_key(id) ==> raw == Reply::Text(404, "not found"),
    ensures
        raw == Reply::Text(404, "not found"),
{
}

/// A link to an item that was deleted since answers "item gone", and stays.
pub proof fn law_link_to_deleted_item(
    s0: Flit,
    sid: Seq<char>,
    s1: Flit,
    t: u64,
    s2: Flit,
    r: Reply,
)
    requires
        s0.shares().contains_key(sid),
        !lapsed(s0.shares()[sid].expires, t),
        s1.items() == s0.items().remove(s0.shares()[sid].item_id@),
        s1.shares() == s0.shares(),
        share_served(s1, sid, t, s2, r),
    ensures
        r == Reply::Text(404, "item gone"),
        s2.shares() == s1.shares(),
{
}

/// A posted text shows in the inbox listing, with its text.
pub proof fn law_posted_text_is_listed(
    old: Flit,
    body: Seq<char>,
    id: Seq<char>,
    created: u64,
    new: Flit,
    r: Reply,
    l: Seq<crate::item::ItemInfo>,
)
    requires
        text_posted(old, body, id, created, new, r),
        !crate::text::is_blank(body),
        lists_newest_first(l, new.items()),
    ensures
        exists|i: int|
            0 <= i < l.len() && l[i].id@ == id && crate::headers::opt_string_view(&l[i].text)
                == Some(body),
{
    let i = choose|i: int| 0 <= i < l.len() && l[i].id@ == id;
    assert(l[i] == crate::item::info_of(new.items()[l[i].id@]));
}

/// Whether a text is a link does not depend on the white space around it.
pub proof fn law_is_url_ignores_outer_white_space(s: Seq<char>, pre: Seq<char>, post: Seq<char>)
    requires
        is_blank(pre),
        is_blank(post),
    ensures
        is_url_spec(s) == is_url_spec(trim(s)),
        is_url_spec(pre + s + post) == is_url_spec(s),
{
    lemma_trim_idempotent(s);
    lemma_trim_ignores_outer_ws(s, pre, post);
}

/// The last URL that lines of the tunnel's log announce, if any.
pub open spec fn last_tunnel_url(lines: Seq<Seq<char>>) -> Option<Seq<char>>
    decreases lines.len(),
{
    if lines.len() == 0 {
        None
    } else {
        match crate::headers::tunnel_url(lines.last()) {
            Some(u) => Some(u),
            None => last_tunnel_url(lines.drop_last()),
        }
    }
}

/// Reading the tunnel's log line by line leaves the last URL announced as the
/// public URL, or the one from before when no line announces one.
pub proof fn law_tunnel_keeps_last_announced(lines: Seq<Seq<char>>, publics: Seq<Option<Seq<char>>>)
    requires
        publics.len() == lines.len() + 1,
        forall|i: int| 0 <= i < lines.len() ==> publics[i + 1] == tunnel_step(publics[i], #[trigger] lines[i]),
    ensures
        publics.last() == match last_tunnel_url(lines) {
            Some(u) => Some(u),
            None => publics[0],
        },
    decreases lines.len(),
{
    if lines.len() > 0 {
        let l2 = lines.drop_last();
        let p2 = publics.drop_last();
        assert forall|i: int| 0 <= i < l2.len() implies p2[i + 1] == tunnel_step(p2[i], #[trigger] l2[i]) by {
            assert(l2[i] == lines[i]);
        }
        law_tunnel_keeps_last_announced(l2, p2);
        let n = lines.len() - 1;
        assert(lines[n] == lines.last());
        assert(publics[n + 1] == tunnel_step(publics[n], lines[n]));
    }
}

/// What a guest is answered does not depend on the inbox: on two servers with
/// the same drops, opening a drop for an upload gives the same answer and
/// leaves the same drops; a guest's text is stored exactly when it is not
/// blank.
pub proof fn law_guest_answers_ignore_the_inbox(
    s0: Flit,
    t0: Flit,
    did: Seq<char>,
    now: u64,
    s1: Flit,
    t1: Flit,
    r1: Result<String, Reply>,
    r2: Result<String, Reply>,
)
    requires
        s0.drops() == t0.drops(),
        drop_upload_begun(s0, did, now, s1, r1),
        drop_upload_begun(t0, did, now, t1, r2),
    ensures
        s1.drops() == t1.drops(),
        r1 is Ok <==> r2 is Ok,
        r1 matches Ok(l1) ==> (r2 matches Ok(l2) && l1@ == l2@),
        r1 matches Err(e1) ==> (r2 matches Err(e2) && e1 == e2),
{
}

/// A guest's text is stored exactly when it is not blank.
pub proof fn law_guest_text_stored_iff_not_blank(
    old: Flit,
    label: Seq<char>,
    text: Seq<char>,
    id: Seq<char>,
    created: u64,
    new: Flit,
    stored: bool,
)
    requires
        guest_text_stored(old, label, text, id, created, new, stored),
    ensures
        stored == !is_blank(text),
{
}

/// One part of a guest upload, as the drop decides it: a file (its name, its
/// type as the upload gives it or the default, its bytes), the text field, or
/// something skipped.
pub enum GuestPart {
    File(Seq<char>, Seq<char>, Seq<u8>),
    Text(Seq<char>),
    Skip,
}

/// One part of a guest upload through the drop labelled `label` took the
/// server from `old` to `new`, storing it under `id` or not (`stored`): what
/// `store_drop_file_at` and `store_drop_text_at` state, and nothing for a
/// skipped part.
pub open spec fn guest_step(
    label: Seq<char>,
    part: GuestPart,
    id: Seq<char>,
    created: u64,
    old: Flit,
    new: Flit,
    stored: bool,
) -> bool {
    match part {
        GuestPart::File(name, ctype, data) => {
            &&& stored == (data.len() > 0)
            &&& stored ==> file_stored(old, guest_name(label, name), ctype, data, id, created, new)
            &&& !stored ==> new.same_as(&old)
        },
        GuestPart::Text(text) => guest_text_stored(old, label, text, id, created, new, stored),
        GuestPart::Skip => !stored && new.same_as(&old),
    }
}

/// How many of the parts were stored.
pub open spec fn count_stored(flags: Seq<bool>) -> nat
    decreases flags.len(),
{
    if flags.len() == 0 {
        0
    } else {
        count_stored(flags.drop_last()) + if flags.last() {
            1nat
        } else {
            0nat
        }
    }
}

/// One step of a guest upload leaves the drops as they were, and every item
/// under another id as it was.
pub proof fn lemma_guest_step_keeps(
    label: Seq<char>,
    part: GuestPart,
    id: Seq<char>,
    created: u64,
    old: Flit,
    new: Flit,
    stored: bool,
)
    requires
        guest_step(label, part, id, created, old, new, stored),
    ensures
        new.drops() == old.drops(),
        forall|k: Seq<char>|
            k != id && #[trigger] old.items().contains_key(k) ==> new.items().contains_key(k)
                && new.items()[k] == old.items()[k],
{
    assert forall|k: Seq<char>|
        k != id && #[trigger] old.items().contains_key(k) implies new.items().contains_key(k)
        && new.items()[k] == old.items()[k] by {
        if stored {
            assert(new.items().remove(id).contains_key(k));
            assert(new.items().remove(id)[k] == new.items()[k]);
            assert(old.items().remove(id)[k] == old.items()[k]);
        }
    }
}

/// A guest upload answers the same whatever the inbox holds: on two servers
/// with the same drops, opening the drop gives the same answer, and when it is
/// open, the same parts are stored or skipped alike, the drops stay alike, and
/// the final answers (from the number of parts stored and the same
/// `Accept-Language`) are the same. No item under an id other than those the
/// upload used is removed or changed.
pub proof fn law_guest_upload_ignores_the_inbox(
    s0: Flit,
    t0: Flit,
    did: Seq<char>,
    now: u64,
    r1: Result<String, Reply>,
    r2: Result<String, Reply>,
    label: Seq<char>,
    parts: Seq<GuestPart>,
    s: Seq<Flit>,
    t: Seq<Flit>,
    ids_s: Seq<Seq<char>>,
    ids_t: Seq<Seq<char>>,
    times_s: Seq<u64>,
    times_t: Seq<u64>,
    fs: Seq<bool>,
    ft: Seq<bool>,
    accept: Seq<char>,
    answer_s: Reply,
    answer_t: Reply,
)
    requires
        s0.drops() == t0.drops(),
        drop_upload_begun(s0, did, now, s[0], r1),
        drop_upload_begun(t0, did, now, t[0], r2),
        r1 matches Ok(l) ==> l@ == label,
        s.len() == parts.len() + 1,
        t.len() == parts.len() + 1,
        ids_s.len() == parts.len(),
        ids_t.len() == parts.len(),
        times_s.len() == parts.len(),
        times_t.len() == parts.len(),
        fs.len() == parts.len(),
        ft.len() == parts.len(),
        forall|i: int|
            0 <= i < parts.len() ==> guest_step(label, #[trigger] parts[i], ids_s[i], times_s[i], s[i], s[i + 1], fs[i]),
        forall|i: int|
            0 <= i < parts.len() ==> guest_step(label, #[trigger] parts[i], ids_t[i], times_t[i], t[i], t[i + 1], ft[i]),
        sent_reply_is(count_stored(fs), accept, answer_s),
        sent_reply_is(count_stored(ft), accept, answer_t),
    ensures
        r1 is Ok <==> r2 is Ok,
        r1 matches Ok(l1) ==> (r2 matches Ok(l2) && l1@ == l2@),
        r1 matches Err(e1) ==> (r2 matches Err(e2) && e1 == e2),
        r1 is Ok ==> {
            &&& fs == ft
            &&& s.last().drops() == t.last().drops()
            &&& (answer_s matches Reply::Text(c, m) ==> answer_t == Reply::Text(c, m))
            &&& (answer_s matches Reply::Html(p) ==> (answer_t matches Reply::Html(q) && p@ == q@))
        },
        forall|k: Seq<char>|
            #[trigger] s[0].items().contains_key(k) && (forall|i: int| 0 <= i < ids_s.len() ==> ids_s[i] != k)
                ==> s.last().items().contains_key(k) && s.last().items()[k] == s[0].items()[k],
{
    let n = parts.len() as int;
    // The flags are decided by the parts alone.
    assert forall|i: int| 0 <= i < n implies fs[i] == ft[i] by {
        let _ = parts[i];
    }
    assert(fs =~= ft);
    // The drops and the other items are kept along the way.
    lemma_guest_run_keeps(label, parts, s, t, ids_s, ids_t, times_s, times_t, fs, ft, n);
    assert(s.last() == s[n]);
    assert(t.last() == t[n]);
}

/// The steps of a guest upload up to `j` keep the drops, and every item under
/// an id the steps did not use.
pub proof fn lemma_guest_run_keeps(
    label: Seq<char>,
    parts: Seq<GuestPart>,
    s: Seq<Flit>,
    t: Seq<Flit>,
    ids_s: Seq<Seq<char>>,
    ids_t: Seq<Seq<char>>,
    times_s: Seq<u64>,
    times_t: Seq<u64>,
    fs: Seq<bool>,
    ft: Seq<bool>,
    j: int,
)
    requires
        0 <= j <= parts.len(),
        s.len() == parts.len() + 1,
        t.len() == parts.len() + 1,
        ids_s.len() == parts.len(),
        ids_t.len() == parts.len(),
        times_s.len() == parts.len(),
        times_t.len() == parts.len(),
        fs.len() == parts.len(),
        ft.len() == parts.len(),
        forall|i: int|
            0 <= i < parts.len() ==> guest_step(label, #[trigger] parts[i], ids_s[i], times_s[i], s[i], s[i + 1], fs[i]),
        forall|i: int|
            0 <= i < parts.len() ==> guest_step(label, #[trigger] parts[i], ids_t[i], times_t[i], t[i], t[i + 1], ft[i]),
    ensures
        s[j].drops() == s[0].drops(),
        t[j].drops() == t[0].drops(),
        forall|k: Seq<char>|
            #[trigger] s[0].items().contains_key(k) && (forall|i: int| 0 <= i < j ==> ids_s[i] != k)
                ==> s[j].items().contains_key(k) && s[j].items()[k] == s[0].items()[k],
    decreases j,
{
    if j > 0 {
        lemma_guest_run_keeps(label, parts, s, t, ids_s, ids_t, times_s, times_t, fs, ft, j - 1);
        let p = parts[j - 1];
        lemma_guest_step_keeps(label, p, ids_s[j - 1], times_s[j - 1], s[j - 1], s[j], fs[j - 1]);
        lemma_guest_step_keeps(label, p, ids_t[j - 1], times_t[j - 1], t[j - 1], t[j], ft[j - 1]);
        assert forall|k: Seq<char>|
            #[trigger] s[0].items().contains_key(k) && (forall|i: int| 0 <= i < j ==> ids_s[i] != k)
            implies s[j].items().contains_key(k) && s[j].items()[k] == s[0].items()[k] by {
            assert(ids_s[j - 1] != k);
            assert(s[j - 1].items().contains_key(k));
        }
    }
}

/// A share link lives as long as asked: created at `created` with a time to
/// live of `t` seconds (none or 0 for ever), it serves its item whenever it is
/// opened up to `created + t`, and when opened later it is answered "expired"
/// and removed.
pub proof fn law_share_link_lives_its_ttl(
    s0: Flit,
    item_id: Seq<char>,
    once: Option<bool>,
    ttl: Option<u64>,
    sid: Seq<char>,
    created: u64,
    host: Option<Seq<char>>,
    proto: Option<Seq<char>>,
    s1: Flit,
    r1: Result<Link, Reply>,
    opened: u64,
    s2: Flit,
    r2: Reply,
)
    requires
        s0.items().contains_key(item_id),
        share_created(s0, item_id, once, ttl, sid, created, host, proto, s1, r1),
        share_served(s1, sid, opened, s2, r2),
    ensures
        r1 is Ok,
        ({
            let t = match ttl {
                Some(t) => t,
                None => 0,
            };
            &&& (t == 0 || opened <= created + t) ==> shared_item_reply(s0.items()[item_id], r2)
            &&& (t != 0 && opened > created + t) ==> r2 == Reply::Text(404, "expired") && !s2.shares().contains_key(sid)
        }),
{
}

/// A guest drop stays open as long as asked: created at `created` for `t`
/// seconds (none or 0 for ever), an upload to it is let in with the drop's
/// label whenever it comes up to `created + t`, and one that comes later is
/// answered 404 "expired" and the drop is removed.
pub proof fn law_drop_stays_open_its_ttl(
    s0: Flit,
    label: Option<Seq<char>>,
    ttl: Option<u64>,
    did: Seq<char>,
    created: u64,
    host: Option<Seq<char>>,
    proto: Option<Seq<char>>,
    s1: Flit,
    l: Link,
    opened: u64,
    s2: Flit,
    r2: Result<String, Reply>,
)
    requires
        drop_created(s0, label, ttl, did, created, host, proto, s1, l),
        drop_upload_begun(s1, did, opened, s2, r2),
    ensures
        ({
            let t = match ttl {
                Some(t) => t,
                None => 0,
            };
            let name = match label {
                Some(n) => n,
                None => "guest"@,
            };
            &&& (t == 0 || opened <= created + t) ==> (r2 matches Ok(g) && g@ == name && s2.drops().contains_key(did))
            &&& (t != 0 && opened > created + t) ==> r2 == Err::<String, Reply>(Reply::Text(404, "expired")) && !s2.drops().contains_key(did)
        }),
{
}

/// A posted text carries the time it was posted, and lives its time to live:
/// the reaper keeps it, unchanged, at any time before `created + ttl` (for ever
/// with a time to live of 0), and removes it from then on.
pub proof fn law_posted_text_lives_its_ttl(
    s0: Flit,
    body: Seq<char>,
    id: Seq<char>,
    created: u64,
    s1: Flit,
    r: Reply,
    at: u64,
)
    requires
        !is_blank(body),
        text_posted(s0, body, id, created, s1, r),
        created + s0.ttl() <= u64::MAX,
    ensures
        s1.items()[id].created == created,
        s1.items()[id].expires == expiry(s0.ttl(), created),
        (s0.ttl() == 0 || at < created + s0.ttl()) ==> live_part(s1.items(), at).contains_key(id)
            && live_part(s1.items(), at)[id] == s1.items()[id],
        (s0.ttl() != 0 && at >= created + s0.ttl()) ==> !live_part(s1.items(), at).contains_key(id),
{
}

/// An upload adds one item and replaces none: stored under an id that no item
/// had, every item that was there is still there, unchanged, and the inbox
/// holds one item more.
pub proof fn law_upload_adds_one_item(
    s0: Flit,
    name: Seq<char>,
    ctype: Seq<char>,
    data: Seq<u8>,
    id: Seq<char>,
    created: u64,
    s1: Flit,
)
    requires
        s0.wf(),
        !s0.items().contains_key(id),
        file_stored(s0, name, ctype, data, id, created, s1),
    ensures
        s1.items().dom() == s0.items().dom().insert(id),
        forall|k: Seq<char>| #[trigger] s0.items().contains_key(k) ==> s1.items().contains_key(k) && s1.items()[k] == s0.items()[k],
        s1.items().len() == s0.items().len() + 1,
{
    s0.lemma_items_finite();
    assert forall|k: Seq<char>| #[trigger] s0.items().contains_key(k) implies s1.items().contains_key(k) && s1.items()[k] == s0.items()[k] by {
        assert(k != id);
        assert(s0.items().remove(id).contains_key(k));
        assert(s1.items().remove(id) == s0.items().remove(id));
        assert(s1.items().remove(id)[k] == s0.items()[k]);
        assert(s1.items().remove(id).contains_key(k));
    }
    assert(s1.items().dom() =~= s0.items().dom().insert(id)) by {
        assert forall|k: Seq<char>| #[trigger] s1.items().dom().contains(k) && k != id implies s0.items().dom().contains(k) by {
            assert(s1.items().remove(id).contains_key(k));
        }
    }
}

/// Two uploads in a row keep both: each is stored under its own id, with its
/// own content, and the inbox holds two items more.
pub proof fn law_two_uploads_keep_both(
    s0: Flit,
    name1: Seq<char>,
    ctype1: Seq<char>,
    data1: Seq<u8>,
    id1: Seq<char>,
    created1: u64,
    s1: Flit,
    name2: Seq<char>,
    ctype2: Seq<char>,
    data2: Seq<u8>,
    id2: Seq<char>,
    created2: u64,
    s2: Flit,
)
    requires
        s0.wf(),
        s1.wf(),
        !s0.items().contains_key(id1),
        file_stored(s0, name1, ctype1, data1, id1, created1, s1),
        !s1.items().contains_key(id2),
        file_stored(s1, name2, ctype2, data2, id2, created2, s2),
    ensures
        id1 != id2,
        s2.items().contains_key(id1),
        is_file_item(s2.items()[id1], id1, name1, ctype1, data1, created1, s0.ttl()),
        s2.items().contains_key(id2),
        is_file_item(s2.items()[id2], id2, name2, ctype2, data2, created2, s0.ttl()),
        s2.items().len() == s0.items().len() + 2,
{
    law_upload_adds_one_item(s0, name1, ctype1, data1, id1, created1, s1);
    law_upload_adds_one_item(s1, name2, ctype2, data2, id2, created2, s2);
    assert(s2.items().contains_key(id1));
}

/// A new share link replaces none: made under an id that no link had, every
/// link that was there still points where it did.
pub proof fn law_new_share_link_keeps_the_others(
    s0: Flit,
    item_id: Seq<char>,
    once: Option<bool>,
    ttl: Option<u64>,
    sid: Seq<char>,
    created: u64,
    host: Option<Seq<char>>,
    proto: Option<Seq<char>>,
    s1: Flit,
    r: Result<Link, Reply>,
)
    requires
        s0.items().contains_key(item_id),
        !s0.shares().contains_key(sid),
        share_created(s0, item_id, once, ttl, sid, created, host, proto, s1, r),
    ensures
        s1.shares().dom() == s0.shares().dom().insert(sid),
        forall|k: Seq<char>| #[trigger] s0.shares().contains_key(k) ==> s1.shares()[k] == s0.shares()[k],
{
    assert forall|k: Seq<char>| #[trigger] s0.shares().contains_key(k) implies s1.shares()[k] == s0.shares()[k] by {
        assert(k != sid);
        assert(s1.shares().remove(sid)[k] == s0.shares().remove(sid)[k]);
    }
    assert(s1.shares().dom() =~= s0.shares().dom().insert(sid)) by {
        assert forall|k: Seq<char>| #[trigger] s1.shares().dom().contains(k) && k != sid implies s0.shares().dom().contains(k) by {
            assert(s1.shares().remove(sid).contains_key(k));
        }
        assert forall|k: Seq<char>| #[trigger] s0.shares().dom().contains(k) implies s1.shares().dom().contains(k) by {
            assert(k != sid);
            assert(s0.shares().remove(sid).contains_key(k));
        }
    }
}

/// A new guest drop replaces none: made under an id that no drop had, every
/// drop that was there is still there as it was.
pub proof fn law_new_drop_keeps_the_others(
    s0: Flit,
    label: Option<Seq<char>>,
    ttl: Option<u64>,
    did: Seq<char>,
    created: u64,
    host: Option<Seq<char>>,
    proto: Option<Seq<char>>,
    s1: Flit,
    l: Link,
)
    requires
        !s0.drops().contains_key(did),
        drop_created(s0, label, ttl, did, created, host, proto, s1, l),
    ensures
        s1.drops().dom() == s0.drops().dom().insert(did),
        forall|k: Seq<char>| #[trigger] s0.drops().contains_key(k) ==> s1.drops()[k] == s0.drops()[k],
{
    assert forall|k: Seq<char>| #[trigger] s0.drops().contains_key(k) implies s1.drops()[k] == s0.drops()[k] by {
        assert(k != did);
        assert(s1.drops().remove(did)[k] == s0.drops().remove(did)[k]);
    }
    assert(s1.drops().dom() =~= s0.drops().dom().insert(did)) by {
        assert forall|k: Seq<char>| #[trigger] s1.drops().dom().contains(k) && k != did implies s0.drops().dom().contains(k) by {
            assert(s1.drops().remove(did).contains_key(k));
        }
        assert forall|k: Seq<char>| #[trigger] s0.drops().dom().contains(k) implies s1.drops().dom().contains(k) by {
            assert(k != did);
            assert(s0.drops().remove(did).contains_key(k));
        }
    }
}

} // verus!
