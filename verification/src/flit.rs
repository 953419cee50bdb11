//! The server's state and what each request does to it and gets back.
//!
//! The state is the inbox, the share links, the guest drops, the access token,
//! the time to live of new items and the public URL of a tunnel. Each request is
//! a method; the ones that need the clock or a fresh id come twice: one that
//! takes them as arguments and states the outcome exactly, and one that reads
//! the clock, records the reading it used (`clock()`), draws an id that nothing
//! has yet, and states the outcome over those.

use vstd::prelude::*;
use vstd::hash_map::StringHashMap;
use crate::ids::{counter_simple_id, counter_simple_id_of, lemma_counter_simple_id_missing};
use crate::headers::{
    tunnel_url, tunnel_url_in, accept_view, admits, admits_request, base_url, base_url_of, lang_of, opt_string_view, opt_view,
    pairing_url, pairing_url_spec, presented_token, want_lang,
};
use crate::inbox::{Inbox, lists_newest_first, live_part};
use crate::item::{
    Item, ItemInfo, Kind, expiry, expiry_of, file_item, is_file_item,
    is_text_item, text_item, text_item_named, text_name, octet_stream_type,
};
use crate::outside::{is_hyphenated_uuid, is_simple_uuid, new_uuid, now, qr_svg_image, render_qr_svg};
use crate::pages::{drop_page, drop_page_spec, sent_page, sent_page_spec, share_page, share_page_spec};
use crate::text::{
    chars_of, header_safe, header_safe_name, is_blank, is_blank_str, label_of, label_of_text,
    string_of, trim, trim_bounds,
};

verus! {

/// A link to one item.
#[derive(Debug)]
pub struct Share {
    pub item_id: String,
    /// When the link stops working; 0 for never.
    pub expires: u64,
    /// Whether the link works only once.
    pub once: bool,
}

/// A guest drop: a page that can only post into the inbox.
#[derive(Debug)]
pub struct GuestDrop {
    /// What the items a guest sends are named after.
    pub label: String,
    /// When the drop closes; 0 for never.
    pub expires: u64,
}

/// The id and the URL of a new share link or guest drop.
#[derive(Debug)]
pub struct Link {
    pub id: String,
    pub url: String,
}

/// What a request gets back.
#[derive(Debug)]
pub enum Reply {
    /// A status with no body.
    Empty(u16),
    /// A status with a short plain-text message.
    Text(u16, &'static str),
    /// An HTML page (status 200).
    Html(String),
    /// An SVG image (status 200).
    Svg(String),
    /// Content with the given type and disposition headers (status 200).
    Content { content_type: String, disposition: String, bytes: Vec<u8> },
    /// A redirect to the given path.
    Redirect(&'static str),
}

pub struct Flit {
    inbox: Inbox,
    shares: StringHashMap<Share>,
    drops: StringHashMap<GuestDrop>,
    token: String,
    ttl: u64,
    public_url: Option<String>,
    /// Ids to announce to the inbox's listeners ("" for "something was removed").
    events: Vec<String>,
    /// The clock reading that the last operation to read the clock took.
    clock: Ghost<u64>,
}

/// A key that `m` does not hold: `drawn` when it is free, else the first id
/// counted out in the simple form (see `counter_simple_id`) that is free.
fn fresh_key<V>(m: &StringHashMap<V>, drawn: String) -> (id: String)
    requires
        m@.dom().finite(),
        is_simple_uuid(drawn@),
    ensures
        is_simple_uuid(id@),
        !m@.contains_key(id@),
        !m@.contains_key(drawn@) ==> id@ == drawn@,
{
    if !m.contains_key(drawn.as_str()) {
        return drawn;
    }
    let n: u64 = m.len() as u64;
    let mut k: u64 = 0;
    while k < n
        invariant
            m@.dom().finite(),
            n == m@.dom().len(),
            k <= n,
            m@.contains_key(drawn@),
            forall|j: u64| j < k ==> m@.contains_key(#[trigger] counter_simple_id(j)),
        decreases n - k,
    {
        let c = counter_simple_id_of(k);
        if !m.contains_key(c.as_str()) {
            return c;
        }
        k += 1;
    }
    proof {
        lemma_counter_simple_id_missing(m@.dom());
    }
    counter_simple_id_of(n)
}

/// A guest upload field is a file (under its file name), the text field, or
/// something to skip.
#[derive(Debug)]
pub enum DropField {
    File(String),
    Text,
    Skip,
}

/// The file name of an uploaded part, when it has a non-empty one.
pub open spec fn named_file(file_name: Option<Seq<char>>) -> Option<Seq<char>> {
    match file_name {
        Some(f) => if f.len() > 0 {
            Some(f)
        } else {
            None
        },
        None => None,
    }
}

/// `"[label] rest"`, the name of what a guest sends.
pub open spec fn guest_name(label: Seq<char>, rest: Seq<char>) -> Seq<char> {
    "["@ + label + "] "@ + rest
}

/// The text of an item, or nothing.
pub open spec fn text_or_empty(t: Option<String>) -> Seq<char> {
    match t {
        Some(s) => s@,
        None => Seq::<char>::empty(),
    }
}

/// A share link or guest drop has expired at `now` when it has an expiry time
/// and that time has passed.
pub open spec fn lapsed(expires: u64, now: u64) -> bool {
    expires != 0 && expires < now
}

/// What a share link answers with for the item it points to: a file as an
/// attachment, anything else as a page showing its text.
pub open spec fn shared_item_reply(it: Item, r: Reply) -> bool {
    if it.kind == Kind::File {
        r matches Reply::Content { content_type, disposition, bytes } && content_type@
            == it.content_type@ && disposition@ == "attachment; filename=\""@ + header_safe(
            it.name@,
            false,
        ) + "\""@ && bytes@ == it.bytes@
    } else {
        r matches Reply::Html(p) && p@ == share_page_spec(text_or_empty(it.text))
    }
}

/// What the raw view of an item answers with.
pub open spec fn raw_item_reply(it: Item, r: Reply) -> bool {
    r matches Reply::Content { content_type, disposition, bytes } && content_type@
        == it.content_type@ && disposition@ == "inline; file_name=\""@ + header_safe(it.name@, true)
        + "\""@ && bytes@ == it.bytes@
}

impl Flit {
    pub closed spec fn items(&self) -> Map<Seq<char>, Item> {
        self.inbox@
    }

    pub closed spec fn shares(&self) -> Map<Seq<char>, Share> {
        self.shares@
    }

    pub closed spec fn drops(&self) -> Map<Seq<char>, GuestDrop> {
        self.drops@
    }

    pub closed spec fn token(&self) -> Seq<char> {
        self.token@
    }

    pub closed spec fn ttl(&self) -> u64 {
        self.ttl
    }

    pub closed spec fn public_url(&self) -> Option<Seq<char>> {
        opt_string_view(&self.public_url)
    }

    pub closed spec fn events(&self) -> Seq<Seq<char>> {
        self.events@.map_values(|s: String| s@)
    }

    /// The clock reading that the last operation to read the clock took: each
    /// operation that reads the clock records here the reading it used.
    pub closed spec fn clock(&self) -> u64 {
        self.clock@
    }

    pub closed spec fn wf(&self) -> bool {
        &&& self.inbox.wf()
        &&& self.shares@.dom().finite()
        &&& self.drops@.dom().finite()
    }

    /// Items sit under their own ids.
    pub proof fn lemma_item_ids(&self)
        requires
            self.wf(),
        ensures
            forall|k: Seq<char>| #[trigger] self.items().contains_key(k) ==> self.items()[k].id@ == k,
    {
        self.inbox.lemma_ids();
    }

    /// The inbox holds finitely many items.
    pub proof fn lemma_items_finite(&self)
        requires
            self.wf(),
        ensures
            self.items().dom().finite(),
    {
        self.inbox.lemma_finite();
    }

    /// The token, the time to live and the public URL are those of `other`.
    pub open spec fn same_config(&self, other: &Flit) -> bool {
        &&& self.token() == other.token()
        &&& self.ttl() == other.ttl()
        &&& self.public_url() == other.public_url()
    }

    /// Nothing changed.
    pub open spec fn same_as(&self, other: &Flit) -> bool {
        &&& self.items() == other.items()
        &&& self.shares() == other.shares()
        &&& self.drops() == other.drops()
        &&& self.same_config(other)
        &&& self.events() == other.events()
    }

    /// A new server: an empty inbox, no links, no drops.
    pub fn new(token: String, ttl: u64) -> (r: Flit)
        ensures
            r.wf(),
            r.items() == Map::<Seq<char>, Item>::empty(),
            r.shares() == Map::<Seq<char>, Share>::empty(),
            r.drops() == Map::<Seq<char>, GuestDrop>::empty(),
            r.token() == token@,
            r.ttl() == ttl,
            r.public_url() == None::<Seq<char>>,
            r.events() == Seq::<Seq<char>>::empty(),
    {
        let r = Flit {
            inbox: Inbox::new(),
            shares: StringHashMap::new(),
            drops: StringHashMap::new(),
            token,
            ttl,
            public_url: None,
            events: Vec::new(),
            clock: Ghost(0),
        };
        assert(r.events() =~= Seq::<Seq<char>>::empty());
        r
    }

    /// Records the public URL that a tunnel announced.
    pub fn set_public_url(&mut self, url: String)
        requires
            old(self).wf(),
        ensures
            final(self).wf(),
            final(self).public_url() == Some(url@),
            final(self).items() == old(self).items(),
            final(self).shares() == old(self).shares(),
            final(self).drops() == old(self).drops(),
            final(self).token() == old(self).token(),
            final(self).ttl() == old(self).ttl(),
            final(self).events() == old(self).events(),
    {
        self.public_url = Some(url);
    }

    /// Hands over the ids to announce, and forgets them.
    pub fn take_events(&mut self) -> (r: Vec<String>)
        requires
            old(self).wf(),
        ensures
            final(self).wf(),
            r@.map_values(|s: String| s@) == old(self).events(),
            final(self).events() == Seq::<Seq<char>>::empty(),
            final(self).items() == old(self).items(),
            final(self).shares() == old(self).shares(),
            final(self).drops() == old(self).drops(),
            final(self).same_config(old(self)),
    {
        let mut r: Vec<String> = Vec::new();
        std::mem::swap(&mut r, &mut self.events);
        assert(self.events() =~= Seq::<Seq<char>>::empty());
        r
    }

    /// Whether expired items are reaped at all: only when items expire.
    pub fn reaps(&self) -> (r: bool)
        ensures
            r == (self.ttl() != 0),
    {
        self.ttl != 0
    }

    /// Puts an item in the inbox and announces its id.
    fn store(&mut self, item: Item)
        requires
            old(self).wf(),
        ensures
            final(self).wf(),
            final(self).items() == old(self).items().insert(item.id@, item),
            final(self).events() == old(self).events().push(item.id@),
            final(self).shares() == old(self).shares(),
            final(self).drops() == old(self).drops(),
            final(self).same_config(old(self)),
    {
        let id = item.id.clone();
        self.inbox.insert(item);
        self.events.push(id);
        assert(self.events() =~= old(self).events().push(id@));
    }

    /// An id that no item has: a random UUID, or, when an item already has
    /// that one, the first free id counted out (see `Inbox::fresh_id`).
    fn fresh_item_id(&self) -> (id: String)
        requires
            self.wf(),
        ensures
            is_hyphenated_uuid(id@),
            !self.items().contains_key(id@),
    {
        let (drawn, _) = new_uuid();
        self.inbox.fresh_id(drawn)
    }

    // -----------------------------------------------------------------------
    // Texts and files.

    /// Posts a text under the id `id` at time `created`: refused (400, "empty")
    /// when blank; else stored as a text or link item named by its first 80
    /// characters (or "text"), and answered 201 "ok".
    pub fn post_text_at(&mut self, body: &str, id: String, created: u64) -> (r: Reply)
        requires
            old(self).wf(),
        ensures
            final(self).wf(),
            text_posted(*old(self), body@, id@, created, *final(self), r),
    {
        if is_blank_str(body) {
            return Reply::Text(400, "empty");
        }
        let ghost idv = id@;
        let item = text_item(id, body, 80, "text", created, self.ttl);
        self.store(item);
        assert(self.items().remove(idv) =~= old(self).items().remove(idv));
        Reply::Text(201, "ok")
    }

    /// Posts a text under an id that no item has, at the clock reading it takes
    /// and records as `clock()` (see `post_text_at`).
    pub fn post_text(&mut self, body: &str) -> (r: Reply)
        requires
            old(self).wf(),
        ensures
            final(self).wf(),
            exists|id: Seq<char>|
                is_hyphenated_uuid(id) && !old(self).items().contains_key(id) && #[trigger] text_posted(
                    *old(self),
                    body@,
                    id,
                    final(self).clock(),
                    *final(self),
                    r,
                ),
    {
        let id = self.fresh_item_id();
        let ghost idv = id@;
        let t = now();
        let r = self.post_text_at(body, id, t);
        self.clock = Ghost(t);
        assert(text_posted(*old(self), body@, idv, self.clock(), *self, r));
        r
    }

    /// Stores a file under the id `id` at time `created`, named `name`, of type
    /// `ctype`.
    pub fn store_file_at(&mut self, name: String, ctype: String, data: Vec<u8>, id: String, created: u64)
        requires
            old(self).wf(),
        ensures
            final(self).wf(),
            file_stored(*old(self), name@, ctype@, data@, id@, created, *final(self)),
    {
        let ghost idv = id@;
        let item = file_item(id, name, ctype, data, created, self.ttl);
        self.store(item);
        assert(self.items().remove(idv) =~= old(self).items().remove(idv));
    }

    /// Stores a file posted to the inbox under the id `id` at time `created`:
    /// named by its file name (or "file"), of its declared type (or
    /// `application/octet-stream`).
    pub fn post_file_at(
        &mut self,
        file_name: Option<String>,
        ctype: Option<String>,
        data: Vec<u8>,
        id: String,
        created: u64,
    )
        requires
            old(self).wf(),
        ensures
            final(self).wf(),
            file_stored(
                *old(self),
                file_name_or_default(opt_string_view(&file_name)),
                content_type_or_default(opt_string_view(&ctype)),
                data@,
                id@,
                created,
                *final(self),
            ),
    {
        let name = match file_name {
            Some(n) => n,
            None => String::from_str("file"),
        };
        let ct = match ctype {
            Some(c) => c,
            None => String::from_str("application/octet-stream"),
        };
        self.store_file_at(name, ct, data, id, created);
    }

    /// Stores a posted file under an id that no item has, at the clock reading
    /// it takes and records as `clock()` (see `post_file_at`).
    pub fn post_file(&mut self, file_name: Option<String>, ctype: Option<String>, data: Vec<u8>)
        requires
            old(self).wf(),
        ensures
            final(self).wf(),
            exists|id: Seq<char>|
                is_hyphenated_uuid(id) && !old(self).items().contains_key(id) && #[trigger] file_stored(
                    *old(self),
                    file_name_or_default(opt_string_view(&file_name)),
                    content_type_or_default(opt_string_view(&ctype)),
                    data@,
                    id,
                    final(self).clock(),
                    *final(self),
                ),
    {
        let ghost name = file_name_or_default(opt_string_view(&file_name));
        let ghost ct = content_type_or_default(opt_string_view(&ctype));
        let ghost bytes = data@;
        let id = self.fresh_item_id();
        let ghost idv = id@;
        let t = now();
        self.post_file_at(file_name, ctype, data, id, t);
        self.clock = Ghost(t);
        assert(file_stored(*old(self), name, ct, bytes, idv, self.clock(), *self));
    }

    /// The answer to a file upload that stored `count` files.
    pub fn upload_reply(count: usize) -> (r: Reply)
        ensures
            r == (if count == 0 {
                Reply::Text(400, "no file field")
            } else {
                Reply::Text(201, "ok")
            }),
    {
        if count == 0 {
            Reply::Text(400, "no file field")
        } else {
            Reply::Text(201, "ok")
        }
    }

    /// What the inbox listing shows, newest first.
    pub fn list_items(&self) -> (r: Vec<ItemInfo>)
        requires
            self.wf(),
        ensures
            lists_newest_first(r@, self.items()),
    {
        self.inbox.list()
    }

    /// Deletes an item: 204 and an announcement when it was there, else 404.
    pub fn delete_item(&mut self, id: &str) -> (r: Reply)
        requires
            old(self).wf(),
        ensures
            final(self).wf(),
            final(self).items() == old(self).items().remove(id@),
            final(self).shares() == old(self).shares(),
            final(self).drops() == old(self).drops(),
            final(self).same_config(old(self)),
            old(self).items().contains_key(id@) ==> r == Reply::Empty(204) && final(self).events()
                == old(self).events().push(Seq::<char>::empty()),
            !old(self).items().contains_key(id@) ==> r == Reply::Text(404, "not found")
                && final(self).events() == old(self).events(),
    {
        if self.inbox.remove(id) {
            self.events.push(String::new());
            assert(self.events() =~= old(self).events().push(Seq::<char>::empty()));
            Reply::Empty(204)
        } else {
            Reply::Text(404, "not found")
        }
    }

    /// Empties the inbox, announces it, and answers 204.
    pub fn clear_items(&mut self) -> (r: Reply)
        requires
            old(self).wf(),
        ensures
            final(self).wf(),
            r == Reply::Empty(204),
            final(self).items() == Map::<Seq<char>, Item>::empty(),
            final(self).events() == old(self).events().push(Seq::<char>::empty()),
            final(self).shares() == old(self).shares(),
            final(self).drops() == old(self).drops(),
            final(self).same_config(old(self)),
    {
        self.inbox.clear();
        self.events.push(String::new());
        assert(self.events() =~= old(self).events().push(Seq::<char>::empty()));
        Reply::Empty(204)
    }

    /// The content of an item, to view inline; 404 when there is none.
    pub fn get_raw(&self, id: &str) -> (r: Reply)
        requires
            self.wf(),
        ensures
            self.items().contains_key(id@) ==> raw_item_reply(self.items()[id@], r),
            !self.items().contains_key(id@) ==> r == Reply::Text(404, "not found"),
    {
        match self.inbox.get(id) {
            Some(it) => {
                let safe = header_safe_name(it.name.as_str(), true);
                let mut d = String::from_str("inline; file_name=\"");
                d.append(safe.as_str());
                d.append("\"");
                Reply::Content { content_type: it.content_type.clone(), disposition: d, bytes: it.bytes.clone() }
            },
            None => Reply::Text(404, "not found"),
        }
    }

    /// Removes the items that have expired by `now`.
    pub fn reap(&mut self, now: u64)
        requires
            old(self).wf(),
        ensures
            final(self).wf(),
            final(self).items() == live_part(old(self).items(), now),
            final(self).shares() == old(self).shares(),
            final(self).drops() == old(self).drops(),
            final(self).same_config(old(self)),
            final(self).events() == old(self).events(),
    {
        self.inbox.reap(now);
    }

    // -----------------------------------------------------------------------
    // Access and addresses.

    /// Whether a request presenting these credentials is let in.
    pub fn admits(
        &self,
        authorization: Option<&str>,
        legacy: Option<&str>,
        query: Option<&str>,
        cookie: Option<&str>,
    ) -> (r: bool)
        ensures
            r == admits(
                self.token(),
                presented_token(
                    opt_view(authorization),
                    opt_view(legacy),
                    opt_view(query),
                    opt_view(cookie),
                ),
            ),
    {
        admits_request(self.token.as_str(), authorization, legacy, query, cookie)
    }

    /// The base that links are built on.
    pub fn base_url(&self, host: Option<&str>, proto: Option<&str>) -> (r: String)
        ensures
            r@ == base_url(self.public_url(), opt_view(host), opt_view(proto)),
    {
        match &self.public_url {
            Some(u) => base_url_of(Some(u.as_str()), host, proto),
            None => base_url_of(None, host, proto),
        }
    }

    /// The address of the inbox, and whether it is a tunnel's public URL.
    pub fn info(&self, host: Option<&str>, proto: Option<&str>) -> (r: (String, bool))
        ensures
            r.0@ == base_url(self.public_url(), opt_view(host), opt_view(proto)),
            r.1 == self.public_url() is Some,
    {
        (self.base_url(host, proto), self.public_url.is_some())
    }

    /// The pairing QR code as SVG; 500 "qr error" when no QR code holds the URL.
    pub fn pairing_qr(&self, host: Option<&str>, proto: Option<&str>) -> (r: Reply)
        ensures
            ({
                let url = pairing_url_spec(
                    base_url(self.public_url(), opt_view(host), opt_view(proto)),
                    self.token(),
                );
                match qr_svg_image(vstd::utf8::encode_utf8(url), 220, 220) {
                    Some(svg) => r matches Reply::Svg(s) && s@ == svg,
                    None => r == Reply::Text(500, "qr error"),
                }
            }),
    {
        let base = self.base_url(host, proto);
        let url = pairing_url(base.as_str(), self.token.as_str());
        match render_qr_svg(url.as_str().as_bytes(), 220, 220) {
            Some(svg) => Reply::Svg(svg),
            None => Reply::Text(500, "qr error"),
        }
    }

    // -----------------------------------------------------------------------
    // Share links.

    /// Creates the share link `sid` to item `item_id` at time `now`: refused
    /// (404, "no item") when there is no such item; else the link lives `ttl`
    /// seconds (for ever when none or 0) and works once when `once` says so.
    pub fn create_share_at(
        &mut self,
        item_id: &str,
        once: Option<bool>,
        ttl: Option<u64>,
        sid: String,
        now: u64,
        host: Option<&str>,
        proto: Option<&str>,
    ) -> (r: Result<Link, Reply>)
        requires
            old(self).wf(),
        ensures
            final(self).wf(),
            share_created(*old(self), item_id@, once, ttl, sid@, now, opt_view(host), opt_view(proto), *final(self), r),
    {
        if !self.inbox.contains(item_id) {
            return Err(Reply::Text(404, "no item"));
        }
        let t = match ttl {
            Some(t) => t,
            None => 0,
        };
        let share = Share {
            item_id: String::from_str(item_id),
            expires: expiry_of(t, now),
            once: match once {
                Some(b) => b,
                None => false,
            },
        };
        let key = sid.clone();
        self.shares.insert(key, share);
        assert(self.shares@.remove(sid@) =~= old(self).shares@.remove(sid@));
        let mut url = self.base_url(host, proto);
        url.append("/s/");
        url.append(sid.as_str());
        Ok(Link { id: sid, url })
    }

    /// Creates a share link under an id that no link has, at the clock reading
    /// it takes and records as `clock()` (see `create_share_at`).
    pub fn create_share(
        &mut self,
        item_id: &str,
        once: Option<bool>,
        ttl: Option<u64>,
        host: Option<&str>,
        proto: Option<&str>,
    ) -> (r: Result<Link, Reply>)
        requires
            old(self).wf(),
        ensures
            final(self).wf(),
            exists|sid: Seq<char>| is_simple_uuid(sid) && !old(self).shares().contains_key(sid) && #[trigger] share_created(*old(self), item_id@, once, ttl, sid, final(self).clock(), opt_view(host), opt_view(proto), *final(self), r),
    {
        let (_, drawn) = new_uuid();
        let sid = fresh_key(&self.shares, drawn);
        let ghost sidv = sid@;
        let t = now();
        let r = self.create_share_at(item_id, once, ttl, sid, t, host, proto);
        self.clock = Ghost(t);
        assert(share_created(*old(self), item_id@, once, ttl, sidv, self.clock(), opt_view(host), opt_view(proto), *self, r));
        r
    }

    /// Opens the share link `sid` at time `now` (see `share_served`).
    pub fn serve_share_at(&mut self, sid: &str, now: u64) -> (r: Reply)
        requires
            old(self).wf(),
        ensures
            final(self).wf(),
            share_served(*old(self), sid@, now, *final(self), r),
    {
        let (item_id, expires, once) = match self.shares.get(sid) {
            Some(sh) => (sh.item_id.clone(), sh.expires, sh.once),
            None => {
                return Reply::Text(404, "expired or missing");
            },
        };
        if expires != 0 && expires < now {
            self.shares.remove(sid);
            return Reply::Text(404, "expired");
        }
        let r = match self.inbox.get(item_id.as_str()) {
            Some(it) => {
                if it.kind == Kind::File {
                    let safe = header_safe_name(it.name.as_str(), false);
                    let mut d = String::from_str("attachment; filename=\"");
                    d.append(safe.as_str());
                    d.append("\"");
                    Reply::Content { content_type: it.content_type.clone(), disposition: d, bytes: it.bytes.clone() }
                } else {
                    let page = match &it.text {
                        Some(t) => share_page(t.as_str()),
                        None => {
                            proof {
                                reveal_strlit("");
                            }
                            share_page("")
                        },
                    };
                    Reply::Html(page)
                }
            },
            None => {
                return Reply::Text(404, "item gone");
            },
        };
        if once {
            self.shares.remove(sid);
        }
        r
    }

    /// Opens a share link at the clock reading it takes and records as
    /// `clock()` (see `serve_share_at`).
    pub fn serve_share(&mut self, sid: &str) -> (r: Reply)
        requires
            old(self).wf(),
        ensures
            final(self).wf(),
            share_served(*old(self), sid@, final(self).clock(), *final(self), r),
    {
        let t = now();
        let r = self.serve_share_at(sid, t);
        self.clock = Ghost(t);
        r
    }

    // -----------------------------------------------------------------------
    // Guest drops.

    /// Creates the guest drop `did` at time `now`, labelled `label` (or
    /// "guest"), open for `ttl` seconds (for ever when none or 0).
    pub fn create_drop_at(
        &mut self,
        label: Option<String>,
        ttl: Option<u64>,
        did: String,
        now: u64,
        host: Option<&str>,
        proto: Option<&str>,
    ) -> (r: Link)
        requires
            old(self).wf(),
        ensures
            final(self).wf(),
            drop_created(*old(self), opt_string_view(&label), ttl, did@, now, opt_view(host), opt_view(proto), *final(self), r),
    {
        let t = match ttl {
            Some(t) => t,
            None => 0,
        };
        let d = GuestDrop {
            label: match label {
                Some(l) => l,
                None => String::from_str("guest"),
            },
            expires: expiry_of(t, now),
        };
        let key = did.clone();
        self.drops.insert(key, d);
        assert(self.drops@.remove(did@) =~= old(self).drops@.remove(did@));
        let mut url = self.base_url(host, proto);
        url.append("/d/");
        url.append(did.as_str());
        Link { id: did, url }
    }

    /// Creates a guest drop under an id that no drop has, at the clock reading
    /// it takes and records as `clock()` (see `create_drop_at`).
    pub fn create_drop(&mut self, label: Option<String>, ttl: Option<u64>, host: Option<&str>, proto: Option<&str>) -> (r: Link)
        requires
            old(self).wf(),
        ensures
            final(self).wf(),
            exists|did: Seq<char>| is_simple_uuid(did) && !old(self).drops().contains_key(did) && #[trigger] drop_created(*old(self), opt_string_view(&label), ttl, did, final(self).clock(), opt_view(host), opt_view(proto), *final(self), r),
    {
        let ghost lv = opt_string_view(&label);
        let (_, drawn) = new_uuid();
        let did = fresh_key(&self.drops, drawn);
        let ghost didv = did@;
        let t = now();
        let r = self.create_drop_at(label, ttl, did, t, host, proto);
        self.clock = Ghost(t);
        assert(drop_created(*old(self), lv, ttl, didv, self.clock(), opt_view(host), opt_view(proto), *self, r));
        r
    }

    /// The label of the guest drop `did` when it is open at `now`; a drop found
    /// expired is removed.
    pub fn open_drop_at(&mut self, did: &str, now: u64) -> (r: Option<String>)
        requires
            old(self).wf(),
        ensures
            final(self).wf(),
            drop_opened(*old(self), did@, now, *final(self), opt_string_view(&r)),
    {
        let (label, expires) = match self.drops.get(did) {
            Some(d) => (d.label.clone(), d.expires),
            None => {
                return None;
            },
        };
        if expires != 0 && expires < now {
            self.drops.remove(did);
            return None;
        }
        Some(label)
    }

    /// Opens the guest drop `did` at the clock reading it takes and records as
    /// `clock()` (see `open_drop_at`).
    pub fn open_drop(&mut self, did: &str) -> (r: Option<String>)
        requires
            old(self).wf(),
        ensures
            final(self).wf(),
            drop_opened(*old(self), did@, final(self).clock(), *final(self), opt_string_view(&r)),
    {
        let t = now();
        let r = self.open_drop_at(did, t);
        self.clock = Ghost(t);
        r
    }

    /// The guest drop page for `did` at time `now`, in the language that
    /// `Accept-Language` asks for; 404 "expired or missing" when the drop is not
    /// open.
    pub fn drop_page_at(&mut self, did: &str, accept: Option<&str>, now: u64) -> (r: Reply)
        requires
            old(self).wf(),
        ensures
            final(self).wf(),
            exists|label: Option<Seq<char>>| {
                &&& drop_opened(*old(self), did@, now, *final(self), label)
                &&& (label is Some ==> (r matches Reply::Html(p) && p@ == drop_page_spec(lang_of(accept_view(accept)))))
                &&& (label is None ==> r == Reply::Text(404, "expired or missing"))
            },
    {
        let opened = self.open_drop_at(did, now);
        let ghost label = opt_string_view(&opened);
        let r = match opened {
            Some(_) => Reply::Html(drop_page(want_lang(accept))),
            None => Reply::Text(404, "expired or missing"),
        };
        assert(drop_opened(*old(self), did@, now, *self, label));
        r
    }

    /// The guest drop page at the clock reading it takes and records as
    /// `clock()` (see `drop_page_at`).
    pub fn drop_page(&mut self, did: &str, accept: Option<&str>) -> (r: Reply)
        requires
            old(self).wf(),
        ensures
            final(self).wf(),
            exists|label: Option<Seq<char>>| {
                &&& drop_opened(*old(self), did@, final(self).clock(), *final(self), label)
                &&& (label is Some ==> (r matches Reply::Html(p) && p@ == drop_page_spec(lang_of(accept_view(accept)))))
                &&& (label is None ==> r == Reply::Text(404, "expired or missing"))
            },
    {
        let t = now();
        let r = self.drop_page_at(did, accept, t);
        let ghost mid = *self;
        self.clock = Ghost(t);
        proof {
            let label = choose|label: Option<Seq<char>>| {
                &&& drop_opened(*old(self), did@, t, mid, label)
                &&& (label is Some ==> (r matches Reply::Html(p) && p@ == drop_page_spec(lang_of(accept_view(accept)))))
                &&& (label is None ==> r == Reply::Text(404, "expired or missing"))
            };
            assert(drop_opened(*old(self), did@, self.clock(), *self, label));
        }
        r
    }

    /// Stores an uploaded file under `id` at `created` unless it is empty; says
    /// whether it stored it.
    fn store_upload_at(&mut self, name: String, ctype: Option<String>, data: Vec<u8>, id: String, created: u64) -> (stored: bool)
        requires
            old(self).wf(),
        ensures
            final(self).wf(),
            stored == (data@.len() > 0),
            stored ==> file_stored(*old(self), name@, content_type_or_default(opt_string_view(&ctype)), data@, id@, created, *final(self)),
            !stored ==> final(self).same_as(old(self)),
    {
        if data.len() == 0 {
            return false;
        }
        let ct = match ctype {
            Some(c) => c,
            None => String::from_str("application/octet-stream"),
        };
        self.store_file_at(name, ct, data, id, created);
        true
    }

    /// Stores a file that a guest sent through the drop labelled `label`, under
    /// `id` at `created`, named "[label] file name"; an empty file is skipped.
    pub fn store_drop_file_at(&mut self, label: &str, file_name: &str, ctype: Option<String>, data: Vec<u8>, id: String, created: u64) -> (stored: bool)
        requires
            old(self).wf(),
        ensures
            final(self).wf(),
            stored == (data@.len() > 0),
            stored ==> file_stored(*old(self), guest_name(label@, file_name@), content_type_or_default(opt_string_view(&ctype)), data@, id@, created, *final(self)),
            !stored ==> final(self).same_as(old(self)),
    {
        let name = guest_name_of(label, file_name);
        self.store_upload_at(name, ctype, data, id, created)
    }

    /// Stores a guest's file under an id that no item has, at the clock reading
    /// it takes and records as `clock()` (see `store_drop_file_at`).
    pub fn store_drop_file(&mut self, label: &str, file_name: &str, ctype: Option<String>, data: Vec<u8>) -> (stored: bool)
        requires
            old(self).wf(),
        ensures
            final(self).wf(),
            stored == (data@.len() > 0),
            stored ==> exists|id: Seq<char>| is_hyphenated_uuid(id) && !old(self).items().contains_key(id) && #[trigger] file_stored(*old(self), guest_name(label@, file_name@), content_type_or_default(opt_string_view(&ctype)), data@, id, final(self).clock(), *final(self)),
            !stored ==> final(self).same_as(old(self)),
    {
        let ghost ct = content_type_or_default(opt_string_view(&ctype));
        let ghost bytes = data@;
        let id = self.fresh_item_id();
        let ghost idv = id@;
        let t = now();
        let stored = self.store_drop_file_at(label, file_name, ctype, data, id, t);
        self.clock = Ghost(t);
        if stored {
            assert(file_stored(*old(self), guest_name(label@, file_name@), ct, bytes, idv, self.clock(), *self));
        }
        stored
    }

    /// Stores a text that a guest sent through the drop labelled `label`, under
    /// `id` at `created`, named "[label] " and its first 60 characters; a blank
    /// text is skipped.
    pub fn store_drop_text_at(&mut self, label: &str, text: &str, id: String, created: u64) -> (stored: bool)
        requires
            old(self).wf(),
        ensures
            final(self).wf(),
            guest_text_stored(*old(self), label@, text@, id@, created, *final(self), stored),
    {
        if is_blank_str(text) {
            return false;
        }
        let ghost idv = id@;
        let first = label_of_text(text, 60);
        let name = guest_name_of(label, first.as_str());
        let item = text_item_named(id, text, name, created, self.ttl);
        self.store(item);
        assert(self.items().remove(idv) =~= old(self).items().remove(idv));
        true
    }

    /// Stores a guest's text under an id that no item has, at the clock
    /// reading it takes and records as `clock()` (see `store_drop_text_at`).
    pub fn store_drop_text(&mut self, label: &str, text: &str) -> (stored: bool)
        requires
            old(self).wf(),
        ensures
            final(self).wf(),
            exists|id: Seq<char>| is_hyphenated_uuid(id) && !old(self).items().contains_key(id) && #[trigger] guest_text_stored(*old(self), label@, text@, id, final(self).clock(), *final(self), stored),
    {
        let id = self.fresh_item_id();
        let ghost idv = id@;
        let t = now();
        let stored = self.store_drop_text_at(label, text, id, t);
        self.clock = Ghost(t);
        assert(guest_text_stored(*old(self), label@, text@, idv, self.clock(), *self, stored));
        stored
    }

    /// Stores a file shared from another app, under `id` at `created`, named by
    /// its file name; an empty one is skipped.
    pub fn store_shared_file_at(&mut self, field_name: String, ctype: Option<String>, data: Vec<u8>, id: String, created: u64) -> (stored: bool)
        requires
            old(self).wf(),
        ensures
            final(self).wf(),
            stored == (data@.len() > 0),
            stored ==> file_stored(*old(self), field_name@, content_type_or_default(opt_string_view(&ctype)), data@, id@, created, *final(self)),
            !stored ==> final(self).same_as(old(self)),
    {
        self.store_upload_at(field_name, ctype, data, id, created)
    }

    /// Stores a shared file under an id that no item has, at the clock reading
    /// it takes and records as `clock()` (see `store_shared_file_at`).
    pub fn store_shared_file(&mut self, field_name: String, ctype: Option<String>, data: Vec<u8>) -> (stored: bool)
        requires
            old(self).wf(),
        ensures
            final(self).wf(),
            stored == (data@.len() > 0),
            stored ==> exists|id: Seq<char>| is_hyphenated_uuid(id) && !old(self).items().contains_key(id) && #[trigger] file_stored(*old(self), field_name@, content_type_or_default(opt_string_view(&ctype)), data@, id, final(self).clock(), *final(self)),
            !stored ==> final(self).same_as(old(self)),
    {
        let ghost fv = field_name@;
        let ghost ct = content_type_or_default(opt_string_view(&ctype));
        let ghost bytes = data@;
        let id = self.fresh_item_id();
        let ghost idv = id@;
        let t = now();
        let stored = self.store_shared_file_at(field_name, ctype, data, id, t);
        self.clock = Ghost(t);
        if stored {
            assert(file_stored(*old(self), fv, ct, bytes, idv, self.clock(), *self));
        }
        stored
    }

    /// Opens the guest drop `did` for an upload at time `now`: its label when it
    /// is open, else the answer 404 "expired" (a lapsed drop is removed).
    pub fn begin_drop_upload_at(&mut self, did: &str, now: u64) -> (r: Result<String, Reply>)
        requires
            old(self).wf(),
        ensures
            final(self).wf(),
            drop_upload_begun(*old(self), did@, now, *final(self), r),
    {
        match self.open_drop_at(did, now) {
            Some(label) => Ok(label),
            None => Err(Reply::Text(404, "expired")),
        }
    }

    /// Opens a guest drop for an upload at the clock reading it takes and
    /// records as `clock()` (see `begin_drop_upload_at`).
    pub fn begin_drop_upload(&mut self, did: &str) -> (r: Result<String, Reply>)
        requires
            old(self).wf(),
        ensures
            final(self).wf(),
            drop_upload_begun(*old(self), did@, final(self).clock(), *final(self), r),
    {
        let t = now();
        let r = self.begin_drop_upload_at(did, t);
        self.clock = Ghost(t);
        r
    }

    /// Ends a share from another app, under `id` at `created`: the texts
    /// shared (title, text, url), joined by spaces and trimmed, become one text
    /// or link item named by its first 80 characters (or "shared") unless that
    /// is empty; the answer sends the browser back to the inbox.
    pub fn finish_share_target_at(&mut self, texts: &Vec<String>, id: String, created: u64) -> (r: Reply)
        requires
            old(self).wf(),
        ensures
            final(self).wf(),
            r == Reply::Redirect("/"),
            shared_text_stored(*old(self), views_of(texts@), id@, created, *final(self)),
    {
        let joined = join_with_spaces(texts);
        let v = chars_of(joined.as_str());
        let (a, b) = trim_bounds(&v);
        if a < b {
            let ghost idv = id@;
            let t = string_of(&v, a, b);
            let item = text_item(id, t.as_str(), 80, "shared", created, self.ttl);
            self.store(item);
            assert(self.items().remove(idv) =~= old(self).items().remove(idv));
        }
        Reply::Redirect("/")
    }

    /// Ends a share from another app under an id that no item has, at the
    /// clock reading it takes and records as `clock()` (see
    /// `finish_share_target_at`).
    pub fn finish_share_target(&mut self, texts: &Vec<String>) -> (r: Reply)
        requires
            old(self).wf(),
        ensures
            final(self).wf(),
            r == Reply::Redirect("/"),
            exists|id: Seq<char>| is_hyphenated_uuid(id) && !old(self).items().contains_key(id) && #[trigger] shared_text_stored(*old(self), views_of(texts@), id, final(self).clock(), *final(self)),
    {
        let id = self.fresh_item_id();
        let ghost idv = id@;
        let t = now();
        let r = self.finish_share_target_at(texts, id, t);
        self.clock = Ghost(t);
        assert(shared_text_stored(*old(self), views_of(texts@), idv, self.clock(), *self));
        r
    }

    /// Reads one line of the tunnel's log: when it announces a public URL, that
    /// URL becomes the base of links, and it is given back.
    pub fn note_tunnel_line(&mut self, line: &str) -> (r: Option<String>)
        requires
            old(self).wf(),
        ensures
            final(self).wf(),
            opt_string_view(&r) == tunnel_url(line@),
            final(self).public_url() == tunnel_step(old(self).public_url(), line@),
            final(self).items() == old(self).items(),
            final(self).shares() == old(self).shares(),
            final(self).drops() == old(self).drops(),
            final(self).token() == old(self).token(),
            final(self).ttl() == old(self).ttl(),
            final(self).events() == old(self).events(),
    {
        match tunnel_url_in(line) {
            Some(url) => {
                let shown = url.clone();
                self.set_public_url(url);
                Some(shown)
            },
            None => None,
        }
    }
}

/// A posted text was refused when blank, else stored under `id` and announced.
pub open spec fn text_posted(
    old: Flit,
    body: Seq<char>,
    id: Seq<char>,
    created: u64,
    new: Flit,
    r: Reply,
) -> bool {
    if is_blank(body) {
        r == Reply::Text(400, "empty") && new.same_as(&old)
    } else {
        &&& r == Reply::Text(201, "ok")
        &&& new.items().contains_key(id)
        &&& is_text_item(new.items()[id], id, body, text_name(body, 80, "text"@), created, old.ttl())
        &&& new.items().remove(id) == old.items().remove(id)
        &&& new.events() == old.events().push(id)
        &&& new.shares() == old.shares()
        &&& new.drops() == old.drops()
        &&& new.same_config(&old)
    }
}

/// A file was stored under `id` and announced.
pub open spec fn file_stored(
    old: Flit,
    name: Seq<char>,
    ctype: Seq<char>,
    data: Seq<u8>,
    id: Seq<char>,
    created: u64,
    new: Flit,
) -> bool {
    &&& new.items().contains_key(id)
    &&& is_file_item(new.items()[id], id, name, ctype, data, created, old.ttl())
    &&& new.items().remove(id) == old.items().remove(id)
    &&& new.events() == old.events().push(id)
    &&& new.shares() == old.shares()
    &&& new.drops() == old.drops()
    &&& new.same_config(&old)
}


/// The name of a posted file: as sent, or "file".
pub open spec fn file_name_or_default(n: Option<Seq<char>>) -> Seq<char> {
    match n {
        Some(t) => t,
        None => "file"@,
    }
}

/// The type of an upload: as sent, or `application/octet-stream`.
pub open spec fn content_type_or_default(c: Option<Seq<char>>) -> Seq<char> {
    match c {
        Some(t) => t,
        None => octet_stream_type(),
    }
}


/// Share link `sid` was created for item `item_id`, or refused when there is
/// no such item.
pub open spec fn share_created(
    old: Flit,
    item_id: Seq<char>,
    once: Option<bool>,
    ttl: Option<u64>,
    sid: Seq<char>,
    now: u64,
    host: Option<Seq<char>>,
    proto: Option<Seq<char>>,
    new: Flit,
    r: Result<Link, Reply>,
) -> bool {
    if !old.items().contains_key(item_id) {
        r == Err::<Link, Reply>(Reply::Text(404, "no item")) && new.same_as(&old)
    } else {
        &&& r matches Ok(l) && l.id@ == sid && l.url@ == base_url(old.public_url(), host, proto)
            + "/s/"@ + sid
        &&& new.shares().contains_key(sid)
        &&& new.shares()[sid].item_id@ == item_id
        &&& new.shares()[sid].expires == expiry(
            match ttl {
                Some(t) => t,
                None => 0,
            },
            now,
        )
        &&& new.shares()[sid].once == match once {
            Some(b) => b,
            None => false,
        }
        &&& new.shares().remove(sid) == old.shares().remove(sid)
        &&& new.items() == old.items()
        &&& new.drops() == old.drops()
        &&& new.same_config(&old)
        &&& new.events() == old.events()
    }
}

/// What opening share link `sid` at `now` does: a missing link is answered
/// 404 "expired or missing"; a lapsed one is removed and answered 404 "expired";
/// a link whose item is gone is answered 404 "item gone"; else the item is
/// served (see `shared_item_reply`) and a one-time link is removed.
pub open spec fn share_served(old: Flit, sid: Seq<char>, now: u64, new: Flit, r: Reply) -> bool {
    &&& new.items() == old.items()
    &&& new.drops() == old.drops()
    &&& new.same_config(&old)
    &&& new.events() == old.events()
    &&& if !old.shares().contains_key(sid) {
        r == Reply::Text(404, "expired or missing") && new.shares() == old.shares()
    } else {
        let sh = old.shares()[sid];
        if lapsed(sh.expires, now) {
            r == Reply::Text(404, "expired") && new.shares() == old.shares().remove(sid)
        } else if !old.items().contains_key(sh.item_id@) {
            r == Reply::Text(404, "item gone") && new.shares() == old.shares()
        } else {
            &&& shared_item_reply(old.items()[sh.item_id@], r)
            &&& new.shares() == if sh.once {
                old.shares().remove(sid)
            } else {
                old.shares()
            }
        }
    }
}

/// Guest drop `did` was created, labelled `label` (or "guest").
pub open spec fn drop_created(
    old: Flit,
    label: Option<Seq<char>>,
    ttl: Option<u64>,
    did: Seq<char>,
    now: u64,
    host: Option<Seq<char>>,
    proto: Option<Seq<char>>,
    new: Flit,
    r: Link,
) -> bool {
    &&& r.id@ == did
    &&& r.url@ == base_url(old.public_url(), host, proto) + "/d/"@ + did
    &&& new.drops().contains_key(did)
    &&& new.drops()[did].label@ == match label {
        Some(l) => l,
        None => "guest"@,
    }
    &&& new.drops()[did].expires == expiry(
        match ttl {
            Some(t) => t,
            None => 0,
        },
        now,
    )
    &&& new.drops().remove(did) == old.drops().remove(did)
    &&& new.items() == old.items()
    &&& new.shares() == old.shares()
    &&& new.same_config(&old)
    &&& new.events() == old.events()
}

/// What opening guest drop `did` at `now` gives: its label when it is open; a
/// lapsed drop is removed.
pub open spec fn drop_opened(old: Flit, did: Seq<char>, now: u64, new: Flit, label: Option<Seq<char>>) -> bool {
    &&& new.items() == old.items()
    &&& new.shares() == old.shares()
    &&& new.same_config(&old)
    &&& new.events() == old.events()
    &&& if !old.drops().contains_key(did) {
        label is None && new.drops() == old.drops()
    } else if lapsed(old.drops()[did].expires, now) {
        label is None && new.drops() == old.drops().remove(did)
    } else {
        label == Some(old.drops()[did].label@) && new.drops() == old.drops()
    }
}

/// A guest's text was skipped when blank, else stored under `id`, named
/// "[label] " and its first 60 characters.
pub open spec fn guest_text_stored(
    old: Flit,
    label: Seq<char>,
    text: Seq<char>,
    id: Seq<char>,
    created: u64,
    new: Flit,
    stored: bool,
) -> bool {
    if is_blank(text) {
        !stored && new.same_as(&old)
    } else {
        &&& stored
        &&& new.items().contains_key(id)
        &&& is_text_item(new.items()[id], id, text, guest_name(label, label_of(text, 60)), created, old.ttl())
        &&& new.items().remove(id) == old.items().remove(id)
        &&& new.events() == old.events().push(id)
        &&& new.shares() == old.shares()
        &&& new.drops() == old.drops()
        &&& new.same_config(&old)
    }
}

/// "[label] rest".
pub fn guest_name_of(label: &str, rest: &str) -> (r: String)
    ensures
        r@ == guest_name(label@, rest@),
{
    let mut r = String::from_str("[");
    r.append(label);
    r.append("] ");
    r.append(rest);
    r
}

/// Decides what a field of a guest upload is: a file when it has a non-empty
/// file name, the text when it is the field named `text`, else nothing.
pub fn classify_drop_field(field_name: Option<&str>, file_name: Option<&str>) -> (r: DropField)
    ensures
        match named_file(opt_view(file_name)) {
            Some(f) => r matches DropField::File(n) && n@ == f,
            None => if opt_view(field_name) == Some("text"@) {
                r matches DropField::Text
            } else {
                r matches DropField::Skip
            },
        },
{
    match file_name {
        Some(f) => {
            if !f.is_empty() {
                return DropField::File(String::from_str(f));
            }
        },
        None => {},
    }
    match field_name {
        Some(n) => {
            if crate::headers::str_eq(n, "text") {
                DropField::Text
            } else {
                DropField::Skip
            }
        },
        None => DropField::Skip,
    }
}

/// The answer to a guest upload that stored `count` things: 400 "nothing
/// uploaded" when none, else the page saying it was sent, in the language of
/// `accept`.
pub open spec fn sent_reply_is(count: nat, accept: Seq<char>, r: Reply) -> bool {
    &&& count == 0 ==> r == Reply::Text(400, "nothing uploaded")
    &&& count > 0 ==> (r matches Reply::Html(p) && p@ == sent_page_spec(lang_of(accept)))
}

/// The answer to a guest upload that stored `count` things: 400 "nothing
/// uploaded" when none, else the page saying it was sent.
pub fn drop_sent_reply(count: usize, accept: Option<&str>) -> (r: Reply)
    ensures
        sent_reply_is(count as nat, accept_view(accept), r),
{
    if count == 0 {
        Reply::Text(400, "nothing uploaded")
    } else {
        Reply::Html(sent_page(want_lang(accept)))
    }
}



/// The public URL after one line of the tunnel's log: the URL the line
/// announces, if any, else the one before.
pub open spec fn tunnel_step(public: Option<Seq<char>>, line: Seq<char>) -> Option<Seq<char>> {
    match tunnel_url(line) {
        Some(u) => Some(u),
        None => public,
    }
}

/// Opening guest drop `did` for an upload at `now`: its label, or the answer
/// 404 "expired" when it is missing or lapsed (see `drop_opened`).
pub open spec fn drop_upload_begun(old: Flit, did: Seq<char>, now: u64, new: Flit, r: Result<String, Reply>) -> bool {
    match r {
        Ok(label) => drop_opened(old, did, now, new, Some(label@)),
        Err(e) => e == Reply::Text(404, "expired") && drop_opened(old, did, now, new, None),
    }
}

/// The views of a sequence of strings.
pub open spec fn views_of(s: Seq<String>) -> Seq<Seq<char>> {
    s.map_values(|t: String| t@)
}

/// The texts joined with single spaces between them.
pub open spec fn join_spaced(s: Seq<Seq<char>>) -> Seq<char>
    decreases s.len(),
{
    if s.len() == 0 {
        Seq::<char>::empty()
    } else if s.len() == 1 {
        s[0]
    } else {
        join_spaced(s.drop_last()) + seq![' '] + s.last()
    }
}

/// The texts shared from another app were stored, joined and trimmed, as one
/// item under `id`, unless that came to nothing.
pub open spec fn shared_text_stored(old: Flit, texts: Seq<Seq<char>>, id: Seq<char>, created: u64, new: Flit) -> bool {
    let joined = trim(join_spaced(texts));
    if joined.len() == 0 {
        new.same_as(&old)
    } else {
        &&& new.items().contains_key(id)
        &&& is_text_item(new.items()[id], id, joined, text_name(joined, 80, "shared"@), created, old.ttl())
        &&& new.items().remove(id) == old.items().remove(id)
        &&& new.events() == old.events().push(id)
        &&& new.shares() == old.shares()
        &&& new.drops() == old.drops()
        &&& new.same_config(&old)
    }
}

/// The texts joined with single spaces between them.
pub fn join_with_spaces(texts: &Vec<String>) -> (r: String)
    ensures
        r@ == join_spaced(views_of(texts@)),
{
    let mut r = String::new();
    let n = texts.len();
    let mut i: usize = 0;
    while i < n
        invariant
            n == texts.len(),
            i <= n,
            r@ == join_spaced(views_of(texts@).take(i as int)),
        decreases n - i,
    {
        let ghost vs = views_of(texts@);
        proof {
            assert(vs.take(i + 1).drop_last() =~= vs.take(i as int));
            assert(vs.take(i + 1).last() == texts@[i as int]@);
            reveal_strlit(" ");
            assert(" "@ =~= seq![' ']);
        }
        if i > 0 {
            r.append(" ");
        }
        r.append(texts[i].as_str());
        proof {
            if i == 0 {
                assert(r@ =~= join_spaced(vs.take(1)));
            } else {
                assert(r@ =~= join_spaced(vs.take(i + 1)));
            }
        }
        i += 1;
    }
    assert(views_of(texts@).take(n as int) =~= views_of(texts@));
    r
}

/// Keeps a text shared from another app unless it is blank.
pub fn add_shared_text(texts: &mut Vec<String>, t: String)
    ensures
        is_blank(t@) ==> final(texts)@ == old(texts)@,
        !is_blank(t@) ==> final(texts)@ == old(texts)@.push(t),
{
    if !is_blank_str(t.as_str()) {
        texts.push(t);
    }
}

/// Whether a part posted to `/api/file` is the file: the part named `file`.
pub fn is_file_field(field_name: Option<&str>) -> (r: bool)
    ensures
        r == (opt_view(field_name) == Some("file"@)),
{
    match field_name {
        Some(n) => crate::headers::str_eq(n, "file"),
        None => false,
    }
}

/// A part shared from another app is a file (under its non-empty file name),
/// one of the texts (title, text, url), or something to skip.
#[derive(Debug)]
pub enum ShareField {
    File(String),
    Text,
    Skip,
}

/// Decides what a part shared from another app is (see `ShareField`).
pub fn classify_share_field(field_name: Option<&str>, file_name: Option<&str>) -> (r: ShareField)
    ensures
        match named_file(opt_view(file_name)) {
            Some(f) => r matches ShareField::File(n) && n@ == f,
            None => if opt_view(field_name) == Some("text"@) || opt_view(field_name) == Some("url"@)
                || opt_view(field_name) == Some("title"@) {
                r matches ShareField::Text
            } else {
                r matches ShareField::Skip
            },
        },
{
    match file_name {
        Some(f) => {
            if !f.is_empty() {
                return ShareField::File(String::from_str(f));
            }
        },
        None => {},
    }
    match field_name {
        Some(n) => {
            if crate::headers::str_eq(n, "text") || crate::headers::str_eq(n, "url")
                || crate::headers::str_eq(n, "title") {
                ShareField::Text
            } else {
                ShareField::Skip
            }
        },
        None => ShareField::Skip,
    }
}

} // verus!
