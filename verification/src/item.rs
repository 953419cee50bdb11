//! What the inbox holds: texts, links and files, each with an id, a name and an
//! expiry time.

use vstd::prelude::*;
use crate::text::{
    is_blank, is_blank_str, is_url, is_url_spec, label_of, label_of_text,
};
use crate::headers::opt_string_view;

verus! {

/// What an item is.
#[derive(PartialEq, Eq, Structural, Clone, Copy, Debug)]
pub enum Kind {
    Text,
    Link,
    File,
}

impl Kind {
    /// The name of the kind, as the inbox lists it.
    pub fn as_str(&self) -> (r: &'static str)
        ensures
            r@ == kind_name(*self),
    {
        match self {
            Kind::Text => "text",
            Kind::Link => "link",
            Kind::File => "file",
        }
    }
}

pub open spec fn kind_name(k: Kind) -> Seq<char> {
    match k {
        Kind::Text => "text"@,
        Kind::Link => "link"@,
        Kind::File => "file"@,
    }
}

/// One thing in the inbox.
#[derive(Debug)]
pub struct Item {
    pub id: String,
    pub kind: Kind,
    pub name: String,
    /// The length of the content in bytes.
    pub size: usize,
    /// The text, for texts and links.
    pub text: Option<String>,
    pub created: u64,
    /// When it expires, in seconds since the epoch; 0 for never.
    pub expires: u64,
    pub bytes: Vec<u8>,
    pub content_type: String,
}

/// What the inbox listing shows of an item: all but its content and type.
#[derive(Debug)]
pub struct ItemInfo {
    pub id: String,
    pub kind: Kind,
    pub name: String,
    pub size: usize,
    pub text: Option<String>,
    pub created: u64,
    pub expires: u64,
}

pub open spec fn info_of(it: Item) -> ItemInfo {
    ItemInfo {
        id: it.id,
        kind: it.kind,
        name: it.name,
        size: it.size,
        text: it.text,
        created: it.created,
        expires: it.expires,
    }
}

/// When an item created at `created` expires under a time to live of `ttl`
/// seconds: never (0) when `ttl` is 0, else `ttl` seconds later, held at the
/// largest time that fits.
pub open spec fn expiry(ttl: u64, created: u64) -> u64 {
    if ttl == 0 {
        0
    } else if created + ttl > u64::MAX {
        u64::MAX
    } else {
        (created + ttl) as u64
    }
}

/// An item is live at time `now` when it never expires or expires later.
pub open spec fn is_live(it: Item, now: u64) -> bool {
    it.expires == 0 || it.expires > now
}

/// A text is a link when it reads as a URL.
pub open spec fn text_kind(s: Seq<char>) -> Kind {
    if is_url_spec(s) {
        Kind::Link
    } else {
        Kind::Text
    }
}

pub open spec fn plain_text_type() -> Seq<char> {
    "text/plain; charset=utf-8"@
}

pub open spec fn octet_stream_type() -> Seq<char> {
    "application/octet-stream"@
}

/// The name of a text posted to the inbox: its label of `n` characters, or
/// `fallback` when that label is blank.
pub open spec fn text_name(s: Seq<char>, n: nat, fallback: Seq<char>) -> Seq<char> {
    if is_blank(label_of(s, n)) {
        fallback
    } else {
        label_of(s, n)
    }
}

/// `it` is the text item `body`, named `name`, with id `id`, created at
/// `created` under the time to live `ttl`.
pub open spec fn is_text_item(
    it: Item,
    id: Seq<char>,
    body: Seq<char>,
    name: Seq<char>,
    created: u64,
    ttl: u64,
) -> bool {
    &&& it.id@ == id
    &&& it.kind == text_kind(body)
    &&& it.name@ == name
    &&& it.size == vstd::utf8::encode_utf8(body).len()
    &&& opt_string_view(&it.text) == Some(body)
    &&& it.created == created
    &&& it.expires == expiry(ttl, created)
    &&& it.bytes@ == vstd::utf8::encode_utf8(body)
    &&& it.content_type@ == plain_text_type()
}

/// `it` is the file item `data`, named `name`, of type `ctype`.
pub open spec fn is_file_item(
    it: Item,
    id: Seq<char>,
    name: Seq<char>,
    ctype: Seq<char>,
    data: Seq<u8>,
    created: u64,
    ttl: u64,
) -> bool {
    &&& it.id@ == id
    &&& it.kind == Kind::File
    &&& it.name@ == name
    &&& it.size == data.len()
    &&& it.text is None
    &&& it.created == created
    &&& it.expires == expiry(ttl, created)
    &&& it.bytes@ == data
    &&& it.content_type@ == ctype
}

/// The time an item expires (see `expiry`).
pub fn expiry_of(ttl: u64, created: u64) -> (r: u64)
    ensures
        r == expiry(ttl, created),
{
    if ttl == 0 {
        0
    } else if created > u64::MAX - ttl {
        u64::MAX
    } else {
        created + ttl
    }
}

/// Whether the item is still live at `now`.
pub fn item_is_live(it: &Item, now: u64) -> (r: bool)
    ensures
        r == is_live(*it, now),
{
    it.expires == 0 || it.expires > now
}

/// A copy of an optional `String`.
pub fn clone_opt_string(o: &Option<String>) -> (r: Option<String>)
    ensures
        r == *o,
{
    match o {
        Some(s) => Some(s.clone()),
        None => None,
    }
}

/// What the listing shows of `it`.
pub fn info_of_item(it: &Item) -> (r: ItemInfo)
    ensures
        r == info_of(*it),
{
    ItemInfo {
        id: it.id.clone(),
        kind: it.kind,
        name: it.name.clone(),
        size: it.size,
        text: clone_opt_string(&it.text),
        created: it.created,
        expires: it.expires,
    }
}

/// A text item for `body`, named `name`.
pub fn text_item_named(id: String, body: &str, name: String, created: u64, ttl: u64) -> (it: Item)
    ensures
        is_text_item(it, id@, body@, name@, created, ttl),
{
    let kind = if is_url(body) {
        Kind::Link
    } else {
        Kind::Text
    };
    let bytes = body.as_bytes_vec();
    Item {
        id,
        kind,
        name,
        size: bytes.len(),
        text: Some(String::from_str(body)),
        created,
        expires: expiry_of(ttl, created),
        bytes,
        content_type: String::from_str("text/plain; charset=utf-8"),
    }
}

/// A text item for `body`, named by its first `n` characters or `fallback`.
pub fn text_item(id: String, body: &str, n: usize, fallback: &str, created: u64, ttl: u64) -> (it:
    Item)
    ensures
        is_text_item(it, id@, body@, text_name(body@, n as nat, fallback@), created, ttl),
{
    let label = label_of_text(body, n);
    let name = if is_blank_str(label.as_str()) {
        String::from_str(fallback)
    } else {
        label
    };
    text_item_named(id, body, name, created, ttl)
}

/// A file item.
pub fn file_item(id: String, name: String, ctype: String, data: Vec<u8>, created: u64, ttl: u64) -> (it:
    Item)
    ensures
        is_file_item(it, id@, name@, ctype@, data@, created, ttl),
{
    Item {
        id,
        kind: Kind::File,
        name,
        size: data.len(),
        text: None,
        created,
        expires: expiry_of(ttl, created),
        bytes: data,
        content_type: ctype,
    }
}

} // verus!
