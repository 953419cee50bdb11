use flit::flit::{
    DropField, Flit, Reply, ShareField, add_shared_text, classify_drop_field, classify_share_field,
    drop_sent_reply, guest_name_of, is_file_field, join_with_spaces,
};
use flit::headers::Lang;
use flit::item::{Kind, expiry_of};
use flit::pages::{drop_page, sent_page};

fn text_reply(r: &Reply) -> Option<(u16, &'static str)> {
    match r {
        Reply::Text(c, m) => Some((*c, *m)),
        _ => None,
    }
}

#[test]
fn blank_text_is_refused() {
    let mut f = Flit::new(String::new(), 600);
    let r = f.post_text_at("  \n\t", "id1".to_string(), 100);
    assert_eq!(text_reply(&r), Some((400, "empty")));
    assert!(f.list_items().is_empty());
    assert!(f.take_events().is_empty());
}

#[test]
fn posted_text_is_listed_and_announced() {
    let mut f = Flit::new(String::new(), 600);
    let r = f.post_text_at("hello world\nmore", "id1".to_string(), 100);
    assert_eq!(text_reply(&r), Some((201, "ok")));
    let l = f.list_items();
    assert_eq!(l.len(), 1);
    assert_eq!(l[0].id, "id1");
    assert_eq!(l[0].kind, Kind::Text);
    assert_eq!(l[0].name, "hello world");
    assert_eq!(l[0].size, 16);
    assert_eq!(l[0].text.as_deref(), Some("hello world\nmore"));
    assert_eq!(l[0].created, 100);
    assert_eq!(l[0].expires, 700);
    assert_eq!(f.take_events(), vec!["id1".to_string()]);
    assert!(f.take_events().is_empty());
}

#[test]
fn link_is_recognised() {
    let mut f = Flit::new(String::new(), 0);
    f.post_text_at(" https://example.com ", "a".to_string(), 5);
    let l = f.list_items();
    assert_eq!(l[0].kind, Kind::Link);
    assert_eq!(l[0].expires, 0);
    assert_eq!(Kind::Link.as_str(), "link");
}

#[test]
fn blank_first_line_is_named_text() {
    let mut f = Flit::new(String::new(), 0);
    f.post_text_at("   \nbody", "a".to_string(), 5);
    assert_eq!(f.list_items()[0].name, "text");
}

#[test]
fn post_text_with_fresh_id_and_clock() {
    let mut f = Flit::new(String::new(), 60);
    let r = f.post_text("note");
    assert_eq!(text_reply(&r), Some((201, "ok")));
    let l = f.list_items();
    assert_eq!(l.len(), 1);
    assert_eq!(l[0].id.len(), 36);
    assert_eq!(l[0].expires, l[0].created + 60);
}

#[test]
fn listing_is_newest_first() {
    let mut f = Flit::new(String::new(), 0);
    f.post_text_at("b", "b".to_string(), 200);
    f.post_text_at("a", "a".to_string(), 100);
    f.post_text_at("c", "c".to_string(), 300);
    let ids: Vec<String> = f.list_items().into_iter().map(|i| i.id).collect();
    assert_eq!(ids, vec!["c", "b", "a"]);
}

#[test]
fn raw_view_gives_back_the_content() {
    let mut f = Flit::new(String::new(), 0);
    f.post_file_at(Some("re\"port\n.pdf".to_string()), Some("application/pdf".to_string()), vec![1, 2, 3], "f".to_string(), 9);
    match f.get_raw("f") {
        Reply::Content { content_type, disposition, bytes } => {
            assert_eq!(content_type, "application/pdf");
            assert_eq!(disposition, "inline; file_name=\"report .pdf\"");
            assert_eq!(bytes, vec![1, 2, 3]);
        }
        other => panic!("unexpected {other:?}"),
    }
    assert_eq!(text_reply(&f.get_raw("nope")), Some((404, "not found")));
}

#[test]
fn posted_file_defaults() {
    let mut f = Flit::new(String::new(), 0);
    f.post_file_at(None, None, vec![], "f".to_string(), 1);
    let l = f.list_items();
    assert_eq!(l[0].name, "file");
    assert_eq!(l[0].kind, Kind::File);
    assert_eq!(l[0].size, 0);
    assert!(l[0].text.is_none());
    match f.get_raw("f") {
        Reply::Content { content_type, .. } => assert_eq!(content_type, "application/octet-stream"),
        other => panic!("unexpected {other:?}"),
    }
    f.post_file(Some("x.bin".to_string()), None, vec![7]);
    assert_eq!(f.list_items().len(), 2);
}

#[test]
fn upload_reply_counts() {
    assert_eq!(text_reply(&Flit::upload_reply(0)), Some((400, "no file field")));
    assert_eq!(text_reply(&Flit::upload_reply(2)), Some((201, "ok")));
}

#[test]
fn delete_then_gone() {
    let mut f = Flit::new(String::new(), 0);
    f.post_text_at("x", "x".to_string(), 1);
    f.take_events();
    assert!(matches!(f.delete_item("x"), Reply::Empty(204)));
    assert_eq!(f.take_events(), vec![String::new()]);
    assert_eq!(text_reply(&f.get_raw("x")), Some((404, "not found")));
    assert_eq!(text_reply(&f.delete_item("x")), Some((404, "not found")));
    assert!(f.take_events().is_empty());
}

#[test]
fn clear_empties_the_inbox() {
    let mut f = Flit::new(String::new(), 0);
    f.post_text_at("x", "x".to_string(), 1);
    f.post_text_at("y", "y".to_string(), 2);
    assert!(matches!(f.clear_items(), Reply::Empty(204)));
    assert!(f.list_items().is_empty());
    let ev = f.take_events();
    assert_eq!(ev.last(), Some(&String::new()));
}

#[test]
fn reaper_removes_what_expired() {
    let mut f = Flit::new(String::new(), 10);
    assert!(f.reaps());
    f.post_text_at("old", "old".to_string(), 100);
    f.post_text_at("new", "new".to_string(), 105);
    f.reap(109);
    assert_eq!(f.list_items().len(), 2);
    f.reap(110);
    let l = f.list_items();
    assert_eq!(l.len(), 1);
    assert_eq!(l[0].id, "new");
    f.reap(1000);
    assert!(f.list_items().is_empty());
    assert!(!Flit::new(String::new(), 0).reaps());
}

#[test]
fn expiry_saturates() {
    assert_eq!(expiry_of(0, 50), 0);
    assert_eq!(expiry_of(10, 50), 60);
    assert_eq!(expiry_of(u64::MAX, 5), u64::MAX);
}

#[test]
fn share_of_unknown_item_is_refused() {
    let mut f = Flit::new(String::new(), 0);
    let r = f.create_share_at("nope", None, None, "s".to_string(), 1, Some("h"), None);
    match r {
        Err(e) => assert_eq!(text_reply(&e), Some((404, "no item"))),
        Ok(_) => panic!("share created"),
    }
}

#[test]
fn one_time_share_serves_once() {
    let mut f = Flit::new(String::new(), 0);
    f.post_text_at("<b>hi</b> & bye", "t".to_string(), 1);
    let link = f.create_share_at("t", Some(true), None, "s1".to_string(), 1, Some("host:9"), Some("https")).unwrap();
    assert_eq!(link.id, "s1");
    assert_eq!(link.url, "https://host:9/s/s1");
    match f.serve_share_at("s1", 50) {
        Reply::Html(p) => {
            assert!(p.contains("&lt;b&gt;hi&lt;/b&gt; &amp; bye</pre></body>"));
            assert!(p.starts_with("<!doctype html>"));
        }
        other => panic!("unexpected {other:?}"),
    }
    assert_eq!(text_reply(&f.serve_share_at("s1", 51)), Some((404, "expired or missing")));
    assert_eq!(f.list_items().len(), 1);
}

#[test]
fn timed_share_lapses() {
    let mut f = Flit::new(String::new(), 0);
    f.post_file_at(Some("a\nb.txt".to_string()), Some("text/plain".to_string()), vec![65], "f".to_string(), 1);
    f.create_share_at("f", None, Some(10), "s".to_string(), 100, None, None).unwrap();
    match f.serve_share_at("s", 110) {
        Reply::Content { disposition, bytes, .. } => {
            assert_eq!(disposition, "attachment; filename=\"a b.txt\"");
            assert_eq!(bytes, vec![65]);
        }
        other => panic!("unexpected {other:?}"),
    }
    // Not once: it still works until it lapses.
    assert!(matches!(f.serve_share_at("s", 110), Reply::Content { .. }));
    assert_eq!(text_reply(&f.serve_share_at("s", 111)), Some((404, "expired")));
    assert_eq!(text_reply(&f.serve_share_at("s", 111)), Some((404, "expired or missing")));
}

#[test]
fn share_of_deleted_item_says_item_gone() {
    let mut f = Flit::new(String::new(), 0);
    f.post_text_at("x", "x".to_string(), 1);
    f.create_share_at("x", Some(true), None, "s".to_string(), 1, None, None).unwrap();
    f.delete_item("x");
    assert_eq!(text_reply(&f.serve_share_at("s", 2)), Some((404, "item gone")));
    assert_eq!(text_reply(&f.serve_share_at("s", 2)), Some((404, "item gone")));
}

#[test]
fn share_with_fresh_id() {
    let mut f = Flit::new(String::new(), 0);
    f.post_text_at("x", "x".to_string(), 1);
    let link = f.create_share("x", None, None, Some("h"), None).unwrap();
    assert_eq!(link.id.len(), 32);
    assert_eq!(link.url, format!("http://h/s/{}", link.id));
    assert!(matches!(f.serve_share(&link.id), Reply::Html(_)));
}

#[test]
fn drop_page_and_uploads() {
    let mut f = Flit::new(String::new(), 0);
    let link = f.create_drop_at(None, None, "d".to_string(), 1, None, None);
    assert_eq!(link.url, "http://localhost:7777/d/d");
    match f.drop_page_at("d", Some("ko-KR"), 2) {
        Reply::Html(p) => {
            assert!(p.contains("lang='ko'"));
            assert!(p.contains("보내기"));
            assert_eq!(p, drop_page(Lang::Ko));
        }
        other => panic!("unexpected {other:?}"),
    }
    let label = f.open_drop_at("d", 2).unwrap();
    assert_eq!(label, "guest");
    assert!(f.store_drop_text_at(&label, "hi there\nsecond", "t".to_string(), 3));
    assert!(!f.store_drop_text_at(&label, "   ", "u".to_string(), 3));
    assert!(f.store_drop_file_at(&label, "pic.png", Some("image/png".to_string()), vec![1], "p".to_string(), 3));
    assert!(!f.store_drop_file_at(&label, "empty.bin", None, vec![], "q".to_string(), 3));
    let names: Vec<String> = f.list_items().into_iter().map(|i| i.name).collect();
    assert!(names.contains(&"[guest] hi there".to_string()));
    assert!(names.contains(&"[guest] pic.png".to_string()));
    assert_eq!(names.len(), 2);
    assert!(f.store_drop_text(&label, "https://example.com"));
    assert!(f.store_drop_file(&label, "x", None, vec![2]));
    assert_eq!(f.list_items().len(), 4);
}

#[test]
fn drop_label_and_lapse() {
    let mut f = Flit::new(String::new(), 0);
    f.create_drop_at(Some("Mom".to_string()), Some(5), "d".to_string(), 100, Some("h"), None);
    assert_eq!(f.open_drop_at("d", 105), Some("Mom".to_string()));
    assert!(matches!(f.drop_page_at("d", None, 105), Reply::Html(_)));
    assert_eq!(f.open_drop_at("d", 106), None);
    assert_eq!(text_reply(&f.drop_page_at("d", None, 106)), Some((404, "expired or missing")));
    assert_eq!(f.open_drop_at("nope", 1), None);
    let link = f.create_drop(None, None, None, None);
    assert_eq!(link.id.len(), 32);
    assert_eq!(f.open_drop(&link.id), Some("guest".to_string()));
    assert!(matches!(f.drop_page(&link.id, Some("en")), Reply::Html(_)));
}

#[test]
fn guest_fields_are_classified() {
    assert!(matches!(classify_drop_field(Some("file"), Some("a.png")), DropField::File(n) if n == "a.png"));
    assert!(matches!(classify_drop_field(Some("text"), Some("")), DropField::Text));
    assert!(matches!(classify_drop_field(Some("text"), None), DropField::Text));
    assert!(matches!(classify_drop_field(Some("other"), None), DropField::Skip));
    assert!(matches!(classify_drop_field(None, None), DropField::Skip));
}

#[test]
fn guest_upload_answer() {
    assert_eq!(text_reply(&drop_sent_reply(0, None)), Some((400, "nothing uploaded")));
    match drop_sent_reply(1, Some("ko")) {
        Reply::Html(p) => assert_eq!(p, sent_page(Lang::Ko)),
        other => panic!("unexpected {other:?}"),
    }
    assert!(sent_page(Lang::En).contains("Sent! It's in their inbox now.<br><br><a href=''>Send another</a>"));
    assert_eq!(guest_name_of("Mom", "a.png"), "[Mom] a.png");
}

#[test]
fn shared_fields_become_files() {
    let mut f = Flit::new(String::new(), 0);
    assert!(f.store_shared_file_at("file".to_string(), None, vec![1, 2], "a".to_string(), 1));
    assert!(!f.store_shared_file_at("text".to_string(), None, vec![], "b".to_string(), 1));
    assert!(f.store_shared_file("url".to_string(), Some("text/plain".to_string()), vec![3]));
    let l = f.list_items();
    assert_eq!(l.len(), 2);
}

fn is_lower_hex(s: &str) -> bool {
    s.chars().all(|c| c.is_ascii_digit() || ('a'..='f').contains(&c))
}

#[test]
fn fresh_ids_are_uuids() {
    let mut f = Flit::new(String::new(), 0);
    f.post_text("x");
    let id = f.list_items()[0].id.clone();
    assert_eq!(id.len(), 36);
    for (i, c) in id.chars().enumerate() {
        if [8, 13, 18, 23].contains(&i) {
            assert_eq!(c, '-');
        } else {
            assert!(c.is_ascii_digit() || ('a'..='f').contains(&c));
        }
    }
    let link = f.create_share(&id, None, None, None, None).unwrap();
    assert!(is_lower_hex(&link.id));
    let d = f.create_drop(None, None, None, None);
    assert_eq!(d.id.len(), 32);
    assert!(is_lower_hex(&d.id));
}

#[test]
fn only_the_file_field_is_a_posted_file() {
    assert!(is_file_field(Some("file")));
    assert!(!is_file_field(Some("files")));
    assert!(!is_file_field(Some("text")));
    assert!(!is_file_field(None));
}

#[test]
fn shared_parts_are_classified() {
    assert!(matches!(classify_share_field(Some("file"), Some("a.jpg")), ShareField::File(n) if n == "a.jpg"));
    assert!(matches!(classify_share_field(Some("text"), None), ShareField::Text));
    assert!(matches!(classify_share_field(Some("url"), Some("")), ShareField::Text));
    assert!(matches!(classify_share_field(Some("title"), None), ShareField::Text));
    assert!(matches!(classify_share_field(Some("file"), None), ShareField::Skip));
    assert!(matches!(classify_share_field(None, None), ShareField::Skip));
}

#[test]
fn shared_texts_are_joined_into_one_item() {
    let mut texts: Vec<String> = Vec::new();
    add_shared_text(&mut texts, "  ".to_string());
    add_shared_text(&mut texts, "Look".to_string());
    add_shared_text(&mut texts, " https://example.com ".to_string());
    assert_eq!(texts.len(), 2);
    assert_eq!(join_with_spaces(&texts), "Look  https://example.com ");
    let mut f = Flit::new(String::new(), 0);
    let r = f.finish_share_target_at(&texts, "s".to_string(), 7);
    assert!(matches!(r, Reply::Redirect("/")));
    let l = f.list_items();
    assert_eq!(l.len(), 1);
    assert_eq!(l[0].text.as_deref(), Some("Look  https://example.com"));
    assert_eq!(l[0].kind, Kind::Text);
    assert_eq!(l[0].name, "Look  https://example.com");
    assert_eq!(f.take_events(), vec!["s".to_string()]);
}

#[test]
fn shared_link_alone_is_a_link() {
    let mut f = Flit::new(String::new(), 0);
    f.finish_share_target(&vec!["https://example.com/x".to_string()]);
    assert_eq!(f.list_items()[0].kind, Kind::Link);
}

#[test]
fn nothing_shared_stores_nothing() {
    let mut f = Flit::new(String::new(), 0);
    let r = f.finish_share_target_at(&Vec::new(), "s".to_string(), 7);
    assert!(matches!(r, Reply::Redirect("/")));
    assert!(f.list_items().is_empty());
    assert_eq!(join_with_spaces(&vec!["a".to_string(), "b".to_string(), "c".to_string()]), "a b c");
}

#[test]
fn upload_to_a_closed_drop_is_refused() {
    let mut f = Flit::new(String::new(), 0);
    match f.begin_drop_upload_at("none", 1) {
        Err(r) => assert_eq!(text_reply(&r), Some((404, "expired"))),
        Ok(_) => panic!("opened"),
    }
    f.create_drop_at(Some("L".to_string()), Some(1), "d".to_string(), 10, None, None);
    assert_eq!(f.begin_drop_upload_at("d", 11).unwrap(), "L");
    assert!(f.begin_drop_upload_at("d", 12).is_err());
    assert_eq!(f.open_drop_at("d", 0), None);
    let d = f.create_drop(None, None, None, None);
    assert_eq!(f.begin_drop_upload(&d.id).unwrap(), "guest");
}

#[test]
fn tunnel_lines_set_the_public_url() {
    let mut f = Flit::new(String::new(), 0);
    assert_eq!(f.note_tunnel_line("starting tunnel"), None);
    assert_eq!(f.info(Some("h"), None).1, false);
    assert_eq!(f.note_tunnel_line("| https://a.trycloudflare.com |"), Some("https://a.trycloudflare.com".to_string()));
    assert_eq!(f.note_tunnel_line("see https://example.com"), None);
    assert_eq!(f.base_url(None, None), "https://a.trycloudflare.com");
    f.note_tunnel_line("https://b.cfargotunnel.com");
    assert_eq!(f.base_url(None, None), "https://b.cfargotunnel.com");
}

#[test]
fn access_and_addresses() {
    let mut f = Flit::new("tok".to_string(), 0);
    assert!(!f.admits(None, None, None, None));
    assert!(f.admits(None, None, Some("tok"), None));
    let (url, tunnel) = f.info(Some("h:1"), None);
    assert_eq!(url, "http://h:1");
    assert!(!tunnel);
    f.set_public_url("https://x.trycloudflare.com".to_string());
    let (url, tunnel) = f.info(Some("h:1"), None);
    assert_eq!(url, "https://x.trycloudflare.com");
    assert!(tunnel);
    assert_eq!(f.base_url(None, None), "https://x.trycloudflare.com");
}

#[test]
fn pairing_qr_is_an_svg() {
    let f = Flit::new("tok".to_string(), 0);
    match f.pairing_qr(Some("192.168.1.2:7777"), None) {
        Reply::Svg(s) => {
            assert!(s.contains("<svg"));
            assert!(!s.contains("192.168.1.2"));
        }
        other => panic!("unexpected {other:?}"),
    }
    let huge = "x".repeat(5000);
    let mut g = Flit::new(huge, 0);
    g.set_public_url("http://h".to_string());
    assert_eq!(text_reply(&g.pairing_qr(None, None)), Some((500, "qr error")));
}

#[test]
fn raw_view_of_posted_text() {
    let mut f = Flit::new(String::new(), 0);
    f.post_text_at("héllo\nworld", "t".to_string(), 1);
    f.post_text_at("other", "o".to_string(), 2);
    match f.get_raw("t") {
        Reply::Content { content_type, disposition, bytes } => {
            assert_eq!(content_type, "text/plain; charset=utf-8");
            assert_eq!(disposition, "inline; file_name=\"héllo\"");
            assert_eq!(bytes, "héllo\nworld".as_bytes().to_vec());
        }
        other => panic!("unexpected {other:?}"),
    }
    assert_eq!(f.list_items()[1].size, "héllo\nworld".len());
}

#[test]
fn guest_answers_do_not_depend_on_the_inbox() {
    let mut a = Flit::new(String::new(), 0);
    let mut b = Flit::new(String::new(), 0);
    b.post_text_at("private", "p".to_string(), 1);
    a.create_drop_at(Some("g".to_string()), None, "d".to_string(), 1, None, None);
    b.create_drop_at(Some("g".to_string()), None, "d".to_string(), 1, None, None);
    assert_eq!(a.begin_drop_upload_at("d", 2).unwrap(), b.begin_drop_upload_at("d", 2).unwrap());
    assert_eq!(a.store_drop_text_at("g", "hi", "x".to_string(), 3), b.store_drop_text_at("g", "hi", "x".to_string(), 3));
    assert_eq!(b.list_items().len(), 2);
    match (a.drop_page_at("d", None, 3), b.drop_page_at("d", None, 3)) {
        (Reply::Html(p), Reply::Html(q)) => assert_eq!(p, q),
        _ => panic!("pages differ"),
    }
}

#[test]
fn guest_upload_answers_the_same_whatever_the_inbox() {
    let run = |f: &mut Flit| -> (Vec<bool>, String) {
        let label = f.begin_drop_upload_at("d", 2).unwrap();
        let flags = vec![
            f.store_drop_file_at(&label, "a.png", None, vec![1, 2], "i1".to_string(), 3),
            f.store_drop_file_at(&label, "empty", None, vec![], "i2".to_string(), 3),
            f.store_drop_text_at(&label, "  ", "i3".to_string(), 3),
            f.store_drop_text_at(&label, "note", "i4".to_string(), 3),
        ];
        let count = flags.iter().filter(|b| **b).count();
        let page = match drop_sent_reply(count, Some("ko")) {
            Reply::Html(p) => p,
            other => panic!("unexpected {other:?}"),
        };
        (flags, page)
    };
    let mut a = Flit::new(String::new(), 0);
    let mut b = Flit::new(String::new(), 0);
    b.post_text_at("private", "p".to_string(), 1);
    a.create_drop_at(None, None, "d".to_string(), 1, None, None);
    b.create_drop_at(None, None, "d".to_string(), 1, None, None);
    assert_eq!(run(&mut a), run(&mut b));
    assert_eq!(run(&mut a).0, vec![true, false, false, true]);
    match b.get_raw("p") {
        Reply::Content { bytes, .. } => assert_eq!(bytes, b"private".to_vec()),
        other => panic!("unexpected {other:?}"),
    }
}
