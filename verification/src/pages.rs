//! The HTML pages that share links and guest drops answer with.

use vstd::prelude::*;
use crate::headers::Lang;
use crate::text::{html_escape, html_escaped};

verus! {

pub open spec fn share_page_head() -> Seq<char> {
    "<!doctype html><meta charset=utf-8><meta name=viewport content='width=device-width,initial-scale=1'><title>Flit share</title><body style='font:15px system-ui;max-width:680px;margin:40px auto;padding:0 16px'><h3><img src='/icon.svg' width='22' height='22' style='vertical-align:-4px;margin-right:6px'/>Flit</h3><pre style='white-space:pre-wrap;word-break:break-word;background:#80808022;padding:14px;border-radius:10px'>"@
}

pub open spec fn share_page_tail() -> Seq<char> {
    "</pre></body>"@
}

/// The page that shows a shared text: the text, escaped, in a `<pre>`.
pub open spec fn share_page_spec(text: Seq<char>) -> Seq<char> {
    share_page_head() + html_escaped(text) + share_page_tail()
}

/// The words of the guest drop page in one language: the `lang` attribute, the
/// title, the note, the placeholder and the button.
pub open spec fn drop_words(l: Lang) -> (Seq<char>, Seq<char>, Seq<char>, Seq<char>, Seq<char>) {
    match l {
        Lang::Ko => (
            "ko"@,
            "Flit 받기함"@,
            "여기 올리면 상대방 인박스로만 전달됩니다. 인박스 내용은 안 보여요."@,
            "텍스트나 링크..."@,
            "보내기"@,
        ),
        Lang::En => (
            "en"@,
            "Flit drop"@,
            "Anything you send here lands only in their inbox - you can't see the inbox itself."@,
            "Text or a link..."@,
            "send"@,
        ),
    }
}

/// The guest drop page: a form that can only post.
pub open spec fn drop_page_spec(l: Lang) -> Seq<char> {
    let (lang, title, note, ph, btn) = drop_words(l);
    "<!doctype html><html lang='"@ + lang
        + "'><meta charset=utf-8><meta name=viewport content='width=device-width,initial-scale=1'><title>Flit</title><body style='font:15px system-ui;max-width:560px;margin:40px auto;padding 0 16px'><h2><img src='/icon.svg' width='24' height='24' sytle='vertical-align:-5px;margin-right:6px'/>"@
        + title + "</h2><p style=opacity:.6'>"@ + note
        + "</p><form method=post enctype='multipart/form-data'><textarea name=text placeholder='"@
        + ph
        + "' style='width:100%;min-height:90px;padding:10px;border:1px solid #8888;border-radius:10px;background:transparent'></textarea><br><br><input type=file name=file><br><br><button style='padding:10px 16px;border:0,border-radius:9px;background:#2dd672;font-weight:600'>"@
        + btn + "</button></form></body></html>"@
}

/// The words of the page after a guest upload: the message and the link text.
pub open spec fn sent_words(l: Lang) -> (Seq<char>, Seq<char>) {
    match l {
        Lang::Ko => ("전송 완료! 받는 사람 인박스에 도착했어요."@, "또 보내기"@),
        Lang::En => ("Sent! It's in their inbox now."@, "Send another"@),
    }
}

/// The page after a guest upload.
pub open spec fn sent_page_spec(l: Lang) -> Seq<char> {
    let (msg, again) = sent_words(l);
    "<!doctype html><meta charset=utf-8><body style='font:16px system-ui;text-align:center;margin-top:60px'>"@
        + msg + "<br><br><a href=''>"@ + again + "</a></body>"@
}

/// The page that shows a shared text.
pub fn share_page(text: &str) -> (r: String)
    ensures
        r@ == share_page_spec(text@),
{
    let mut p = String::from_str(
        "<!doctype html><meta charset=utf-8><meta name=viewport content='width=device-width,initial-scale=1'><title>Flit share</title><body style='font:15px system-ui;max-width:680px;margin:40px auto;padding:0 16px'><h3><img src='/icon.svg' width='22' height='22' style='vertical-align:-4px;margin-right:6px'/>Flit</h3><pre style='white-space:pre-wrap;word-break:break-word;background:#80808022;padding:14px;border-radius:10px'>",
    );
    let esc = html_escape(text);
    p.append(esc.as_str());
    p.append("</pre></body>");
    p
}

/// The guest drop page in language `l`.
pub fn drop_page(l: Lang) -> (r: String)
    ensures
        r@ == drop_page_spec(l),
{
    let (lang, title, note, ph, btn) = match l {
        Lang::Ko => (
            "ko",
            "Flit 받기함",
            "여기 올리면 상대방 인박스로만 전달됩니다. 인박스 내용은 안 보여요.",
            "텍스트나 링크...",
            "보내기",
        ),
        Lang::En => (
            "en",
            "Flit drop",
            "Anything you send here lands only in their inbox - you can't see the inbox itself.",
            "Text or a link...",
            "send",
        ),
    };
    let mut p = String::from_str("<!doctype html><html lang='");
    p.append(lang);
    p.append(
        "'><meta charset=utf-8><meta name=viewport content='width=device-width,initial-scale=1'><title>Flit</title><body style='font:15px system-ui;max-width:560px;margin:40px auto;padding 0 16px'><h2><img src='/icon.svg' width='24' height='24' sytle='vertical-align:-5px;margin-right:6px'/>",
    );
    p.append(title);
    p.append("</h2><p style=opacity:.6'>");
    p.append(note);
    p.append("</p><form method=post enctype='multipart/form-data'><textarea name=text placeholder='");
    p.append(ph);
    p.append(
        "' style='width:100%;min-height:90px;padding:10px;border:1px solid #8888;border-radius:10px;background:transparent'></textarea><br><br><input type=file name=file><br><br><button style='padding:10px 16px;border:0,border-radius:9px;background:#2dd672;font-weight:600'>",
    );
    p.append(btn);
    p.append("</button></form></body></html>");
    p
}

/// The page after a guest upload, in language `l`.
pub fn sent_page(l: Lang) -> (r: String)
    ensures
        r@ == sent_page_spec(l),
{
    let (msg, again) = match l {
        Lang::Ko => ("전송 완료! 받는 사람 인박스에 도착했어요.", "또 보내기"),
        Lang::En => ("Sent! It's in their inbox now.", "Send another"),
    };
    let mut p = String::from_str(
        "<!doctype html><meta charset=utf-8><body style='font:16px system-ui;text-align:center;margin-top:60px'>",
    );
    p.append(msg);
    p.append("<br><br><a href=''>");
    p.append(again);
    p.append("</a></body>");
    p
}

} // verus!
