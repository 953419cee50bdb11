use flit::headers::{
    Lang, admits_request, base_url_of, bearer_token, cookie_token, pairing_url, str_eq,
    tunnel_url_in, want_lang,
};

#[test]
fn cookie_token_is_found_among_parts() {
    assert_eq!(cookie_token("a=1; flit_token=abc; b=2"), Some("abc".to_string()));
    assert_eq!(cookie_token("flit_token=xyz"), Some("xyz".to_string()));
    assert_eq!(cookie_token("  flit_token=sp  ;x=1"), Some("sp".to_string()));
    assert_eq!(cookie_token("flit_token="), Some(String::new()));
    assert_eq!(cookie_token("a=1; b=2"), None);
    assert_eq!(cookie_token(""), None);
    assert_eq!(cookie_token("xflit_token=1"), None);
    assert_eq!(cookie_token("flit_token=1; flit_token=2"), Some("1".to_string()));
}

#[test]
fn bearer_token_is_trimmed() {
    assert_eq!(bearer_token("Bearer  tok "), Some("tok".to_string()));
    assert_eq!(bearer_token("Bearer tok"), Some("tok".to_string()));
    assert_eq!(bearer_token("bearer tok"), None);
    assert_eq!(bearer_token("Basic abc"), None);
}

#[test]
fn no_token_lets_everyone_in() {
    assert!(admits_request("", None, None, None, None));
    assert!(admits_request("", Some("Bearer wrong"), None, None, None));
}

#[test]
fn token_is_taken_from_the_first_place_that_has_one() {
    let t = "s3cret";
    assert!(!admits_request(t, None, None, None, None));
    assert!(admits_request(t, Some("Bearer s3cret"), None, None, None));
    assert!(admits_request(t, None, Some("s3cret"), None, None));
    assert!(admits_request(t, None, None, Some("s3cret"), None));
    assert!(admits_request(t, None, None, None, Some("x=1; flit_token=s3cret")));
    // A bearer header that is present decides, even when a later place has the token.
    assert!(!admits_request(t, Some("Bearer nope"), None, Some("s3cret"), None));
    // A non-bearer Authorization header is passed over.
    assert!(admits_request(t, Some("Basic abc"), Some("s3cret"), None, None));
    assert!(!admits_request(t, None, Some("nope"), None, Some("flit_token=s3cret")));
    assert!(!admits_request(t, None, None, None, Some("other=1")));
}

#[test]
fn base_url_comes_from_tunnel_or_request() {
    assert_eq!(base_url_of(Some("https://x.trycloudflare.com"), Some("h:1"), None), "https://x.trycloudflare.com");
    assert_eq!(base_url_of(None, Some("flit.local:8080"), Some("https, http")), "https://flit.local:8080");
    assert_eq!(base_url_of(None, None, None), "http://localhost:7777");
    assert_eq!(base_url_of(None, Some("h"), Some("  ")), "http://h");
    assert_eq!(base_url_of(None, Some("h"), Some(",https")), "http://h");
}

#[test]
fn language_follows_the_first_accept_language_entry() {
    assert_eq!(want_lang(Some("ko-KR,en;q=0.8")), Lang::Ko);
    assert_eq!(want_lang(Some(" KO")), Lang::Ko);
    assert_eq!(want_lang(Some("en-US, ko")), Lang::En);
    assert_eq!(want_lang(Some("k")), Lang::En);
    assert_eq!(want_lang(None), Lang::En);
}

#[test]
fn pairing_url_carries_the_token_only_when_set() {
    assert_eq!(pairing_url("http://h:1", ""), "http://h:1/");
    assert_eq!(pairing_url("http://h:1", "abc"), "http://h:1/?token=abc");
}

#[test]
fn tunnel_url_is_read_from_the_log() {
    assert_eq!(
        tunnel_url_in("2024 INF |  https://red-fox.trycloudflare.com                      |"),
        Some("https://red-fox.trycloudflare.com".to_string())
    );
    assert_eq!(
        tunnel_url_in("x https://a.cfargotunnel.com|||"),
        Some("https://a.cfargotunnel.com".to_string())
    );
    assert_eq!(tunnel_url_in("see https://example.com for docs"), None);
    assert_eq!(tunnel_url_in("no url here trycloudflare.com"), None);
    assert_eq!(tunnel_url_in(""), None);
}

#[test]
fn strings_compare_by_characters() {
    assert!(str_eq("abc", "abc"));
    assert!(!str_eq("abc", "abd"));
    assert!(!str_eq("abc", "ab"));
}
