use hagitori::crypto::{hex_text, hmac_sha256_hex, hmac_sha512_hex, md5_hex, random_bytes, random_uuid, sha256_hex, sha512_hex, uuid_v4_text};
use hagitori::encoding::{atob, btoa, format_console_args, icon_data_url, text_decode, text_encode};
use hagitori::fetch::{
    body_is_form, body_read_error, equals_ignore_ascii_case, fetch_request_options, form_fields, plan_request, transport_error,
    FetchOptions, FetchResponse, JsonPayload, RequestPlan,
};
use hagitori::html::JsDocument;
use hagitori::search_params::{parse_usp_data, serialize_params, UrlSearchParams};
use hagitori::url_object::{url_host, UrlObject};

fn pairs(items: &[(&str, &str)]) -> Vec<(String, String)> {
    items.iter().map(|(k, v)| (k.to_string(), v.to_string())).collect()
}

#[test]
fn search_params_from_query() {
    let p = UrlSearchParams::new(Some("?a=1&b=two%20words&&c"));
    assert_eq!(p.serialized(), "a=1&b=two+words&c=");
    assert_eq!(p.get("b").as_deref(), Some("two words"));
    assert_eq!(p.get("c").as_deref(), Some(""));
    assert_eq!(p.get("zz"), None);
    assert!(p.has("a"));
    assert!(!p.has("d"));
    assert_eq!(p.keys(), vec!["a", "b", "c"]);
    assert_eq!(p.values(), vec!["1", "two words", ""]);
    assert_eq!(UrlSearchParams::new(None).serialized(), "");
}

#[test]
fn search_params_set_then_get() {
    let mut p = UrlSearchParams::new(Some("a=1&b=2&a=3"));
    assert_eq!(p.get_all("a"), vec!["1", "3"]);
    p.set("a", "9");
    assert_eq!(p.get("a").as_deref(), Some("9"));
    assert_eq!(p.get_all("a"), vec!["9"]);
    assert_eq!(p.serialized(), "b=2&a=9");
    p.append("b", "x y");
    assert_eq!(p.get_all("b"), vec!["2", "x y"]);
    assert_eq!(p.get("b").as_deref(), Some("2"));
    p.delete("b");
    assert!(!p.has("b"));
    assert_eq!(p.entries(), pairs(&[("a", "9")]));
    let q = UrlSearchParams::from_pairs(&pairs(&[("k", "v&w")]));
    assert_eq!(q.serialized(), "k=v%26w");
    assert_eq!(q.get("k").as_deref(), Some("v&w"));
}

#[test]
fn stored_text_round_trip() {
    let ps = pairs(&[("page", "2"), ("q", "one piece")]);
    let text = serialize_params(&ps);
    assert_eq!(text, "page=2&q=one+piece");
    assert_eq!(parse_usp_data(&text), ps);
    assert_eq!(parse_usp_data(""), Vec::new());
}

#[test]
fn base64_helpers() {
    assert_eq!(btoa("hello"), "aGVsbG8=");
    assert_eq!(atob("aGVsbG8=").unwrap(), "hello");
    assert_eq!(atob(&btoa("olá, mundo")).unwrap(), "olá, mundo");
    assert!(atob("***").unwrap_err().message().contains("atob: invalid base64 input: "));
    assert!(atob("/w==").unwrap_err().message().contains("atob: invalid UTF-8: "));
    assert_eq!(icon_data_url(b"hi"), "data:image/png;base64,aGk=");
}

#[test]
fn text_encoding() {
    assert_eq!(text_encode(Some("é")), vec![0xC3, 0xA9]);
    assert_eq!(text_encode(None), Vec::<u8>::new());
    assert_eq!(text_decode(Some(&vec![0x68, 0x69])).unwrap(), "hi");
    assert_eq!(text_decode(Some(&vec![0x168, 0x169])).unwrap(), "hi");
    assert_eq!(text_decode(None).unwrap(), "");
    assert!(text_decode(Some(&vec![0xff])).is_err());
    assert_eq!(format_console_args(&vec!["a".to_string(), "b c".to_string(), "".to_string()]), "a b c ");
    assert_eq!(format_console_args(&Vec::new()), "");
}

#[test]
fn digests_in_hex() {
    assert_eq!(md5_hex(""), "d41d8cd98f00b204e9800998ecf8427e");
    assert_eq!(md5_hex("abc"), "900150983cd24fb0d6963f7d28e17f72");
    assert_eq!(sha256_hex("abc"), "ba7816bf8f01cfea414140de5dae2223b00361a396177a9cb410ff61f20015ad");
    assert_eq!(sha512_hex("").len(), 128);
    assert!(sha512_hex("abc").starts_with("ddaf35a193617aba"));
    assert_eq!(
        hmac_sha256_hex("key", "The quick brown fox jumps over the lazy dog").unwrap(),
        "f7bc83f430538424b13298e6aa6fb143ef4d59a14946175997479dbc2d1a3cd8"
    );
    assert!(hmac_sha512_hex("key", "The quick brown fox jumps over the lazy dog").unwrap().starts_with("b42af09057bac1e2"));
    assert_eq!(hex_text(&vec![0x00, 0x0a, 0xff]), "000aff");
}

#[test]
fn random_identifiers() {
    let b = random_bytes(24).unwrap();
    assert_eq!(b.len(), 24);
    let u = random_uuid().unwrap();
    assert_eq!(u.len(), 36);
    assert_eq!(&u[14..15], "4");
    assert!(["8", "9", "a", "b"].contains(&&u[19..20]));
    assert_eq!(uuid_v4_text(&vec![0u8; 16]), "00000000-0000-4000-8000-000000000000");
    assert_eq!(uuid_v4_text(&vec![0xffu8; 16]), "ffffffff-ffff-4fff-bfff-ffffffffffff");
}

#[test]
fn fetch_request_plans() {
    let get = FetchOptions::new(None, None, None, None, None);
    assert_eq!(get.method, "GET");
    assert!(matches!(plan_request(&get), RequestPlan::Get));
    let post_form = FetchOptions::new(Some("post"), None, None, Some(pairs(&[("a", "1")])), None);
    assert_eq!(post_form.method, "POST");
    assert!(matches!(plan_request(&post_form), RequestPlan::PostForm(f) if f == pairs(&[("a", "1")])));
    let json = FetchOptions::new(Some("POST"), Some(pairs(&[("Content-Type", "application/json")])), Some("{\"x\":1}".into()), None, None);
    assert!(matches!(plan_request(&json), RequestPlan::PostJson(JsonPayload::Document(t)) if t == "{\"x\":1}"));
    let legacy = FetchOptions::new(Some("POST"), None, Some("a=1&b=2&a=3".into()), None, None);
    assert!(matches!(plan_request(&legacy), RequestPlan::PostForm(f) if f == pairs(&[("a", "3"), ("b", "2")])));
    let text = FetchOptions::new(Some("POST"), None, Some("plain".into()), None, None);
    assert!(matches!(plan_request(&text), RequestPlan::PostJson(JsonPayload::Text(t)) if t == "plain"));
    let empty = FetchOptions::new(Some("POST"), None, None, None, None);
    assert!(matches!(plan_request(&empty), RequestPlan::PostEmpty));
    let put = FetchOptions::new(Some("put"), None, None, None, None);
    assert!(matches!(plan_request(&put), RequestPlan::Unsupported(m) if m == "HTTP method PUT is not supported   use GET or POST"));
    let o = fetch_request_options(&json);
    assert_eq!(o.headers, Some(pairs(&[("Content-Type", "application/json")])));
    assert_eq!(o.timeout_secs, None);
    assert_eq!(transport_error(&RequestPlan::Get, "dns"), "HTTP GET error: dns");
    assert_eq!(body_read_error("eof"), "failed to read response body: eof");
}

#[test]
fn form_body_heuristics() {
    assert!(body_is_form(Some("application/x-www-form-urlencoded; charset=UTF-8"), "{}"));
    assert!(!body_is_form(Some("application/json"), "a=1&b=2"));
    assert!(body_is_form(Some("text/plain"), "a=1&b=2"));
    assert!(!body_is_form(None, "{a=1&b=2}"));
    assert!(!body_is_form(None, "a=1"));
    assert!(equals_ignore_ascii_case("Content-TYPE", "content-type"));
    assert!(!equals_ignore_ascii_case("content-typ", "content-type"));
    assert_eq!(form_fields("x=1&y=2&x=3"), pairs(&[("x", "3"), ("y", "2")]));
}

#[test]
fn fetch_responses() {
    let r = FetchResponse::new(201, "é!".into(), pairs(&[("a", "b")]));
    assert_eq!(r.status(), 201);
    assert_eq!(r.text(), "é!");
    assert_eq!(r.bytes(), vec![0xC3, 0xA9, 0x21]);
    assert_eq!(r.headers(), pairs(&[("a", "b")]));
}

#[test]
fn url_objects() {
    let u = UrlObject::new("https://user:pw@site.com:8080/a/b?x=1&y=2#top", None).unwrap();
    assert_eq!(u.protocol, "https:");
    assert_eq!(u.hostname, "site.com");
    assert_eq!(u.port, "8080");
    assert_eq!(u.host, "site.com:8080");
    assert_eq!(u.pathname, "/a/b");
    assert_eq!(u.search, "?x=1&y=2");
    assert_eq!(u.hash, "#top");
    assert_eq!(u.origin, "https://site.com:8080");
    assert_eq!(u.username, "user");
    assert_eq!(u.password, "pw");
    assert_eq!(u.search_params.get("y").as_deref(), Some("2"));
    let rel = UrlObject::new("../c?z", Some("https://site.com/a/b/")).unwrap();
    assert_eq!(rel.to_href(), "https://site.com/a/c?z");
    assert_eq!(rel.port, "");
    assert_eq!(rel.hash, "");
    assert!(UrlObject::new("nope", None).unwrap_err().starts_with("Invalid URL: "));
    assert!(UrlObject::new("x", Some("nope")).unwrap_err().starts_with("Invalid base URL: "));
    assert_eq!(url_host("https://a.b.com/x"), Some("a.b.com".to_string()));
    assert_eq!(url_host("nope"), None);
}

#[test]
fn html_documents() {
    let doc = JsDocument::parse("<html><body><div class='c' id='x'>Hello <b>you</b></div><div class='c'>2</div></body></html>");
    let all = doc.select("div.c").unwrap();
    assert_eq!(all.len(), 2);
    assert_eq!(all[0].text(), "Hello you");
    assert_eq!(all[0].html(), "Hello <b>you</b>");
    assert_eq!(all[0].attr("id").as_deref(), Some("x"));
    assert_eq!(all[0].attr("nope"), None);
    assert!(all[0].outer_html().starts_with("<div"));
    let inner = all[0].select("b").unwrap();
    assert_eq!(inner.len(), 1);
    assert_eq!(inner[0].text(), "you");
    assert_eq!(doc.select_one("div.c").unwrap().unwrap().text(), "Hello you");
    assert!(doc.select_one("span").unwrap().is_none());
    assert!(doc.select("[[").unwrap_err().starts_with("invalid CSS selector '[[': "));
    assert!(all[0].select("[[").unwrap_err().starts_with("invalid CSS selector: "));
    assert_eq!(doc.text(), "Hello you2");
    assert!(doc.html().contains("<body>"));
}

#[test]
fn search_params_read_back_after_writes() {
    let mut p = UrlSearchParams::new(None);
    p.set("a", "1 & 2=3");
    p.append("b", "ç+%");
    p.append("a", "x");
    assert_eq!(p.get("a").as_deref(), Some("1 & 2=3"));
    assert_eq!(p.get_all("a"), vec!["1 & 2=3".to_string(), "x".to_string()]);
    assert_eq!(p.get("b").as_deref(), Some("ç+%"));
    p.set("a", "y");
    assert_eq!(p.get_all("a"), vec!["y".to_string()]);
    p.delete("b");
    assert!(!p.has("b"));
    assert_eq!(p.serialized(), "a=y");
    let q = UrlSearchParams::from_pairs(&pairs(&[("", ""), ("k", "")]));
    assert_eq!(q.entries(), pairs(&[("", ""), ("k", "")]));
}
