use hagitori::browser::CloudflareBypassOptions;
use hagitori::browser_api::script_bypass_options;
use hagitori::browser::{chrome_candidate, chrome_search_step, ChromeSearch};
use hagitori::browser::{
    build_matching_user_agent, chrome_path_from_which, cookie_header, default_user_agent,
    detect_chrome_version, is_cloudflare_challenge, jitter_sleep_ms, matches_any_pattern,
    CloudflareBypassResult, InterceptedResponse,
};
use hagitori::browser::{
    navigation_wait_ms, profile_choice, profile_lock_names, selector_probe_script, selector_wait_step,
    DefaultProfileDir, ProfileChoice, SelectorWait,
};
use hagitori::browser_api::{browser_stub_message, crypto_stub_message};
use hagitori::browser_api::{
    image_response_bytes, intercept_step, launch_options, post_body_of, response_body_value,
    reuse_browser, session_updates, status_code, wait_time_secs, BodyValue, InterceptAction,
    InterceptEvent, JsCloudflareResult, JsInterceptResult,
};
use hagitori::browser::InterceptedRequest;
use hagitori::cloudflare::{in_place_attempt, widget_search_step, WidgetSearch};
use hagitori::cloudflare::{turnstile_click_plan, ClickPoint, MouseEventKind};
use hagitori::error::BrowserError;
use hagitori::cloudflare::{
    bypass_after_click, bypass_start, bypass_step, cookie_poll_step, find_turnstile_iframe,
    BypassAction, CookiePoll, DomNode, MAX_CLICK_ATTEMPTS,
};

fn pairs(items: &[(&str, &str)]) -> Vec<(String, String)> {
    items.iter().map(|(k, v)| (k.to_string(), v.to_string())).collect()
}

#[test]
fn bypass_result_cf_clearance() {
    let result = CloudflareBypassResult {
        cookies: pairs(&[("cf_clearance", "token123")]),
        user_agent: "Chrome/131".into(),
    };
    assert!(result.has_cf_clearance());
}

#[test]
fn bypass_result_cookies_formatting() {
    let result = CloudflareBypassResult {
        cookies: pairs(&[("cf_clearance", "abc"), ("__cf_bm", "xyz")]),
        user_agent: "UA".into(),
    };
    let header = result.cookies_as_header();
    assert!(header.contains("cf_clearance=abc"));
    assert!(header.contains("__cf_bm=xyz"));

    let empty = CloudflareBypassResult { cookies: Vec::new(), user_agent: "UA".into() };
    assert!(empty.cookies_as_header().is_empty());

    let single = CloudflareBypassResult { cookies: pairs(&[("one", "1")]), user_agent: "UA".into() };
    assert_eq!(single.cookies_as_header(), "one=1");
}

#[test]
fn cloudflare_challenge_detection() {
    assert!(is_cloudflare_challenge("Just a moment..."));
    assert!(is_cloudflare_challenge("Just a moment"));
    assert!(is_cloudflare_challenge("Checking your browser before accessing"));
    assert!(is_cloudflare_challenge("Attention Required! | Cloudflare"));

    assert!(!is_cloudflare_challenge("MangaDex"));
    assert!(!is_cloudflare_challenge("Chapter 1 - My Manga"));
    assert!(!is_cloudflare_challenge(""));
}

#[test]
fn default_user_agent_is_valid() {
    for on_windows in [false, true] {
        let ua = default_user_agent(on_windows);
        assert!(!ua.is_empty());
        assert!(ua.contains("Chrome/"));
        assert!(!ua.contains("Headless"));
        assert!(ua.contains("Linux") || ua.contains("Windows"));
    }
}

#[test]
fn cookie_header_joins_in_order() {
    assert_eq!(cookie_header(&pairs(&[("a", "1"), ("b", "2"), ("c", "3")])), "a=1; b=2; c=3");
    assert_eq!(cookie_header(&Vec::new()), "");
}

#[test]
fn chrome_version_is_last_word_of_output() {
    assert_eq!(detect_chrome_version("Google Chrome 131.0.6778.85 \n"), Some("131.0.6778.85".to_string()));
    assert_eq!(detect_chrome_version("   "), None);
    assert_eq!(detect_chrome_version(""), None);
}

#[test]
fn which_output_gives_chrome_path() {
    assert_eq!(chrome_path_from_which(true, "/usr/bin/google-chrome\n"), Some("/usr/bin/google-chrome".to_string()));
    assert_eq!(chrome_path_from_which(true, "  \n"), None);
    assert_eq!(chrome_path_from_which(false, "/usr/bin/chromium"), None);
}

#[test]
fn matching_user_agent_uses_detected_version() {
    let ua = build_matching_user_agent(Some("131.0.6778.85".to_string()), false);
    assert_eq!(
        ua,
        "Mozilla/5.0 (X11; Linux x86_64) AppleWebKit/537.36 (KHTML, like Gecko) Chrome/131.0.6778.85 Safari/537.36"
    );
    let ua = build_matching_user_agent(Some("131".to_string()), true);
    assert!(ua.contains("Windows NT 10.0"));
    assert!(ua.contains("Chrome/131.0.0.0 Safari"));
    let fallback = build_matching_user_agent(None, false);
    assert!(fallback.contains("Chrome/145.0.0.0"));
    assert_eq!(fallback, default_user_agent(false));
}

#[test]
fn pattern_matching_is_substring() {
    let pats = vec!["/api/".to_string(), "chapter".to_string()];
    assert!(matches_any_pattern("https://x.com/api/v1", &pats));
    assert!(matches_any_pattern("https://x.com/chapter/2", &pats));
    assert!(!matches_any_pattern("https://x.com/home", &pats));
    assert!(!matches_any_pattern("https://x.com/api/", &Vec::new()));
}

#[test]
fn jitter_stays_in_range() {
    assert_eq!(jitter_sleep_ms(50, 120, 0), 50);
    assert_eq!(jitter_sleep_ms(50, 120, 75), 55);
    for n in [1u64, 69, 70, 1_000_000_007] {
        let r = jitter_sleep_ms(50, 120, n);
        assert!((50..120).contains(&r));
    }
}

#[test]
fn bypass_state_machine_flow() {
    let s = bypass_start();
    let (s, a) = bypass_step(s, false, "Just a moment...", true, 90);
    assert_eq!(a, BypassAction::TryClick);
    let s = bypass_after_click(s, true);
    assert_eq!(s.click_count, 1);
    let (_, a) = bypass_step(s, false, "My Manga", true, 90);
    assert_eq!(a, BypassAction::ExtractCookies);
    let (_, a) = bypass_step(bypass_start(), false, "Just a moment...", false, 90);
    assert_eq!(a, BypassAction::Wait);
    let (seen, _) = bypass_step(bypass_start(), false, "Just a moment...", false, 90);
    assert_eq!(bypass_step(bypass_start(), true, "Just a moment...", false, 90).1, BypassAction::ExtractCookies);
    match bypass_step(seen, true, "Just a moment...", false, 90).1 {
        BypassAction::Fail(m) => assert_eq!(
            m,
            "cloudflare bypass timeout after 90s   challenge was not solved. hint: use autoClick: true to automatically click the Turnstile."
        ),
        other => panic!("expected a failure, got {:?}", other),
    }
}

#[test]
fn bypass_stops_clicking_after_limit() {
    let mut s = bypass_start();
    for _ in 0..(MAX_CLICK_ATTEMPTS + 3) {
        let (next, a) = bypass_step(s, false, "Just a moment...", true, 90);
        s = if a == BypassAction::TryClick { bypass_after_click(next, true) } else { next };
        assert!(s.click_count <= MAX_CLICK_ATTEMPTS);
    }
    assert_eq!(s.click_count, MAX_CLICK_ATTEMPTS);
}

#[test]
fn clearance_cookie_poll() {
    assert_eq!(cookie_poll_step(&pairs(&[("cf_clearance", "x")]), true), CookiePoll::Found);
    assert_eq!(cookie_poll_step(&pairs(&[("other", "x")]), true), CookiePoll::GiveUp);
    assert_eq!(cookie_poll_step(&Vec::new(), false), CookiePoll::Retry);
}

fn node(id: i64, name: &str, attrs: Option<Vec<&str>>, children: Option<Vec<DomNode>>) -> DomNode {
    DomNode {
        node_id: id,
        node_name: name.to_string(),
        attributes: attrs.map(|a| a.into_iter().map(|s| s.to_string()).collect()),
        shadow_roots: None,
        children,
        content_document: None,
    }
}

#[test]
fn turnstile_iframe_is_found_in_tree() {
    let frame = node(7, "IFRAME", Some(vec!["id", "x", "src", "https://challenges.cloudflare.com/t"]), None);
    let other = node(5, "IFRAME", Some(vec!["src", "https://ads.example"]), None);
    let root = node(1, "HTML", None, Some(vec![node(2, "BODY", None, Some(vec![other, frame]))]));
    assert_eq!(find_turnstile_iframe(&root), Some(7));
    let plain = node(1, "HTML", None, Some(vec![node(3, "DIV", Some(vec!["src", "turnstile"]), None)]));
    assert_eq!(find_turnstile_iframe(&plain), None);
}

#[test]
fn script_browser_options() {
    assert_eq!(wait_time_secs(None), 30);
    assert_eq!(wait_time_secs(Some(0)), 1);
    assert_eq!(wait_time_secs(Some(-5)), 1);
    assert_eq!(wait_time_secs(Some(12)), 12);
    let o = launch_options(true);
    assert!(o.headless);
    assert_eq!((o.window_width, o.window_height), (1920, 1080));
    let o = launch_options(false);
    assert_eq!((o.window_width, o.window_height), (1280, 800));
    assert!(reuse_browser(Some(true), true));
    assert!(!reuse_browser(Some(true), false));
    assert!(reuse_browser(Some(false), true));
    assert!(reuse_browser(Some(false), false));
    assert!(!reuse_browser(None, true));
}

#[test]
fn interception_loop_decisions() {
    let reqs = vec!["/api/".to_string()];
    let resps = vec!["/img/".to_string()];
    let (a, armed) = intercept_step(false, &InterceptEvent::IdleTimeout, &reqs, &resps);
    assert_eq!((a, armed), (InterceptAction::Ignore, false));
    let (a, armed) = intercept_step(false, &InterceptEvent::Request("https://x/api/1".into()), &reqs, &resps);
    assert_eq!((a, armed), (InterceptAction::CaptureRequest, true));
    let (a, _) = intercept_step(true, &InterceptEvent::Response("https://x/api/1".into()), &reqs, &resps);
    assert_eq!(a, InterceptAction::Ignore);
    let (a, _) = intercept_step(true, &InterceptEvent::Response("https://x/img/1".into()), &reqs, &resps);
    assert_eq!(a, InterceptAction::CaptureResponse);
    let (a, _) = intercept_step(true, &InterceptEvent::IdleTimeout, &reqs, &resps);
    assert_eq!(a, InterceptAction::Stop);
    let (a, _) = intercept_step(false, &InterceptEvent::HardTimeout, &reqs, &resps);
    assert_eq!(a, InterceptAction::Stop);
    assert_eq!(status_code(200), 200);
    assert_eq!(status_code(-1), 0);
    assert_eq!(status_code(70000), 0);
}

#[test]
fn post_body_decodes_entries() {
    let entries = vec![Some("YT0xJmI9Mg==".to_string()), None, Some("not base64!".to_string())];
    assert_eq!(post_body_of(Some(&entries)), Some("a=1&b=2not base64!".to_string()));
    assert_eq!(post_body_of(Some(&Vec::new())), None);
    assert_eq!(post_body_of(None), None);
    let invalid_utf8 = vec![Some("/w==".to_string())];
    assert_eq!(post_body_of(Some(&invalid_utf8)), Some("/w==".to_string()));
}

#[test]
fn image_bytes_from_responses() {
    assert_eq!(image_response_bytes(200, "aGk=", true), Some(b"hi".to_vec()));
    assert_eq!(image_response_bytes(404, "aGk=", true), None);
    assert_eq!(image_response_bytes(200, "***", true), None);
    assert_eq!(image_response_bytes(200, "raw", false), Some(b"raw".to_vec()));
    assert_eq!(image_response_bytes(200, "", false), None);
}

#[test]
fn captured_bodies_for_scripts() {
    let resp = |body: &str, b64: bool| InterceptedResponse {
        url: "u".into(),
        status: 200,
        body: body.into(),
        base64_encoded: b64,
        headers: Vec::new(),
    };
    assert!(matches!(response_body_value(&resp("{\"a\":1}", false)), BodyValue::Json(t) if t == "{\"a\":1}"));
    assert!(matches!(response_body_value(&resp("hello", false)), BodyValue::Text(t) if t == "hello"));
    assert!(matches!(response_body_value(&resp("eyJhIjoxfQ==", true)), BodyValue::Json(t) if t == "{\"a\":1}"));
    assert!(matches!(response_body_value(&resp("%%%", true)), BodyValue::Text(t) if t == "%%%"));
}

#[test]
fn bypass_result_for_scripts() {
    let r = CloudflareBypassResult { cookies: pairs(&[("cf_clearance", "t"), ("x", "y")]), user_agent: "UA/1".into() };
    let j = JsCloudflareResult::from_result(&r);
    assert!(j.has_cf_clearance());
    assert_eq!(j.user_agent(), "UA/1");
    assert_eq!(j.cookie_header(), "cf_clearance=t; x=y");
    assert_eq!(j.cookies(), r.cookies);
    let (c, u) = session_updates("https://www.site.com/a", &r);
    assert_eq!(c, Some(("www.site.com".to_string(), r.cookies.clone())));
    assert_eq!(u, Some(("www.site.com".to_string(), "UA/1".to_string())));
    let empty = CloudflareBypassResult { cookies: Vec::new(), user_agent: String::new() };
    assert_eq!(session_updates("https://www.site.com/a", &empty), (None, None));
    assert_eq!(session_updates("not a url", &r), (None, None));
}

#[test]
fn profiles_and_navigation() {
    let mut d = DefaultProfileDir::new();
    assert_eq!(d.get_default_profile_dir(), None);
    d.set_default_profile_dir("/p1");
    d.set_default_profile_dir("/p2");
    assert_eq!(d.get_default_profile_dir().as_deref(), Some("/p1"));
    assert_eq!(profile_choice(Some("/c".into()), Some("/d".into())), ProfileChoice::Configured("/c".into()));
    assert_eq!(profile_choice(None, Some("/d".into())), ProfileChoice::Default("/d".into()));
    assert_eq!(profile_choice(None, None), ProfileChoice::TemporaryFallback);
    assert_eq!(profile_lock_names(), vec!["SingletonLock", "SingletonCookie", "SingletonSocket"]);
    assert_eq!(selector_probe_script("a[href='x']"), "document.querySelector('a[href=\\'x\\']') !== null");
    assert_eq!(navigation_wait_ms(None, true), 10_000);
    assert_eq!(navigation_wait_ms(None, false), 2000);
    assert_eq!(navigation_wait_ms(Some(5), true), 5);
    assert_eq!(selector_wait_step(10, 100, true, "#x", "u"), SelectorWait::Found);
    assert_eq!(selector_wait_step(10, 100, false, "#x", "u"), SelectorWait::Poll);
    assert_eq!(
        selector_wait_step(100, 100, true, "#x", "https://s"),
        SelectorWait::TimedOut("timeout waiting for selector '#x' on https://s".into())
    );
}

#[test]
fn stub_messages() {
    assert_eq!(browser_stub_message("intercept"), "browser.intercept: extension does not have 'browser' capability enabled");
    assert_eq!(crypto_stub_message(), "extension does not have 'crypto' feature enabled");
}

#[test]
fn intercept_result_lists_keep_order() {
    let req = |u: &str| InterceptedRequest {
        url: u.to_string(),
        method: "GET".to_string(),
        post_body: None,
        headers: vec![("accept".to_string(), "*/*".to_string())],
        resource_type: Some("XHR".to_string()),
    };
    let resp = InterceptedResponse {
        url: "https://a.example/api".to_string(),
        status: 200,
        body: "{}".to_string(),
        base64_encoded: false,
        headers: Vec::new(),
    };
    let result = JsInterceptResult { captured_requests: vec![req("https://a.example/1"), req("https://a.example/2")], captured_responses: vec![resp] };
    let requests = result.requests();
    assert_eq!(requests.len(), 2);
    assert_eq!(requests[0].url, "https://a.example/1");
    assert_eq!(requests[1].url, "https://a.example/2");
    assert_eq!(requests[1].headers, vec![("accept".to_string(), "*/*".to_string())]);
    let responses = result.responses();
    assert_eq!(responses.len(), 1);
    assert_eq!(responses[0].status, 200);
    assert_eq!(responses[0].body, "{}");
}

#[test]
fn browser_error_messages() {
    assert_eq!(BrowserError::ChromeNotFound.message(), "chrome/chromium not found on the system");
    assert_eq!(BrowserError::ProfileCreation("locked".into()).message(), "failed to create profile: locked");
    assert_eq!(BrowserError::ConfigBuild("bad".into()).message(), "configuration error: bad");
    assert_eq!(BrowserError::Interaction("no page".into()).message(), "interaction error: no page");
    assert_eq!(BrowserError::CloudflareTimeout("too slow".into()).message(), "too slow");
    assert_eq!(BrowserError::UnsupportedPlatform("android".into()).message(), "unsupported platform: android");
    let url_err = BrowserError::from(url::Url::parse("no scheme").unwrap_err());
    assert!(url_err.message().starts_with("invalid URL: "));
}

#[test]
fn in_place_solve_attempts() {
    assert!(in_place_attempt(0, false).is_ok());
    assert!(in_place_attempt(MAX_CLICK_ATTEMPTS - 1, false).is_ok());
    match in_place_attempt(3, true) {
        Err(BrowserError::CloudflareTimeout(m)) => assert_eq!(m, "cloudflare in-place solve timed out"),
        _ => panic!("expected a timeout"),
    }
    match in_place_attempt(MAX_CLICK_ATTEMPTS, false) {
        Err(BrowserError::CloudflareTimeout(m)) => assert_eq!(m, "cloudflare in-place solve: max click attempts reached"),
        _ => panic!("expected the attempts to be spent"),
    }
    match in_place_attempt(MAX_CLICK_ATTEMPTS, true) {
        Err(BrowserError::CloudflareTimeout(m)) => assert_eq!(m, "cloudflare in-place solve: max click attempts reached"),
        _ => panic!("expected the attempts to be spent"),
    }
    assert_eq!(widget_search_step(true, true), WidgetSearch::GiveUp);
    assert_eq!(widget_search_step(false, true), WidgetSearch::Clicked);
    assert_eq!(widget_search_step(false, false), WidgetSearch::Retry);
}

#[test]
fn user_agent_from_sample_version_output() {
    let version = detect_chrome_version("Chromium 137.0.7151.68\n");
    assert_eq!(version.as_deref(), Some("137.0.7151.68"));
    let ua = build_matching_user_agent(version, false);
    assert_eq!(
        ua,
        "Mozilla/5.0 (X11; Linux x86_64) AppleWebKit/537.36 (KHTML, like Gecko) Chrome/137.0.7151.68 Safari/537.36"
    );
}

#[test]
fn chrome_candidates_tried_in_order() {
    assert_eq!(chrome_candidate(0), Some("google-chrome-stable"));
    assert_eq!(chrome_candidate(3), Some("chromium"));
    assert_eq!(chrome_candidate(4), None);
    assert_eq!(chrome_search_step(0, false, ""), ChromeSearch::Next(1));
    assert_eq!(chrome_search_step(1, true, "  \n"), ChromeSearch::Next(2));
    assert_eq!(chrome_search_step(2, true, "/usr/bin/chromium-browser\n"), ChromeSearch::Found("/usr/bin/chromium-browser".into()));
    assert_eq!(chrome_search_step(3, false, "/x"), ChromeSearch::NotFound);
}

#[test]
fn bypass_result_keeps_each_cookie_once() {
    let raw = vec![
        ("a".to_string(), "1".to_string()),
        ("cf_clearance".to_string(), "old".to_string()),
        ("a".to_string(), "2".to_string()),
        ("cf_clearance".to_string(), "new".to_string()),
    ];
    let r = CloudflareBypassResult::new(&raw, "UA".to_string());
    assert_eq!(r.cookies, vec![("a".to_string(), "2".to_string()), ("cf_clearance".to_string(), "new".to_string())]);
    assert_eq!(r.user_agent, "UA");
    assert!(r.has_cf_clearance());
}

#[test]
fn bypass_timeout_follows_the_options() {
    let o = script_bypass_options(None, None);
    assert!(o.auto_click);
    assert_eq!(o.timeout_secs, 60);
    let o = script_bypass_options(Some(false), Some(15));
    assert!(!o.auto_click);
    assert_eq!(o.timeout_secs, 15);
    assert_eq!(CloudflareBypassOptions::default().timeout_secs, 90);
    let (seen, _) = bypass_step(bypass_start(), false, "Just a moment...", true, 15);
    match bypass_step(seen, true, "Just a moment...", true, 15).1 {
        BypassAction::Fail(m) => assert_eq!(
            m,
            "cloudflare bypass timeout after 15s   challenge was not solved. auto-click was active but couldn't solve it."
        ),
        other => panic!("expected a failure, got {:?}", other),
    }
}

#[test]
fn persistent_challenge_ends_in_timeout() {
    let mut state = bypass_start();
    let (next, action) = bypass_step(state, false, "Just a moment...", true, 90);
    state = next;
    assert_eq!(action, BypassAction::TryClick);
    state = bypass_after_click(state, true);
    let (next, action) = bypass_step(state, false, "Just a moment...", true, 90);
    state = next;
    assert_eq!(action, BypassAction::TryClick);
    let (_, action) = bypass_step(state, true, "", true, 90);
    assert!(matches!(action, BypassAction::Fail(_)));
}

#[test]
fn no_clearance_cookie_times_out_without_challenge() {
    let (_, action) = bypass_step(bypass_start(), false, "Home", false, 90);
    assert_eq!(action, BypassAction::ExtractCookies);
    let cookies = pairs(&[("session", "1")]);
    assert_eq!(cookie_poll_step(&cookies, false), CookiePoll::Retry);
    assert_eq!(cookie_poll_step(&cookies, true), CookiePoll::GiveUp);
}

#[test]
fn interception_keeps_matches_in_order() {
    let rp = vec!["/api/".to_string()];
    let sp: Vec<String> = Vec::new();
    let events = vec![
        InterceptEvent::IdleTimeout,
        InterceptEvent::Request("https://s/api/a".to_string()),
        InterceptEvent::Request("https://s/img.png".to_string()),
        InterceptEvent::Response("https://s/api/a".to_string()),
        InterceptEvent::Request("https://s/api/b".to_string()),
        InterceptEvent::IdleTimeout,
        InterceptEvent::Request("https://s/api/c".to_string()),
    ];
    let mut armed = false;
    let mut requests = Vec::new();
    let mut responses: Vec<String> = Vec::new();
    for event in &events {
        let (action, next) = intercept_step(armed, event, &rp, &sp);
        armed = next;
        match (action, event) {
            (InterceptAction::Stop, _) => break,
            (InterceptAction::CaptureRequest, InterceptEvent::Request(u)) => requests.push(u.clone()),
            (InterceptAction::CaptureResponse, InterceptEvent::Response(u)) => responses.push(u.clone()),
            _ => {},
        }
    }
    assert_eq!(requests, vec!["https://s/api/a".to_string(), "https://s/api/b".to_string()]);
    assert!(responses.is_empty());
}

#[test]
fn turnstile_click_is_three_moves_then_press_and_release() {
    let frame = DomNode {
        node_id: 42,
        node_name: "IFRAME".to_string(),
        attributes: Some(vec!["src".to_string(), "https://challenges.cloudflare.com/x".to_string()]),
        shadow_roots: None,
        children: None,
        content_document: None,
    };
    let root = DomNode {
        node_id: 1,
        node_name: "#document".to_string(),
        attributes: None,
        shadow_roots: None,
        children: Some(vec![frame]),
        content_document: None,
    };
    let (id, steps) = turnstile_click_plan(&root).unwrap();
    assert_eq!(id, 42);
    let kinds: Vec<MouseEventKind> = steps.iter().map(|s| s.kind).collect();
    assert_eq!(
        kinds,
        vec![
            MouseEventKind::Moved,
            MouseEventKind::Moved,
            MouseEventKind::Moved,
            MouseEventKind::Pressed,
            MouseEventKind::Released
        ]
    );
    assert_eq!(steps[3].point, ClickPoint::Target);
    assert_eq!(steps[4].point, ClickPoint::Target);
    assert!(steps[3].left_button && steps[4].left_button);
    let empty = DomNode {
        node_id: 1,
        node_name: "#document".to_string(),
        attributes: None,
        shadow_roots: None,
        children: None,
        content_document: None,
    };
    assert!(turnstile_click_plan(&empty).is_none());
}
