//! Browser-side logic: challenge detection, cookie headers, user agents,
//! launch options and the decision procedure of the challenge bypass.

use vstd::prelude::*;
use crate::fetch::{keep_last, last_wins, unique_names};
use crate::search_params::pair_views;
use crate::text::{push_char, 
    all_ascii, chars_of, contains, is_ws, join, join_chars, push_str, str_contains, str_eq, string_of,
    string_of_range, trim, trim_bounds, trim_end,
};

verus! {

// ─── bypass options and result ────────────────────────────────────────────

/// Seconds a bypass waits for the challenge to clear unless told
/// otherwise.
pub const DEFAULT_BYPASS_TIMEOUT_SECS: u64 = 90;

/// Options of a challenge bypass.
#[derive(Debug, Clone)]
pub struct CloudflareBypassOptions {
    /// Click the Turnstile checkbox automatically.
    pub auto_click: bool,
    /// Seconds to wait for the challenge to clear.
    pub timeout_secs: u64,
}

impl Default for CloudflareBypassOptions {
    fn default() -> (o: Self)
        ensures
            !o.auto_click,
            o.timeout_secs == DEFAULT_BYPASS_TIMEOUT_SECS,
    {
        CloudflareBypassOptions { auto_click: false, timeout_secs: DEFAULT_BYPASS_TIMEOUT_SECS }
    }
}

/// Cookies and user agent obtained from a solved challenge.
#[derive(Debug, Clone)]
pub struct CloudflareBypassResult {
    /// Cookie name and value pairs.
    pub cookies: Vec<(String, String)>,
    pub user_agent: String,
}

/// `name=value` text of one cookie.
pub open spec fn cookie_text(c: (String, String)) -> Seq<char> {
    c.0@ + seq!['='] + c.1@
}

/// The `Cookie` header value: every `name=value` pair, separated by `; `.
pub open spec fn cookie_header_of(cookies: Seq<(String, String)>) -> Seq<char> {
    join(Seq::new(cookies.len(), |i: int| cookie_text(cookies[i])), seq![';', ' '])
}

/// Some cookie is named `name`.
pub open spec fn has_cookie(cookies: Seq<(String, String)>, name: Seq<char>) -> bool {
    exists|i: int| 0 <= i < cookies.len() && (#[trigger] cookies[i]).0@ == name
}

/// Whether some cookie pair is named `name`.
pub fn cookies_contain(cookies: &Vec<(String, String)>, name: &str) -> (b: bool)
    ensures
        b == has_cookie(cookies@, name@),
{
    let mut i: usize = 0;
    while i < cookies.len()
        invariant
            i <= cookies.len(),
            forall|j: int| 0 <= j < i ==> (#[trigger] cookies@[j]).0@ != name@,
        decreases cookies.len() - i,
    {
        if str_eq(cookies[i].0.as_str(), name) {
            return true;
        }
        i = i + 1;
    }
    false
}

/// Renders cookie pairs as a `Cookie` header value.
pub fn cookie_header(cookies: &Vec<(String, String)>) -> (r: String)
    ensures
        r@ == cookie_header_of(cookies@),
{
    let mut parts: Vec<Vec<char>> = Vec::new();
    let mut i: usize = 0;
    while i < cookies.len()
        invariant
            i <= cookies.len(),
            parts@.len() == i,
            forall|k: int| 0 <= k < i ==> (#[trigger] parts@[k])@ == cookie_text(cookies@[k]),
        decreases cookies.len() - i,
    {
        let mut p = chars_of(cookies[i].0.as_str());
        p.push('=');
        let v = chars_of(cookies[i].1.as_str());
        let mut k: usize = 0;
        let ghost p0 = p@;
        while k < v.len()
            invariant
                k <= v.len(),
                p@ == p0 + v@.take(k as int),
            decreases v.len() - k,
        {
            p.push(v[k]);
            assert(v@.take(k + 1) =~= v@.take(k as int).push(v@[k as int]));
            k = k + 1;
        }
        assert(v@.take(v@.len() as int) =~= v@);
        assert(p@ =~= cookie_text(cookies@[i as int]));
        parts.push(p);
        i = i + 1;
    }
    let sep: Vec<char> = vec![';', ' '];
    let j = join_chars(&parts, &sep);
    assert(Seq::new(parts@.len(), |k: int| parts@[k]@) =~= Seq::new(
        cookies@.len(),
        |k: int| cookie_text(cookies@[k]),
    ));
    assert(sep@ =~= seq![';', ' ']);
    string_of(&j)
}

impl CloudflareBypassResult {
    /// The result for the cookies a page reported (each name kept once,
    /// with the value it was last reported with) and a user agent.
    pub fn new(cookies: &Vec<(String, String)>, user_agent: String) -> (r: Self)
        ensures
            pair_views(r.cookies@) == last_wins(pair_views(cookies@)),
            unique_names(pair_views(r.cookies@)),
            r.user_agent == user_agent,
    {
        CloudflareBypassResult { cookies: keep_last(cookies), user_agent }
    }

    /// A `cf_clearance` cookie was obtained.
    pub fn has_cf_clearance(&self) -> (b: bool)
        ensures
            b == has_cookie(self.cookies@, "cf_clearance"@),
    {
        cookies_contain(&self.cookies, "cf_clearance")
    }

    /// The cookies as a `Cookie` header value (`a=1; b=2`).
    pub fn cookies_as_header(&self) -> (r: String)
        ensures
            r@ == cookie_header_of(self.cookies@),
    {
        cookie_header(&self.cookies)
    }
}

// ─── challenge detection ──────────────────────────────────────────────────

/// Page titles shown while a challenge is pending.
pub open spec fn challenge_titles() -> Seq<Seq<char>> {
    seq![
        "Just a moment"@,
        "Checking your browser"@,
        "Attention Required"@,
        "Please Wait"@,
        "Um momento"@,
    ]
}

/// The title contains one of the challenge titles.
pub open spec fn is_challenge_title(title: Seq<char>) -> bool {
    exists|k: int| 0 <= k < 5 && contains(title, #[trigger] challenge_titles()[k])
}

/// A title shows a challenge exactly when it contains one of "Just a
/// moment", "Checking your browser", "Attention Required", "Please Wait"
/// or "Um momento".
pub proof fn lemma_challenge_title_cases(title: Seq<char>)
    ensures
        is_challenge_title(title) <==> (contains(title, "Just a moment"@) || contains(title, "Checking your browser"@)
            || contains(title, "Attention Required"@) || contains(title, "Please Wait"@) || contains(
            title,
            "Um momento"@,
        )),
{
    let t = challenge_titles();
    assert(t[0] == "Just a moment"@);
    assert(t[1] == "Checking your browser"@);
    assert(t[2] == "Attention Required"@);
    assert(t[3] == "Please Wait"@);
    assert(t[4] == "Um momento"@);
    if is_challenge_title(title) {
        let k = choose|k: int| 0 <= k < 5 && contains(title, #[trigger] challenge_titles()[k]);
        assert(k == 0 || k == 1 || k == 2 || k == 3 || k == 4);
    }
}

fn challenge_title(k: usize) -> (t: &'static str)
    requires
        k < 5,
    ensures
        t@ == challenge_titles()[k as int],
{
    match k {
        0 => "Just a moment",
        1 => "Checking your browser",
        2 => "Attention Required",
        3 => "Please Wait",
        _ => "Um momento",
    }
}

/// Whether a page title shows that a challenge is pending.
pub fn is_cloudflare_challenge(title: &str) -> (b: bool)
    ensures
        b == is_challenge_title(title@),
{
    let mut k: usize = 0;
    while k < 5
        invariant
            k <= 5,
            forall|j: int| 0 <= j < k ==> !contains(title@, #[trigger] challenge_titles()[j]),
        decreases 5 - k,
    {
        if str_contains(title, challenge_title(k)) {
            return true;
        }
        k = k + 1;
    }
    false
}

// ─── chrome version and user agent ───────────────────────────────────────

/// The longest suffix of `t` free of whitespace.
pub open spec fn word_suffix(t: Seq<char>) -> Seq<char>
    decreases t.len(),
{
    if t.len() > 0 && !is_ws(t.last()) {
        word_suffix(t.drop_last()).push(t.last())
    } else {
        Seq::empty()
    }
}

/// The last whitespace-separated word of `s` (`split_whitespace().last()`).
pub open spec fn last_word(s: Seq<char>) -> Option<Seq<char>> {
    let t = trim_end(s);
    if t.len() == 0 {
        None
    } else {
        Some(word_suffix(t))
    }
}

/// The last whitespace-separated word of `s`.
pub fn last_word_of(s: &str) -> (r: Option<String>)
    ensures
        r matches Some(w) ==> last_word(s@) == Some(w@),
        r is None <==> last_word(s@) is None,
{
    let v = chars_of(s);
    let mut j: usize = v.len();
    assert(v@.subrange(0, j as int) =~= v@);
    while j > 0 && crate::text::is_whitespace(v[j - 1])
        invariant
            j <= v.len(),
            trim_end(v@) == trim_end(v@.subrange(0, j as int)),
        decreases j,
    {
        assert(v@.subrange(0, j as int).drop_last() =~= v@.subrange(0, j - 1));
        j = j - 1;
    }
    let ghost t = v@.subrange(0, j as int);
    assert(trim_end(t) == t);
    if j == 0 {
        return None;
    }
    let mut k: usize = j;
    while k > 0 && !crate::text::is_whitespace(v[k - 1])
        invariant
            k <= j <= v.len(),
            t == v@.subrange(0, j as int),
            word_suffix(t) == word_suffix(v@.subrange(0, k as int)) + v@.subrange(k as int, j as int),
        decreases k,
    {
        let ghost pre = v@.subrange(0, k as int);
        assert(pre.drop_last() =~= v@.subrange(0, k - 1));
        assert(word_suffix(pre) == word_suffix(v@.subrange(0, k - 1)).push(v@[k - 1]));
        assert(v@.subrange(k - 1, j as int) =~= seq![v@[k - 1]] + v@.subrange(k as int, j as int));
        assert(word_suffix(v@.subrange(0, k - 1)).push(v@[k - 1]) + v@.subrange(k as int, j as int)
            =~= word_suffix(v@.subrange(0, k - 1)) + v@.subrange(k - 1, j as int));
        k = k - 1;
    }
    assert(word_suffix(v@.subrange(0, k as int)) =~= Seq::<char>::empty());
    assert(word_suffix(t) =~= v@.subrange(k as int, j as int));
    Some(string_of_range(&v, k, j))
}

/// The Chrome version in the output of `chrome --version`
/// (`"Google Chrome 137.0.7151.68"` gives `"137.0.7151.68"`): its last word.
pub fn detect_chrome_version(version_output: &str) -> (r: Option<String>)
    ensures
        r matches Some(w) ==> last_word(version_output@) == Some(w@),
        r is None <==> last_word(version_output@) is None,
{
    last_word_of(version_output)
}

/// The Chrome path reported by a successful `which`: its trimmed output,
/// when not empty.
pub fn chrome_path_from_which(succeeded: bool, output: &str) -> (r: Option<String>)
    ensures
        r matches Some(p) ==> succeeded && p@ == trim(output@) && p@.len() > 0,
        r is None <==> !succeeded || trim(output@).len() == 0,
{
    if !succeeded {
        return None;
    }
    let v = chars_of(output);
    let (a, b) = trim_bounds(&v);
    if a == b {
        return None;
    }
    Some(string_of_range(&v, a, b))
}

/// The Chrome and Chromium binaries looked for on Linux, in order.
pub open spec fn chrome_candidates() -> Seq<Seq<char>> {
    seq!["google-chrome-stable"@, "google-chrome"@, "chromium-browser"@, "chromium"@]
}

/// The `k`-th binary to look for, if any is left.
pub fn chrome_candidate(k: usize) -> (r: Option<&'static str>)
    ensures
        k < chrome_candidates().len() ==> (r matches Some(c) && c@ == chrome_candidates()[k as int]),
        k >= chrome_candidates().len() ==> r is None,
{
    match k {
        0 => Some("google-chrome-stable"),
        1 => Some("google-chrome"),
        2 => Some("chromium-browser"),
        3 => Some("chromium"),
        _ => None,
    }
}

/// Where the search for Chrome stands after looking up one candidate.
#[derive(Debug, Clone, PartialEq, Eq)]
pub enum ChromeSearch {
    /// This candidate is installed here: stop.
    Found(String),
    /// Look up the candidate with this index next.
    Next(usize),
    /// No candidate is installed.
    NotFound,
}

/// Decides the search for Chrome after `which` was run for candidate `k`:
/// the first candidate whose lookup succeeds with a non-empty path wins;
/// otherwise the next one is tried, until none is left.
pub fn chrome_search_step(k: usize, succeeded: bool, output: &str) -> (r: ChromeSearch)
    requires
        k < chrome_candidates().len(),
    ensures
        succeeded && trim(output@).len() > 0 ==> (r matches ChromeSearch::Found(p) && p@ == trim(output@)),
        !(succeeded && trim(output@).len() > 0) && k + 1 < chrome_candidates().len() ==> r
            == ChromeSearch::Next((k + 1) as usize),
        !(succeeded && trim(output@).len() > 0) && k + 1 >= chrome_candidates().len() ==> r
            == ChromeSearch::NotFound,
{
    match chrome_path_from_which(succeeded, output) {
        Some(p) => ChromeSearch::Found(p),
        None => if k + 1 < 4 {
            ChromeSearch::Next(k + 1)
        } else {
            ChromeSearch::NotFound
        },
    }
}

/// Version used in the user agent: the detected one, completed to
/// `major.0.0.0` when it has no dot; `145.0.0.0` when none was detected.
pub open spec fn ua_version(detected: Option<Seq<char>>) -> Seq<char> {
    match detected {
        Some(v) => if contains(v, seq!['.']) { v } else { v + ".0.0.0"@ },
        None => "145.0.0.0"@,
    }
}

/// Platform part of the user agent.
pub open spec fn ua_platform(on_windows: bool) -> Seq<char> {
    if on_windows {
        "Mozilla/5.0 (Windows NT 10.0; Win64; x64) AppleWebKit/537.36 (KHTML, like Gecko) Chrome/"@
    } else {
        "Mozilla/5.0 (X11; Linux x86_64) AppleWebKit/537.36 (KHTML, like Gecko) Chrome/"@
    }
}

/// A desktop Chrome user agent naming `version`.
pub open spec fn user_agent_for(on_windows: bool, version: Seq<char>) -> Seq<char> {
    ua_platform(on_windows) + version + " Safari/537.36"@
}

/// Builds a user agent that matches the installed Chrome, given the version
/// that `detect_chrome_version` found (if any).
pub fn build_matching_user_agent(detected_version: Option<String>, on_windows: bool) -> (r: String)
    ensures
        r@ == user_agent_for(on_windows, ua_version(match detected_version {
            Some(v) => Some(v@),
            None => None,
        })),
{
    let mut r = String::new();
    if on_windows {
        push_str(&mut r, "Mozilla/5.0 (Windows NT 10.0; Win64; x64) AppleWebKit/537.36 (KHTML, like Gecko) Chrome/");
    } else {
        push_str(&mut r, "Mozilla/5.0 (X11; Linux x86_64) AppleWebKit/537.36 (KHTML, like Gecko) Chrome/");
    }
    match detected_version {
        Some(v) => {
            push_str(&mut r, v.as_str());
            let dot: Vec<char> = vec!['.'];
            let vc = chars_of(v.as_str());
            let has_dot = crate::text::contains_chars(&vc, &dot);
            assert(dot@ =~= seq!['.']);
            if !has_dot {
                push_str(&mut r, ".0.0.0");
            }
        },
        None => {
            push_str(&mut r, "145.0.0.0");
        },
    }
    push_str(&mut r, " Safari/537.36");
    r
}

/// The user agent used when the installed Chrome version is unknown.
pub fn default_user_agent(on_windows: bool) -> (r: &'static str)
    ensures
        r@ == if on_windows {
            "Mozilla/5.0 (Windows NT 10.0; Win64; x64) AppleWebKit/537.36 (KHTML, like Gecko) Chrome/145.0.0.0 Safari/537.36"@
        } else {
            "Mozilla/5.0 (X11; Linux x86_64) AppleWebKit/537.36 (KHTML, like Gecko) Chrome/145.0.0.0 Safari/537.36"@
        },
{
    if on_windows {
        "Mozilla/5.0 (Windows NT 10.0; Win64; x64) AppleWebKit/537.36 (KHTML, like Gecko) Chrome/145.0.0.0 Safari/537.36"
    } else {
        "Mozilla/5.0 (X11; Linux x86_64) AppleWebKit/537.36 (KHTML, like Gecko) Chrome/145.0.0.0 Safari/537.36"
    }
}

// ─── launch options and intercepted traffic ──────────────────────────────

/// How a browser is launched.
#[derive(Debug, Clone)]
pub struct BrowserOptions {
    pub headless: bool,
    pub user_agent: Option<String>,
    pub window_width: u32,
    pub window_height: u32,
    /// Profile directory; a temporary one when absent.
    pub user_data_dir: Option<String>,
    pub extra_args: Vec<String>,
    /// Header name/value pairs sent with every request.
    pub extra_headers: Vec<(String, String)>,
}

impl Default for BrowserOptions {
    fn default() -> (o: Self)
        ensures
            o.headless,
            o.user_agent is None,
            o.window_width == 1280,
            o.window_height == 720,
            o.user_data_dir is None,
            o.extra_args@.len() == 0,
            o.extra_headers@.len() == 0,
    {
        BrowserOptions {
            headless: true,
            user_agent: None,
            window_width: 1280,
            window_height: 720,
            user_data_dir: None,
            extra_args: Vec::new(),
            extra_headers: Vec::new(),
        }
    }
}

/// An HTTP request seen while a page loaded.
#[derive(Debug, Clone)]
pub struct InterceptedRequest {
    pub url: String,
    pub method: String,
    pub post_body: Option<String>,
    pub headers: Vec<(String, String)>,
    pub resource_type: Option<String>,
}

/// An HTTP response seen while a page loaded.
#[derive(Debug, Clone)]
pub struct InterceptedResponse {
    pub url: String,
    pub status: u16,
    pub body: String,
    pub base64_encoded: bool,
    pub headers: Vec<(String, String)>,
}

/// Requests and responses captured from one page load.
#[derive(Debug, Clone)]
pub struct InterceptedPageData {
    pub requests: Vec<InterceptedRequest>,
    pub responses: Vec<InterceptedResponse>,
}

/// Some pattern occurs in `url`.
pub open spec fn matches_some_pattern(url: Seq<char>, patterns: Seq<String>) -> bool {
    exists|k: int| 0 <= k < patterns.len() && contains(url, (#[trigger] patterns[k])@)
}

/// Whether a URL contains one of the interception patterns.
pub fn matches_any_pattern(url: &str, patterns: &Vec<String>) -> (b: bool)
    ensures
        b == matches_some_pattern(url@, patterns@),
{
    let mut k: usize = 0;
    while k < patterns.len()
        invariant
            k <= patterns.len(),
            forall|j: int| 0 <= j < k ==> !contains(url@, (#[trigger] patterns@[j])@),
        decreases patterns.len() - k,
    {
        if str_contains(url, patterns[k].as_str()) {
            return true;
        }
        k = k + 1;
    }
    false
}

// ─── delays ──────────────────────────────────────────────────────────────

/// Pause, in milliseconds, drawn from `[min_ms, max_ms)` by the clock's
/// nanoseconds.
pub fn jitter_sleep_ms(min_ms: u64, max_ms: u64, nanos: u64) -> (r: u64)
    requires
        min_ms < max_ms,
    ensures
        r == min_ms + nanos % ((max_ms - min_ms) as u64),
        min_ms <= r < max_ms,
{
    let range = max_ms - min_ms;
    min_ms + nanos % range
}

// ─── profiles and navigation ─────────────────────────────────────────────

/// The profile directory browsers use when none is configured; it can be
/// set once, and later settings are ignored.
#[derive(Debug, Clone)]
pub struct DefaultProfileDir {
    dir: Option<String>,
}

impl DefaultProfileDir {
    /// The current default profile directory.
    pub closed spec fn value(&self) -> Option<Seq<char>> {
        match self.dir {
            Some(d) => Some(d@),
            None => None,
        }
    }

    /// No default set yet.
    pub fn new() -> (r: Self)
        ensures
            r.value() is None,
    {
        DefaultProfileDir { dir: None }
    }

    /// Sets the default, unless one was set before.
    pub fn set_default_profile_dir(&mut self, path: &str)
        ensures
            old(self).value() is None ==> final(self).value() == Some(path@),
            old(self).value() is Some ==> final(self).value() == old(self).value(),
    {
        if self.dir.is_none() {
            self.dir = Some(path.to_owned());
        }
    }

    /// The default, if one was set.
    pub fn get_default_profile_dir(&self) -> (r: Option<String>)
        ensures
            match r {
                Some(d) => self.value() == Some(d@),
                None => self.value() is None,
            },
    {
        match &self.dir {
            Some(d) => Some(d.clone()),
            None => None,
        }
    }
}

/// Where a launched browser keeps its profile.
#[derive(Debug, Clone, PartialEq, Eq)]
pub enum ProfileChoice {
    /// The directory the options name.
    Configured(String),
    /// The default profile directory.
    Default(String),
    /// A persistent directory under the system's temporary directory.
    TemporaryFallback,
}

/// Where a launched browser keeps its profile: the configured directory,
/// else the default one, else a fallback under the temporary directory.
pub fn profile_choice(configured: Option<String>, default_dir: Option<String>) -> (r: ProfileChoice)
    ensures
        configured matches Some(c) ==> r == ProfileChoice::Configured(c),
        default_dir matches Some(d) ==> (configured is None ==> r == ProfileChoice::Default(d)),
        configured is None && default_dir is None ==> r == ProfileChoice::TemporaryFallback,
{
    match configured {
        Some(c) => ProfileChoice::Configured(c),
        None => match default_dir {
            Some(d) => ProfileChoice::Default(d),
            None => ProfileChoice::TemporaryFallback,
        },
    }
}

/// Lock files a crashed browser may leave in a profile, removed before a
/// launch.
pub fn profile_lock_names() -> (r: Vec<&'static str>)
    ensures
        r@.len() == 3,
        r@[0]@ == "SingletonLock"@,
        r@[1]@ == "SingletonCookie"@,
        r@[2]@ == "SingletonSocket"@,
{
    let mut r: Vec<&'static str> = Vec::new();
    r.push("SingletonLock");
    r.push("SingletonCookie");
    r.push("SingletonSocket");
    r
}

/// `s` with every `'` preceded by a backslash.
pub open spec fn quote_escaped(s: Seq<char>) -> Seq<char>
    decreases s.len(),
{
    if s.len() == 0 {
        s
    } else {
        quote_escaped(s.drop_last()) + if s.last() == '\'' {
            seq!['\\', '\'']
        } else {
            seq![s.last()]
        }
    }
}

/// Script that tells whether an element matching `selector` is on the page.
pub fn selector_probe_script(selector: &str) -> (r: String)
    ensures
        r@ == "document.querySelector('"@ + quote_escaped(selector@) + "') !== null"@,
{
    let v = chars_of(selector);
    let mut r = String::new();
    push_str(&mut r, "document.querySelector('");
    let ghost start = r@;
    let mut i: usize = 0;
    while i < v.len()
        invariant
            v@ == selector@,
            i <= v.len(),
            r@ == start + quote_escaped(v@.take(i as int)),
        decreases v.len() - i,
    {
        proof {
            assert(v@.take(i + 1).drop_last() =~= v@.take(i as int));
        }
        if v[i] == '\'' {
            push_char(&mut r, '\\');
            push_char(&mut r, '\'');
        } else {
            push_char(&mut r, v[i]);
        }
        i = i + 1;
    }
    assert(v@.take(v.len() as int) =~= v@);
    push_str(&mut r, "') !== null");
    r
}

/// Milliseconds a navigation waits: for a selector, how long to look for
/// it (10 s unless given); otherwise how long to let the page settle (2 s
/// unless given).
pub fn navigation_wait_ms(wait_ms: Option<u64>, has_selector: bool) -> (r: u64)
    ensures
        wait_ms matches Some(w) ==> r == w,
        wait_ms is None && has_selector ==> r == 10_000,
        wait_ms is None && !has_selector ==> r == 2000,
{
    match wait_ms {
        Some(w) => w,
        None => if has_selector { 10_000 } else { 2000 },
    }
}

/// What a navigation waiting for a selector does after a probe.
#[derive(Debug, Clone, PartialEq, Eq)]
pub enum SelectorWait {
    /// The element is there: read the page.
    Found,
    /// Sleep 200 ms and probe again.
    Poll,
    /// Give up with this message.
    TimedOut(String),
}

/// Decides a probe for a selector: out of time first, then found, else
/// poll again.
pub fn selector_wait_step(elapsed_ms: u64, timeout_ms: u64, found: bool, selector: &str, url: &str) -> (r: SelectorWait)
    ensures
        elapsed_ms >= timeout_ms ==> (r matches SelectorWait::TimedOut(m) && m@ == "timeout waiting for selector '"@
            + selector@ + "' on "@ + url@),
        elapsed_ms < timeout_ms && found ==> r == SelectorWait::Found,
        elapsed_ms < timeout_ms && !found ==> r == SelectorWait::Poll,
{
    if elapsed_ms >= timeout_ms {
        let mut m = String::new();
        push_str(&mut m, "timeout waiting for selector '");
        push_str(&mut m, selector);
        push_str(&mut m, "' on ");
        push_str(&mut m, url);
        return SelectorWait::TimedOut(m);
    }
    if found {
        SelectorWait::Found
    } else {
        SelectorWait::Poll
    }
}

} // verus!
