//! Decisions behind the browser API of extension scripts: option defaults,
//! when a running browser is reused, what an interception keeps, and how
//! captured bodies are handed to scripts.

use vstd::prelude::*;
use vstd::utf8::{decode_utf8, valid_utf8};
use crate::browser::{
    cookie_header, cookie_header_of, has_cookie, matches_any_pattern, matches_some_pattern,
    BrowserOptions, CloudflareBypassOptions, CloudflareBypassResult, InterceptedRequest, InterceptedResponse,
};
use crate::encoding::{base64_decode, base64_decoded, utf8_lossy, utf8_lossy_text, utf8_string};
use crate::fetch::json_parses;
use crate::search_params::pair_views;
use crate::text::{clone_pairs, push_str};

verus! {

// ─── options ──────────────────────────────────────────────────────────────

/// Seconds an interception waits when the script gives no `waitTime`.
pub const DEFAULT_WAIT_SECS: u64 = 30;

/// Seconds an interception waits: the script's `waitTime` (at least 1), or
/// 30.
pub fn wait_time_secs(requested: Option<i32>) -> (r: u64)
    ensures
        requested is None ==> r == DEFAULT_WAIT_SECS,
        requested matches Some(n) ==> r == (if n < 1 { 1 } else { n as int }),
{
    match requested {
        Some(n) => if n < 1 { 1 } else { n as u64 },
        None => DEFAULT_WAIT_SECS,
    }
}

/// Seconds `browser.bypassCloudflare` waits when the script gives no
/// `timeout`.
pub const SCRIPT_BYPASS_TIMEOUT_SECS: u64 = 60;

/// Options of `browser.bypassCloudflare(url, options)`: `autoClick`
/// (default on) and `timeout` in seconds (default 60).
pub fn script_bypass_options(auto_click: Option<bool>, timeout_secs: Option<u64>) -> (o: CloudflareBypassOptions)
    ensures
        o.auto_click == (match auto_click {
            Some(b) => b,
            None => true,
        }),
        o.timeout_secs == (match timeout_secs {
            Some(t) => t,
            None => SCRIPT_BYPASS_TIMEOUT_SECS,
        }),
{
    CloudflareBypassOptions {
        auto_click: match auto_click {
            Some(b) => b,
            None => true,
        },
        timeout_secs: match timeout_secs {
            Some(t) => t,
            None => SCRIPT_BYPASS_TIMEOUT_SECS,
        },
    }
}

/// Options of a browser launched for a script: 1920x1080 when headless,
/// 1280x800 otherwise; the rest as by default.
pub fn launch_options(headless: bool) -> (o: BrowserOptions)
    ensures
        o.headless == headless,
        o.window_width == (if headless { 1920u32 } else { 1280u32 }),
        o.window_height == (if headless { 1080u32 } else { 800u32 }),
        o.user_agent is None,
        o.user_data_dir is None,
        o.extra_args@.len() == 0,
        o.extra_headers@.len() == 0,
{
    let d = BrowserOptions::default();
    BrowserOptions {
        headless,
        window_width: if headless { 1920 } else { 1280 },
        window_height: if headless { 1080 } else { 800 },
        ..d
    }
}

/// Whether a running browser (headless or not, when one runs) serves a
/// call that wants `headless`: a headless one cannot serve a visible
/// request, so a new browser is launched then.
pub fn reuse_browser(running_headless: Option<bool>, headless: bool) -> (b: bool)
    ensures
        b == (running_headless matches Some(h) && !(!headless && h)),
{
    match running_headless {
        Some(h) => !(!headless && h),
        None => false,
    }
}

/// The message of a browser method called without the `browser`
/// capability.
pub fn browser_stub_message(method: &str) -> (r: String)
    ensures
        r@ == "browser."@ + method@ + ": extension does not have 'browser' capability enabled"@,
{
    let mut r = String::new();
    push_str(&mut r, "browser.");
    push_str(&mut r, method);
    push_str(&mut r, ": extension does not have 'browser' capability enabled");
    r
}

/// The message of a crypto method called without the `crypto` capability.
pub fn crypto_stub_message() -> (r: String)
    ensures
        r@ == "extension does not have 'crypto' feature enabled"@,
{
    "extension does not have 'crypto' feature enabled".to_owned()
}

// ─── interception ─────────────────────────────────────────────────────────

/// Something that happened while a page loaded under interception.
#[derive(Debug, Clone)]
pub enum InterceptEvent {
    /// The whole wait elapsed.
    HardTimeout,
    /// Two seconds passed without a matching request or response.
    IdleTimeout,
    /// A request to this URL was sent.
    Request(String),
    /// A response from this URL arrived.
    Response(String),
    /// The browser stopped reporting events.
    StreamEnded,
}

/// What the interception loop does with an event.
#[derive(Debug, Clone, Copy, PartialEq, Eq, Structural)]
pub enum InterceptAction {
    /// Stop waiting.
    Stop,
    /// Keep the request, and restart the idle wait.
    CaptureRequest,
    /// Keep the response, and restart the idle wait.
    CaptureResponse,
    /// Ignore the event.
    Ignore,
}

/// The idle wait counts only once something matched.
pub open spec fn idle_wait_armed(idle_armed: bool, action: InterceptAction) -> bool {
    idle_armed || action == InterceptAction::CaptureRequest || action == InterceptAction::CaptureResponse
}

/// Decides what the interception loop does with one event, and whether the
/// idle wait is armed afterwards.
pub fn intercept_step(idle_armed: bool, event: &InterceptEvent, request_patterns: &Vec<String>, response_patterns: &Vec<String>) -> (r: (InterceptAction, bool))
    ensures
        r.1 == idle_wait_armed(idle_armed, r.0),
        r.0 == intercept_action_of(idle_armed, *event, request_patterns@, response_patterns@),
        match *event {
            InterceptEvent::HardTimeout => r.0 == InterceptAction::Stop,
            InterceptEvent::IdleTimeout => r.0 == (if idle_armed { InterceptAction::Stop } else { InterceptAction::Ignore }),
            InterceptEvent::StreamEnded => r.0 == InterceptAction::Stop,
            InterceptEvent::Request(u) => r.0 == (if matches_some_pattern(u@, request_patterns@) {
                InterceptAction::CaptureRequest
            } else {
                InterceptAction::Ignore
            }),
            InterceptEvent::Response(u) => r.0 == (if matches_some_pattern(u@, response_patterns@) {
                InterceptAction::CaptureResponse
            } else {
                InterceptAction::Ignore
            }),
        },
{
    let action = match event {
        InterceptEvent::HardTimeout => InterceptAction::Stop,
        InterceptEvent::IdleTimeout => if idle_armed { InterceptAction::Stop } else { InterceptAction::Ignore },
        InterceptEvent::StreamEnded => InterceptAction::Stop,
        InterceptEvent::Request(u) => if matches_any_pattern(u.as_str(), request_patterns) {
            InterceptAction::CaptureRequest
        } else {
            InterceptAction::Ignore
        },
        InterceptEvent::Response(u) => if matches_any_pattern(u.as_str(), response_patterns) {
            InterceptAction::CaptureResponse
        } else {
            InterceptAction::Ignore
        },
    };
    let armed = idle_armed || action == InterceptAction::CaptureRequest || action == InterceptAction::CaptureResponse;
    (action, armed)
}

/// What the interception loop does with `event`, with the idle wait armed
/// or not, under the request patterns `rp` and response patterns `sp`.
pub open spec fn intercept_action_of(idle_armed: bool, event: InterceptEvent, rp: Seq<String>, sp: Seq<String>) -> InterceptAction {
    match event {
        InterceptEvent::HardTimeout => InterceptAction::Stop,
        InterceptEvent::IdleTimeout => if idle_armed { InterceptAction::Stop } else { InterceptAction::Ignore },
        InterceptEvent::StreamEnded => InterceptAction::Stop,
        InterceptEvent::Request(u) => if matches_some_pattern(u@, rp) {
            InterceptAction::CaptureRequest
        } else {
            InterceptAction::Ignore
        },
        InterceptEvent::Response(u) => if matches_some_pattern(u@, sp) {
            InterceptAction::CaptureResponse
        } else {
            InterceptAction::Ignore
        },
    }
}

/// The URLs an interception keeps over `events`, requests and responses
/// apart, up to the event that stops it.
pub open spec fn intercept_run(idle_armed: bool, events: Seq<InterceptEvent>, rp: Seq<String>, sp: Seq<String>) -> (Seq<Seq<char>>, Seq<Seq<char>>)
    decreases events.len(),
{
    if events.len() == 0 {
        (Seq::empty(), Seq::empty())
    } else {
        let a = intercept_action_of(idle_armed, events[0], rp, sp);
        if a == InterceptAction::Stop {
            (Seq::empty(), Seq::empty())
        } else {
            let rest = intercept_run(idle_wait_armed(idle_armed, a), events.drop_first(), rp, sp);
            match events[0] {
                InterceptEvent::Request(u) => if a == InterceptAction::CaptureRequest {
                    (seq![u@] + rest.0, rest.1)
                } else {
                    rest
                },
                InterceptEvent::Response(u) => if a == InterceptAction::CaptureResponse {
                    (rest.0, seq![u@] + rest.1)
                } else {
                    rest
                },
                _ => rest,
            }
        }
    }
}

/// How many of `events` an interception reads: up to and including the
/// one that stops it.
pub open spec fn intercept_consumed(idle_armed: bool, events: Seq<InterceptEvent>, rp: Seq<String>, sp: Seq<String>) -> nat
    decreases events.len(),
{
    if events.len() == 0 {
        0
    } else {
        let a = intercept_action_of(idle_armed, events[0], rp, sp);
        if a == InterceptAction::Stop {
            1
        } else {
            1 + intercept_consumed(idle_wait_armed(idle_armed, a), events.drop_first(), rp, sp)
        }
    }
}

/// The URLs of the requests among `events` that match one of `patterns`,
/// in the order of the events.
pub open spec fn matching_requests(events: Seq<InterceptEvent>, patterns: Seq<String>) -> Seq<Seq<char>>
    decreases events.len(),
{
    if events.len() == 0 {
        Seq::empty()
    } else {
        let rest = matching_requests(events.drop_first(), patterns);
        match events[0] {
            InterceptEvent::Request(u) => if matches_some_pattern(u@, patterns) { seq![u@] + rest } else { rest },
            _ => rest,
        }
    }
}

/// The URLs of the responses among `events` that match one of `patterns`,
/// in the order of the events.
pub open spec fn matching_responses(events: Seq<InterceptEvent>, patterns: Seq<String>) -> Seq<Seq<char>>
    decreases events.len(),
{
    if events.len() == 0 {
        Seq::empty()
    } else {
        let rest = matching_responses(events.drop_first(), patterns);
        match events[0] {
            InterceptEvent::Response(u) => if matches_some_pattern(u@, patterns) { seq![u@] + rest } else { rest },
            _ => rest,
        }
    }
}

proof fn lemma_matching_urls(events: Seq<InterceptEvent>, rp: Seq<String>, sp: Seq<String>)
    ensures
        forall|i: int| 0 <= i < matching_requests(events, rp).len() ==> matches_some_pattern(
            #[trigger] matching_requests(events, rp)[i],
            rp,
        ),
        forall|i: int| 0 <= i < matching_responses(events, sp).len() ==> matches_some_pattern(
            #[trigger] matching_responses(events, sp)[i],
            sp,
        ),
    decreases events.len(),
{
    if events.len() > 0 {
        lemma_matching_urls(events.drop_first(), rp, sp);
        let rq = matching_requests(events, rp);
        let rq1 = matching_requests(events.drop_first(), rp);
        let rs = matching_responses(events, sp);
        let rs1 = matching_responses(events.drop_first(), sp);
        assert forall|i: int| 0 <= i < rq.len() implies matches_some_pattern(#[trigger] rq[i], rp) by {
            if rq.len() > rq1.len() && i > 0 {
                assert(rq[i] == rq1[i - 1]);
            }
        }
        assert forall|i: int| 0 <= i < rs.len() implies matches_some_pattern(#[trigger] rs[i], sp) by {
            if rs.len() > rs1.len() && i > 0 {
                assert(rs[i] == rs1[i - 1]);
            }
        }
    }
}

proof fn lemma_intercept_prefix(idle_armed: bool, events: Seq<InterceptEvent>, rp: Seq<String>, sp: Seq<String>)
    ensures
        ({
            let n = intercept_consumed(idle_armed, events, rp, sp);
            let run = intercept_run(idle_armed, events, rp, sp);
            &&& n <= events.len()
            &&& run.0 == matching_requests(events.take(n as int), rp)
            &&& run.1 == matching_responses(events.take(n as int), sp)
            &&& forall|i: int| 0 <= i < n - 1 ==> !(#[trigger] events[i] is HardTimeout) && !(events[i] is StreamEnded)
        }),
    decreases events.len(),
{
    if events.len() > 0 {
        let a = intercept_action_of(idle_armed, events[0], rp, sp);
        let n = intercept_consumed(idle_armed, events, rp, sp);
        let pre = events.take(n as int);
        if a == InterceptAction::Stop {
            assert(pre.drop_first() =~= Seq::<InterceptEvent>::empty());
            assert(matching_requests(pre.drop_first(), rp) =~= Seq::<Seq<char>>::empty());
            assert(matching_responses(pre.drop_first(), sp) =~= Seq::<Seq<char>>::empty());
            assert(pre[0] == events[0]);
        } else {
            let rest = events.drop_first();
            let armed = idle_wait_armed(idle_armed, a);
            lemma_intercept_prefix(armed, rest, rp, sp);
            let m = intercept_consumed(armed, rest, rp, sp);
            assert(pre.drop_first() =~= rest.take(m as int));
            assert(pre[0] == events[0]);
            assert forall|i: int| 0 <= i < n - 1 implies !(#[trigger] events[i] is HardTimeout) && !(
            events[i] is StreamEnded) by {
                if i > 0 {
                    assert(rest[i - 1] == events[i]);
                }
            }
        }
    }
}

/// What an interception collects. Reading the page's events from the start
/// (the idle wait not yet armed), it keeps exactly the requests that match
/// a request pattern and the responses that match a response pattern, each
/// in the order of the events, among the events up to the one that stops
/// it, which no page-level timeout or end of events precedes. So every kept
/// URL matches a pattern of its kind, and with no patterns of a kind
/// nothing of that kind is kept.
pub proof fn lemma_intercept_run(events: Seq<InterceptEvent>, rp: Seq<String>, sp: Seq<String>)
    ensures
        ({
            let n = intercept_consumed(false, events, rp, sp);
            let run = intercept_run(false, events, rp, sp);
            &&& n <= events.len()
            &&& run.0 == matching_requests(events.take(n as int), rp)
            &&& run.1 == matching_responses(events.take(n as int), sp)
            &&& forall|i: int| 0 <= i < n - 1 ==> !(#[trigger] events[i] is HardTimeout) && !(events[i] is StreamEnded)
            &&& forall|i: int| 0 <= i < run.0.len() ==> matches_some_pattern(#[trigger] run.0[i], rp)
            &&& forall|i: int| 0 <= i < run.1.len() ==> matches_some_pattern(#[trigger] run.1[i], sp)
            &&& rp.len() == 0 ==> run.0.len() == 0
            &&& sp.len() == 0 ==> run.1.len() == 0
        }),
{
    lemma_intercept_prefix(false, events, rp, sp);
    let n = intercept_consumed(false, events, rp, sp);
    let run = intercept_run(false, events, rp, sp);
    lemma_matching_urls(events.take(n as int), rp, sp);
    if rp.len() == 0 && run.0.len() > 0 {
        assert(matches_some_pattern(run.0[0], rp));
    }
    if sp.len() == 0 && run.1.len() > 0 {
        assert(matches_some_pattern(run.1[0], sp));
    }
}

/// An HTTP status as a `u16`, or 0 when it does not fit.
pub fn status_code(status: i64) -> (r: u16)
    ensures
        r == (if 0 <= status <= 65535 { status as u16 } else { 0u16 }),
{
    if 0 <= status && status <= 65535 {
        status as u16
    } else {
        0
    }
}

/// Text one post-data entry (base64) contributes: the UTF-8 text it
/// decodes to, else the entry as it is.
pub open spec fn post_entry_text(b64: Seq<char>) -> Seq<char> {
    match base64_decoded(b64) {
        Some(d) => if valid_utf8(d) { decode_utf8(d) } else { b64 },
        None => b64,
    }
}

/// The entries' texts one after another (entries without bytes add
/// nothing).
pub open spec fn post_entries_text(entries: Seq<Option<String>>) -> Seq<char>
    decreases entries.len(),
{
    if entries.len() == 0 {
        Seq::empty()
    } else {
        post_entries_text(entries.drop_last()) + match entries.last() {
            Some(b) => post_entry_text(b@),
            None => Seq::empty(),
        }
    }
}

/// The body of an intercepted request from its post-data entries: `None`
/// when there are no entries or they add up to nothing.
pub fn post_body_of(entries: Option<&Vec<Option<String>>>) -> (r: Option<String>)
    ensures
        match entries {
            None => r is None,
            Some(es) => if post_entries_text(es@).len() == 0 {
                r is None
            } else {
                r matches Some(b) && b@ == post_entries_text(es@)
            },
        },
{
    match entries {
        None => None,
        Some(es) => {
            let mut body = String::new();
            let mut i: usize = 0;
            while i < es.len()
                invariant
                    i <= es.len(),
                    body@ == post_entries_text(es@.take(i as int)),
                decreases es.len() - i,
            {
                proof {
                    assert(es@.take(i + 1).drop_last() =~= es@.take(i as int));
                }
                match &es[i] {
                    Some(b64) => {
                        match base64_decode(b64.as_str()) {
                            Ok(decoded) => match utf8_string(decoded) {
                                Ok(s) => push_str(&mut body, s.as_str()),
                                Err(_) => push_str(&mut body, b64.as_str()),
                            },
                            Err(_) => push_str(&mut body, b64.as_str()),
                        }
                    },
                    None => {
                        assert(body@ =~= body@ + Seq::<char>::empty());
                    },
                }
                i = i + 1;
            }
            assert(es@.take(es.len() as int) =~= es@);
            if body.as_str().is_empty() {
                None
            } else {
                Some(body)
            }
        },
    }
}

/// Bytes of a captured image response, when it counts: status 200 and a
/// non-empty body (base64 bodies decoded; undecodable ones count as
/// empty).
pub fn image_response_bytes(status: u16, body: &str, base64_encoded: bool) -> (r: Option<Vec<u8>>)
    ensures
        status != 200 ==> r is None,
        status == 200 && base64_encoded ==> match base64_decoded(body@) {
            Some(d) => if d.len() > 0 { r matches Some(b) && b@ == d } else { r is None },
            None => r is None,
        },
        status == 200 && !base64_encoded ==> if body@.len() > 0 {
            r matches Some(b) && b@ == vstd::utf8::encode_utf8(body@)
        } else {
            r is None
        },
{
    if status != 200 {
        return None;
    }
    let bytes = if base64_encoded {
        match base64_decode(body) {
            Ok(b) => b,
            Err(_) => Vec::new(),
        }
    } else {
        crate::encoding::utf8_bytes(body)
    };
    proof {
        if !base64_encoded {
            if body@.len() == 0 {
                assert(body@ =~= Seq::<char>::empty());
                assert(vstd::utf8::encode_utf8(body@) =~= Seq::<u8>::empty());
            } else {
                assert(vstd::utf8::encode_utf8(body@).len() > 0);
            }
        }
    }
    if bytes.len() > 0 {
        Some(bytes)
    } else {
        None
    }
}

/// How a captured response body is handed to a script.
#[derive(Debug, Clone)]
pub enum BodyValue {
    /// JSON text, given to the script as the value it denotes.
    Json(String),
    /// Any other text, given as a string.
    Text(String),
}

/// The text a captured body stands for: base64 bodies decoded (lossily),
/// kept as they are when they do not decode.
pub open spec fn body_text(body: Seq<char>, base64_encoded: bool) -> Seq<char> {
    if base64_encoded {
        match base64_decoded(body) {
            Some(d) => utf8_lossy_text(d),
            None => body,
        }
    } else {
        body
    }
}

/// How a captured response body is handed to a script: decoded text is
/// parsed as JSON when it can be, and given as a string otherwise
/// (base64 that does not decode is given as its own text).
pub fn response_body_value(r: &InterceptedResponse) -> (v: BodyValue)
    ensures
        r.base64_encoded && base64_decoded(r.body@) is None ==> (v matches BodyValue::Text(t) && t@ == r.body@),
        !(r.base64_encoded && base64_decoded(r.body@) is None) ==> {
            let t = body_text(r.body@, r.base64_encoded);
            &&& json_parses(t) ==> (v matches BodyValue::Json(j) && j@ == t)
            &&& !json_parses(t) ==> (v matches BodyValue::Text(s) && s@ == t)
        },
{
    let text = if r.base64_encoded {
        match base64_decode(r.body.as_str()) {
            Ok(bytes) => utf8_lossy(bytes.as_slice()),
            Err(_) => return BodyValue::Text(r.body.clone()),
        }
    } else {
        r.body.clone()
    };
    if crate::fetch::parses_as_json(text.as_str()) {
        BodyValue::Json(text)
    } else {
        BodyValue::Text(text)
    }
}

// ─── Cloudflare results for scripts ───────────────────────────────────────

/// What `browser.bypassCloudflare` gives a script.
#[derive(Debug, Clone)]
pub struct JsCloudflareResult {
    pub cookie_pairs: Vec<(String, String)>,
    pub user_agent_val: String,
    pub has_clearance: bool,
}

impl JsCloudflareResult {
    /// The script's view of a bypass result.
    pub fn from_result(r: &CloudflareBypassResult) -> (j: Self)
        ensures
            pair_views(j.cookie_pairs@) == pair_views(r.cookies@),
            j.user_agent_val@ == r.user_agent@,
            j.has_clearance == has_cookie(r.cookies@, "cf_clearance"@),
    {
        JsCloudflareResult {
            cookie_pairs: clone_pairs(&r.cookies),
            user_agent_val: r.user_agent.clone(),
            has_clearance: r.has_cf_clearance(),
        }
    }

    /// `result.cookies`: name/value pairs.
    pub fn cookies(&self) -> (r: Vec<(String, String)>)
        ensures
            pair_views(r@) == pair_views(self.cookie_pairs@),
    {
        clone_pairs(&self.cookie_pairs)
    }

    /// `result.userAgent`.
    pub fn user_agent(&self) -> (r: String)
        ensures
            r@ == self.user_agent_val@,
    {
        self.user_agent_val.clone()
    }

    /// `result.hasCfClearance`.
    pub fn has_cf_clearance(&self) -> (b: bool)
        ensures
            b == self.has_clearance,
    {
        self.has_clearance
    }

    /// `result.cookieHeader`: `name=value` pairs separated by `; `.
    pub fn cookie_header(&self) -> (r: String)
        ensures
            r@ == cookie_header_of(self.cookie_pairs@),
    {
        cookie_header(&self.cookie_pairs)
    }
}

/// What `browser.intercept` gives a script.
#[derive(Debug, Clone)]
pub struct JsInterceptResult {
    pub captured_requests: Vec<InterceptedRequest>,
    pub captured_responses: Vec<InterceptedResponse>,
}

fn clone_opt_text(t: &Option<String>) -> (r: Option<String>)
    ensures
        r == *t,
{
    match t {
        Some(s) => Some(s.clone()),
        None => None,
    }
}

/// Two requests that hold the same values.
pub open spec fn same_request(a: InterceptedRequest, b: InterceptedRequest) -> bool {
    &&& a.url == b.url
    &&& a.method == b.method
    &&& a.post_body == b.post_body
    &&& a.headers@ == b.headers@
    &&& a.resource_type == b.resource_type
}

/// Two responses that hold the same values.
pub open spec fn same_response(a: InterceptedResponse, b: InterceptedResponse) -> bool {
    &&& a.url == b.url
    &&& a.status == b.status
    &&& a.body == b.body
    &&& a.base64_encoded == b.base64_encoded
    &&& a.headers@ == b.headers@
}

fn clone_request(q: &InterceptedRequest) -> (r: InterceptedRequest)
    ensures
        same_request(r, *q),
{
    InterceptedRequest {
        url: q.url.clone(),
        method: q.method.clone(),
        post_body: clone_opt_text(&q.post_body),
        headers: clone_pairs(&q.headers),
        resource_type: clone_opt_text(&q.resource_type),
    }
}

fn clone_response(q: &InterceptedResponse) -> (r: InterceptedResponse)
    ensures
        same_response(r, *q),
{
    InterceptedResponse {
        url: q.url.clone(),
        status: q.status,
        body: q.body.clone(),
        base64_encoded: q.base64_encoded,
        headers: clone_pairs(&q.headers),
    }
}

impl JsInterceptResult {
    /// The captured requests, in the order they were seen.
    pub fn requests(&self) -> (r: Vec<InterceptedRequest>)
        ensures
            r@.len() == self.captured_requests@.len(),
            forall|i: int| 0 <= i < r@.len() ==> same_request(#[trigger] r@[i], self.captured_requests@[i]),
    {
        let mut r: Vec<InterceptedRequest> = Vec::new();
        let mut i: usize = 0;
        while i < self.captured_requests.len()
            invariant
                i <= self.captured_requests.len(),
                r@.len() == i,
                forall|j: int| 0 <= j < i ==> same_request(#[trigger] r@[j], self.captured_requests@[j]),
            decreases self.captured_requests.len() - i,
        {
            r.push(clone_request(&self.captured_requests[i]));
            i = i + 1;
        }
        r
    }

    /// The captured responses, in the order they were seen.
    pub fn responses(&self) -> (r: Vec<InterceptedResponse>)
        ensures
            r@.len() == self.captured_responses@.len(),
            forall|i: int| 0 <= i < r@.len() ==> same_response(#[trigger] r@[i], self.captured_responses@[i]),
    {
        let mut r: Vec<InterceptedResponse> = Vec::new();
        let mut i: usize = 0;
        while i < self.captured_responses.len()
            invariant
                i <= self.captured_responses.len(),
                r@.len() == i,
                forall|j: int| 0 <= j < i ==> same_response(#[trigger] r@[j], self.captured_responses@[j]),
            decreases self.captured_responses.len() - i,
        {
            r.push(clone_response(&self.captured_responses[i]));
            i = i + 1;
        }
        r
    }
}

/// Session updates after a bypass of `url`: the host's cookies (when there
/// are any) and user agent (when not empty); nothing when the URL does not
/// parse.
pub fn session_updates(url: &str, result: &CloudflareBypassResult) -> (r: (Option<(String, Vec<(String, String)>)>, Option<(String, String)>))
    ensures
        crate::url_object::parsed_url(url@) is None ==> r.0 is None && r.1 is None,
        crate::url_object::parsed_url(url@) matches Some(p) ==> {
            let host = match p.2 {
                Some(h) => h,
                None => Seq::<char>::empty(),
            };
            &&& (result.cookies@.len() > 0 <==> r.0 is Some)
            &&& (r.0 matches Some(c) ==> c.0@ == host && pair_views(c.1@) == pair_views(result.cookies@))
            &&& (result.user_agent@.len() > 0 <==> r.1 is Some)
            &&& (r.1 matches Some(u) ==> u.0@ == host && u.1@ == result.user_agent@)
        },
{
    match crate::url_object::url_host(url) {
        None => (None, None),
        Some(domain) => {
            let cookies = if result.cookies.len() > 0 {
                Some((domain.clone(), clone_pairs(&result.cookies)))
            } else {
                None
            };
            let ua = if !result.user_agent.as_str().is_empty() {
                Some((domain.clone(), result.user_agent.clone()))
            } else {
                None
            };
            (cookies, ua)
        },
    }
}

} // verus!
