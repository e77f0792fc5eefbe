//! `fetch` for extension scripts: which request an options object asks for,
//! how a POST body is sent, and what the script reads back.

use vstd::prelude::*;
use vstd::utf8::encode_utf8;
use crate::download::RequestOptions;
use crate::search_params::{form_pairs, pair_views, parse_form};
use crate::text::{
    all_ascii, ascii_lower, chars_of, clone_pairs, contains, push_str, str_contains, str_eq,
};

verus! {

// ─── method names ─────────────────────────────────────────────────────────

/// Uppercase mapping of a whole string (std `str::to_uppercase`).
pub uninterp spec fn unicode_upper(s: Seq<char>) -> Seq<char>;

/// ASCII uppercase of one character; other characters are unchanged.
pub open spec fn ascii_upper(c: char) -> char {
    if 'a' <= c && c <= 'z' {
        ((c as u32) - 32) as char
    } else {
        c
    }
}

/// Calls std `str::to_uppercase`. Claimed: the result depends on the text
/// alone, and ASCII text is mapped with `a`..`z` to `A`..`Z`.
#[verifier::external_body]
fn uppercase(s: &str) -> (r: String)
    ensures
        r@ == unicode_upper(s@),
        all_ascii(s@) ==> r@ == Seq::new(s@.len(), |i: int| ascii_upper(s@[i])),
{
    s.to_uppercase()
}

/// `a` and `b` are equal once ASCII letters are folded to one case
/// (`str::eq_ignore_ascii_case`).
pub open spec fn eq_ignore_ascii_case(a: Seq<char>, b: Seq<char>) -> bool {
    a.len() == b.len() && forall|i: int| 0 <= i < a.len() ==> ascii_lower(a[i]) == ascii_lower(b[i])
}

fn lower_char(c: char) -> (r: char)
    ensures
        r == ascii_lower(c),
{
    if 'A' <= c && c <= 'Z' {
        ((c as u8) + 32) as char
    } else {
        c
    }
}

/// Whether `a` and `b` are equal ignoring ASCII case.
pub fn equals_ignore_ascii_case(a: &str, b: &str) -> (r: bool)
    ensures
        r == eq_ignore_ascii_case(a@, b@),
{
    let x = chars_of(a);
    let y = chars_of(b);
    if x.len() != y.len() {
        return false;
    }
    let mut i: usize = 0;
    while i < x.len()
        invariant
            x@ == a@,
            y@ == b@,
            x.len() == y.len(),
            i <= x.len(),
            forall|k: int| 0 <= k < i ==> ascii_lower(x@[k]) == ascii_lower(y@[k]),
        decreases x.len() - i,
    {
        if lower_char(x[i]) != lower_char(y[i]) {
            return false;
        }
        i = i + 1;
    }
    true
}

// ─── options ──────────────────────────────────────────────────────────────

/// Options of one `fetch` call, as the script gave them.
#[derive(Debug, Clone)]
pub struct FetchOptions {
    /// Request method, uppercased; `GET` when not given.
    pub method: String,
    pub headers: Option<Vec<(String, String)>>,
    pub body: Option<String>,
    pub form_data: Option<Vec<(String, String)>>,
    pub referer: Option<String>,
}

impl FetchOptions {
    /// Options from the script's values: the method is uppercased, `GET`
    /// when absent; headers and form fields hold each name once, with the
    /// value it was last given.
    pub fn new(
        method: Option<&str>,
        headers: Option<Vec<(String, String)>>,
        body: Option<String>,
        form_data: Option<Vec<(String, String)>>,
        referer: Option<String>,
    ) -> (o: Self)
        ensures
            method matches Some(m) ==> o.method@ == unicode_upper(m@),
            method is None ==> o.method@ == "GET"@,
            headers is None ==> o.headers is None,
            headers matches Some(h) ==> (o.headers matches Some(oh) && pair_views(oh@) == last_wins(pair_views(h@))
                && unique_names(pair_views(oh@))),
            o.body == body,
            form_data is None ==> o.form_data is None,
            form_data matches Some(f) ==> (o.form_data matches Some(of) && pair_views(of@) == last_wins(
                pair_views(f@),
            ) && unique_names(pair_views(of@))),
            o.referer == referer,
    {
        let m = match method {
            Some(m) => uppercase(m),
            None => "GET".to_owned(),
        };
        let headers = match headers {
            Some(h) => Some(keep_last(&h)),
            None => None,
        };
        let form_data = match form_data {
            Some(f) => Some(keep_last(&f)),
            None => None,
        };
        FetchOptions { method: m, headers, body, form_data, referer }
    }
}

// ─── deciding the request ─────────────────────────────────────────────────

/// Whether a text parses as JSON (`serde_json::from_str::<Value>`).
pub uninterp spec fn json_parses(s: Seq<char>) -> bool;

/// Calls `serde_json::from_str::<serde_json::Value>` and reports whether it
/// succeeded. Claimed: the outcome depends on the text alone.
#[verifier::external_body]
pub(crate) fn parses_as_json(s: &str) -> (b: bool)
    ensures
        b == json_parses(s@),
{
    serde_json::from_str::<serde_json::Value>(s).is_ok()
}

/// How a JSON POST body is sent.
#[derive(Debug, Clone)]
pub enum JsonPayload {
    /// The body parses as JSON: this is its source text, and the request
    /// sends the value it parses to (re-serialized by the HTTP client).
    Document(String),
    /// The body is not JSON: this is its text, sent as one JSON string.
    Text(String),
}

/// The request a `fetch` call makes.
#[derive(Debug, Clone)]
pub enum RequestPlan {
    /// `GET` (any method that is not POST and not refused).
    Get,
    /// POST of form fields, each name once.
    PostForm(Vec<(String, String)>),
    /// POST of a JSON body.
    PostJson(JsonPayload),
    /// POST without a body.
    PostEmpty,
    /// A method that is refused, with the message.
    Unsupported(String),
}

/// Value of the first header whose name is `content-type` in any ASCII
/// case.
pub open spec fn content_type_of(headers: Seq<(Seq<char>, Seq<char>)>) -> Option<Seq<char>>
    decreases headers.len(),
{
    if headers.len() == 0 {
        None
    } else if eq_ignore_ascii_case(headers[0].0, "content-type"@) {
        Some(headers[0].1)
    } else {
        content_type_of(headers.drop_first())
    }
}

/// A POST body is sent as a form: by its content type when that says form
/// or JSON, else when it holds `=` and `&` and does not start with `{`.
pub open spec fn is_form_body(content_type: Option<Seq<char>>, body: Seq<char>) -> bool {
    match content_type {
        Some(ct) if contains(ct, "application/x-www-form-urlencoded"@) => true,
        Some(ct) if contains(ct, "application/json"@) => false,
        _ => contains(body, seq!['=']) && contains(body, seq!['&']) && !(body.len() > 0 && body[0]
            == '{'),
    }
}

/// Each name once, holding the value it was last given (what collecting
/// into a map keeps).
pub open spec fn last_wins(ps: Seq<(Seq<char>, Seq<char>)>) -> Seq<(Seq<char>, Seq<char>)>
    decreases ps.len(),
{
    if ps.len() == 0 {
        ps
    } else {
        assign(last_wins(ps.drop_last()), ps.last())
    }
}

/// `ps` with `p.0` set to `p.1`: replaced in place when present, else added
/// at the end.
pub open spec fn assign(ps: Seq<(Seq<char>, Seq<char>)>, p: (Seq<char>, Seq<char>)) -> Seq<(Seq<char>, Seq<char>)> {
    if exists|i: int| 0 <= i < ps.len() && (#[trigger] ps[i]).0 == p.0 {
        let i = choose|i: int| 0 <= i < ps.len() && (#[trigger] ps[i]).0 == p.0;
        ps.update(i, p)
    } else {
        ps.push(p)
    }
}

/// No name occurs twice.
pub open spec fn unique_names(ps: Seq<(Seq<char>, Seq<char>)>) -> bool {
    forall|i: int, j: int| 0 <= i < j < ps.len() ==> (#[trigger] ps[i]).0 != (#[trigger] ps[j]).0
}

proof fn lemma_assign_unique(ps: Seq<(Seq<char>, Seq<char>)>, p: (Seq<char>, Seq<char>))
    requires
        unique_names(ps),
    ensures
        unique_names(assign(ps, p)),
{
}

/// Sets `p.0` to `p.1` in a list of unique names.
fn assign_pair(ps: &mut Vec<(String, String)>, p: (String, String))
    requires
        unique_names(pair_views(old(ps)@)),
    ensures
        pair_views(final(ps)@) == assign(pair_views(old(ps)@), (p.0@, p.1@)),
        unique_names(pair_views(final(ps)@)),
{
    let ghost v = pair_views(ps@);
    let mut i: usize = 0;
    while i < ps.len()
        invariant
            v == pair_views(ps@),
            v == pair_views(old(ps)@),
            unique_names(v),
            i <= ps.len(),
            forall|k: int| 0 <= k < i ==> v[k].0 != p.0@,
        decreases ps.len() - i,
    {
        if str_eq(ps[i].0.as_str(), p.0.as_str()) {
            assert(v[i as int].0 == p.0@);
            let ghost pv = (p.0@, p.1@);
            proof {
                assert(pv.0 == p.0@);
                assert(exists|k: int| 0 <= k < v.len() && (#[trigger] v[k]).0 == pv.0);
                let j = choose|k: int| 0 <= k < v.len() && (#[trigger] v[k]).0 == pv.0;
                assert(j == i) by {
                    if j < i {
                    } else if j > i {
                        assert(v[i as int].0 != v[j].0);
                    }
                }
                assert(assign(v, pv) == v.update(i as int, pv));
                lemma_assign_unique(v, pv);
            }
            ps.set(i, p);
            proof {
                assert(pair_views(ps@) =~= v.update(i as int, pv));
            }
            return;
        }
        i = i + 1;
    }
    let ghost pv = (p.0@, p.1@);
    ps.push(p);
    proof {
        assert(pair_views(ps@) =~= v.push(pv));
        lemma_assign_unique(v, pv);
    }
}

/// The pairs with each name once, holding the value it was last given
/// (what collecting them into a map keeps).
pub fn keep_last(all: &Vec<(String, String)>) -> (r: Vec<(String, String)>)
    ensures
        pair_views(r@) == last_wins(pair_views(all@)),
        unique_names(pair_views(r@)),
{
    let ghost ps = pair_views(all@);
    let mut r: Vec<(String, String)> = Vec::new();
    let mut i: usize = 0;
    assert(pair_views(r@) =~= last_wins(ps.take(0)));
    while i < all.len()
        invariant
            pair_views(all@) == ps,
            i <= all.len(),
            pair_views(r@) == last_wins(ps.take(i as int)),
            unique_names(pair_views(r@)),
        decreases all.len() - i,
    {
        let p = (all[i].0.clone(), all[i].1.clone());
        proof {
            assert(ps.take(i + 1).drop_last() =~= ps.take(i as int));
        }
        assign_pair(&mut r, p);
        i = i + 1;
    }
    assert(ps.take(all.len() as int) =~= ps);
    r
}

/// The fields of a form-encoded body, each name once with its last value.
pub fn form_fields(body: &str) -> (r: Vec<(String, String)>)
    ensures
        pair_views(r@) == last_wins(form_pairs(body@)),
        unique_names(pair_views(r@)),
{
    let all = parse_form(body);
    keep_last(&all)
}

/// Message when a script asks for a method that is refused.
pub open spec fn unsupported_method_message(method: Seq<char>) -> Seq<char> {
    "HTTP method "@ + method + " is not supported   use GET or POST"@
}

/// Value of the first header named `content-type` in any case.
fn find_content_type(headers: &Vec<(String, String)>) -> (r: Option<String>)
    ensures
        match r {
            Some(v) => content_type_of(pair_views(headers@)) == Some(v@),
            None => content_type_of(pair_views(headers@)) is None,
        },
{
    let ghost hs = pair_views(headers@);
    let mut i: usize = 0;
    assert(hs.skip(0) =~= hs);
    while i < headers.len()
        invariant
            hs == pair_views(headers@),
            i <= headers.len(),
            content_type_of(hs) == content_type_of(hs.skip(i as int)),
        decreases headers.len() - i,
    {
        assert(hs.skip(i as int).drop_first() =~= hs.skip(i + 1));
        if equals_ignore_ascii_case(headers[i].0.as_str(), "content-type") {
            return Some(headers[i].1.clone());
        }
        i = i + 1;
    }
    None
}

/// Whether a POST body is sent as a form.
pub fn body_is_form(content_type: Option<&str>, body: &str) -> (b: bool)
    ensures
        b == is_form_body(
            match content_type {
                Some(c) => Some(c@),
                None => None,
            },
            body@,
        ),
{
    match content_type {
        Some(ct) => {
            if str_contains(ct, "application/x-www-form-urlencoded") {
                return true;
            }
            if str_contains(ct, "application/json") {
                return false;
            }
        },
        None => {},
    }
    let v = chars_of(body);
    let eq = str_contains(body, "=");
    let amp = str_contains(body, "&");
    let brace = v.len() > 0 && v[0] == '{';
    proof {
        reveal_strlit("=");
        reveal_strlit("&");
        assert("="@ =~= seq!['=']);
        assert("&"@ =~= seq!['&']);
    }
    eq && amp && !brace
}

/// The request a `fetch` call with these options makes.
pub fn plan_request(opts: &FetchOptions) -> (r: RequestPlan)
    ensures
        opts.method@ == "POST"@ && opts.form_data is Some ==> (r matches RequestPlan::PostForm(f)
            && pair_views(f@) == pair_views(opts.form_data->0@)),
        opts.method@ == "POST"@ && opts.form_data is None && opts.body is None ==> r is PostEmpty,
        opts.body matches Some(b) ==> (opts.method@ == "POST"@ && opts.form_data is None ==> {
            let ct = match opts.headers {
                Some(h) => content_type_of(pair_views(h@)),
                None => None,
            };
            &&& is_form_body(ct, b@) ==> (r matches RequestPlan::PostForm(f) && pair_views(f@)
                == last_wins(form_pairs(b@)))
            &&& !is_form_body(ct, b@) && json_parses(b@) ==> (r matches RequestPlan::PostJson(p)
                && p matches JsonPayload::Document(t) && t@ == b@)
            &&& !is_form_body(ct, b@) && !json_parses(b@) ==> (r matches RequestPlan::PostJson(p)
                && p matches JsonPayload::Text(t) && t@ == b@)
        }),
        (opts.method@ == "PUT"@ || opts.method@ == "DELETE"@ || opts.method@ == "PATCH"@
            || opts.method@ == "HEAD"@) ==> (r matches RequestPlan::Unsupported(m) && m@
            == unsupported_method_message(opts.method@)),
        !(opts.method@ == "POST"@ || opts.method@ == "PUT"@ || opts.method@ == "DELETE"@
            || opts.method@ == "PATCH"@ || opts.method@ == "HEAD"@) ==> r is Get,
{
    let m = opts.method.as_str();
    proof {
        reveal_strlit("POST");
        reveal_strlit("PUT");
        reveal_strlit("DELETE");
        reveal_strlit("PATCH");
        reveal_strlit("HEAD");
        assert("POST"@ != "PUT"@ && "POST"@ != "DELETE"@ && "POST"@ != "PATCH"@ && "POST"@ != "HEAD"@) by {
            assert("POST"@[1] != "PUT"@[1]);
            assert("POST"@.len() != "DELETE"@.len());
            assert("POST"@[0] != "PATCH"@[1] || "POST"@[1] != "PATCH"@[1]);
            assert("POST"@[0] != "HEAD"@[0]);
        }
    }
    if str_eq(m, "POST") {
        match &opts.form_data {
            Some(f) => return RequestPlan::PostForm(clone_pairs(f)),
            None => {},
        }
        match &opts.body {
            Some(b) => {
                let ct = match &opts.headers {
                    Some(h) => find_content_type(h),
                    None => None,
                };
                let form = match &ct {
                    Some(c) => body_is_form(Some(c.as_str()), b.as_str()),
                    None => body_is_form(None, b.as_str()),
                };
                if form {
                    return RequestPlan::PostForm(form_fields(b.as_str()));
                }
                if parses_as_json(b.as_str()) {
                    return RequestPlan::PostJson(JsonPayload::Document(b.clone()));
                }
                return RequestPlan::PostJson(JsonPayload::Text(b.clone()));
            },
            None => return RequestPlan::PostEmpty,
        }
    }
    if str_eq(m, "PUT") || str_eq(m, "DELETE") || str_eq(m, "PATCH") || str_eq(m, "HEAD") {
        let mut msg = String::new();
        push_str(&mut msg, "HTTP method ");
        push_str(&mut msg, m);
        push_str(&mut msg, " is not supported   use GET or POST");
        return RequestPlan::Unsupported(msg);
    }
    RequestPlan::Get
}

/// Request options of a `fetch` call: the script's headers and referer,
/// no timeout.
pub fn fetch_request_options(opts: &FetchOptions) -> (r: RequestOptions)
    ensures
        match opts.headers {
            Some(h) => r.headers matches Some(rh) && pair_views(rh@) == pair_views(h@),
            None => r.headers is None,
        },
        r.timeout_secs is None,
        r.referer == opts.referer,
{
    RequestOptions {
        headers: match &opts.headers {
            Some(h) => Some(clone_pairs(h)),
            None => None,
        },
        timeout_secs: None,
        referer: opts.referer.clone(),
    }
}

/// Message of a failed request, by the request made.
pub open spec fn transport_error_message(plan: RequestPlan, detail: Seq<char>) -> Seq<char> {
    match plan {
        RequestPlan::PostForm(_) => "HTTP POST form error: "@ + detail,
        RequestPlan::PostJson(_) => "HTTP POST error: "@ + detail,
        RequestPlan::PostEmpty => "HTTP POST error: "@ + detail,
        _ => "HTTP GET error: "@ + detail,
    }
}

/// The message a script sees when the request itself failed.
pub fn transport_error(plan: &RequestPlan, detail: &str) -> (r: String)
    ensures
        r@ == transport_error_message(*plan, detail@),
{
    let mut r = String::new();
    match plan {
        RequestPlan::PostForm(_) => push_str(&mut r, "HTTP POST form error: "),
        RequestPlan::PostJson(_) => push_str(&mut r, "HTTP POST error: "),
        RequestPlan::PostEmpty => push_str(&mut r, "HTTP POST error: "),
        _ => push_str(&mut r, "HTTP GET error: "),
    }
    push_str(&mut r, detail);
    r
}

/// The message a script sees when the body could not be read.
pub fn body_read_error(detail: &str) -> (r: String)
    ensures
        r@ == "failed to read response body: "@ + detail@,
{
    let mut r = String::new();
    push_str(&mut r, "failed to read response body: ");
    push_str(&mut r, detail);
    r
}

// ─── the response ─────────────────────────────────────────────────────────

/// What a script reads from a finished request.
#[derive(Debug, Clone)]
pub struct FetchResponse {
    pub status_val: i32,
    pub body: String,
    pub headers: Vec<(String, String)>,
}

impl FetchResponse {
    /// A response with this status, body and headers (each header name
    /// once, with the value it was last given).
    pub fn new(status: u16, body: String, headers: Vec<(String, String)>) -> (r: Self)
        ensures
            r.status_val == status as i32,
            r.body == body,
            pair_views(r.headers@) == last_wins(pair_views(headers@)),
            unique_names(pair_views(r.headers@)),
    {
        FetchResponse { status_val: status as i32, body, headers: keep_last(&headers) }
    }

    /// `response.status`.
    pub fn status(&self) -> (r: i32)
        ensures
            r == self.status_val,
    {
        self.status_val
    }

    /// `response.headers`, as name/value pairs.
    pub fn headers(&self) -> (r: Vec<(String, String)>)
        ensures
            pair_views(r@) == pair_views(self.headers@),
    {
        clone_pairs(&self.headers)
    }

    /// `response.text()`: the whole body.
    pub fn text(&self) -> (r: String)
        ensures
            r@ == self.body@,
    {
        self.body.clone()
    }

    /// `response.bytes()`: the body's UTF-8 bytes, as numbers.
    pub fn bytes(&self) -> (r: Vec<i32>)
        ensures
            r@.len() == encode_utf8(self.body@).len(),
            forall|i: int| 0 <= i < r@.len() ==> r@[i] == encode_utf8(self.body@)[i] as i32,
    {
        let b = self.body.as_str().as_bytes();
        let mut r: Vec<i32> = Vec::new();
        let mut i: usize = 0;
        while i < b.len()
            invariant
                b@ == encode_utf8(self.body@),
                i <= b@.len(),
                r@.len() == i,
                forall|k: int| 0 <= k < i ==> r@[k] == b@[k] as i32,
            decreases b.len() - i,
        {
            r.push(b[i] as i32);
            i = i + 1;
        }
        r
    }
}

} // verus!
