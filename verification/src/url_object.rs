//! The `URL` class offered to extension scripts: a URL parsed (optionally
//! against a base) and split into the parts scripts read.

use vstd::prelude::*;
use crate::numbers::{decimal, decimal_text};
use crate::search_params::{form_serialized, query_entries, UrlSearchParams};
use crate::text::{push_char, push_str};

verus! {

/// The parts of a parsed URL, as the `url` crate reports them.
#[derive(Debug, Clone)]
pub struct UrlParts {
    pub href: String,
    pub scheme: String,
    pub host: Option<String>,
    pub port: Option<u16>,
    pub path: String,
    pub query: Option<String>,
    pub fragment: Option<String>,
    /// ASCII serialization of the origin.
    pub origin: String,
    pub username: String,
    pub password: Option<String>,
}

/// Text of an optional string.
pub open spec fn opt_view(o: Option<String>) -> Option<Seq<char>> {
    match o {
        Some(s) => Some(s@),
        None => None,
    }
}

/// Plain text of every part, in field order.
pub open spec fn parts_view(p: UrlParts) -> (Seq<char>, Seq<char>, Option<Seq<char>>, Option<u16>, Seq<char>, Option<Seq<char>>, Option<Seq<char>>, Seq<char>, Seq<char>, Option<Seq<char>>) {
    (p.href@, p.scheme@, opt_view(p.host), p.port, p.path@, opt_view(p.query), opt_view(p.fragment), p.origin@, p.username@, opt_view(p.password))
}

/// Parts of `input` parsed as an absolute URL (`url::Url::parse`), if it
/// parses.
pub uninterp spec fn parsed_url(input: Seq<char>) -> Option<(Seq<char>, Seq<char>, Option<Seq<char>>, Option<u16>, Seq<char>, Option<Seq<char>>, Option<Seq<char>>, Seq<char>, Seq<char>, Option<Seq<char>>)>;

/// Parts of `input` resolved against the URL `base` (`url::Url::join`), if
/// it resolves.
pub uninterp spec fn joined_url(base: Seq<char>, input: Seq<char>) -> Option<(Seq<char>, Seq<char>, Option<Seq<char>>, Option<u16>, Seq<char>, Option<Seq<char>>, Option<Seq<char>>, Seq<char>, Seq<char>, Option<Seq<char>>)>;

/// Calls `url::Url::parse` and reads the parsed URL's parts (its text,
/// `scheme`, `host_str`, `port`, `path`, `query`, `fragment`,
/// `origin().ascii_serialization()`, `username`, `password`). Claimed: the
/// outcome depends on the input alone. On failure, the error's text.
#[verifier::external_body]
fn parse_url(input: &str) -> (r: Result<UrlParts, String>)
    ensures
        r matches Ok(p) ==> parsed_url(input@) == Some(parts_view(p)),
        r is Err ==> parsed_url(input@) is None,
{
    match url::Url::parse(input) {
        Ok(u) => Ok(UrlParts {
            href: u.to_string(), scheme: u.scheme().to_string(),
            host: u.host_str().map(str::to_string), port: u.port(),
            path: u.path().to_string(), query: u.query().map(str::to_string),
            fragment: u.fragment().map(str::to_string), origin: u.origin().ascii_serialization(),
            username: u.username().to_string(), password: u.password().map(str::to_string),
        }),
        Err(e) => Err(e.to_string()),
    }
}

/// Calls `url::Url::parse` on `base` and `url::Url::join` with `input`,
/// reading the parts as `parse_url` does. Claimed: the outcome depends on
/// the two texts alone. On failure, the error's text.
#[verifier::external_body]
fn join_url(base: &str, input: &str) -> (r: Result<UrlParts, String>)
    requires
        parsed_url(base@) is Some,
    ensures
        r matches Ok(p) ==> joined_url(base@, input@) == Some(parts_view(p)),
        r is Err ==> joined_url(base@, input@) is None,
{
    let joined = match url::Url::parse(base) {
        Ok(b) => b.join(input),
        Err(e) => Err(e),
    };
    match joined {
        Ok(u) => Ok(UrlParts {
            href: u.to_string(), scheme: u.scheme().to_string(),
            host: u.host_str().map(str::to_string), port: u.port(),
            path: u.path().to_string(), query: u.query().map(str::to_string),
            fragment: u.fragment().map(str::to_string), origin: u.origin().ascii_serialization(),
            username: u.username().to_string(), password: u.password().map(str::to_string),
        }),
        Err(e) => Err(e.to_string()),
    }
}

/// The parts of `input`, resolved against `base` when one is given.
pub fn resolve_url(input: &str, base: Option<&str>) -> (r: Result<UrlParts, String>)
    ensures
        base is None ==> (match r {
            Ok(p) => parsed_url(input@) == Some(parts_view(p)),
            Err(m) => parsed_url(input@) is None && exists|d: Seq<char>| m@ == "Invalid URL: "@ + d,
        }),
        base matches Some(b) ==> (match r {
            Ok(p) => parsed_url(b@) is Some && joined_url(b@, input@) == Some(parts_view(p)),
            Err(m) => (parsed_url(b@) is None && exists|d: Seq<char>| m@ == "Invalid base URL: "@ + d)
                || (parsed_url(b@) is Some && joined_url(b@, input@) is None && exists|d: Seq<char>|
                m@ == "Invalid URL: "@ + d),
        }),
{
    match base {
        Some(b) => match parse_url(b) {
            Err(e) => {
                let mut m = String::new();
                push_str(&mut m, "Invalid base URL: ");
                push_str(&mut m, e.as_str());
                Err(m)
            },
            Ok(_) => match join_url(b, input) {
                Ok(p) => Ok(p),
                Err(e) => {
                    let mut m = String::new();
                    push_str(&mut m, "Invalid URL: ");
                    push_str(&mut m, e.as_str());
                    Err(m)
                },
            },
        },
        None => match parse_url(input) {
            Ok(p) => Ok(p),
            Err(e) => {
                let mut m = String::new();
                push_str(&mut m, "Invalid URL: ");
                push_str(&mut m, e.as_str());
                Err(m)
            },
        },
    }
}

/// The host of a URL, when it parses: its host name, or empty without one.
pub fn url_host(url: &str) -> (r: Option<String>)
    ensures
        match parsed_url(url@) {
            Some(p) => r matches Some(h) && h@ == (match p.2 {
                Some(x) => x,
                None => Seq::<char>::empty(),
            }),
            None => r is None,
        },
{
    match parse_url(url) {
        Ok(p) => match p.host {
            Some(h) => Some(h),
            None => Some(String::new()),
        },
        Err(_) => None,
    }
}

/// What a script's `URL` object holds.
#[derive(Debug, Clone)]
pub struct UrlObject {
    pub href: String,
    /// Scheme followed by `:`.
    pub protocol: String,
    /// Host name, or empty.
    pub hostname: String,
    /// Port number text, or empty.
    pub port: String,
    /// Host name, with `:port` when a port is given.
    pub host: String,
    pub pathname: String,
    /// `?` and the query, or empty without a query.
    pub search: String,
    /// `#` and the fragment, or empty without a fragment.
    pub hash: String,
    pub origin: String,
    pub username: String,
    /// Password, or empty.
    pub password: String,
    /// The query's pairs.
    pub search_params: UrlSearchParams,
}

/// `s`, or empty when absent.
pub open spec fn or_empty(s: Option<Seq<char>>) -> Seq<char> {
    match s {
        Some(x) => x,
        None => Seq::empty(),
    }
}

/// `prefix` then `s` when present, else empty.
pub open spec fn prefixed_or_empty(prefix: Seq<char>, s: Option<Seq<char>>) -> Seq<char> {
    match s {
        Some(x) => prefix + x,
        None => Seq::empty(),
    }
}

/// The `URL` object fields read from the text of parsed parts.
pub open spec fn url_object_of(o: UrlObject, p: (Seq<char>, Seq<char>, Option<Seq<char>>, Option<u16>, Seq<char>, Option<Seq<char>>, Option<Seq<char>>, Seq<char>, Seq<char>, Option<Seq<char>>)) -> bool {
    &&& o.href@ == p.0
    &&& o.protocol@ == p.1 + seq![':']
    &&& o.hostname@ == or_empty(p.2)
    &&& o.port@ == (match p.3 {
        Some(n) => decimal(n as nat),
        None => Seq::empty(),
    })
    &&& o.host@ == (match p.3 {
        Some(n) => or_empty(p.2) + seq![':'] + decimal(n as nat),
        None => or_empty(p.2),
    })
    &&& o.pathname@ == p.4
    &&& o.search@ == prefixed_or_empty(seq!['?'], p.5)
    &&& o.hash@ == prefixed_or_empty(seq!['#'], p.6)
    &&& o.origin@ == p.7
    &&& o.username@ == p.8
    &&& o.password@ == or_empty(p.9)
    &&& o.search_params.data@ == form_serialized(query_entries(Some(or_empty(p.5))))
}

fn text_of(s: &Option<String>) -> (r: String)
    ensures
        r@ == or_empty(opt_view(*s)),
{
    match s {
        Some(x) => x.clone(),
        None => String::new(),
    }
}

impl UrlObject {
    /// The object a script's `URL` class builds from parsed parts.
    pub fn from_parts(p: &UrlParts) -> (o: Self)
        ensures
            url_object_of(o, parts_view(*p)),
    {
        let mut protocol = p.scheme.clone();
        push_char(&mut protocol, ':');
        assert(protocol@ =~= p.scheme@ + seq![':']);
        let hostname = text_of(&p.host);
        let (port, host) = match p.port {
            Some(n) => {
                let t = decimal_text(n as u64);
                let mut h = hostname.clone();
                push_char(&mut h, ':');
                push_str(&mut h, t.as_str());
                assert(h@ =~= hostname@ + seq![':'] + t@);
                (t, h)
            },
            None => (String::new(), hostname.clone()),
        };
        let search = match &p.query {
            Some(q) => {
                let mut s = String::new();
                push_char(&mut s, '?');
                push_str(&mut s, q.as_str());
                s
            },
            None => String::new(),
        };
        let hash = match &p.fragment {
            Some(f) => {
                let mut s = String::new();
                push_char(&mut s, '#');
                push_str(&mut s, f.as_str());
                s
            },
            None => String::new(),
        };
        let query_text = text_of(&p.query);
        let search_params = UrlSearchParams::new(Some(query_text.as_str()));
        UrlObject {
            href: p.href.clone(),
            protocol,
            hostname,
            port,
            host,
            pathname: p.path.clone(),
            search,
            hash,
            origin: p.origin.clone(),
            username: p.username.clone(),
            password: text_of(&p.password),
            search_params,
        }
    }

    /// `new URL(input, base?)`: the object, or the message of the failure.
    pub fn new(input: &str, base: Option<&str>) -> (r: Result<Self, String>)
        ensures
            base is None ==> (match r {
                Ok(o) => parsed_url(input@) matches Some(pv) && url_object_of(o, pv),
                Err(_) => parsed_url(input@) is None,
            }),
            base matches Some(b) ==> (match r {
                Ok(o) => joined_url(b@, input@) matches Some(pv) && url_object_of(o, pv),
                Err(_) => parsed_url(b@) is None || joined_url(b@, input@) is None,
            }),
    {
        match resolve_url(input, base) {
            Ok(p) => {
                let o = UrlObject::from_parts(&p);
                Ok(o)
            },
            Err(m) => Err(m),
        }
    }

    /// `url.toString()`: the whole URL.
    pub fn to_href(&self) -> (r: String)
        ensures
            r@ == self.href@,
    {
        self.href.clone()
    }
}

} // verus!
