//! The library's error types.

use vstd::prelude::*;
use crate::text::push_str;

verus! {

#[verifier::external_type_specification]
#[verifier::external_body]
pub struct ExIoError(std::io::Error);

#[verifier::external_type_specification]
#[verifier::external_body]
pub struct ExJsonError(serde_json::Error);

#[verifier::external_type_specification]
#[verifier::external_body]
pub struct ExUrlParseError(url::ParseError);

#[verifier::external_type_specification]
#[verifier::external_body]
pub struct ExBase64DecodeError(base64::DecodeError);

/// Unified error covering HTTP, browser, extensions, downloads, I/O and
/// configuration.
#[derive(Debug)]
pub enum HagitoriError {
    Http(String),
    Browser(String),
    Extension(String),
    Download(String),
    Io(std::io::Error),
    Json(serde_json::Error),
    UrlParse(url::ParseError),
    Config(String),
}

/// Result alias used across the library.
pub type Result<T> = std::result::Result<T, HagitoriError>;

/// The message carried by a variant that holds text.
pub open spec fn error_text(e: HagitoriError) -> Option<Seq<char>> {
    match e {
        HagitoriError::Http(m) => Some(m@),
        HagitoriError::Browser(m) => Some(m@),
        HagitoriError::Extension(m) => Some(m@),
        HagitoriError::Download(m) => Some(m@),
        HagitoriError::Config(m) => Some(m@),
        _ => None,
    }
}

/// The label that starts the rendered message of each variant.
pub open spec fn error_label(e: HagitoriError) -> Seq<char> {
    match e {
        HagitoriError::Http(_) => "HTTP error: "@,
        HagitoriError::Browser(_) => "browser error: "@,
        HagitoriError::Extension(_) => "extension error: "@,
        HagitoriError::Download(_) => "download error: "@,
        HagitoriError::Io(_) => "I/O error: "@,
        HagitoriError::Json(_) => "JSON error: "@,
        HagitoriError::UrlParse(_) => "URL parse error: "@,
        HagitoriError::Config(_) => "config error: "@,
    }
}

fn owned(msg: &str) -> (r: String)
    ensures
        r@ == msg@,
{
    msg.to_owned()
}

impl HagitoriError {
    /// An HTTP error with the given message.
    pub fn http(msg: &str) -> (e: Self)
        ensures
            e matches HagitoriError::Http(m) && m@ == msg@,
    {
        HagitoriError::Http(owned(msg))
    }

    /// A browser error with the given message.
    pub fn browser(msg: &str) -> (e: Self)
        ensures
            e matches HagitoriError::Browser(m) && m@ == msg@,
    {
        HagitoriError::Browser(owned(msg))
    }

    /// An extension error with the given message.
    pub fn extension(msg: &str) -> (e: Self)
        ensures
            e matches HagitoriError::Extension(m) && m@ == msg@,
    {
        HagitoriError::Extension(owned(msg))
    }

    /// A download error with the given message.
    pub fn download(msg: &str) -> (e: Self)
        ensures
            e matches HagitoriError::Download(m) && m@ == msg@,
    {
        HagitoriError::Download(owned(msg))
    }

    /// A configuration error with the given message.
    pub fn config(msg: &str) -> (e: Self)
        ensures
            e matches HagitoriError::Config(m) && m@ == msg@,
    {
        HagitoriError::Config(owned(msg))
    }

    /// The rendered message: the variant's label followed by its text (for
    /// wrapped I/O, JSON and URL errors, by the wrapped error's own text).
    pub fn message(&self) -> (r: String)
        ensures
            r@.len() >= error_label(*self).len(),
            r@.subrange(0, error_label(*self).len() as int) == error_label(*self),
            error_text(*self) matches Some(t) ==> r@ == error_label(*self) + t,
    {
        let mut r = String::new();
        match self {
            HagitoriError::Http(m) => {
                push_str(&mut r, "HTTP error: ");
                push_str(&mut r, m.as_str());
            },
            HagitoriError::Browser(m) => {
                push_str(&mut r, "browser error: ");
                push_str(&mut r, m.as_str());
            },
            HagitoriError::Extension(m) => {
                push_str(&mut r, "extension error: ");
                push_str(&mut r, m.as_str());
            },
            HagitoriError::Download(m) => {
                push_str(&mut r, "download error: ");
                push_str(&mut r, m.as_str());
            },
            HagitoriError::Io(e) => {
                push_str(&mut r, "I/O error: ");
                let t = e.to_string();
                push_str(&mut r, t.as_str());
            },
            HagitoriError::Json(e) => {
                push_str(&mut r, "JSON error: ");
                let t = e.to_string();
                push_str(&mut r, t.as_str());
            },
            HagitoriError::UrlParse(e) => {
                push_str(&mut r, "URL parse error: ");
                let t = e.to_string();
                push_str(&mut r, t.as_str());
            },
            HagitoriError::Config(m) => {
                push_str(&mut r, "config error: ");
                push_str(&mut r, m.as_str());
            },
        }
        assert(r@.subrange(0, error_label(*self).len() as int) =~= error_label(*self));
        r
    }
}

impl From<std::io::Error> for HagitoriError {
    fn from(e: std::io::Error) -> (r: Self) {
        HagitoriError::Io(e)
    }
}

impl vstd::std_specs::convert::FromSpecImpl<std::io::Error> for HagitoriError {
    open spec fn obeys_from_spec() -> bool {
        true
    }

    open spec fn from_spec(e: std::io::Error) -> Self {
        HagitoriError::Io(e)
    }
}

impl From<serde_json::Error> for HagitoriError {
    fn from(e: serde_json::Error) -> (r: Self) {
        HagitoriError::Json(e)
    }
}

impl vstd::std_specs::convert::FromSpecImpl<serde_json::Error> for HagitoriError {
    open spec fn obeys_from_spec() -> bool {
        true
    }

    open spec fn from_spec(e: serde_json::Error) -> Self {
        HagitoriError::Json(e)
    }
}

impl From<url::ParseError> for HagitoriError {
    fn from(e: url::ParseError) -> (r: Self) {
        HagitoriError::UrlParse(e)
    }
}

impl vstd::std_specs::convert::FromSpecImpl<url::ParseError> for HagitoriError {
    open spec fn obeys_from_spec() -> bool {
        true
    }

    open spec fn from_spec(e: url::ParseError) -> Self {
        HagitoriError::UrlParse(e)
    }
}


// ─── browser errors ───────────────────────────────────────────────────────

/// Errors of the browser layer: finding and launching Chrome, pages, and
/// the Cloudflare bypass.
#[derive(Debug)]
pub enum BrowserError {
    ChromeNotFound,
    ProfileCreation(String),
    ConfigBuild(String),
    Interaction(String),
    UrlParse(url::ParseError),
    CloudflareTimeout(String),
    Base64Decode(base64::DecodeError),
    /// A DevTools protocol failure, by its message.
    Cdp(String),
    UnsupportedPlatform(String),
    Json(serde_json::Error),
    Io(std::io::Error),
}

/// The rendered message of a browser error whose text the library holds;
/// `None` for wrapped URL, base64, JSON and I/O errors.
pub open spec fn browser_error_message(e: BrowserError) -> Option<Seq<char>> {
    match e {
        BrowserError::ChromeNotFound => Some("chrome/chromium not found on the system"@),
        BrowserError::ProfileCreation(m) => Some("failed to create profile: "@ + m@),
        BrowserError::ConfigBuild(m) => Some("configuration error: "@ + m@),
        BrowserError::Interaction(m) => Some("interaction error: "@ + m@),
        BrowserError::CloudflareTimeout(m) => Some(m@),
        BrowserError::Cdp(m) => Some(m@),
        BrowserError::UnsupportedPlatform(m) => Some("unsupported platform: "@ + m@),
        _ => None,
    }
}

/// The label that starts the message of a wrapped error.
pub open spec fn browser_error_label(e: BrowserError) -> Seq<char> {
    match e {
        BrowserError::UrlParse(_) => "invalid URL: "@,
        BrowserError::Base64Decode(_) => "base64 decode failed: "@,
        _ => Seq::empty(),
    }
}

impl BrowserError {
    /// The rendered message: fixed text and the variant's message; wrapped
    /// errors render as their own text, behind a label for URL and base64
    /// errors.
    pub fn message(&self) -> (r: String)
        ensures
            browser_error_message(*self) matches Some(m) ==> r@ == m,
            browser_error_message(*self) is None ==> r@.len() >= browser_error_label(*self).len()
                && r@.subrange(0, browser_error_label(*self).len() as int) == browser_error_label(*self),
    {
        let mut r = String::new();
        match self {
            BrowserError::ChromeNotFound => {
                push_str(&mut r, "chrome/chromium not found on the system");
            },
            BrowserError::ProfileCreation(m) => {
                push_str(&mut r, "failed to create profile: ");
                push_str(&mut r, m.as_str());
            },
            BrowserError::ConfigBuild(m) => {
                push_str(&mut r, "configuration error: ");
                push_str(&mut r, m.as_str());
            },
            BrowserError::Interaction(m) => {
                push_str(&mut r, "interaction error: ");
                push_str(&mut r, m.as_str());
            },
            BrowserError::UrlParse(e) => {
                push_str(&mut r, "invalid URL: ");
                let t = e.to_string();
                push_str(&mut r, t.as_str());
            },
            BrowserError::CloudflareTimeout(m) => {
                push_str(&mut r, m.as_str());
            },
            BrowserError::Base64Decode(e) => {
                push_str(&mut r, "base64 decode failed: ");
                let t = e.to_string();
                push_str(&mut r, t.as_str());
            },
            BrowserError::Cdp(m) => {
                push_str(&mut r, m.as_str());
            },
            BrowserError::UnsupportedPlatform(m) => {
                push_str(&mut r, "unsupported platform: ");
                push_str(&mut r, m.as_str());
            },
            BrowserError::Json(e) => {
                let t = e.to_string();
                push_str(&mut r, t.as_str());
            },
            BrowserError::Io(e) => {
                let t = e.to_string();
                push_str(&mut r, t.as_str());
            },
        }
        assert(r@.subrange(0, browser_error_label(*self).len() as int) =~= browser_error_label(*self));
        r
    }
}

impl From<url::ParseError> for BrowserError {
    fn from(e: url::ParseError) -> (r: Self) {
        BrowserError::UrlParse(e)
    }
}

impl vstd::std_specs::convert::FromSpecImpl<url::ParseError> for BrowserError {
    open spec fn obeys_from_spec() -> bool {
        true
    }

    open spec fn from_spec(e: url::ParseError) -> Self {
        BrowserError::UrlParse(e)
    }
}

impl From<base64::DecodeError> for BrowserError {
    fn from(e: base64::DecodeError) -> (r: Self) {
        BrowserError::Base64Decode(e)
    }
}

impl vstd::std_specs::convert::FromSpecImpl<base64::DecodeError> for BrowserError {
    open spec fn obeys_from_spec() -> bool {
        true
    }

    open spec fn from_spec(e: base64::DecodeError) -> Self {
        BrowserError::Base64Decode(e)
    }
}

impl From<serde_json::Error> for BrowserError {
    fn from(e: serde_json::Error) -> (r: Self) {
        BrowserError::Json(e)
    }
}

impl vstd::std_specs::convert::FromSpecImpl<serde_json::Error> for BrowserError {
    open spec fn obeys_from_spec() -> bool {
        true
    }

    open spec fn from_spec(e: serde_json::Error) -> Self {
        BrowserError::Json(e)
    }
}

impl From<std::io::Error> for BrowserError {
    fn from(e: std::io::Error) -> (r: Self) {
        BrowserError::Io(e)
    }
}

impl vstd::std_specs::convert::FromSpecImpl<std::io::Error> for BrowserError {
    open spec fn obeys_from_spec() -> bool {
        true
    }

    open spec fn from_spec(e: std::io::Error) -> Self {
        BrowserError::Io(e)
    }
}

} // verus!
