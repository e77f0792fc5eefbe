//! Extension manifests (`package.json`): identity, display name, version
//! text and validation.

use vstd::prelude::*;
use crate::entities::{has_text, contains_text, ExtensionMeta};
use crate::error::{HagitoriError, Result};
use crate::numbers::{decimal, decimal_text};
use crate::text::{chars_of, clone_strings, push_str, push_chars, string_of_range};

verus! {

/// Extension API version this runtime implements.
pub const CURRENT_API_VERSION: u32 = 1;

/// The `hagitori` block of a manifest.
#[derive(Debug, Clone)]
pub struct HagitoriFields {
    /// API version the extension expects.
    pub api_version: u32,
    /// Extension type (`type` in the file).
    pub extension_type: String,
    pub lang: String,
    pub domains: Vec<String>,
    /// Required capabilities, such as `browser` or `crypto`.
    pub capabilities: Vec<String>,
    pub supports_details: bool,
    pub languages: Vec<String>,
    pub display_name: Option<String>,
    /// Icon path, relative to the extension directory.
    pub icon: Option<String>,
}

/// A parsed `package.json`.
#[derive(Debug, Clone)]
pub struct ExtensionManifest {
    /// Extension identifier, `hagitori.{lang}.{name}`.
    pub name: String,
    pub version: u32,
    pub description: Option<String>,
    /// Script entry point, relative to the extension directory.
    pub main: String,
    pub hagitori: HagitoriFields,
}

/// The part of `s` after its last `.` (all of `s` when it has none).
pub open spec fn after_last_dot(s: Seq<char>) -> Seq<char>
    decreases s.len(),
{
    if s.len() == 0 {
        s
    } else if s.last() == '.' {
        Seq::empty()
    } else {
        after_last_dot(s.drop_last()).push(s.last())
    }
}

/// Uppercase mapping of one character (std `char::to_uppercase`).
pub uninterp spec fn char_upper(c: char) -> Seq<char>;

/// Calls std `char::to_uppercase` and collects it. Claimed: the result
/// depends on the character alone; `a`..`z` map to `A`..`Z` and every other
/// ASCII character to itself.
#[verifier::external_body]
fn upper_of(c: char) -> (r: String)
    ensures
        r@ == char_upper(c),
        'a' <= c <= 'z' ==> r@ == seq![((c as u32) - 32) as char],
        (c as u32) < 128 && !('a' <= c <= 'z') ==> r@ == seq![c],
{
    c.to_uppercase().collect()
}

/// The uppercase form of one character: `a`..`z` become `A`..`Z`, other
/// ASCII characters stay as they are, and any other character maps as std
/// uppercasing does.
pub open spec fn upper_text(c: char) -> Seq<char> {
    if 'a' <= c <= 'z' {
        seq![((c as u32) - 32) as char]
    } else if (c as u32) < 128 {
        seq![c]
    } else {
        char_upper(c)
    }
}

/// `s` with its first character uppercased.
pub open spec fn capitalized(s: Seq<char>) -> Seq<char> {
    if s.len() == 0 {
        s
    } else {
        upper_text(s[0]) + s.drop_first()
    }
}

/// Name shown to users: `hagitori.displayName` when present and not empty,
/// else the last dot-separated part of the identifier, capitalized.
pub open spec fn display_name_of(m: ExtensionManifest) -> Seq<char> {
    match m.hagitori.display_name {
        Some(dn) if dn@.len() > 0 => dn@,
        _ => capitalized(after_last_dot(m.name@)),
    }
}

/// Version text `0.1.{version - 1}` (0 stays 0).
pub open spec fn version_text(version: u32) -> Seq<char> {
    "0.1."@ + decimal(if version == 0 { 0nat } else { (version - 1) as nat })
}

/// The first problem that makes a manifest invalid, in the order checked.
pub open spec fn manifest_problem(m: ExtensionManifest) -> Option<Seq<char>> {
    if m.name@.len() == 0 {
        Some("package.json: 'name' is required"@)
    } else if m.main@.len() == 0 {
        Some("package.json: 'main' is required"@)
    } else if m.version == 0 {
        Some("package.json: 'version' must be >= 1"@)
    } else if m.hagitori.domains@.len() == 0 {
        Some("package.json: 'hagitori.domains' must contain at least one domain"@)
    } else if m.hagitori.lang@.len() == 0 {
        Some("package.json: 'hagitori.lang' is required"@)
    } else if m.hagitori.extension_type@.len() == 0 {
        Some("package.json: 'hagitori.type' is required"@)
    } else {
        None
    }
}

/// Why the runtime cannot load an extension of this API version, if so.
pub open spec fn api_version_problem(m: ExtensionManifest) -> Option<Seq<char>> {
    if m.hagitori.api_version > CURRENT_API_VERSION {
        Some("extension '"@ + m.name@ + "' requires API v"@ + decimal(m.hagitori.api_version as nat)
            + ", but runtime supports up to v"@ + decimal(CURRENT_API_VERSION as nat) + ". update Hagitori."@)
    } else if m.hagitori.api_version == 0 {
        Some("extension '"@ + m.name@ + "': apiVersion must be >= 1"@)
    } else {
        None
    }
}

/// The first reason to refuse a manifest: a missing field, then an
/// unsupported API version.
pub open spec fn first_problem(m: ExtensionManifest) -> Option<Seq<char>> {
    match manifest_problem(m) {
        Some(p) => Some(p),
        None => api_version_problem(m),
    }
}

/// `r` is `Ok` exactly when `problem` is `None`, and otherwise an extension
/// error carrying that text.
pub open spec fn reports(r: Result<()>, problem: Option<Seq<char>>) -> bool {
    match problem {
        None => r is Ok,
        Some(p) => r matches Err(e) && e matches HagitoriError::Extension(msg) && msg@ == p,
    }
}

/// Index just past the last `.` of `v`, or 0.
fn after_last_dot_start(v: &Vec<char>) -> (k: usize)
    ensures
        k <= v.len(),
        v@.subrange(k as int, v@.len() as int) == after_last_dot(v@),
{
    let mut k: usize = v.len();
    assert(v@.subrange(0, k as int) =~= v@);
    assert(v@.subrange(k as int, k as int) =~= Seq::<char>::empty());
    assert(after_last_dot(v@) =~= after_last_dot(v@) + Seq::<char>::empty());
    while k > 0
        invariant
            k <= v.len(),
            after_last_dot(v@) == after_last_dot(v@.subrange(0, k as int)) + v@.subrange(k as int, v@.len() as int),
        decreases k,
    {
        let ghost pre = v@.subrange(0, k as int);
        assert(pre.drop_last() =~= v@.subrange(0, k - 1));
        if v[k - 1] == '.' {
            assert(v@.subrange(k as int, v@.len() as int) =~= Seq::<char>::empty() + v@.subrange(k as int, v@.len() as int));
            return k;
        }
        assert(v@.subrange(k - 1, v@.len() as int) =~= seq![v@[k - 1]] + v@.subrange(k as int, v@.len() as int));
        k = k - 1;
    }
    assert(v@.subrange(0, 0) =~= Seq::<char>::empty());
    k
}

impl ExtensionManifest {
    /// The extension identifier.
    pub fn id(&self) -> (r: &str)
        ensures
            r@ == self.name@,
    {
        self.name.as_str()
    }

    /// Name shown to users.
    pub fn display_name(&self) -> (r: String)
        ensures
            r@ == display_name_of(*self),
    {
        match &self.hagitori.display_name {
            Some(dn) => {
                if !dn.as_str().is_empty() {
                    return dn.clone();
                }
            },
            None => {},
        }
        let v = chars_of(self.id());
        let k = after_last_dot_start(&v);
        if k == v.len() {
            return string_of_range(&v, k, k);
        }
        let mut r = upper_of(v[k]);
        let rest = string_of_range(&v, k + 1, v.len());
        push_str(&mut r, rest.as_str());
        proof {
            let last = v@.subrange(k as int, v@.len() as int);
            assert(last.drop_first() =~= v@.subrange(k + 1, v@.len() as int));
        }
        r
    }

    /// Version text, `0.1.{version - 1}`.
    pub fn version_string(&self) -> (r: String)
        ensures
            r@ == version_text(self.version),
    {
        let mut r = String::new();
        push_str(&mut r, "0.1.");
        let n: u32 = if self.version == 0 { 0 } else { self.version - 1 };
        push_str(&mut r, decimal_text(n as u64).as_str());
        r
    }

    /// The script entry point.
    pub fn entry_point(&self) -> (r: &str)
        ensures
            r@ == self.main@,
    {
        self.main.as_str()
    }

    /// The extension asks for a browser.
    pub fn requires_browser(&self) -> (b: bool)
        ensures
            b == has_text(self.hagitori.capabilities@, "browser"@),
    {
        contains_text(&self.hagitori.capabilities, "browser")
    }

    /// The extension asks for crypto helpers.
    pub fn requires_crypto(&self) -> (b: bool)
        ensures
            b == has_text(self.hagitori.capabilities@, "crypto"@),
    {
        contains_text(&self.hagitori.capabilities, "crypto")
    }

    /// Provider metadata described by this manifest (no icon).
    pub fn to_extension_meta(&self) -> (m: ExtensionMeta)
        ensures
            m.id@ == self.name@,
            m.name@ == display_name_of(*self),
            m.lang@ == self.hagitori.lang@,
            m.version@ == version_text(self.version),
            m.domains@ == self.hagitori.domains@,
            m.features@ == self.hagitori.capabilities@,
            m.supports_details == self.hagitori.supports_details,
            m.languages@ == self.hagitori.languages@,
            m.icon is None,
    {
        let name = self.display_name();
        let version = self.version_string();
        ExtensionMeta::new(
            self.id(),
            name.as_str(),
            self.hagitori.lang.as_str(),
            version.as_str(),
            clone_strings(&self.hagitori.domains),
        ).with_features(clone_strings(&self.hagitori.capabilities)).with_supports_details(
            self.hagitori.supports_details,
        ).with_languages(clone_strings(&self.hagitori.languages))
    }

    /// Checks the required fields, reporting the first missing one.
    pub fn validate(&self) -> (r: Result<()>)
        ensures
            reports(r, manifest_problem(*self)),
    {
        if self.name.as_str().is_empty() {
            return Err(HagitoriError::extension("package.json: 'name' is required"));
        }
        if self.main.as_str().is_empty() {
            return Err(HagitoriError::extension("package.json: 'main' is required"));
        }
        if self.version == 0 {
            return Err(HagitoriError::extension("package.json: 'version' must be >= 1"));
        }
        if self.hagitori.domains.len() == 0 {
            return Err(
                HagitoriError::extension(
                    "package.json: 'hagitori.domains' must contain at least one domain",
                ),
            );
        }
        if self.hagitori.lang.as_str().is_empty() {
            return Err(HagitoriError::extension("package.json: 'hagitori.lang' is required"));
        }
        if self.hagitori.extension_type.as_str().is_empty() {
            return Err(HagitoriError::extension("package.json: 'hagitori.type' is required"));
        }
        Ok(())
    }

    /// Checks that the runtime implements the API version the extension
    /// expects.
    pub fn validate_api_version(&self) -> (r: Result<()>)
        ensures
            reports(r, api_version_problem(*self)),
    {
        if self.hagitori.api_version > CURRENT_API_VERSION {
            let mut m = String::new();
            push_str(&mut m, "extension '");
            push_str(&mut m, self.name.as_str());
            push_str(&mut m, "' requires API v");
            push_str(&mut m, decimal_text(self.hagitori.api_version as u64).as_str());
            push_str(&mut m, ", but runtime supports up to v");
            push_str(&mut m, decimal_text(CURRENT_API_VERSION as u64).as_str());
            push_str(&mut m, ". update Hagitori.");
            return Err(HagitoriError::extension(m.as_str()));
        }
        if self.hagitori.api_version == 0 {
            let mut m = String::new();
            push_str(&mut m, "extension '");
            push_str(&mut m, self.name.as_str());
            push_str(&mut m, "': apiVersion must be >= 1");
            return Err(HagitoriError::extension(m.as_str()));
        }
        Ok(())
    }

    /// A parsed manifest, accepted only when its fields and API version are
    /// valid: the checks made after reading `package.json`.
    pub fn checked(self) -> (r: Result<Self>)
        ensures
            first_problem(self) matches Some(p) ==> (r matches Err(e) && e matches HagitoriError::Extension(msg) && msg@ == p),
            first_problem(self) is None ==> r == Ok::<Self, HagitoriError>(self),
    {
        match self.validate() {
            Err(e) => return Err(e),
            Ok(()) => {},
        }
        match self.validate_api_version() {
            Err(e) => return Err(e),
            Ok(()) => {},
        }
        Ok(self)
    }
}

} // verus!
