//! Decisions of a script-backed extension: the language it runs in, the
//! preamble that tells the script its language and identifier, and the
//! gate that disables an extension after repeated failures.

use vstd::prelude::*;
use crate::entities::{has_text, contains_text, ExtensionMeta};
use crate::error::{HagitoriError, Result};
use crate::manifest::{display_name_of, version_text, ExtensionManifest};
use crate::numbers::{decimal, decimal_text};
use crate::text::{chars_of, push_char, push_str, str_eq};

verus! {

/// Most script workers alive at once for one extension.
pub const MAX_WORKERS: usize = 5;

/// Consecutive failed calls after which an extension refuses further calls.
pub const MAX_CONSECUTIVE_FAILURES: u32 = 5;

/// Language a script runs in: for a `multi` extension with a language list,
/// `en` when listed, else the first listed; otherwise `lang` itself.
pub open spec fn resolved_lang(lang: Seq<char>, languages: Seq<String>) -> Seq<char> {
    if lang == "multi"@ && languages.len() > 0 {
        if has_text(languages, "en"@) {
            "en"@
        } else {
            languages[0]@
        }
    } else {
        lang
    }
}

/// The language a script runs in.
pub fn resolve_lang(lang: &str, languages: &Vec<String>) -> (r: String)
    ensures
        r@ == resolved_lang(lang@, languages@),
{
    if str_eq(lang, "multi") && languages.len() > 0 {
        if contains_text(languages, "en") {
            return "en".to_owned();
        }
        return languages[0].clone();
    }
    lang.to_owned()
}

/// One character written inside a double-quoted script string.
pub open spec fn escaped_char(c: char) -> Seq<char> {
    if c == '\\' {
        seq!['\\', '\\']
    } else if c == '"' {
        seq!['\\', '"']
    } else {
        seq![c]
    }
}

/// `s` written inside a double-quoted script string: each `\` and `"`
/// preceded by a `\`.
pub open spec fn js_escaped(s: Seq<char>) -> Seq<char>
    decreases s.len(),
{
    if s.len() == 0 {
        Seq::empty()
    } else {
        escaped_char(s[0]) + js_escaped(s.drop_first())
    }
}

/// What a script reads from a double-quoted string body: `\x` stands for
/// `x`.
pub open spec fn js_unescaped(s: Seq<char>) -> Seq<char>
    decreases s.len(),
{
    if s.len() == 0 {
        Seq::empty()
    } else if s[0] == '\\' && s.len() >= 2 {
        seq![s[1]] + js_unescaped(s.skip(2))
    } else {
        seq![s[0]] + js_unescaped(s.skip(1))
    }
}

/// Escaping distributes over appending one character.
proof fn lemma_escaped_push(s: Seq<char>, c: char)
    ensures
        js_escaped(s.push(c)) == js_escaped(s) + escaped_char(c),
    decreases s.len(),
{
    if s.len() == 0 {
        assert(s.push(c).drop_first() =~= Seq::<char>::empty());
        assert(js_escaped(s.push(c)) =~= escaped_char(c) + js_escaped(Seq::<char>::empty()));
        assert(js_escaped(s) + escaped_char(c) =~= escaped_char(c));
    } else {
        assert(s.push(c).drop_first() =~= s.drop_first().push(c));
        lemma_escaped_push(s.drop_first(), c);
        assert(js_escaped(s.push(c)) == escaped_char(s[0]) + js_escaped(s.drop_first().push(c)));
        assert(js_escaped(s.push(c)) =~= escaped_char(s[0]) + js_escaped(s.drop_first()) + escaped_char(c));
    }
}

/// A string written into the script preamble reads back unchanged.
pub proof fn lemma_escape_round_trip(s: Seq<char>)
    ensures
        js_unescaped(js_escaped(s)) == s,
    decreases s.len(),
{
    if s.len() > 0 {
        lemma_escape_round_trip(s.drop_first());
        let e = js_escaped(s);
        let rest = js_escaped(s.drop_first());
        let c = s[0];
        if c == '\\' || c == '"' {
            assert(e.skip(2) =~= rest);
            assert(e[0] == '\\' && e[1] == c);
        } else {
            assert(e.skip(1) =~= rest);
            assert(e[0] == c);
        }
        assert(js_unescaped(e) =~= seq![c] + s.drop_first());
        assert(seq![c] + s.drop_first() =~= s);
    } else {
        assert(js_escaped(s) =~= Seq::<char>::empty());
        assert(s =~= Seq::<char>::empty());
    }
}

/// Appends `s` escaped for a double-quoted script string.
fn push_escaped(r: &mut String, s: &str)
    ensures
        final(r)@ == old(r)@ + js_escaped(s@),
{
    let v = chars_of(s);
    let ghost start = r@;
    let mut i: usize = 0;
    assert(v@.take(0) =~= Seq::<char>::empty());
    while i < v.len()
        invariant
            i <= v.len(),
            v@ == s@,
            r@ == start + js_escaped(v@.take(i as int)),
        decreases v.len() - i,
    {
        let c = v[i];
        if c == '\\' {
            push_char(r, '\\');
            push_char(r, '\\');
        } else if c == '"' {
            push_char(r, '\\');
            push_char(r, '"');
        } else {
            push_char(r, c);
        }
        proof {
            lemma_escaped_push(v@.take(i as int), c);
            assert(v@.take(i + 1) =~= v@.take(i as int).push(c));
        }
        i = i + 1;
    }
    assert(v@.take(v.len() as int) =~= v@);
}

/// The script an extension runs: a preamble defining `__lang__` and
/// `__id__`, then its source.
pub open spec fn script_text(lang: Seq<char>, id: Seq<char>, source: Seq<char>) -> Seq<char> {
    "var __lang__ = \""@ + js_escaped(lang) + "\";\nvar __id__ = \""@ + js_escaped(id) + "\";\n"@
        + source
}

/// The script an extension runs, in language `lang`.
pub fn build_script(lang: &str, id: &str, source: &str) -> (r: String)
    ensures
        r@ == script_text(lang@, id@, source@),
{
    let mut r = String::new();
    push_str(&mut r, "var __lang__ = \"");
    push_escaped(&mut r, lang);
    push_str(&mut r, "\";\nvar __id__ = \"");
    push_escaped(&mut r, id);
    push_str(&mut r, "\";\n");
    push_str(&mut r, source);
    r
}

/// What an extension starts from: its metadata (with the icon found for it)
/// and the script it runs, in its resolved language.
pub fn prepare_extension(manifest: &ExtensionManifest, source: &str, icon: Option<String>) -> (r: (ExtensionMeta, String))
    ensures
        r.0.id@ == manifest.name@,
        r.0.name@ == display_name_of(*manifest),
        r.0.lang@ == manifest.hagitori.lang@,
        r.0.version@ == version_text(manifest.version),
        r.0.domains@ == manifest.hagitori.domains@,
        r.0.features@ == manifest.hagitori.capabilities@,
        r.0.supports_details == manifest.hagitori.supports_details,
        r.0.languages@ == manifest.hagitori.languages@,
        r.0.icon == icon,
        r.1@ == script_text(
            resolved_lang(manifest.hagitori.lang@, manifest.hagitori.languages@),
            manifest.name@,
            source@,
        ),
{
    let mut meta = manifest.to_extension_meta();
    meta.icon = icon;
    let lang = resolve_lang(meta.lang.as_str(), &meta.languages);
    let script = build_script(lang.as_str(), meta.id.as_str(), source);
    (meta, script)
}

/// Switches an extension to language `lang`: the metadata records it and
/// the returned script runs in it.
pub fn switch_lang(meta: &mut ExtensionMeta, lang: &str, source: &str) -> (script: String)
    ensures
        final(meta).lang@ == lang@,
        final(meta).id == old(meta).id,
        final(meta).name == old(meta).name,
        final(meta).version == old(meta).version,
        final(meta).domains == old(meta).domains,
        final(meta).features == old(meta).features,
        final(meta).supports_details == old(meta).supports_details,
        final(meta).languages == old(meta).languages,
        final(meta).icon == old(meta).icon,
        script@ == script_text(lang@, old(meta).id@, source@),
{
    meta.lang = lang.to_owned();
    build_script(lang, meta.id.as_str(), source)
}

/// Message of a call refused after `failures` consecutive failures.
pub open spec fn disabled_message(id: Seq<char>, failures: u32) -> Seq<char> {
    "extension '"@ + id + "' disabled after "@ + decimal(failures as nat) + " consecutive failures"@
}

/// Counts consecutive failed calls of one extension and refuses calls once
/// the count reaches [`MAX_CONSECUTIVE_FAILURES`].
#[derive(Debug, Clone, Copy, PartialEq, Eq, Structural)]
pub struct CallGate {
    pub consecutive_failures: u32,
}

/// Failure count after a call: 0 after a success, one more after a failure.
pub open spec fn failures_after(failures: u32, succeeded: bool) -> u32 {
    if succeeded {
        0
    } else if failures == u32::MAX {
        0
    } else {
        (failures + 1) as u32
    }
}

impl CallGate {
    /// A gate with no failures recorded.
    pub fn new() -> (g: Self)
        ensures
            g.consecutive_failures == 0,
    {
        CallGate { consecutive_failures: 0 }
    }

    /// Whether extension `id` may be called now: refused, with the count in
    /// the message, once the failures reach the limit.
    pub fn allows_call(&self, id: &str) -> (r: Result<()>)
        ensures
            self.consecutive_failures < MAX_CONSECUTIVE_FAILURES <==> r is Ok,
            r matches Err(e) ==> (e matches HagitoriError::Extension(m) && m@ == disabled_message(
                id@,
                self.consecutive_failures,
            )),
    {
        let failures = self.consecutive_failures;
        if failures >= MAX_CONSECUTIVE_FAILURES {
            let mut m = String::new();
            push_str(&mut m, "extension '");
            push_str(&mut m, id);
            push_str(&mut m, "' disabled after ");
            push_str(&mut m, decimal_text(failures as u64).as_str());
            push_str(&mut m, " consecutive failures");
            return Err(HagitoriError::extension(m.as_str()));
        }
        Ok(())
    }

    /// Records the outcome of a call: a success clears the count, a failure
    /// adds one (wrapping as an atomic counter does).
    pub fn record(&mut self, succeeded: bool)
        ensures
            final(self).consecutive_failures == failures_after(old(self).consecutive_failures, succeeded),
    {
        if succeeded {
            self.consecutive_failures = 0;
        } else {
            self.consecutive_failures = self.consecutive_failures.wrapping_add(1);
        }
    }

    /// Clears the count (after a language switch).
    pub fn reset(&mut self)
        ensures
            final(self).consecutive_failures == 0,
    {
        self.consecutive_failures = 0;
    }
}

/// Failure count after `n` consecutive failed calls, starting from `start`.
pub open spec fn count_after_failures(start: u32, n: nat) -> u32
    decreases n,
{
    if n == 0 {
        start
    } else {
        failures_after(count_after_failures(start, (n - 1) as nat), false)
    }
}

/// From a fresh gate, `n` consecutive failures leave the count at `n`, so
/// calls are refused from the limit-th consecutive failure on; a success
/// clears the count whatever it was.
pub proof fn lemma_gate_laws(failures: u32, n: nat)
    requires
        n <= 1000,
    ensures
        count_after_failures(0, n) == n,
        count_after_failures(0, n) < MAX_CONSECUTIVE_FAILURES <==> n < MAX_CONSECUTIVE_FAILURES,
        failures_after(failures, true) == 0,
    decreases n,
{
    if n > 0 {
        lemma_gate_laws(failures, (n - 1) as nat);
    }
}

} // verus!
