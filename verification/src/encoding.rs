//! Text and byte encodings offered to extension scripts: base64 (`atob`,
//! `btoa`), UTF-8 (`TextEncoder`, `TextDecoder`), icon data URLs and
//! console lines.

use vstd::prelude::*;
use vstd::utf8::{decode_utf8, encode_utf8, valid_utf8};
use base64::Engine;
use crate::error::{HagitoriError, Result};
use crate::text::{join, push_char, push_str};

verus! {

/// Standard base64 text (with padding) of a byte string.
pub uninterp spec fn base64_encoded(data: Seq<u8>) -> Seq<char>;

/// Bytes that a standard base64 text stands for, if it is well formed.
pub uninterp spec fn base64_decoded(text: Seq<char>) -> Option<Seq<u8>>;

/// Calls `base64::engine::general_purpose::STANDARD.encode`. Claimed: the
/// text depends on the bytes alone.
#[verifier::external_body]
fn base64_encode(data: &[u8]) -> (r: String)
    requires
        data@.len() <= usize::MAX / 4,
    ensures
        r@ == base64_encoded(data@),
{
    base64::engine::general_purpose::STANDARD.encode(data)
}

/// Calls `base64::engine::general_purpose::STANDARD.decode`. Claimed: the
/// outcome depends on the text alone, and text made by the standard
/// encoder decodes back to the bytes it was made from. On failure, the
/// error's text.
#[verifier::external_body]
pub(crate) fn base64_decode(text: &str) -> (r: std::result::Result<Vec<u8>, String>)
    ensures
        r matches Ok(b) ==> base64_decoded(text@) == Some(b@),
        r is Err ==> base64_decoded(text@) is None,
        r is Err ==> forall|d: Seq<u8>| text@ != base64_encoded(d),
        r matches Ok(b) ==> forall|d: Seq<u8>| text@ == base64_encoded(d) ==> b@ == d,
{
    match base64::engine::general_purpose::STANDARD.decode(text.as_bytes()) {
        Ok(b) => Ok(b),
        Err(e) => Err(e.to_string()),
    }
}

/// Calls std `String::from_utf8`. Claimed, as std documents: `Ok` exactly
/// for valid UTF-8, holding the characters the bytes encode. On failure,
/// the error's text.
#[verifier::external_body]
pub(crate) fn utf8_string(bytes: Vec<u8>) -> (r: std::result::Result<String, String>)
    ensures
        r is Ok <==> valid_utf8(bytes@),
        r matches Ok(s) ==> s@ == decode_utf8(bytes@),
{
    match String::from_utf8(bytes) {
        Ok(s) => Ok(s),
        Err(e) => Err(e.to_string()),
    }
}

/// Characters std reads from bytes, each ill-formed sequence replaced by
/// U+FFFD (`String::from_utf8_lossy`).
pub uninterp spec fn utf8_lossy_text(bytes: Seq<u8>) -> Seq<char>;

/// Calls std `String::from_utf8_lossy`. Claimed: the text depends on the
/// bytes alone, and valid UTF-8 is read as the characters it encodes.
#[verifier::external_body]
pub(crate) fn utf8_lossy(bytes: &[u8]) -> (r: String)
    ensures
        r@ == utf8_lossy_text(bytes@),
        valid_utf8(bytes@) ==> r@ == decode_utf8(bytes@),
{
    String::from_utf8_lossy(bytes).to_string()
}

/// `prefix` followed by `detail`, as an extension error.
fn prefixed_error(prefix: &str, detail: &str) -> (e: HagitoriError)
    ensures
        e matches HagitoriError::Extension(m) && m@ == prefix@ + detail@,
{
    let mut m = String::new();
    push_str(&mut m, prefix);
    push_str(&mut m, detail);
    HagitoriError::extension(m.as_str())
}

/// The UTF-8 bytes of `s`.
pub fn utf8_bytes(s: &str) -> (r: Vec<u8>)
    ensures
        r@ == encode_utf8(s@),
{
    let b = s.as_bytes();
    let mut r: Vec<u8> = Vec::new();
    let mut i: usize = 0;
    while i < b.len()
        invariant
            b@ == encode_utf8(s@),
            i <= b@.len(),
            r@ == b@.take(i as int),
        decreases b.len() - i,
    {
        r.push(b[i]);
        i = i + 1;
        assert(r@ =~= b@.take(i as int));
    }
    assert(b@.take(b@.len() as int) =~= b@);
    r
}

/// `btoa`: the standard base64 text of the string's UTF-8 bytes.
pub fn btoa(input: &str) -> (r: String)
    requires
        encode_utf8(input@).len() <= usize::MAX / 4,
    ensures
        r@ == base64_encoded(encode_utf8(input@)),
{
    base64_encode(input.as_bytes())
}

/// What `atob` gives for a text: the UTF-8 string its base64 bytes
/// encode, or why not.
pub open spec fn atob_outcome(input: Seq<char>) -> Option<Seq<char>> {
    match base64_decoded(input) {
        Some(b) => if valid_utf8(b) { Some(decode_utf8(b)) } else { None },
        None => None,
    }
}

/// `atob`: decodes standard base64 text into a UTF-8 string; fails with
/// `atob: invalid base64 input: ...` or `atob: invalid UTF-8: ...`.
pub fn atob(input: &str) -> (r: Result<String>)
    ensures
        match atob_outcome(input@) {
            Some(s) => r matches Ok(t) && t@ == s,
            None => r is Err,
        },
        base64_decoded(input@) is None ==> (r matches Err(e) && e matches HagitoriError::Extension(m)
            && exists|d: Seq<char>| m@ == "atob: invalid base64 input: "@ + d),
        (base64_decoded(input@) matches Some(b) && !valid_utf8(b)) ==> (r matches Err(e)
            && e matches HagitoriError::Extension(m) && exists|d: Seq<char>| m@ == "atob: invalid UTF-8: "@ + d),
        forall|s: Seq<char>| input@ == #[trigger] base64_encoded(encode_utf8(s)) ==> (r matches Ok(t) && t@
            == s),
{
    match base64_decode(input) {
        Err(e) => Err(prefixed_error("atob: invalid base64 input: ", e.as_str())),
        Ok(b) => {
            let ghost bytes = b@;
            proof {
                assert forall|s: Seq<char>| input@ == base64_encoded(encode_utf8(s)) implies valid_utf8(bytes)
                    && decode_utf8(bytes) == s by {
                    vstd::utf8::encode_utf8_valid_utf8(s);
                    vstd::utf8::encode_utf8_decode_utf8(s);
                }
            }
            match utf8_string(b) {
                Ok(s) => Ok(s),
                Err(e) => Err(prefixed_error("atob: invalid UTF-8: ", e.as_str())),
            }
        },
    }
}

/// `TextEncoder.encode`: the UTF-8 bytes of the text (of `""` when absent).
pub fn text_encode(input: Option<&str>) -> (r: Vec<u8>)
    ensures
        r@ == encode_utf8(
            match input {
                Some(s) => s@,
                None => Seq::<char>::empty(),
            },
        ),
{
    match input {
        Some(s) => utf8_bytes(s),
        None => {
            assert(encode_utf8(Seq::<char>::empty()) =~= Seq::<u8>::empty());
            Vec::new()
        },
    }
}

/// `TextDecoder.decode`: each number is cut to its low byte and the bytes
/// are read as UTF-8 (`""` when nothing is given); fails with
/// `TextDecoder: invalid UTF-8: ...`.
pub fn text_decode(input: Option<&Vec<u32>>) -> (r: Result<String>)
    ensures
        input is None ==> (r matches Ok(s) && s@.len() == 0),
        input matches Some(v) ==> {
            let b = Seq::new(v@.len(), |i: int| v@[i] as u8);
            &&& valid_utf8(b) ==> (r matches Ok(s) && s@ == decode_utf8(b))
            &&& !valid_utf8(b) ==> (r matches Err(e) && e matches HagitoriError::Extension(m)
                && exists|d: Seq<char>| m@ == "TextDecoder: invalid UTF-8: "@ + d)
        },
{
    match input {
        None => Ok(String::new()),
        Some(v) => {
            let mut bytes: Vec<u8> = Vec::new();
            let mut i: usize = 0;
            while i < v.len()
                invariant
                    i <= v.len(),
                    bytes@ == Seq::new(i as nat, |k: int| v@[k] as u8),
                decreases v.len() - i,
            {
                bytes.push(v[i] as u8);
                i = i + 1;
                assert(bytes@ =~= Seq::new(i as nat, |k: int| v@[k] as u8));
            }
            match utf8_string(bytes) {
                Ok(s) => Ok(s),
                Err(e) => Err(prefixed_error("TextDecoder: invalid UTF-8: ", e.as_str())),
            }
        },
    }
}

/// `data:` URL of a PNG icon.
pub fn icon_data_url(bytes: &[u8]) -> (r: String)
    requires
        bytes@.len() <= usize::MAX / 4,
    ensures
        r@ == "data:image/png;base64,"@ + base64_encoded(bytes@),
{
    let mut r = String::new();
    push_str(&mut r, "data:image/png;base64,");
    let b = base64_encode(bytes);
    push_str(&mut r, b.as_str());
    r
}

/// One console line: the arguments separated by single spaces.
pub fn format_console_args(args: &Vec<String>) -> (r: String)
    ensures
        r@ == join(Seq::new(args@.len(), |i: int| args@[i]@), seq![' ']),
{
    let ghost parts = Seq::new(args@.len(), |i: int| args@[i]@);
    let mut r = String::new();
    let mut i: usize = 0;
    while i < args.len()
        invariant
            parts == Seq::new(args@.len(), |k: int| args@[k]@),
            i <= args.len(),
            r@ == join(parts.take(i as int), seq![' ']),
        decreases args.len() - i,
    {
        proof {
            let t = parts.take(i + 1);
            assert(t.drop_last() =~= parts.take(i as int));
            if i == 0 {
                assert(t =~= seq![parts[0]]);
            }
        }
        if i > 0 {
            push_char(&mut r, ' ');
        }
        push_str(&mut r, args[i].as_str());
        i = i + 1;
    }
    assert(parts.take(args.len() as int) =~= parts);
    r
}

} // verus!
