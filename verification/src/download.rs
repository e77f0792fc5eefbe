//! Decision logic of the chapter download engine: file and folder names,
//! image formats, retry timing and the summary of a finished download.

use vstd::prelude::*;
use vstd::arithmetic::power2::pow2;
use crate::entities::{DownloadProgress, DownloadStatus};
use crate::numbers::{decimal, decimal_text, parse_u64, parse_u64_spec, zero_padded, zero_padded_text};
use crate::text::{
    all_ascii, ascii_lower, ascii_lower_seq, chars_eq, chars_of, is_ws, lemma_split_nonempty,
    lemma_trim_idempotent, lemma_trim_within, push_char, push_chars, push_str, split, split_chars,
    str_eq, string_of, trim, trim_bounds, clone_pairs, free_of, lemma_split_append, lemma_split_first,
    lemma_split_free,
};

verus! {

// ─── file names ───────────────────────────────────────────────────────────

/// Characters that cannot appear in file names on common systems.
pub open spec fn unsafe_name_char(c: char) -> bool {
    c == '/' || c == '\\' || c == ':' || c == '*' || c == '?' || c == '"' || c == '<' || c == '>' || c == '|'
}

/// `c`, or `_` when it cannot appear in a file name.
pub open spec fn safe_char(c: char) -> char {
    if unsafe_name_char(c) { '_' } else { c }
}

/// `name` with unsafe characters replaced by `_`, then trimmed.
pub open spec fn sanitized(name: Seq<char>) -> Seq<char> {
    trim(Seq::new(name.len(), |i: int| safe_char(name[i])))
}

/// Replaces characters that cannot appear in file names with `_` and trims
/// surrounding whitespace.
pub fn sanitize_filename(name: &str) -> (r: String)
    ensures
        r@ == sanitized(name@),
{
    let v = chars_of(name);
    let mut m: Vec<char> = Vec::new();
    let mut i: usize = 0;
    while i < v.len()
        invariant
            i <= v.len(),
            m@ == Seq::new(i as nat, |k: int| safe_char(v@[k])),
        decreases v.len() - i,
    {
        let c = v[i];
        let d = if c == '/' || c == '\\' || c == ':' || c == '*' || c == '?' || c == '"' || c == '<'
            || c == '>' || c == '|' {
            '_'
        } else {
            c
        };
        m.push(d);
        assert(m@ =~= Seq::new((i + 1) as nat, |k: int| safe_char(v@[k])));
        i = i + 1;
    }
    let (a, b) = trim_bounds(&m);
    crate::text::string_of_range(&m, a, b)
}

/// A sanitized name holds no unsafe character, and sanitizing it again
/// changes nothing.
pub proof fn lemma_sanitize_laws(name: Seq<char>)
    ensures
        forall|i: int| 0 <= i < sanitized(name).len() ==> !unsafe_name_char(#[trigger] sanitized(name)[i]),
        sanitized(sanitized(name)) == sanitized(name),
{
    let m = Seq::new(name.len(), |i: int| safe_char(name[i]));
    let t = sanitized(name);
    let a = lemma_trim_within(m);
    assert forall|i: int| 0 <= i < t.len() implies !unsafe_name_char(#[trigger] t[i]) by {
        assert(t[i] == m[a + i]);
    }
    let mt = Seq::new(t.len(), |i: int| safe_char(t[i]));
    assert(mt =~= t);
    lemma_trim_idempotent(m);
}

/// Folder name of a chapter: `Cap. <number>`, followed by ` [<scanlator>]`
/// when a non-empty scanlator is known.
pub open spec fn chapter_folder_text(number: Seq<char>, scanlator: Option<Seq<char>>) -> Seq<char> {
    match scanlator {
        Some(s) => if s.len() > 0 {
            "Cap. "@ + number + seq![' ', '['] + s + seq![']']
        } else {
            "Cap. "@ + number
        },
        None => "Cap. "@ + number,
    }
}

/// The sanitized folder name of a chapter.
pub fn chapter_folder_name(chapter_number: &str, scanlator: Option<&str>) -> (r: String)
    ensures
        r@ == sanitized(chapter_folder_text(chapter_number@, match scanlator {
            Some(s) => Some(s@),
            None => None,
        })),
{
    let mut t = String::new();
    push_str(&mut t, "Cap. ");
    push_str(&mut t, chapter_number);
    match scanlator {
        Some(s) => {
            if !s.is_empty() {
                push_char(&mut t, ' ');
                push_char(&mut t, '[');
                push_str(&mut t, s);
                push_char(&mut t, ']');
                assert(t@ =~= "Cap. "@ + chapter_number@ + seq![' ', '['] + s@ + seq![']']);
            }
        },
        None => {},
    }
    sanitize_filename(t.as_str())
}

// ─── image formats ────────────────────────────────────────────────────────

/// Lowercase mapping of a whole string (std `str::to_lowercase`).
pub uninterp spec fn unicode_lower(s: Seq<char>) -> Seq<char>;

/// Calls std `str::to_lowercase`. Claimed: the result depends on the text
/// alone, and ASCII text is mapped with `A`..`Z` to `a`..`z`.
#[verifier::external_body]
fn lowercase(s: &str) -> (r: String)
    ensures
        r@ == unicode_lower(s@),
        all_ascii(s@) ==> r@ == ascii_lower_seq(s@),
{
    s.to_lowercase()
}

/// Image encodings the engine can convert to.
#[derive(Debug, Clone, Copy, PartialEq, Eq, Structural)]
pub enum ImageKind {
    Jpeg,
    Png,
    WebP,
    Avif,
    /// Any other encoding the decoder recognises.
    Other,
}

/// Canonical file extension of a target format name.
pub open spec fn normalized_extension(format: Seq<char>) -> Seq<char> {
    let l = unicode_lower(format);
    if l == "jpeg"@ || l == "jpg"@ {
        "jpg"@
    } else if l == "png"@ {
        "png"@
    } else if l == "webp"@ {
        "webp"@
    } else if l == "avif"@ {
        "avif"@
    } else {
        l
    }
}

/// Canonical extension (`jpg`, `png`, `webp`, `avif`) of a format name,
/// or its lowercase form when unknown.
pub fn normalize_extension(format: &str) -> (r: String)
    ensures
        r@ == normalized_extension(format@),
{
    let l = lowercase(format);
    let s = l.as_str();
    if str_eq(s, "jpeg") || str_eq(s, "jpg") {
        "jpg".to_owned()
    } else if str_eq(s, "png") {
        "png".to_owned()
    } else if str_eq(s, "webp") {
        "webp".to_owned()
    } else if str_eq(s, "avif") {
        "avif".to_owned()
    } else {
        l
    }
}

/// The encoding named by a file extension.
pub open spec fn image_kind_of(ext: Seq<char>) -> Option<ImageKind> {
    let l = unicode_lower(ext);
    if l == "jpg"@ || l == "jpeg"@ {
        Some(ImageKind::Jpeg)
    } else if l == "png"@ {
        Some(ImageKind::Png)
    } else if l == "webp"@ {
        Some(ImageKind::WebP)
    } else if l == "avif"@ {
        Some(ImageKind::Avif)
    } else {
        None
    }
}

/// The encoding named by a file extension, if the engine can write it.
pub fn to_image_format(ext: &str) -> (r: Option<ImageKind>)
    ensures
        r == image_kind_of(ext@),
{
    let l = lowercase(ext);
    let s = l.as_str();
    if str_eq(s, "jpg") || str_eq(s, "jpeg") {
        Some(ImageKind::Jpeg)
    } else if str_eq(s, "png") {
        Some(ImageKind::Png)
    } else if str_eq(s, "webp") {
        Some(ImageKind::WebP)
    } else if str_eq(s, "avif") {
        Some(ImageKind::Avif)
    } else {
        None
    }
}

/// An image is re-encoded only when both its encoding and the target's are
/// known and differ.
pub fn needs_conversion(source: Option<ImageKind>, target: Option<ImageKind>) -> (b: bool)
    ensures
        b == (source is Some && target is Some && source != target),
{
    match (source, target) {
        (Some(s), Some(t)) => s != t,
        _ => false,
    }
}

/// The encoding `image::guess_format` reads from a buffer's leading bytes.
pub uninterp spec fn guessed_image_kind(bytes: Seq<u8>) -> Option<ImageKind>;

/// The PNG file signature.
pub open spec fn png_signature() -> Seq<u8> {
    seq![0x89u8, 0x50u8, 0x4eu8, 0x47u8, 0x0du8, 0x0au8, 0x1au8, 0x0au8]
}

/// The JPEG start-of-image marker.
pub open spec fn jpeg_signature() -> Seq<u8> {
    seq![0xffu8, 0xd8u8, 0xffu8]
}

/// Calls `image::guess_format` and tells its formats apart. Claimed: the
/// result depends on the bytes alone, and a buffer that starts with the
/// PNG signature or the JPEG marker is read as that format (the first two
/// entries of the crate's signature table).
#[verifier::external_body]
fn guess_kind(bytes: &[u8]) -> (r: Option<ImageKind>)
    ensures
        r == guessed_image_kind(bytes@),
        bytes@.len() >= 8 && bytes@.subrange(0, 8) == png_signature() ==> r == Some(ImageKind::Png),
        bytes@.len() >= 3 && bytes@.subrange(0, 3) == jpeg_signature() ==> r == Some(ImageKind::Jpeg),
{
    match image::guess_format(bytes) {
        Ok(image::ImageFormat::Jpeg) => Some(ImageKind::Jpeg),
        Ok(image::ImageFormat::Png) => Some(ImageKind::Png),
        Ok(image::ImageFormat::WebP) => Some(ImageKind::WebP),
        Ok(image::ImageFormat::Avif) => Some(ImageKind::Avif),
        Ok(_) => Some(ImageKind::Other),
        Err(_) => None,
    }
}

/// The encoding of downloaded image bytes, as read from their leading
/// bytes.
pub fn image_kind_of_bytes(bytes: &[u8]) -> (r: Option<ImageKind>)
    ensures
        r == guessed_image_kind(bytes@),
        bytes@.len() >= 8 && bytes@.subrange(0, 8) == png_signature() ==> r == Some(ImageKind::Png),
        bytes@.len() >= 3 && bytes@.subrange(0, 3) == jpeg_signature() ==> r == Some(ImageKind::Jpeg),
{
    guess_kind(bytes)
}

/// How a downloaded page is saved: the encoding to convert it to, or
/// `None` to write its bytes as they are (when either encoding is unknown
/// or they agree).
pub fn conversion_target(bytes: &[u8], target_ext: &str) -> (r: Option<ImageKind>)
    ensures
        ({
            let source = guessed_image_kind(bytes@);
            let target = image_kind_of(target_ext@);
            if source is Some && target is Some && source != target {
                r == target
            } else {
                r is None
            }
        }),
{
    let source = image_kind_of_bytes(bytes);
    let target = to_image_format(target_ext);
    if needs_conversion(source, target) {
        target
    } else {
        None
    }
}

/// Whether `image::load_from_memory` decodes the bytes.
pub uninterp spec fn image_decodes(bytes: Seq<u8>) -> bool;

/// The bytes `image` writes (`DynamicImage::write_to`) for the decoded
/// image in encoding `kind`, when it can.
pub uninterp spec fn reencoded_image(bytes: Seq<u8>, kind: ImageKind) -> Option<Seq<u8>>;

/// Why re-encoding failed, with the error's text.
pub enum ReencodeError {
    /// The bytes do not decode as an image.
    Decode(String),
    /// The decoded image could not be written in the target encoding.
    Encode(String),
}

/// Calls `image::load_from_memory` and then `DynamicImage::write_to` in
/// the target encoding. Claimed: the outcome depends on the bytes and the
/// encoding alone; a decode failure is reported as such, and an encode
/// failure only for bytes that decode.
#[verifier::external_body]
fn reencode(bytes: &[u8], kind: ImageKind) -> (r: std::result::Result<Vec<u8>, ReencodeError>)
    requires
        kind != ImageKind::Other,
    ensures
        r matches Ok(b) ==> reencoded_image(bytes@, kind) == Some(b@) && image_decodes(bytes@),
        r is Err ==> reencoded_image(bytes@, kind) is None,
        r matches Err(ReencodeError::Decode(_)) ==> !image_decodes(bytes@),
        r matches Err(ReencodeError::Encode(_)) ==> image_decodes(bytes@),
{
    let format = match kind {
        ImageKind::Jpeg => image::ImageFormat::Jpeg,
        ImageKind::Png => image::ImageFormat::Png,
        ImageKind::WebP => image::ImageFormat::WebP,
        _ => image::ImageFormat::Avif,
    };
    let img = match image::load_from_memory(bytes) {
        Ok(i) => i,
        Err(e) => return Err(ReencodeError::Decode(e.to_string())),
    };
    let mut out = std::io::Cursor::new(Vec::new());
    match img.write_to(&mut out, format) {
        Ok(()) => Ok(out.into_inner()),
        Err(e) => Err(ReencodeError::Encode(e.to_string())),
    }
}

/// A page's bytes are re-encoded: both encodings are known and differ.
pub open spec fn conversion_owed(bytes: Seq<u8>, target_ext: Seq<char>) -> bool {
    let source = guessed_image_kind(bytes);
    let target = image_kind_of(target_ext);
    source is Some && target is Some && source != target
}

/// The encoding a page is converted to.
pub open spec fn owed_kind(target_ext: Seq<char>) -> ImageKind {
    match image_kind_of(target_ext) {
        Some(k) => k,
        None => ImageKind::Other,
    }
}

/// The bytes to save for a downloaded page: `None` to save them as they
/// are (no conversion owed, see [`conversion_target`]), else the page
/// re-encoded in the target format; fails when the page does not decode or
/// cannot be written in that format.
pub fn converted_page(bytes: &[u8], target_ext: &str, page_number: usize) -> (r: crate::error::Result<Option<Vec<u8>>>)
    ensures
        !conversion_owed(bytes@, target_ext@) ==> r matches Ok(None),
        conversion_owed(bytes@, target_ext@) ==> (r is Ok <==> reencoded_image(bytes@, owed_kind(target_ext@)) is Some),
        conversion_owed(bytes@, target_ext@) ==> (r matches Ok(o) ==> (o matches Some(b) && reencoded_image(
            bytes@,
            owed_kind(target_ext@),
        ) == Some(b@))),
        conversion_owed(bytes@, target_ext@) && !image_decodes(bytes@) ==> (r matches Err(e) && e matches crate::error::HagitoriError::Download(m)
            && exists|d: Seq<char>| m@ == "failed to decode page "@ + decimal(page_number as nat) + " for conversion: "@ + d),
        conversion_owed(bytes@, target_ext@) && image_decodes(bytes@) ==> (r is Err ==> (r matches Err(e) && e matches crate::error::HagitoriError::Download(m)
            && exists|d: Seq<char>| m@ == "failed to convert page "@ + decimal(page_number as nat) + " to "@ + target_ext@ + ": "@ + d)),
{
    match conversion_target(bytes, target_ext) {
        None => Ok(None),
        Some(kind) => match reencode(bytes, kind) {
            Ok(b) => Ok(Some(b)),
            Err(ReencodeError::Decode(e)) => {
                let mut m = String::new();
                push_str(&mut m, "failed to decode page ");
                push_str(&mut m, decimal_text(page_number as u64).as_str());
                push_str(&mut m, " for conversion: ");
                push_str(&mut m, e.as_str());
                Err(crate::error::HagitoriError::download(m.as_str()))
            },
            Err(ReencodeError::Encode(e)) => {
                let mut m = String::new();
                push_str(&mut m, "failed to convert page ");
                push_str(&mut m, decimal_text(page_number as u64).as_str());
                push_str(&mut m, " to ");
                push_str(&mut m, target_ext);
                push_str(&mut m, ": ");
                push_str(&mut m, e.as_str());
                Err(crate::error::HagitoriError::download(m.as_str()))
            },
        },
    }
}

/// File name of page `n` and its extension: `NNNN.<ext>`, where the
/// extension is the source's when the target format is `original`.
pub open spec fn output_name(n: nat, source_ext: Seq<char>, target_format: Seq<char>) -> (Seq<char>, Seq<char>) {
    let ext = if target_format == "original"@ { source_ext } else { normalized_extension(target_format) };
    (zero_padded(n, 4) + seq!['.'] + ext, ext)
}

/// Output file name (`0001.jpg`) and extension of a page.
pub fn resolve_output_filename(page_number: usize, source_ext: &str, target_format: &str) -> (r: (String, String))
    ensures
        (r.0@, r.1@) == output_name(page_number as nat, source_ext@, target_format@),
{
    let ext = if str_eq(target_format, "original") {
        source_ext.to_owned()
    } else {
        normalize_extension(target_format)
    };
    let mut name = zero_padded_text(page_number as u64, 4);
    push_char(&mut name, '.');
    push_str(&mut name, ext.as_str());
    (name, ext)
}

/// Image extension of a URL: the part after the last `.` of the last path
/// segment (before any `?`), in ASCII lowercase, when it is one of
/// `jpg`, `jpeg`, `png`, `webp`, `gif`, `avif`; `jpg` otherwise.
pub open spec fn url_extension(url: Seq<char>) -> Seq<char> {
    let seg = split(url, '/').last();
    let path = split(seg, '?')[0];
    let e = ascii_lower_seq(split(path, '.').last());
    if e == "jpg"@ || e == "jpeg"@ {
        "jpg"@
    } else if e == "png"@ {
        "png"@
    } else if e == "webp"@ {
        "webp"@
    } else if e == "gif"@ {
        "gif"@
    } else if e == "avif"@ {
        "avif"@
    } else {
        "jpg"@
    }
}

/// The extension of a page URL `dir/stem.ext`, with or without a query
/// `?query` after it: when `ext` (in any ASCII case) is `jpg`, `png`,
/// `webp`, `gif` or `avif` the extension is `ext` in lowercase, `jpeg`
/// gives `jpg`, and any other `ext` gives `jpg`.
pub proof fn lemma_page_url_extension(dir: Seq<char>, stem: Seq<char>, ext: Seq<char>, query: Seq<char>)
    requires
        free_of(stem, '/'),
        free_of(stem, '?'),
        free_of(ext, '/'),
        free_of(ext, '?'),
        free_of(ext, '.'),
        free_of(query, '/'),
    ensures
        ({
            let e = ascii_lower_seq(ext);
            let plain = dir + seq!['/'] + stem + seq!['.'] + ext;
            let queried = dir + seq!['/'] + stem + seq!['.'] + ext + seq!['?'] + query;
            &&& (e == "jpg"@ || e == "png"@ || e == "webp"@ || e == "gif"@ || e == "avif"@) ==> url_extension(plain)
                == e && url_extension(queried) == e
            &&& e == "jpeg"@ ==> url_extension(plain) == "jpg"@ && url_extension(queried) == "jpg"@
            &&& !(e == "jpg"@ || e == "jpeg"@ || e == "png"@ || e == "webp"@ || e == "gif"@ || e == "avif"@)
                ==> url_extension(plain) == "jpg"@ && url_extension(queried) == "jpg"@
            &&& ext.len() == 3 && (ext[0] == 'g' || ext[0] == 'G') && (ext[1] == 'i' || ext[1] == 'I') && (ext[2]
                == 'f' || ext[2] == 'F') ==> url_extension(plain) == "gif"@ && url_extension(queried) == "gif"@
        }),
{
    reveal_strlit("jpg");
    reveal_strlit("jpeg");
    reveal_strlit("png");
    reveal_strlit("webp");
    reveal_strlit("gif");
    reveal_strlit("avif");
    let b = stem + seq!['.'] + ext;
    let c = b + seq!['?'] + query;
    let plain = dir + seq!['/'] + stem + seq!['.'] + ext;
    let queried = dir + seq!['/'] + stem + seq!['.'] + ext + seq!['?'] + query;
    assert(plain =~= dir + seq!['/'] + b);
    assert(queried =~= dir + seq!['/'] + c);
    assert forall|i: int| 0 <= i < b.len() implies b[i] != '/' && b[i] != '?' by {
        if i < stem.len() {
            assert(b[i] == stem[i]);
        } else if i > stem.len() {
            assert(b[i] == ext[i - stem.len() - 1]);
        }
    }
    assert forall|i: int| 0 <= i < c.len() implies c[i] != '/' by {
        if i < b.len() {
            assert(c[i] == b[i]);
        } else if i > b.len() {
            assert(c[i] == query[i - b.len() - 1]);
        }
    }
    assert(free_of(b, '/') && free_of(b, '?') && free_of(c, '/'));
    lemma_split_append(dir, b, '/');
    lemma_split_append(dir, c, '/');
    lemma_split_free(b, '?');
    lemma_split_first(b, query, '?');
    lemma_split_append(stem, ext, '.');
    assert(split(plain, '/').last() == b);
    assert(split(queried, '/').last() == c);
    assert(split(split(plain, '/').last(), '?')[0] == b);
    assert(split(split(queried, '/').last(), '?')[0] == b);
    assert(split(b, '.').last() == ext);
    assert(ascii_lower_seq(split(split(split(plain, '/').last(), '?')[0], '.').last()) == ascii_lower_seq(ext));
    assert(ascii_lower_seq(split(split(split(queried, '/').last(), '?')[0], '.').last()) == ascii_lower_seq(ext));
    let e = ascii_lower_seq(ext);
    if ext.len() == 3 && (ext[0] == 'g' || ext[0] == 'G') && (ext[1] == 'i' || ext[1] == 'I') && (ext[2] == 'f'
        || ext[2] == 'F') {
        assert(ascii_lower('G') == 'g' && ascii_lower('I') == 'i' && ascii_lower('F') == 'f');
        assert(e =~= "gif"@);
    }
    assert("webp"@ != "jpeg"@) by {
        assert("webp"@[0] != "jpeg"@[0]);
    }
    assert("avif"@ != "jpeg"@) by {
        assert("avif"@[0] != "jpeg"@[0]);
    }
    assert("avif"@ != "webp"@) by {
        assert("avif"@[0] != "webp"@[0]);
    }
    assert("gif"@ != "jpg"@ && "gif"@ != "png"@) by {
        assert("gif"@[0] != "jpg"@[0] && "gif"@[0] != "png"@[0]);
    }
    assert("png"@ != "jpg"@) by {
        assert("png"@[0] != "jpg"@[0]);
    }
    assert(e == "jpg"@ ==> url_extension(plain) == e);
    assert(e == "png"@ ==> url_extension(plain) == e);
    assert(e == "webp"@ ==> url_extension(plain) == e);
    assert(e == "gif"@ ==> url_extension(plain) == e);
    assert(e == "avif"@ ==> url_extension(plain) == e);
}

fn ascii_lowered(v: &Vec<char>) -> (r: Vec<char>)
    ensures
        r@ == ascii_lower_seq(v@),
{
    let mut r: Vec<char> = Vec::new();
    let mut i: usize = 0;
    while i < v.len()
        invariant
            i <= v.len(),
            r@ == Seq::new(i as nat, |k: int| ascii_lower(v@[k])),
        decreases v.len() - i,
    {
        let c = v[i];
        let d = if 'A' <= c && c <= 'Z' { ((c as u8) + 32) as char } else { c };
        r.push(d);
        assert(r@ =~= Seq::new((i + 1) as nat, |k: int| ascii_lower(v@[k])));
        i = i + 1;
    }
    r
}

/// The image extension a page URL suggests (`jpg` when unknown).
pub fn extract_extension(url: &str) -> (r: &'static str)
    ensures
        r@ == url_extension(url@),
{
    let u = chars_of(url);
    let segs = split_chars(&u, '/');
    proof {
        lemma_split_nonempty(u@, '/');
    }
    let seg = &segs[segs.len() - 1];
    let parts = split_chars(seg, '?');
    proof {
        lemma_split_nonempty(seg@, '?');
    }
    let path = &parts[0];
    let dots = split_chars(path, '.');
    proof {
        lemma_split_nonempty(path@, '.');
    }
    let e = ascii_lowered(&dots[dots.len() - 1]);
    let s = string_of(&e);
    let t = s.as_str();
    if str_eq(t, "jpg") || str_eq(t, "jpeg") {
        "jpg"
    } else if str_eq(t, "png") {
        "png"
    } else if str_eq(t, "webp") {
        "webp"
    } else if str_eq(t, "gif") {
        "gif"
    } else if str_eq(t, "avif") {
        "avif"
    } else {
        "jpg"
    }
}

// ─── retries ──────────────────────────────────────────────────────────────

/// Pause before retrying after failed attempt number `attempt`:
/// 1 s, 2 s, 4 s, … (exponential backoff), in milliseconds.
pub fn backoff_delay_ms(attempt: u32) -> (r: u64)
    requires
        1 <= attempt <= 55,
    ensures
        r == 1000 * pow2((attempt - 1) as nat),
{
    let k: u64 = (attempt - 1) as u64;
    proof {
        vstd::bits::lemma_u64_pow2_no_overflow(k as nat);
        if k < 54 {
            vstd::arithmetic::power2::lemma_pow2_strictly_increases(k as nat, 54);
        }
        vstd::arithmetic::power2::lemma2_to64_rest();
        let p = pow2(k as nat);
        assert(1000 * p <= u64::MAX) by (nonlinear_arith)
            requires
                p <= 0x40000000000000,
        ;
        vstd::bits::lemma_u64_shl_is_mul(1, k);
    }
    1000 * (1u64 << k)
}

/// Exponential backoff: each failed attempt waits twice as long as the one
/// before, starting from one second.
pub proof fn lemma_backoff_doubles(attempt: u32)
    requires
        1 <= attempt,
    ensures
        1000 * pow2(((attempt + 1) - 1) as nat) == 2 * (1000 * pow2((attempt - 1) as nat)),
        1000 * pow2((1 - 1) as nat) == 1000,
{
    vstd::arithmetic::power2::lemma_pow2_unfold(attempt as nat);
    vstd::arithmetic::power2::lemma2_to64();
}

/// Seconds to wait after a `429 Too Many Requests`: the `Retry-After`
/// header read as whole seconds, or 60.
pub open spec fn retry_after_secs_of(header: Option<Seq<char>>) -> u64 {
    match header {
        Some(h) => match parse_u64_spec(h) {
            Some(v) => v,
            None => 60,
        },
        None => 60,
    }
}

/// Seconds to wait after a rate-limited response.
pub fn retry_after_secs(header: Option<&str>) -> (r: u64)
    ensures
        r == retry_after_secs_of(match header {
            Some(h) => Some(h@),
            None => None,
        }),
{
    match header {
        Some(h) => match parse_u64(h) {
            Some(v) => v,
            None => 60,
        },
        None => 60,
    }
}

/// What one HTTP attempt at a page produced.
#[derive(Debug, Clone)]
pub enum FetchOutcome {
    /// The request could not be made.
    RequestFailed,
    /// `429 Too Many Requests`, with the `Retry-After` header if readable.
    RateLimited(Option<String>),
    /// Any other unsuccessful status.
    BadStatus,
    /// A successful response with an empty body.
    EmptyBody,
    /// A successful response with image bytes.
    Bytes,
}

/// What the engine does after an attempt.
#[derive(Debug, Clone, Copy, PartialEq, Eq, Structural)]
pub enum AttemptStep {
    /// Save the bytes: the page is done.
    Save,
    /// Wait this many milliseconds, then go on.
    WaitMillis(u64),
    /// Wait this many seconds, then go on.
    WaitSecs(u64),
    /// Go on at once (to the next attempt, or give up after the last).
    Continue,
}

/// What a response to a page request counts as: a rate limit on status
/// 429, a failure on any other status outside 200..=299, and otherwise
/// image bytes unless the body is empty.
pub open spec fn response_outcome(status: u16, retry_after: Option<String>, body_len: nat) -> FetchOutcome {
    if status == 429 {
        FetchOutcome::RateLimited(retry_after)
    } else if !(200 <= status <= 299) {
        FetchOutcome::BadStatus
    } else if body_len == 0 {
        FetchOutcome::EmptyBody
    } else {
        FetchOutcome::Bytes
    }
}

/// Classifies a response to a page request by its status, its
/// `Retry-After` header and the length of its body.
pub fn classify_response(status: u16, retry_after: Option<String>, body_len: usize) -> (r: FetchOutcome)
    ensures
        r == response_outcome(status, retry_after, body_len as nat),
{
    if status == 429 {
        FetchOutcome::RateLimited(retry_after)
    } else if !(200 <= status && status <= 299) {
        FetchOutcome::BadStatus
    } else if body_len == 0 {
        FetchOutcome::EmptyBody
    } else {
        FetchOutcome::Bytes
    }
}

/// A page already on disk with a non-empty file is not downloaded again.
pub fn reuse_existing(existing_len: Option<u64>) -> (b: bool)
    ensures
        b == (existing_len matches Some(n) && n > 0),
{
    match existing_len {
        Some(n) => n > 0,
        None => false,
    }
}

/// Whether a download attempt may start: it fails with `download
/// cancelled` once the download is cancelled.
pub fn attempt_allowed(cancelled: bool) -> (r: crate::error::Result<()>)
    ensures
        cancelled ==> (r matches Err(crate::error::HagitoriError::Download(m)) && m@ == "download cancelled"@),
        !cancelled ==> r is Ok,
{
    if cancelled {
        Err(crate::error::HagitoriError::download("download cancelled"))
    } else {
        Ok(())
    }
}

/// The step after HTTP attempt `attempt` of `max_retries`.
pub open spec fn http_step_of(outcome: FetchOutcome, attempt: u32, max_retries: u32) -> AttemptStep {
    match outcome {
        FetchOutcome::Bytes => AttemptStep::Save,
        FetchOutcome::EmptyBody => AttemptStep::Continue,
        FetchOutcome::RateLimited(h) => AttemptStep::WaitSecs(retry_after_secs_of(match h {
            Some(t) => Some(t@),
            None => None,
        })),
        _ => if attempt < max_retries {
            AttemptStep::WaitMillis((1000 * pow2((attempt - 1) as nat)) as u64)
        } else {
            AttemptStep::Continue
        },
    }
}

/// Decides what follows an HTTP attempt at a page: save on bytes, retry at
/// once on an empty body, honour `Retry-After` on 429, back off otherwise
/// (except after the last attempt).
pub fn http_attempt_step(outcome: &FetchOutcome, attempt: u32, max_retries: u32) -> (r: AttemptStep)
    requires
        1 <= attempt <= max_retries,
        attempt < max_retries ==> attempt <= 55,
    ensures
        r == http_step_of(*outcome, attempt, max_retries),
{
    match outcome {
        FetchOutcome::Bytes => AttemptStep::Save,
        FetchOutcome::EmptyBody => AttemptStep::Continue,
        FetchOutcome::RateLimited(h) => {
            let secs = match h {
                Some(t) => retry_after_secs(Some(t.as_str())),
                None => retry_after_secs(None),
            };
            AttemptStep::WaitSecs(secs)
        },
        _ => {
            if attempt < max_retries {
                AttemptStep::WaitMillis(backoff_delay_ms(attempt))
            } else {
                AttemptStep::Continue
            }
        },
    }
}

/// Decides what follows a browser attempt at a page: save on non-empty
/// bytes, otherwise back off before the next attempt.
pub fn browser_attempt_step(got_bytes: bool, attempt: u32, max_retries: u32) -> (r: AttemptStep)
    requires
        1 <= attempt <= max_retries,
        attempt < max_retries ==> attempt <= 55,
    ensures
        got_bytes ==> r == AttemptStep::Save,
        !got_bytes && attempt < max_retries ==> r == AttemptStep::WaitMillis(
            (1000 * pow2((attempt - 1) as nat)) as u64,
        ),
        !got_bytes && attempt >= max_retries ==> r == AttemptStep::Continue,
{
    if got_bytes {
        AttemptStep::Save
    } else if attempt < max_retries {
        AttemptStep::WaitMillis(backoff_delay_ms(attempt))
    } else {
        AttemptStep::Continue
    }
}

// ─── a page download as a whole ──────────────────────────────────────────

/// How a page download ends.
#[derive(Debug, Clone, Copy, PartialEq, Eq, Structural)]
pub enum PageEnd {
    /// A non-empty file was already there: nothing is requested.
    Reused,
    /// The download was cancelled before an attempt.
    Cancelled,
    /// An attempt brought image bytes, which are saved.
    Saved,
    /// Every attempt was spent without bytes.
    Exhausted,
}

/// The HTTP attempts of a page download from attempt `i + 1` on, given
/// whether the download was cancelled before each attempt (`cancels[j]`
/// before attempt `j + 1`) and what each attempt produced (`outcomes[j]`):
/// the step taken after each request made, and how the download ended.
pub open spec fn http_attempts_from(i: nat, cancels: Seq<bool>, outcomes: Seq<FetchOutcome>, max_retries: u32) -> (Seq<AttemptStep>, PageEnd)
    decreases max_retries - i,
{
    if i >= max_retries {
        (Seq::empty(), PageEnd::Exhausted)
    } else if cancels[i as int] {
        (Seq::empty(), PageEnd::Cancelled)
    } else {
        let step = http_step_of(outcomes[i as int], (i + 1) as u32, max_retries);
        if step == AttemptStep::Save {
            (seq![step], PageEnd::Saved)
        } else {
            let rest = http_attempts_from(i + 1, cancels, outcomes, max_retries);
            (seq![step] + rest.0, rest.1)
        }
    }
}

/// A page download over HTTP: a non-empty file already on disk
/// (`existing_len`) is reused; otherwise the attempts run in turn.
pub open spec fn http_page_download(
    existing_len: Option<u64>,
    cancels: Seq<bool>,
    outcomes: Seq<FetchOutcome>,
    max_retries: u32,
) -> (Seq<AttemptStep>, PageEnd) {
    if existing_len is Some && existing_len->0 > 0 {
        (Seq::empty(), PageEnd::Reused)
    } else {
        http_attempts_from(0, cancels, outcomes, max_retries)
    }
}

proof fn lemma_attempts_from(i: nat, cancels: Seq<bool>, outcomes: Seq<FetchOutcome>, max_retries: u32)
    requires
        i <= max_retries,
        forall|j: int| i <= j < max_retries ==> !cancels[j],
    ensures
        ({
            let run = http_attempts_from(i, cancels, outcomes, max_retries);
            &&& run.0.len() <= max_retries - i
            &&& forall|k: int| 0 <= k < run.0.len() ==> #[trigger] run.0[k] == http_step_of(
                outcomes[i + k],
                (i + k + 1) as u32,
                max_retries,
            )
            &&& forall|k: int| 0 <= k < run.0.len() - 1 ==> !(#[trigger] outcomes[i + k] is Bytes)
            &&& run.1 is Saved ==> run.0.len() >= 1 && outcomes[i + run.0.len() - 1] is Bytes
            &&& !(run.1 is Saved) ==> run.1 is Exhausted && run.0.len() == max_retries - i
                && forall|k: int| i <= k < max_retries ==> !(#[trigger] outcomes[k] is Bytes)
        }),
    decreases max_retries - i,
{
    if i < max_retries {
        lemma_attempts_from(i + 1, cancels, outcomes, max_retries);
        let run = http_attempts_from(i, cancels, outcomes, max_retries);
        let rest = http_attempts_from(i + 1, cancels, outcomes, max_retries);
        let step = http_step_of(outcomes[i as int], (i + 1) as u32, max_retries);
        if step != AttemptStep::Save {
            assert(run.0 == seq![step] + rest.0);
            assert forall|k: int| 0 <= k < run.0.len() implies #[trigger] run.0[k] == http_step_of(
                outcomes[i + k],
                (i + k + 1) as u32,
                max_retries,
            ) by {
                if k > 0 {
                    assert(run.0[k] == rest.0[k - 1]);
                    assert(i + 1 + (k - 1) == i + k);
                }
            }
            assert forall|k: int| 0 <= k < run.0.len() - 1 implies !(#[trigger] outcomes[i + k] is Bytes) by {
                if k > 0 {
                    assert(outcomes[(i + 1) + (k - 1)] == outcomes[i + k]);
                }
            }
            if !(run.1 is Saved) {
                assert forall|k: int| i <= k < max_retries implies !(#[trigger] outcomes[k] is Bytes) by {
                    if k == i {
                        assert(!(outcomes[i as int] is Bytes));
                    }
                }
            } else {
                assert(outcomes[(i + 1) + rest.0.len() - 1] == outcomes[i + run.0.len() - 1]);
            }
        }
    }
}

/// Retries of a page download over HTTP. When no file on disk is reused and
/// nothing cancels the download, at most `max_retries` requests are made,
/// one per step; after a failed attempt `k` short of the last (the request
/// failed, or the status was neither 2xx nor 429) the next attempt waits
/// 1000·2^(k-1) ms; after a 429 it waits the `Retry-After` seconds (60 when
/// absent or unreadable). The page is saved exactly when one of the
/// `max_retries` attempts brings bytes, at the first such attempt; otherwise
/// every attempt is spent.
pub proof fn lemma_http_retry_schedule(
    existing_len: Option<u64>,
    cancels: Seq<bool>,
    outcomes: Seq<FetchOutcome>,
    max_retries: u32,
)
    requires
        !(existing_len is Some && existing_len->0 > 0),
        forall|j: int| 0 <= j < max_retries ==> !cancels[j],
    ensures
        ({
            let run = http_page_download(existing_len, cancels, outcomes, max_retries);
            &&& run.0.len() <= max_retries
            &&& forall|k: int|
                1 <= k <= run.0.len() && k < max_retries && (outcomes[k - 1] is RequestFailed
                    || outcomes[k - 1] is BadStatus) ==> #[trigger] run.0[k - 1] == AttemptStep::WaitMillis(
                    (1000 * pow2((k - 1) as nat)) as u64,
                )
            &&& forall|k: int|
                1 <= k <= run.0.len() && outcomes[k - 1] is RateLimited ==> #[trigger] run.0[k - 1]
                    == AttemptStep::WaitSecs(retry_after_secs_of(match outcomes[k - 1]->0 {
                    Some(t) => Some(t@),
                    None => None,
                }))
            &&& (run.1 is Saved) <==> (exists|k: int| 0 <= k < max_retries && #[trigger] outcomes[k] is Bytes)
            &&& run.1 is Saved ==> outcomes[run.0.len() - 1] is Bytes
                && forall|k: int| 0 <= k < run.0.len() - 1 ==> !(#[trigger] outcomes[k] is Bytes)
            &&& !(run.1 is Saved) ==> run.1 is Exhausted && run.0.len() == max_retries
        }),
{
    lemma_attempts_from(0, cancels, outcomes, max_retries);
    let run = http_page_download(existing_len, cancels, outcomes, max_retries);
    assert forall|k: int|
        1 <= k <= run.0.len() && k < max_retries && (outcomes[k - 1] is RequestFailed
            || outcomes[k - 1] is BadStatus) implies #[trigger] run.0[k - 1] == AttemptStep::WaitMillis(
        (1000 * pow2((k - 1) as nat)) as u64,
    ) by {
        assert(run.0[k - 1] == http_step_of(outcomes[0 + (k - 1)], (0 + (k - 1) + 1) as u32, max_retries));
    }
    assert forall|k: int| 1 <= k <= run.0.len() && outcomes[k - 1] is RateLimited implies #[trigger] run.0[k - 1]
        == AttemptStep::WaitSecs(retry_after_secs_of(match outcomes[k - 1]->0 {
        Some(t) => Some(t@),
        None => None,
    })) by {
        assert(run.0[k - 1] == http_step_of(outcomes[0 + (k - 1)], (0 + (k - 1) + 1) as u32, max_retries));
    }
    if run.1 is Saved {
        let w = run.0.len() - 1;
        assert(outcomes[0 + run.0.len() - 1] is Bytes);
        assert(0 <= w < max_retries && outcomes[w] is Bytes);
        assert forall|k: int| 0 <= k < run.0.len() - 1 implies !(#[trigger] outcomes[k] is Bytes) by {
            assert(outcomes[0 + k] == outcomes[k]);
        }
    } else {
        assert forall|k: int| 0 <= k < max_retries implies !(#[trigger] outcomes[k] is Bytes) by {}
    }
}

/// The checks before a page download, in their order: a non-empty file
/// already on disk is reused without any request; otherwise a download
/// cancelled before its first attempt fails without a request; otherwise,
/// with no attempts allowed, it fails at once without a request.
pub proof fn lemma_page_download_checks(
    existing_len: Option<u64>,
    cancels: Seq<bool>,
    outcomes: Seq<FetchOutcome>,
    max_retries: u32,
)
    ensures
        existing_len is Some && existing_len->0 > 0 ==> http_page_download(existing_len, cancels, outcomes, max_retries)
            == (Seq::<AttemptStep>::empty(), PageEnd::Reused),
        !(existing_len is Some && existing_len->0 > 0) && max_retries >= 1 && cancels[0] ==> http_page_download(
            existing_len,
            cancels,
            outcomes,
            max_retries,
        ) == (Seq::<AttemptStep>::empty(), PageEnd::Cancelled),
        !(existing_len is Some && existing_len->0 > 0) && max_retries == 0 ==> http_page_download(
            existing_len,
            cancels,
            outcomes,
            max_retries,
        ) == (Seq::<AttemptStep>::empty(), PageEnd::Exhausted),
{
}

/// `<prefix><page> <middle><count> attempts: <url>`-style messages.
pub open spec fn page_message(prefix: Seq<char>, page: nat, middle: Seq<char>, count: nat, url: Seq<char>) -> Seq<char> {
    prefix + decimal(page) + middle + decimal(count) + " attempts: "@ + url
}

/// Message when every HTTP attempt at a page failed without an error of
/// its own.
pub fn http_exhausted_message(page_number: usize, max_retries: u32, url: &str) -> (r: String)
    ensures
        r@ == page_message("failed to download page "@, page_number as nat, " after "@, max_retries as nat, url@),
{
    let mut r = String::new();
    push_str(&mut r, "failed to download page ");
    push_str(&mut r, decimal_text(page_number as u64).as_str());
    push_str(&mut r, " after ");
    push_str(&mut r, decimal_text(max_retries as u64).as_str());
    push_str(&mut r, " attempts: ");
    push_str(&mut r, url);
    r
}

/// Message when every browser attempt at a page failed.
pub fn browser_exhausted_message(page_number: usize, max_retries: u32, url: &str) -> (r: String)
    ensures
        r@ == page_message("failed to download page "@, page_number as nat, " via browser after "@, max_retries as nat, url@),
{
    let mut r = String::new();
    push_str(&mut r, "failed to download page ");
    push_str(&mut r, decimal_text(page_number as u64).as_str());
    push_str(&mut r, " via browser after ");
    push_str(&mut r, decimal_text(max_retries as u64).as_str());
    push_str(&mut r, " attempts: ");
    push_str(&mut r, url);
    r
}

/// `<prefix><page>: <url>`.
pub open spec fn page_url_message(prefix: Seq<char>, page: nat, url: Seq<char>) -> Seq<char> {
    prefix + decimal(page) + ": "@ + url
}

fn page_url_text(prefix: &str, page_number: usize, url: &str) -> (r: String)
    ensures
        r@ == page_url_message(prefix@, page_number as nat, url@),
{
    let mut r = String::new();
    push_str(&mut r, prefix);
    push_str(&mut r, decimal_text(page_number as u64).as_str());
    push_str(&mut r, ": ");
    push_str(&mut r, url);
    r
}

/// Message recorded for a rate-limited attempt.
pub fn rate_limited_message(page_number: usize, url: &str) -> (r: String)
    ensures
        r@ == page_url_message("429 Too Many Requests for page "@, page_number as nat, url@),
{
    page_url_text("429 Too Many Requests for page ", page_number, url)
}

/// Message recorded for an attempt that returned no bytes.
pub fn empty_response_message(page_number: usize, url: &str) -> (r: String)
    ensures
        r@ == page_url_message("empty response for page "@, page_number as nat, url@),
{
    page_url_text("empty response for page ", page_number, url)
}

/// Message recorded for an attempt answered with an unsuccessful status,
/// shown as `status` (such as `404 Not Found`).
pub fn bad_status_message(page_number: usize, status: &str, url: &str) -> (r: String)
    ensures
        r@ == "page "@ + decimal(page_number as nat) + " returned status "@ + status@ + ": "@ + url@,
{
    let mut r = String::new();
    push_str(&mut r, "page ");
    push_str(&mut r, decimal_text(page_number as u64).as_str());
    push_str(&mut r, " returned status ");
    push_str(&mut r, status);
    push_str(&mut r, ": ");
    push_str(&mut r, url);
    r
}

// ─── progress and summary ─────────────────────────────────────────────────

/// Progress reported after page `done` of `total` finished, failed with
/// `error` when given.
pub fn page_progress(manga_name: &str, chapter_number: &str, done: u32, total: u32, error: Option<String>) -> (p: DownloadProgress)
    ensures
        p.manga_name@ == manga_name@,
        p.chapter_number@ == chapter_number@,
        p.current_page == done,
        p.total_pages == total,
        p.save_path is None,
        error is None ==> p.status == DownloadStatus::Downloading,
        error matches Some(e) ==> p.status == DownloadStatus::Failed(e),
{
    let status = match error {
        Some(e) => DownloadStatus::Failed(e),
        None => DownloadStatus::Downloading,
    };
    DownloadProgress::new(manga_name, chapter_number, done, total, status)
}

/// How a chapter download ended.
#[derive(Debug, Clone)]
pub enum ChapterOutcome {
    /// Cancelled: report this error.
    Cancelled(String),
    /// Some pages failed: send this progress, report this error.
    PagesFailed(DownloadProgress, String),
    /// Every page saved: send this progress.
    Completed(DownloadProgress),
}

/// Decides how a chapter download ended: cancellation first, then page
/// failures, then completion.
pub fn chapter_outcome(manga_name: &str, chapter_number: &str, cancelled: bool, failed: u32, total: u32) -> (r: ChapterOutcome)
    requires
        failed <= total,
    ensures
        cancelled ==> (r matches ChapterOutcome::Cancelled(m) && m@ == "download cancelled by user"@),
        !cancelled && failed > 0 ==> (r matches ChapterOutcome::PagesFailed(p, m)
            && p.manga_name@ == manga_name@ && p.chapter_number@ == chapter_number@
            && p.current_page == total - failed && p.total_pages == total
            && (p.status matches DownloadStatus::Failed(t) && t@ == decimal(failed as nat) + " page(s) failed"@)
            && m@ == decimal(failed as nat) + " of "@ + decimal(total as nat) + " pages failed to download"@),
        !cancelled && failed == 0 ==> (r matches ChapterOutcome::Completed(p)
            && p.manga_name@ == manga_name@ && p.chapter_number@ == chapter_number@
            && p.current_page == total && p.total_pages == total
            && p.status == DownloadStatus::Completed && p.save_path is None),
{
    if cancelled {
        return ChapterOutcome::Cancelled("download cancelled by user".to_owned());
    }
    if failed > 0 {
        let mut st = decimal_text(failed as u64);
        push_str(&mut st, " page(s) failed");
        let p = DownloadProgress::new(manga_name, chapter_number, total - failed, total, DownloadStatus::Failed(st));
        let mut m = decimal_text(failed as u64);
        push_str(&mut m, " of ");
        push_str(&mut m, decimal_text(total as u64).as_str());
        push_str(&mut m, " pages failed to download");
        return ChapterOutcome::PagesFailed(p, m);
    }
    ChapterOutcome::Completed(DownloadProgress::new(manga_name, chapter_number, total, total, DownloadStatus::Completed))
}

/// How many page downloads failed.
pub open spec fn failed_count(page_ok: Seq<bool>) -> nat
    decreases page_ok.len(),
{
    if page_ok.len() == 0 {
        0
    } else {
        failed_count(page_ok.drop_last()) + if page_ok.last() { 0nat } else { 1nat }
    }
}

proof fn lemma_failed_count_bounds(page_ok: Seq<bool>)
    ensures
        failed_count(page_ok) <= page_ok.len(),
        failed_count(page_ok) == 0 <==> forall|i: int| 0 <= i < page_ok.len() ==> page_ok[i],
    decreases page_ok.len(),
{
    if page_ok.len() > 0 {
        let front = page_ok.drop_last();
        lemma_failed_count_bounds(front);
        if failed_count(page_ok) == 0 {
            assert forall|i: int| 0 <= i < page_ok.len() implies page_ok[i] by {
                if i < front.len() {
                    assert(front[i] == page_ok[i]);
                }
            }
        } else {
            if forall|i: int| 0 <= i < page_ok.len() ==> page_ok[i] {
                assert forall|i: int| 0 <= i < front.len() implies front[i] by {
                    assert(page_ok[i]);
                }
                assert(page_ok[page_ok.len() - 1]);
            }
        }
    }
}

/// How a chapter download ended, from whether it was cancelled and how
/// each page went, with the folders it was saved under: the manga's
/// sanitized name and the chapter's folder. It succeeds exactly when it
/// was not cancelled and every page was saved.
pub fn chapter_result(
    manga_name: &str,
    chapter_number: &str,
    scanlator: Option<&str>,
    cancelled: bool,
    page_ok: &Vec<bool>,
) -> (r: (ChapterOutcome, String, String))
    requires
        page_ok@.len() <= u32::MAX,
    ensures
        r.1@ == sanitized(manga_name@),
        r.2@ == sanitized(chapter_folder_text(chapter_number@, match scanlator {
            Some(s) => Some(s@),
            None => None,
        })),
        (r.0 is Completed) <==> (!cancelled && forall|i: int| 0 <= i < page_ok@.len() ==> page_ok@[i]),
        cancelled ==> (r.0 matches ChapterOutcome::Cancelled(m) && m@ == "download cancelled by user"@),
        !cancelled && failed_count(page_ok@) > 0 ==> (r.0 matches ChapterOutcome::PagesFailed(p, m)
            && p.manga_name@ == manga_name@ && p.chapter_number@ == chapter_number@
            && p.current_page == page_ok@.len() - failed_count(page_ok@) && p.total_pages == page_ok@.len()
            && (p.status matches DownloadStatus::Failed(t) && t@ == decimal(failed_count(page_ok@)) + " page(s) failed"@)
            && m@ == decimal(failed_count(page_ok@)) + " of "@ + decimal(page_ok@.len()) + " pages failed to download"@),
        !cancelled && failed_count(page_ok@) == 0 ==> (r.0 matches ChapterOutcome::Completed(p)
            && p.manga_name@ == manga_name@ && p.chapter_number@ == chapter_number@
            && p.current_page == page_ok@.len() && p.total_pages == page_ok@.len()
            && p.status == DownloadStatus::Completed && p.save_path is None),
{
    let mut failed: u32 = 0;
    let mut i: usize = 0;
    while i < page_ok.len()
        invariant
            i <= page_ok.len(),
            page_ok@.len() <= u32::MAX,
            failed == failed_count(page_ok@.take(i as int)),
            failed_count(page_ok@.take(i as int)) <= i,
        decreases page_ok.len() - i,
    {
        proof {
            assert(page_ok@.take(i + 1).drop_last() =~= page_ok@.take(i as int));
            lemma_failed_count_bounds(page_ok@.take(i as int));
        }
        if !page_ok[i] {
            failed = failed + 1;
        }
        i = i + 1;
    }
    proof {
        assert(page_ok@.take(page_ok.len() as int) =~= page_ok@);
        lemma_failed_count_bounds(page_ok@);
    }
    let total = page_ok.len() as u32;
    let outcome = chapter_outcome(manga_name, chapter_number, cancelled, failed, total);
    (outcome, sanitize_filename(manga_name), chapter_folder_name(chapter_number, scanlator))
}

// ─── configuration ────────────────────────────────────────────────────────

/// Most pages downloaded at once, whatever is configured.
pub const MAX_CONCURRENT_PAGES: usize = 5;

/// Settings of the download engine.
#[derive(Debug, Clone)]
pub struct DownloadEngineConfig {
    pub max_retries: u32,
    pub download_dir: String,
    pub max_concurrent_pages: usize,
    pub image_format: String,
}

impl Default for DownloadEngineConfig {
    fn default() -> (c: Self)
        ensures
            c.max_retries == 3,
            c.download_dir@ == "downloads"@,
            c.max_concurrent_pages == 3,
            c.image_format@ == "original"@,
    {
        DownloadEngineConfig {
            max_retries: 3,
            download_dir: "downloads".to_owned(),
            max_concurrent_pages: 3,
            image_format: "original".to_owned(),
        }
    }
}

/// Pages downloaded at once: the configured number, capped at 5.
pub fn effective_concurrency(configured: usize) -> (r: usize)
    ensures
        r == if configured < MAX_CONCURRENT_PAGES { configured } else { MAX_CONCURRENT_PAGES },
        r <= MAX_CONCURRENT_PAGES,
{
    if configured < MAX_CONCURRENT_PAGES { configured } else { MAX_CONCURRENT_PAGES }
}

/// Options of one HTTP request.
#[derive(Debug, Clone)]
pub struct RequestOptions {
    pub headers: Option<Vec<(String, String)>>,
    pub timeout_secs: Option<u64>,
    pub referer: Option<String>,
}

/// Value of the first pair named `key`.
pub open spec fn header_value(pairs: Seq<(String, String)>, key: Seq<char>) -> Option<String>
    decreases pairs.len(),
{
    if pairs.len() == 0 {
        None
    } else if pairs[0].0@ == key {
        Some(pairs[0].1)
    } else {
        header_value(pairs.drop_first(), key)
    }
}

/// Value of the first pair named `key`.
pub fn lookup_header(pairs: &Vec<(String, String)>, key: &str) -> (r: Option<String>)
    ensures
        r == header_value(pairs@, key@),
{
    let mut i: usize = 0;
    assert(pairs@.subrange(0, pairs@.len() as int) =~= pairs@);
    while i < pairs.len()
        invariant
            i <= pairs.len(),
            header_value(pairs@, key@) == header_value(pairs@.subrange(i as int, pairs@.len() as int), key@),
        decreases pairs.len() - i,
    {
        assert(pairs@.subrange(i as int, pairs@.len() as int).drop_first() =~= pairs@.subrange(
            i + 1,
            pairs@.len() as int,
        ));
        if str_eq(pairs[i].0.as_str(), key) {
            return Some(pairs[i].1.clone());
        }
        i = i + 1;
    }
    None
}

/// Request options for page downloads: the chapter's headers, with the
/// `Referer` header also given as the referer.
pub fn build_request_options(headers: Option<&Vec<(String, String)>>) -> (r: Option<RequestOptions>)
    ensures
        headers is None ==> r is None,
        headers matches Some(h) ==> (r matches Some(o) && (o.headers matches Some(hh) && hh@ == h@)
            && o.timeout_secs is None && o.referer == header_value(h@, "Referer"@)),
{
    match headers {
        Some(h) => Some(RequestOptions {
            headers: Some(clone_pairs(h)),
            timeout_secs: None,
            referer: lookup_header(h, "Referer"),
        }),
        None => None,
    }
}

} // verus!
