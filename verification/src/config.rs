//! Settings, installed-extension records, download history records,
//! sessions and library entries: the values the stores keep and the rules
//! that fill them in.

use vstd::prelude::*;
use crate::catalog::InstalledExtension;
use crate::entities::{Chapter, Manga, MangaDetails};
use crate::error::{HagitoriError, Result};
use crate::numbers::unsigned_text_value;
use crate::search_params::pair_views;
use crate::fetch::unique_names;
use crate::text::{push_str, str_eq};

verus! {

// ─── settings ─────────────────────────────────────────────────────────────

/// Settings written when a store is first opened, with their values.
pub open spec fn default_settings() -> Seq<(Seq<char>, Seq<char>)> {
    seq![
        ("download_dir"@, ""@),
        ("image_format"@, "original"@),
        ("group_format"@, "cbz"@),
        ("language"@, "en"@),
    ]
}

/// The default settings, in order.
pub fn defaults() -> (r: Vec<(String, String)>)
    ensures
        pair_views(r@) == default_settings(),
{
    let mut r: Vec<(String, String)> = Vec::new();
    r.push(("download_dir".to_owned(), "".to_owned()));
    r.push(("image_format".to_owned(), "original".to_owned()));
    r.push(("group_format".to_owned(), "cbz".to_owned()));
    r.push(("language".to_owned(), "en".to_owned()));
    assert(pair_views(r@) =~= default_settings());
    r
}

/// Some stored key equals `key`.
pub open spec fn key_stored(stored: Seq<String>, key: Seq<char>) -> bool {
    exists|i: int| 0 <= i < stored.len() && (#[trigger] stored[i])@ == key
}

/// The defaults whose key is not stored yet, in order.
pub open spec fn missing_from(ds: Seq<(Seq<char>, Seq<char>)>, stored: Seq<String>) -> Seq<(Seq<char>, Seq<char>)>
    decreases ds.len(),
{
    if ds.len() == 0 {
        ds
    } else if key_stored(stored, ds.last().0) {
        missing_from(ds.drop_last(), stored)
    } else {
        missing_from(ds.drop_last(), stored).push(ds.last())
    }
}

/// The defaults to write into a store that holds `stored_keys`.
pub fn missing_defaults(stored_keys: &Vec<String>) -> (r: Vec<(String, String)>)
    ensures
        pair_views(r@) == missing_from(default_settings(), stored_keys@),
{
    let ds = defaults();
    let mut r: Vec<(String, String)> = Vec::new();
    let mut i: usize = 0;
    while i < ds.len()
        invariant
            pair_views(ds@) == default_settings(),
            i <= ds.len(),
            pair_views(r@) == missing_from(pair_views(ds@).take(i as int), stored_keys@),
        decreases ds.len() - i,
    {
        let ghost d = pair_views(ds@);
        proof {
            assert(d.take(i + 1).drop_last() =~= d.take(i as int));
        }
        let mut found = false;
        let mut j: usize = 0;
        while j < stored_keys.len()
            invariant
                j <= stored_keys.len(),
                i < ds.len(),
                found == (exists|k: int| 0 <= k < j && (#[trigger] stored_keys@[k])@ == ds@[i as int].0@),
            decreases stored_keys.len() - j,
        {
            if str_eq(stored_keys[j].as_str(), ds[i].0.as_str()) {
                found = true;
            }
            j = j + 1;
        }
        if !found {
            let p = (ds[i].0.clone(), ds[i].1.clone());
            let ghost pv = (p.0@, p.1@);
            r.push(p);
            proof {
                assert(pair_views(r@) =~= pair_views(r@.drop_last()).push(pv));
            }
        }
        i = i + 1;
    }
    assert(pair_views(ds@).take(ds.len() as int) =~= pair_views(ds@));
    r
}

/// The configured download directory, when one is stored and not empty;
/// `None` means the default (the data directory's `Outputs`).
pub fn stored_download_dir(stored: Option<String>) -> (r: Option<String>)
    ensures
        match stored {
            Some(d) => if d@.len() > 0 { r == Some(d) } else { r is None },
            None => r is None,
        },
{
    match stored {
        Some(d) => if d.as_str().is_empty() { None } else { Some(d) },
        None => None,
    }
}

/// Archive format for chapters: the stored value, or `cbz`.
pub fn group_format(stored: Option<String>) -> (r: String)
    ensures
        match stored {
            Some(v) => r == v,
            None => r@ == "cbz"@,
        },
{
    match stored {
        Some(v) => v,
        None => "cbz".to_owned(),
    }
}

/// Image format for pages: the stored value, or `original`.
pub fn image_format(stored: Option<String>) -> (r: String)
    ensures
        match stored {
            Some(v) => r == v,
            None => r@ == "original"@,
        },
{
    match stored {
        Some(v) => v,
        None => "original".to_owned(),
    }
}

/// Calls std `str::parse::<usize>`. Claimed, as std documents: it succeeds
/// exactly for an optional `+` followed by one or more decimal digits whose
/// value fits, with that value. On failure, the error's text.
#[verifier::external_body]
fn std_parse_usize(s: &str) -> (r: std::result::Result<usize, String>)
    ensures
        r matches Ok(v) ==> unsigned_text_value(s@) == Some(v as int),
        r is Err ==> match unsigned_text_value(s@) {
            Some(v) => v > usize::MAX,
            None => true,
        },
{
    match s.parse::<usize>() {
        Ok(v) => Ok(v),
        Err(e) => Err(e.to_string()),
    }
}

/// Pages downloaded at once: the stored number (3 when absent), capped at
/// 5; a stored value that is not a number is an error.
pub fn max_concurrent_pages(stored: Option<&str>) -> (r: Result<usize>)
    ensures
        stored is None ==> r == Ok::<usize, HagitoriError>(3),
        stored matches Some(v) ==> match unsigned_text_value(v@) {
            Some(n) => if n <= usize::MAX {
                r == Ok::<usize, HagitoriError>(if n < 5 { n as usize } else { 5 })
            } else {
                r matches Err(e) && e matches HagitoriError::Config(m)
                    && exists|d: Seq<char>| m@ == "invalid max_concurrent_pages '"@ + v@ + "': "@ + d
            },
            None => r matches Err(e) && e matches HagitoriError::Config(m)
                && exists|d: Seq<char>| m@ == "invalid max_concurrent_pages '"@ + v@ + "': "@ + d,
        },
{
    match stored {
        None => Ok(3),
        Some(v) => match std_parse_usize(v) {
            Ok(n) => Ok(if n < 5 { n } else { 5 }),
            Err(e) => {
                let mut m = String::new();
                push_str(&mut m, "invalid max_concurrent_pages '");
                push_str(&mut m, v);
                push_str(&mut m, "': ");
                push_str(&mut m, e.as_str());
                assert(m@ == "invalid max_concurrent_pages '"@ + v@ + "': "@ + e@);
                Err(HagitoriError::config(m.as_str()))
            },
        },
    }
}

// ─── schema migrations ────────────────────────────────────────────────────

/// Versions of the migrations still to apply after `max_applied`, in order.
pub open spec fn pending_of(versions: Seq<i64>, max_applied: i64) -> Seq<i64>
    decreases versions.len(),
{
    if versions.len() == 0 {
        versions
    } else if versions.last() <= max_applied {
        pending_of(versions.drop_last(), max_applied)
    } else {
        pending_of(versions.drop_last(), max_applied).push(versions.last())
    }
}

/// The migrations a database still needs, given the highest version it
/// has applied.
pub fn pending_migrations(versions: &Vec<i64>, max_applied: i64) -> (r: Vec<i64>)
    ensures
        r@ == pending_of(versions@, max_applied),
{
    let mut r: Vec<i64> = Vec::new();
    let mut i: usize = 0;
    while i < versions.len()
        invariant
            i <= versions.len(),
            r@ == pending_of(versions@.take(i as int), max_applied),
        decreases versions.len() - i,
    {
        proof {
            assert(versions@.take(i + 1).drop_last() =~= versions@.take(i as int));
        }
        if versions[i] > max_applied {
            r.push(versions[i]);
        }
        i = i + 1;
    }
    assert(versions@.take(versions.len() as int) =~= versions@);
    r
}

proof fn lemma_pending_newer(versions: Seq<i64>, max_applied: i64)
    ensures
        forall|i: int| 0 <= i < pending_of(versions, max_applied).len() ==> (#[trigger] pending_of(
            versions,
            max_applied,
        )[i]) > max_applied,
    decreases versions.len(),
{
    if versions.len() > 0 {
        lemma_pending_newer(versions.drop_last(), max_applied);
        let p = pending_of(versions.drop_last(), max_applied);
        if versions.last() > max_applied {
            assert forall|i: int| 0 <= i < p.push(versions.last()).len() implies #[trigger] p.push(versions.last())[i] > max_applied by {
                if i < p.len() {
                    assert(p.push(versions.last())[i] == p[i]);
                }
            }
        }
    }
}

proof fn lemma_pending_none(versions: Seq<i64>, top: i64)
    requires
        forall|i: int| 0 <= i < versions.len() ==> #[trigger] versions[i] <= top,
    ensures
        pending_of(versions, top).len() == 0,
    decreases versions.len(),
{
    if versions.len() > 0 {
        assert forall|i: int| 0 <= i < versions.drop_last().len() implies #[trigger] versions.drop_last()[i] <= top by {
            assert(versions.drop_last()[i] == versions[i]);
        }
        lemma_pending_none(versions.drop_last(), top);
        assert(versions.last() == versions[versions.len() - 1]);
    }
}

/// Every migration still to apply is newer than what was applied, and once
/// the newest is applied nothing is pending.
pub proof fn lemma_migrations_settle(versions: Seq<i64>, max_applied: i64, top: i64)
    requires
        forall|i: int| 0 <= i < versions.len() ==> #[trigger] versions[i] <= top,
    ensures
        forall|i: int| 0 <= i < pending_of(versions, max_applied).len() ==> (#[trigger] pending_of(
            versions,
            max_applied,
        )[i]) > max_applied,
        pending_of(versions, top).len() == 0,
{
    lemma_pending_newer(versions, max_applied);
    lemma_pending_none(versions, top);
}

// ─── installed extensions ─────────────────────────────────────────────────

/// Calls `chrono::Utc::now().to_rfc3339()`. Nothing is claimed of the
/// result: it is the current time.
#[verifier::external_body]
fn now_rfc3339() -> (r: String) {
    chrono::Utc::now().to_rfc3339()
}

/// The record of an extension installed from the catalog at time `now`:
/// installed and updated then, with automatic updates on.
pub fn catalog_installation(
    extension_id: &str,
    name: &str,
    version_id: u32,
    lang: &str,
    repo: &str,
    branch: &str,
    path: &str,
    now: &str,
) -> (e: InstalledExtension)
    ensures
        e.extension_id@ == extension_id@,
        e.name@ == name@,
        e.version_id == version_id,
        e.lang@ == lang@,
        e.source_repo matches Some(s) && s@ == repo@,
        e.source_branch matches Some(s) && s@ == branch@,
        e.source_path matches Some(s) && s@ == path@,
        e.installed_at@ == now@,
        e.updated_at matches Some(s) && s@ == now@,
        e.auto_update,
{
    InstalledExtension {
        extension_id: extension_id.to_owned(),
        name: name.to_owned(),
        version_id,
        lang: lang.to_owned(),
        source_repo: Some(repo.to_owned()),
        source_branch: Some(branch.to_owned()),
        source_path: Some(path.to_owned()),
        installed_at: now.to_owned(),
        updated_at: Some(now.to_owned()),
        auto_update: true,
    }
}

/// The record of an extension installed from the catalog now.
pub fn register_catalog(
    extension_id: &str,
    name: &str,
    version_id: u32,
    lang: &str,
    repo: &str,
    branch: &str,
    path: &str,
) -> (e: InstalledExtension)
    ensures
        e.extension_id@ == extension_id@,
        e.name@ == name@,
        e.version_id == version_id,
        e.lang@ == lang@,
        e.source_repo matches Some(s) && s@ == repo@,
        e.source_branch matches Some(s) && s@ == branch@,
        e.source_path matches Some(s) && s@ == path@,
        e.updated_at matches Some(s) && s@ == e.installed_at@,
        e.auto_update,
{
    let now = now_rfc3339();
    catalog_installation(extension_id, name, version_id, lang, repo, branch, path, now.as_str())
}

/// The record a stored row describes: `None` when the stored version does
/// not fit a `u32`; automatic updates on unless stored as 0 (on when not
/// stored).
pub fn installed_extension_from_row(
    extension_id: String,
    name: String,
    raw_version: i64,
    lang: String,
    source_repo: Option<String>,
    source_branch: Option<String>,
    source_path: Option<String>,
    installed_at: String,
    updated_at: Option<String>,
    auto_update: Option<i32>,
) -> (r: Option<InstalledExtension>)
    ensures
        !(0 <= raw_version <= u32::MAX) ==> r is None,
        (0 <= raw_version <= u32::MAX) ==> (r matches Some(e) && e.extension_id == extension_id
            && e.name == name && e.version_id == raw_version && e.lang == lang && e.source_repo
            == source_repo && e.source_branch == source_branch && e.source_path == source_path
            && e.installed_at == installed_at && e.updated_at == updated_at && e.auto_update == (
        match auto_update {
            Some(v) => v != 0,
            None => true,
        })),
{
    if raw_version < 0 || raw_version > 0xffff_ffff {
        return None;
    }
    Some(InstalledExtension {
        extension_id,
        name,
        version_id: raw_version as u32,
        lang,
        source_repo,
        source_branch,
        source_path,
        installed_at,
        updated_at,
        auto_update: match auto_update {
            Some(v) => v != 0,
            None => true,
        },
    })
}

// ─── download history ─────────────────────────────────────────────────────

/// One entry of the download history.
#[derive(Debug, Clone)]
pub struct DownloadRecord {
    pub id: Option<i64>,
    pub manga_name: String,
    pub chapter_number: String,
    pub extension_id: String,
    pub source_url: Option<String>,
    pub download_path: Option<String>,
    /// `completed` or `failed`.
    pub status: String,
    /// When the download ended (RFC 3339).
    pub downloaded_at: String,
}

impl DownloadRecord {
    /// A completed download saved at `download_path`, recorded now.
    pub fn completed(manga_name: &str, chapter_number: &str, extension_id: &str, download_path: &str) -> (r: Self)
        ensures
            r.id is None,
            r.manga_name@ == manga_name@,
            r.chapter_number@ == chapter_number@,
            r.extension_id@ == extension_id@,
            r.source_url is None,
            r.download_path matches Some(p) && p@ == download_path@,
            r.status@ == "completed"@,
    {
        DownloadRecord {
            id: None,
            manga_name: manga_name.to_owned(),
            chapter_number: chapter_number.to_owned(),
            extension_id: extension_id.to_owned(),
            source_url: None,
            download_path: Some(download_path.to_owned()),
            status: "completed".to_owned(),
            downloaded_at: now_rfc3339(),
        }
    }

    /// A failed download, recorded now.
    pub fn failed(manga_name: &str, chapter_number: &str, extension_id: &str) -> (r: Self)
        ensures
            r.id is None,
            r.manga_name@ == manga_name@,
            r.chapter_number@ == chapter_number@,
            r.extension_id@ == extension_id@,
            r.source_url is None,
            r.download_path is None,
            r.status@ == "failed"@,
    {
        DownloadRecord {
            id: None,
            manga_name: manga_name.to_owned(),
            chapter_number: chapter_number.to_owned(),
            extension_id: extension_id.to_owned(),
            source_url: None,
            download_path: None,
            status: "failed".to_owned(),
            downloaded_at: now_rfc3339(),
        }
    }
}

// ─── sessions ─────────────────────────────────────────────────────────────

/// What is remembered of one site between runs.
#[derive(Debug, Clone)]
pub struct SessionData {
    /// Cookie name/value pairs.
    pub cookies: Vec<(String, String)>,
    /// Header name/value pairs.
    pub headers: Vec<(String, String)>,
    pub user_agent: Option<String>,
}

impl Default for SessionData {
    fn default() -> (s: Self)
        ensures
            s.cookies@.len() == 0,
            s.headers@.len() == 0,
            s.user_agent is None,
    {
        SessionData { cookies: Vec::new(), headers: Vec::new(), user_agent: None }
    }
}

/// Message of a stored session whose cookies or headers do not parse.
pub fn corrupted_session_message(part: &str, domain: &str, detail: &str) -> (r: String)
    ensures
        r@ == "corrupted session "@ + part@ + " for '"@ + domain@ + "': "@ + detail@,
{
    let mut r = String::new();
    push_str(&mut r, "corrupted session ");
    push_str(&mut r, part);
    push_str(&mut r, " for '");
    push_str(&mut r, domain);
    push_str(&mut r, "': ");
    push_str(&mut r, detail);
    r
}

// ─── library ──────────────────────────────────────────────────────────────

/// A manga kept in the library, with its chapters and details.
#[derive(Debug, Clone)]
pub struct LibraryEntry {
    pub manga: Manga,
    pub chapters: Vec<Chapter>,
    pub details: Option<MangaDetails>,
    /// Last update, in milliseconds since the epoch.
    pub updated_at: i64,
}

impl LibraryEntry {
    /// An entry last updated `updated_secs` seconds after the epoch.
    pub fn new(manga: Manga, chapters: Vec<Chapter>, details: Option<MangaDetails>, updated_secs: i64) -> (e: Self)
        requires
            -9_223_372_036_854_775 <= updated_secs <= 9_223_372_036_854_775,
        ensures
            e.manga == manga,
            e.chapters == chapters,
            e.details == details,
            e.updated_at == updated_secs * 1000,
    {
        LibraryEntry { manga, chapters, details, updated_at: updated_secs * 1000 }
    }
}

/// How a source is shown.
#[derive(Debug, Clone)]
pub struct SourceMeta {
    pub display_name: Option<String>,
    pub supports_details: bool,
}

/// The list a stored JSON text holds (`serde_json::from_str::<Vec<String>>`),
/// if it is one.
pub uninterp spec fn json_string_list(json: Seq<char>) -> Option<Seq<Seq<char>>>;

/// Calls `serde_json::from_str::<Vec<String>>`. Claimed: the outcome
/// depends on the text alone.
#[verifier::external_body]
fn parse_string_list(json: &str) -> (r: Option<Vec<String>>)
    ensures
        match r {
            Some(v) => json_string_list(json@) == Some(Seq::new(v@.len(), |i: int| v@[i]@)),
            None => json_string_list(json@) is None,
        },
{
    serde_json::from_str::<Vec<String>>(json).ok()
}

/// The JSON text `serde_json::to_string` writes for a list of strings.
pub uninterp spec fn string_list_json_text(list: Seq<Seq<char>>) -> Seq<char>;

/// The strings of a list, by their views.
pub open spec fn string_views(v: Seq<String>) -> Seq<Seq<char>> {
    Seq::new(v.len(), |i: int| v[i]@)
}

/// Calls `serde_json::to_string` on a list of strings. Claimed: the text
/// depends on the list alone, and reading it back as a list of strings
/// gives the same list.
#[verifier::external_body]
fn write_string_list(list: &Vec<String>) -> (r: String)
    ensures
        r@ == string_list_json_text(string_views(list@)),
        json_string_list(r@) == Some(string_views(list@)),
{
    serde_json::to_string(list).unwrap_or_default()
}

/// The JSON text a list of strings (alternative titles, tags) is stored as;
/// reading it back with `stored_string_list` gives the same list.
pub fn string_list_json(list: &Vec<String>) -> (r: String)
    ensures
        r@ == string_list_json_text(string_views(list@)),
        json_string_list(r@) == Some(string_views(list@)),
        stored_list_of(Some(r@)) == string_views(list@),
{
    write_string_list(list)
}

/// The list a stored column holds: the JSON list of strings it parses as,
/// empty when absent or not such a list.
pub open spec fn stored_list_of(json: Option<Seq<char>>) -> Seq<Seq<char>> {
    match json {
        Some(j) => match json_string_list(j) {
            Some(l) => l,
            None => Seq::empty(),
        },
        None => Seq::empty(),
    }
}

/// A stored list of strings (alternative titles, tags): empty when absent
/// or not a JSON list of strings.
pub fn stored_string_list(json: Option<&str>) -> (r: Vec<String>)
    ensures
        string_views(r@) == stored_list_of(
            match json {
                Some(j) => Some(j@),
                None => None,
            },
        ),
{
    match json {
        Some(j) => match parse_string_list(j) {
            Some(v) => v,
            None => {
                let e: Vec<String> = Vec::new();
                assert(string_views(e@) =~= Seq::<Seq<char>>::empty());
                e
            },
        },
        None => {
            let e: Vec<String> = Vec::new();
            assert(string_views(e@) =~= Seq::<Seq<char>>::empty());
            e
        },
    }
}

/// The stored forms of a details record's alternative titles and tags;
/// each reads back as the same list.
pub fn details_row_lists(d: &MangaDetails) -> (r: (String, String))
    ensures
        r.0@ == string_list_json_text(string_views(d.alt_titles@)),
        r.1@ == string_list_json_text(string_views(d.tags@)),
        stored_list_of(Some(r.0@)) == string_views(d.alt_titles@),
        stored_list_of(Some(r.1@)) == string_views(d.tags@),
{
    (string_list_json(&d.alt_titles), string_list_json(&d.tags))
}

/// A details record read back from its stored row.
#[allow(clippy::too_many_arguments)]
pub fn details_from_row(
    manga_id: &str,
    name: String,
    cover: Option<String>,
    source: String,
    synopsis: Option<String>,
    author: Option<String>,
    artist: Option<String>,
    alt_titles_json: Option<&str>,
    tags_json: Option<&str>,
    status: Option<String>,
) -> (d: MangaDetails)
    ensures
        d.id@ == manga_id@,
        d.name == name,
        d.cover == cover,
        d.source == source,
        d.synopsis == synopsis,
        d.author == author,
        d.artist == artist,
        string_views(d.alt_titles@) == stored_list_of(
            match alt_titles_json {
                Some(j) => Some(j@),
                None => None,
            },
        ),
        string_views(d.tags@) == stored_list_of(
            match tags_json {
                Some(j) => Some(j@),
                None => None,
            },
        ),
        d.status == status,
{
    MangaDetails {
        id: manga_id.to_string(),
        name,
        cover,
        source,
        synopsis,
        author,
        artist,
        alt_titles: stored_string_list(alt_titles_json),
        tags: stored_string_list(tags_json),
        status,
    }
}

// ─── stored sessions ─────────────────────────────────────────────────────

/// The map a list of pairs describes, later pairs overriding earlier ones.
pub open spec fn pairs_map(ps: Seq<(Seq<char>, Seq<char>)>) -> Map<Seq<char>, Seq<char>>
    decreases ps.len(),
{
    if ps.len() == 0 {
        Map::empty()
    } else {
        pairs_map(ps.drop_last()).insert(ps.last().0, ps.last().1)
    }
}

/// The map a stored JSON text holds
/// (`serde_json::from_str::<HashMap<String, String>>`), if it is one.
pub uninterp spec fn json_string_map(text: Seq<char>) -> Option<Map<Seq<char>, Seq<char>>>;

/// The JSON object text `serde_json::to_string` writes for the pairs.
pub uninterp spec fn string_map_json_text(pairs: Seq<(Seq<char>, Seq<char>)>) -> Seq<char>;

/// Calls `serde_json::from_str::<HashMap<String, String>>` and lists the
/// map's entries (in the map's own order). Claimed: the outcome depends on
/// the text alone, and the entries listed are the map's, each name once.
/// On failure, the error's text.
#[verifier::external_body]
fn parse_string_map(text: &str) -> (r: std::result::Result<Vec<(String, String)>, String>)
    ensures
        r matches Ok(v) ==> unique_names(pair_views(v@)) && json_string_map(text@) == Some(pairs_map(pair_views(v@))),
        r is Err ==> json_string_map(text@) is None,
{
    match serde_json::from_str::<std::collections::HashMap<String, String>>(text) {
        Ok(m) => Ok(m.into_iter().collect()),
        Err(e) => Err(e.to_string()),
    }
}

/// Calls `serde_json::to_string` on a JSON object built from the pairs.
/// Claimed: the text depends on the pairs alone, and reading it back as a
/// map of strings gives their map (a later pair overriding an earlier one
/// with the same name).
#[verifier::external_body]
fn write_string_map(pairs: &Vec<(String, String)>) -> (r: String)
    ensures
        r@ == string_map_json_text(pair_views(pairs@)),
        json_string_map(r@) == Some(pairs_map(pair_views(pairs@))),
{
    let mut m = serde_json::Map::new();
    for (k, v) in pairs {
        m.insert(k.clone(), serde_json::Value::String(v.clone()));
    }
    serde_json::Value::Object(m).to_string()
}

/// The JSON text a session's cookies or headers are stored as; reading it
/// back with `session_pairs` gives the same map.
pub fn session_json(pairs: &Vec<(String, String)>) -> (r: String)
    ensures
        r@ == string_map_json_text(pair_views(pairs@)),
        json_string_map(r@) == Some(pairs_map(pair_views(pairs@))),
{
    write_string_map(pairs)
}

/// A session's stored cookies or headers (`part`) for `domain`: none when
/// nothing is stored, the stored map's entries (each name once) when the
/// text parses, and the corrupted-session error otherwise.
pub fn session_pairs(json: Option<&str>, part: &str, domain: &str) -> (r: Result<Vec<(String, String)>>)
    ensures
        json is None ==> (r matches Ok(v) && v@.len() == 0),
        json matches Some(j) ==> (json_string_map(j@) is Some <==> r is Ok),
        json matches Some(j) ==> (r matches Ok(v) ==> unique_names(pair_views(v@)) && json_string_map(j@) == Some(
            pairs_map(pair_views(v@)),
        )),
        json matches Some(j) ==> (r is Err ==> (r matches Err(e) && e matches HagitoriError::Config(m) && exists|d: Seq<char>|
            m@ == "corrupted session "@ + part@ + " for '"@ + domain@ + "': "@ + d)),
{
    match json {
        None => Ok(Vec::new()),
        Some(j) => match parse_string_map(j) {
            Ok(v) => Ok(v),
            Err(e) => Err(HagitoriError::config(corrupted_session_message(part, domain, e.as_str()).as_str())),
        },
    }
}

} // verus!
