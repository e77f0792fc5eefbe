//! Domain entities: manga, chapters, pages, download progress and extension
//! metadata.

use vstd::prelude::*;
use crate::text::str_eq;

verus! {

fn owned(s: &str) -> (r: String)
    ensures
        r@ == s@,
{
    s.to_owned()
}

// ─── Chapter ──────────────────────────────────────────────────────────────

/// One chapter of a manga.
#[derive(Debug, Clone, PartialEq, Eq)]
pub struct Chapter {
    pub id: String,
    pub number: String,
    pub name: String,
    pub title: Option<String>,
    pub date: Option<String>,
    pub scanlator: Option<String>,
}

/// `o` holds text equal to `t`.
pub open spec fn holds_text(o: Option<String>, t: Seq<char>) -> bool {
    o matches Some(s) && s@ == t
}

impl Chapter {
    /// A chapter with no title, date or scanlator.
    pub fn new(id: &str, number: &str, name: &str) -> (c: Self)
        ensures
            c.id@ == id@,
            c.number@ == number@,
            c.name@ == name@,
            c.title is None,
            c.date is None,
            c.scanlator is None,
    {
        Chapter {
            id: owned(id),
            number: owned(number),
            name: owned(name),
            title: None,
            date: None,
            scanlator: None,
        }
    }

    /// The same chapter with the given title.
    pub fn with_title(self, title: &str) -> (c: Self)
        ensures
            holds_text(c.title, title@),
            c.id == self.id && c.number == self.number && c.name == self.name,
            c.date == self.date && c.scanlator == self.scanlator,
    {
        Chapter { title: Some(owned(title)), ..self }
    }

    /// The same chapter with the given scanlator.
    pub fn with_scanlator(self, scanlator: &str) -> (c: Self)
        ensures
            holds_text(c.scanlator, scanlator@),
            c.id == self.id && c.number == self.number && c.name == self.name,
            c.title == self.title && c.date == self.date,
    {
        Chapter { scanlator: Some(owned(scanlator)), ..self }
    }

    /// The same chapter with the given date.
    pub fn with_date(self, date: &str) -> (c: Self)
        ensures
            holds_text(c.date, date@),
            c.id == self.id && c.number == self.number && c.name == self.name,
            c.title == self.title && c.scanlator == self.scanlator,
    {
        Chapter { date: Some(owned(date)), ..self }
    }
}

// ─── Manga ────────────────────────────────────────────────────────────────

/// Summarised manga (listings and search results).
#[derive(Debug, Clone, PartialEq, Eq)]
pub struct Manga {
    pub id: String,
    pub name: String,
    pub cover: Option<String>,
    pub source: String,
    pub url: Option<String>,
}

impl Manga {
    /// A manga with no cover and no URL.
    pub fn new(id: &str, name: &str, source: &str) -> (m: Self)
        ensures
            m.id@ == id@,
            m.name@ == name@,
            m.source@ == source@,
            m.cover is None,
            m.url is None,
    {
        Manga { id: owned(id), name: owned(name), cover: None, source: owned(source), url: None }
    }

    /// The same manga with the given cover URL.
    pub fn with_cover(self, cover: &str) -> (m: Self)
        ensures
            holds_text(m.cover, cover@),
            m.id == self.id && m.name == self.name && m.source == self.source && m.url == self.url,
    {
        Manga { cover: Some(owned(cover)), ..self }
    }
}

// ─── MangaDetails ─────────────────────────────────────────────────────────

/// Full manga details: synopsis, tags and publication status.
#[derive(Debug, Clone, PartialEq, Eq)]
pub struct MangaDetails {
    pub id: String,
    pub name: String,
    pub cover: Option<String>,
    pub source: String,
    pub synopsis: Option<String>,
    pub author: Option<String>,
    pub artist: Option<String>,
    pub alt_titles: Vec<String>,
    pub tags: Vec<String>,
    pub status: Option<String>,
}

/// `a` and `b` agree on every field but the ones a builder sets.
pub open spec fn details_same_except(
    a: MangaDetails,
    b: MangaDetails,
    cover: bool,
    synopsis: bool,
    author: bool,
    artist: bool,
    alt: bool,
    tags: bool,
    status: bool,
) -> bool {
    &&& a.id == b.id
    &&& a.name == b.name
    &&& a.source == b.source
    &&& (cover || a.cover == b.cover)
    &&& (synopsis || a.synopsis == b.synopsis)
    &&& (author || a.author == b.author)
    &&& (artist || a.artist == b.artist)
    &&& (alt || a.alt_titles == b.alt_titles)
    &&& (tags || a.tags == b.tags)
    &&& (status || a.status == b.status)
}

impl MangaDetails {
    /// Details with only id, name and source set.
    pub fn new(id: &str, name: &str, source: &str) -> (d: Self)
        ensures
            d.id@ == id@,
            d.name@ == name@,
            d.source@ == source@,
            d.cover is None && d.synopsis is None && d.author is None,
            d.artist is None && d.status is None,
            d.alt_titles@.len() == 0 && d.tags@.len() == 0,
    {
        MangaDetails {
            id: owned(id),
            name: owned(name),
            cover: None,
            source: owned(source),
            synopsis: None,
            author: None,
            artist: None,
            alt_titles: Vec::new(),
            tags: Vec::new(),
            status: None,
        }
    }

    /// The same details with the given cover URL.
    pub fn with_cover(self, url: &str) -> (d: Self)
        ensures
            holds_text(d.cover, url@),
            details_same_except(d, self, true, false, false, false, false, false, false),
    {
        MangaDetails { cover: Some(owned(url)), ..self }
    }

    /// The same details with the given synopsis.
    pub fn with_synopsis(self, synopsis: &str) -> (d: Self)
        ensures
            holds_text(d.synopsis, synopsis@),
            details_same_except(d, self, false, true, false, false, false, false, false),
    {
        MangaDetails { synopsis: Some(owned(synopsis)), ..self }
    }

    /// The same details with the given author.
    pub fn with_author(self, author: &str) -> (d: Self)
        ensures
            holds_text(d.author, author@),
            details_same_except(d, self, false, false, true, false, false, false, false),
    {
        MangaDetails { author: Some(owned(author)), ..self }
    }

    /// The same details with the given artist.
    pub fn with_artist(self, artist: &str) -> (d: Self)
        ensures
            holds_text(d.artist, artist@),
            details_same_except(d, self, false, false, false, true, false, false, false),
    {
        MangaDetails { artist: Some(owned(artist)), ..self }
    }

    /// The same details with the given alternative titles.
    pub fn with_alt_titles(self, titles: Vec<String>) -> (d: Self)
        ensures
            d.alt_titles == titles,
            details_same_except(d, self, false, false, false, false, true, false, false),
    {
        MangaDetails { alt_titles: titles, ..self }
    }

    /// The same details with the given tags.
    pub fn with_tags(self, tags: Vec<String>) -> (d: Self)
        ensures
            d.tags == tags,
            details_same_except(d, self, false, false, false, false, false, true, false),
    {
        MangaDetails { tags, ..self }
    }

    /// The same details with the given publication status.
    pub fn with_status(self, status: &str) -> (d: Self)
        ensures
            holds_text(d.status, status@),
            details_same_except(d, self, false, false, false, false, false, false, true),
    {
        MangaDetails { status: Some(owned(status)), ..self }
    }
}

// ─── Pages ────────────────────────────────────────────────────────────────

/// Image URLs of a chapter, with request headers and download hints.
#[derive(Debug, Clone, PartialEq, Eq)]
pub struct Pages {
    pub chapter_id: String,
    pub chapter_number: String,
    pub manga_name: String,
    pub pages: Vec<String>,
    /// Header name/value pairs sent with each image request.
    pub headers: Option<Vec<(String, String)>>,
    pub use_browser: bool,
    pub scanlator: Option<String>,
}

impl Pages {
    /// Pages with no headers, no scanlator, downloaded over HTTP.
    pub fn new(chapter_id: &str, chapter_number: &str, manga_name: &str, pages: Vec<String>) -> (p: Self)
        ensures
            p.chapter_id@ == chapter_id@,
            p.chapter_number@ == chapter_number@,
            p.manga_name@ == manga_name@,
            p.pages == pages,
            p.headers is None,
            !p.use_browser,
            p.scanlator is None,
    {
        Pages {
            chapter_id: owned(chapter_id),
            chapter_number: owned(chapter_number),
            manga_name: owned(manga_name),
            pages,
            headers: None,
            use_browser: false,
            scanlator: None,
        }
    }

    /// The same pages with the given request headers.
    pub fn with_headers(self, headers: Vec<(String, String)>) -> (p: Self)
        ensures
            p.headers == Some(headers),
            p.chapter_id == self.chapter_id && p.chapter_number == self.chapter_number,
            p.manga_name == self.manga_name && p.pages == self.pages,
            p.use_browser == self.use_browser && p.scanlator == self.scanlator,
    {
        Pages { headers: Some(headers), ..self }
    }

    /// The same pages with the given scanlator.
    pub fn with_scanlator(self, scanlator: &str) -> (p: Self)
        ensures
            holds_text(p.scanlator, scanlator@),
            p.chapter_id == self.chapter_id && p.chapter_number == self.chapter_number,
            p.manga_name == self.manga_name && p.pages == self.pages,
            p.use_browser == self.use_browser && p.headers == self.headers,
    {
        Pages { scanlator: Some(owned(scanlator)), ..self }
    }

    /// Number of page images.
    pub fn total_pages(&self) -> (n: usize)
        ensures
            n == self.pages@.len(),
    {
        self.pages.len()
    }
}

// ─── download status and progress ─────────────────────────────────────────

/// Where a chapter download stands.
#[derive(Debug, Clone, PartialEq, Eq)]
pub enum DownloadStatus {
    Queued,
    Downloading,
    Processing,
    Completed,
    Failed(String),
}

/// The download has ended, successfully or not.
pub open spec fn status_finished(s: DownloadStatus) -> bool {
    s is Completed || s is Failed
}

/// The download is under way.
pub open spec fn status_active(s: DownloadStatus) -> bool {
    s is Downloading || s is Processing
}

impl DownloadStatus {
    /// Completed or failed.
    pub fn is_finished(&self) -> (b: bool)
        ensures
            b == status_finished(*self),
    {
        match self {
            DownloadStatus::Completed | DownloadStatus::Failed(_) => true,
            _ => false,
        }
    }

    /// Downloading or processing.
    pub fn is_active(&self) -> (b: bool)
        ensures
            b == status_active(*self),
    {
        match self {
            DownloadStatus::Downloading | DownloadStatus::Processing => true,
            _ => false,
        }
    }
}

/// No download is both finished and active, and a queued one is neither.
pub proof fn lemma_status_exclusive(s: DownloadStatus)
    ensures
        !(status_finished(s) && status_active(s)),
        s is Queued ==> !status_finished(s) && !status_active(s),
{
}

/// Progress of one chapter download.
#[derive(Debug, Clone, PartialEq, Eq)]
pub struct DownloadProgress {
    pub manga_name: String,
    pub chapter_number: String,
    pub current_page: u32,
    pub total_pages: u32,
    pub status: DownloadStatus,
    pub save_path: Option<String>,
}

impl DownloadProgress {
    /// Progress with no save path.
    pub fn new(
        manga_name: &str,
        chapter_number: &str,
        current_page: u32,
        total_pages: u32,
        status: DownloadStatus,
    ) -> (p: Self)
        ensures
            p.manga_name@ == manga_name@,
            p.chapter_number@ == chapter_number@,
            p.current_page == current_page,
            p.total_pages == total_pages,
            p.status == status,
            p.save_path is None,
    {
        DownloadProgress {
            manga_name: owned(manga_name),
            chapter_number: owned(chapter_number),
            current_page,
            total_pages,
            status,
            save_path: None,
        }
    }

    /// Final progress of a completed download saved at `save_path`: every
    /// page done.
    pub fn completed_with_path(
        manga_name: &str,
        chapter_number: &str,
        total_pages: u32,
        save_path: &str,
    ) -> (p: Self)
        ensures
            p.manga_name@ == manga_name@,
            p.chapter_number@ == chapter_number@,
            p.current_page == total_pages,
            p.total_pages == total_pages,
            p.status == DownloadStatus::Completed,
            holds_text(p.save_path, save_path@),
    {
        DownloadProgress {
            manga_name: owned(manga_name),
            chapter_number: owned(chapter_number),
            current_page: total_pages,
            total_pages,
            status: DownloadStatus::Completed,
            save_path: Some(owned(save_path)),
        }
    }
}

// ─── ExtensionMeta ────────────────────────────────────────────────────────

/// Metadata of an installed extension.
#[derive(Debug, Clone, PartialEq, Eq)]
pub struct ExtensionMeta {
    pub id: String,
    pub name: String,
    pub lang: String,
    pub version: String,
    pub domains: Vec<String>,
    pub features: Vec<String>,
    pub supports_details: bool,
    pub languages: Vec<String>,
    pub icon: Option<String>,
}

/// Some element of `v` has the text `t`.
pub open spec fn has_text(v: Seq<String>, t: Seq<char>) -> bool {
    exists|i: int| 0 <= i < v.len() && (#[trigger] v[i])@ == t
}

/// Whether some element of `v` equals `t`.
pub fn contains_text(v: &Vec<String>, t: &str) -> (b: bool)
    ensures
        b == has_text(v@, t@),
{
    let mut i: usize = 0;
    while i < v.len()
        invariant
            i <= v.len(),
            forall|j: int| 0 <= j < i ==> (#[trigger] v@[j])@ != t@,
        decreases v.len() - i,
    {
        if str_eq(v[i].as_str(), t) {
            return true;
        }
        i = i + 1;
    }
    false
}

/// `a` and `b` agree on every field but those a builder sets.
pub open spec fn meta_same_except(a: ExtensionMeta, b: ExtensionMeta, features: bool, details: bool, languages: bool, icon: bool) -> bool {
    &&& a.id == b.id && a.name == b.name && a.lang == b.lang && a.version == b.version
    &&& a.domains == b.domains
    &&& (features || a.features == b.features)
    &&& (details || a.supports_details == b.supports_details)
    &&& (languages || a.languages == b.languages)
    &&& (icon || a.icon == b.icon)
}

impl ExtensionMeta {
    /// Metadata with no features, languages or icon, not supporting details.
    pub fn new(id: &str, name: &str, lang: &str, version: &str, domains: Vec<String>) -> (m: Self)
        ensures
            m.id@ == id@,
            m.name@ == name@,
            m.lang@ == lang@,
            m.version@ == version@,
            m.domains == domains,
            m.features@.len() == 0,
            !m.supports_details,
            m.languages@.len() == 0,
            m.icon is None,
    {
        ExtensionMeta {
            id: owned(id),
            name: owned(name),
            lang: owned(lang),
            version: owned(version),
            domains,
            features: Vec::new(),
            supports_details: false,
            languages: Vec::new(),
            icon: None,
        }
    }

    /// The same metadata with the given features.
    pub fn with_features(self, features: Vec<String>) -> (m: Self)
        ensures
            m.features == features,
            meta_same_except(m, self, true, false, false, false),
    {
        ExtensionMeta { features, ..self }
    }

    /// The same metadata with the given details support flag.
    pub fn with_supports_details(self, supports_details: bool) -> (m: Self)
        ensures
            m.supports_details == supports_details,
            meta_same_except(m, self, false, true, false, false),
    {
        ExtensionMeta { supports_details, ..self }
    }

    /// The same metadata with the given languages.
    pub fn with_languages(self, languages: Vec<String>) -> (m: Self)
        ensures
            m.languages == languages,
            meta_same_except(m, self, false, false, true, false),
    {
        ExtensionMeta { languages, ..self }
    }

    /// The same metadata with the given icon.
    pub fn with_icon(self, icon: &str) -> (m: Self)
        ensures
            holds_text(m.icon, icon@),
            meta_same_except(m, self, false, false, false, true),
    {
        ExtensionMeta { icon: Some(owned(icon)), ..self }
    }

    /// The extension needs a browser (feature `browser`).
    pub fn requires_browser(&self) -> (b: bool)
        ensures
            b == has_text(self.features@, "browser"@),
    {
        contains_text(&self.features, "browser")
    }

    /// The extension needs crypto helpers (feature `crypto`).
    pub fn requires_crypto(&self) -> (b: bool)
        ensures
            b == has_text(self.features@, "crypto"@),
    {
        contains_text(&self.features, "crypto")
    }
}

} // verus!
