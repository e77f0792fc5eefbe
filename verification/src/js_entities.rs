//! The `Manga`, `Chapter` and `Pages` values extension scripts build, and
//! what the application makes of them.

use vstd::prelude::*;
use crate::entities::{Chapter, Manga, Pages};
use crate::error::HagitoriError;

verus! {

/// A manga as a script builds it (`new Manga({ id, name, cover })`).
#[derive(Debug, Clone)]
pub struct JsManga {
    pub id: String,
    pub name: String,
    pub cover: Option<String>,
    /// Filled in by the application, not the script.
    pub source: String,
}

impl JsManga {
    /// A script's manga: no source yet.
    pub fn new(id: String, name: String, cover: Option<String>) -> (m: Self)
        ensures
            m.id == id,
            m.name == name,
            m.cover == cover,
            m.source@.len() == 0,
    {
        JsManga { id, name, cover, source: String::new() }
    }

    /// The manga the application records, attributed to extension
    /// `source`.
    pub fn into_manga(self, source: &str) -> (m: Manga)
        ensures
            m.id == self.id,
            m.name == self.name,
            m.cover == self.cover,
            m.source@ == source@,
            m.url is None,
    {
        Manga { id: self.id, name: self.name, cover: self.cover, source: source.to_owned(), url: None }
    }
}

/// A chapter as a script builds it.
#[derive(Debug, Clone)]
pub struct JsChapter {
    pub id: String,
    pub number: String,
    pub name: String,
    pub title: Option<String>,
    pub date: Option<String>,
    pub scanlator: Option<String>,
}

impl JsChapter {
    /// A script's chapter.
    pub fn new(id: String, number: String, name: String, title: Option<String>, date: Option<String>, scanlator: Option<String>) -> (c: Self)
        ensures
            c.id == id,
            c.number == number,
            c.name == name,
            c.title == title,
            c.date == date,
            c.scanlator == scanlator,
    {
        JsChapter { id, number, name, title, date, scanlator }
    }

    /// The chapter the application records.
    pub fn into_chapter(self) -> (c: Chapter)
        ensures
            c.id == self.id,
            c.number == self.number,
            c.name == self.name,
            c.title == self.title,
            c.date == self.date,
            c.scanlator == self.scanlator,
    {
        Chapter {
            id: self.id,
            number: self.number,
            name: self.name,
            title: self.title,
            date: self.date,
            scanlator: self.scanlator,
        }
    }
}

/// A chapter's pages as a script builds them
/// (`new Pages({ id, number, name, urls, headers, useBrowser })`).
#[derive(Debug, Clone)]
pub struct JsPages {
    pub chapter_id: String,
    pub chapter_number: String,
    pub manga_name: String,
    pub pages: Vec<String>,
    pub headers: Option<Vec<(String, String)>>,
    pub use_browser: bool,
}

impl JsPages {
    /// A script's pages: downloaded over HTTP unless `useBrowser` is true.
    pub fn new(
        chapter_id: String,
        chapter_number: String,
        manga_name: String,
        pages: Vec<String>,
        headers: Option<Vec<(String, String)>>,
        use_browser: Option<bool>,
    ) -> (p: Self)
        ensures
            p.chapter_id == chapter_id,
            p.chapter_number == chapter_number,
            p.manga_name == manga_name,
            p.pages == pages,
            p.headers == headers,
            p.use_browser == (use_browser == Some(true)),
    {
        JsPages {
            chapter_id,
            chapter_number,
            manga_name,
            pages,
            headers,
            use_browser: match use_browser {
                Some(b) => b,
                None => false,
            },
        }
    }

    /// The pages the application downloads (no scanlator).
    pub fn into_pages(self) -> (p: Pages)
        ensures
            p.chapter_id == self.chapter_id,
            p.chapter_number == self.chapter_number,
            p.manga_name == self.manga_name,
            p.pages == self.pages,
            p.headers == self.headers,
            p.use_browser == self.use_browser,
            p.scanlator is None,
    {
        Pages {
            chapter_id: self.chapter_id,
            chapter_number: self.chapter_number,
            manga_name: self.manga_name,
            pages: self.pages,
            headers: self.headers,
            use_browser: self.use_browser,
            scanlator: None,
        }
    }
}

/// What a provider answers when it has no details lookup.
pub fn details_not_implemented() -> (e: HagitoriError)
    ensures
        e matches HagitoriError::Extension(m) && m@ == "getDetails not implemented for this extension"@,
{
    HagitoriError::extension("getDetails not implemented for this extension")
}

/// The error a script call reports when the value it returned does not
/// have the expected shape.
pub fn deserialize_error(function: &str, detail: &str) -> (e: HagitoriError)
    ensures
        e matches HagitoriError::Extension(m) && m@ == function@ + ": failed to deserialize: "@ + detail@,
{
    let mut m = String::new();
    crate::text::push_str(&mut m, function);
    crate::text::push_str(&mut m, ": failed to deserialize: ");
    crate::text::push_str(&mut m, detail);
    HagitoriError::extension(m.as_str())
}

} // verus!
