use hagitori::catalog::CatalogEntry;
use hagitori::entities::{
    Chapter, DownloadProgress, DownloadStatus, ExtensionMeta, Manga, MangaDetails, Pages,
};
use hagitori::error::HagitoriError;
use hagitori::js_entities::{details_not_implemented, deserialize_error, JsChapter, JsManga, JsPages};

#[test]
fn download_status_state_checks() {
    assert!(!DownloadStatus::Queued.is_finished());
    assert!(!DownloadStatus::Downloading.is_finished());
    assert!(!DownloadStatus::Processing.is_finished());
    assert!(DownloadStatus::Completed.is_finished());
    assert!(DownloadStatus::Failed("erro".into()).is_finished());

    assert!(!DownloadStatus::Queued.is_active());
    assert!(DownloadStatus::Downloading.is_active());
    assert!(DownloadStatus::Processing.is_active());
    assert!(!DownloadStatus::Completed.is_active());
    assert!(!DownloadStatus::Failed("erro".into()).is_active());
}

#[test]
fn error_types_and_conversions() {
    assert_eq!(HagitoriError::http("refused").message(), "HTTP error: refused");
    assert_eq!(HagitoriError::browser("not found").message(), "browser error: not found");
    assert_eq!(HagitoriError::download("disk full").message(), "download error: disk full");

    let io_err = std::io::Error::new(std::io::ErrorKind::NotFound, "file not found");
    assert!(matches!(HagitoriError::from(io_err), HagitoriError::Io(_)));

    let json_err = serde_json::from_str::<u32>("invalid").unwrap_err();
    assert!(matches!(HagitoriError::from(json_err), HagitoriError::Json(_)));
}

#[test]
fn error_messages_of_every_kind() {
    assert_eq!(HagitoriError::extension("bad").message(), "extension error: bad");
    assert_eq!(HagitoriError::config("x").message(), "config error: x");
    let io = HagitoriError::from(std::io::Error::new(std::io::ErrorKind::Other, "boom"));
    assert_eq!(io.message(), "I/O error: boom");
    assert!(HagitoriError::from(url::ParseError::EmptyHost).message().starts_with("URL parse error: "));
}

#[test]
fn extension_meta_features() {
    let meta = ExtensionMeta::new("en.protected_site", "ProtectedSite", "en", "2.0.0", vec!["protected.com".to_string()])
        .with_features(vec!["browser".to_string(), "crypto".to_string()]);
    assert!(meta.requires_browser());
    assert!(meta.requires_crypto());
    let plain = ExtensionMeta::new("a", "A", "en", "1", Vec::new()).with_features(vec!["other".to_string()]);
    assert!(!plain.requires_browser());
    assert!(!plain.requires_crypto());
    let icon = plain.clone().with_icon("data:x");
    assert_eq!(icon.icon.as_deref(), Some("data:x"));
    assert_eq!(icon.id, plain.id);
}

fn make_entry(path: &str) -> CatalogEntry {
    CatalogEntry {
        id: "test.ext".to_string(),
        name: "Test".to_string(),
        lang: "en".to_string(),
        version_id: 1,
        path: path.to_string(),
        entry: "index.js".to_string(),
        requires: vec![],
        icon: None,
        domains: vec![],
        features: vec![],
        supports_details: false,
        languages: vec![],
        files: Vec::new(),
        min_app_version: None,
    }
}

#[test]
fn relative_path_strips_builds_prefix() {
    let entry = make_entry("builds/pt-br/sakuramangas");
    assert_eq!(entry.relative_path(), "pt-br/sakuramangas");
}

#[test]
fn relative_path_preserves_two_component() {
    let entry = make_entry("pt-br/sakuramangas");
    assert_eq!(entry.relative_path(), "pt-br/sakuramangas");
}

#[test]
fn relative_path_single_component() {
    let entry = make_entry("index.js");
    assert_eq!(entry.relative_path(), "index.js");
}

#[test]
fn relative_path_deep_prefix() {
    let entry = make_entry("some/deep/prefix/en/test_ext");
    assert_eq!(entry.relative_path(), "en/test_ext", "should always take only the last 2 segments");
}

#[test]
fn relative_path_is_stable() {
    for p in ["builds/pt-br/sakuramangas", "a/b", "x", "", "a/b/c/d"] {
        let once = make_entry(p).relative_path();
        assert_eq!(make_entry(&once).relative_path(), once);
    }
}

#[test]
fn builders_set_one_field() {
    let c = Chapter::new("c1", "1", "Name").with_title("T").with_date("2024").with_scanlator("S");
    assert_eq!(c.title.as_deref(), Some("T"));
    assert_eq!(c.date.as_deref(), Some("2024"));
    assert_eq!(c.scanlator.as_deref(), Some("S"));
    let m = Manga::new("m1", "Bleach", "src").with_cover("c.jpg");
    assert_eq!(m.cover.as_deref(), Some("c.jpg"));
    assert_eq!(m.url, None);
    let d = MangaDetails::new("m1", "Bleach", "src").with_author("Kubo").with_tags(vec!["action".into()]);
    assert_eq!(d.author.as_deref(), Some("Kubo"));
    assert_eq!(d.tags, vec!["action".to_string()]);
    let p = Pages::new("ch-42", "42", "Test Manga", vec!["https://cdn.com/p1.jpg".into()])
        .with_headers(vec![("Referer".into(), "https://site.com".into())]);
    assert_eq!(p.total_pages(), 1);
    assert!(!p.use_browser);
    assert_eq!(p.headers.as_ref().map(|h| h.len()), Some(1));
}

#[test]
fn completed_progress_covers_every_page() {
    let p = DownloadProgress::completed_with_path("M", "1", 12, "/out/M/1.cbz");
    assert_eq!(p.current_page, 12);
    assert_eq!(p.total_pages, 12);
    assert_eq!(p.status, DownloadStatus::Completed);
    assert_eq!(p.save_path.as_deref(), Some("/out/M/1.cbz"));
}

#[test]
fn script_entities_convert() {
    let m = JsManga::new("id1".into(), "Name".into(), Some("c.jpg".into()));
    assert_eq!(m.source, "");
    let manga = m.into_manga("ext.id");
    assert_eq!(manga.source, "ext.id");
    assert_eq!(manga.cover.as_deref(), Some("c.jpg"));
    let c = JsChapter::new("c".into(), "2".into(), "n".into(), None, Some("d".into()), None).into_chapter();
    assert_eq!(c.date.as_deref(), Some("d"));
    let p = JsPages::new("c".into(), "2".into(), "n".into(), vec!["u".into()], None, None);
    assert!(!p.use_browser);
    let p = JsPages::new("c".into(), "2".into(), "n".into(), vec!["u".into()], None, Some(true)).into_pages();
    assert!(p.use_browser);
    assert_eq!(p.scanlator, None);
    assert_eq!(details_not_implemented().message(), "extension error: getDetails not implemented for this extension");
    assert_eq!(deserialize_error("getManga", "oops").message(), "extension error: getManga: failed to deserialize: oops");
}

#[test]
fn details_builders_set_one_field_each() {
    let base = MangaDetails::new("m1", "Bleach", "src");
    let d = base
        .clone()
        .with_synopsis("Soul reapers")
        .with_artist("Kubo")
        .with_alt_titles(vec!["ブリーチ".to_string()])
        .with_status("completed");
    assert_eq!(d.synopsis.as_deref(), Some("Soul reapers"));
    assert_eq!(d.artist.as_deref(), Some("Kubo"));
    assert_eq!(d.alt_titles, vec!["ブリーチ".to_string()]);
    assert_eq!(d.status.as_deref(), Some("completed"));
    assert_eq!(d.author, None);
    assert_eq!(d.cover, None);
    assert!(d.tags.is_empty());
    assert_eq!((d.id.as_str(), d.name.as_str(), d.source.as_str()), ("m1", "Bleach", "src"));
    assert_eq!(base.synopsis, None);
}
