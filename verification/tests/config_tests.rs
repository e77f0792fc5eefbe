use hagitori::config::{session_json, session_pairs};
use hagitori::error::HagitoriError;
use hagitori::config::{
    catalog_installation, corrupted_session_message, defaults, group_format, image_format,
    installed_extension_from_row, max_concurrent_pages, missing_defaults, pending_migrations,
    register_catalog, stored_download_dir, stored_string_list, DownloadRecord, LibraryEntry,
    SessionData,
};
use hagitori::config::{details_from_row, details_row_lists, string_list_json};
use hagitori::entities::MangaDetails;
use hagitori::entities::Manga;

#[test]
fn settings_defaults() {
    let d = defaults();
    assert_eq!(d.len(), 4);
    assert_eq!(d[2], ("group_format".to_string(), "cbz".to_string()));
    let missing = missing_defaults(&vec!["image_format".to_string(), "language".to_string()]);
    assert_eq!(missing, vec![("download_dir".to_string(), "".to_string()), ("group_format".to_string(), "cbz".to_string())]);
    assert_eq!(missing_defaults(&vec!["download_dir".into(), "image_format".into(), "group_format".into(), "language".into()]).len(), 0);
}

#[test]
fn typed_settings() {
    assert_eq!(stored_download_dir(Some("/d".into())), Some("/d".to_string()));
    assert_eq!(stored_download_dir(Some(String::new())), None);
    assert_eq!(group_format(None), "cbz");
    assert_eq!(group_format(Some("zip".into())), "zip");
    assert_eq!(image_format(None), "original");
    assert_eq!(max_concurrent_pages(None).unwrap(), 3);
    assert_eq!(max_concurrent_pages(Some("2")).unwrap(), 2);
    assert_eq!(max_concurrent_pages(Some("+9")).unwrap(), 5);
    let e = max_concurrent_pages(Some("abc")).unwrap_err();
    assert_eq!(e.message(), "config error: invalid max_concurrent_pages 'abc': invalid digit found in string");
}

#[test]
fn migrations_still_needed() {
    assert_eq!(pending_migrations(&vec![1, 2, 3], 1), vec![2, 3]);
    assert_eq!(pending_migrations(&vec![1], 1), Vec::<i64>::new());
    assert_eq!(pending_migrations(&vec![1, 2], 0), vec![1, 2]);
}

#[test]
fn register_catalog_record() {
    let e = catalog_installation("pt_br.sakura", "Sakura Mangás", 3, "pt-br", "owner/hagitori-extensions", "main", "pt-br/sakuramangas", "2024-01-01T00:00:00+00:00");
    assert_eq!(e.extension_id, "pt_br.sakura");
    assert!(e.auto_update);
    assert_eq!(e.source_repo.as_deref(), Some("owner/hagitori-extensions"));
    assert_eq!(e.updated_at.as_deref(), Some("2024-01-01T00:00:00+00:00"));
    let now = register_catalog("a", "A", 1, "en", "o/r", "main", "en/a");
    assert_eq!(now.updated_at.as_deref(), Some(now.installed_at.as_str()));
    assert!(!now.installed_at.is_empty());
}

#[test]
fn rows_to_installed_extensions() {
    let row = |v: i64, auto: Option<i32>| installed_extension_from_row("x".into(), "X".into(), v, "en".into(), None, None, None, "t".into(), None, auto);
    assert_eq!(row(7, None).unwrap().version_id, 7);
    assert!(row(7, None).unwrap().auto_update);
    assert!(!row(7, Some(0)).unwrap().auto_update);
    assert!(row(7, Some(2)).unwrap().auto_update);
    assert!(row(-1, None).is_none());
    assert!(row(5_000_000_000, None).is_none());
}

#[test]
fn history_records() {
    let c = DownloadRecord::completed("M", "1", "ext", "/out");
    assert_eq!(c.status, "completed");
    assert_eq!(c.download_path.as_deref(), Some("/out"));
    assert!(!c.downloaded_at.is_empty());
    let f = DownloadRecord::failed("M", "1", "ext");
    assert_eq!(f.status, "failed");
    assert_eq!(f.download_path, None);
}

#[test]
fn sessions_and_library() {
    let s = SessionData::default();
    assert!(s.cookies.is_empty() && s.headers.is_empty() && s.user_agent.is_none());
    assert_eq!(corrupted_session_message("cookies", "a.com", "eof"), "corrupted session cookies for 'a.com': eof");
    let e = LibraryEntry::new(Manga::new("m", "M", "s"), Vec::new(), None, 1_700_000_000);
    assert_eq!(e.updated_at, 1_700_000_000_000);
    assert_eq!(stored_string_list(Some("[\"a\",\"b\"]")), vec!["a", "b"]);
    assert_eq!(stored_string_list(Some("not json")), Vec::<String>::new());
    assert_eq!(stored_string_list(None), Vec::<String>::new());
}

#[test]
fn string_lists_read_back_as_written() {
    let list = vec!["One \"quoted\" title".to_string(), "ação".to_string(), String::new()];
    let json = string_list_json(&list);
    assert_eq!(json, "[\"One \\\"quoted\\\" title\",\"ação\",\"\"]");
    assert_eq!(stored_string_list(Some(&json)), list);
    assert_eq!(string_list_json(&Vec::new()), "[]");
}

#[test]
fn details_round_trip_through_a_row() {
    let details = MangaDetails {
        id: "m1".into(),
        name: "Name".into(),
        cover: Some("c.jpg".into()),
        source: "src".into(),
        synopsis: Some("About".into()),
        author: Some("A".into()),
        artist: None,
        alt_titles: vec!["Alt".into(), "Outro".into()],
        tags: vec!["action".into()],
        status: Some("ongoing".into()),
    };
    let (alt, tags) = details_row_lists(&details);
    assert_eq!(tags, "[\"action\"]");
    let back = details_from_row(
        "m1",
        details.name.clone(),
        details.cover.clone(),
        details.source.clone(),
        details.synopsis.clone(),
        details.author.clone(),
        details.artist.clone(),
        Some(&alt),
        Some(&tags),
        details.status.clone(),
    );
    assert_eq!(back, details);
    let bare = details_from_row("m2", "N".into(), None, "s".into(), None, None, None, None, Some("{}"), None);
    assert!(bare.alt_titles.is_empty());
    assert!(bare.tags.is_empty());
    assert_eq!(bare.id, "m2");
}

#[test]
fn session_maps_read_back_as_written() {
    let pairs = vec![("b".to_string(), "2".to_string()), ("a".to_string(), "1".to_string()), ("b".to_string(), "3".to_string())];
    let json = session_json(&pairs);
    let mut back = session_pairs(Some(&json), "cookies", "ex.com").unwrap();
    back.sort();
    assert_eq!(back, vec![("a".to_string(), "1".to_string()), ("b".to_string(), "3".to_string())]);
    assert!(session_pairs(None, "cookies", "ex.com").unwrap().is_empty());
    match session_pairs(Some("not json"), "headers", "ex.com") {
        Err(HagitoriError::Config(m)) => assert!(m.starts_with("corrupted session headers for 'ex.com': ")),
        _ => panic!("expected a corrupted session"),
    }
}
