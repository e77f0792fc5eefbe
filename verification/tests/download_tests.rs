use hagitori::download::converted_page;
use hagitori::download::chapter_result;
use hagitori::download::{attempt_allowed, reuse_existing};
use hagitori::error::HagitoriError;
use hagitori::download::{
    backoff_delay_ms, browser_attempt_step, build_request_options, chapter_folder_name,
    chapter_outcome, effective_concurrency, empty_response_message, extract_extension,
    http_attempt_step, http_exhausted_message, needs_conversion, normalize_extension,
    page_progress, rate_limited_message, resolve_output_filename, retry_after_secs,
    sanitize_filename, to_image_format, AttemptStep, ChapterOutcome, DownloadEngineConfig,
    FetchOutcome, ImageKind,
};
use hagitori::download::{bad_status_message, classify_response, conversion_target, image_kind_of_bytes};
use hagitori::entities::DownloadStatus;

#[test]
fn sanitize_replaces_unsafe_characters() {
    assert_eq!(sanitize_filename("a/b\\c:d*e?f\"g<h>i|j"), "a_b_c_d_e_f_g_h_i_j");
    assert_eq!(sanitize_filename("  One Piece  "), "One Piece");
    assert_eq!(sanitize_filename(""), "");
}

#[test]
fn sanitize_is_idempotent() {
    for s in [" a/b ", "x:y", "  ", "Cap. 1 [Team/X]"] {
        let once = sanitize_filename(s);
        assert_eq!(sanitize_filename(&once), once);
        assert!(!once.contains('/') && !once.contains(':'));
    }
}

#[test]
fn chapter_folders() {
    assert_eq!(chapter_folder_name("12", Some("Scans/Team")), "Cap. 12 [Scans_Team]");
    assert_eq!(chapter_folder_name("12", Some("")), "Cap. 12");
    assert_eq!(chapter_folder_name("3.5", None), "Cap. 3.5");
}

#[test]
fn image_formats() {
    assert_eq!(normalize_extension("JPEG"), "jpg");
    assert_eq!(normalize_extension("png"), "png");
    assert_eq!(normalize_extension("WebP"), "webp");
    assert_eq!(normalize_extension("TIFF"), "tiff");
    assert_eq!(to_image_format("JPG"), Some(ImageKind::Jpeg));
    assert_eq!(to_image_format("avif"), Some(ImageKind::Avif));
    assert_eq!(to_image_format("gif"), None);
    assert!(needs_conversion(Some(ImageKind::Png), Some(ImageKind::Jpeg)));
    assert!(!needs_conversion(Some(ImageKind::Png), Some(ImageKind::Png)));
    assert!(!needs_conversion(None, Some(ImageKind::Png)));
    assert!(!needs_conversion(Some(ImageKind::Png), None));
}

#[test]
fn output_file_names() {
    assert_eq!(resolve_output_filename(1, "webp", "original"), ("0001.webp".to_string(), "webp".to_string()));
    assert_eq!(resolve_output_filename(42, "webp", "JPEG"), ("0042.jpg".to_string(), "jpg".to_string()));
    assert_eq!(resolve_output_filename(12345, "png", "png"), ("12345.png".to_string(), "png".to_string()));
}

#[test]
fn extensions_from_urls() {
    assert_eq!(extract_extension("https://cdn.com/a/b/001.PNG?x=1"), "png");
    assert_eq!(extract_extension("https://cdn.com/a/img.jpeg"), "jpg");
    assert_eq!(extract_extension("https://cdn.com/a/img.webp"), "webp");
    assert_eq!(extract_extension("https://cdn.com/a/img"), "jpg");
}

#[test]
fn retry_delays() {
    assert_eq!(backoff_delay_ms(1), 1000);
    assert_eq!(backoff_delay_ms(2), 2000);
    assert_eq!(backoff_delay_ms(4), 8000);
    assert_eq!(retry_after_secs(Some("7")), 7);
    assert_eq!(retry_after_secs(Some("soon")), 60);
    assert_eq!(retry_after_secs(None), 60);
}

#[test]
fn attempt_steps() {
    assert_eq!(http_attempt_step(&FetchOutcome::Bytes, 1, 3), AttemptStep::Save);
    assert_eq!(http_attempt_step(&FetchOutcome::EmptyBody, 1, 3), AttemptStep::Continue);
    assert_eq!(http_attempt_step(&FetchOutcome::RateLimited(Some("5".into())), 1, 3), AttemptStep::WaitSecs(5));
    assert_eq!(http_attempt_step(&FetchOutcome::BadStatus, 2, 3), AttemptStep::WaitMillis(2000));
    assert_eq!(http_attempt_step(&FetchOutcome::RequestFailed, 3, 3), AttemptStep::Continue);
    assert_eq!(browser_attempt_step(true, 3, 3), AttemptStep::Save);
    assert_eq!(browser_attempt_step(false, 1, 3), AttemptStep::WaitMillis(1000));
    assert_eq!(browser_attempt_step(false, 3, 3), AttemptStep::Continue);
}

#[test]
fn download_messages() {
    assert_eq!(http_exhausted_message(3, 5, "http://x/p.jpg"), "failed to download page 3 after 5 attempts: http://x/p.jpg");
    assert_eq!(rate_limited_message(2, "u"), "429 Too Many Requests for page 2: u");
    assert_eq!(empty_response_message(9, "u"), "empty response for page 9: u");
}

#[test]
fn progress_and_outcome() {
    let p = page_progress("M", "1", 2, 10, None);
    assert_eq!(p.status, DownloadStatus::Downloading);
    let p = page_progress("M", "1", 2, 10, Some("bad".into()));
    assert_eq!(p.status, DownloadStatus::Failed("bad".into()));
    match chapter_outcome("M", "1", true, 0, 5) {
        ChapterOutcome::Cancelled(m) => assert_eq!(m, "download cancelled by user"),
        other => panic!("unexpected {:?}", other),
    }
    match chapter_outcome("M", "1", false, 2, 5) {
        ChapterOutcome::PagesFailed(p, m) => {
            assert_eq!(p.current_page, 3);
            assert_eq!(p.status, DownloadStatus::Failed("2 page(s) failed".into()));
            assert_eq!(m, "2 of 5 pages failed to download");
        },
        other => panic!("unexpected {:?}", other),
    }
    match chapter_outcome("M", "1", false, 0, 5) {
        ChapterOutcome::Completed(p) => assert_eq!((p.current_page, p.total_pages), (5, 5)),
        other => panic!("unexpected {:?}", other),
    }
}

#[test]
fn engine_settings() {
    let c = DownloadEngineConfig::default();
    assert_eq!(c.max_retries, 3);
    assert_eq!(c.max_concurrent_pages, 3);
    assert_eq!(c.image_format, "original");
    assert_eq!(effective_concurrency(2), 2);
    assert_eq!(effective_concurrency(50), 5);
    let headers = vec![("Referer".to_string(), "https://site.com".to_string()), ("X".to_string(), "y".to_string())];
    let o = build_request_options(Some(&headers)).unwrap();
    assert_eq!(o.referer.as_deref(), Some("https://site.com"));
    assert_eq!(o.headers, Some(headers.clone()));
    assert!(build_request_options(None).is_none());
}

#[test]
fn image_bytes_decide_the_conversion() {
    let png = [0x89u8, b'P', b'N', b'G', b'\r', b'\n', 0x1a, b'\n', 0, 0, 0, 13];
    let jpeg = [0xffu8, 0xd8, 0xff, 0xe0, 0, 16];
    let webp = *b"RIFF\x10\0\0\0WEBPVP8 ";
    assert_eq!(image_kind_of_bytes(&png), Some(ImageKind::Png));
    assert_eq!(image_kind_of_bytes(&jpeg), Some(ImageKind::Jpeg));
    assert_eq!(image_kind_of_bytes(&webp), Some(ImageKind::WebP));
    assert_eq!(image_kind_of_bytes(b"GIF89a...."), Some(ImageKind::Other));
    assert_eq!(image_kind_of_bytes(b"plain text"), None);
    assert_eq!(conversion_target(&png, "jpg"), Some(ImageKind::Jpeg));
    assert_eq!(conversion_target(&png, "JPEG"), Some(ImageKind::Jpeg));
    assert_eq!(conversion_target(&png, "png"), None);
    assert_eq!(conversion_target(&jpeg, "webp"), Some(ImageKind::WebP));
    assert_eq!(conversion_target(&jpeg, "original"), None);
    assert_eq!(conversion_target(b"plain text", "png"), None);
    assert_eq!(conversion_target(b"GIF89a....", "png"), Some(ImageKind::Png));
}

#[test]
fn responses_classified_before_retrying() {
    assert!(matches!(classify_response(429, Some("5".into()), 0), FetchOutcome::RateLimited(Some(ref h)) if h == "5"));
    assert!(matches!(classify_response(429, None, 100), FetchOutcome::RateLimited(None)));
    assert!(matches!(classify_response(404, None, 100), FetchOutcome::BadStatus));
    assert!(matches!(classify_response(199, None, 100), FetchOutcome::BadStatus));
    assert!(matches!(classify_response(300, None, 100), FetchOutcome::BadStatus));
    assert!(matches!(classify_response(200, None, 0), FetchOutcome::EmptyBody));
    assert!(matches!(classify_response(204, None, 0), FetchOutcome::EmptyBody));
    assert!(matches!(classify_response(299, None, 7), FetchOutcome::Bytes));
    assert_eq!(
        bad_status_message(3, "404 Not Found", "https://cdn.example/3.jpg"),
        "page 3 returned status 404 Not Found: https://cdn.example/3.jpg"
    );
}

#[test]
fn existing_pages_and_cancellation_gate_attempts() {
    assert!(reuse_existing(Some(10)));
    assert!(!reuse_existing(Some(0)));
    assert!(!reuse_existing(None));
    assert!(attempt_allowed(false).is_ok());
    match attempt_allowed(true) {
        Err(HagitoriError::Download(m)) => assert_eq!(m, "download cancelled"),
        _ => panic!("expected a cancellation"),
    }
    assert_eq!(http_exhausted_message(4, 0, "u"), "failed to download page 4 after 0 attempts: u");
}

#[test]
fn chapter_result_over_page_results() {
    let (o, manga, folder) = chapter_result("One: Piece?", "12", Some("Scan"), false, &vec![true, true, true]);
    assert_eq!((manga.as_str(), folder.as_str()), ("One_ Piece_", "Cap. 12 [Scan]"));
    match o {
        ChapterOutcome::Completed(p) => assert_eq!((p.current_page, p.total_pages), (3, 3)),
        _ => panic!("expected completion"),
    }
    match chapter_result("M", "1", Some(""), false, &vec![true, false, false]).0 {
        ChapterOutcome::PagesFailed(p, m) => {
            assert_eq!((p.current_page, p.total_pages), (1, 3));
            assert_eq!(m, "2 of 3 pages failed to download");
        },
        _ => panic!("expected failed pages"),
    }
    let (o, _, folder) = chapter_result("M", "1", Some(""), true, &vec![true]);
    assert_eq!(folder, "Cap. 1");
    assert!(matches!(o, ChapterOutcome::Cancelled(m) if m == "download cancelled by user"));
    assert!(matches!(chapter_result("M", "1", None, false, &Vec::new()).0, ChapterOutcome::Completed(_)));
}

fn small_png() -> Vec<u8> {
    let img = image::RgbImage::from_pixel(2, 2, image::Rgb([200, 10, 10]));
    let mut out = std::io::Cursor::new(Vec::new());
    image::DynamicImage::ImageRgb8(img).write_to(&mut out, image::ImageFormat::Png).unwrap();
    out.into_inner()
}

#[test]
fn pages_converted_only_when_owed() {
    let png = small_png();
    assert!(matches!(converted_page(&png, "png", 1), Ok(None)));
    assert!(matches!(converted_page(&png, "original", 1), Ok(None)));
    match converted_page(&png, "jpg", 1) {
        Ok(Some(b)) => assert_eq!(&b[..3], &[0xff, 0xd8, 0xff]),
        other => panic!("expected a JPEG, got {:?}", other.map(|o| o.map(|b| b.len()))),
    }
    match converted_page(&png, "webp", 2) {
        Ok(Some(b)) => assert_eq!(image_kind_of_bytes(&b), Some(ImageKind::WebP)),
        _ => panic!("expected a WebP"),
    }
    let broken = [0x89u8, b'P', b'N', b'G', b'\r', b'\n', 0x1a, b'\n', 1, 2, 3];
    match converted_page(&broken, "jpg", 3) {
        Err(HagitoriError::Download(m)) => assert!(m.starts_with("failed to decode page 3 for conversion: ")),
        _ => panic!("expected a decode failure"),
    }
}

#[test]
fn retry_run_waits_then_saves() {
    let outcomes = vec![
        FetchOutcome::RequestFailed,
        FetchOutcome::BadStatus,
        FetchOutcome::RateLimited(Some("5".to_string())),
        FetchOutcome::RateLimited(None),
        FetchOutcome::EmptyBody,
        FetchOutcome::Bytes,
        FetchOutcome::Bytes,
    ];
    let max_retries: u32 = 8;
    let mut steps = Vec::new();
    for (i, outcome) in outcomes.iter().enumerate() {
        let step = http_attempt_step(outcome, i as u32 + 1, max_retries);
        steps.push(step);
        if step == AttemptStep::Save {
            break;
        }
    }
    assert_eq!(
        steps,
        vec![
            AttemptStep::WaitMillis(1000),
            AttemptStep::WaitMillis(2000),
            AttemptStep::WaitSecs(5),
            AttemptStep::WaitSecs(60),
            AttemptStep::Continue,
            AttemptStep::Save,
        ]
    );
}

#[test]
fn retry_run_spends_every_attempt_without_bytes() {
    let max_retries: u32 = 3;
    let steps: Vec<AttemptStep> =
        (1..=max_retries).map(|a| http_attempt_step(&FetchOutcome::RequestFailed, a, max_retries)).collect();
    assert_eq!(steps, vec![AttemptStep::WaitMillis(1000), AttemptStep::WaitMillis(2000), AttemptStep::Continue]);
    assert_eq!(
        http_exhausted_message(4, max_retries, "https://x/4.jpg"),
        "failed to download page 4 after 3 attempts: https://x/4.jpg"
    );
}

#[test]
fn page_checks_come_in_order() {
    assert!(reuse_existing(Some(12)));
    assert!(!reuse_existing(Some(0)));
    assert!(matches!(attempt_allowed(true), Err(HagitoriError::Download(m)) if m == "download cancelled"));
    assert_eq!(
        http_exhausted_message(1, 0, "https://x/1.png"),
        "failed to download page 1 after 0 attempts: https://x/1.png"
    );
}
