use hagitori::entities::ExtensionMeta;
use hagitori::extension::{build_script, prepare_extension, resolve_lang, switch_lang, CallGate, MAX_CONSECUTIVE_FAILURES};
use hagitori::loader::{check_script, icon_candidates, may_scan, missing_entry_point, scan_step, ScanStep};
use hagitori::manifest::{ExtensionManifest, HagitoriFields};

fn strings(items: &[&str]) -> Vec<String> {
    items.iter().map(|s| s.to_string()).collect()
}

fn manifest(lang: &str, languages: &[&str]) -> ExtensionManifest {
    ExtensionManifest {
        name: "hagitori.multi.reader".to_string(),
        version: 3,
        description: None,
        main: "index.js".to_string(),
        hagitori: HagitoriFields {
            api_version: 1,
            extension_type: "source".to_string(),
            lang: lang.to_string(),
            domains: strings(&["reader.com"]),
            capabilities: strings(&["browser"]),
            supports_details: true,
            languages: strings(languages),
            display_name: None,
            icon: Some("logo.png".to_string()),
        },
    }
}

#[test]
fn language_resolution() {
    assert_eq!(resolve_lang("multi", &strings(&["pt-br", "en"])), "en");
    assert_eq!(resolve_lang("multi", &strings(&["pt-br", "es"])), "pt-br");
    assert_eq!(resolve_lang("multi", &Vec::new()), "multi");
    assert_eq!(resolve_lang("es", &strings(&["en"])), "es");
}

#[test]
fn script_preamble_escapes_quotes() {
    assert_eq!(build_script("en", "a.b", "run();"), "var __lang__ = \"en\";\nvar __id__ = \"a.b\";\nrun();");
    assert_eq!(
        build_script("x\"y", "p\\q", ""),
        "var __lang__ = \"x\\\"y\";\nvar __id__ = \"p\\\\q\";\n"
    );
}

#[test]
fn extension_setup() {
    let (meta, script) = prepare_extension(&manifest("multi", &["es", "en"]), "go();", Some("data:icon".into()));
    assert_eq!(meta.id, "hagitori.multi.reader");
    assert_eq!(meta.name, "Reader");
    assert_eq!(meta.version, "0.1.2");
    assert_eq!(meta.icon.as_deref(), Some("data:icon"));
    assert!(meta.supports_details);
    assert!(script.starts_with("var __lang__ = \"en\";"));
    assert!(script.ends_with("go();"));
}

#[test]
fn language_switch() {
    let mut meta = ExtensionMeta::new("ext.id", "Ext", "en", "0.1.0", Vec::new());
    let script = switch_lang(&mut meta, "pt-br", "main();");
    assert_eq!(meta.lang, "pt-br");
    assert_eq!(script, "var __lang__ = \"pt-br\";\nvar __id__ = \"ext.id\";\nmain();");
}

#[test]
fn failure_gate_disables_after_limit() {
    let mut g = CallGate::new();
    for _ in 0..MAX_CONSECUTIVE_FAILURES {
        assert!(g.allows_call("ext").is_ok());
        g.record(false);
    }
    let err = g.allows_call("ext").unwrap_err();
    assert_eq!(err.message(), "extension error: extension 'ext' disabled after 5 consecutive failures");
    g.record(true);
    assert!(g.allows_call("ext").is_ok());
    g.record(false);
    g.reset();
    assert_eq!(g.consecutive_failures, 0);
}

#[test]
fn loader_decisions() {
    assert!(may_scan(0));
    assert!(may_scan(4));
    assert!(!may_scan(5));
    assert_eq!(scan_step(false, Some("x"), true), ScanStep::Skip);
    assert_eq!(scan_step(true, Some(".git"), true), ScanStep::Skip);
    assert_eq!(scan_step(true, Some("pt_br"), false), ScanStep::Descend);
    assert_eq!(scan_step(true, None, true), ScanStep::Load);
    assert_eq!(icon_candidates(&manifest("en", &[])), strings(&["logo.png", "icon.png"]));
    let mut m = manifest("en", &[]);
    m.hagitori.icon = None;
    assert_eq!(icon_candidates(&m), strings(&["icon.png"]));
    assert!(check_script("  \n\t ", "/x/index.js").is_err());
    assert_eq!(check_script(" ", "p.js").unwrap_err().message(), "extension error: script 'p.js' is empty");
    assert!(check_script("class Extension {}", "p.js").is_ok());
    assert_eq!(missing_entry_point("src/main.js", "/ext").message(), "extension error: entry point 'src/main.js' not found in /ext");
}
