use hagitori::error::HagitoriError;
use hagitori::manifest::{ExtensionManifest, HagitoriFields, CURRENT_API_VERSION};

fn strings(items: &[&str]) -> Vec<String> {
    items.iter().map(|s| s.to_string()).collect()
}

fn base_manifest() -> ExtensionManifest {
    ExtensionManifest {
        name: "hagitori.pt-br.testsite".to_string(),
        version: 1,
        description: None,
        main: "index.js".to_string(),
        hagitori: HagitoriFields {
            api_version: 1,
            extension_type: "source".to_string(),
            lang: "pt-br".to_string(),
            domains: strings(&["testsite.com"]),
            capabilities: Vec::new(),
            supports_details: false,
            languages: Vec::new(),
            display_name: None,
            icon: None,
        },
    }
}

fn accepted(m: ExtensionManifest) -> ExtensionManifest {
    m.checked().unwrap()
}

#[test]
fn manifest_parses_package_json() {
    let mut m = base_manifest();
    m.hagitori.capabilities = strings(&["browser"]);
    let manifest = accepted(m);
    assert_eq!(manifest.id(), "hagitori.pt-br.testsite");
    assert_eq!(manifest.name, "hagitori.pt-br.testsite");
    assert_eq!(manifest.version, 1);
    assert_eq!(manifest.version_string(), "0.1.0");
    assert_eq!(manifest.hagitori.lang, "pt-br");
    assert_eq!(manifest.hagitori.domains, vec!["testsite.com"]);
    assert!(manifest.requires_browser());
    assert!(!manifest.requires_crypto());
}

#[test]
fn manifest_parses_multiple_domains_and_languages() {
    let mut m = base_manifest();
    m.name = "hagitori.multi.reader".to_string();
    m.hagitori.lang = "multi".to_string();
    m.hagitori.domains = strings(&["reader.com", "api.reader.com"]);
    m.hagitori.capabilities = strings(&["browser", "crypto"]);
    m.hagitori.languages = strings(&["en", "pt-br", "es"]);
    let manifest = accepted(m);
    assert_eq!(manifest.hagitori.domains, vec!["reader.com", "api.reader.com"]);
    assert_eq!(manifest.hagitori.languages, vec!["en", "pt-br", "es"]);
    assert!(manifest.requires_browser());
    assert!(manifest.requires_crypto());
}

#[test]
fn manifest_converts_to_extension_meta() {
    let mut m = base_manifest();
    m.name = "hagitori.en.test".to_string();
    m.version = 2;
    m.hagitori.lang = "en".to_string();
    m.hagitori.domains = strings(&["test.com"]);
    m.hagitori.capabilities = strings(&["crypto"]);
    let manifest = accepted(m);
    assert_eq!(manifest.version_string(), "0.1.1");
    let meta = manifest.to_extension_meta();
    assert_eq!(meta.id, "hagitori.en.test");
    assert!(meta.requires_crypto());
    assert_eq!(meta.name, "Test");
    assert_eq!(meta.version, "0.1.1");
    assert_eq!(meta.domains, strings(&["test.com"]));
    assert!(!meta.supports_details);
    assert!(meta.icon.is_none());
}

#[test]
fn manifest_validation_rejects_invalid_inputs() {
    let mut empty_name = base_manifest();
    empty_name.name = String::new();
    let mut empty_domains = base_manifest();
    empty_domains.name = "hagitori.en.test".to_string();
    empty_domains.hagitori.domains = Vec::new();
    let mut empty_main = base_manifest();
    empty_main.main = String::new();
    let mut version_zero = base_manifest();
    version_zero.version = 0;
    for m in [empty_name, empty_domains, empty_main, version_zero] {
        assert!(m.clone().checked().is_err(), "should reject: {:?}", m);
    }
}

#[test]
fn manifest_version_generates_correct_semver() {
    let build = |vid: u32| {
        let mut m = base_manifest();
        m.name = "hagitori.en.test".to_string();
        m.version = vid;
        accepted(m)
    };
    assert_eq!(build(1).version_string(), "0.1.0");
    assert_eq!(build(2).version_string(), "0.1.1");
    assert_eq!(build(5).version_string(), "0.1.4");
    assert_eq!(build(10).version_string(), "0.1.9");
}

fn message_of(r: Result<(), HagitoriError>) -> String {
    r.unwrap_err().message()
}

#[test]
fn manifest_reports_first_missing_field() {
    let mut m = base_manifest();
    m.name = String::new();
    m.main = String::new();
    assert_eq!(message_of(m.validate()), "extension error: package.json: 'name' is required");
    let mut m = base_manifest();
    m.hagitori.lang = String::new();
    assert_eq!(message_of(m.validate()), "extension error: package.json: 'hagitori.lang' is required");
    let mut m = base_manifest();
    m.hagitori.extension_type = String::new();
    assert_eq!(message_of(m.validate()), "extension error: package.json: 'hagitori.type' is required");
    assert!(base_manifest().validate().is_ok());
}

#[test]
fn manifest_api_versions() {
    let mut m = base_manifest();
    m.hagitori.api_version = CURRENT_API_VERSION + 1;
    assert_eq!(
        message_of(m.validate_api_version()),
        "extension error: extension 'hagitori.pt-br.testsite' requires API v2, but runtime supports up to v1. update Hagitori."
    );
    m.hagitori.api_version = 0;
    assert_eq!(
        message_of(m.validate_api_version()),
        "extension error: extension 'hagitori.pt-br.testsite': apiVersion must be >= 1"
    );
    assert!(m.checked().is_err());
}

#[test]
fn manifest_display_names() {
    let m = base_manifest();
    assert_eq!(m.display_name(), "Testsite");
    let mut m = base_manifest();
    m.hagitori.display_name = Some("Test Site".to_string());
    assert_eq!(m.display_name(), "Test Site");
    m.hagitori.display_name = Some(String::new());
    assert_eq!(m.display_name(), "Testsite");
    m.name = "plain".to_string();
    assert_eq!(m.display_name(), "Plain");
    m.name = "hagitori.en.".to_string();
    assert_eq!(m.display_name(), "");
    m.name = "a.b.ñandu".to_string();
    assert_eq!(m.display_name(), "Ñandu");
    assert_eq!(m.entry_point(), "index.js");
}

#[test]
fn manifest_version_zero_text() {
    let mut m = base_manifest();
    m.version = 0;
    assert_eq!(m.version_string(), "0.1.0");
}
