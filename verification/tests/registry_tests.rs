use hagitori::catalog::InstalledExtension;
use hagitori::registry::{merge_installation, ExtensionRegistry};

fn setup() -> ExtensionRegistry {
    ExtensionRegistry::new()
}

#[test]
fn register_catalog_and_get() {
    let mut registry = setup();
    registry.register_catalog(
        "pt_br.sakura",
        "Sakura Mangás",
        2,
        "pt-br",
        "owner/hagitori-extensions",
        "main",
        "pt-br/sakuramangas",
    );
    let ext = registry.get("pt_br.sakura").unwrap();
    assert_eq!(ext.extension_id, "pt_br.sakura", "extension ID should match");
    assert!(ext.auto_update, "auto_update should be enabled by default");
    assert_eq!(ext.source_repo.as_deref(), Some("owner/hagitori-extensions"), "source repo should match");
}

#[test]
fn upsert_replaces() {
    let mut registry = setup();
    registry.register_catalog("test.ext", "V1", 1, "en", "o/r", "main", "en/ext");
    registry.register_catalog("test.ext", "V2", 2, "en", "o/r2", "main", "en/ext2");
    let ext = registry.get("test.ext").unwrap();
    assert_eq!(ext.version_id, 2, "version should be updated to 2");
    assert_eq!(ext.name, "V2", "name should be updated to V2");
    assert_eq!(ext.source_repo.as_deref(), Some("o/r2"), "repo should be updated");
}

#[test]
fn list_all() {
    let mut registry = setup();
    registry.register_catalog("a.ext", "A", 1, "en", "o/r", "main", "en/a");
    registry.register_catalog("b.ext", "B", 1, "pt-br", "o/r", "main", "pt-br/b");
    let all = registry.list_all();
    assert_eq!(all.len(), 2, "should list all registered extensions");
}

#[test]
fn remove() {
    let mut registry = setup();
    registry.register_catalog("x.ext", "X", 1, "en", "o/r", "main", "en/x");
    assert!(registry.remove("x.ext"), "removal should return true");
    assert!(registry.get("x.ext").is_none(), "removed extension should not exist");
    assert!(!registry.remove("x.ext"), "second removal should return false");
}

#[test]
fn set_auto_update() {
    let mut registry = setup();
    registry.register_catalog("z.ext", "Z", 1, "en", "o/r", "main", "en/z");
    let ext = registry.get("z.ext").unwrap();
    assert!(ext.auto_update, "auto_update should be true by default");
    registry.set_auto_update("z.ext", false);
    let ext = registry.get("z.ext").unwrap();
    assert!(!ext.auto_update, "auto_update should be false after disabling");
}

#[test]
fn get_nonexistent() {
    let registry = setup();
    assert!(registry.get("nonexistent").is_none(), "nonexistent extension should return None");
}

fn record(id: &str, name: &str, installed_at: &str, auto_update: bool) -> InstalledExtension {
    InstalledExtension {
        extension_id: id.to_string(),
        name: name.to_string(),
        version_id: 1,
        lang: "en".to_string(),
        source_repo: None,
        source_branch: None,
        source_path: None,
        installed_at: installed_at.to_string(),
        updated_at: Some(installed_at.to_string()),
        auto_update,
    }
}

#[test]
fn reinstall_keeps_install_time_and_choice() {
    let mut registry = setup();
    registry.upsert(&record("e", "Old", "t0", true));
    registry.set_auto_update("e", false);
    let mut newer = record("e", "New", "t1", true);
    newer.version_id = 4;
    registry.upsert(&newer);
    let e = registry.get("e").unwrap();
    assert_eq!(e.name, "New");
    assert_eq!(e.version_id, 4);
    assert_eq!(e.installed_at, "t0");
    assert_eq!(e.updated_at.as_deref(), Some("t1"));
    assert!(!e.auto_update);
    let once = merge_installation(Some(&record("e", "Old", "t0", false)), &newer);
    assert_eq!(merge_installation(Some(&once), &newer), once);
    assert_eq!(merge_installation(None, &newer), newer);
}

#[test]
fn listing_is_ordered_by_name() {
    let mut registry = setup();
    for (id, name) in [("c", "Zeta"), ("a", "alpha"), ("b", "Beta"), ("d", "Ämber")] {
        registry.upsert(&record(id, name, "t", true));
    }
    let names: Vec<String> = registry.list_all().into_iter().map(|e| e.name).collect();
    assert_eq!(names, vec!["Beta", "Zeta", "alpha", "Ämber"]);
    registry.remove("a");
    assert_eq!(registry.list_all().len(), 3);
    assert_eq!(registry.get("b").unwrap().name, "Beta");
}

#[test]
fn registering_again_keeps_one_record_and_install_time() {
    let mut r = setup();
    r.register_catalog("test.ext", "V1", 1, "en", "o/r", "main", "en/ext");
    let first = r.get("test.ext").unwrap();
    r.register_catalog("test.ext", "V2", 2, "en", "o/r2", "main", "en/ext2");
    let again = r.get("test.ext").unwrap();
    assert_eq!(r.list_all().len(), 1);
    assert_eq!(again.installed_at, first.installed_at);
    assert_eq!(again.auto_update, first.auto_update);
    assert_eq!((again.name.as_str(), again.version_id), ("V2", 2));
    r.register_catalog("other.ext", "O", 1, "en", "o/r", "main", "en/o");
    assert_eq!(r.list_all().len(), 2);
    assert!(r.remove("other.ext"));
    assert_eq!(r.list_all().len(), 1);
}
