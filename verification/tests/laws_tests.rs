use rune_kit::manifest::{ExecutionKind, InstalledPlugin, Lockfile};
use rune_kit::protocol::{namespace_resource_uri, parse_resource_uri};
use rune_kit::version::is_newer_version;

fn plugin(name: &str) -> InstalledPlugin {
    InstalledPlugin {
        name: name.to_string(),
        description: None,
        version: "1.0.0".to_string(),
        binary_path: format!("plugins/{}.wasm", name),
        native_binary_path: None,
        execution_kind: ExecutionKind::Wasm,
        sha256: String::new(),
        source: "registry".to_string(),
        default_params: Vec::new(),
        manifest: None,
    }
}

#[test]
fn version_order_is_strict() {
    assert!(is_newer_version("1.2.3", "1.2.2"));
    assert!(!is_newer_version("1.2.2", "1.2.3"));
    assert!(!is_newer_version("1.2.3", "1.2.3"));
    assert!(!is_newer_version("v1.2.3", " 1.2.3 "));
    assert!(is_newer_version("2.0", "1.9.9"));
    assert!(is_newer_version("1.10.0", "1.9.0"));
    assert!(is_newer_version("1.9.0", "1.8.5"));
    assert!(is_newer_version("1.10.0", "1.8.5"));
}

#[test]
fn prerelease_suffix_names_the_same_release() {
    assert!(!is_newer_version("1.2.3-beta", "1.2.3"));
    assert!(!is_newer_version("1.2.3", "1.2.3-rc.1"));
    assert!(is_newer_version("1.2.4-rc.1", "1.2.3"));
}

#[test]
fn lockfile_record_cycle_keeps_other_records() {
    let mut lock = Lockfile::new();
    lock.insert("a".to_string(), plugin("a"));
    lock.insert("b".to_string(), plugin("b"));
    assert_eq!(lock.get("b").map(|p| p.binary_path.as_str()), Some("plugins/b.wasm"));
    let removed = lock.remove("b").unwrap();
    assert_eq!(removed.name, "b");
    assert!(lock.get("b").is_none());
    assert_eq!(lock.get("a").map(|p| p.name.as_str()), Some("a"));
    let mut replaced = plugin("a");
    replaced.version = "2.0.0".to_string();
    lock.insert("a".to_string(), replaced);
    assert_eq!(lock.plugins.len(), 1);
    assert_eq!(lock.get("a").map(|p| p.version.as_str()), Some("2.0.0"));
}

#[test]
fn resource_uri_round_trips_for_any_local_part() {
    for local in ["", "a", "x/y/z", "rune://nested"] {
        let uri = namespace_resource_uri("ns", local);
        assert_eq!(parse_resource_uri(&uri), Some(("ns", local)));
    }
}
