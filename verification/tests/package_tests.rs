use rune_kit::manifest::{ExecutionKind, InstalledPlugin, InstalledSkill, Lockfile, PluginInfo, SkillFile, SkillLockfile};
use rune_kit::package::{
    archive_kind, archive_member_matches, artifact_checksum, check_identity, check_self_update, choose_unpacked_entry,
    classify_target, classify_unpacked_entry, current_target_triple, executable_stem_matches,
    hex_encode, installed_record, is_native_archive_or_binary, is_skill_target, join_path,
    local_plugin_name, local_skill_name, native_identity, needs_native_report, order_skill_files, plugin_rel_path,
    probed_identity, release_version, sanitize_path_component, sha256_hex, skill_source, skill_version,
    wasm_file_name, ArchiveKind, EntryVerdict, Identity, PackageError, PackageManager, SkillManager,
    SkillSource, TargetKind,
};

fn invalid(r: Result<(), PackageError>) -> String {
    match r {
        Err(PackageError::InvalidSpec(m)) => m,
        other => panic!("unexpected {:?}", other),
    }
}

#[test]
fn path_components_are_sanitized() {
    assert!(sanitize_path_component("my-tool", "plugin name").is_ok());
    assert!(sanitize_path_component("1.0.0", "plugin version").is_ok());
    assert_eq!(
        invalid(sanitize_path_component("../x", "plugin name")),
        "Invalid plugin name: '../x' must not contain path separators"
    );
    assert_eq!(
        invalid(sanitize_path_component("", "plugin version")),
        "Invalid plugin version: '' must not contain path separators"
    );
    assert!(sanitize_path_component("a\\b", "plugin name").is_err());
    assert!(sanitize_path_component("a..b", "plugin name").is_err());
}

#[test]
fn sha256_digests_are_lowercase_hex() {
    assert_eq!(sha256_hex(b"abc"), "ba7816bf8f01cfea414140de5dae2223b00361a396177a9cb410ff61f20015ad");
    assert_eq!(sha256_hex(b""), "e3b0c44298fc1c149afbf4c8996fb92427ae41e4649b934ca495991b7852b855");
    assert_eq!(hex_encode(&[0x00, 0xab, 0x0f, 0xff]), "00ab0fff");
    assert_eq!(hex_encode(&[]), "");
}

#[test]
fn checksum_prefers_the_wasm_module() {
    let wasm: &[u8] = b"abc";
    let native: &[u8] = b"";
    assert_eq!(artifact_checksum(Some(wasm), Some(native)), sha256_hex(b"abc"));
    assert_eq!(artifact_checksum(None, Some(native)), sha256_hex(b""));
    assert_eq!(artifact_checksum(None, None), "");
}

#[test]
fn archives_are_told_apart_by_magic() {
    assert_eq!(archive_kind(b"PK\x03\x04rest"), ArchiveKind::Zip);
    assert_eq!(archive_kind(b"\x1f\x8b\x08"), ArchiveKind::Gzip);
    assert_eq!(archive_kind(b"PK\x03"), ArchiveKind::Plain);
    assert_eq!(archive_kind(b""), ArchiveKind::Plain);
    assert!(archive_member_matches("rune", "rune"));
    assert!(archive_member_matches("dist/bin/rune", "rune"));
    assert!(!archive_member_matches("dist/brune", "rune"));
}

#[test]
fn install_targets_are_classified() {
    assert!(is_native_archive_or_binary("tool.zip", false, false));
    assert!(is_native_archive_or_binary("tool.tgz", false, false));
    assert!(!is_native_archive_or_binary("tool.exe", false, false));
    assert!(is_native_archive_or_binary("tool.exe", true, false));
    assert!(is_native_archive_or_binary("tool", false, true));
    assert!(!is_native_archive_or_binary("tool.wasm", false, true));
    assert_eq!(classify_target("./a.wasm", true, true, false), TargetKind::LocalWasm);
    assert_eq!(classify_target("./a.tar.gz", true, true, false), TargetKind::LocalNative);
    assert_eq!(classify_target("https://h/a.wasm", false, false, false), TargetKind::Remote(true));
    assert_eq!(classify_target("http://h/a.zip", false, false, false), TargetKind::Remote(false));
    assert_eq!(classify_target("a.wasm", false, false, false), TargetKind::Registry);
    assert_eq!(classify_target("my-tool", false, false, false), TargetKind::Registry);
}

#[test]
fn skill_targets_are_recognised() {
    assert!(is_skill_target("guide.md"));
    assert!(is_skill_target("notes.markdown"));
    assert!(is_skill_target("team__style"));
    assert!(is_skill_target("#docs"));
    assert!(!is_skill_target("my-tool"));
}

#[test]
fn local_names_come_from_the_stem() {
    assert_eq!(local_plugin_name("./x/tool.wasm", Some("tool"), true).unwrap(), "tool");
    assert_eq!(local_plugin_name("/", None, false).unwrap(), "plugin");
    match local_plugin_name("/", None, true) {
        Err(PackageError::InvalidSpec(m)) => assert_eq!(m, "Cannot derive a plugin name from path '/'"),
        other => panic!("unexpected {:?}", other),
    }
}

fn info(name: &str, version: &str, desc: Option<&str>) -> PluginInfo {
    PluginInfo { name: name.to_string(), version: version.to_string(), description: desc.map(|d| d.to_string()) }
}

#[test]
fn identity_merges_reports() {
    let none = probed_identity("tool", None, None);
    assert_eq!((none.name.as_str(), none.version.as_str(), none.description.clone()), ("tool", "0.1.0", None));
    let i = info("reported", "2.0.0", Some("desc"));
    let a = probed_identity("", None, Some(&i));
    assert_eq!((a.name.as_str(), a.version.as_str()), ("reported", "2.0.0"));
    assert_eq!(a.description.as_deref(), Some("desc"));
    let b = probed_identity("tool", Some("1.0.0"), Some(&i));
    assert_eq!((b.name.as_str(), b.version.as_str()), ("tool", "1.0.0"));
    assert!(!needs_native_report(&b));
    let plain = probed_identity("tool", None, None);
    assert!(needs_native_report(&plain));
    let n = native_identity(plain, None, Some(&info("x", "3.0.0", Some("native"))));
    assert_eq!((n.name.as_str(), n.version.as_str()), ("tool", "3.0.0"));
    assert_eq!(n.description.as_deref(), Some("native"));
    let kept = native_identity(b, None, Some(&info("x", "3.0.0", None)));
    assert_eq!(kept.version, "1.0.0");
}

#[test]
fn identities_with_separators_are_refused() {
    let id = Identity { name: "a/b".to_string(), version: "../1".to_string(), description: None };
    match check_identity(&id) {
        Err(PackageError::InvalidSpec(m)) => assert_eq!(m, "Invalid plugin name: 'a/b' must not contain path separators"),
        other => panic!("unexpected {:?}", other),
    }
    let id2 = Identity { name: "ok".to_string(), version: "../1".to_string(), description: None };
    match check_identity(&id2) {
        Err(PackageError::InvalidSpec(m)) => assert_eq!(m, "Invalid plugin version: '../1' must not contain path separators"),
        other => panic!("unexpected {:?}", other),
    }
}

#[test]
fn paths_are_joined_like_a_path_join() {
    assert_eq!(join_path("/data/rune-kit", "plugins/a.wasm"), "/data/rune-kit/plugins/a.wasm");
    assert_eq!(join_path("/data/", "x"), "/data/x");
    assert_eq!(join_path("", "x"), "x");
    assert_eq!(join_path("/data", "/abs/x"), "/abs/x");
    assert_eq!(wasm_file_name("tool", "1.2.3"), "tool-1.2.3.wasm");
    assert_eq!(plugin_rel_path("tool-1.2.3.wasm"), "plugins/tool-1.2.3.wasm");
}

fn id() -> Identity {
    Identity { name: "tool".to_string(), version: "1.0.0".to_string(), description: None }
}

#[test]
fn records_choose_the_execution_kind() {
    let wasm = Some("plugins/tool-1.0.0.wasm".to_string());
    let native = Some("plugins/tool".to_string());
    let a = installed_record(id(), wasm.clone(), native.clone(), false, "h".to_string(), "registry".to_string()).unwrap();
    assert_eq!(a.execution_kind, ExecutionKind::Wasm);
    assert_eq!(a.binary_path, "plugins/tool-1.0.0.wasm");
    assert_eq!(a.native_binary_path.as_deref(), Some("plugins/tool"));
    let b = installed_record(id(), wasm.clone(), native.clone(), true, "h".to_string(), "registry".to_string()).unwrap();
    assert_eq!(b.execution_kind, ExecutionKind::Native);
    assert_eq!(b.binary_path, "plugins/tool-1.0.0.wasm");
    let c = installed_record(id(), None, native, false, "h".to_string(), "src".to_string()).unwrap();
    assert_eq!(c.execution_kind, ExecutionKind::Native);
    assert_eq!(c.binary_path, "plugins/tool");
    match installed_record(id(), None, None, true, String::new(), String::new()) {
        Err(PackageError::InvalidSpec(m)) => assert_eq!(m, "Neither WASM nor Native binary was saved"),
        other => panic!("unexpected {:?}", other),
    }
}

fn installed(name: &str, native: Option<&str>) -> InstalledPlugin {
    InstalledPlugin {
        name: name.to_string(),
        description: None,
        version: "1.0.0".to_string(),
        binary_path: format!("plugins/{}-1.0.0.wasm", name),
        native_binary_path: native.map(|n| n.to_string()),
        execution_kind: ExecutionKind::Wasm,
        sha256: String::new(),
        source: "registry".to_string(),
        default_params: Vec::new(),
        manifest: None,
    }
}

#[test]
fn manager_paths_and_uninstall() {
    let pm = PackageManager::with_data_dir(Some("/data".to_string()));
    assert_eq!(pm.base_dir(), "/data/rune-kit");
    assert_eq!(pm.lockfile_path(), "/data/rune-kit/installed.json");
    assert_eq!(pm.plugins_dir(), "/data/rune-kit/plugins");
    let fallback = PackageManager::with_data_dir(None);
    assert_eq!(fallback.base_dir(), "./rune-kit");
    let mut lock = Lockfile {
        version: 1,
        plugins: vec![
            ("a".to_string(), installed("a", Some("plugins/a"))),
            ("b".to_string(), installed("b", None)),
        ],
    };
    assert_eq!(pm.get_plugin_path(&lock, "b").as_deref(), Some("/data/rune-kit/plugins/b-1.0.0.wasm"));
    assert_eq!(pm.get_plugin_path(&lock, "c"), None);
    let files = pm.uninstall(&mut lock, "a").unwrap();
    assert_eq!(files, vec!["/data/rune-kit/plugins/a-1.0.0.wasm".to_string(), "/data/rune-kit/plugins/a".to_string()]);
    assert_eq!(lock.plugins.len(), 1);
    assert!(lock.get("a").is_none());
    assert!(pm.uninstall(&mut lock, "a").is_none());
}

#[test]
fn default_manager_lives_in_rune_kit() {
    let pm = PackageManager::new();
    assert!(pm.base_dir().ends_with("rune-kit"));
    assert!(pm.lockfile_path().ends_with("installed.json"));
    let sm = SkillManager::new();
    assert!(sm.lockfile_path().ends_with("installed_skills.json"));
}

#[test]
fn skill_manager_paths_and_uninstall() {
    let sm = SkillManager::with_data_dir(Some("/d".to_string()));
    assert_eq!(sm.lockfile_path(), "/d/rune-kit/installed_skills.json");
    assert_eq!(sm.skill_dir("guide"), "/d/rune-kit/skills/guide");
    let mut lock = SkillLockfile {
        version: 1,
        skills: vec![(
            "guide".to_string(),
            InstalledSkill {
                name: "guide".to_string(),
                description: None,
                version: "0.1.0".to_string(),
                author: None,
                source: "registry".to_string(),
                files: Vec::new(),
            },
        )],
    };
    assert_eq!(sm.uninstall_skill(&mut lock, "guide").as_deref(), Some("/d/rune-kit/skills/guide"));
    assert!(lock.skills.is_empty());
    assert_eq!(sm.uninstall_skill(&mut lock, "guide"), None);
}

#[test]
fn skill_files_are_ordered_by_path() {
    let files = vec![
        SkillFile { path: "b.md".to_string(), sha256: None },
        SkillFile { path: "a/z.md".to_string(), sha256: Some("1".to_string()) },
        SkillFile { path: "a.md".to_string(), sha256: None },
    ];
    let r = order_skill_files(files);
    let paths: Vec<&str> = r.iter().map(|f| f.path.as_str()).collect();
    assert_eq!(paths, vec!["a.md", "a/z.md", "b.md"]);
    assert_eq!(skill_version(Some("1.0.0"), Some("2.0.0")), "1.0.0");
    assert_eq!(skill_version(None, Some("2.0.0")), "2.0.0");
    assert_eq!(skill_version(None, None), "0.1.0");
}

#[test]
fn self_update_is_refused_only_for_the_running_version() {
    assert_eq!(release_version("v0.1.4"), "0.1.4");
    assert_eq!(release_version("0.1.4"), "0.1.4");
    match check_self_update("v0.1.4", "0.1.4", false) {
        Err(PackageError::SelfUpdate(m)) => {
            assert_eq!(m, "Already on the latest version (v0.1.4). Use --force to overwrite.")
        }
        other => panic!("unexpected {:?}", other),
    }
    assert!(check_self_update("v0.1.4", "0.1.4", true).is_ok());
    assert!(check_self_update("v0.1.5", "0.1.4", false).is_ok());
    assert!(check_self_update("v0.1.3", "0.1.4", false).is_ok());
}

#[test]
fn target_triples_cover_the_release_hosts() {
    assert_eq!(current_target_triple("linux", "x86_64"), "x86_64-unknown-linux-gnu");
    assert_eq!(current_target_triple("macos", "aarch64"), "aarch64-apple-darwin");
    assert_eq!(current_target_triple("windows", "x86_64"), "x86_64-pc-windows-msvc");
    assert_eq!(current_target_triple("freebsd", "x86_64"), "unknown");
}

#[test]
fn unpacked_executables_are_found_by_stem() {
    assert!(executable_stem_matches("My-Tool", "my-tool"));
    assert!(executable_stem_matches("my-tool-native", "my-tool"));
    assert!(executable_stem_matches("my_tool", "my-tool"));
    assert!(executable_stem_matches("MY_TOOL_NATIVE", "my-tool"));
    assert!(!executable_stem_matches("other", "my-tool"));
    assert_eq!(classify_unpacked_entry(true, false, "my-tool", "my-tool", None, "my-tool", false), EntryVerdict::Take);
    assert_eq!(classify_unpacked_entry(true, false, "README.md", "README", Some("md"), "t", false), EntryVerdict::Skip);
    assert_eq!(classify_unpacked_entry(true, false, "server", "server", None, "t", false), EntryVerdict::Candidate);
    assert_eq!(classify_unpacked_entry(true, false, "server.EXE", "server", Some("EXE"), "t", true), EntryVerdict::Candidate);
    assert_eq!(classify_unpacked_entry(true, false, "server", "server", None, "t", true), EntryVerdict::Skip);
    assert_eq!(classify_unpacked_entry(false, true, "bin", "bin", None, "t", false), EntryVerdict::Descend);
    assert_eq!(classify_unpacked_entry(false, false, "x", "x", None, "t", false), EntryVerdict::Skip);
}

#[test]
fn package_errors_read_as_messages() {
    assert_eq!(PackageError::NotFound("x".to_string()).message(), "Plugin 'x' not found in registry");
    assert_eq!(PackageError::Io("disk".to_string()).message(), "IO error: disk");
    assert_eq!(PackageError::SelfUpdate("m".to_string()).message(), "Self-update error: m");
    assert_eq!(PackageError::InvalidSpec("m".to_string()).message(), "Invalid package specification: m");
    assert_eq!(PackageError::Network("n".to_string()).message(), "Network request failed: n");
    assert_eq!(PackageError::Runtime("r".to_string()).message(), "Runtime initialization probe failed: r");
}

#[test]
fn skill_targets_come_from_urls_files_or_the_registry() {
    assert_eq!(skill_source("https://example.com/s.zip", true), SkillSource::Url);
    assert_eq!(skill_source("http://example.com/s.md", false), SkillSource::Url);
    assert_eq!(skill_source("./notes.md", true), SkillSource::LocalFile);
    assert_eq!(skill_source("writer", false), SkillSource::Registry);
    assert_eq!(local_skill_name(Some("notes")), "notes");
    assert_eq!(local_skill_name(None), "skill");
}

#[test]
fn unpacked_executable_is_chosen_in_order() {
    assert_eq!(choose_unpacked_entry(&[(EntryVerdict::Candidate, false), (EntryVerdict::Skip, false), (EntryVerdict::Take, false)], "tool").unwrap(), 2);
    assert_eq!(choose_unpacked_entry(&[(EntryVerdict::Descend, true), (EntryVerdict::Take, false)], "tool").unwrap(), 0);
    assert_eq!(choose_unpacked_entry(&[(EntryVerdict::Descend, false), (EntryVerdict::Take, false)], "tool").unwrap(), 1);
    assert_eq!(choose_unpacked_entry(&[(EntryVerdict::Skip, false), (EntryVerdict::Candidate, false), (EntryVerdict::Candidate, false)], "tool").unwrap(), 1);
    match choose_unpacked_entry(&[(EntryVerdict::Skip, false), (EntryVerdict::Descend, false)], "tool") {
        Err(PackageError::InvalidSpec(m)) => {
            assert_eq!(m, "No executable binary found in unpacked archive for 'tool'")
        }
        other => panic!("unexpected {:?}", other),
    }
}
