use rune_kit::json::JsonValue;
use rune_kit::manifest::{
    ExecutionKind, InstalledPlugin, InstalledSkill, Lockfile, RegistryPluginSummary,
    RegistrySkillSummary, SkillLockfile,
};
use rune_kit::package::PackageError;
use rune_kit::registry::{
    plugin_name_from_url, plugin_summaries, plugin_update_statuses, registry_artifacts,
    release_url, select_release_asset, skill_artifact, skill_name_from_url, skill_summaries,
    skill_update_statuses,
};

fn s(t: &str) -> JsonValue {
    JsonValue::Str(t.to_string())
}

fn obj(entries: Vec<(&str, JsonValue)>) -> JsonValue {
    JsonValue::Object(entries.into_iter().map(|(k, v)| (k.to_string(), v)).collect())
}

fn plugin(name: &str, version: &str) -> InstalledPlugin {
    InstalledPlugin {
        name: name.to_string(),
        description: None,
        version: version.to_string(),
        binary_path: format!("plugins/{}-{}.wasm", name, version),
        native_binary_path: None,
        execution_kind: ExecutionKind::Wasm,
        sha256: String::new(),
        source: "registry".to_string(),
        default_params: Vec::new(),
        manifest: None,
    }
}

fn summary(name: &str, latest: &str, wasm: bool, native: bool) -> RegistryPluginSummary {
    RegistryPluginSummary {
        name: name.to_string(),
        latest: latest.to_string(),
        description: None,
        has_wasm: wasm,
        has_native: native,
    }
}

#[test]
fn plugin_summaries_are_sorted_and_defaulted() {
    let index = obj(vec![
        (
            "zeta",
            obj(vec![
                ("latest", s("1.0.0")),
                ("description", s("Z tool")),
                (
                    "versions",
                    obj(vec![("1.0.0", obj(vec![("url", s("https://x/z.wasm")), ("native", obj(vec![]))]))]),
                ),
            ]),
        ),
        ("alpha", obj(vec![])),
        (
            "mid",
            obj(vec![
                ("latest", s("2.0.0")),
                ("versions", obj(vec![("2.0.0", obj(vec![("url", JsonValue::Null)]))])),
            ]),
        ),
    ]);
    let r = plugin_summaries(&index);
    assert_eq!(r.len(), 3);
    assert_eq!(r[0].name, "alpha");
    assert_eq!(r[0].latest, "0.1.0");
    assert_eq!(r[0].description, None);
    assert!(!r[0].has_wasm && !r[0].has_native);
    assert_eq!(r[1].name, "mid");
    assert!(!r[1].has_wasm && !r[1].has_native);
    assert_eq!(r[2].name, "zeta");
    assert_eq!(r[2].latest, "1.0.0");
    assert_eq!(r[2].description.as_deref(), Some("Z tool"));
    assert!(r[2].has_wasm && r[2].has_native);
}

#[test]
fn plugin_summaries_of_a_non_object_are_empty() {
    assert!(plugin_summaries(&JsonValue::Array(vec![])).is_empty());
    assert!(skill_summaries(&s("index")).is_empty());
}

#[test]
fn skill_summaries_keep_string_tags() {
    let index = obj(vec![(
        "guide",
        obj(vec![
            ("latest", s("0.3.0")),
            ("author", s("ana")),
            ("tags", JsonValue::Array(vec![s("docs"), JsonValue::Number("1".to_string()), s("howto")])),
        ]),
    )]);
    let r = skill_summaries(&index);
    assert_eq!(r.len(), 1);
    assert_eq!(r[0].name, "guide");
    assert_eq!(r[0].latest, "0.3.0");
    assert_eq!(r[0].author.as_deref(), Some("ana"));
    assert_eq!(r[0].tags, vec!["docs".to_string(), "howto".to_string()]);
}

#[test]
fn plugin_updates_follow_registry_and_filter() {
    let lockfile = Lockfile {
        version: 1,
        plugins: vec![
            ("beta".to_string(), plugin("beta", "1.0.0")),
            ("alpha".to_string(), plugin("alpha", "0.9.0")),
            ("gamma".to_string(), plugin("gamma", "1.0.0")),
        ],
    };
    let registry = vec![summary("alpha", "1.0.0", true, false), summary("beta", "v1.0.0", false, true)];
    let all = plugin_update_statuses(&lockfile, &registry, None);
    assert_eq!(all.len(), 2);
    assert_eq!(all[0].name, "alpha");
    assert_eq!(all[0].installed_version, "0.9.0");
    assert_eq!(all[0].latest_version, "1.0.0");
    assert!(all[0].has_update && all[0].has_wasm && !all[0].has_native);
    assert_eq!(all[1].name, "beta");
    assert!(!all[1].has_update && all[1].has_native);
    let only = vec!["BETA".to_string()];
    let some = plugin_update_statuses(&lockfile, &registry, Some(&only));
    assert_eq!(some.len(), 1);
    assert_eq!(some[0].name, "beta");
}

#[test]
fn skill_updates_report_no_builds() {
    let lockfile = SkillLockfile {
        version: 1,
        skills: vec![(
            "guide".to_string(),
            InstalledSkill {
                name: "guide".to_string(),
                description: None,
                version: "0.1.0".to_string(),
                author: None,
                source: "registry".to_string(),
                files: Vec::new(),
            },
        )],
    };
    let registry = vec![RegistrySkillSummary {
        name: "guide".to_string(),
        latest: "0.2.0".to_string(),
        description: None,
        author: None,
        tags: Vec::new(),
    }];
    let r = skill_update_statuses(&lockfile, &registry, None);
    assert_eq!(r.len(), 1);
    assert!(r[0].has_update && !r[0].has_wasm && !r[0].has_native);
    let other = vec!["nothing".to_string()];
    assert!(skill_update_statuses(&lockfile, &registry, Some(&other)).is_empty());
}

#[test]
fn release_url_adds_the_v_prefix() {
    assert_eq!(release_url(Some("0.1.4")), "https://api.github.com/repos/shba007/rune-kit/releases/tags/v0.1.4");
    assert_eq!(release_url(Some("v2.0.0")), "https://api.github.com/repos/shba007/rune-kit/releases/tags/v2.0.0");
    assert_eq!(release_url(None), "https://api.github.com/repos/shba007/rune-kit/releases/latest");
}

#[test]
fn release_asset_is_the_first_archive_for_the_triple() {
    let release = obj(vec![
        ("tag_name", s("v1.2.0")),
        (
            "assets",
            JsonValue::Array(vec![
                obj(vec![("name", s("rune-x86_64-unknown-linux-gnu.txt")), ("browser_download_url", s("u0"))]),
                obj(vec![("name", s("rune-aarch64-apple-darwin.tar.gz")), ("browser_download_url", s("u1"))]),
                obj(vec![("name", s("rune-x86_64-unknown-linux-gnu.zip")), ("browser_download_url", s("u2"))]),
                obj(vec![("name", s("rune-x86_64-unknown-linux-gnu.tar.gz")), ("browser_download_url", s("u3"))]),
            ]),
        ),
    ]);
    let (tag, url) = select_release_asset(&release, "x86_64-unknown-linux-gnu").unwrap();
    assert_eq!(tag, "v1.2.0");
    assert_eq!(url, "u2");
}

fn self_update_message(r: Result<(String, String), PackageError>) -> String {
    match r {
        Err(PackageError::SelfUpdate(m)) => m,
        other => panic!("unexpected {:?}", other),
    }
}

#[test]
fn release_asset_errors_name_what_is_missing() {
    assert_eq!(self_update_message(select_release_asset(&obj(vec![]), "t")), "Release missing tag_name");
    assert_eq!(
        self_update_message(select_release_asset(&obj(vec![("tag_name", s("v1"))]), "t")),
        "Release missing assets"
    );
    let no_fit = obj(vec![("tag_name", s("v1")), ("assets", JsonValue::Array(vec![obj(vec![("name", s("x.zip"))])]))]);
    assert_eq!(
        self_update_message(select_release_asset(&no_fit, "aarch64-apple-darwin")),
        "No compatible binary found for target 'aarch64-apple-darwin' in release 'v1'"
    );
    let no_url = obj(vec![("tag_name", s("v1")), ("assets", JsonValue::Array(vec![obj(vec![("name", s("t.zip"))])]))]);
    assert_eq!(self_update_message(select_release_asset(&no_url, "t")), "Asset missing download URL");
}

fn registry_index() -> JsonValue {
    obj(vec![
        (
            "tool",
            obj(vec![
                ("latest", s("1.1.0")),
                (
                    "versions",
                    obj(vec![
                        (
                            "1.1.0",
                            obj(vec![
                                ("url", s("https://dl/tool.wasm")),
                                ("native", obj(vec![("linux-x86_64", obj(vec![("url", s("https://dl/tool-linux.tar.gz"))]))])),
                            ]),
                        ),
                        ("1.0.0", obj(vec![("native", obj(vec![("macos", s("https://dl/tool-mac.zip"))]))])),
                        ("0.9.0", obj(vec![])),
                    ]),
                ),
            ]),
        ),
    ])
}

#[test]
fn registry_artifacts_pick_the_host_build() {
    let index = registry_index();
    let a = registry_artifacts(&index, "tool", None, "x86_64-unknown-linux-gnu", "linux", "x86_64").unwrap();
    assert_eq!(a.version, "1.1.0");
    assert_eq!(a.wasm_url.as_deref(), Some("https://dl/tool.wasm"));
    assert_eq!(a.native_url.as_deref(), Some("https://dl/tool-linux.tar.gz"));
    let b = registry_artifacts(&index, "tool", Some("1.0.0"), "aarch64-apple-darwin", "macos", "aarch64").unwrap();
    assert_eq!(b.wasm_url, None);
    assert_eq!(b.native_url.as_deref(), Some("https://dl/tool-mac.zip"));
}

#[test]
fn registry_artifacts_report_what_is_missing() {
    let index = registry_index();
    match registry_artifacts(&index, "nope", None, "t", "linux", "x86_64") {
        Err(PackageError::NotFound(m)) => assert_eq!(m, "nope"),
        other => panic!("unexpected {:?}", other),
    }
    match registry_artifacts(&index, "tool", Some("0.9.0"), "t", "linux", "x86_64") {
        Err(PackageError::NotFound(m)) => assert_eq!(m, "No artifacts found in registry for 'tool' (v0.9.0)"),
        other => panic!("unexpected {:?}", other),
    }
}

#[test]
fn skill_artifact_defaults_to_latest() {
    let index = obj(vec![(
        "guide",
        obj(vec![
            ("latest", s("0.2.0")),
            ("description", s("How to")),
            ("versions", obj(vec![("0.2.0", obj(vec![("url", s("https://dl/guide.zip"))]))])),
        ]),
    )]);
    let a = skill_artifact(&index, "guide", None).unwrap();
    assert_eq!(a.url, "https://dl/guide.zip");
    assert_eq!(a.version, "0.2.0");
    assert_eq!(a.description.as_deref(), Some("How to"));
    assert_eq!(a.author, None);
    match skill_artifact(&index, "guide", Some("9.9.9")) {
        Err(PackageError::NotFound(m)) => assert_eq!(m, "No artifact for skill 'guide' (v9.9.9)"),
        other => panic!("unexpected {:?}", other),
    }
    assert!(matches!(skill_artifact(&index, "other", None), Err(PackageError::NotFound(_))));
}

#[test]
fn names_from_download_addresses() {
    assert_eq!(plugin_name_from_url("https://host/dl/my-tool.wasm"), "my-tool");
    assert_eq!(plugin_name_from_url("https://host/dl/pkg.tar.gz"), "pkg");
    assert_eq!(plugin_name_from_url("bare.zip"), "bare");
    assert_eq!(skill_name_from_url("https://host/s/guide.zip"), "guide");
    assert_eq!(skill_name_from_url("https://host/s/notes.tar.gz"), "notes");
}
