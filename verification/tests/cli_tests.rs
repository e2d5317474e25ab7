use rune_kit::cli::{
    host_env_params, is_installed_skill, kind_for_extension, kind_label, overlay_params, parse_key_val,
    parse_uninstall_name, pending_updates, release_standing, search_registry, ReleaseStanding,
};
use rune_kit::manifest::{
    ExecutionKind, InstalledSkill, PluginUpdateStatus, RegistryPluginSummary, RegistrySkillSummary, SkillLockfile,
};

fn pairs(p: &[(&str, &str)]) -> Vec<(String, String)> {
    p.iter().map(|(k, v)| (k.to_string(), v.to_string())).collect()
}

fn value_of(v: &[(String, String)], k: &str) -> Option<String> {
    v.iter().find(|(key, _)| key == k).map(|(_, val)| val.clone())
}

#[test]
fn key_value_arguments_split_at_the_first_equals() {
    assert_eq!(parse_key_val("allowed_dir=/workspace").unwrap(), ("allowed_dir".to_string(), "/workspace".to_string()));
    assert_eq!(parse_key_val("a=b=c").unwrap(), ("a".to_string(), "b=c".to_string()));
    assert_eq!(parse_key_val("k=").unwrap(), ("k".to_string(), String::new()));
    assert_eq!(parse_key_val("novalue").unwrap_err(), "Invalid KEY=VALUE pair: novalue");
    assert_eq!(parse_uninstall_name("tool").unwrap(), "tool");
}

#[test]
fn environment_keys_are_lowercased_and_overridden() {
    let env = host_env_params(&pairs(&[("HOME", "/h"), ("Path", "/bin"), ("home", "/other")]));
    assert_eq!(value_of(&env, "home").as_deref(), Some("/other"));
    assert_eq!(value_of(&env, "path").as_deref(), Some("/bin"));
    assert_eq!(value_of(&env, "HOME"), None);
    let merged = overlay_params(env, &pairs(&[("home", "/cli"), ("allowed_dir", "/w")]));
    assert_eq!(value_of(&merged, "home").as_deref(), Some("/cli"));
    assert_eq!(value_of(&merged, "allowed_dir").as_deref(), Some("/w"));
    assert_eq!(value_of(&merged, "path").as_deref(), Some("/bin"));
}

#[test]
fn labels_describe_what_was_installed() {
    let native = Some("plugins/x".to_string());
    assert_eq!(kind_label(&native, ExecutionKind::Native), "native");
    assert_eq!(kind_label(&native, ExecutionKind::Wasm), "wasm+native");
    assert_eq!(kind_label(&None, ExecutionKind::Native), "native");
    assert_eq!(kind_label(&None, ExecutionKind::Wasm), "wasm");
    assert_eq!(kind_for_extension(Some("wasm")), ExecutionKind::Wasm);
    assert_eq!(kind_for_extension(Some("exe")), ExecutionKind::Native);
    assert_eq!(kind_for_extension(None), ExecutionKind::Native);
}

#[test]
fn release_standing_compares_versions() {
    assert_eq!(release_standing("0.2.0", "0.1.9"), ReleaseStanding::Newer);
    assert_eq!(release_standing("0.1.9", "0.1.9"), ReleaseStanding::Same);
    assert_eq!(release_standing("0.1.0", "0.1.9"), ReleaseStanding::Older);
}

fn status(name: &str, update: bool) -> PluginUpdateStatus {
    PluginUpdateStatus {
        name: name.to_string(),
        installed_version: "1".to_string(),
        latest_version: "2".to_string(),
        has_update: update,
        has_wasm: false,
        has_native: false,
    }
}

#[test]
fn pending_updates_keep_order() {
    let r = pending_updates(vec![status("a", true), status("b", false), status("c", true)]);
    let names: Vec<&str> = r.iter().map(|s| s.name.as_str()).collect();
    assert_eq!(names, vec!["a", "c"]);
    let lock = SkillLockfile {
        version: 1,
        skills: vec![(
            "Guide".to_string(),
            InstalledSkill {
                name: "Guide".to_string(),
                description: None,
                version: "1".to_string(),
                author: None,
                source: "registry".to_string(),
                files: Vec::new(),
            },
        )],
    };
    assert!(is_installed_skill(&lock, "guide"));
    assert!(!is_installed_skill(&lock, "tool"));
}

#[test]
fn search_matches_names_descriptions_and_tags() {
    let plugins = vec![
        RegistryPluginSummary {
            name: "Printer".to_string(),
            latest: "1.0.0".to_string(),
            description: None,
            has_wasm: true,
            has_native: false,
        },
        RegistryPluginSummary {
            name: "fs".to_string(),
            latest: "0.2.0".to_string(),
            description: Some("Files and ÄRCHIVES".to_string()),
            has_wasm: true,
            has_native: true,
        },
    ];
    let skills = vec![RegistrySkillSummary {
        name: "style".to_string(),
        latest: "0.1.0".to_string(),
        description: None,
        author: None,
        tags: vec!["Printing".to_string()],
    }];
    let r = search_registry(&plugins, &skills, "PRINT");
    assert_eq!(r.len(), 2);
    assert_eq!((r[0].ty.as_str(), r[0].name.as_str(), r[0].description.as_str()), ("plugin", "Printer", "-"));
    assert_eq!((r[1].ty.as_str(), r[1].name.as_str()), ("skill", "style"));
    let u = search_registry(&plugins, &skills, "ärch");
    assert_eq!(u.len(), 1);
    assert_eq!(u[0].name, "fs");
    assert_eq!(u[0].description, "Files and ÄRCHIVES");
    assert!(search_registry(&plugins, &skills, "zzz").is_empty());
}
