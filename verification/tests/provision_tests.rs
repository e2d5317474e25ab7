use rune_kit::manifest::BinaryDependencySpec;
use rune_kit::package::{sha256_hex, EntryVerdict};
use rune_kit::provision::{
    binary_candidates, classify_provisioned_entry, download_url, is_allowed, lock_held_error, lock_state,
    target_version, verify_download, BinaryProvisioner, LockState, ProvisionError,
};

fn spec(url: Option<&str>, sha: Option<String>) -> BinaryDependencySpec {
    BinaryDependencySpec {
        version: ">=1.0".to_string(),
        optional: false,
        description: None,
        url: url.map(|u| u.to_string()),
        sha256: sha,
    }
}

#[test]
fn provision_errors_read_as_messages() {
    let e = ProvisionError::InProgress { name: "jq".to_string(), progress_percent: 45, eta_seconds: 30 };
    assert_eq!(e.message(), "jq is currently being provisioned (45% downloaded). Please retry in 30 seconds.");
    let c = ProvisionError::ChecksumMismatch { name: "jq".to_string(), expected: "aa".to_string(), actual: "bb".to_string() };
    assert_eq!(c.message(), "Checksum mismatch for binary 'jq': expected aa, actual bb");
    assert_eq!(
        ProvisionError::Unauthorized("rm".to_string()).message(),
        "Binary 'rm' is not in capabilities.exec.allowed_binaries allowlist"
    );
    assert_eq!(
        ProvisionError::NotFound("jq".to_string()).message(),
        "Binary 'jq' is not provisioned and no download source was found"
    );
    assert_eq!(ProvisionError::Extraction("bad".to_string()).message(), "Archive extraction failed: bad");
    assert_eq!(ProvisionError::LockError("busy".to_string()).message(), "Failed to acquire process lock: busy");
    assert_eq!(ProvisionError::Io("x".to_string()).message(), "IO error during binary provisioning: x");
    assert_eq!(ProvisionError::Network("y".to_string()).message(), "Network download error: y");
}

#[test]
fn provisioner_paths() {
    let p = BinaryProvisioner::with_data_dir(Some("/d".to_string()));
    assert_eq!(p.base_dir(), "/d/rune-kit/_bin");
    assert_eq!(p.binary_dir("jq"), "/d/rune-kit/_bin/jq");
    assert_eq!(p.lock_path("jq"), "/d/rune-kit/_bin/jq/.lock");
    assert_eq!(p.version_dir("jq", "1.7"), "/d/rune-kit/_bin/jq/1.7");
    let (a, b) = binary_candidates("/d/v", "jq");
    assert_eq!(a, "/d/v/jq");
    assert_eq!(b, "/d/v/jq.exe");
    assert!(BinaryProvisioner::new().base_dir().ends_with("_bin"));
}

#[test]
fn binaries_are_resolved_only_when_allowed() {
    let p = BinaryProvisioner::with_data_dir(Some("/d".to_string()));
    let allowed = vec!["jq".to_string(), "git".to_string()];
    assert!(is_allowed(&allowed, "git"));
    assert!(!is_allowed(&allowed, "rm"));
    assert!(matches!(p.resolve_binary("rm", &allowed, false, Some("/x".to_string())), Err(ProvisionError::Unauthorized(n)) if n == "rm"));
    match p.resolve_binary("jq", &allowed, true, None) {
        Err(ProvisionError::InProgress { name, progress_percent, eta_seconds }) => {
            assert_eq!((name.as_str(), progress_percent, eta_seconds), ("jq", 45, 30));
        }
        other => panic!("unexpected {:?}", other),
    }
    assert_eq!(p.resolve_binary("jq", &allowed, false, Some("/d/jq/1/jq".to_string())).unwrap(), "/d/jq/1/jq");
    assert!(matches!(p.resolve_binary("jq", &allowed, false, None), Err(ProvisionError::NotFound(n)) if n == "jq"));
    assert!(p.check_access("jq", &allowed, false).is_ok());
}

#[test]
fn declared_versions_pick_the_directory() {
    assert_eq!(target_version(""), "latest");
    assert_eq!(target_version(">= 1.2.3 "), "1.2.3");
    assert_eq!(target_version(">=>=2"), "2");
    assert_eq!(target_version("1.0"), "1.0");
}

#[test]
fn downloads_need_an_address_and_the_declared_digest() {
    assert_eq!(download_url("jq", &spec(Some("https://dl/jq"), None)).unwrap(), "https://dl/jq");
    match download_url("jq", &spec(None, None)) {
        Err(ProvisionError::NotFound(m)) => assert_eq!(m, "No download URL configured for required dependency 'jq'"),
        other => panic!("unexpected {:?}", other),
    }
    let digest = sha256_hex(b"abc").to_uppercase();
    assert!(verify_download("jq", &spec(None, Some(digest)), b"abc").is_ok());
    assert!(verify_download("jq", &spec(None, None), b"anything").is_ok());
    match verify_download("jq", &spec(None, Some("00".to_string())), b"abc") {
        Err(ProvisionError::ChecksumMismatch { name, expected, actual }) => {
            assert_eq!(name, "jq");
            assert_eq!(expected, "00");
            assert_eq!(actual, "ba7816bf8f01cfea414140de5dae2223b00361a396177a9cb410ff61f20015ad");
        }
        other => panic!("unexpected {:?}", other),
    }
}

#[test]
fn stale_locks_are_told_from_held_ones() {
    assert_eq!(lock_state(false, None), LockState::Free);
    assert_eq!(lock_state(true, Some(601)), LockState::Stale);
    assert_eq!(lock_state(true, Some(600)), LockState::Held);
    assert_eq!(lock_state(true, None), LockState::Held);
    match lock_held_error(None) {
        ProvisionError::InProgress { name, progress_percent, eta_seconds } => {
            assert_eq!((name.as_str(), progress_percent, eta_seconds), ("binary", 50, 30));
        }
        other => panic!("unexpected {:?}", other),
    }
    assert_eq!(classify_provisioned_entry(true, false, "JQ", "jq"), EntryVerdict::Take);
    assert_eq!(classify_provisioned_entry(true, false, "other", "jq"), EntryVerdict::Skip);
    assert_eq!(classify_provisioned_entry(false, true, "d", "jq"), EntryVerdict::Descend);
}
