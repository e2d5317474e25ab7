use rune_kit::json::JsonValue;
use rune_kit::manifest::{FilesystemCapability, PluginManifest};
use rune_kit::provision::ProvisionError;
use rune_kit::runtime::{
    accept_reply, binary_path_reply, command_gate, get_param, missing_sidecar_message, optional_reply, program_candidates,
    reply_body_exec, reply_line, reply_listing_exec, requested_binary, sandbox_policy, sidecar_call_outcome,
    sidecar_candidates, sidecar_info, sidecar_request, split_list, CallOutcome, RuntimeError,
};

fn s(t: &str) -> JsonValue {
    JsonValue::Str(t.to_string())
}

fn obj(entries: Vec<(&str, JsonValue)>) -> JsonValue {
    JsonValue::Object(entries.into_iter().map(|(k, v)| (k.to_string(), v)).collect())
}

fn params(p: &[(&str, &str)]) -> Vec<(String, String)> {
    p.iter().map(|(k, v)| (k.to_string(), v.to_string())).collect()
}

#[test]
fn parameters_are_found_exactly_then_ignoring_case() {
    let p = params(&[("ALLOWED_DIR", "/a"), ("allowed_dir", "/b"), ("Printer_IP", "10.0.0.2")]);
    assert_eq!(get_param(&p, "allowed_dir").as_deref(), Some("/b"));
    assert_eq!(get_param(&p, "printer_ip").as_deref(), Some("10.0.0.2"));
    assert_eq!(get_param(&p, "missing"), None);
}

#[test]
fn comma_lists_drop_blank_items() {
    assert_eq!(split_list(" a, ,b ,"), vec!["a".to_string(), "b".to_string()]);
    assert!(split_list("").is_empty());
    assert_eq!(split_list("one"), vec!["one".to_string()]);
}

#[test]
fn sandbox_allows_any_host_when_none_is_named() {
    let m = PluginManifest::empty();
    let pol = sandbox_policy(&m, &params(&[]));
    assert_eq!(pol.allowed_hosts, vec!["*".to_string()]);
    assert_eq!(pol.allowed_dir, ".");
    let pol2 = sandbox_policy(&m, &params(&[("printer_ip", "10.0.0.9"), ("allowed_dir", "/work")]));
    assert_eq!(pol2.allowed_hosts, vec!["*".to_string(), "10.0.0.9".to_string()]);
    assert_eq!(pol2.allowed_dir, "/work");
}

#[test]
fn sandbox_combines_manifest_and_parameters() {
    let mut m = PluginManifest::empty();
    m.capabilities.network_hosts = vec!["api.example.com".to_string()];
    m.capabilities.filesystem = Some(FilesystemCapability { mode: "scoped".to_string(), root_param: Some("root".to_string()) });
    let p = params(&[("allowed_hosts", "a.com, b.com"), ("printer_ip", ""), ("ROOT", "/srv"), ("allowed_dir", "/x")]);
    let pol = sandbox_policy(&m, &p);
    assert_eq!(pol.allowed_hosts, vec!["api.example.com".to_string(), "a.com".to_string(), "b.com".to_string()]);
    assert_eq!(pol.allowed_dir, "/srv");
}

#[test]
fn host_commands_are_gated_by_the_allowlist() {
    let allowed = vec!["git".to_string()];
    assert!(command_gate(&allowed, "git").is_none());
    let r = command_gate(&allowed, "rm").unwrap();
    assert!(!r.success);
    assert_eq!(r.exit_code, Some(1));
    assert_eq!(r.stdout, "");
    assert_eq!(r.stderr, "Unauthorized execution: 'rm' is not in capabilities.exec.allowed_binaries");
    assert_eq!(
        program_candidates("/p", "git"),
        vec!["/p/rune-git-native", "/p/rune-git-native.exe", "/p/git", "/p/git.exe"]
    );
    assert_eq!(sidecar_candidates("/p", "tool"), vec!["/p/rune-tool-native", "/p/rune-tool-native.exe", "/p/tool"]);
    assert_eq!(missing_sidecar_message("tool"), "Companion native sidecar 'rune-tool-native' not found in plugin directory");
}

#[test]
fn binary_path_replies() {
    assert_eq!(requested_binary("  \"jq\"\n"), "jq");
    assert_eq!(requested_binary("\"\""), "");
    let ok = binary_path_reply("jq", &Ok("/bin/jq".to_string()));
    assert_eq!(ok.get("status").and_then(|v| v.as_str()), Some("ok"));
    assert_eq!(ok.get("path").and_then(|v| v.as_str()), Some("/bin/jq"));
    let busy = binary_path_reply(
        "jq",
        &Err(ProvisionError::InProgress { name: "other".to_string(), progress_percent: 45, eta_seconds: 30 }),
    );
    assert_eq!(
        busy.get("error").and_then(|v| v.as_str()),
        Some("jq is currently being provisioned (45% downloaded). Please retry in 30 seconds.")
    );
    let denied = binary_path_reply("rm", &Err(ProvisionError::Unauthorized("rm".to_string())));
    assert_eq!(denied.get("status").and_then(|v| v.as_str()), Some("error"));
    assert_eq!(
        denied.get("error").and_then(|v| v.as_str()),
        Some("Binary 'rm' is not in capabilities.exec.allowed_binaries allowlist")
    );
}

#[test]
fn sidecar_requests_carry_their_number() {
    let r = sidecar_request(7, "tools/list", obj(vec![]));
    assert_eq!(r.get("jsonrpc").and_then(|v| v.as_str()), Some("2.0"));
    assert!(matches!(r.get("id"), Some(JsonValue::Number(n)) if n == "7"));
    assert_eq!(r.get("method").and_then(|v| v.as_str()), Some("tools/list"));
    assert!(matches!(r.get("params"), Some(JsonValue::Object(m)) if m.is_empty()));
    assert!(matches!(sidecar_request(1234567890, "x", JsonValue::Null).get("id"), Some(JsonValue::Number(n)) if n == "1234567890"));
    assert_eq!(reply_line("  {\"a\":1}  \n").as_deref(), Some("{\"a\":1}"));
    assert_eq!(reply_line(" \t\n"), None);
}

#[test]
fn sidecar_replies_are_read() {
    let resp = obj(vec![("result", obj(vec![("tools", JsonValue::Array(vec![])), ("x", s("y"))]))]);
    assert!(matches!(reply_body_exec(&resp), JsonValue::Object(m) if m.len() == 2));
    assert!(matches!(reply_listing_exec(&resp, "tools"), JsonValue::Array(_)));
    assert!(matches!(reply_listing_exec(&resp, "prompts"), JsonValue::Object(_)));
    let bare = obj(vec![("resources", JsonValue::Array(vec![]))]);
    assert!(matches!(reply_listing_exec(&bare, "resources"), JsonValue::Array(_)));
    assert!(optional_reply(&obj(vec![("error", s("boom"))])).is_none());
    assert!(optional_reply(&resp).is_some());
}

#[test]
fn sidecar_info_falls_back() {
    let resp = obj(vec![("result", obj(vec![("serverInfo", obj(vec![("name", s("srv")), ("description", s("d"))]))]))]);
    let info = sidecar_info(&resp, "plugin").unwrap();
    assert_eq!(info.name, "srv");
    assert_eq!(info.version, "0.1.0");
    assert_eq!(info.description.as_deref(), Some("d"));
    let empty = obj(vec![]);
    let info2 = sidecar_info(&empty, "plugin").unwrap();
    assert_eq!(info2.name, "plugin");
    assert!(sidecar_info(&obj(vec![("error", s("bad"))]), "plugin").is_err());
}

#[test]
fn sidecar_tool_calls_are_read() {
    let failed = obj(vec![("error", obj(vec![("message", s("nope"))]))]);
    assert!(matches!(sidecar_call_outcome(&failed), CallOutcome::Failed(m) if m == "nope"));
    let failed2 = obj(vec![("error", obj(vec![]))]);
    assert!(matches!(sidecar_call_outcome(&failed2), CallOutcome::Failed(m) if m == "Unknown native execution error"));
    let text = obj(vec![("result", obj(vec![("content", JsonValue::Array(vec![obj(vec![("text", s("{\"ok\":true}"))])]))]))]);
    assert!(matches!(sidecar_call_outcome(&text), CallOutcome::Text(t) if t == "{\"ok\":true}"));
    let value = obj(vec![("result", obj(vec![("answer", s("42"))]))]);
    match sidecar_call_outcome(&value) {
        CallOutcome::Value(v) => assert_eq!(v.get("answer").and_then(|a| a.as_str()), Some("42")),
        other => panic!("unexpected {:?}", other),
    }
}

#[test]
fn runtime_errors_read_as_messages() {
    assert_eq!(RuntimeError::FileNotFound("a.wasm".to_string()).message(), "Plugin file not found: a.wasm");
    assert_eq!(RuntimeError::Execution("x".to_string()).message(), "Execution failed: x");
    assert_eq!(RuntimeError::ExtismInit("y".to_string()).message(), "Failed to initialize Extism plugin: y");
    assert_eq!(RuntimeError::Provision("z".to_string()).message(), "Provision error: z");
}

#[test]
fn only_an_object_counts_as_a_sidecar_reply() {
    let reply = accept_reply(obj(vec![("result", s("ok"))]));
    assert!(matches!(reply, Some(JsonValue::Object(ref e)) if e.len() == 1 && e[0].0 == "result"));
    assert!(accept_reply(s("log line")).is_none());
    assert!(accept_reply(JsonValue::Array(Vec::new())).is_none());
    assert!(accept_reply(JsonValue::Null).is_none());
}
