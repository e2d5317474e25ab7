use rune_kit::protocol::{namespace_resource_uri, parse_resource_uri};

#[test]
fn resource_uri_round_trip() {
    let uri = namespace_resource_uri("my-plugin", "config.json");
    assert_eq!(uri, "rune://my-plugin/config.json");
    let (ns, local) = parse_resource_uri(&uri).unwrap();
    assert_eq!(ns, "my-plugin");
    assert_eq!(local, "config.json");
}

#[test]
fn resource_uri_round_trip_with_nested_path() {
    let uri = namespace_resource_uri("my-plugin", "sub/dir/data.json");
    let (ns, local) = parse_resource_uri(&uri).unwrap();
    assert_eq!(ns, "my-plugin");
    assert_eq!(local, "sub/dir/data.json");
}

#[test]
fn parse_resource_uri_rejects_unnamespaced() {
    assert_eq!(parse_resource_uri("config.json"), None);
    assert_eq!(parse_resource_uri("rune://only-namespace"), None);
}

use rune_kit::json::JsonValue;
use rune_kit::protocol::{route_request, Route};

fn s(t: &str) -> JsonValue {
    JsonValue::Str(t.to_string())
}

fn obj(entries: Vec<(&str, JsonValue)>) -> JsonValue {
    JsonValue::Object(entries.into_iter().map(|(k, v)| (k.to_string(), v)).collect())
}

fn call(name: &str) -> JsonValue {
    obj(vec![
        ("jsonrpc", s("2.0")),
        ("id", JsonValue::Number("1".to_string())),
        ("method", s("tools/call")),
        ("params", obj(vec![("name", s(name)), ("arguments", obj(vec![("p", s("x"))]))])),
    ])
}

#[test]
fn listed_tool_names_route_back_to_their_plugin() {
    let namespaces = vec!["fs".to_string(), "web".to_string()];
    match route_request(Some(&call("fs__read_file")), &namespaces) {
        Route::CallTool { namespace, tool, arguments, .. } => {
            assert_eq!(namespace, "fs");
            assert_eq!(tool, "read_file");
            assert_eq!(arguments.get("p").and_then(|v| v.as_str()), Some("x"));
        }
        _ => panic!("not routed to a tool"),
    }
}

fn error_code(r: Route) -> String {
    match r {
        Route::Reply(v) => match v.get("error").and_then(|e| e.get("code")) {
            Some(JsonValue::Number(n)) => n.clone(),
            _ => panic!("no error code"),
        },
        _ => panic!("not a reply"),
    }
}

#[test]
fn refused_requests_are_answered_with_errors() {
    let namespaces = vec!["fs".to_string()];
    assert_eq!(error_code(route_request(Some(&call("web__get")), &namespaces)), "-32601");
    assert_eq!(error_code(route_request(Some(&call("plain")), &namespaces)), "-32602");
    assert_eq!(error_code(route_request(None, &namespaces)), "-32700");
    let unknown = obj(vec![("id", JsonValue::Number("2".to_string())), ("method", s("bogus"))]);
    assert_eq!(error_code(route_request(Some(&unknown), &namespaces)), "-32601");
    let note = obj(vec![("method", s("notifications/initialized"))]);
    assert!(matches!(route_request(Some(&note), &namespaces), Route::Silent));
    let list = obj(vec![("id", JsonValue::Number("3".to_string())), ("method", s("tools/list"))]);
    assert!(matches!(route_request(Some(&list), &namespaces), Route::ListTools(_)));
}
