//! The MCP gateway's protocol layer: namespaced resource URIs, the routing
//! of JSON-RPC requests between plugins, and the replies that are sent back.
//!
//! The gateway runs as a loop: a request is routed to a [`Route`]; a route
//! that needs a plugin is carried out by the caller, whose outcome is turned
//! into a reply by one of the `*_response` functions.
use vstd::prelude::*;
use crate::json::{
    deep_entries, deep_seq, lemma_deep_entries_push, lemma_deep_seq_push, str_or, JsonSpec,
    JsonValue,
};
use crate::manifest::{opt_view, PromptArgument, PromptDefinition, ResourceDefinition, ToolDefinition};
use crate::text::{
    append_str, chars_of, contains_seq, find_exec, find_first, is_prefix, lemma_find_from, occurs_at, starts_with,
    str_eq, string_of_range, to_owned,
};

verus! {

// ---------------------------------------------------------------------------
// Resource URIs
// ---------------------------------------------------------------------------

/// `rune://<namespace>/<local>`.
pub open spec fn resource_uri(namespace: Seq<char>, local: Seq<char>) -> Seq<char> {
    "rune://"@ + namespace + "/"@ + local
}

/// The namespace and local part of a `rune://<namespace>/<local>` URI; the
/// namespace ends at the first `/`.
pub open spec fn split_resource_uri(uri: Seq<char>) -> Option<(Seq<char>, Seq<char>)> {
    if is_prefix("rune://"@, uri) {
        let rest = uri.subrange("rune://"@.len() as int, uri.len() as int);
        match find_first(rest, "/"@) {
            Some(i) => Some((rest.subrange(0, i), rest.subrange(i + 1, rest.len() as int))),
            None => None,
        }
    } else {
        None
    }
}

/// The URI under which the gateway exposes a plugin's resource.
pub fn namespace_resource_uri(namespace: &str, local_uri: &str) -> (r: String)
    ensures
        r@ == resource_uri(namespace@, local_uri@),
{
    let mut r = to_owned("rune://");
    append_str(&mut r, namespace);
    append_str(&mut r, "/");
    append_str(&mut r, local_uri);
    r
}

/// Splits a gateway resource URI into its namespace and local URI.
pub fn parse_resource_uri(uri: &str) -> (r: Option<(&str, &str)>)
    ensures
        match r {
            Some((ns, local)) => split_resource_uri(uri@) == Some((ns@, local@)),
            None => split_resource_uri(uri@) is None,
        },
{
    proof {
        reveal_strlit("rune://");
        reveal_strlit("/");
    }
    if !starts_with(uri, "rune://") {
        return None;
    }
    let n = uri.unicode_len();
    let rest = uri.substring_char(7, n);
    let rv = chars_of(rest);
    let slash = chars_of("/");
    proof {
        lemma_find_from(rv@, slash@, 0);
    }
    match find_exec(&rv, &slash) {
        Some(i) => {
            assert(occurs_at(rv@, slash@, i as int));
            let ns = rest.substring_char(0, i);
            let local = rest.substring_char(i + 1, rv.len());
            Some((ns, local))
        },
        None => None,
    }
}

/// A resource URI names back the namespace and local URI it was made from,
/// provided the namespace holds no `/`.
pub proof fn lemma_resource_uri_round_trip(namespace: Seq<char>, local: Seq<char>)
    requires
        !namespace.contains('/'),
    ensures
        split_resource_uri(resource_uri(namespace, local)) == Some((namespace, local)),
{
    reveal_strlit("rune://");
    reveal_strlit("/");
    let uri = resource_uri(namespace, local);
    let rest = namespace + "/"@ + local;
    assert(uri.subrange(0, 7) =~= "rune://"@);
    assert(uri.subrange(7, uri.len() as int) =~= rest);
    let k = namespace.len() as int;
    assert(rest.subrange(k, k + 1) =~= "/"@);
    assert(occurs_at(rest, "/"@, k));
    assert forall|j: int| 0 <= j < k implies !occurs_at(rest, "/"@, j) by {
        assert(rest[j] == namespace[j]);
        assert(namespace[j] != '/');
        if occurs_at(rest, "/"@, j) {
            assert(rest.subrange(j, j + 1)[0] == rest[j]);
        }
    }
    lemma_find_from(rest, "/"@, 0);
    assert(rest.subrange(0, k) =~= namespace);
    assert(rest.subrange(k + 1, rest.len() as int) =~= local);
}

/// A namespaced name splits back into the namespace and name it was made
/// from, provided the namespace holds no `__` and does not end in `_`.
pub proof fn lemma_namespaced_round_trip(ns: Seq<char>, name: Seq<char>)
    requires
        !contains_seq(ns, "__"@),
        !(ns.len() > 0 && ns.last() == '_'),
    ensures
        split_namespaced(namespaced(ns, name)) == Some((ns, name)),
{
    reveal_strlit("__");
    let full = namespaced(ns, name);
    let k = ns.len() as int;
    assert(full.subrange(k, k + 2) =~= "__"@);
    assert(occurs_at(full, "__"@, k));
    assert forall|j: int| 0 <= j < k implies !occurs_at(full, "__"@, j) by {
        if occurs_at(full, "__"@, j) {
            if j + 2 <= k {
                assert(ns.subrange(j, j + 2) =~= full.subrange(j, j + 2));
                assert(occurs_at(ns, "__"@, j));
            } else {
                assert(j == k - 1);
                assert(full.subrange(j, j + 2)[0] == full[j]);
                assert(full[j] == ns.last());
            }
        }
    }
    lemma_find_from(full, "__"@, 0);
    assert(full.subrange(0, k) =~= ns);
    assert(full.subrange(k + 2, full.len() as int) =~= name);
}

/// A call of a tool under the name the gateway lists it by reaches that
/// tool of that plugin, with the request's arguments, provided the plugin
/// is registered and its namespace holds no `__` and does not end in `_`.
pub proof fn lemma_listed_tool_is_routed(req: JsonValue, namespaces: Seq<Seq<char>>, ns: Seq<char>, tool: Seq<char>)
    requires
        request_method(req) == "tools/call"@,
        str_or(param(req, "name"@), Seq::empty()) == namespaced(ns, tool),
        namespaces.contains(ns),
        !contains_seq(ns, "__"@),
        !(ns.len() > 0 && ns.last() == '_'),
    ensures
        expected_route(req, namespaces) == RouteSpec::CallTool(request_id(req), ns, tool, request_arguments(req)),
{
    lemma_namespaced_round_trip(ns, tool);
    reveal_strlit("tools/call");
    reveal_strlit("notifications/");
    reveal_strlit("initialized");
    reveal_strlit("initialize");
    reveal_strlit("ping");
    reveal_strlit("tools/list");
    reveal_strlit("resources/list");
    reveal_strlit("prompts/list");
    let m = request_method(req);
    assert(!is_prefix("notifications/"@, m)) by {
        if is_prefix("notifications/"@, m) {
            assert(m.subrange(0, 14)[0] == m[0]);
        }
    }
    assert(m != "initialized"@);
    assert(m[0] != "initialize"@[0]);
    assert(m != "initialize"@);
    assert(m != "ping"@);
    assert(m[6] != "tools/list"@[6]);
    assert(m != "tools/list"@);
    assert(m != "resources/list"@);
    assert(m != "prompts/list"@);
}

/// A request for a prompt under the name the gateway lists it by reaches
/// that prompt of that plugin, carrying exactly the request's
/// `params.arguments` (an empty object only when the request has none),
/// provided the plugin is registered and its namespace holds no `__` and
/// does not end in `_`.
pub proof fn lemma_listed_prompt_is_routed(req: JsonValue, namespaces: Seq<Seq<char>>, ns: Seq<char>, prompt: Seq<char>)
    requires
        request_method(req) == "prompts/get"@,
        str_or(param(req, "name"@), Seq::empty()) == namespaced(ns, prompt),
        namespaces.contains(ns),
        !contains_seq(ns, "__"@),
        !(ns.len() > 0 && ns.last() == '_'),
    ensures
        expected_route(req, namespaces) matches RouteSpec::GetPrompt(id, n, p, args) && id == request_id(req)
            && n == ns && p == prompt && match req.field("params"@) {
            Some(ps) => match ps.field("arguments"@) {
                Some(a) => args == a.deep(),
                None => args == JsonSpec::Object(Seq::empty()),
            },
            None => args == JsonSpec::Object(Seq::empty()),
        },
{
    lemma_namespaced_round_trip(ns, prompt);
    reveal_strlit("prompts/get");
    reveal_strlit("notifications/");
    reveal_strlit("initialized");
    reveal_strlit("initialize");
    reveal_strlit("ping");
    reveal_strlit("tools/list");
    reveal_strlit("resources/list");
    reveal_strlit("prompts/list");
    reveal_strlit("tools/call");
    reveal_strlit("resources/read");
    let m = request_method(req);
    assert(!is_prefix("notifications/"@, m)) by {
        if is_prefix("notifications/"@, m) {
            assert(m.subrange(0, 14)[0] == m[0]);
        }
    }
    assert(m[0] != "initialized"@[0]);
    assert(m != "initialized"@);
    assert(m != "initialize"@);
    assert(m != "ping"@);
    assert(m != "tools/list"@);
    assert(m != "resources/list"@);
    assert(m[8] != "prompts/list"@[8]);
    assert(m != "prompts/list"@);
    assert(m != "tools/call"@);
    assert(m != "resources/read"@);
}

/// A read of a resource under the URI the gateway lists it by reaches that
/// resource of that plugin, provided the plugin is registered and its
/// namespace holds no `/`.
pub proof fn lemma_listed_resource_is_routed(req: JsonValue, namespaces: Seq<Seq<char>>, ns: Seq<char>, local: Seq<char>)
    requires
        request_method(req) == "resources/read"@,
        str_or(param(req, "uri"@), Seq::empty()) == resource_uri(ns, local),
        namespaces.contains(ns),
        !ns.contains('/'),
    ensures
        expected_route(req, namespaces) == RouteSpec::ReadResource(request_id(req), ns, local),
{
    lemma_resource_uri_round_trip(ns, local);
    reveal_strlit("resources/read");
    reveal_strlit("notifications/");
    reveal_strlit("initialized");
    reveal_strlit("initialize");
    reveal_strlit("ping");
    reveal_strlit("tools/list");
    reveal_strlit("resources/list");
    reveal_strlit("prompts/list");
    reveal_strlit("tools/call");
    let m = request_method(req);
    assert(!is_prefix("notifications/"@, m)) by {
        if is_prefix("notifications/"@, m) {
            assert(m.subrange(0, 14)[0] == m[0]);
        }
    }
    assert(m != "initialized"@);
    assert(m != "initialize"@);
    assert(m != "ping"@);
    assert(m != "tools/list"@);
    assert(m[10] != "resources/list"@[10]);
    assert(m != "resources/list"@);
    assert(m != "prompts/list"@);
    assert(m != "tools/call"@);
}

// ---------------------------------------------------------------------------
// Building replies
// ---------------------------------------------------------------------------

/// A JSON-RPC reply envelope.
pub open spec fn envelope(id: JsonSpec, key: Seq<char>, body: JsonSpec) -> JsonSpec {
    JsonSpec::Object(seq![("jsonrpc"@, JsonSpec::Str("2.0"@)), ("id"@, id), (key, body)])
}

/// A JSON-RPC success reply.
pub open spec fn rpc_result(id: JsonSpec, result: JsonSpec) -> JsonSpec {
    envelope(id, "result"@, result)
}

/// A JSON-RPC error reply.
pub open spec fn rpc_error(id: JsonSpec, code: Seq<char>, message: Seq<char>) -> JsonSpec {
    envelope(
        id,
        "error"@,
        JsonSpec::Object(seq![("code"@, JsonSpec::Number(code)), ("message"@, JsonSpec::Str(message))]),
    )
}

/// An empty JSON object.
pub open spec fn empty_object() -> JsonSpec {
    JsonSpec::Object(Seq::empty())
}

/// The reply to `initialize`: the protocol version, the capabilities and the
/// server's name and version.
pub open spec fn initialize_result() -> JsonSpec {
    JsonSpec::Object(
        seq![
            ("protocolVersion"@, JsonSpec::Str("2024-11-05"@)),
            (
                "capabilities"@,
                JsonSpec::Object(
                    seq![
                        ("tools"@, JsonSpec::Object(seq![("listChanged"@, JsonSpec::Bool(false))])),
                        ("resources"@, empty_object()),
                        ("prompts"@, empty_object()),
                    ],
                ),
            ),
            (
                "serverInfo"@,
                JsonSpec::Object(
                    seq![("name"@, JsonSpec::Str("rune-kit"@)), ("version"@, JsonSpec::Str("0.1.0"@))],
                ),
            ),
        ],
    )
}

/// Adds an entry to an object under construction.
pub(crate) fn put(m: &mut Vec<(String, JsonValue)>, key: &str, v: JsonValue)
    ensures
        deep_entries(final(m)@) == deep_entries(old(m)@).push((key@, v.deep())),
{
    let k = to_owned(key);
    proof {
        lemma_deep_entries_push(m@, (k, v));
    }
    m.push((k, v));
}

/// The content of an empty entry list.
pub(crate) proof fn lemma_deep_entries_empty()
    ensures
        deep_entries(Seq::<(String, JsonValue)>::empty()) == Seq::<(Seq<char>, JsonSpec)>::empty(),
{
}

/// The content of an empty value list.
proof fn lemma_deep_seq_empty()
    ensures
        deep_seq(Seq::<JsonValue>::empty()) == Seq::<JsonSpec>::empty(),
{
}

/// A JSON object with no entries.
fn new_object() -> (r: JsonValue)
    ensures
        r.deep() == empty_object(),
{
    let m: Vec<(String, JsonValue)> = Vec::new();
    proof {
        lemma_deep_entries_empty();
    }
    JsonValue::Object(m)
}

/// An object with two entries.
pub(crate) fn object2(k1: &str, v1: JsonValue, k2: &str, v2: JsonValue) -> (r: JsonValue)
    ensures
        r.deep() == JsonSpec::Object(seq![(k1@, v1.deep()), (k2@, v2.deep())]),
{
    let mut m: Vec<(String, JsonValue)> = Vec::new();
    proof {
        lemma_deep_entries_empty();
    }
    let ghost d1 = v1.deep();
    let ghost d2 = v2.deep();
    put(&mut m, k1, v1);
    put(&mut m, k2, v2);
    assert(deep_entries(m@) =~= seq![(k1@, d1), (k2@, d2)]);
    JsonValue::Object(m)
}

/// An object with three entries.
pub(crate) fn object3(k1: &str, v1: JsonValue, k2: &str, v2: JsonValue, k3: &str, v3: JsonValue) -> (r: JsonValue)
    ensures
        r.deep() == JsonSpec::Object(seq![(k1@, v1.deep()), (k2@, v2.deep()), (k3@, v3.deep())]),
{
    let mut m: Vec<(String, JsonValue)> = Vec::new();
    proof {
        lemma_deep_entries_empty();
    }
    let ghost d1 = v1.deep();
    let ghost d2 = v2.deep();
    let ghost d3 = v3.deep();
    put(&mut m, k1, v1);
    put(&mut m, k2, v2);
    put(&mut m, k3, v3);
    assert(deep_entries(m@) =~= seq![(k1@, d1), (k2@, d2), (k3@, d3)]);
    JsonValue::Object(m)
}

/// An object with four entries.
pub(crate) fn object4(
    k1: &str,
    v1: JsonValue,
    k2: &str,
    v2: JsonValue,
    k3: &str,
    v3: JsonValue,
    k4: &str,
    v4: JsonValue,
) -> (r: JsonValue)
    ensures
        r.deep() == JsonSpec::Object(seq![(k1@, v1.deep()), (k2@, v2.deep()), (k3@, v3.deep()), (k4@, v4.deep())]),
{
    let mut m: Vec<(String, JsonValue)> = Vec::new();
    proof {
        lemma_deep_entries_empty();
    }
    let ghost d1 = v1.deep();
    let ghost d2 = v2.deep();
    let ghost d3 = v3.deep();
    let ghost d4 = v4.deep();
    put(&mut m, k1, v1);
    put(&mut m, k2, v2);
    put(&mut m, k3, v3);
    put(&mut m, k4, v4);
    assert(deep_entries(m@) =~= seq![(k1@, d1), (k2@, d2), (k3@, d3), (k4@, d4)]);
    JsonValue::Object(m)
}

/// An object with one entry.
pub(crate) fn object1(k1: &str, v1: JsonValue) -> (r: JsonValue)
    ensures
        r.deep() == JsonSpec::Object(seq![(k1@, v1.deep())]),
{
    let mut m: Vec<(String, JsonValue)> = Vec::new();
    proof {
        lemma_deep_entries_empty();
    }
    let ghost d1 = v1.deep();
    put(&mut m, k1, v1);
    assert(deep_entries(m@) =~= seq![(k1@, d1)]);
    JsonValue::Object(m)
}

/// A JSON string.
pub(crate) fn jstr(s: &str) -> (r: JsonValue)
    ensures
        r.deep() == JsonSpec::Str(s@),
{
    JsonValue::Str(to_owned(s))
}

/// A JSON-RPC reply envelope.
fn make_envelope(id: JsonValue, key: &str, body: JsonValue) -> (r: JsonValue)
    ensures
        r.deep() == envelope(id.deep(), key@, body.deep()),
{
    object3("jsonrpc", jstr("2.0"), "id", id, key, body)
}

/// A JSON-RPC success reply carrying `result`.
pub fn result_response(id: JsonValue, result: JsonValue) -> (r: JsonValue)
    ensures
        r.deep() == rpc_result(id.deep(), result.deep()),
{
    make_envelope(id, "result", result)
}

/// A JSON-RPC error reply with the given code and message.
pub fn error_response(id: JsonValue, code: &str, message: &str) -> (r: JsonValue)
    ensures
        r.deep() == rpc_error(id.deep(), code@, message@),
{
    let body = object2("code", JsonValue::Number(to_owned(code)), "message", jstr(message));
    make_envelope(id, "error", body)
}

/// The reply to `initialize`.
fn initialize_response(id: JsonValue) -> (r: JsonValue)
    ensures
        r.deep() == rpc_result(id.deep(), initialize_result()),
{
    let tools = object1("listChanged", JsonValue::Bool(false));
    let caps = object3("tools", tools, "resources", new_object(), "prompts", new_object());
    let info = object2("name", jstr("rune-kit"), "version", jstr("0.1.0"));
    let result = object3("protocolVersion", jstr("2024-11-05"), "capabilities", caps, "serverInfo", info);
    result_response(id, result)
}

// ---------------------------------------------------------------------------
// Routing
// ---------------------------------------------------------------------------

/// What the gateway does with a request.
pub enum Route {
    /// Send this reply.
    Reply(JsonValue),
    /// Send nothing (a notification).
    Silent,
    /// Gather the tools of every plugin, then reply with
    /// [`tools_list_response`] to this id.
    ListTools(JsonValue),
    /// Gather the resources of every plugin, then reply with
    /// [`resources_list_response`] to this id.
    ListResources(JsonValue),
    /// Gather the prompts of every plugin, then reply with
    /// [`prompts_list_response`] to this id.
    ListPrompts(JsonValue),
    /// Call a tool of the plugin registered under `namespace`, then reply with
    /// [`call_tool_response`].
    CallTool { id: JsonValue, namespace: String, tool: String, arguments: JsonValue },
    /// Read a resource of the plugin registered under `namespace`, then
    /// reply with [`value_response`].
    ReadResource { id: JsonValue, namespace: String, uri: String },
    /// Get a prompt of the plugin registered under `namespace`, then reply
    /// with [`value_response`].
    GetPrompt { id: JsonValue, namespace: String, prompt: String, arguments: JsonValue },
}

/// The content of a [`Route`].
pub enum RouteSpec {
    Reply(JsonSpec),
    Silent,
    ListTools(JsonSpec),
    ListResources(JsonSpec),
    ListPrompts(JsonSpec),
    CallTool(JsonSpec, Seq<char>, Seq<char>, JsonSpec),
    ReadResource(JsonSpec, Seq<char>, Seq<char>),
    GetPrompt(JsonSpec, Seq<char>, Seq<char>, JsonSpec),
}

impl Route {
    /// The content of this route.
    pub open spec fn view(self) -> RouteSpec {
        match self {
            Route::Reply(v) => RouteSpec::Reply(v.deep()),
            Route::Silent => RouteSpec::Silent,
            Route::ListTools(id) => RouteSpec::ListTools(id.deep()),
            Route::ListResources(id) => RouteSpec::ListResources(id.deep()),
            Route::ListPrompts(id) => RouteSpec::ListPrompts(id.deep()),
            Route::CallTool { id, namespace, tool, arguments } => RouteSpec::CallTool(
                id.deep(),
                namespace@,
                tool@,
                arguments.deep(),
            ),
            Route::ReadResource { id, namespace, uri } => RouteSpec::ReadResource(id.deep(), namespace@, uri@),
            Route::GetPrompt { id, namespace, prompt, arguments } => RouteSpec::GetPrompt(
                id.deep(),
                namespace@,
                prompt@,
                arguments.deep(),
            ),
        }
    }
}

/// The id of a request, `null` when it has none.
pub open spec fn request_id(req: JsonValue) -> JsonSpec {
    match req.field("id"@) {
        Some(v) => v.deep(),
        None => JsonSpec::Null,
    }
}

/// The method of a request, empty when it has none.
pub open spec fn request_method(req: JsonValue) -> Seq<char> {
    str_or(req.field("method"@), Seq::empty())
}

/// The params of a request.
pub open spec fn request_params(req: JsonValue) -> Option<JsonValue> {
    req.field("params"@)
}

/// A field of the params, when the params are an object holding it.
pub open spec fn param(req: JsonValue, key: Seq<char>) -> Option<JsonValue> {
    match request_params(req) {
        Some(p) => p.field(key),
        None => None,
    }
}

/// The arguments in the params, an empty object when absent.
pub open spec fn request_arguments(req: JsonValue) -> JsonSpec {
    match param(req, "arguments"@) {
        Some(a) => a.deep(),
        None => empty_object(),
    }
}

/// A namespaced name `<namespace>__<name>` split at its first `__`.
pub open spec fn split_namespaced(full: Seq<char>) -> Option<(Seq<char>, Seq<char>)> {
    match find_first(full, "__"@) {
        Some(i) => Some((full.subrange(0, i), full.subrange(i + 2, full.len() as int))),
        None => None,
    }
}

/// `Namespace '<ns>' not found`.
pub open spec fn namespace_missing(ns: Seq<char>) -> Seq<char> {
    "Namespace '"@ + ns + "' not found"@
}

/// What the gateway does with a request that names a plugin's item.
pub open spec fn route_namespaced(
    id: JsonSpec,
    full: Seq<char>,
    namespaces: Seq<Seq<char>>,
    invalid: Seq<char>,
    found: spec_fn(Seq<char>, Seq<char>) -> RouteSpec,
) -> RouteSpec {
    match split_namespaced(full) {
        None => RouteSpec::Reply(rpc_error(id, "-32602"@, invalid)),
        Some((ns, item)) => if namespaces.contains(ns) {
            found(ns, item)
        } else {
            RouteSpec::Reply(rpc_error(id, "-32601"@, namespace_missing(ns)))
        },
    }
}

/// What the gateway does with a request, given the registered namespaces.
pub open spec fn expected_route(req: JsonValue, namespaces: Seq<Seq<char>>) -> RouteSpec {
    let id = request_id(req);
    let m = request_method(req);
    if is_prefix("notifications/"@, m) || m == "initialized"@ {
        RouteSpec::Silent
    } else if m == "initialize"@ {
        RouteSpec::Reply(rpc_result(id, initialize_result()))
    } else if m == "ping"@ {
        RouteSpec::Reply(rpc_result(id, empty_object()))
    } else if m == "tools/list"@ {
        RouteSpec::ListTools(id)
    } else if m == "resources/list"@ {
        RouteSpec::ListResources(id)
    } else if m == "prompts/list"@ {
        RouteSpec::ListPrompts(id)
    } else if m == "tools/call"@ {
        route_namespaced(
            id,
            str_or(param(req, "name"@), Seq::empty()),
            namespaces,
            "Invalid tool namespacing (expected namespace__tool)"@,
            |ns: Seq<char>, tool: Seq<char>| RouteSpec::CallTool(id, ns, tool, request_arguments(req)),
        )
    } else if m == "resources/read"@ {
        match split_resource_uri(str_or(param(req, "uri"@), Seq::empty())) {
            None => RouteSpec::Reply(
                rpc_error(id, "-32602"@, "Invalid resource URI (expected rune://<namespace>/<local-uri>)"@),
            ),
            Some((ns, local)) => if namespaces.contains(ns) {
                RouteSpec::ReadResource(id, ns, local)
            } else {
                RouteSpec::Reply(rpc_error(id, "-32601"@, namespace_missing(ns)))
            },
        }
    } else if m == "prompts/get"@ {
        route_namespaced(
            id,
            str_or(param(req, "name"@), Seq::empty()),
            namespaces,
            "Invalid prompt namespacing (expected namespace__prompt)"@,
            |ns: Seq<char>, prompt: Seq<char>| RouteSpec::GetPrompt(id, ns, prompt, request_arguments(req)),
        )
    } else {
        RouteSpec::Reply(rpc_error(id, "-32601"@, "Method '"@ + m + "' not found"@))
    }
}

/// The names of the registered namespaces.
pub open spec fn names_view(ns: Seq<String>) -> Seq<Seq<char>> {
    ns.map_values(|s: String| s@)
}

/// Whether `name` is among `names`.
fn has_name(names: &Vec<String>, name: &str) -> (r: bool)
    ensures
        r == names_view(names@).contains(name@),
{
    let mut i: usize = 0;
    while i < names.len()
        invariant
            i <= names@.len(),
            forall|j: int| 0 <= j < i ==> names@[j]@ != name@,
        decreases names.len() - i,
    {
        if str_eq(names[i].as_str(), name) {
            assert(names_view(names@)[i as int] == name@);
            return true;
        }
        i = i + 1;
    }
    proof {
        if names_view(names@).contains(name@) {
            let j = choose|j: int| 0 <= j < names_view(names@).len() && names_view(names@)[j] == name@;
            assert(names@[j]@ == name@);
        }
    }
    false
}

/// The id of a request, `null` when absent.
fn id_of(req: &JsonValue) -> (r: JsonValue)
    ensures
        r.deep() == request_id(*req),
{
    match req.get("id") {
        Some(v) => v.duplicate(),
        None => JsonValue::Null,
    }
}

/// A string field of the request's params, empty when absent.
fn param_str(req: &JsonValue, key: &str) -> (r: String)
    ensures
        r@ == str_or(param(*req, key@), Seq::empty()),
{
    let p = req.get("params");
    match p {
        Some(pv) => match pv.get(key) {
            Some(v) => match v.as_str() {
                Some(s) => to_owned(s),
                None => String::new(),
            },
            None => String::new(),
        },
        None => String::new(),
    }
}

/// The arguments in the request's params, an empty object when absent.
fn arguments_of(req: &JsonValue) -> (r: JsonValue)
    ensures
        r.deep() == request_arguments(*req),
{
    match req.get("params") {
        Some(pv) => match pv.get("arguments") {
            Some(a) => a.duplicate(),
            None => new_object(),
        },
        None => new_object(),
    }
}

/// `<namespace>__<name>` split at the first `__`.
fn split_namespaced_exec(full: &str) -> (r: Option<(String, String)>)
    ensures
        match r {
            Some((a, b)) => split_namespaced(full@) == Some((a@, b@)),
            None => split_namespaced(full@) is None,
        },
{
    let v = chars_of(full);
    let n = v.len();
    let sep = chars_of("__");
    proof {
        reveal_strlit("__");
        lemma_find_from(v@, sep@, 0);
    }
    match find_exec(&v, &sep) {
        Some(i) => {
            assert(occurs_at(v@, sep@, i as int));
            Some((string_of_range(&v, 0, i), string_of_range(&v, i + 2, n)))
        },
        None => None,
    }
}

/// `Namespace '<ns>' not found`.
fn namespace_missing_exec(ns: &str) -> (r: String)
    ensures
        r@ == namespace_missing(ns@),
{
    let mut r = to_owned("Namespace '");
    append_str(&mut r, ns);
    append_str(&mut r, "' not found");
    r
}

/// Decides what the gateway does with a request. `None` stands for a request
/// whose text is not JSON.
pub fn route_request(request: Option<&JsonValue>, namespaces: &Vec<String>) -> (r: Route)
    ensures
        match request {
            None => r@ == RouteSpec::Reply(rpc_error(JsonSpec::Null, "-32700"@, "Parse error"@)),
            Some(req) => r@ == expected_route(*req, names_view(namespaces@)),
        },
{
    let req = match request {
        None => {
            return Route::Reply(error_response(JsonValue::Null, "-32700", "Parse error"));
        },
        Some(req) => req,
    };
    let method: String = match req.get("method") {
        Some(m) => match m.as_str() {
            Some(s) => to_owned(s),
            None => String::new(),
        },
        None => String::new(),
    };
    assert(method@ == request_method(*req));
    let ghost names = names_view(namespaces@);
    if starts_with(method.as_str(), "notifications/") || str_eq(method.as_str(), "initialized") {
        return Route::Silent;
    }
    let id = id_of(req);
    if str_eq(method.as_str(), "initialize") {
        Route::Reply(initialize_response(id))
    } else if str_eq(method.as_str(), "ping") {
        Route::Reply(result_response(id, new_object()))
    } else if str_eq(method.as_str(), "tools/list") {
        Route::ListTools(id)
    } else if str_eq(method.as_str(), "resources/list") {
        Route::ListResources(id)
    } else if str_eq(method.as_str(), "prompts/list") {
        Route::ListPrompts(id)
    } else if str_eq(method.as_str(), "tools/call") {
        let full = param_str(req, "name");
        match split_namespaced_exec(full.as_str()) {
            None => Route::Reply(
                error_response(id, "-32602", "Invalid tool namespacing (expected namespace__tool)"),
            ),
            Some((ns, tool)) => {
                if has_name(namespaces, ns.as_str()) {
                    Route::CallTool { id, namespace: ns, tool, arguments: arguments_of(req) }
                } else {
                    let msg = namespace_missing_exec(ns.as_str());
                    Route::Reply(error_response(id, "-32601", msg.as_str()))
                }
            },
        }
    } else if str_eq(method.as_str(), "resources/read") {
        let uri = param_str(req, "uri");
        match parse_resource_uri(uri.as_str()) {
            None => Route::Reply(
                error_response(id, "-32602", "Invalid resource URI (expected rune://<namespace>/<local-uri>)"),
            ),
            Some((ns, local)) => {
                if has_name(namespaces, ns) {
                    Route::ReadResource { id, namespace: to_owned(ns), uri: to_owned(local) }
                } else {
                    let msg = namespace_missing_exec(ns);
                    Route::Reply(error_response(id, "-32601", msg.as_str()))
                }
            },
        }
    } else if str_eq(method.as_str(), "prompts/get") {
        let full = param_str(req, "name");
        match split_namespaced_exec(full.as_str()) {
            None => Route::Reply(
                error_response(id, "-32602", "Invalid prompt namespacing (expected namespace__prompt)"),
            ),
            Some((ns, prompt)) => {
                if has_name(namespaces, ns.as_str()) {
                    Route::GetPrompt { id, namespace: ns, prompt, arguments: arguments_of(req) }
                } else {
                    let msg = namespace_missing_exec(ns.as_str());
                    Route::Reply(error_response(id, "-32601", msg.as_str()))
                }
            },
        }
    } else {
        let mut msg = to_owned("Method '");
        append_str(&mut msg, method.as_str());
        append_str(&mut msg, "' not found");
        Route::Reply(error_response(id, "-32601", msg.as_str()))
    }
}

// ---------------------------------------------------------------------------
// Replies built from plugin outcomes
// ---------------------------------------------------------------------------

/// `<namespace>__<name>`.
pub open spec fn namespaced(ns: Seq<char>, name: Seq<char>) -> Seq<char> {
    ns + "__"@ + name
}

/// How a plugin's tool is listed by the gateway.
pub open spec fn tool_entry(ns: Seq<char>, t: ToolDefinition) -> JsonSpec {
    JsonSpec::Object(
        seq![
            ("name"@, JsonSpec::Str(namespaced(ns, t.name@))),
            ("description"@, JsonSpec::Str(t.description@)),
            ("inputSchema"@, t.input_schema.deep()),
        ],
    )
}

/// The gateway's listing of the tools of each plugin, plugin after plugin.
pub open spec fn tool_entries(listing: Seq<(String, Vec<ToolDefinition>)>) -> Seq<JsonSpec>
    decreases listing.len(),
{
    if listing.len() == 0 {
        Seq::empty()
    } else {
        tool_entries(listing.drop_last()) + listing.last().1@.map_values(
            |t: ToolDefinition| tool_entry(listing.last().0@, t),
        )
    }
}

/// An optional string as JSON: the string, or `null`.
pub open spec fn opt_json(o: Option<Seq<char>>) -> JsonSpec {
    match o {
        Some(s) => JsonSpec::Str(s),
        None => JsonSpec::Null,
    }
}

/// How a plugin's resource is listed by the gateway: under its namespaced URI.
pub open spec fn resource_entry(ns: Seq<char>, r: ResourceDefinition) -> JsonSpec {
    JsonSpec::Object(
        seq![
            ("uri"@, JsonSpec::Str(resource_uri(ns, r.uri@))),
            ("name"@, JsonSpec::Str(r.name@)),
            ("description"@, JsonSpec::Str(r.description@)),
            ("mimeType"@, opt_json(opt_view(r.mime_type))),
        ],
    )
}

/// The gateway's listing of the resources of each plugin.
pub open spec fn resource_entries(listing: Seq<(String, Vec<ResourceDefinition>)>) -> Seq<JsonSpec>
    decreases listing.len(),
{
    if listing.len() == 0 {
        Seq::empty()
    } else {
        resource_entries(listing.drop_last()) + listing.last().1@.map_values(
            |r: ResourceDefinition| resource_entry(listing.last().0@, r),
        )
    }
}

/// A prompt argument as JSON.
pub open spec fn argument_entry(a: PromptArgument) -> JsonSpec {
    JsonSpec::Object(
        seq![
            ("name"@, JsonSpec::Str(a.name@)),
            ("description"@, JsonSpec::Str(a.description@)),
            ("required"@, JsonSpec::Bool(a.required)),
        ],
    )
}

/// How a plugin's prompt is listed by the gateway.
pub open spec fn prompt_entry(ns: Seq<char>, p: PromptDefinition) -> JsonSpec {
    JsonSpec::Object(
        seq![
            ("name"@, JsonSpec::Str(namespaced(ns, p.name@))),
            ("description"@, JsonSpec::Str(p.description@)),
            ("arguments"@, JsonSpec::Array(p.arguments@.map_values(|a: PromptArgument| argument_entry(a)))),
        ],
    )
}

/// The gateway's listing of the prompts of each plugin.
pub open spec fn prompt_entries(listing: Seq<(String, Vec<PromptDefinition>)>) -> Seq<JsonSpec>
    decreases listing.len(),
{
    if listing.len() == 0 {
        Seq::empty()
    } else {
        prompt_entries(listing.drop_last()) + listing.last().1@.map_values(
            |p: PromptDefinition| prompt_entry(listing.last().0@, p),
        )
    }
}

/// `<namespace>__<name>`.
fn namespaced_exec(ns: &str, name: &str) -> (r: String)
    ensures
        r@ == namespaced(ns@, name@),
{
    let mut r = to_owned(ns);
    append_str(&mut r, "__");
    append_str(&mut r, name);
    r
}

/// Appends a value to an array under construction.
fn push_value(a: &mut Vec<JsonValue>, v: JsonValue)
    ensures
        deep_seq(final(a)@) == deep_seq(old(a)@).push(v.deep()),
{
    proof {
        lemma_deep_seq_push(a@, v);
    }
    a.push(v);
}

/// The reply to `tools/list`, given the tools each plugin offers (plugins
/// whose listing failed are left out by the caller).
pub fn tools_list_response(id: JsonValue, listing: &Vec<(String, Vec<ToolDefinition>)>) -> (r: JsonValue)
    ensures
        r.deep() == rpc_result(
            id.deep(),
            JsonSpec::Object(seq![("tools"@, JsonSpec::Array(tool_entries(listing@)))]),
        ),
{
    let mut all: Vec<JsonValue> = Vec::new();
    proof {
        lemma_deep_seq_empty();
    }
    let mut i: usize = 0;
    while i < listing.len()
        invariant
            i <= listing@.len(),
            deep_seq(all@) == tool_entries(listing@.take(i as int)),
        decreases listing.len() - i,
    {
        let ns = &listing[i].0;
        let tools = &listing[i].1;
        let ghost base = deep_seq(all@);
        let mut j: usize = 0;
        while j < tools.len()
            invariant
                j <= tools@.len(),
                deep_seq(all@) == base + tools@.take(j as int).map_values(
                    |t: ToolDefinition| tool_entry(ns@, t),
                ),
            decreases tools.len() - j,
        {
            let t = &tools[j];
            let e = object3(
                "name",
                JsonValue::Str(namespaced_exec(ns.as_str(), t.name.as_str())),
                "description",
                jstr(t.description.as_str()),
                "inputSchema",
                t.input_schema.duplicate(),
            );
            push_value(&mut all, e);
            j = j + 1;
            assert(tools@.take(j as int).map_values(|t: ToolDefinition| tool_entry(ns@, t))
                =~= tools@.take(j - 1).map_values(|t: ToolDefinition| tool_entry(ns@, t)).push(
                tool_entry(ns@, tools@[j - 1]),
            ));
        }
        assert(tools@.take(tools@.len() as int) =~= tools@);
        assert(listing@.take(i + 1).drop_last() =~= listing@.take(i as int));
        i = i + 1;
    }
    assert(listing@.take(listing@.len() as int) =~= listing@);
    let body = object1("tools", JsonValue::Array(all));
    result_response(id, body)
}

/// An optional string as JSON.
fn opt_json_exec(o: &Option<String>) -> (r: JsonValue)
    ensures
        r.deep() == opt_json(opt_view(*o)),
{
    match o {
        Some(s) => jstr(s.as_str()),
        None => JsonValue::Null,
    }
}

/// The reply to `resources/list`, given the resources each plugin offers.
pub fn resources_list_response(id: JsonValue, listing: &Vec<(String, Vec<ResourceDefinition>)>) -> (r: JsonValue)
    ensures
        r.deep() == rpc_result(
            id.deep(),
            JsonSpec::Object(seq![("resources"@, JsonSpec::Array(resource_entries(listing@)))]),
        ),
{
    let mut all: Vec<JsonValue> = Vec::new();
    proof {
        lemma_deep_seq_empty();
    }
    let mut i: usize = 0;
    while i < listing.len()
        invariant
            i <= listing@.len(),
            deep_seq(all@) == resource_entries(listing@.take(i as int)),
        decreases listing.len() - i,
    {
        let ns = &listing[i].0;
        let items = &listing[i].1;
        let ghost base = deep_seq(all@);
        let mut j: usize = 0;
        while j < items.len()
            invariant
                j <= items@.len(),
                deep_seq(all@) == base + items@.take(j as int).map_values(
                    |x: ResourceDefinition| resource_entry(ns@, x),
                ),
            decreases items.len() - j,
        {
            let x = &items[j];
            let mut m: Vec<(String, JsonValue)> = Vec::new();
            proof {
                lemma_deep_entries_empty();
            }
            let uri = namespace_resource_uri(ns.as_str(), x.uri.as_str());
            let v1 = JsonValue::Str(uri);
            let v2 = jstr(x.name.as_str());
            let v3 = jstr(x.description.as_str());
            let v4 = opt_json_exec(&x.mime_type);
            let ghost d = seq![("uri"@, v1.deep()), ("name"@, v2.deep()), ("description"@, v3.deep()), ("mimeType"@, v4.deep())];
            put(&mut m, "uri", v1);
            put(&mut m, "name", v2);
            put(&mut m, "description", v3);
            put(&mut m, "mimeType", v4);
            assert(deep_entries(m@) =~= d);
            let e = JsonValue::Object(m);
            assert(e.deep() == resource_entry(ns@, *x));
            push_value(&mut all, e);
            j = j + 1;
            assert(items@.take(j as int).map_values(|x: ResourceDefinition| resource_entry(ns@, x))
                =~= items@.take(j - 1).map_values(|x: ResourceDefinition| resource_entry(ns@, x)).push(
                resource_entry(ns@, items@[j - 1]),
            ));
        }
        assert(items@.take(items@.len() as int) =~= items@);
        assert(listing@.take(i + 1).drop_last() =~= listing@.take(i as int));
        i = i + 1;
    }
    assert(listing@.take(listing@.len() as int) =~= listing@);
    let body = object1("resources", JsonValue::Array(all));
    result_response(id, body)
}

/// A prompt's arguments as JSON.
fn arguments_json(args: &Vec<PromptArgument>) -> (r: JsonValue)
    ensures
        r.deep() == JsonSpec::Array(args@.map_values(|a: PromptArgument| argument_entry(a))),
{
    let mut all: Vec<JsonValue> = Vec::new();
    proof {
        lemma_deep_seq_empty();
    }
    let mut j: usize = 0;
    while j < args.len()
        invariant
            j <= args@.len(),
            deep_seq(all@) == args@.take(j as int).map_values(|a: PromptArgument| argument_entry(a)),
        decreases args.len() - j,
    {
        let a = &args[j];
        let e = object3(
            "name",
            jstr(a.name.as_str()),
            "description",
            jstr(a.description.as_str()),
            "required",
            JsonValue::Bool(a.required),
        );
        push_value(&mut all, e);
        j = j + 1;
        assert(args@.take(j as int).map_values(|a: PromptArgument| argument_entry(a)) =~= args@.take(
            j - 1,
        ).map_values(|a: PromptArgument| argument_entry(a)).push(argument_entry(args@[j - 1])));
    }
    assert(args@.take(args@.len() as int) =~= args@);
    JsonValue::Array(all)
}

/// The reply to `prompts/list`, given the prompts each plugin offers.
pub fn prompts_list_response(id: JsonValue, listing: &Vec<(String, Vec<PromptDefinition>)>) -> (r: JsonValue)
    ensures
        r.deep() == rpc_result(
            id.deep(),
            JsonSpec::Object(seq![("prompts"@, JsonSpec::Array(prompt_entries(listing@)))]),
        ),
{
    let mut all: Vec<JsonValue> = Vec::new();
    proof {
        lemma_deep_seq_empty();
    }
    let mut i: usize = 0;
    while i < listing.len()
        invariant
            i <= listing@.len(),
            deep_seq(all@) == prompt_entries(listing@.take(i as int)),
        decreases listing.len() - i,
    {
        let ns = &listing[i].0;
        let items = &listing[i].1;
        let ghost base = deep_seq(all@);
        let mut j: usize = 0;
        while j < items.len()
            invariant
                j <= items@.len(),
                deep_seq(all@) == base + items@.take(j as int).map_values(
                    |x: PromptDefinition| prompt_entry(ns@, x),
                ),
            decreases items.len() - j,
        {
            let x = &items[j];
            let e = object3(
                "name",
                JsonValue::Str(namespaced_exec(ns.as_str(), x.name.as_str())),
                "description",
                jstr(x.description.as_str()),
                "arguments",
                arguments_json(&x.arguments),
            );
            push_value(&mut all, e);
            j = j + 1;
            assert(items@.take(j as int).map_values(|x: PromptDefinition| prompt_entry(ns@, x))
                =~= items@.take(j - 1).map_values(|x: PromptDefinition| prompt_entry(ns@, x)).push(
                prompt_entry(ns@, items@[j - 1]),
            ));
        }
        assert(items@.take(items@.len() as int) =~= items@);
        assert(listing@.take(i + 1).drop_last() =~= listing@.take(i as int));
        i = i + 1;
    }
    assert(listing@.take(listing@.len() as int) =~= listing@);
    let body = object1("prompts", JsonValue::Array(all));
    result_response(id, body)
}

/// The `content` of a tool result: the result's own `content` array, or a
/// single text item holding the result's JSON text.
pub open spec fn call_content(result: JsonValue, text: Seq<char>) -> JsonSpec {
    match result.field("content"@) {
        Some(JsonValue::Array(v)) => JsonSpec::Array(deep_seq(v@)),
        _ => JsonSpec::Array(
            seq![JsonSpec::Object(seq![("type"@, JsonSpec::Str("text"@)), ("text"@, JsonSpec::Str(text))])],
        ),
    }
}

/// Whether a tool result flags itself as an error.
pub open spec fn call_is_error(result: JsonValue) -> bool {
    match result.field("isError"@) {
        Some(JsonValue::Bool(b)) => b,
        _ => false,
    }
}

/// The reply to `tools/call`. `outcome` is the tool's result with its
/// compact JSON text, or the text of the error the plugin raised.
pub fn call_tool_response(id: JsonValue, outcome: Result<(JsonValue, String), String>) -> (r: JsonValue)
    ensures
        match outcome {
            Ok((result, text)) => r.deep() == rpc_result(
                id.deep(),
                JsonSpec::Object(
                    seq![
                        ("content"@, call_content(result, text@)),
                        ("isError"@, JsonSpec::Bool(call_is_error(result))),
                    ],
                ),
            ),
            Err(msg) => r.deep() == rpc_error(id.deep(), "-32000"@, msg@),
        },
{
    match outcome {
        Err(msg) => error_response(id, "-32000", msg.as_str()),
        Ok((result, text)) => {
            let content = match result.get("content") {
                Some(c) => match c.as_array() {
                    Some(_) => c.duplicate(),
                    None => {
                        let item = object2("type", jstr("text"), "text", jstr(text.as_str()));
                        let mut a: Vec<JsonValue> = Vec::new();
                        proof {
                            lemma_deep_seq_empty();
                        }
                        push_value(&mut a, item);
                        JsonValue::Array(a)
                    },
                },
                None => {
                    let item = object2("type", jstr("text"), "text", jstr(text.as_str()));
                    let mut a: Vec<JsonValue> = Vec::new();
                    proof {
                        lemma_deep_seq_empty();
                    }
                    push_value(&mut a, item);
                    JsonValue::Array(a)
                },
            };
            let is_error = match result.get("isError") {
                Some(b) => match b.as_bool() {
                    Some(x) => x,
                    None => false,
                },
                None => false,
            };
            let body = object2("content", content, "isError", JsonValue::Bool(is_error));
            result_response(id, body)
        },
    }
}

/// The reply to `resources/read` and `prompts/get`: the plugin's value, or
/// the text of the error it raised.
pub fn value_response(id: JsonValue, outcome: Result<JsonValue, String>) -> (r: JsonValue)
    ensures
        match outcome {
            Ok(v) => r.deep() == rpc_result(id.deep(), v.deep()),
            Err(msg) => r.deep() == rpc_error(id.deep(), "-32000"@, msg@),
        },
{
    match outcome {
        Ok(v) => result_response(id, v),
        Err(msg) => error_response(id, "-32000", msg.as_str()),
    }
}

} // verus!
