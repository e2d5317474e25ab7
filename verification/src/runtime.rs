//! How plugins are run: the sandbox a WebAssembly plugin gets, the host
//! functions it may call, and the JSON-RPC exchange with a native sidecar.
use vstd::prelude::*;
use vstd::string::*;
use crate::json::{str_of, str_or, str_or_exec, opt_string, JsonSpec, JsonValue};
use crate::keyed::{get_value, lookup};
use crate::manifest::{opt_view, PluginInfo, PluginManifest};
use crate::package::{join_path, join_spec};
use crate::protocol::{object2, object4, jstr};
use crate::provision::{allowed, is_allowed, ProvisionError};
use crate::registry::texts;
use crate::text::{
    append_str, chars_of, decimal, decimal_text, eq_ignore_ascii_case, eq_ignore_ascii_case_exec, string_of, string_of_range, to_owned, trim, trim_exec,
};

verus! {

/// Why a plugin could not be loaded or run.
#[derive(Debug)]
pub enum RuntimeError {
    /// The plugin's file is missing.
    FileNotFound(String),
    /// The WebAssembly runtime refused the module.
    ExtismInit(String),
    /// The plugin failed while running.
    Execution(String),
    /// A message could not be read or written as JSON.
    Json(String),
    /// A file or process operation failed.
    Io(String),
    /// A binary the plugin needs could not be provided.
    Provision(String),
}

impl RuntimeError {
    /// The message shown for this error.
    pub open spec fn text(self) -> Seq<char> {
        match self {
            RuntimeError::FileNotFound(s) => "Plugin file not found: "@ + s@,
            RuntimeError::ExtismInit(s) => "Failed to initialize Extism plugin: "@ + s@,
            RuntimeError::Execution(s) => "Execution failed: "@ + s@,
            RuntimeError::Json(s) => "JSON serialization error: "@ + s@,
            RuntimeError::Io(s) => "IO error: "@ + s@,
            RuntimeError::Provision(s) => "Provision error: "@ + s@,
        }
    }

    /// The message shown for this error.
    pub fn message(&self) -> (r: String)
        ensures
            r@ == self.text(),
    {
        let (head, body) = match self {
            RuntimeError::FileNotFound(s) => ("Plugin file not found: ", s),
            RuntimeError::ExtismInit(s) => ("Failed to initialize Extism plugin: ", s),
            RuntimeError::Execution(s) => ("Execution failed: ", s),
            RuntimeError::Json(s) => ("JSON serialization error: ", s),
            RuntimeError::Io(s) => ("IO error: ", s),
            RuntimeError::Provision(s) => ("Provision error: ", s),
        };
        let mut r = to_owned(head);
        append_str(&mut r, body.as_str());
        r
    }
}

// ---------------------------------------------------------------------------
// Parameters
// ---------------------------------------------------------------------------

/// The value of the first parameter whose name equals `key` up to ASCII
/// case.
pub open spec fn lookup_ignoring_case(params: Seq<(String, String)>, key: Seq<char>) -> Option<Seq<char>>
    decreases params.len(),
{
    if params.len() == 0 {
        None
    } else if eq_ignore_ascii_case(params[0].0@, key) {
        Some(params[0].1@)
    } else {
        lookup_ignoring_case(params.drop_first(), key)
    }
}

/// The parameter `key`: the one named exactly so, else the first one named
/// so up to ASCII case.
pub open spec fn param_spec(params: Seq<(String, String)>, key: Seq<char>) -> Option<Seq<char>> {
    match lookup(params, key) {
        Some(v) => Some(v@),
        None => lookup_ignoring_case(params, key),
    }
}

/// The parameter `key`, looked up as [`param_spec`] says.
pub fn get_param(params: &Vec<(String, String)>, key: &str) -> (r: Option<String>)
    ensures
        opt_view(r) == param_spec(params@, key@),
{
    match get_value(params, key) {
        Some(v) => return Some(to_owned(v.as_str())),
        None => {},
    }
    let mut i: usize = 0;
    assert(params@.subrange(0, params@.len() as int) =~= params@);
    while i < params.len()
        invariant
            i <= params@.len(),
            lookup(params@, key@) is None,
            lookup_ignoring_case(params@, key@) == lookup_ignoring_case(
                params@.subrange(i as int, params@.len() as int),
                key@,
            ),
        decreases params.len() - i,
    {
        let ghost rest = params@.subrange(i as int, params@.len() as int);
        assert(rest[0] == params@[i as int]);
        if eq_ignore_ascii_case_exec(params[i].0.as_str(), key) {
            return Some(to_owned(params[i].1.as_str()));
        }
        assert(rest.drop_first() =~= params@.subrange(i + 1, params@.len() as int));
        i = i + 1;
    }
    None
}

// ---------------------------------------------------------------------------
// Comma-separated lists
// ---------------------------------------------------------------------------

/// The pieces of `s` between occurrences of `c`, as `str::split` yields
/// them: one more piece than there are occurrences.
pub open spec fn split_all(s: Seq<char>, c: char) -> Seq<Seq<char>>
    decreases s.len(),
{
    if s.len() == 0 {
        seq![Seq::empty()]
    } else {
        let p = split_all(s.drop_last(), c);
        if s.last() == c {
            p.push(Seq::empty())
        } else {
            p.update(p.len() - 1, p.last().push(s.last()))
        }
    }
}

/// There is always at least one piece.
pub proof fn lemma_split_all_len(s: Seq<char>, c: char)
    ensures
        split_all(s, c).len() >= 1,
    decreases s.len(),
{
    if s.len() > 0 {
        lemma_split_all_len(s.drop_last(), c);
    }
}

/// The pieces without surrounding whitespace, leaving out those that are
/// then empty.
pub open spec fn nonblank_trimmed(ps: Seq<Seq<char>>) -> Seq<Seq<char>>
    decreases ps.len(),
{
    if ps.len() == 0 {
        Seq::empty()
    } else {
        let r = nonblank_trimmed(ps.drop_last());
        let t = trim(ps.last());
        if t.len() > 0 {
            r.push(t)
        } else {
            r
        }
    }
}

/// The items of a comma-separated list: the pieces, trimmed, without the
/// blank ones.
pub open spec fn list_items(s: Seq<char>) -> Seq<Seq<char>> {
    nonblank_trimmed(split_all(s, ','))
}

/// No item of a trimmed list is blank, and none has surrounding
/// whitespace.
pub proof fn lemma_nonblank_trimmed(ps: Seq<Seq<char>>)
    ensures
        forall|i: int| 0 <= i < nonblank_trimmed(ps).len() ==> #[trigger] nonblank_trimmed(ps)[i].len() > 0
            && trim(nonblank_trimmed(ps)[i]) == nonblank_trimmed(ps)[i],
    decreases ps.len(),
{
    if ps.len() > 0 {
        lemma_nonblank_trimmed(ps.drop_last());
        crate::text::lemma_trim_idempotent(ps.last());
        let r = nonblank_trimmed(ps.drop_last());
        assert forall|i: int| 0 <= i < nonblank_trimmed(ps).len() implies #[trigger] nonblank_trimmed(ps)[i].len() > 0
            && trim(nonblank_trimmed(ps)[i]) == nonblank_trimmed(ps)[i] by {
            if i < r.len() {
                assert(nonblank_trimmed(ps)[i] == r[i]);
            }
        }
    }
}

/// No item of a comma-separated list is blank or carries surrounding
/// whitespace.
pub proof fn lemma_list_items_nonblank(s: Seq<char>)
    ensures
        forall|i: int| 0 <= i < list_items(s).len() ==> #[trigger] list_items(s)[i].len() > 0 && trim(
            list_items(s)[i],
        ) == list_items(s)[i],
{
    lemma_nonblank_trimmed(split_all(s, ','));
}

/// The items of a comma-separated list.
pub fn split_list(s: &str) -> (r: Vec<String>)
    ensures
        texts(r@) == list_items(s@),
{
    let v = chars_of(s);
    let mut out: Vec<String> = Vec::new();
    let mut cur: Vec<char> = Vec::new();
    let mut i: usize = 0;
    proof {
        lemma_split_all_len(v@.take(0), ',');
        assert(v@.take(0) =~= Seq::<char>::empty());
        assert(texts(out@) =~= Seq::<Seq<char>>::empty());
        assert(split_all(v@.take(0), ',').drop_last() =~= Seq::<Seq<char>>::empty());
    }
    while i < v.len()
        invariant
            i <= v@.len(),
            v@ == s@,
            split_all(v@.take(i as int), ',').len() >= 1,
            texts(out@) == nonblank_trimmed(split_all(v@.take(i as int), ',').drop_last()),
            split_all(v@.take(i as int), ',').last() == cur@,
        decreases v.len() - i,
    {
        let ghost p = split_all(v@.take(i as int), ',');
        assert(v@.take(i + 1).drop_last() =~= v@.take(i as int));
        let x = v[i];
        if x == ',' {
            let piece = string_of(&cur);
            let t = trim_exec(piece.as_str());
            let ghost before = out@;
            if t.as_str().unicode_len() > 0 {
                out.push(t);
                assert(texts(out@) =~= texts(before).push(trim(cur@)));
            }
            assert(p.push(Seq::<char>::empty()).drop_last() =~= p);
            assert(p.drop_last().push(p.last()) =~= p);
            cur = Vec::new();
            assert(cur@ =~= Seq::<char>::empty());
        } else {
            let ghost q = p.update(p.len() - 1, p.last().push(x));
            assert(q.drop_last() =~= p.drop_last());
            push_char_vec(&mut cur, x);
        }
        i = i + 1;
    }
    assert(v@.take(v@.len() as int) =~= v@);
    let piece = string_of(&cur);
    let t = trim_exec(piece.as_str());
    let ghost before = out@;
    proof {
        let p = split_all(v@, ',');
        assert(p.drop_last().push(p.last()) =~= p);
    }
    if t.as_str().unicode_len() > 0 {
        out.push(t);
        assert(texts(out@) =~= texts(before).push(trim(cur@)));
    }
    out
}

fn push_char_vec(v: &mut Vec<char>, c: char)
    ensures
        final(v)@ == old(v)@.push(c),
{
    v.push(c);
}

// ---------------------------------------------------------------------------
// The sandbox of a WebAssembly plugin
// ---------------------------------------------------------------------------

/// What a WebAssembly plugin may reach.
#[derive(Debug)]
pub struct SandboxPolicy {
    /// The hosts it may connect to; `*` stands for any host.
    pub allowed_hosts: Vec<String>,
    /// The directory it may read and write, mapped to itself.
    pub allowed_dir: String,
}

/// The hosts a plugin may reach: those its manifest names, then those of
/// the `allowed_hosts` parameter; any host when that leaves none; and the
/// printer's address when a non-empty `printer_ip` parameter is given.
pub open spec fn hosts_spec(manifest_hosts: Seq<Seq<char>>, params: Seq<(String, String)>) -> Seq<Seq<char>> {
    let listed = manifest_hosts + match param_spec(params, "allowed_hosts"@) {
        Some(h) => list_items(h),
        None => Seq::empty(),
    };
    let base = if listed.len() == 0 {
        seq!["*"@]
    } else {
        listed
    };
    match param_spec(params, "printer_ip"@) {
        Some(ip) => if ip.len() > 0 {
            base.push(ip)
        } else {
            base
        },
        None => base,
    }
}

/// Every host the manifest names and every item of the `allowed_hosts`
/// parameter is allowed, whatever the other names; when together they name
/// no host, any host (`*`) is; otherwise `*` is allowed only when the
/// manifest, the parameter or the `printer_ip` parameter names it.
pub proof fn lemma_named_hosts_allowed(manifest_hosts: Seq<Seq<char>>, params: Seq<(String, String)>)
    ensures
        forall|i: int| 0 <= i < manifest_hosts.len() ==> hosts_spec(manifest_hosts, params).contains(
            #[trigger] manifest_hosts[i],
        ),
        forall|h: Seq<char>, i: int|
            param_spec(params, "allowed_hosts"@) == Some(h) && 0 <= i < list_items(h).len() ==> hosts_spec(
                manifest_hosts,
                params,
            ).contains(#[trigger] list_items(h)[i]),
        manifest_hosts.len() == 0 && (param_spec(params, "allowed_hosts"@) matches Some(h) ==> list_items(h).len()
            == 0) ==> hosts_spec(manifest_hosts, params).contains("*"@),
        hosts_spec(manifest_hosts, params).contains("*"@) ==> {
            ||| manifest_hosts.len() == 0 && (param_spec(params, "allowed_hosts"@) matches Some(h) ==> list_items(
                h,
            ).len() == 0)
            ||| manifest_hosts.contains("*"@)
            ||| (param_spec(params, "allowed_hosts"@) matches Some(h) && list_items(h).contains("*"@))
            ||| param_spec(params, "printer_ip"@) == Some("*"@)
        },
{
    let items = match param_spec(params, "allowed_hosts"@) {
        Some(h) => list_items(h),
        None => Seq::<Seq<char>>::empty(),
    };
    let listed = manifest_hosts + items;
    let base = if listed.len() == 0 {
        seq!["*"@]
    } else {
        listed
    };
    let r = hosts_spec(manifest_hosts, params);
    assert(r == base || r == base.push(r.last()) && param_spec(params, "printer_ip"@) == Some(r.last()));
    assert forall|i: int| 0 <= i < manifest_hosts.len() implies r.contains(#[trigger] manifest_hosts[i]) by {
        assert(listed[i] == manifest_hosts[i]);
        assert(base[i] == manifest_hosts[i]);
        if r != base {
            assert(r[i] == base[i]);
        }
    }
    assert forall|h: Seq<char>, i: int|
        param_spec(params, "allowed_hosts"@) == Some(h) && 0 <= i < list_items(h).len() implies r.contains(
            #[trigger] list_items(h)[i],
        ) by {
        let j = manifest_hosts.len() + i;
        assert(listed[j] == list_items(h)[i]);
        assert(base[j] == list_items(h)[i]);
        if r != base {
            assert(r[j] == base[j]);
        }
    }
    if listed.len() == 0 {
        assert(base[0] == "*"@);
        if r != base {
            assert(r[0] == base[0]);
        }
        assert(r.contains("*"@));
    }
    if r.contains("*"@) && listed.len() > 0 {
        let k = choose|k: int| 0 <= k < r.len() && r[k] == "*"@;
        if k < listed.len() {
            if r != base {
                assert(r[k] == base[k]);
            }
            if k < manifest_hosts.len() {
                assert(listed[k] == manifest_hosts[k]);
                assert(manifest_hosts.contains("*"@));
            } else {
                assert(listed[k] == items[k - manifest_hosts.len()]);
                assert(items.contains("*"@));
            }
        } else {
            assert(r != base);
            assert(k == r.len() - 1);
        }
    }
}

/// The root directory the manifest lets a parameter name.
pub open spec fn fs_root(manifest: PluginManifest, params: Seq<(String, String)>) -> Option<Seq<char>> {
    match manifest.capabilities.filesystem {
        Some(fs) => match fs.root_param {
            Some(k) => param_spec(params, k@),
            None => None,
        },
        None => None,
    }
}

/// The directory a plugin may use: the root its manifest's parameter
/// names, else the `allowed_dir` parameter, else the working directory.
pub open spec fn dir_spec(manifest: PluginManifest, params: Seq<(String, String)>) -> Seq<char> {
    match fs_root(manifest, params) {
        Some(r) => r,
        None => match param_spec(params, "allowed_dir"@) {
            Some(d) => d,
            None => "."@,
        },
    }
}

/// What a WebAssembly plugin with this manifest and these parameters may
/// reach.
pub fn sandbox_policy(manifest: &PluginManifest, params: &Vec<(String, String)>) -> (r: SandboxPolicy)
    ensures
        texts(r.allowed_hosts@) == hosts_spec(texts(manifest.capabilities.network_hosts@), params@),
        r.allowed_dir@ == dir_spec(*manifest, params@),
{
    let mut hosts: Vec<String> = Vec::new();
    let mhosts = &manifest.capabilities.network_hosts;
    let mut i: usize = 0;
    while i < mhosts.len()
        invariant
            i <= mhosts@.len(),
            texts(hosts@) == texts(mhosts@.take(i as int)),
        decreases mhosts.len() - i,
    {
        let ghost before = hosts@;
        hosts.push(to_owned(mhosts[i].as_str()));
        assert(texts(hosts@) =~= texts(before).push(mhosts@[i as int]@));
        assert(texts(mhosts@.take(i + 1)) =~= texts(mhosts@.take(i as int)).push(mhosts@[i as int]@));
        i = i + 1;
    }
    assert(mhosts@.take(mhosts@.len() as int) =~= mhosts@);
    match get_param(params, "allowed_hosts") {
        Some(h) => {
            let items = split_list(h.as_str());
            let mut j: usize = 0;
            let ghost start = hosts@;
            while j < items.len()
                invariant
                    j <= items@.len(),
                    texts(hosts@) == texts(start) + texts(items@.take(j as int)),
                decreases items.len() - j,
            {
                let ghost before = hosts@;
                hosts.push(to_owned(items[j].as_str()));
                assert(texts(hosts@) =~= texts(before).push(items@[j as int]@));
                assert(texts(items@.take(j + 1)) =~= texts(items@.take(j as int)).push(items@[j as int]@));
                j = j + 1;
            }
            assert(items@.take(items@.len() as int) =~= items@);
        },
        None => {
            assert(texts(hosts@) =~= texts(hosts@) + Seq::<Seq<char>>::empty());
        },
    }
    if hosts.len() == 0 {
        hosts.push(to_owned("*"));
        assert(texts(hosts@) =~= seq!["*"@]);
    }
    match get_param(params, "printer_ip") {
        Some(ip) => if ip.as_str().unicode_len() > 0 {
            let ghost before = hosts@;
            hosts.push(ip);
            assert(texts(hosts@) =~= texts(before).push(hosts@.last()@));
        },
        None => {},
    }
    let root = match &manifest.capabilities.filesystem {
        Some(fs) => match &fs.root_param {
            Some(k) => get_param(params, k.as_str()),
            None => None,
        },
        None => None,
    };
    let allowed_dir = match root {
        Some(r) => r,
        None => match get_param(params, "allowed_dir") {
            Some(d) => d,
            None => to_owned("."),
        },
    };
    SandboxPolicy { allowed_hosts: hosts, allowed_dir }
}

// ---------------------------------------------------------------------------
// Host functions
// ---------------------------------------------------------------------------

/// A request from a plugin to run a host command.
#[derive(Debug)]
pub struct CmdExecRequest {
    pub program: String,
    pub args: Vec<String>,
    pub cwd: Option<String>,
}

/// The outcome of a host command.
#[derive(Debug)]
pub struct CmdExecResponse {
    pub success: bool,
    pub exit_code: Option<i32>,
    pub stdout: String,
    pub stderr: String,
}

/// A request from a plugin to its companion sidecar.
#[derive(Debug)]
pub struct SidecarExecRequest {
    pub method: String,
    pub params: JsonValue,
}

/// The answer to a request for a program the plugin may not run; `None`
/// when it may run it.
pub fn command_gate(allowed_binaries: &Vec<String>, program: &str) -> (r: Option<CmdExecResponse>)
    ensures
        allowed(allowed_binaries@, program@) <==> r is None,
        r matches Some(resp) ==> !resp.success && resp.exit_code == Some(1i32) && resp.stdout@.len() == 0
            && resp.stderr@ == "Unauthorized execution: '"@ + program@
            + "' is not in capabilities.exec.allowed_binaries"@,
{
    if is_allowed(allowed_binaries, program) {
        return None;
    }
    let mut stderr = to_owned("Unauthorized execution: '");
    append_str(&mut stderr, program);
    append_str(&mut stderr, "' is not in capabilities.exec.allowed_binaries");
    Some(CmdExecResponse { success: false, exit_code: Some(1), stdout: String::new(), stderr })
}

/// The files tried, in order, for a program named by a relative path: the
/// plugin's companion `rune-<program>-native` (and its `.exe`), then the
/// program itself (and its `.exe`), all in the plugins directory.
pub fn program_candidates(plugins_dir: &str, program: &str) -> (r: Vec<String>)
    ensures
        r@.len() == 4,
        r@[0]@ == join_spec(plugins_dir@, "rune-"@ + program@ + "-native"@),
        r@[1]@ == join_spec(plugins_dir@, "rune-"@ + program@ + "-native.exe"@),
        r@[2]@ == join_spec(plugins_dir@, program@),
        r@[3]@ == join_spec(plugins_dir@, program@ + ".exe"@),
{
    let mut native = to_owned("rune-");
    append_str(&mut native, program);
    append_str(&mut native, "-native");
    let mut native_exe = to_owned("rune-");
    append_str(&mut native_exe, program);
    append_str(&mut native_exe, "-native.exe");
    let mut exe = to_owned(program);
    append_str(&mut exe, ".exe");
    let mut r: Vec<String> = Vec::new();
    r.push(join_path(plugins_dir, native.as_str()));
    r.push(join_path(plugins_dir, native_exe.as_str()));
    r.push(join_path(plugins_dir, program));
    r.push(join_path(plugins_dir, exe.as_str()));
    r
}

/// The name of a plugin's companion sidecar.
pub open spec fn sidecar_name(plugin: Seq<char>) -> Seq<char> {
    "rune-"@ + plugin + "-native"@
}

/// The files tried, in order, for a plugin's companion sidecar.
pub fn sidecar_candidates(plugins_dir: &str, plugin: &str) -> (r: Vec<String>)
    ensures
        r@.len() == 3,
        r@[0]@ == join_spec(plugins_dir@, sidecar_name(plugin@)),
        r@[1]@ == join_spec(plugins_dir@, sidecar_name(plugin@) + ".exe"@),
        r@[2]@ == join_spec(plugins_dir@, plugin@),
{
    let mut name = to_owned("rune-");
    append_str(&mut name, plugin);
    append_str(&mut name, "-native");
    let mut exe = to_owned(name.as_str());
    append_str(&mut exe, ".exe");
    let mut r: Vec<String> = Vec::new();
    r.push(join_path(plugins_dir, name.as_str()));
    r.push(join_path(plugins_dir, exe.as_str()));
    r.push(join_path(plugins_dir, plugin));
    r
}

/// The message given when no companion sidecar exists.
pub fn missing_sidecar_message(plugin: &str) -> (r: String)
    ensures
        r@ == "Companion native sidecar '"@ + sidecar_name(plugin@) + "' not found in plugin directory"@,
{
    let mut r = to_owned("Companion native sidecar 'rune-");
    append_str(&mut r, plugin);
    append_str(&mut r, "-native' not found in plugin directory");
    proof {
        reveal_strlit("Companion native sidecar 'rune-");
        reveal_strlit("Companion native sidecar '");
        reveal_strlit("rune-");
        reveal_strlit("-native");
        reveal_strlit("-native' not found in plugin directory");
        reveal_strlit("' not found in plugin directory");
    }
    assert(r@ =~= "Companion native sidecar '"@ + sidecar_name(plugin@) + "' not found in plugin directory"@);
    r
}

/// `s` without the copies of `c` at its front.
pub open spec fn strip_leading(s: Seq<char>, c: char) -> Seq<char>
    decreases s.len(),
{
    if s.len() > 0 && s[0] == c {
        strip_leading(s.drop_first(), c)
    } else {
        s
    }
}

/// `s` without the copies of `c` at its end.
pub open spec fn strip_trailing(s: Seq<char>, c: char) -> Seq<char>
    decreases s.len(),
{
    if s.len() > 0 && s.last() == c {
        strip_trailing(s.drop_last(), c)
    } else {
        s
    }
}

/// The binary a plugin asks the path of: its request without surrounding
/// whitespace and then without surrounding double quotes.
pub open spec fn requested_binary_spec(input: Seq<char>) -> Seq<char> {
    strip_trailing(strip_leading(trim(input), '"'), '"')
}

/// The binary a plugin asks the path of.
pub fn requested_binary(input: &str) -> (r: String)
    ensures
        r@ == requested_binary_spec(input@),
{
    let t = trim_exec(input);
    let v = chars_of(t.as_str());
    let mut lo: usize = 0;
    assert(v@.subrange(0, v@.len() as int) =~= v@);
    while lo < v.len() && v[lo] == '"'
        invariant
            lo <= v@.len(),
            v@ == t@,
            strip_leading(t@, '"') == strip_leading(v@.subrange(lo as int, v@.len() as int), '"'),
        decreases v.len() - lo,
    {
        assert(v@.subrange(lo as int, v@.len() as int).drop_first() =~= v@.subrange(lo + 1, v@.len() as int));
        lo = lo + 1;
    }
    let mut hi: usize = v.len();
    while hi > lo && v[hi - 1] == '"'
        invariant
            lo <= hi <= v@.len(),
            strip_leading(t@, '"') == v@.subrange(lo as int, v@.len() as int),
            strip_trailing(v@.subrange(lo as int, v@.len() as int), '"') == strip_trailing(
                v@.subrange(lo as int, hi as int),
                '"',
            ),
        decreases hi,
    {
        assert(v@.subrange(lo as int, hi as int).drop_last() =~= v@.subrange(lo as int, hi - 1));
        hi = hi - 1;
    }
    string_of_range(&v, lo, hi)
}

/// The reply to a plugin that asked where binary `name` lies: its path, or
/// the reason it cannot be had.
pub open spec fn binary_path_reply_spec(name: Seq<char>, outcome: Result<Seq<char>, ProvisionError>) -> JsonSpec {
    match outcome {
        Ok(path) => JsonSpec::Object(seq![("status"@, JsonSpec::Str("ok"@)), ("path"@, JsonSpec::Str(path))]),
        Err(ProvisionError::InProgress { progress_percent, eta_seconds, .. }) => JsonSpec::Object(
            seq![
                ("status"@, JsonSpec::Str("error"@)),
                (
                    "error"@,
                    JsonSpec::Str(
                        name + " is currently being provisioned ("@ + decimal(progress_percent as nat)
                            + "% downloaded). Please retry in "@ + decimal(eta_seconds as nat) + " seconds."@,
                    ),
                ),
            ],
        ),
        Err(e) => JsonSpec::Object(seq![("status"@, JsonSpec::Str("error"@)), ("error"@, JsonSpec::Str(e.text()))]),
    }
}

/// The path outcome as plain values.
pub open spec fn path_outcome(o: Result<String, ProvisionError>) -> Result<Seq<char>, ProvisionError> {
    match o {
        Ok(p) => Ok(p@),
        Err(e) => Err(e),
    }
}

/// The reply to a plugin that asked where binary `name` lies.
pub fn binary_path_reply(name: &str, outcome: &Result<String, ProvisionError>) -> (r: JsonValue)
    ensures
        r.deep() == binary_path_reply_spec(name@, path_outcome(*outcome)),
{
    match outcome {
        Ok(path) => object2("status", jstr("ok"), "path", jstr(path.as_str())),
        Err(ProvisionError::InProgress { progress_percent, eta_seconds, .. }) => {
            let mut m = to_owned(name);
            append_str(&mut m, " is currently being provisioned (");
            let p = decimal_text(*progress_percent as u64);
            append_str(&mut m, p.as_str());
            append_str(&mut m, "% downloaded). Please retry in ");
            let e = decimal_text(*eta_seconds);
            append_str(&mut m, e.as_str());
            append_str(&mut m, " seconds.");
            object2("status", jstr("error"), "error", jstr(m.as_str()))
        },
        Err(e) => {
            let m = e.message();
            object2("status", jstr("error"), "error", jstr(m.as_str()))
        },
    }
}

// ---------------------------------------------------------------------------
// The exchange with a native sidecar
// ---------------------------------------------------------------------------

/// The JSON-RPC request with number `id` that calls `method` with `params`.
pub fn sidecar_request(id: u64, method: &str, params: JsonValue) -> (r: JsonValue)
    ensures
        r.deep() == JsonSpec::Object(
            seq![
                ("jsonrpc"@, JsonSpec::Str("2.0"@)),
                ("id"@, JsonSpec::Number(decimal(id as nat))),
                ("method"@, JsonSpec::Str(method@)),
                ("params"@, params.deep()),
            ],
        ),
{
    let n = decimal_text(id);
    object4("jsonrpc", jstr("2.0"), "id", JsonValue::Number(n), "method", jstr(method), "params", params)
}

/// A line the sidecar wrote that may hold its reply: the line without
/// surrounding whitespace, unless that leaves nothing.
pub fn reply_line(line: &str) -> (r: Option<String>)
    ensures
        match r {
            Some(t) => t@ == trim(line@) && t@.len() > 0,
            None => trim(line@).len() == 0,
        },
{
    let t = trim_exec(line);
    if t.as_str().unicode_len() == 0 {
        None
    } else {
        Some(t)
    }
}

/// What a sidecar line that parsed as JSON counts as: the reply when it is
/// a JSON object; any other value is skipped.
pub fn accept_reply(parsed: JsonValue) -> (r: Option<JsonValue>)
    ensures
        r is Some <==> parsed is Object,
        r matches Some(v) ==> v == parsed,
{
    if parsed.is_object() {
        Some(parsed)
    } else {
        None
    }
}

/// The part of a reply that holds the result: its `result`, or the whole
/// reply when it has none.
pub open spec fn reply_body(resp: JsonValue) -> JsonValue {
    match resp.field("result"@) {
        Some(r) => r,
        None => resp,
    }
}

/// The part of a reply that holds the result.
pub fn reply_body_exec(resp: &JsonValue) -> (r: &JsonValue)
    ensures
        *r == reply_body(*resp),
{
    match resp.get("result") {
        Some(r) => r,
        None => resp,
    }
}

/// The listing under `key` in a reply's result, or the whole result when
/// it has no such field.
pub open spec fn reply_listing(resp: JsonValue, key: Seq<char>) -> JsonValue {
    match reply_body(resp).field(key) {
        Some(v) => v,
        None => reply_body(resp),
    }
}

/// The listing under `key` in a reply's result.
pub fn reply_listing_exec<'a>(resp: &'a JsonValue, key: &str) -> (r: &'a JsonValue)
    ensures
        *r == reply_listing(*resp, key@),
{
    let body = reply_body_exec(resp);
    match body.get(key) {
        Some(v) => v,
        None => body,
    }
}

/// The result of a reply that reports no error; none when it reports one.
pub fn optional_reply(resp: &JsonValue) -> (r: Option<&JsonValue>)
    ensures
        match resp.field("error"@) {
            Some(_) => r is None,
            None => r matches Some(b) && *b == reply_body(*resp),
        },
{
    match resp.get("error") {
        Some(_) => None,
        None => Some(reply_body_exec(resp)),
    }
}

/// Where a sidecar describes itself: the `serverInfo` of its result, or
/// the result itself.
pub open spec fn info_source(resp: JsonValue) -> JsonValue {
    match reply_body(resp).field("serverInfo"@) {
        Some(v) => v,
        None => reply_body(resp),
    }
}

/// What a sidecar's reply to `initialize` says of it: its name (the
/// plugin's own name when it gives none), its version (`0.1.0` when it
/// gives none) and its description; or the error it reported.
pub fn sidecar_info<'a>(resp: &'a JsonValue, default_name: &str) -> (r: Result<PluginInfo, &'a JsonValue>)
    ensures
        match resp.field("error"@) {
            Some(e) => r matches Err(x) && *x == e,
            None => r matches Ok(info) && info.name@ == str_or(info_source(*resp).field("name"@), default_name@)
                && info.version@ == str_or(info_source(*resp).field("version"@), "0.1.0"@) && opt_view(
                info.description,
            ) == str_of(info_source(*resp).field("description"@)),
        },
{
    match resp.get("error") {
        Some(e) => return Err(e),
        None => {},
    }
    let body = reply_body_exec(resp);
    let src = match body.get("serverInfo") {
        Some(v) => v,
        None => body,
    };
    let name = str_or_exec(src.get("name"), default_name);
    let version = str_or_exec(src.get("version"), "0.1.0");
    let description = opt_string(src.get("description"));
    Ok(PluginInfo { name, version, description })
}

/// What a tool call on a sidecar came to.
#[derive(Debug)]
pub enum CallOutcome {
    /// The sidecar reported an error with this message.
    Failed(String),
    /// The first content item's text; it is read as JSON when it is JSON.
    Text(String),
    /// The result itself.
    Value(JsonValue),
}

/// The text of the first content item of a result, if it has one.
pub open spec fn first_text(body: JsonValue) -> Option<Seq<char>> {
    match body.field("content"@) {
        Some(JsonValue::Array(items)) => if items@.len() > 0 {
            str_of(items@[0].field("text"@))
        } else {
            None
        },
        _ => None,
    }
}

/// What a sidecar's reply to a tool call came to: the message of its error
/// (a fixed text when the error has none); else the text of the first
/// content item; else the result.
pub fn sidecar_call_outcome(resp: &JsonValue) -> (r: CallOutcome)
    ensures
        match resp.field("error"@) {
            Some(e) => r matches CallOutcome::Failed(m) && m@ == str_or(e.field("message"@), "Unknown native execution error"@),
            None => match first_text(reply_body(*resp)) {
                Some(t) => r matches CallOutcome::Text(x) && x@ == t,
                None => r matches CallOutcome::Value(v) && v.deep() == reply_body(*resp).deep(),
            },
        },
{
    match resp.get("error") {
        Some(e) => return CallOutcome::Failed(str_or_exec(e.get("message"), "Unknown native execution error")),
        None => {},
    }
    let body = reply_body_exec(resp);
    match body.get("content") {
        Some(JsonValue::Array(items)) => if items.len() > 0 {
            match items[0].get("text") {
                Some(JsonValue::Str(t)) => return CallOutcome::Text(to_owned(t.as_str())),
                _ => {},
            }
        },
        _ => {},
    }
    CallOutcome::Value(body.duplicate())
}

} // verus!
