//! The decisions of the `rune` command line: reading its arguments and
//! environment, matching search keywords, and labelling what it installed.
use vstd::prelude::*;
use crate::keyed::{insert_value, lookup};
use crate::manifest::{opt_view, ExecutionKind, PluginUpdateStatus, RegistryPluginSummary, RegistrySkillSummary, SkillLockfile};
use crate::text::{
    append_str, ascii_lowercase, ascii_lowercase_exec, chars_of, contains, contains_seq, eq_ignore_ascii_case,
    eq_ignore_ascii_case_exec, find_exec, find_first, lemma_find_from, str_eq, string_of_range, to_owned,
};
use crate::version::{is_newer_version, newer};

verus! {

// ---------------------------------------------------------------------------
// Arguments
// ---------------------------------------------------------------------------

/// The key and value of a `KEY=VALUE` argument, split at its first `=`.
pub open spec fn key_val_spec(s: Seq<char>) -> Option<(Seq<char>, Seq<char>)> {
    match find_first(s, "="@) {
        Some(i) => Some((s.subrange(0, i), s.subrange(i + 1, s.len() as int))),
        None => None,
    }
}

/// Reads a `KEY=VALUE` argument.
pub fn parse_key_val(s: &str) -> (r: Result<(String, String), String>)
    ensures
        match key_val_spec(s@) {
            Some(kv) => r matches Ok(p) && p.0@ == kv.0 && p.1@ == kv.1,
            None => r matches Err(m) && m@ == "Invalid KEY=VALUE pair: "@ + s@,
        },
{
    let v = chars_of(s);
    let mut eq: Vec<char> = Vec::new();
    eq.push('=');
    proof {
        reveal_strlit("=");
        assert(eq@ =~= "="@);
        lemma_find_from(v@, eq@, 0);
    }
    match find_exec(&v, &eq) {
        Some(i) => {
            let n = v.len();
            assert(i + 1 <= n);
            Ok((string_of_range(&v, 0, i), string_of_range(&v, i + 1, n)))
        },
        None => {
            let mut m = to_owned("Invalid KEY=VALUE pair: ");
            append_str(&mut m, s);
            Err(m)
        },
    }
}

/// The command line of `rune`.
#[derive(Debug)]
pub struct Cli {
    pub command: Commands,
}

/// What `rune` is asked to do.
#[derive(Debug)]
pub enum Commands {
    /// Serve one plugin, or all installed ones, over stdio.
    Run { plugin: Option<String>, all: bool, param: Vec<(String, String)> },
    /// Install a plugin or skill from the registry, an address or a path.
    Install { target: String, version: Option<String>, _reserved_for_future: bool },
    /// Remove an installed plugin or skill.
    Uninstall { name: String },
    /// List what is installed.
    List,
    /// List what the registry offers.
    Available,
    /// Search the registry.
    Search { keyword: String },
    /// Update installed artifacts, or only report what could be updated.
    Update { names: Vec<String>, check: bool, _reserved_for_future: bool },
    /// Update the command itself.
    SelfUpdate { check: bool, version: Option<String>, force: bool },
}

/// The names an update is limited to: none when no name is given.
pub fn update_filter(names: &Vec<String>) -> (r: Option<&Vec<String>>)
    ensures
        names@.len() == 0 <==> r is None,
        r matches Some(v) ==> v@ == names@,
{
    if names.len() == 0 {
        None
    } else {
        Some(names)
    }
}

/// Reads the name given to `uninstall`: any text is a name.
pub fn parse_uninstall_name(s: &str) -> (r: Result<String, String>)
    ensures
        r matches Ok(n) && n@ == s@,
{
    Ok(to_owned(s))
}

/// The value the environment gives the parameter `k`: that of the last
/// variable whose name, in ASCII lowercase, is `k`.
pub open spec fn env_value(vars: Seq<(String, String)>, k: Seq<char>) -> Option<Seq<char>>
    decreases vars.len(),
{
    if vars.len() == 0 {
        None
    } else if ascii_lowercase(vars.last().0@) == k {
        Some(vars.last().1@)
    } else {
        env_value(vars.drop_last(), k)
    }
}

/// The parameters the host environment gives every plugin: each variable
/// under its name in ASCII lowercase, the last one winning.
pub fn host_env_params(vars: &Vec<(String, String)>) -> (r: Vec<(String, String)>)
    ensures
        forall|k: Seq<char>| #[trigger] opt_view(lookup(r@, k)) == env_value(vars@, k),
{
    let mut out: Vec<(String, String)> = Vec::new();
    let mut i: usize = 0;
    while i < vars.len()
        invariant
            i <= vars@.len(),
            forall|k: Seq<char>| #[trigger] opt_view(lookup(out@, k)) == env_value(vars@.take(i as int), k),
        decreases vars.len() - i,
    {
        assert(vars@.take(i + 1).drop_last() =~= vars@.take(i as int));
        let key = ascii_lowercase_exec(vars[i].0.as_str());
        let value = to_owned(vars[i].1.as_str());
        insert_value(&mut out, key, value);
        i = i + 1;
    }
    assert(vars@.take(vars@.len() as int) =~= vars@);
    out
}

/// The value of parameter `k` after `extra` is laid over `base`: the last
/// of `extra` named `k`, else `base`'s.
pub open spec fn overlay_value(base: Seq<(String, String)>, extra: Seq<(String, String)>, k: Seq<char>) -> Option<Seq<char>>
    decreases extra.len(),
{
    if extra.len() == 0 {
        opt_view(lookup(base, k))
    } else if extra.last().0@ == k {
        Some(extra.last().1@)
    } else {
        overlay_value(base, extra.drop_last(), k)
    }
}

/// The parameters of a run: those of the environment, overridden by the
/// ones given on the command line.
pub fn overlay_params(base: Vec<(String, String)>, extra: &Vec<(String, String)>) -> (r: Vec<(String, String)>)
    ensures
        forall|k: Seq<char>| #[trigger] opt_view(lookup(r@, k)) == overlay_value(base@, extra@, k),
{
    let ghost b = base@;
    let mut out = base;
    let mut i: usize = 0;
    while i < extra.len()
        invariant
            i <= extra@.len(),
            forall|k: Seq<char>| #[trigger] opt_view(lookup(out@, k)) == overlay_value(b, extra@.take(i as int), k),
        decreases extra.len() - i,
    {
        assert(extra@.take(i + 1).drop_last() =~= extra@.take(i as int));
        insert_value(&mut out, to_owned(extra[i].0.as_str()), to_owned(extra[i].1.as_str()));
        i = i + 1;
    }
    assert(extra@.take(extra@.len() as int) =~= extra@);
    out
}

// ---------------------------------------------------------------------------
// Labels
// ---------------------------------------------------------------------------

/// How an installed plugin is described after installing it.
pub open spec fn kind_label_spec(has_native: bool, kind: ExecutionKind) -> Seq<char> {
    match kind {
        ExecutionKind::Native => "native"@,
        ExecutionKind::Wasm => if has_native {
            "wasm+native"@
        } else {
            "wasm"@
        },
    }
}

/// How an installed plugin is described after installing it.
pub fn kind_label(native_binary_path: &Option<String>, kind: ExecutionKind) -> (r: &'static str)
    ensures
        r@ == kind_label_spec(native_binary_path is Some, kind),
{
    match (native_binary_path, kind) {
        (Some(_), ExecutionKind::Native) => "native",
        (Some(_), ExecutionKind::Wasm) => "wasm+native",
        (None, ExecutionKind::Native) => "native",
        (None, ExecutionKind::Wasm) => "wasm",
    }
}

/// How a plugin given by path is run: a `.wasm` extension means a
/// WebAssembly module, anything else a native binary.
pub fn kind_for_extension(extension: Option<&str>) -> (r: ExecutionKind)
    ensures
        r == if extension matches Some(e) && e@ == "wasm"@ {
            ExecutionKind::Wasm
        } else {
            ExecutionKind::Native
        },
{
    match extension {
        Some(e) => if str_eq(e, "wasm") {
            ExecutionKind::Wasm
        } else {
            ExecutionKind::Native
        },
        None => ExecutionKind::Native,
    }
}

/// How the running version stands to a release.
#[derive(Clone, Copy, Debug, PartialEq, Eq, Structural)]
pub enum ReleaseStanding {
    /// The release is newer: an update is available.
    Newer,
    /// The release is the running version.
    Same,
    /// The running version is newer than the release.
    Older,
}

/// How the running version `current` stands to the release `latest`.
pub fn release_standing(latest: &str, current: &str) -> (r: ReleaseStanding)
    ensures
        r == if newer(latest@, current@) {
            ReleaseStanding::Newer
        } else if latest@ == current@ {
            ReleaseStanding::Same
        } else {
            ReleaseStanding::Older
        },
{
    if is_newer_version(latest, current) {
        ReleaseStanding::Newer
    } else if str_eq(latest, current) {
        ReleaseStanding::Same
    } else {
        ReleaseStanding::Older
    }
}

/// A skill named `name` up to ASCII case is recorded.
pub open spec fn skill_recorded(lockfile: SkillLockfile, name: Seq<char>) -> bool {
    exists|k: int| 0 <= k < lockfile.skills@.len() && eq_ignore_ascii_case(#[trigger] lockfile.skills@[k].0@, name)
}

/// Whether `name` is an installed skill, up to ASCII case.
pub fn is_installed_skill(lockfile: &SkillLockfile, name: &str) -> (r: bool)
    ensures
        r == skill_recorded(*lockfile, name@),
{
    let s = &lockfile.skills;
    let mut k: usize = 0;
    while k < s.len()
        invariant
            k <= s@.len(),
            s@ == lockfile.skills@,
            forall|q: int| 0 <= q < k ==> !eq_ignore_ascii_case(#[trigger] s@[q].0@, name@),
        decreases s.len() - k,
    {
        if eq_ignore_ascii_case_exec(s[k].0.as_str(), name) {
            assert(eq_ignore_ascii_case(lockfile.skills@[k as int].0@, name@));
            return true;
        }
        k = k + 1;
    }
    false
}

/// The statuses that have an update, in their order.
pub open spec fn pending_spec(s: Seq<PluginUpdateStatus>) -> Seq<PluginUpdateStatus>
    decreases s.len(),
{
    if s.len() == 0 {
        Seq::empty()
    } else if s.last().has_update {
        pending_spec(s.drop_last()).push(s.last())
    } else {
        pending_spec(s.drop_last())
    }
}

/// The artifacts that have an update, in order.
pub fn pending_updates(statuses: Vec<PluginUpdateStatus>) -> (r: Vec<PluginUpdateStatus>)
    ensures
        r@ == pending_spec(statuses@),
{
    let ghost orig = statuses@;
    assert(orig.len() == statuses.len());
    let mut rest = statuses;
    let mut out: Vec<PluginUpdateStatus> = Vec::new();
    let mut taken: usize = 0;
    while rest.len() > 0
        invariant
            orig.len() <= usize::MAX,
            taken + rest@.len() == orig.len(),
            rest@ == orig.subrange(taken as int, orig.len() as int),
            out@ == pending_spec(orig.take(taken as int)),
        decreases rest@.len(),
    {
        let ghost before = rest@;
        let x = rest.remove(0);
        assert(orig.take(taken + 1).drop_last() =~= orig.take(taken as int));
        assert(orig.take(taken + 1).last() == x);
        if x.has_update {
            out.push(x);
        }
        taken = taken + 1;
        assert(rest@ =~= orig.subrange(taken as int, orig.len() as int));
    }
    assert(orig.take(orig.len() as int) =~= orig);
    out
}

// ---------------------------------------------------------------------------
// Search
// ---------------------------------------------------------------------------

/// The lowercase form of a text as `str::to_lowercase` computes it (full
/// Unicode case mapping).
pub uninterp spec fn lowercase_of(s: Seq<char>) -> Seq<char>;

/// Calls `str::to_lowercase`; the contract says only that the result is the
/// lowercase form of exactly this text.
#[verifier::external_body]
fn to_lowercase(s: &str) -> (r: String)
    ensures
        r@ == lowercase_of(s@),
{
    s.to_lowercase()
}

/// One match of a registry search.
#[derive(Debug)]
pub struct SearchResult {
    /// `plugin` or `skill`.
    pub ty: String,
    pub name: String,
    pub latest: String,
    /// The description, `-` when there is none.
    pub description: String,
}

/// The content of a search match.
pub open spec fn search_view(r: SearchResult) -> (Seq<char>, Seq<char>, Seq<char>, Seq<char>) {
    (r.ty@, r.name@, r.latest@, r.description@)
}

/// The text of an optional description, empty when there is none.
pub open spec fn desc_or(d: Option<String>, default: Seq<char>) -> Seq<char> {
    match d {
        Some(s) => s@,
        None => default,
    }
}

/// A text matches the lowercased keyword `kw` when its lowercase form holds
/// it.
pub open spec fn text_matches(t: Seq<char>, kw: Seq<char>) -> bool {
    contains_seq(lowercase_of(t), kw)
}

/// A plugin matches when its name or description does.
pub open spec fn plugin_hit(p: RegistryPluginSummary, kw: Seq<char>) -> bool {
    text_matches(p.name@, kw) || text_matches(desc_or(p.description, ""@), kw)
}

/// A skill matches when its name, description or one of its tags does.
pub open spec fn skill_hit(s: RegistrySkillSummary, kw: Seq<char>) -> bool {
    text_matches(s.name@, kw) || text_matches(desc_or(s.description, ""@), kw) || exists|k: int|
        0 <= k < s.tags@.len() && text_matches(#[trigger] s.tags@[k]@, kw)
}

/// The plugins that match, as search results, in order.
pub open spec fn plugin_hits(ps: Seq<RegistryPluginSummary>, kw: Seq<char>) -> Seq<(Seq<char>, Seq<char>, Seq<char>, Seq<char>)>
    decreases ps.len(),
{
    if ps.len() == 0 {
        Seq::empty()
    } else {
        let rest = plugin_hits(ps.drop_last(), kw);
        let p = ps.last();
        if plugin_hit(p, kw) {
            rest.push(("plugin"@, p.name@, p.latest@, desc_or(p.description, "-"@)))
        } else {
            rest
        }
    }
}

/// The skills that match, as search results, in order.
pub open spec fn skill_hits(ss: Seq<RegistrySkillSummary>, kw: Seq<char>) -> Seq<(Seq<char>, Seq<char>, Seq<char>, Seq<char>)>
    decreases ss.len(),
{
    if ss.len() == 0 {
        Seq::empty()
    } else {
        let rest = skill_hits(ss.drop_last(), kw);
        let s = ss.last();
        if skill_hit(s, kw) {
            rest.push(("skill"@, s.name@, s.latest@, desc_or(s.description, "-"@)))
        } else {
            rest
        }
    }
}

/// A matching skill is among the skill results.
proof fn lemma_skill_hit_listed(ss: Seq<RegistrySkillSummary>, kw: Seq<char>, k: int)
    requires
        0 <= k < ss.len(),
        skill_hit(ss[k], kw),
    ensures
        skill_hits(ss, kw).contains(("skill"@, ss[k].name@, ss[k].latest@, desc_or(ss[k].description, "-"@))),
    decreases ss.len(),
{
    let rest = skill_hits(ss.drop_last(), kw);
    if k == ss.len() - 1 {
        assert(skill_hits(ss, kw).last() == ("skill"@, ss[k].name@, ss[k].latest@, desc_or(ss[k].description, "-"@)));
    } else {
        assert(ss.drop_last()[k] == ss[k]);
        lemma_skill_hit_listed(ss.drop_last(), kw, k);
        let x = ("skill"@, ss[k].name@, ss[k].latest@, desc_or(ss[k].description, "-"@));
        let j = choose|j: int| 0 <= j < rest.len() && rest[j] == x;
        assert(skill_hits(ss, kw)[j] == x);
    }
}

/// A matching plugin is among the plugin results.
proof fn lemma_plugin_hit_listed(ps: Seq<RegistryPluginSummary>, kw: Seq<char>, k: int)
    requires
        0 <= k < ps.len(),
        plugin_hit(ps[k], kw),
    ensures
        plugin_hits(ps, kw).contains(("plugin"@, ps[k].name@, ps[k].latest@, desc_or(ps[k].description, "-"@))),
    decreases ps.len(),
{
    let rest = plugin_hits(ps.drop_last(), kw);
    if k == ps.len() - 1 {
        assert(plugin_hits(ps, kw).last() == ("plugin"@, ps[k].name@, ps[k].latest@, desc_or(ps[k].description, "-"@)));
    } else {
        assert(ps.drop_last()[k] == ps[k]);
        lemma_plugin_hit_listed(ps.drop_last(), kw, k);
        let x = ("plugin"@, ps[k].name@, ps[k].latest@, desc_or(ps[k].description, "-"@));
        let j = choose|j: int| 0 <= j < rest.len() && rest[j] == x;
        assert(plugin_hits(ps, kw)[j] == x);
    }
}

/// Every registry entry whose name or description holds the keyword, both
/// in lowercase, is among the search results (with its description, or `-`
/// when it has none); so is every skill one of whose tags holds it.
pub proof fn lemma_matching_entries_found(
    plugins: Seq<RegistryPluginSummary>,
    skills: Seq<RegistrySkillSummary>,
    keyword: Seq<char>,
)
    ensures
        forall|k: int|
            #![trigger plugins[k]]
            0 <= k < plugins.len() && (contains_seq(lowercase_of(plugins[k].name@), lowercase_of(keyword)) || (
            plugins[k].description matches Some(d) && contains_seq(lowercase_of(d@), lowercase_of(keyword))))
                ==> (plugin_hits(plugins, lowercase_of(keyword)) + skill_hits(skills, lowercase_of(keyword))).contains(
                (
                    "plugin"@,
                    plugins[k].name@,
                    plugins[k].latest@,
                    match plugins[k].description {
                        Some(d) => d@,
                        None => "-"@,
                    },
                ),
            ),
        forall|k: int|
            #![trigger skills[k]]
            0 <= k < skills.len() && (contains_seq(lowercase_of(skills[k].name@), lowercase_of(keyword)) || (
            skills[k].description matches Some(d) && contains_seq(lowercase_of(d@), lowercase_of(keyword))) || exists|
                t: int,
            |
                0 <= t < skills[k].tags@.len() && contains_seq(
                    lowercase_of(#[trigger] skills[k].tags@[t]@),
                    lowercase_of(keyword),
                )) ==> (plugin_hits(plugins, lowercase_of(keyword)) + skill_hits(skills, lowercase_of(keyword))).contains(
                (
                    "skill"@,
                    skills[k].name@,
                    skills[k].latest@,
                    match skills[k].description {
                        Some(d) => d@,
                        None => "-"@,
                    },
                ),
            ),
{
    let kw = lowercase_of(keyword);
    let a = plugin_hits(plugins, kw);
    let b = skill_hits(skills, kw);
    assert forall|k: int|
        #![trigger plugins[k]]
        0 <= k < plugins.len() && (contains_seq(lowercase_of(plugins[k].name@), kw) || (
        plugins[k].description matches Some(d) && contains_seq(lowercase_of(d@), kw))) implies (a + b).contains(
        ("plugin"@, plugins[k].name@, plugins[k].latest@, desc_or(plugins[k].description, "-"@)),
    ) by {
        assert(plugin_hit(plugins[k], kw));
        lemma_plugin_hit_listed(plugins, kw, k);
        let x = ("plugin"@, plugins[k].name@, plugins[k].latest@, desc_or(plugins[k].description, "-"@));
        let j = choose|j: int| 0 <= j < a.len() && a[j] == x;
        assert((a + b)[j] == x);
    }
    assert forall|k: int|
        #![trigger skills[k]]
        0 <= k < skills.len() && (contains_seq(lowercase_of(skills[k].name@), kw) || (
        skills[k].description matches Some(d) && contains_seq(lowercase_of(d@), kw)) || exists|t: int|
            0 <= t < skills[k].tags@.len() && contains_seq(lowercase_of(#[trigger] skills[k].tags@[t]@), kw)) implies (a
        + b).contains(("skill"@, skills[k].name@, skills[k].latest@, desc_or(skills[k].description, "-"@))) by {
        let s = skills[k];
        if !text_matches(s.name@, kw) && !text_matches(desc_or(s.description, ""@), kw) {
            let t = choose|t: int| 0 <= t < s.tags@.len() && contains_seq(lowercase_of(#[trigger] s.tags@[t]@), kw);
            assert(text_matches(s.tags@[t]@, kw));
        }
        assert(skill_hit(s, kw));
        lemma_skill_hit_listed(skills, kw, k);
        let x = ("skill"@, s.name@, s.latest@, desc_or(s.description, "-"@));
        let j = choose|j: int| 0 <= j < b.len() && b[j] == x;
        assert((a + b)[a.len() + j] == x);
    }
}

/// The content of a sequence of search results.
pub open spec fn results_view(r: Seq<SearchResult>) -> Seq<(Seq<char>, Seq<char>, Seq<char>, Seq<char>)> {
    r.map_values(|x: SearchResult| search_view(x))
}

fn text_matches_exec(t: &str, kw: &str) -> (r: bool)
    ensures
        r == text_matches(t@, kw@),
{
    let lower = to_lowercase(t);
    contains(lower.as_str(), kw)
}

fn desc_text(d: &Option<String>, default: &str) -> (r: String)
    ensures
        r@ == desc_or(*d, default@),
{
    match d {
        Some(s) => to_owned(s.as_str()),
        None => to_owned(default),
    }
}

fn any_tag_matches(tags: &Vec<String>, kw: &str) -> (r: bool)
    ensures
        r == exists|k: int| 0 <= k < tags@.len() && text_matches(#[trigger] tags@[k]@, kw@),
{
    let mut k: usize = 0;
    while k < tags.len()
        invariant
            k <= tags@.len(),
            forall|q: int| 0 <= q < k ==> !text_matches(#[trigger] tags@[q]@, kw@),
        decreases tags.len() - k,
    {
        if text_matches_exec(tags[k].as_str(), kw) {
            assert(text_matches(tags@[k as int]@, kw@));
            return true;
        }
        k = k + 1;
    }
    false
}

/// The registry entries that match `keyword`, compared in lowercase:
/// plugins by name or description, skills also by tag; plugins first, each
/// group in registry order.
pub fn search_registry(
    plugins: &Vec<RegistryPluginSummary>,
    skills: &Vec<RegistrySkillSummary>,
    keyword: &str,
) -> (r: Vec<SearchResult>)
    ensures
        results_view(r@) == plugin_hits(plugins@, lowercase_of(keyword@)) + skill_hits(skills@, lowercase_of(keyword@)),
{
    let kw = to_lowercase(keyword);
    let mut out: Vec<SearchResult> = Vec::new();
    let mut i: usize = 0;
    while i < plugins.len()
        invariant
            i <= plugins@.len(),
            kw@ == lowercase_of(keyword@),
            results_view(out@) == plugin_hits(plugins@.take(i as int), kw@),
        decreases plugins.len() - i,
    {
        assert(plugins@.take(i + 1).drop_last() =~= plugins@.take(i as int));
        let p = &plugins[i];
        let hit = text_matches_exec(p.name.as_str(), kw.as_str()) || {
            let d = desc_text(&p.description, "");
            text_matches_exec(d.as_str(), kw.as_str())
        };
        if hit {
            let ghost before = out@;
            out.push(SearchResult {
                ty: to_owned("plugin"),
                name: to_owned(p.name.as_str()),
                latest: to_owned(p.latest.as_str()),
                description: desc_text(&p.description, "-"),
            });
            assert(results_view(out@) =~= results_view(before).push(search_view(out@.last())));
        }
        i = i + 1;
    }
    assert(plugins@.take(plugins@.len() as int) =~= plugins@);
    let ghost head = results_view(out@);
    let mut j: usize = 0;
    while j < skills.len()
        invariant
            j <= skills@.len(),
            kw@ == lowercase_of(keyword@),
            results_view(out@) == head + skill_hits(skills@.take(j as int), kw@),
        decreases skills.len() - j,
    {
        assert(skills@.take(j + 1).drop_last() =~= skills@.take(j as int));
        let s = &skills[j];
        let hit = text_matches_exec(s.name.as_str(), kw.as_str()) || {
            let d = desc_text(&s.description, "");
            text_matches_exec(d.as_str(), kw.as_str())
        } || any_tag_matches(&s.tags, kw.as_str());
        if hit {
            let ghost before = out@;
            out.push(SearchResult {
                ty: to_owned("skill"),
                name: to_owned(s.name.as_str()),
                latest: to_owned(s.latest.as_str()),
                description: desc_text(&s.description, "-"),
            });
            assert(results_view(out@) =~= results_view(before).push(search_view(out@.last())));
        }
        j = j + 1;
    }
    assert(skills@.take(skills@.len() as int) =~= skills@);
    out
}

} // verus!
