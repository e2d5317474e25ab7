//! Reading the remote registry index and release descriptions, and
//! comparing them with what is installed.
use vstd::prelude::*;
use vstd::multiset::Multiset;
use crate::text::{lex_le, lex_lt, lex_lt_exec, lemma_lex_lt_trichotomy, lemma_lex_le_transitive};
use crate::json::{
    object_entries, opt_deref, opt_field, opt_get, opt_str, opt_string, str_of, str_or,
    str_or_exec, JsonValue,
};
use crate::manifest::{opt_view, PluginUpdateStatus, RegistryPluginSummary, RegistrySkillSummary};
use crate::text::{
    append_str, chars_of, contains, contains_seq, ends_with, eq_ignore_ascii_case,
    eq_ignore_ascii_case_exec, find_last, is_prefix, occurs_at, is_suffix, replace_all, replace_exec,
    rfind_exec, starts_with, str_eq, string_of_range, to_owned,
};
use crate::package::{opt_text, PackageError};
use crate::manifest::{InstalledPlugin, InstalledSkill, Lockfile, SkillLockfile};
use crate::version::{is_newer_version, newer};

verus! {

broadcast use vstd::seq_lib::group_to_multiset_ensures;

/// Records that are listed by name.
pub trait Named {
    /// The record's name.
    spec fn key(&self) -> Seq<char>;

    /// The record's name.
    fn name_ref(&self) -> (r: &str)
        ensures
            r@ == self.key(),
    ;
}

impl Named for RegistryPluginSummary {
    open spec fn key(&self) -> Seq<char> {
        self.name@
    }

    fn name_ref(&self) -> (r: &str) {
        self.name.as_str()
    }
}

impl Named for RegistrySkillSummary {
    open spec fn key(&self) -> Seq<char> {
        self.name@
    }

    fn name_ref(&self) -> (r: &str) {
        self.name.as_str()
    }
}

impl Named for PluginUpdateStatus {
    open spec fn key(&self) -> Seq<char> {
        self.name@
    }

    fn name_ref(&self) -> (r: &str) {
        self.name.as_str()
    }
}

/// The records are in order of name.
pub open spec fn sorted_by_name<T: Named>(s: Seq<T>) -> bool {
    forall|i: int, j: int| 0 <= i < j < s.len() ==> lex_le(#[trigger] s[i].key(), #[trigger] s[j].key())
}

/// The same records, in order of name.
pub fn sort_by_name<T: Named>(v: Vec<T>) -> (r: Vec<T>)
    ensures
        sorted_by_name(r@),
        r@.to_multiset() == v@.to_multiset(),
        r@.len() == v@.len(),
{
    let ghost orig = v@;
    let mut rest = v;
    let mut out: Vec<T> = Vec::new();
    while rest.len() > 0
        invariant
            sorted_by_name(out@),
            out@.to_multiset().add(rest@.to_multiset()) == orig.to_multiset(),
            out@.len() + rest@.len() == orig.len(),
        decreases rest@.len(),
    {
        let ghost before_rest = rest@;
        let x = rest.remove(0);
        assert(before_rest == seq![x] + rest@) by {
            assert(before_rest =~= seq![x] + rest@);
        }
        proof {
            vstd::seq_lib::lemma_multiset_commutative(seq![x], rest@);
            assert(seq![x].to_multiset() =~= Multiset::singleton(x)) by {
                broadcast use vstd::seq_lib::to_multiset_build;
                assert(seq![x] =~= Seq::<T>::empty().push(x));
            }
        }
        let mut p: usize = 0;
        while p < out.len() && !lex_lt_exec(x.name_ref(), out[p].name_ref())
            invariant
                p <= out@.len(),
                forall|q: int| 0 <= q < p ==> !lex_lt(#[trigger] x.key(), out@[q].key()),
            decreases out@.len() - p,
        {
            p = p + 1;
        }
        let ghost before = out@;
        proof {
            assert forall|i: int, j: int|
                0 <= i < j < before.insert(p as int, x).len() implies lex_le(
                #[trigger] before.insert(p as int, x)[i].key(),
                #[trigger] before.insert(p as int, x)[j].key(),
            ) by {
                let s = before.insert(p as int, x);
                if i < p && j == p {
                    lemma_lex_lt_trichotomy(x.key(), before[i].key());
                } else if i == p && j > p {
                    assert(s[j] == before[j - 1]);
                    if j - 1 > p {
                        assert(lex_le(before[p as int].key(), before[j - 1].key()));
                    }
                    assert(lex_lt(x.key(), before[p as int].key()) || p == before.len());
                    if lex_lt(x.key(), before[p as int].key()) {
                        lemma_lex_le_transitive(x.key(), before[p as int].key(), before[j - 1].key());
                    }
                } else if i < p && j > p {
                    assert(s[j] == before[j - 1]);
                    assert(s[i] == before[i]);
                } else if j < p {
                    assert(s[j] == before[j]);
                    assert(s[i] == before[i]);
                } else {
                    assert(s[j] == before[j - 1]);
                    assert(s[i] == before[i - 1]);
                }
            }
        }
        out.insert(p, x);
        proof {
            vstd::seq_lib::to_multiset_insert(before, p as int, x);
        }
    }
    proof {
        assert(rest@ =~= Seq::<T>::empty());
        assert(rest@.to_multiset() =~= Multiset::<T>::empty());
        assert(out@.to_multiset().add(Multiset::empty()) =~= out@.to_multiset());
    }
    out
}

/// Every element of `a` occurs in `b` and every element of `b` occurs in
/// `a`, when both hold the same elements.
proof fn lemma_same_elements<T>(a: Seq<T>, b: Seq<T>)
    requires
        a.to_multiset() == b.to_multiset(),
    ensures
        forall|i: int| 0 <= i < a.len() ==> #[trigger] b.contains(a[i]),
        forall|k: int| 0 <= k < b.len() ==> #[trigger] a.contains(b[k]),
{
    assert forall|i: int| 0 <= i < a.len() implies #[trigger] b.contains(a[i]) by {
        assert(a.contains(a[i]));
        assert(a.to_multiset().count(a[i]) > 0);
    }
    assert forall|k: int| 0 <= k < b.len() implies #[trigger] a.contains(b[k]) by {
        assert(b.contains(b[k]));
        assert(b.to_multiset().count(b[k]) > 0);
    }
}

// ---------------------------------------------------------------------------
// Plugin and skill listings
// ---------------------------------------------------------------------------

/// The content of a plugin summary.
pub open spec fn plugin_summary_view(s: RegistryPluginSummary) -> (Seq<char>, Seq<char>, Option<Seq<char>>, bool, bool) {
    (s.name@, s.latest@, opt_view(s.description), s.has_wasm, s.has_native)
}

/// What the registry index says of the plugin `name` whose entry is `pkg`:
/// its latest version (`0.1.0` when the entry names none), its description,
/// and whether that version offers a WebAssembly build (a `url` string) and
/// a native build (a `native` field).
pub open spec fn plugin_summary_spec(name: Seq<char>, pkg: JsonValue) -> (Seq<char>, Seq<char>, Option<Seq<char>>, bool, bool) {
    let latest = str_or(pkg.field("latest"@), "0.1.0"@);
    let ver = opt_field(pkg.field("versions"@), latest);
    (
        name,
        latest,
        str_of(pkg.field("description"@)),
        str_of(opt_field(ver, "url"@)) is Some,
        opt_field(ver, "native"@) is Some,
    )
}

fn plugin_summary(name: &String, pkg: &JsonValue) -> (r: RegistryPluginSummary)
    ensures
        plugin_summary_view(r) == plugin_summary_spec(name@, *pkg),
{
    let latest = str_or_exec(pkg.get("latest"), "0.1.0");
    let description = opt_string(pkg.get("description"));
    let ver = opt_get(pkg.get("versions"), latest.as_str());
    let has_wasm = opt_str(opt_get(ver, "url")).is_some();
    let has_native = opt_get(ver, "native").is_some();
    RegistryPluginSummary { name: to_owned(name.as_str()), latest, description, has_wasm, has_native }
}

/// `r` holds one summary for each entry of `entries`: as many, each the
/// summary of some entry, and each entry's summary among them.
pub open spec fn lists_plugins(r: Seq<RegistryPluginSummary>, entries: Seq<(String, JsonValue)>) -> bool {
    &&& r.len() == entries.len()
    &&& forall|i: int| 0 <= i < r.len() ==> plugin_of_some_entry(entries, #[trigger] plugin_summary_view(r[i]))
    &&& forall|j: int| 0 <= j < entries.len() ==> plugin_listed(r, plugin_summary_spec(#[trigger] entries[j].0@, entries[j].1))
}

/// `v` is the summary of some entry of `entries`.
pub open spec fn plugin_of_some_entry(entries: Seq<(String, JsonValue)>, v: (Seq<char>, Seq<char>, Option<Seq<char>>, bool, bool)) -> bool {
    exists|j: int| 0 <= j < entries.len() && plugin_summary_spec(entries[j].0@, entries[j].1) == v
}

/// `v` is the content of some summary in `r`.
pub open spec fn plugin_listed(r: Seq<RegistryPluginSummary>, v: (Seq<char>, Seq<char>, Option<Seq<char>>, bool, bool)) -> bool {
    exists|i: int| 0 <= i < r.len() && #[trigger] plugin_summary_view(r[i]) == v
}

/// The plugins that a registry index lists, in order of name: one summary
/// for each entry of the index object (none when the index is not an
/// object).
pub fn plugin_summaries(index: &JsonValue) -> (r: Vec<RegistryPluginSummary>)
    ensures
        sorted_by_name(r@),
        lists_plugins(r@, object_entries(*index)),
{
    let ghost entries = object_entries(*index);
    let mut built: Vec<RegistryPluginSummary> = Vec::new();
    match index {
        JsonValue::Object(m) => {
            let mut j: usize = 0;
            while j < m.len()
                invariant
                    entries == m@,
                    j <= m@.len(),
                    built@.len() == j,
                    forall|k: int| 0 <= k < j ==> #[trigger] plugin_summary_view(built@[k])
                        == plugin_summary_spec(entries[k].0@, entries[k].1),
                decreases m.len() - j,
            {
                let s = plugin_summary(&m[j].0, &m[j].1);
                built.push(s);
                j = j + 1;
            }
        },
        _ => {},
    }
    let ghost b = built@;
    let r = sort_by_name(built);
    proof {
        lemma_same_elements(r@, b);
        assert forall|i: int| 0 <= i < r@.len() implies plugin_of_some_entry(entries, #[trigger] plugin_summary_view(r@[i])) by {
            assert(b.contains(r@[i]));
            let k = choose|k: int| 0 <= k < b.len() && b[k] == r@[i];
            assert(plugin_summary_view(b[k]) == plugin_summary_spec(entries[k].0@, entries[k].1));
        }
        assert forall|j: int| 0 <= j < entries.len() implies plugin_listed(r@, plugin_summary_spec(#[trigger] entries[j].0@, entries[j].1)) by {
            assert(r@.contains(b[j]));
            let i = choose|i: int| 0 <= i < r@.len() && r@[i] == b[j];
            assert(plugin_summary_view(b[j]) == plugin_summary_spec(entries[j].0@, entries[j].1));
            assert(plugin_summary_view(r@[i]) == plugin_summary_spec(entries[j].0@, entries[j].1));
        }
    }
    r
}

/// The texts of the strings among `s`, in order; other values are skipped.
pub open spec fn str_items(s: Seq<JsonValue>) -> Seq<Seq<char>>
    decreases s.len(),
{
    if s.len() == 0 {
        Seq::empty()
    } else {
        let rest = str_items(s.drop_last());
        match s.last() {
            JsonValue::Str(t) => rest.push(t@),
            _ => rest,
        }
    }
}

/// The texts of a sequence of strings.
pub open spec fn texts(s: Seq<String>) -> Seq<Seq<char>> {
    s.map_values(|t: String| t@)
}

/// The strings among the elements of an array, in order.
fn string_items(v: &Vec<JsonValue>) -> (r: Vec<String>)
    ensures
        texts(r@) == str_items(v@),
{
    let mut out: Vec<String> = Vec::new();
    let mut i: usize = 0;
    while i < v.len()
        invariant
            i <= v@.len(),
            texts(out@) == str_items(v@.take(i as int)),
        decreases v.len() - i,
    {
        assert(v@.take(i + 1).drop_last() =~= v@.take(i as int));
        match &v[i] {
            JsonValue::Str(t) => {
                let ghost before = out@;
                out.push(to_owned(t.as_str()));
                assert(texts(out@) =~= texts(before).push(t@));
            },
            _ => {},
        }
        i = i + 1;
    }
    assert(v@.take(v@.len() as int) =~= v@);
    out
}

/// The tags of a registry entry: the strings of its `tags` array.
pub open spec fn tags_of(pkg: JsonValue) -> Seq<Seq<char>> {
    match pkg.field("tags"@) {
        Some(JsonValue::Array(v)) => str_items(v@),
        _ => Seq::empty(),
    }
}

/// The content of a skill summary.
pub open spec fn skill_summary_view(s: RegistrySkillSummary) -> (Seq<char>, Seq<char>, Option<Seq<char>>, Option<Seq<char>>, Seq<Seq<char>>) {
    (s.name@, s.latest@, opt_view(s.description), opt_view(s.author), texts(s.tags@))
}

/// What the registry index says of the skill `name` whose entry is `pkg`.
pub open spec fn skill_summary_spec(name: Seq<char>, pkg: JsonValue) -> (Seq<char>, Seq<char>, Option<Seq<char>>, Option<Seq<char>>, Seq<Seq<char>>) {
    (
        name,
        str_or(pkg.field("latest"@), "0.1.0"@),
        str_of(pkg.field("description"@)),
        str_of(pkg.field("author"@)),
        tags_of(pkg),
    )
}

fn skill_summary(name: &String, pkg: &JsonValue) -> (r: RegistrySkillSummary)
    ensures
        skill_summary_view(r) == skill_summary_spec(name@, *pkg),
{
    let latest = str_or_exec(pkg.get("latest"), "0.1.0");
    let description = opt_string(pkg.get("description"));
    let author = opt_string(pkg.get("author"));
    let tags = match pkg.get("tags") {
        Some(JsonValue::Array(v)) => string_items(v),
        _ => {
            let t: Vec<String> = Vec::new();
            assert(texts(t@) =~= Seq::<Seq<char>>::empty());
            t
        },
    };
    RegistrySkillSummary { name: to_owned(name.as_str()), latest, description, author, tags }
}

/// `r` holds one summary for each entry of `entries`: as many, each the
/// summary of some entry, and each entry's summary among them.
pub open spec fn lists_skills(r: Seq<RegistrySkillSummary>, entries: Seq<(String, JsonValue)>) -> bool {
    &&& r.len() == entries.len()
    &&& forall|i: int| 0 <= i < r.len() ==> skill_of_some_entry(entries, #[trigger] skill_summary_view(r[i]))
    &&& forall|j: int| 0 <= j < entries.len() ==> skill_listed(r, skill_summary_spec(#[trigger] entries[j].0@, entries[j].1))
}

/// `v` is the summary of some entry of `entries`.
pub open spec fn skill_of_some_entry(entries: Seq<(String, JsonValue)>, v: (Seq<char>, Seq<char>, Option<Seq<char>>, Option<Seq<char>>, Seq<Seq<char>>)) -> bool {
    exists|j: int| 0 <= j < entries.len() && skill_summary_spec(entries[j].0@, entries[j].1) == v
}

/// `v` is the content of some summary in `r`.
pub open spec fn skill_listed(r: Seq<RegistrySkillSummary>, v: (Seq<char>, Seq<char>, Option<Seq<char>>, Option<Seq<char>>, Seq<Seq<char>>)) -> bool {
    exists|i: int| 0 <= i < r.len() && #[trigger] skill_summary_view(r[i]) == v
}

/// The skills that a registry index lists, in order of name: one summary
/// for each entry of the index object (none when the index is not an
/// object).
pub fn skill_summaries(index: &JsonValue) -> (r: Vec<RegistrySkillSummary>)
    ensures
        sorted_by_name(r@),
        lists_skills(r@, object_entries(*index)),
{
    let ghost entries = object_entries(*index);
    let mut built: Vec<RegistrySkillSummary> = Vec::new();
    match index {
        JsonValue::Object(m) => {
            let mut j: usize = 0;
            while j < m.len()
                invariant
                    entries == m@,
                    j <= m@.len(),
                    built@.len() == j,
                    forall|k: int| 0 <= k < j ==> #[trigger] skill_summary_view(built@[k])
                        == skill_summary_spec(entries[k].0@, entries[k].1),
                decreases m.len() - j,
            {
                let s = skill_summary(&m[j].0, &m[j].1);
                built.push(s);
                j = j + 1;
            }
        },
        _ => {},
    }
    let ghost b = built@;
    let r = sort_by_name(built);
    proof {
        lemma_same_elements(r@, b);
        assert forall|i: int| 0 <= i < r@.len() implies skill_of_some_entry(entries, #[trigger] skill_summary_view(r@[i])) by {
            assert(b.contains(r@[i]));
            let k = choose|k: int| 0 <= k < b.len() && b[k] == r@[i];
            assert(skill_summary_view(b[k]) == skill_summary_spec(entries[k].0@, entries[k].1));
        }
        assert forall|j: int| 0 <= j < entries.len() implies skill_listed(r@, skill_summary_spec(#[trigger] entries[j].0@, entries[j].1)) by {
            assert(r@.contains(b[j]));
            let i = choose|i: int| 0 <= i < r@.len() && r@[i] == b[j];
            assert(skill_summary_view(b[j]) == skill_summary_spec(entries[j].0@, entries[j].1));
            assert(skill_summary_view(r@[i]) == skill_summary_spec(entries[j].0@, entries[j].1));
        }
    }
    r
}

// ---------------------------------------------------------------------------
// Update checks
// ---------------------------------------------------------------------------

/// The first record in `s` named `name`.
pub open spec fn first_named<T: Named>(s: Seq<T>, name: Seq<char>) -> Option<T>
    decreases s.len(),
{
    if s.len() == 0 {
        None
    } else if s[0].key() == name {
        Some(s[0])
    } else {
        first_named(s.drop_first(), name)
    }
}

/// The first record in `v` named `name`.
pub fn find_named<'a, T: Named>(v: &'a Vec<T>, name: &str) -> (r: Option<&'a T>)
    ensures
        match r {
            Some(x) => first_named(v@, name@) == Some(*x),
            None => first_named(v@, name@) is None,
        },
{
    let mut i: usize = 0;
    assert(v@.subrange(0, v@.len() as int) =~= v@);
    while i < v.len()
        invariant
            i <= v@.len(),
            first_named(v@, name@) == first_named(v@.subrange(i as int, v@.len() as int), name@),
        decreases v.len() - i,
    {
        let ghost rest = v@.subrange(i as int, v@.len() as int);
        assert(rest[0] == v@[i as int]);
        if str_eq(v[i].name_ref(), name) {
            return Some(&v[i]);
        }
        assert(rest.drop_first() =~= v@.subrange(i + 1, v@.len() as int));
        i = i + 1;
    }
    None
}

/// The names a check is limited to, if any.
pub open spec fn filter_view(names: Option<&Vec<String>>) -> Option<Seq<String>> {
    match names {
        Some(v) => Some(v@),
        None => None,
    }
}

/// `name` passes the filter: there is none, or it holds `name` up to ASCII
/// case.
pub open spec fn selected(filter: Option<Seq<String>>, name: Seq<char>) -> bool {
    match filter {
        None => true,
        Some(f) => names_include(f, name),
    }
}

/// `f` holds `name` up to ASCII case.
pub open spec fn names_include(f: Seq<String>, name: Seq<char>) -> bool {
    exists|k: int| 0 <= k < f.len() && eq_ignore_ascii_case(#[trigger] f[k]@, name)
}

fn any_eq_ignore_ascii_case(f: &Vec<String>, name: &str) -> (r: bool)
    ensures
        r == names_include(f@, name@),
{
    let mut k: usize = 0;
    while k < f.len()
        invariant
            k <= f@.len(),
            forall|q: int| 0 <= q < k ==> !eq_ignore_ascii_case(#[trigger] f@[q]@, name@),
        decreases f.len() - k,
    {
        if eq_ignore_ascii_case_exec(f[k].as_str(), name) {
            assert(eq_ignore_ascii_case(f@[k as int]@, name@));
            return true;
        }
        k = k + 1;
    }
    false
}

fn is_selected(names: Option<&Vec<String>>, name: &str) -> (r: bool)
    ensures
        r == selected(filter_view(names), name@),
{
    match names {
        None => true,
        Some(f) => any_eq_ignore_ascii_case(f, name),
    }
}

/// The content of an update status: name, installed version, latest
/// version, whether the latest is newer, and the builds it offers.
pub open spec fn status_view(s: PluginUpdateStatus) -> (Seq<char>, Seq<char>, Seq<char>, bool, bool, bool) {
    (s.name@, s.installed_version@, s.latest_version@, s.has_update, s.has_wasm, s.has_native)
}

/// The statuses that an update check of installed plugins yields, in the
/// order of the installed records: one for each record that passes the
/// filter and that the registry lists.
pub open spec fn plugin_statuses_spec(
    entries: Seq<(String, InstalledPlugin)>,
    registry: Seq<RegistryPluginSummary>,
    filter: Option<Seq<String>>,
) -> Seq<(Seq<char>, Seq<char>, Seq<char>, bool, bool, bool)>
    decreases entries.len(),
{
    if entries.len() == 0 {
        Seq::empty()
    } else {
        let rest = plugin_statuses_spec(entries.drop_last(), registry, filter);
        let e = entries.last();
        if selected(filter, e.0@) {
            match first_named(registry, e.0@) {
                Some(reg) => rest.push(
                    (e.0@, e.1.version@, reg.latest@, newer(reg.latest@, e.1.version@), reg.has_wasm, reg.has_native),
                ),
                None => rest,
            }
        } else {
            rest
        }
    }
}

/// The statuses that an update check of installed skills yields, in the
/// order of the installed records.
pub open spec fn skill_statuses_spec(
    entries: Seq<(String, InstalledSkill)>,
    registry: Seq<RegistrySkillSummary>,
    filter: Option<Seq<String>>,
) -> Seq<(Seq<char>, Seq<char>, Seq<char>, bool, bool, bool)>
    decreases entries.len(),
{
    if entries.len() == 0 {
        Seq::empty()
    } else {
        let rest = skill_statuses_spec(entries.drop_last(), registry, filter);
        let e = entries.last();
        if selected(filter, e.0@) {
            match first_named(registry, e.0@) {
                Some(reg) => rest.push(
                    (e.0@, e.1.version@, reg.latest@, newer(reg.latest@, e.1.version@), false, false),
                ),
                None => rest,
            }
        } else {
            rest
        }
    }
}

/// `v` is the content of some status in `r`.
pub open spec fn status_listed(r: Seq<PluginUpdateStatus>, v: (Seq<char>, Seq<char>, Seq<char>, bool, bool, bool)) -> bool {
    exists|i: int| 0 <= i < r.len() && #[trigger] status_view(r[i]) == v
}

/// `r` holds the statuses of `expected`, in some order.
pub open spec fn holds_statuses(r: Seq<PluginUpdateStatus>, expected: Seq<(Seq<char>, Seq<char>, Seq<char>, bool, bool, bool)>) -> bool {
    &&& r.len() == expected.len()
    &&& forall|i: int| 0 <= i < r.len() ==> expected.contains(#[trigger] status_view(r[i]))
    &&& forall|j: int| 0 <= j < expected.len() ==> status_listed(r, #[trigger] expected[j])
}

proof fn lemma_sorted_statuses(r: Seq<PluginUpdateStatus>, b: Seq<PluginUpdateStatus>, expected: Seq<(Seq<char>, Seq<char>, Seq<char>, bool, bool, bool)>)
    requires
        r.to_multiset() == b.to_multiset(),
        r.len() == b.len(),
        b.len() == expected.len(),
        forall|k: int| 0 <= k < b.len() ==> #[trigger] status_view(b[k]) == expected[k],
    ensures
        holds_statuses(r, expected),
{
    lemma_same_elements(r, b);
    assert forall|i: int| 0 <= i < r.len() implies expected.contains(#[trigger] status_view(r[i])) by {
        assert(b.contains(r[i]));
        let k = choose|k: int| 0 <= k < b.len() && b[k] == r[i];
        assert(status_view(b[k]) == expected[k]);
    }
    assert forall|j: int| 0 <= j < expected.len() implies status_listed(r, #[trigger] expected[j]) by {
        assert(r.contains(b[j]));
        let i = choose|i: int| 0 <= i < r.len() && r[i] == b[j];
        assert(status_view(b[j]) == expected[j]);
        assert(status_view(r[i]) == expected[j]);
    }
}

/// Which installed plugins have a newer release in the registry, in order
/// of name: one status for each installed plugin that passes the filter
/// (names compared up to ASCII case) and that the registry lists.
pub fn plugin_update_statuses(
    lockfile: &Lockfile,
    registry: &Vec<RegistryPluginSummary>,
    names: Option<&Vec<String>>,
) -> (r: Vec<PluginUpdateStatus>)
    ensures
        sorted_by_name(r@),
        holds_statuses(r@, plugin_statuses_spec(lockfile.plugins@, registry@, filter_view(names))),
{
    let ghost filter = filter_view(names);
    let entries = &lockfile.plugins;
    let mut built: Vec<PluginUpdateStatus> = Vec::new();
    let mut i: usize = 0;
    while i < entries.len()
        invariant
            i <= entries@.len(),
            filter == filter_view(names),
            built@.len() == plugin_statuses_spec(entries@.take(i as int), registry@, filter).len(),
            forall|k: int| 0 <= k < built@.len() ==> #[trigger] status_view(built@[k])
                == plugin_statuses_spec(entries@.take(i as int), registry@, filter)[k],
        decreases entries.len() - i,
    {
        assert(entries@.take(i + 1).drop_last() =~= entries@.take(i as int));
        let name = &entries[i].0;
        let installed = &entries[i].1;
        if is_selected(names, name.as_str()) {
            match find_named(registry, name.as_str()) {
                Some(reg) => {
                    let st = PluginUpdateStatus {
                        name: to_owned(name.as_str()),
                        installed_version: to_owned(installed.version.as_str()),
                        latest_version: to_owned(reg.latest.as_str()),
                        has_update: is_newer_version(reg.latest.as_str(), installed.version.as_str()),
                        has_wasm: reg.has_wasm,
                        has_native: reg.has_native,
                    };
                    built.push(st);
                },
                None => {},
            }
        }
        i = i + 1;
    }
    assert(entries@.take(entries@.len() as int) =~= entries@);
    let ghost b = built@;
    let r = sort_by_name(built);
    proof {
        lemma_sorted_statuses(r@, b, plugin_statuses_spec(entries@, registry@, filter));
    }
    r
}

/// Which installed skills have a newer release in the registry, in order of
/// name: one status for each installed skill that passes the filter (names
/// compared up to ASCII case) and that the registry lists.
pub fn skill_update_statuses(
    lockfile: &SkillLockfile,
    registry: &Vec<RegistrySkillSummary>,
    names: Option<&Vec<String>>,
) -> (r: Vec<PluginUpdateStatus>)
    ensures
        sorted_by_name(r@),
        holds_statuses(r@, skill_statuses_spec(lockfile.skills@, registry@, filter_view(names))),
{
    let ghost filter = filter_view(names);
    let entries = &lockfile.skills;
    let mut built: Vec<PluginUpdateStatus> = Vec::new();
    let mut i: usize = 0;
    while i < entries.len()
        invariant
            i <= entries@.len(),
            filter == filter_view(names),
            built@.len() == skill_statuses_spec(entries@.take(i as int), registry@, filter).len(),
            forall|k: int| 0 <= k < built@.len() ==> #[trigger] status_view(built@[k])
                == skill_statuses_spec(entries@.take(i as int), registry@, filter)[k],
        decreases entries.len() - i,
    {
        assert(entries@.take(i + 1).drop_last() =~= entries@.take(i as int));
        let name = &entries[i].0;
        let installed = &entries[i].1;
        if is_selected(names, name.as_str()) {
            match find_named(registry, name.as_str()) {
                Some(reg) => {
                    let st = PluginUpdateStatus {
                        name: to_owned(name.as_str()),
                        installed_version: to_owned(installed.version.as_str()),
                        latest_version: to_owned(reg.latest.as_str()),
                        has_update: is_newer_version(reg.latest.as_str(), installed.version.as_str()),
                        has_wasm: false,
                        has_native: false,
                    };
                    built.push(st);
                },
                None => {},
            }
        }
        i = i + 1;
    }
    assert(entries@.take(entries@.len() as int) =~= entries@);
    let ghost b = built@;
    let r = sort_by_name(built);
    proof {
        lemma_sorted_statuses(r@, b, skill_statuses_spec(entries@, registry@, filter));
    }
    r
}

// ---------------------------------------------------------------------------
// Releases of the command itself
// ---------------------------------------------------------------------------

/// The release description to fetch: that of the requested version's tag
/// (a `v` is put in front of a version that does not start with one), or
/// that of the latest release.
pub open spec fn release_url_spec(requested: Option<Seq<char>>) -> Seq<char> {
    match requested {
        Some(v) => "https://api.github.com/repos/shba007/rune-kit/releases/tags/"@ + if is_prefix("v"@, v) {
            v
        } else {
            "v"@ + v
        },
        None => "https://api.github.com/repos/shba007/rune-kit/releases/latest"@,
    }
}

/// The address of the release description to fetch.
pub fn release_url(requested: Option<&str>) -> (r: String)
    ensures
        r@ == release_url_spec(opt_text(requested)),
{
    match requested {
        Some(v) => {
            let mut r = to_owned("https://api.github.com/repos/shba007/rune-kit/releases/tags/");
            if !starts_with(v, "v") {
                append_str(&mut r, "v");
            }
            append_str(&mut r, v);
            r
        },
        None => to_owned("https://api.github.com/repos/shba007/rune-kit/releases/latest"),
    }
}

/// A release asset fits the host: its name holds the target triple and it
/// is a `.tar.gz` or `.zip` archive.
pub open spec fn asset_fits(a: JsonValue, triple: Seq<char>) -> bool {
    let name = str_or(a.field("name"@), ""@);
    contains_seq(name, triple) && (is_suffix(".tar.gz"@, name) || is_suffix(".zip"@, name))
}

/// The index of the first fitting asset at or after `i`.
pub open spec fn first_fit(assets: Seq<JsonValue>, triple: Seq<char>, i: nat) -> Option<int>
    decreases assets.len() - i,
{
    if i >= assets.len() {
        None
    } else if asset_fits(assets[i as int], triple) {
        Some(i as int)
    } else {
        first_fit(assets, triple, i + 1)
    }
}

/// The tag and download address that a release description offers for the
/// host, or the message that says why it offers none.
pub open spec fn release_choice(release: JsonValue, triple: Seq<char>) -> Result<(Seq<char>, Seq<char>), Seq<char>> {
    match str_of(release.field("tag_name"@)) {
        None => Err("Release missing tag_name"@),
        Some(tag) => match release.field("assets"@) {
            Some(JsonValue::Array(assets)) => match first_fit(assets@, triple, 0) {
                None => Err(
                    "No compatible binary found for target '"@ + triple + "' in release '"@ + tag + "'"@,
                ),
                Some(k) => match str_of(assets@[k].field("browser_download_url"@)) {
                    Some(url) => Ok((tag, url)),
                    None => Err("Asset missing download URL"@),
                },
            },
            _ => Err("Release missing assets"@),
        },
    }
}

fn asset_fits_exec(a: &JsonValue, triple: &str) -> (r: bool)
    ensures
        r == asset_fits(*a, triple@),
{
    let name = str_or_exec(a.get("name"), "");
    contains(name.as_str(), triple) && (ends_with(name.as_str(), ".tar.gz") || ends_with(name.as_str(), ".zip"))
}

/// Picks, from a release description, its tag and the download address of
/// the first asset built for `triple`.
pub fn select_release_asset(release: &JsonValue, triple: &str) -> (r: Result<(String, String), PackageError>)
    ensures
        match r {
            Ok(p) => release_choice(*release, triple@) matches Ok(q) && q == (p.0@, p.1@),
            Err(e) => e matches PackageError::SelfUpdate(m) && release_choice(*release, triple@) matches Err(t) && t == m@,
        },
{
    let tag = match opt_str(release.get("tag_name")) {
        Some(t) => t,
        None => return Err(PackageError::SelfUpdate(to_owned("Release missing tag_name"))),
    };
    let assets = match release.get("assets") {
        Some(JsonValue::Array(a)) => a,
        _ => return Err(PackageError::SelfUpdate(to_owned("Release missing assets"))),
    };
    let mut i: usize = 0;
    while i < assets.len() && !asset_fits_exec(&assets[i], triple)
        invariant
            i <= assets@.len(),
            first_fit(assets@, triple@, 0) == first_fit(assets@, triple@, i as nat),
        decreases assets.len() - i,
    {
        i = i + 1;
    }
    if i == assets.len() {
        let mut m = to_owned("No compatible binary found for target '");
        append_str(&mut m, triple);
        append_str(&mut m, "' in release '");
        append_str(&mut m, tag);
        append_str(&mut m, "'");
        return Err(PackageError::SelfUpdate(m));
    }
    match opt_str(assets[i].get("browser_download_url")) {
        Some(url) => Ok((to_owned(tag), to_owned(url))),
        None => Err(PackageError::SelfUpdate(to_owned("Asset missing download URL"))),
    }
}

// ---------------------------------------------------------------------------
// Artifacts of registry packages
// ---------------------------------------------------------------------------

/// The builds that the registry offers for one version of a plugin.
#[derive(Debug)]
pub struct RegistryArtifacts {
    pub version: String,
    pub wasm_url: Option<String>,
    pub native_url: Option<String>,
}

/// The native build entry for the host: the one keyed by its target triple,
/// else by its OS, else by `OS-ARCH`.
pub open spec fn native_entry(native: Option<JsonValue>, triple: Seq<char>, os: Seq<char>, arch: Seq<char>) -> Option<JsonValue> {
    match native {
        Some(n) => match n.field(triple) {
            Some(x) => Some(x),
            None => match n.field(os) {
                Some(x) => Some(x),
                None => n.field(os + "-"@ + arch),
            },
        },
        None => None,
    }
}

/// The address in a native build entry: its `url` string, or the entry
/// itself when it is a string.
pub open spec fn native_entry_url(v: Option<JsonValue>) -> Option<Seq<char>> {
    match v {
        Some(x) => match str_of(x.field("url"@)) {
            Some(u) => Some(u),
            None => str_of(Some(x)),
        },
        None => None,
    }
}

/// The version, WebAssembly address and native address that the registry
/// index offers for plugin `name` on the host, or the text of the
/// not-found error: the plugin is unlisted, or the version has neither
/// build.
pub open spec fn registry_artifacts_spec(
    index: JsonValue,
    name: Seq<char>,
    version: Option<Seq<char>>,
    triple: Seq<char>,
    os: Seq<char>,
    arch: Seq<char>,
) -> Result<(Seq<char>, Option<Seq<char>>, Option<Seq<char>>), Seq<char>> {
    match index.field(name) {
        None => Err(name),
        Some(pkg) => {
            let ver = match version {
                Some(v) => v,
                None => str_or(pkg.field("latest"@), "0.1.0"@),
            };
            let ver_obj = opt_field(pkg.field("versions"@), ver);
            let native = native_entry_url(native_entry(opt_field(ver_obj, "native"@), triple, os, arch));
            let wasm = str_of(opt_field(ver_obj, "url"@));
            if native is None && wasm is None {
                Err("No artifacts found in registry for '"@ + name + "' (v"@ + ver + ")"@)
            } else {
                Ok((ver, wasm, native))
            }
        },
    }
}

/// When the index lists plugin `name` and the version asked for (else the
/// latest one it lists) has a native build keyed by the host's target
/// triple whose `url` is a text, the builds found are that version, with
/// that text as the native address whatever the OS and `OS-ARCH` entries
/// say, and the version's own `url` as the WebAssembly address.
pub proof fn lemma_triple_entry_wins(
    index: JsonValue,
    name: Seq<char>,
    version: Option<Seq<char>>,
    triple: Seq<char>,
    os: Seq<char>,
    arch: Seq<char>,
    pkg: JsonValue,
    ver: Seq<char>,
    ver_obj: JsonValue,
    native: JsonValue,
    entry: JsonValue,
)
    requires
        index.field(name) == Some(pkg),
        version == Some(ver) || (version is None && str_of(pkg.field("latest"@)) == Some(ver)),
        opt_field(pkg.field("versions"@), ver) == Some(ver_obj),
        ver_obj.field("native"@) == Some(native),
        native.field(triple) == Some(entry),
        str_of(entry.field("url"@)) is Some,
    ensures
        registry_artifacts_spec(index, name, version, triple, os, arch) matches Ok(q) && q.0 == ver && q.1 == str_of(
            ver_obj.field("url"@),
        ) && q.2 == str_of(entry.field("url"@)),
{
}

/// The content of found artifacts.
pub open spec fn artifacts_view(a: RegistryArtifacts) -> (Seq<char>, Option<Seq<char>>, Option<Seq<char>>) {
    (a.version@, opt_view(a.wasm_url), opt_view(a.native_url))
}

fn native_url_exec(native: Option<&JsonValue>, triple: &str, os: &str, arch: &str) -> (r: Option<String>)
    ensures
        opt_view(r) == native_entry_url(native_entry(opt_deref(native), triple@, os@, arch@)),
{
    let n = match native {
        Some(n) => n,
        None => return None,
    };
    let entry = match n.get(triple) {
        Some(x) => x,
        None => match n.get(os) {
            Some(x) => x,
            None => {
                let mut key = to_owned(os);
                append_str(&mut key, "-");
                append_str(&mut key, arch);
                match n.get(key.as_str()) {
                    Some(x) => x,
                    None => return None,
                }
            },
        },
    };
    match opt_str(entry.get("url")) {
        Some(u) => Some(to_owned(u)),
        None => match entry.as_str() {
            Some(u) => Some(to_owned(u)),
            None => None,
        },
    }
}

/// Finds, in the registry index, the builds of plugin `name` at the
/// requested version (the latest listed one when none is requested) for
/// the host described by `triple`, `os` and `arch`.
pub fn registry_artifacts(
    index: &JsonValue,
    name: &str,
    version: Option<&str>,
    triple: &str,
    os: &str,
    arch: &str,
) -> (r: Result<RegistryArtifacts, PackageError>)
    ensures
        match r {
            Ok(a) => registry_artifacts_spec(*index, name@, opt_text(version), triple@, os@, arch@) matches Ok(q)
                && q == artifacts_view(a),
            Err(e) => e matches PackageError::NotFound(m) && registry_artifacts_spec(
                *index,
                name@,
                opt_text(version),
                triple@,
                os@,
                arch@,
            ) matches Err(t) && t == m@,
        },
{
    let pkg = match index.get(name) {
        Some(p) => p,
        None => return Err(PackageError::NotFound(to_owned(name))),
    };
    let ver = match version {
        Some(v) => to_owned(v),
        None => str_or_exec(pkg.get("latest"), "0.1.0"),
    };
    let ver_obj = opt_get(pkg.get("versions"), ver.as_str());
    let native_url = native_url_exec(opt_get(ver_obj, "native"), triple, os, arch);
    let wasm_url = opt_string(opt_get(ver_obj, "url"));
    if native_url.is_none() && wasm_url.is_none() {
        let mut m = to_owned("No artifacts found in registry for '");
        append_str(&mut m, name);
        append_str(&mut m, "' (v");
        append_str(&mut m, ver.as_str());
        append_str(&mut m, ")");
        return Err(PackageError::NotFound(m));
    }
    Ok(RegistryArtifacts { version: ver, wasm_url, native_url })
}

/// What the registry offers for one version of a skill.
#[derive(Debug)]
pub struct SkillArtifact {
    pub url: String,
    pub version: String,
    pub description: Option<String>,
    pub author: Option<String>,
}

/// The content of a found skill artifact.
pub open spec fn skill_artifact_view(a: SkillArtifact) -> (Seq<char>, Seq<char>, Option<Seq<char>>, Option<Seq<char>>) {
    (a.url@, a.version@, opt_view(a.description), opt_view(a.author))
}

/// The download address, version, description and author that the
/// registry index offers for skill `name`, or the text of the not-found
/// error.
pub open spec fn skill_artifact_spec(index: JsonValue, name: Seq<char>, version: Option<Seq<char>>) -> Result<
    (Seq<char>, Seq<char>, Option<Seq<char>>, Option<Seq<char>>),
    Seq<char>,
> {
    match index.field(name) {
        None => Err(name),
        Some(entry) => {
            let ver = match version {
                Some(v) => v,
                None => str_or(entry.field("latest"@), "0.1.0"@),
            };
            match str_of(opt_field(opt_field(entry.field("versions"@), ver), "url"@)) {
                None => Err("No artifact for skill '"@ + name + "' (v"@ + ver + ")"@),
                Some(url) => Ok((url, ver, str_of(entry.field("description"@)), str_of(entry.field("author"@)))),
            }
        },
    }
}

/// Finds, in the registry index, the artifact of skill `name` at the
/// requested version (the latest listed one when none is requested).
pub fn skill_artifact(index: &JsonValue, name: &str, version: Option<&str>) -> (r: Result<SkillArtifact, PackageError>)
    ensures
        match r {
            Ok(a) => skill_artifact_spec(*index, name@, opt_text(version)) matches Ok(q) && q == skill_artifact_view(a),
            Err(e) => e matches PackageError::NotFound(m) && skill_artifact_spec(*index, name@, opt_text(version))
                matches Err(t) && t == m@,
        },
{
    let entry = match index.get(name) {
        Some(p) => p,
        None => return Err(PackageError::NotFound(to_owned(name))),
    };
    let ver = match version {
        Some(v) => to_owned(v),
        None => str_or_exec(entry.get("latest"), "0.1.0"),
    };
    let url = match opt_str(opt_get(opt_get(entry.get("versions"), ver.as_str()), "url")) {
        Some(u) => to_owned(u),
        None => {
            let mut m = to_owned("No artifact for skill '");
            append_str(&mut m, name);
            append_str(&mut m, "' (v");
            append_str(&mut m, ver.as_str());
            append_str(&mut m, ")");
            return Err(PackageError::NotFound(m));
        },
    };
    let description = opt_string(entry.get("description"));
    let author = opt_string(entry.get("author"));
    Ok(SkillArtifact { url, version: ver, description, author })
}

// ---------------------------------------------------------------------------
// Names derived from download addresses
// ---------------------------------------------------------------------------

/// What follows the last `/` of `t` (all of `t` when it has none).
pub open spec fn last_segment(t: Seq<char>) -> Seq<char> {
    match find_last(t, seq!['/']) {
        Some(i) => t.subrange(i + 1, t.len() as int),
        None => t,
    }
}

/// The name a plugin downloaded from `url` gets: the last path segment
/// without `.wasm`, `.zip` and `.tar.gz`.
pub open spec fn plugin_url_name(url: Seq<char>) -> Seq<char> {
    replace_all(replace_all(replace_all(last_segment(url), ".wasm"@, ""@), ".zip"@, ""@), ".tar.gz"@, ""@)
}

/// The name a skill downloaded from `url` gets: the last path segment
/// without `.tar.gz` and `.zip`.
pub open spec fn skill_url_name(url: Seq<char>) -> Seq<char> {
    replace_all(replace_all(last_segment(url), ".tar.gz"@, ""@), ".zip"@, ""@)
}

fn last_segment_exec(t: &str) -> (r: String)
    ensures
        r@ == last_segment(t@),
{
    let v = chars_of(t);
    let mut slash: Vec<char> = Vec::new();
    slash.push('/');
    assert(slash@ =~= seq!['/']);
    match rfind_exec(&v, &slash) {
        Some(i) => {
            assert(occurs_at(v@, slash@, i as int));
            assert(slash@.len() == 1);
            let n = v.len();
            assert(i + 1 <= n);
            string_of_range(&v, i + 1, n)
        },
        None => to_owned(t),
    }
}

/// The name a plugin downloaded from `url` gets.
pub fn plugin_name_from_url(url: &str) -> (r: String)
    ensures
        r@ == plugin_url_name(url@),
{
    let a = last_segment_exec(url);
    let b = replace_exec(a.as_str(), ".wasm", "");
    let c = replace_exec(b.as_str(), ".zip", "");
    replace_exec(c.as_str(), ".tar.gz", "")
}

/// The name a skill downloaded from `url` gets.
pub fn skill_name_from_url(url: &str) -> (r: String)
    ensures
        r@ == skill_url_name(url@),
{
    let a = last_segment_exec(url);
    let b = replace_exec(a.as_str(), ".tar.gz", "");
    replace_exec(b.as_str(), ".zip", "")
}

} // verus!
