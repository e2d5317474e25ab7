//! The records that describe plugins, skills and their installation state.
use vstd::prelude::*;
use crate::json::JsonValue;
use crate::keyed::{get_value, insert_value, lookup, remove_key, without};
use crate::text::to_owned;

verus! {

/// How an installed plugin is executed.
#[derive(Clone, Copy, Debug, PartialEq, Eq, Structural)]
pub enum ExecutionKind {
    /// Sandboxed WebAssembly module.
    Wasm,
    /// Native sidecar process speaking JSON-RPC over stdio.
    Native,
}

impl Default for ExecutionKind {
    fn default() -> (r: Self)
        ensures
            r == ExecutionKind::Wasm,
    {
        ExecutionKind::Wasm
    }
}

/// What a plugin reports about itself.
#[derive(Debug)]
pub struct PluginInfo {
    pub name: String,
    pub version: String,
    pub description: Option<String>,
}

/// The optional `plugin.toml` that sits beside a plugin.
#[derive(Debug)]
pub struct PluginManifest {
    pub name: Option<String>,
    pub version: Option<String>,
    pub description: Option<String>,
    pub capabilities: Capabilities,
    pub dependencies: Dependencies,
}

/// What a plugin may reach.
#[derive(Debug)]
pub struct Capabilities {
    pub network_hosts: Vec<String>,
    pub filesystem: Option<FilesystemCapability>,
    pub execution: ExecCapability,
}

/// Filesystem access of a plugin.
#[derive(Debug)]
pub struct FilesystemCapability {
    pub mode: String,
    pub root_param: Option<String>,
}

/// Host binaries a plugin may run.
#[derive(Debug)]
pub struct ExecCapability {
    pub allowed_binaries: Vec<String>,
}

/// Binaries a plugin needs, by name.
#[derive(Debug)]
pub struct Dependencies {
    pub binaries: Vec<(String, BinaryDependencySpec)>,
}

/// Where and which version of a binary dependency to fetch.
#[derive(Debug)]
pub struct BinaryDependencySpec {
    pub version: String,
    pub optional: bool,
    pub description: Option<String>,
    pub url: Option<String>,
    pub sha256: Option<String>,
}

/// The record of installed plugins, keyed by plugin name.
#[derive(Debug)]
pub struct Lockfile {
    pub version: u32,
    pub plugins: Vec<(String, InstalledPlugin)>,
}

/// One installed plugin.
#[derive(Debug)]
pub struct InstalledPlugin {
    pub name: String,
    pub description: Option<String>,
    pub version: String,
    pub binary_path: String,
    pub native_binary_path: Option<String>,
    pub execution_kind: ExecutionKind,
    pub sha256: String,
    pub source: String,
    pub default_params: Vec<(String, String)>,
    pub manifest: Option<PluginManifest>,
}

/// A tool that a plugin offers.
#[derive(Debug)]
pub struct ToolDefinition {
    pub name: String,
    pub description: String,
    pub input_schema: JsonValue,
}

/// A resource that a plugin offers.
#[derive(Debug)]
pub struct ResourceDefinition {
    pub uri: String,
    pub name: String,
    pub description: String,
    pub mime_type: Option<String>,
}

/// One argument of a prompt.
#[derive(Debug)]
pub struct PromptArgument {
    pub name: String,
    pub description: String,
    pub required: bool,
}

/// A prompt that a plugin offers.
#[derive(Debug)]
pub struct PromptDefinition {
    pub name: String,
    pub description: String,
    pub arguments: Vec<PromptArgument>,
}

/// A plugin as listed in the remote registry.
#[derive(Debug)]
pub struct RegistryPluginSummary {
    pub name: String,
    pub latest: String,
    pub description: Option<String>,
    pub has_wasm: bool,
    pub has_native: bool,
}

/// A skill as listed in the remote registry.
#[derive(Debug)]
pub struct RegistrySkillSummary {
    pub name: String,
    pub latest: String,
    pub description: Option<String>,
    pub author: Option<String>,
    pub tags: Vec<String>,
}

/// One installed skill.
#[derive(Debug)]
pub struct InstalledSkill {
    pub name: String,
    pub description: Option<String>,
    pub version: String,
    pub author: Option<String>,
    pub source: String,
    pub files: Vec<SkillFile>,
}

/// One file of an installed skill, relative to the skill's directory.
#[derive(Debug)]
pub struct SkillFile {
    pub path: String,
    pub sha256: Option<String>,
}

/// The record of installed skills, keyed by skill name.
#[derive(Debug)]
pub struct SkillLockfile {
    pub version: u32,
    pub skills: Vec<(String, InstalledSkill)>,
}

/// Whether an installed artifact has a newer release in the registry.
#[derive(Debug)]
pub struct PluginUpdateStatus {
    pub name: String,
    pub installed_version: String,
    pub latest_version: String,
    pub has_update: bool,
    pub has_wasm: bool,
    pub has_native: bool,
}

/// The filesystem mode assumed when a manifest names none.
pub fn default_scoped_mode() -> (r: String)
    ensures
        r@ == "scoped"@,
{
    to_owned("scoped")
}

/// The text of an optional string.
pub open spec fn opt_view(o: Option<String>) -> Option<Seq<char>> {
    match o {
        Some(s) => Some(s@),
        None => None,
    }
}

impl PluginManifest {
    /// A manifest that declares nothing.
    pub fn empty() -> (r: PluginManifest)
        ensures
            r.name is None,
            r.version is None,
            r.description is None,
            r.capabilities.network_hosts@.len() == 0,
            r.capabilities.filesystem is None,
            r.capabilities.execution.allowed_binaries@.len() == 0,
            r.dependencies.binaries@.len() == 0,
    {
        PluginManifest {
            name: None,
            version: None,
            description: None,
            capabilities: Capabilities {
                network_hosts: Vec::new(),
                filesystem: None,
                execution: ExecCapability { allowed_binaries: Vec::new() },
            },
            dependencies: Dependencies { binaries: Vec::new() },
        }
    }
}

impl Lockfile {
    /// An empty lockfile.
    pub fn new() -> (r: Lockfile)
        ensures
            r.version == 0,
            r.plugins@.len() == 0,
    {
        Lockfile { version: 0, plugins: Vec::new() }
    }

    /// The plugin recorded under `name`.
    pub open spec fn entry(self, name: Seq<char>) -> Option<InstalledPlugin> {
        lookup(self.plugins@, name)
    }

    /// The plugin recorded under `name`.
    pub fn get(&self, name: &str) -> (r: Option<&InstalledPlugin>)
        ensures
            match r {
                Some(p) => self.entry(name@) == Some(*p),
                None => self.entry(name@) is None,
            },
    {
        get_value(&self.plugins, name)
    }

    /// Records `plugin` under `name`, replacing any earlier record.
    pub fn insert(&mut self, name: String, plugin: InstalledPlugin)
        ensures
            final(self).version == old(self).version,
            forall|k: Seq<char>| #[trigger]
                final(self).entry(k) == if k == name@ {
                    Some(plugin)
                } else {
                    old(self).entry(k)
                },
    {
        insert_value(&mut self.plugins, name, plugin);
    }

    /// Drops the record of `name`, returning it.
    pub fn remove(&mut self, name: &str) -> (r: Option<InstalledPlugin>)
        ensures
            r == old(self).entry(name@),
            final(self).version == old(self).version,
            final(self).plugins@ == without(old(self).plugins@, name@),
            forall|k: Seq<char>| #[trigger]
                final(self).entry(k) == if k == name@ {
                    None
                } else {
                    old(self).entry(k)
                },
    {
        remove_key(&mut self.plugins, name)
    }

    /// Whether no plugin is recorded.
    pub fn is_empty(&self) -> (r: bool)
        ensures
            r == (self.plugins@.len() == 0),
    {
        self.plugins.len() == 0
    }
}

impl SkillLockfile {
    /// An empty skill lockfile.
    pub fn new() -> (r: SkillLockfile)
        ensures
            r.version == 0,
            r.skills@.len() == 0,
    {
        SkillLockfile { version: 0, skills: Vec::new() }
    }

    /// The skill recorded under `name`.
    pub open spec fn entry(self, name: Seq<char>) -> Option<InstalledSkill> {
        lookup(self.skills@, name)
    }

    /// The skill recorded under `name`.
    pub fn get(&self, name: &str) -> (r: Option<&InstalledSkill>)
        ensures
            match r {
                Some(p) => self.entry(name@) == Some(*p),
                None => self.entry(name@) is None,
            },
    {
        get_value(&self.skills, name)
    }

    /// Records `skill` under `name`, replacing any earlier record.
    pub fn insert(&mut self, name: String, skill: InstalledSkill)
        ensures
            final(self).version == old(self).version,
            forall|k: Seq<char>| #[trigger]
                final(self).entry(k) == if k == name@ {
                    Some(skill)
                } else {
                    old(self).entry(k)
                },
    {
        insert_value(&mut self.skills, name, skill);
    }

    /// Drops the record of `name`, returning it.
    pub fn remove(&mut self, name: &str) -> (r: Option<InstalledSkill>)
        ensures
            r == old(self).entry(name@),
            final(self).version == old(self).version,
            final(self).skills@ == without(old(self).skills@, name@),
            forall|k: Seq<char>| #[trigger]
                final(self).entry(k) == if k == name@ {
                    None
                } else {
                    old(self).entry(k)
                },
    {
        remove_key(&mut self.skills, name)
    }
}

/// Recording a plugin and reading it back gives that plugin; removing it
/// afterwards leaves no record under its name and every other record as it
/// was before.
pub proof fn lemma_lockfile_record_cycle(
    before: Lockfile,
    recorded: Lockfile,
    removed: Lockfile,
    name: Seq<char>,
    plugin: InstalledPlugin,
)
    requires
        forall|k: Seq<char>| #[trigger] recorded.entry(k) == if k == name {
            Some(plugin)
        } else {
            before.entry(k)
        },
        forall|k: Seq<char>| #[trigger] removed.entry(k) == if k == name {
            None
        } else {
            recorded.entry(k)
        },
    ensures
        recorded.entry(name) == Some(plugin),
        removed.entry(name) is None,
        forall|k: Seq<char>| k != name ==> #[trigger] removed.entry(k) == before.entry(k),
{
    assert(recorded.entry(name) == Some(plugin));
    assert(removed.entry(name) is None);
    assert forall|k: Seq<char>| k != name implies #[trigger] removed.entry(k) == before.entry(k) by {
        assert(removed.entry(k) == recorded.entry(k));
    }
}

/// Recording a skill and reading it back gives that skill; removing it
/// afterwards leaves no record under its name and every other record as it
/// was before.
pub proof fn lemma_skill_lockfile_record_cycle(
    before: SkillLockfile,
    recorded: SkillLockfile,
    removed: SkillLockfile,
    name: Seq<char>,
    skill: InstalledSkill,
)
    requires
        forall|k: Seq<char>| #[trigger] recorded.entry(k) == if k == name {
            Some(skill)
        } else {
            before.entry(k)
        },
        forall|k: Seq<char>| #[trigger] removed.entry(k) == if k == name {
            None
        } else {
            recorded.entry(k)
        },
    ensures
        recorded.entry(name) == Some(skill),
        removed.entry(name) is None,
        forall|k: Seq<char>| k != name ==> #[trigger] removed.entry(k) == before.entry(k),
{
    assert(recorded.entry(name) == Some(skill));
    assert(removed.entry(name) is None);
    assert forall|k: Seq<char>| k != name implies #[trigger] removed.entry(k) == before.entry(k) by {
        assert(removed.entry(k) == recorded.entry(k));
    }
}

/// The common shape of installed and registry skill rows, so that one table
/// layout serves both.
pub trait SkillRow {
    /// The row's name.
    spec fn row_name(&self) -> Seq<char>;

    /// The row's version.
    spec fn row_version(&self) -> Seq<char>;

    /// The row's description.
    spec fn row_description(&self) -> Option<Seq<char>>;

    /// The row's author.
    spec fn row_author(&self) -> Option<Seq<char>>;

    fn name(&self) -> (r: &str)
        ensures
            r@ == self.row_name(),
    ;

    fn version(&self) -> (r: &str)
        ensures
            r@ == self.row_version(),
    ;

    fn description(&self) -> (r: Option<&str>)
        ensures
            match r {
                Some(d) => self.row_description() == Some(d@),
                None => self.row_description() is None,
            },
    ;

    fn author(&self) -> (r: Option<&str>)
        ensures
            match r {
                Some(a) => self.row_author() == Some(a@),
                None => self.row_author() is None,
            },
    ;
}

/// The text of an optional string, borrowed.
pub fn opt_as_str(o: &Option<String>) -> (r: Option<&str>)
    ensures
        match r {
            Some(t) => opt_view(*o) == Some(t@),
            None => o is None,
        },
{
    match o {
        Some(s) => Some(s.as_str()),
        None => None,
    }
}

impl SkillRow for InstalledSkill {
    open spec fn row_name(&self) -> Seq<char> {
        self.name@
    }

    open spec fn row_version(&self) -> Seq<char> {
        self.version@
    }

    open spec fn row_description(&self) -> Option<Seq<char>> {
        opt_view(self.description)
    }

    open spec fn row_author(&self) -> Option<Seq<char>> {
        opt_view(self.author)
    }

    fn name(&self) -> (r: &str) {
        self.name.as_str()
    }

    fn version(&self) -> (r: &str) {
        self.version.as_str()
    }

    fn description(&self) -> (r: Option<&str>) {
        opt_as_str(&self.description)
    }

    fn author(&self) -> (r: Option<&str>) {
        opt_as_str(&self.author)
    }
}

impl SkillRow for RegistrySkillSummary {
    open spec fn row_name(&self) -> Seq<char> {
        self.name@
    }

    open spec fn row_version(&self) -> Seq<char> {
        self.latest@
    }

    open spec fn row_description(&self) -> Option<Seq<char>> {
        opt_view(self.description)
    }

    open spec fn row_author(&self) -> Option<Seq<char>> {
        opt_view(self.author)
    }

    fn name(&self) -> (r: &str) {
        self.name.as_str()
    }

    fn version(&self) -> (r: &str) {
        self.latest.as_str()
    }

    fn description(&self) -> (r: Option<&str>) {
        opt_as_str(&self.description)
    }

    fn author(&self) -> (r: Option<&str>) {
        opt_as_str(&self.author)
    }
}

} // verus!
