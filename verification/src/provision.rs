//! Binaries that plugins run on the host: which ones a plugin may use,
//! where a provisioned one lies, and when a download may be trusted.
use vstd::prelude::*;
use crate::manifest::{opt_view, BinaryDependencySpec};
use crate::package::{
    data_dir, hex_of, home_spec, join_path, join_spec, opt_text, sha256_digest, sha256_hex, EntryVerdict,
};
use crate::text::{
    append_str, decimal, decimal_text, eq_ignore_ascii_case, eq_ignore_ascii_case_exec, str_eq, to_owned,
    trim, trim_exec, trim_start_matches,
};

verus! {

/// Why a binary could not be provided.
#[derive(Debug)]
pub enum ProvisionError {
    /// A file operation failed; the text is the system's message.
    Io(String),
    /// The download failed; the text is the client's message.
    Network(String),
    /// The download's digest differs from the one the plugin declares.
    ChecksumMismatch { name: String, expected: String, actual: String },
    /// The binary is not provisioned and cannot be fetched.
    NotFound(String),
    /// The plugin may not run this binary.
    Unauthorized(String),
    /// Another process is provisioning the binary right now.
    InProgress { name: String, progress_percent: u8, eta_seconds: u64 },
    /// The download could not be unpacked.
    Extraction(String),
    /// The lock that guards provisioning could not be taken.
    LockError(String),
}

impl ProvisionError {
    /// The message shown for this error.
    pub open spec fn text(self) -> Seq<char> {
        match self {
            ProvisionError::Io(s) => "IO error during binary provisioning: "@ + s@,
            ProvisionError::Network(s) => "Network download error: "@ + s@,
            ProvisionError::ChecksumMismatch { name, expected, actual } => "Checksum mismatch for binary '"@ + name@
                + "': expected "@ + expected@ + ", actual "@ + actual@,
            ProvisionError::NotFound(s) => "Binary '"@ + s@ + "' is not provisioned and no download source was found"@,
            ProvisionError::Unauthorized(s) => "Binary '"@ + s@ + "' is not in capabilities.exec.allowed_binaries allowlist"@,
            ProvisionError::InProgress { name, progress_percent, eta_seconds } => name@
                + " is currently being provisioned ("@ + decimal(progress_percent as nat) + "% downloaded). Please retry in "@
                + decimal(eta_seconds as nat) + " seconds."@,
            ProvisionError::Extraction(s) => "Archive extraction failed: "@ + s@,
            ProvisionError::LockError(s) => "Failed to acquire process lock: "@ + s@,
        }
    }

    /// The message shown for this error.
    pub fn message(&self) -> (r: String)
        ensures
            r@ == self.text(),
    {
        match self {
            ProvisionError::Io(s) => {
                let mut r = to_owned("IO error during binary provisioning: ");
                append_str(&mut r, s.as_str());
                r
            },
            ProvisionError::Network(s) => {
                let mut r = to_owned("Network download error: ");
                append_str(&mut r, s.as_str());
                r
            },
            ProvisionError::ChecksumMismatch { name, expected, actual } => {
                let mut r = to_owned("Checksum mismatch for binary '");
                append_str(&mut r, name.as_str());
                append_str(&mut r, "': expected ");
                append_str(&mut r, expected.as_str());
                append_str(&mut r, ", actual ");
                append_str(&mut r, actual.as_str());
                r
            },
            ProvisionError::NotFound(s) => {
                let mut r = to_owned("Binary '");
                append_str(&mut r, s.as_str());
                append_str(&mut r, "' is not provisioned and no download source was found");
                r
            },
            ProvisionError::Unauthorized(s) => {
                let mut r = to_owned("Binary '");
                append_str(&mut r, s.as_str());
                append_str(&mut r, "' is not in capabilities.exec.allowed_binaries allowlist");
                r
            },
            ProvisionError::InProgress { name, progress_percent, eta_seconds } => {
                let mut r = to_owned(name.as_str());
                append_str(&mut r, " is currently being provisioned (");
                let p = decimal_text(*progress_percent as u64);
                append_str(&mut r, p.as_str());
                append_str(&mut r, "% downloaded). Please retry in ");
                let e = decimal_text(*eta_seconds);
                append_str(&mut r, e.as_str());
                append_str(&mut r, " seconds.");
                r
            },
            ProvisionError::Extraction(s) => {
                let mut r = to_owned("Archive extraction failed: ");
                append_str(&mut r, s.as_str());
                r
            },
            ProvisionError::LockError(s) => {
                let mut r = to_owned("Failed to acquire process lock: ");
                append_str(&mut r, s.as_str());
                r
            },
        }
    }
}

/// `name` is on the allowlist.
pub open spec fn allowed(list: Seq<String>, name: Seq<char>) -> bool {
    exists|k: int| 0 <= k < list.len() && #[trigger] list[k]@ == name
}

/// Whether `name` is on the allowlist.
pub fn is_allowed(list: &Vec<String>, name: &str) -> (r: bool)
    ensures
        r == allowed(list@, name@),
{
    let mut k: usize = 0;
    while k < list.len()
        invariant
            k <= list@.len(),
            forall|q: int| 0 <= q < k ==> #[trigger] list@[q]@ != name@,
        decreases list.len() - k,
    {
        if str_eq(list[k].as_str(), name) {
            assert(list@[k as int]@ == name@);
            return true;
        }
        k = k + 1;
    }
    false
}

/// Provides the host binaries that plugins declare, under one directory.
#[derive(Debug)]
pub struct BinaryProvisioner {
    base_dir: String,
}

/// The directory provisioned binaries go to, under the data directory.
pub open spec fn bin_root_spec(data: Option<Seq<char>>) -> Seq<char> {
    join_spec(home_spec(data), "_bin"@)
}

/// The version directory a dependency is provisioned into: `latest` when
/// no version is declared, else the declared one without a leading `>=`
/// and surrounding whitespace.
pub open spec fn target_version_spec(v: Seq<char>) -> Seq<char> {
    if v.len() == 0 {
        "latest"@
    } else {
        trim(trim_start_matches(v, ">="@))
    }
}

impl BinaryProvisioner {
    /// The directory provisioned binaries go to.
    pub closed spec fn root(self) -> Seq<char> {
        self.base_dir@
    }

    /// A provisioner for the installation under `data_dir` (the working
    /// directory when there is none).
    pub fn with_data_dir(data_dir: Option<String>) -> (r: BinaryProvisioner)
        ensures
            r.root() == bin_root_spec(opt_view(data_dir)),
    {
        let home = match data_dir {
            Some(d) => join_path(d.as_str(), "rune-kit"),
            None => join_path(".", "rune-kit"),
        };
        BinaryProvisioner { base_dir: join_path(home.as_str(), "_bin") }
    }

    /// A provisioner for the installation under the user's data directory.
    pub fn new() -> (r: BinaryProvisioner)
        ensures
            exists|d: Option<Seq<char>>| #[trigger] bin_root_spec(d) == r.root(),
    {
        let d = data_dir();
        let r = BinaryProvisioner::with_data_dir(d);
        assert(bin_root_spec(opt_view(d)) == r.root());
        r
    }

    /// The directory provisioned binaries go to.
    pub fn base_dir(&self) -> (r: &str)
        ensures
            r@ == self.root(),
    {
        self.base_dir.as_str()
    }

    /// The directory that holds every version of binary `name`.
    pub fn binary_dir(&self, name: &str) -> (r: String)
        ensures
            r@ == join_spec(self.root(), name@),
    {
        join_path(self.base_dir.as_str(), name)
    }

    /// The lock file present while binary `name` is being provisioned.
    pub fn lock_path(&self, name: &str) -> (r: String)
        ensures
            r@ == join_spec(join_spec(self.root(), name@), ".lock"@),
    {
        let d = self.binary_dir(name);
        join_path(d.as_str(), ".lock")
    }

    /// The directory that version `version` of binary `name` goes to.
    pub fn version_dir(&self, name: &str, version: &str) -> (r: String)
        ensures
            r@ == join_spec(join_spec(self.root(), name@), version@),
    {
        let d = self.binary_dir(name);
        join_path(d.as_str(), version)
    }

    /// Whether a plugin may look up binary `name` now: it must be on the
    /// allowlist, and no provisioning of it may be under way.
    pub fn check_access(&self, name: &str, allowed_binaries: &Vec<String>, lock_exists: bool) -> (r: Result<(), ProvisionError>)
        ensures
            !allowed(allowed_binaries@, name@) ==> (r matches Err(e) && e matches ProvisionError::Unauthorized(n)
                && n@ == name@),
            allowed(allowed_binaries@, name@) && lock_exists ==> (r matches Err(e) && e matches ProvisionError::InProgress {
                name: n,
                progress_percent,
                eta_seconds,
            } && n@ == name@ && progress_percent == 45 && eta_seconds == 30),
            allowed(allowed_binaries@, name@) && !lock_exists ==> r is Ok,
    {
        if !is_allowed(allowed_binaries, name) {
            return Err(ProvisionError::Unauthorized(to_owned(name)));
        }
        if lock_exists {
            return Err(ProvisionError::InProgress { name: to_owned(name), progress_percent: 45, eta_seconds: 30 });
        }
        Ok(())
    }

    /// Where the provisioned binary `name` lies, given what a search of its
    /// verified version directories `found`: refused as by
    /// [`BinaryProvisioner::check_access`], else the found file, else not found.
    pub fn resolve_binary(
        &self,
        name: &str,
        allowed_binaries: &Vec<String>,
        lock_exists: bool,
        found: Option<String>,
    ) -> (r: Result<String, ProvisionError>)
        ensures
            !allowed(allowed_binaries@, name@) ==> (r matches Err(e) && e matches ProvisionError::Unauthorized(n)
                && n@ == name@),
            allowed(allowed_binaries@, name@) && lock_exists ==> (r matches Err(e) && e matches ProvisionError::InProgress {
                name: n,
                progress_percent,
                eta_seconds,
            } && n@ == name@ && progress_percent == 45 && eta_seconds == 30),
            allowed(allowed_binaries@, name@) && !lock_exists ==> match found {
                Some(p) => r matches Ok(q) && q@ == p@,
                None => r matches Err(e) && e matches ProvisionError::NotFound(n) && n@ == name@,
            },
    {
        match self.check_access(name, allowed_binaries, lock_exists) {
            Err(e) => Err(e),
            Ok(()) => match found {
                Some(p) => Ok(p),
                None => Err(ProvisionError::NotFound(to_owned(name))),
            },
        }
    }
}

impl Default for BinaryProvisioner {
    /// The provisioner for the installation under the user's data directory.
    fn default() -> (r: BinaryProvisioner)
        ensures
            exists|d: Option<Seq<char>>| #[trigger] bin_root_spec(d) == r.root(),
    {
        BinaryProvisioner::new()
    }
}

/// The two files a version directory may hold for binary `name`: the
/// binary itself and its `.exe` form, in the order they are tried.
pub fn binary_candidates(dir: &str, name: &str) -> (r: (String, String))
    ensures
        r.0@ == join_spec(dir@, name@),
        r.1@ == join_spec(dir@, name@ + ".exe"@),
{
    let mut exe = to_owned(name);
    append_str(&mut exe, ".exe");
    (join_path(dir, name), join_path(dir, exe.as_str()))
}

/// The version directory a dependency is provisioned into.
pub fn target_version(declared: &str) -> (r: String)
    ensures
        r@ == target_version_spec(declared@),
{
    if declared.unicode_len() == 0 {
        return to_owned("latest");
    }
    let stripped = crate::text::trim_start_matches_exec(declared, ">=");
    trim_exec(stripped.as_str())
}

/// The address a dependency is downloaded from.
pub fn download_url(name: &str, spec: &BinaryDependencySpec) -> (r: Result<String, ProvisionError>)
    ensures
        match spec.url {
            Some(u) => r matches Ok(v) && v@ == u@,
            None => r matches Err(e) && e matches ProvisionError::NotFound(m) && m@
                == "No download URL configured for required dependency '"@ + name@ + "'"@,
        },
{
    match &spec.url {
        Some(u) => Ok(to_owned(u.as_str())),
        None => {
            let mut m = to_owned("No download URL configured for required dependency '");
            append_str(&mut m, name);
            append_str(&mut m, "'");
            Err(ProvisionError::NotFound(m))
        },
    }
}

/// Checks a download against the digest the dependency declares (compared
/// without regard to ASCII case); a dependency that declares none accepts
/// any download.
pub fn verify_download(name: &str, spec: &BinaryDependencySpec, bytes: &[u8]) -> (r: Result<(), ProvisionError>)
    ensures
        match spec.sha256 {
            None => r is Ok,
            Some(expected) => if eq_ignore_ascii_case(hex_of(sha256_digest(bytes@)), expected@) {
                r is Ok
            } else {
                r matches Err(e) && e matches ProvisionError::ChecksumMismatch { name: n, expected: x, actual: a }
                    && n@ == name@ && x@ == expected@ && a@ == hex_of(sha256_digest(bytes@))
            },
        },
{
    match &spec.sha256 {
        None => Ok(()),
        Some(expected) => {
            let actual = sha256_hex(bytes);
            if eq_ignore_ascii_case_exec(actual.as_str(), expected.as_str()) {
                Ok(())
            } else {
                Err(ProvisionError::ChecksumMismatch {
                    name: to_owned(name),
                    expected: to_owned(expected.as_str()),
                    actual,
                })
            }
        },
    }
}

/// The state of the lock that guards provisioning.
#[derive(Clone, Copy, Debug, PartialEq, Eq, Structural)]
pub enum LockState {
    /// No lock is held.
    Free,
    /// A lock older than ten minutes is left behind; it may be removed.
    Stale,
    /// Another process holds the lock.
    Held,
}

/// The state of the lock, from whether its file exists and how many
/// seconds ago it was last changed (when that can be told): a lock older
/// than ten minutes is stale.
pub open spec fn lock_state_spec(exists: bool, age_secs: Option<u64>) -> LockState {
    if !exists {
        LockState::Free
    } else {
        match age_secs {
            Some(a) => if a > 600 {
                LockState::Stale
            } else {
                LockState::Held
            },
            None => LockState::Held,
        }
    }
}

/// The state of the lock, from whether its file exists and how many
/// seconds ago it was last changed.
pub fn lock_state(exists: bool, age_secs: Option<u64>) -> (r: LockState)
    ensures
        r == lock_state_spec(exists, age_secs),
{
    if !exists {
        LockState::Free
    } else {
        match age_secs {
            Some(a) => if a > 600 {
                LockState::Stale
            } else {
                LockState::Held
            },
            None => LockState::Held,
        }
    }
}

/// The error given while another process holds the lock: it names the
/// binary by the lock's directory (`binary` when that has no name).
pub fn lock_held_error(dir_name: Option<&str>) -> (r: ProvisionError)
    ensures
        r matches ProvisionError::InProgress { name, progress_percent, eta_seconds } && name@ == match opt_text(dir_name) {
            Some(n) => n,
            None => "binary"@,
        } && progress_percent == 50 && eta_seconds == 30,
{
    let name = match dir_name {
        Some(n) => to_owned(n),
        None => to_owned("binary"),
    };
    ProvisionError::InProgress { name, progress_percent: 50, eta_seconds: 30 }
}

/// A held provisioning lock: the lock file exists while this value does.
#[derive(Debug)]
pub struct FileLock {
    lock_path: String,
}

impl FileLock {
    /// The lock held through the file at `lock_path`.
    pub fn held_at(lock_path: String) -> (r: FileLock)
        ensures
            r.path_view() == lock_path@,
    {
        FileLock { lock_path }
    }

    /// The lock file.
    pub closed spec fn path_view(&self) -> Seq<char> {
        self.lock_path@
    }

    /// The lock file.
    pub fn path(&self) -> (r: &str)
        ensures
            r@ == self.path_view(),
    {
        self.lock_path.as_str()
    }
}

/// What to do with a directory entry while looking for a freshly unpacked
/// binary: a file whose stem is `expected` up to ASCII case is taken,
/// directories are searched, anything else is passed over.
pub fn classify_provisioned_entry(is_file: bool, is_dir: bool, stem: &str, expected: &str) -> (r: EntryVerdict)
    ensures
        r == if is_file {
            if eq_ignore_ascii_case(stem@, expected@) {
                EntryVerdict::Take
            } else {
                EntryVerdict::Skip
            }
        } else if is_dir {
            EntryVerdict::Descend
        } else {
            EntryVerdict::Skip
        },
{
    if is_file {
        if eq_ignore_ascii_case_exec(stem, expected) {
            EntryVerdict::Take
        } else {
            EntryVerdict::Skip
        }
    } else if is_dir {
        EntryVerdict::Descend
    } else {
        EntryVerdict::Skip
    }
}

} // verus!
