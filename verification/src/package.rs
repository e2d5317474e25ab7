//! Installing, recording and removing plugins and skills: the decisions of
//! the package manager, apart from the downloads and file operations that
//! carry them out.
use vstd::prelude::*;
use vstd::string::*;
use crate::manifest::{
    opt_view, ExecutionKind, InstalledPlugin, Lockfile, PluginInfo, SkillFile,
    SkillLockfile,
};
use crate::registry::{sort_by_name, sorted_by_name, Named};
use crate::text::{
    append_str, chars_of, contains, contains_char, contains_seq, ends_with, eq_ignore_ascii_case,
    eq_ignore_ascii_case_exec, is_prefix, is_suffix, push_char, replace_all, replace_exec,
    starts_with, str_eq, to_owned,
};
use crate::version::{is_newer_version, lemma_newer_irreflexive};

verus! {

/// Why a package operation failed.
#[derive(Debug)]
pub enum PackageError {
    /// A file operation failed; the text is the system's message.
    Io(String),
    /// A download failed; the text is the client's message.
    Network(String),
    /// The registry has no such package or artifact.
    NotFound(String),
    /// The request cannot be carried out as given.
    InvalidSpec(String),
    /// Probing the installed plugin failed.
    Runtime(String),
    /// Replacing the command's own binary failed.
    SelfUpdate(String),
}

impl PackageError {
    /// The message shown for this error.
    pub open spec fn text(self) -> Seq<char> {
        match self {
            PackageError::Io(s) => "IO error: "@ + s@,
            PackageError::Network(s) => "Network request failed: "@ + s@,
            PackageError::NotFound(s) => "Plugin '"@ + s@ + "' not found in registry"@,
            PackageError::InvalidSpec(s) => "Invalid package specification: "@ + s@,
            PackageError::Runtime(s) => "Runtime initialization probe failed: "@ + s@,
            PackageError::SelfUpdate(s) => "Self-update error: "@ + s@,
        }
    }

    /// The message shown for this error.
    pub fn message(&self) -> (r: String)
        ensures
            r@ == self.text(),
    {
        match self {
            PackageError::Io(s) => {
                let mut r = to_owned("IO error: ");
                append_str(&mut r, s.as_str());
                r
            },
            PackageError::Network(s) => {
                let mut r = to_owned("Network request failed: ");
                append_str(&mut r, s.as_str());
                r
            },
            PackageError::NotFound(s) => {
                let mut r = to_owned("Plugin '");
                append_str(&mut r, s.as_str());
                append_str(&mut r, "' not found in registry");
                r
            },
            PackageError::InvalidSpec(s) => {
                let mut r = to_owned("Invalid package specification: ");
                append_str(&mut r, s.as_str());
                r
            },
            PackageError::Runtime(s) => {
                let mut r = to_owned("Runtime initialization probe failed: ");
                append_str(&mut r, s.as_str());
                r
            },
            PackageError::SelfUpdate(s) => {
                let mut r = to_owned("Self-update error: ");
                append_str(&mut r, s.as_str());
                r
            },
        }
    }
}

/// A path component that would leave its directory: empty, holding a
/// separator, or holding `..`.
pub open spec fn unsafe_component(v: Seq<char>) -> bool {
    v.len() == 0 || v.contains('/') || v.contains('\\') || contains_seq(v, ".."@)
}

/// Refuses a name or version that cannot serve as one path component.
pub fn sanitize_path_component(value: &str, label: &str) -> (r: Result<(), PackageError>)
    ensures
        r is Ok <==> !unsafe_component(value@),
        r matches Err(e) ==> e matches PackageError::InvalidSpec(m) && m@ == "Invalid "@ + label@ + ": '"@
            + value@ + "' must not contain path separators"@,
{
    let n = value.unicode_len();
    if n == 0 || contains_char(value, '/') || contains_char(value, '\\') || contains(value, "..") {
        let mut m = to_owned("Invalid ");
        append_str(&mut m, label);
        append_str(&mut m, ": '");
        append_str(&mut m, value);
        append_str(&mut m, "' must not contain path separators");
        return Err(PackageError::InvalidSpec(m));
    }
    Ok(())
}

// ---------------------------------------------------------------------------
// Checksums
// ---------------------------------------------------------------------------

/// The SHA-256 digest of `data` as the `sha2` crate computes it.
pub uninterp spec fn sha256_digest(data: Seq<u8>) -> Seq<u8>;

/// Calls `sha2::Sha256::digest` on `data` and copies the digest out; the
/// contract says only that the result is the digest of exactly these bytes.
#[verifier::external_body]
fn sha256_bytes(data: &[u8]) -> (r: Vec<u8>)
    ensures
        r@ == sha256_digest(data@),
{
    <sha2::Sha256 as sha2::Digest>::digest(data).to_vec()
}

/// The lowercase hexadecimal digit of `n`.
pub open spec fn hex_digit(n: int) -> char {
    "0123456789abcdef"@[n]
}

/// `bytes` in lowercase hexadecimal, two digits per byte.
pub open spec fn hex_of(bytes: Seq<u8>) -> Seq<char>
    decreases bytes.len(),
{
    if bytes.len() == 0 {
        Seq::empty()
    } else {
        hex_of(bytes.drop_last()) + seq![hex_digit(bytes.last() as int / 16), hex_digit(bytes.last() as int % 16)]
    }
}

/// The hexadecimal form of `bytes` has two digits per byte.
pub proof fn lemma_hex_len(bytes: Seq<u8>)
    ensures
        hex_of(bytes).len() == 2 * bytes.len(),
    decreases bytes.len(),
{
    if bytes.len() > 0 {
        lemma_hex_len(bytes.drop_last());
    }
}

/// `bytes` in lowercase hexadecimal.
pub fn hex_encode(bytes: &[u8]) -> (r: String)
    ensures
        r@ == hex_of(bytes@),
{
    let digits = "0123456789abcdef";
    proof {
        reveal_strlit("0123456789abcdef");
    }
    let mut r = String::new();
    let mut i: usize = 0;
    while i < bytes.len()
        invariant
            i <= bytes@.len(),
            digits@ == "0123456789abcdef"@,
            digits@.len() == 16,
            r@ == hex_of(bytes@.take(i as int)),
        decreases bytes.len() - i,
    {
        let b = bytes[i];
        assert(bytes@.take(i + 1).drop_last() =~= bytes@.take(i as int));
        assert(bytes@.take(i + 1).last() == b);
        let hi = digits.get_char((b / 16) as usize);
        let lo = digits.get_char((b % 16) as usize);
        push_char(&mut r, hi);
        push_char(&mut r, lo);
        assert(r@ =~= hex_of(bytes@.take(i + 1)));
        i = i + 1;
    }
    assert(bytes@.take(bytes@.len() as int) =~= bytes@);
    r
}

/// The SHA-256 digest of `data` in lowercase hexadecimal.
pub fn sha256_hex(data: &[u8]) -> (r: String)
    ensures
        r@ == hex_of(sha256_digest(data@)),
{
    let d = sha256_bytes(data);
    hex_encode(d.as_slice())
}

/// The checksum recorded for an installed plugin: that of the WebAssembly
/// module when there is one, else that of the native download, else
/// nothing.
pub open spec fn artifact_checksum_spec(wasm: Option<Seq<u8>>, native: Option<Seq<u8>>) -> Seq<char> {
    match wasm {
        Some(w) => hex_of(sha256_digest(w)),
        None => match native {
            Some(n) => hex_of(sha256_digest(n)),
            None => Seq::empty(),
        },
    }
}

/// The bytes of an optional slice.
pub open spec fn opt_bytes(o: Option<&[u8]>) -> Option<Seq<u8>> {
    match o {
        Some(b) => Some(b@),
        None => None,
    }
}

/// The checksum recorded for an installed plugin.
pub fn artifact_checksum(wasm: Option<&[u8]>, native: Option<&[u8]>) -> (r: String)
    ensures
        r@ == artifact_checksum_spec(opt_bytes(wasm), opt_bytes(native)),
{
    match wasm {
        Some(w) => sha256_hex(w),
        None => match native {
            Some(n) => sha256_hex(n),
            None => String::new(),
        },
    }
}

/// The bytes of an optional buffer.
pub open spec fn opt_buffer(o: Option<Vec<u8>>) -> Option<Seq<u8>> {
    match o {
        Some(b) => Some(b@),
        None => None,
    }
}

/// What was fetched for an install: the name and version it goes by, the
/// builds that were downloaded or read, and where they came from.
#[derive(Debug)]
pub struct FetchedBundle {
    pub name: String,
    pub version: Option<String>,
    pub wasm_bytes: Option<Vec<u8>>,
    pub native_bytes: Option<Vec<u8>>,
    pub source: String,
}

impl FetchedBundle {
    /// The bundle of a registry package at version `version`.
    pub fn from_registry(name: &str, version: String, wasm_bytes: Option<Vec<u8>>, native_bytes: Option<Vec<u8>>) -> (r:
        FetchedBundle)
        ensures
            r.name@ == name@,
            r.version matches Some(v) && v@ == version@,
            r.wasm_bytes == wasm_bytes,
            r.native_bytes == native_bytes,
            r.source@ == "registry"@,
    {
        FetchedBundle { name: to_owned(name), version: Some(version), wasm_bytes, native_bytes, source: to_owned("registry") }
    }

    /// The checksum recorded for the plugin installed from this bundle.
    pub fn checksum(&self) -> (r: String)
        ensures
            r@ == artifact_checksum_spec(opt_buffer(self.wasm_bytes), opt_buffer(self.native_bytes)),
    {
        let wasm = match &self.wasm_bytes {
            Some(w) => Some(w.as_slice()),
            None => None,
        };
        let native = match &self.native_bytes {
            Some(n) => Some(n.as_slice()),
            None => None,
        };
        artifact_checksum(wasm, native)
    }
}

// ---------------------------------------------------------------------------
// Archives and targets
// ---------------------------------------------------------------------------

/// How downloaded bytes are packed.
#[derive(Clone, Copy, Debug, PartialEq, Eq, Structural)]
pub enum ArchiveKind {
    /// A ZIP archive (`PK\x03\x04`).
    Zip,
    /// A gzip-compressed tarball (`\x1f\x8b`).
    Gzip,
    /// Anything else: the bytes are the binary itself.
    Plain,
}

/// How `b` is packed, by its leading bytes.
pub open spec fn archive_kind_spec(b: Seq<u8>) -> ArchiveKind {
    if b.len() >= 4 && b[0] == 0x50 && b[1] == 0x4b && b[2] == 0x03 && b[3] == 0x04 {
        ArchiveKind::Zip
    } else if b.len() >= 2 && b[0] == 0x1f && b[1] == 0x8b {
        ArchiveKind::Gzip
    } else {
        ArchiveKind::Plain
    }
}

/// How `bytes` are packed.
pub fn archive_kind(bytes: &[u8]) -> (r: ArchiveKind)
    ensures
        r == archive_kind_spec(bytes@),
{
    let n = bytes.len();
    if n >= 4 && bytes[0] == 0x50 && bytes[1] == 0x4b && bytes[2] == 0x03 && bytes[3] == 0x04 {
        ArchiveKind::Zip
    } else if n >= 2 && bytes[0] == 0x1f && bytes[1] == 0x8b {
        ArchiveKind::Gzip
    } else {
        ArchiveKind::Plain
    }
}

/// An archive member is the binary `name`: its path is `name` or ends in
/// `/name`.
pub open spec fn member_is_binary(path: Seq<char>, name: Seq<char>) -> bool {
    path == name || is_suffix("/"@ + name, path)
}

/// Whether the archive member at `path` is the binary `name`.
pub fn archive_member_matches(path: &str, name: &str) -> (r: bool)
    ensures
        r == member_is_binary(path@, name@),
{
    let mut suffix = to_owned("/");
    append_str(&mut suffix, name);
    str_eq(path, name) || ends_with(path, suffix.as_str())
}

// ---------------------------------------------------------------------------
// Reading one binary out of a release archive
// ---------------------------------------------------------------------------

/// An archive reader's answer by views: the value by its deep view, the
/// error by its message.
pub open spec fn read_view<T: DeepView>(r: Result<T, String>) -> Result<T::V, Seq<char>> {
    match r {
        Ok(v) => Ok(v.deep_view()),
        Err(e) => Err(e@),
    }
}

/// How many members the `zip` crate finds in the central directory of the
/// ZIP archive `bytes`, or its message when it refuses the archive.
pub uninterp spec fn zip_count(bytes: Seq<u8>) -> Result<usize, Seq<char>>;

/// The name of member `i` of the ZIP archive `bytes` as the `zip` crate
/// reads it (`None` when the stored name cannot be decoded), or its message
/// when it cannot open that member.
pub uninterp spec fn zip_name(bytes: Seq<u8>, i: usize) -> Result<Option<Seq<char>>, Seq<char>>;

/// The uncompressed contents of member `i` of the ZIP archive `bytes` as
/// the `zip` crate reads them, or its message when reading fails.
pub uninterp spec fn zip_data(bytes: Seq<u8>, i: usize) -> Result<Seq<u8>, Seq<char>>;

/// How many items the `tar` crate's entry walk over the gzip-compressed
/// tarball `bytes` yields (a failed item counts and ends the walk), or its
/// message when the walk cannot start.
pub uninterp spec fn tar_gz_count(bytes: Seq<u8>) -> Result<usize, Seq<char>>;

/// The file name of entry `i` of the gzip-compressed tarball `bytes` as the
/// `tar` crate reads it: `None` past the last entry, `Some(None)` when the
/// path has no file name in UTF-8, or the message of a failed read.
pub uninterp spec fn tar_gz_name(bytes: Seq<u8>, i: usize) -> Result<Option<Option<Seq<char>>>, Seq<char>>;

/// The contents of entry `i` of the gzip-compressed tarball `bytes` as the
/// `tar` crate reads them: `None` past the last entry, or the message of a
/// failed read.
pub uninterp spec fn tar_gz_data(bytes: Seq<u8>, i: usize) -> Result<Option<Seq<u8>>, Seq<char>>;

/// Opens `bytes` with `zip::ZipArchive::new` and takes `len`; the contract
/// says only that the answer is the one the crate gives for these bytes.
#[verifier::external_body]
fn read_zip_count(bytes: &[u8]) -> (r: Result<usize, String>)
    ensures
        read_view(r) == zip_count(bytes@),
{
    match zip::ZipArchive::new(std::io::Cursor::new(bytes)) {
        Ok(archive) => Ok(archive.len()),
        Err(e) => Err(e.to_string()),
    }
}

/// Opens `bytes` with `zip::ZipArchive::new`, takes member `i` with
/// `by_index` and asks its `name`; the contract says only that the answer is
/// the one the crate gives for these bytes and this index.
#[verifier::external_body]
fn read_zip_name(bytes: &[u8], i: usize) -> (r: Result<Option<String>, String>)
    ensures
        read_view(r) == zip_name(bytes@, i),
{
    let mut archive = match zip::ZipArchive::new(std::io::Cursor::new(bytes)) {
        Ok(a) => a,
        Err(e) => return Err(e.to_string()),
    };
    let name = match archive.by_index(i) {
        Ok(file) => Ok(file.name().ok().map(|n| n.into_owned())),
        Err(e) => Err(e.to_string()),
    };
    name
}

/// Opens `bytes` with `zip::ZipArchive::new`, takes member `i` with
/// `by_index` and reads it to the end; the contract says only that the
/// answer is the one the crate gives for these bytes and this index.
#[verifier::external_body]
fn read_zip_data(bytes: &[u8], i: usize) -> (r: Result<Vec<u8>, String>)
    ensures
        read_view(r) == zip_data(bytes@, i),
{
    let mut archive = match zip::ZipArchive::new(std::io::Cursor::new(bytes)) {
        Ok(a) => a,
        Err(e) => return Err(e.to_string()),
    };
    let mut file = match archive.by_index(i) {
        Ok(f) => f,
        Err(e) => return Err(e.to_string()),
    };
    let mut buf = Vec::new();
    match std::io::Read::read_to_end(&mut file, &mut buf) {
        Ok(_) => Ok(buf),
        Err(e) => Err(e.to_string()),
    }
}

/// Walks the entries of `tar::Archive::new(flate2::read::GzDecoder::new(bytes))`
/// and counts them; the contract says only that the answer is the one the
/// crates give for these bytes.
#[verifier::external_body]
fn read_tar_gz_count(bytes: &[u8]) -> (r: Result<usize, String>)
    ensures
        read_view(r) == tar_gz_count(bytes@),
{
    let mut archive = tar::Archive::new(flate2::read::GzDecoder::new(bytes));
    match archive.entries() {
        Ok(entries) => Ok(entries.count()),
        Err(e) => Err(e.to_string()),
    }
}

/// Takes entry `i` of the walk over
/// `tar::Archive::new(flate2::read::GzDecoder::new(bytes))` and the file name
/// of its `path`; the contract says only that the answer is the one the
/// crates give for these bytes and this index.
#[verifier::external_body]
fn read_tar_gz_name(bytes: &[u8], i: usize) -> (r: Result<Option<Option<String>>, String>)
    ensures
        read_view(r) == tar_gz_name(bytes@, i),
{
    let mut archive = tar::Archive::new(flate2::read::GzDecoder::new(bytes));
    let entry = match archive.entries() {
        Ok(mut entries) => entries.nth(i),
        Err(e) => return Err(e.to_string()),
    };
    match entry {
        None => Ok(None),
        Some(Err(e)) => Err(e.to_string()),
        Some(Ok(entry)) => match entry.path() {
            Ok(p) => Ok(Some(p.file_name().and_then(|s| s.to_str()).map(String::from))),
            Err(e) => Err(e.to_string()),
        },
    }
}

/// Takes entry `i` of the walk over
/// `tar::Archive::new(flate2::read::GzDecoder::new(bytes))` and reads it to
/// the end; the contract says only that the answer is the one the crates
/// give for these bytes and this index.
#[verifier::external_body]
fn read_tar_gz_data(bytes: &[u8], i: usize) -> (r: Result<Option<Vec<u8>>, String>)
    ensures
        read_view(r) == tar_gz_data(bytes@, i),
{
    let mut archive = tar::Archive::new(flate2::read::GzDecoder::new(bytes));
    let entry = match archive.entries() {
        Ok(mut entries) => entries.nth(i),
        Err(e) => return Err(e.to_string()),
    };
    let mut buf = Vec::new();
    match entry {
        None => Ok(None),
        Some(Err(e)) => Err(e.to_string()),
        Some(Ok(mut entry)) => match std::io::Read::read_to_end(&mut entry, &mut buf) {
            Ok(_) => Ok(Some(buf)),
            Err(e) => Err(e.to_string()),
        },
    }
}

/// What looking for the binary inside a downloaded archive comes to.
pub enum BinaryPick {
    /// The binary's bytes.
    Found(Seq<u8>),
    /// A read failed with this message (`PackageError::Io`).
    Io(Seq<char>),
    /// The archive was refused with this message (`PackageError::InvalidSpec`).
    Invalid(Seq<char>),
    /// No member is the binary.
    Missing,
}

/// The message for an archive without the binary `name`.
pub open spec fn missing_binary_text(name: Seq<char>) -> Seq<char> {
    "Binary '"@ + name + "' not found inside downloaded archive"@
}

/// `r` is the outcome `p` of looking for the binary `name`.
pub open spec fn delivers(r: Result<Vec<u8>, PackageError>, p: BinaryPick, name: Seq<char>) -> bool {
    match p {
        BinaryPick::Found(d) => r matches Ok(v) && v@ == d,
        BinaryPick::Io(m) => r matches Err(PackageError::Io(s)) && s@ == m,
        BinaryPick::Invalid(m) => r matches Err(PackageError::InvalidSpec(s)) && s@ == m,
        BinaryPick::Missing => r matches Err(PackageError::SelfUpdate(s)) && s@ == missing_binary_text(name),
    }
}

/// A member name that could not be decoded counts as empty.
pub open spec fn name_or_empty(n: Option<Seq<char>>) -> Seq<char> {
    match n {
        Some(s) => s,
        None => Seq::empty(),
    }
}

/// The binary `name` among ZIP members `i` and on, of `count`: the first
/// member whose path is `name` or ends in `/name`; a member that cannot be
/// opened ends the search.
pub open spec fn zip_pick(bytes: Seq<u8>, name: Seq<char>, count: usize, i: usize) -> BinaryPick
    decreases count - i,
{
    if i >= count {
        BinaryPick::Missing
    } else {
        match zip_name(bytes, i) {
            Err(e) => BinaryPick::Invalid("Zip entry error: "@ + e),
            Ok(n) => if member_is_binary(name_or_empty(n), name) {
                match zip_data(bytes, i) {
                    Ok(d) => BinaryPick::Found(d),
                    Err(e) => BinaryPick::Io(e),
                }
            } else {
                zip_pick(bytes, name, count, (i + 1) as usize)
            },
        }
    }
}

/// The binary `name` among tarball entries `i` and on, of `count`: the
/// first entry whose file name is exactly `name`; a failed read ends the
/// search.
pub open spec fn tar_pick(bytes: Seq<u8>, name: Seq<char>, count: usize, i: usize) -> BinaryPick
    decreases count - i,
{
    if i >= count {
        BinaryPick::Missing
    } else {
        match tar_gz_name(bytes, i) {
            Err(e) => BinaryPick::Io(e),
            Ok(None) => BinaryPick::Missing,
            Ok(Some(n)) => if name_or_empty(n) == name {
                match tar_gz_data(bytes, i) {
                    Ok(Some(d)) => BinaryPick::Found(d),
                    Ok(None) => BinaryPick::Missing,
                    Err(e) => BinaryPick::Io(e),
                }
            } else {
                tar_pick(bytes, name, count, (i + 1) as usize)
            },
        }
    }
}

/// The binary `name` out of the downloaded release `bytes`: a ZIP archive
/// gives its first member named `name` or `…/name`, a gzip-compressed
/// tarball its first entry whose file name is `name`, anything else is the
/// binary itself.
pub open spec fn single_binary_spec(bytes: Seq<u8>, name: Seq<char>) -> BinaryPick {
    match archive_kind_spec(bytes) {
        ArchiveKind::Plain => BinaryPick::Found(bytes),
        ArchiveKind::Zip => match zip_count(bytes) {
            Err(e) => BinaryPick::Invalid("Zip read error: "@ + e),
            Ok(c) => zip_pick(bytes, name, c, 0),
        },
        ArchiveKind::Gzip => match tar_gz_count(bytes) {
            Err(e) => BinaryPick::Io(e),
            Ok(c) => tar_pick(bytes, name, c, 0),
        },
    }
}

/// The error for an archive without the binary `name`.
fn missing_binary(name: &str) -> (e: PackageError)
    ensures
        e matches PackageError::SelfUpdate(s) && s@ == missing_binary_text(name@),
{
    let mut m = to_owned("Binary '");
    append_str(&mut m, name);
    append_str(&mut m, "' not found inside downloaded archive");
    PackageError::SelfUpdate(m)
}

/// `prefix` followed by `detail`.
fn prefixed(prefix: &str, detail: &str) -> (r: String)
    ensures
        r@ == prefix@ + detail@,
{
    let mut m = to_owned(prefix);
    append_str(&mut m, detail);
    m
}

/// Whether a member name read from an archive is the binary `name`; a name
/// that could not be decoded counts as empty.
fn zip_member_is(n: &Option<String>, name: &str) -> (r: bool)
    ensures
        r == member_is_binary(name_or_empty(opt_view(*n)), name@),
{
    match n {
        Some(s) => {
            assert(opt_view(*n) == Some(s@));
            archive_member_matches(s.as_str(), name)
        },
        None => {
            let empty = "";
            proof {
                reveal_strlit("");
                assert(empty@ =~= Seq::<char>::empty());
            }
            archive_member_matches(empty, name)
        },
    }
}

/// Whether a tarball entry's file name is exactly `name`; a name that could
/// not be decoded counts as empty.
fn tar_entry_is(n: &Option<String>, name: &str) -> (r: bool)
    ensures
        r == (name_or_empty(opt_view(*n)) == name@),
{
    match n {
        Some(s) => {
            assert(opt_view(*n) == Some(s@));
            str_eq(s.as_str(), name)
        },
        None => {
            let empty = "";
            proof {
                reveal_strlit("");
                assert(empty@ =~= Seq::<char>::empty());
            }
            str_eq(empty, name)
        },
    }
}

/// The binary `binary_name` out of the downloaded release `bytes` (see
/// `single_binary_spec`).
pub fn extract_single_binary(bytes: &[u8], binary_name: &str) -> (r: Result<Vec<u8>, PackageError>)
    ensures
        delivers(r, single_binary_spec(bytes@, binary_name@), binary_name@),
{
    match archive_kind(bytes) {
        ArchiveKind::Plain => Ok(vstd::slice::slice_to_vec(bytes)),
        ArchiveKind::Zip => {
            let count = match read_zip_count(bytes) {
                Ok(c) => c,
                Err(e) => return Err(PackageError::InvalidSpec(prefixed("Zip read error: ", e.as_str()))),
            };
            let mut i: usize = 0;
            while i < count
                invariant
                    i <= count,
                    zip_pick(bytes@, binary_name@, count, i) == single_binary_spec(bytes@, binary_name@),
                decreases count - i,
            {
                let n = match read_zip_name(bytes, i) {
                    Ok(n) => n,
                    Err(e) => return Err(PackageError::InvalidSpec(prefixed("Zip entry error: ", e.as_str()))),
                };
                assert(opt_view(n) == n.deep_view());
                if zip_member_is(&n, binary_name) {
                    return match read_zip_data(bytes, i) {
                        Ok(d) => {
                            assert(d.deep_view() =~= d@);
                            Ok(d)
                        },
                        Err(e) => Err(PackageError::Io(e)),
                    };
                }
                i = i + 1;
            }
            Err(missing_binary(binary_name))
        },
        ArchiveKind::Gzip => {
            let count = match read_tar_gz_count(bytes) {
                Ok(c) => c,
                Err(e) => return Err(PackageError::Io(e)),
            };
            let mut i: usize = 0;
            while i < count
                invariant
                    i <= count,
                    tar_pick(bytes@, binary_name@, count, i) == single_binary_spec(bytes@, binary_name@),
                decreases count - i,
            {
                let n = match read_tar_gz_name(bytes, i) {
                    Ok(Some(n)) => n,
                    Ok(None) => return Err(missing_binary(binary_name)),
                    Err(e) => return Err(PackageError::Io(e)),
                };
                assert(opt_view(n) == n.deep_view());
                if tar_entry_is(&n, binary_name) {
                    return match read_tar_gz_data(bytes, i) {
                        Ok(Some(d)) => {
                            assert(d.deep_view() =~= d@);
                            Ok(d)
                        },
                        Ok(None) => Err(missing_binary(binary_name)),
                        Err(e) => Err(PackageError::Io(e)),
                    };
                }
                i = i + 1;
            }
            Err(missing_binary(binary_name))
        },
    }
}

/// A target names a native build by its extension (`.exe` counts on
/// Windows only).
pub open spec fn native_suffix(t: Seq<char>, windows: bool) -> bool {
    is_suffix(".zip"@, t) || is_suffix(".tar.gz"@, t) || is_suffix(".tgz"@, t) || (windows && is_suffix(
        ".exe"@,
        t,
    ))
}

/// A target is a native archive or binary: it has a native extension, or
/// it is an existing file that is not a `.wasm` module.
pub open spec fn native_target(t: Seq<char>, windows: bool, is_file: bool) -> bool {
    native_suffix(t, windows) || (!is_suffix(".wasm"@, t) && is_file)
}

/// Whether `target` is a native archive or binary; `is_file` says whether
/// it names an existing file.
pub fn is_native_archive_or_binary(target: &str, windows: bool, is_file: bool) -> (r: bool)
    ensures
        r == native_target(target@, windows, is_file),
{
    ends_with(target, ".zip") || ends_with(target, ".tar.gz") || ends_with(target, ".tgz") || (windows
        && ends_with(target, ".exe")) || (!ends_with(target, ".wasm") && is_file)
}

/// Where an install target comes from.
#[derive(Clone, Copy, Debug, PartialEq, Eq, Structural)]
pub enum TargetKind {
    /// A WebAssembly module on disk.
    LocalWasm,
    /// A native archive or binary on disk.
    LocalNative,
    /// A download address; `true` when it is a WebAssembly module.
    Remote(bool),
    /// A name to look up in the registry.
    Registry,
}

/// Where the install target `t` comes from, given whether it exists on disk
/// and whether it is a file there.
pub open spec fn target_kind_spec(t: Seq<char>, exists: bool, is_file: bool, windows: bool) -> TargetKind {
    if is_suffix(".wasm"@, t) && exists {
        TargetKind::LocalWasm
    } else if native_target(t, windows, is_file) && exists {
        TargetKind::LocalNative
    } else if is_prefix("http://"@, t) || is_prefix("https://"@, t) {
        TargetKind::Remote(is_suffix(".wasm"@, t))
    } else {
        TargetKind::Registry
    }
}

/// Where the install target comes from.
pub fn classify_target(target: &str, exists: bool, is_file: bool, windows: bool) -> (r: TargetKind)
    ensures
        r == target_kind_spec(target@, exists, is_file, windows),
{
    if ends_with(target, ".wasm") && exists {
        TargetKind::LocalWasm
    } else if is_native_archive_or_binary(target, windows, is_file) && exists {
        TargetKind::LocalNative
    } else if starts_with(target, "http://") || starts_with(target, "https://") {
        TargetKind::Remote(ends_with(target, ".wasm"))
    } else {
        TargetKind::Registry
    }
}

/// An install target names a skill: a document, or a name with `__` in it
/// or starting with `#`.
pub open spec fn skill_target(t: Seq<char>) -> bool {
    is_suffix(".md"@, t) || is_suffix(".txt"@, t) || is_suffix(".rst"@, t) || is_suffix(".markdown"@, t)
        || contains_seq(t, "__"@) || is_prefix("#"@, t)
}

/// Whether an install target names a skill rather than a plugin.
pub fn is_skill_target(target: &str) -> (r: bool)
    ensures
        r == skill_target(target@),
{
    ends_with(target, ".md") || ends_with(target, ".txt") || ends_with(target, ".rst") || ends_with(
        target,
        ".markdown",
    ) || contains(target, "__") || starts_with(target, "#")
}

/// The name given to a plugin read from a local file: the file's stem; a
/// WebAssembly module without one is refused, a native build falls back to
/// `plugin`.
pub fn local_plugin_name(target: &str, stem: Option<&str>, wasm: bool) -> (r: Result<String, PackageError>)
    ensures
        match stem {
            Some(t) => r matches Ok(n) && n@ == t@,
            None => if wasm {
                r matches Err(e) && e matches PackageError::InvalidSpec(m) && m@
                    == "Cannot derive a plugin name from path '"@ + target@ + "'"@
            } else {
                r matches Ok(n) && n@ == "plugin"@
            },
        },
{
    match stem {
        Some(t) => Ok(to_owned(t)),
        None => if wasm {
            let mut m = to_owned("Cannot derive a plugin name from path '");
            append_str(&mut m, target);
            append_str(&mut m, "'");
            Err(PackageError::InvalidSpec(m))
        } else {
            Ok(to_owned("plugin"))
        },
    }
}

/// Where a skill to install comes from.
#[derive(Clone, Copy, Debug, PartialEq, Eq, Structural)]
pub enum SkillSource {
    /// A download address.
    Url,
    /// A file on disk.
    LocalFile,
    /// A name to look up in the registry.
    Registry,
}

/// A skill target is a download address when it starts with `http://` or
/// `https://`, a local file when that path exists, else a registry name.
pub open spec fn skill_source_spec(t: Seq<char>, exists: bool) -> SkillSource {
    if is_prefix("http://"@, t) || is_prefix("https://"@, t) {
        SkillSource::Url
    } else if exists {
        SkillSource::LocalFile
    } else {
        SkillSource::Registry
    }
}

/// Where the skill `target` comes from; `exists` says whether it names an
/// existing path.
pub fn skill_source(target: &str, exists: bool) -> (r: SkillSource)
    ensures
        r == skill_source_spec(target@, exists),
{
    if starts_with(target, "http://") || starts_with(target, "https://") {
        SkillSource::Url
    } else if exists {
        SkillSource::LocalFile
    } else {
        SkillSource::Registry
    }
}

/// The name given to a skill read from a local file: the file's stem, or
/// `skill` when it has none.
pub fn local_skill_name(stem: Option<&str>) -> (r: String)
    ensures
        r@ == match stem {
            Some(t) => t@,
            None => "skill"@,
        },
{
    match stem {
        Some(t) => to_owned(t),
        None => to_owned("skill"),
    }
}

// ---------------------------------------------------------------------------
// The identity of an installed plugin
// ---------------------------------------------------------------------------

/// The name, version and description under which a plugin is recorded.
#[derive(Debug)]
pub struct Identity {
    pub name: String,
    pub version: String,
    pub description: Option<String>,
}

/// The content of an identity.
pub open spec fn identity_view(i: Identity) -> (Seq<char>, Seq<char>, Option<Seq<char>>) {
    (i.name@, i.version@, opt_view(i.description))
}

/// The content of what a plugin reports about itself.
pub open spec fn info_view(i: PluginInfo) -> (Seq<char>, Seq<char>, Option<Seq<char>>) {
    (i.name@, i.version@, opt_view(i.description))
}

/// The content of an optional report.
pub open spec fn opt_info(i: Option<&PluginInfo>) -> Option<(Seq<char>, Seq<char>, Option<Seq<char>>)> {
    match i {
        Some(x) => Some(info_view(*x)),
        None => None,
    }
}

/// The text of an optional string slice.
pub open spec fn opt_text(o: Option<&str>) -> Option<Seq<char>> {
    match o {
        Some(t) => Some(t@),
        None => None,
    }
}

/// The identity of a downloaded plugin once its WebAssembly module has been
/// asked about itself: the download's name wins unless it is empty, the
/// requested version wins over the reported one, and the description is
/// the reported one. Without a report the version defaults to `0.1.0`.
pub open spec fn probed_identity_spec(
    name: Seq<char>,
    version: Option<Seq<char>>,
    info: Option<(Seq<char>, Seq<char>, Option<Seq<char>>)>,
) -> (Seq<char>, Seq<char>, Option<Seq<char>>) {
    match info {
        None => (name, match version {
            Some(v) => v,
            None => "0.1.0"@,
        }, None),
        Some(i) => (if name.len() == 0 {
            i.0
        } else {
            name
        }, match version {
            Some(v) => v,
            None => i.1,
        }, i.2),
    }
}

/// The identity of a downloaded plugin after its module's report, if any.
pub fn probed_identity(name: &str, version: Option<&str>, info: Option<&PluginInfo>) -> (r: Identity)
    ensures
        identity_view(r) == probed_identity_spec(name@, opt_text(version), opt_info(info)),
{
    match info {
        None => Identity {
            name: to_owned(name),
            version: match version {
                Some(v) => to_owned(v),
                None => to_owned("0.1.0"),
            },
            description: None,
        },
        Some(i) => {
            let n = if name.unicode_len() == 0 {
                to_owned(i.name.as_str())
            } else {
                to_owned(name)
            };
            let v = match version {
                Some(v) => to_owned(v),
                None => to_owned(i.version.as_str()),
            };
            let d = match &i.description {
                Some(d) => Some(to_owned(d.as_str())),
                None => None,
            };
            Identity { name: n, version: v, description: d }
        },
    }
}

/// The identity after the native build's report: consulted only while no
/// description is known, it then gives the version (unless one was
/// requested) and the description.
pub open spec fn native_identity_spec(
    id: (Seq<char>, Seq<char>, Option<Seq<char>>),
    version: Option<Seq<char>>,
    info: Option<(Seq<char>, Seq<char>, Option<Seq<char>>)>,
) -> (Seq<char>, Seq<char>, Option<Seq<char>>) {
    match info {
        Some(i) => if id.2 is None {
            (id.0, match version {
                Some(v) => v,
                None => i.1,
            }, i.2)
        } else {
            id
        },
        None => id,
    }
}

/// Whether the native build still has to be asked about itself.
pub fn needs_native_report(id: &Identity) -> (r: bool)
    ensures
        r == (id.description is None),
{
    id.description.is_none()
}

/// The identity after the native build's report, if any.
pub fn native_identity(id: Identity, version: Option<&str>, info: Option<&PluginInfo>) -> (r: Identity)
    ensures
        identity_view(r) == native_identity_spec(identity_view(id), opt_text(version), opt_info(info)),
{
    match info {
        Some(i) => if id.description.is_none() {
            let v = match version {
                Some(v) => to_owned(v),
                None => to_owned(i.version.as_str()),
            };
            let d = match &i.description {
                Some(d) => Some(to_owned(d.as_str())),
                None => None,
            };
            Identity { name: id.name, version: v, description: d }
        } else {
            id
        },
        None => id,
    }
}

/// Refuses an identity whose name or version cannot serve as a file name.
pub fn check_identity(id: &Identity) -> (r: Result<(), PackageError>)
    ensures
        r is Ok <==> !unsafe_component(id.name@) && !unsafe_component(id.version@),
        r matches Err(e) ==> e matches PackageError::InvalidSpec(m) && m@ == if unsafe_component(id.name@) {
            "Invalid "@ + "plugin name"@ + ": '"@ + id.name@ + "' must not contain path separators"@
        } else {
            "Invalid "@ + "plugin version"@ + ": '"@ + id.version@ + "' must not contain path separators"@
        },
{
    match sanitize_path_component(id.name.as_str(), "plugin name") {
        Err(e) => return Err(e),
        Ok(()) => {},
    }
    sanitize_path_component(id.version.as_str(), "plugin version")
}

// ---------------------------------------------------------------------------
// Where installed files go
// ---------------------------------------------------------------------------

/// `rel` taken relative to `base`, as a path join does: an absolute `rel`
/// stands alone, and one `/` separates the two parts.
pub open spec fn join_spec(base: Seq<char>, rel: Seq<char>) -> Seq<char> {
    if is_prefix("/"@, rel) {
        rel
    } else if base.len() == 0 || is_suffix("/"@, base) {
        base + rel
    } else {
        base + "/"@ + rel
    }
}

/// `rel` taken relative to `base`.
pub fn join_path(base: &str, rel: &str) -> (r: String)
    ensures
        r@ == join_spec(base@, rel@),
{
    if starts_with(rel, "/") {
        return to_owned(rel);
    }
    let mut r = to_owned(base);
    if !(base.unicode_len() == 0 || ends_with(base, "/")) {
        append_str(&mut r, "/");
    }
    append_str(&mut r, rel);
    r
}

/// The file name of a plugin's WebAssembly module.
pub fn wasm_file_name(name: &str, version: &str) -> (r: String)
    ensures
        r@ == name@ + "-"@ + version@ + ".wasm"@,
{
    let mut r = to_owned(name);
    append_str(&mut r, "-");
    append_str(&mut r, version);
    append_str(&mut r, ".wasm");
    r
}

/// The path recorded for an installed file, relative to the data
/// directory.
pub fn plugin_rel_path(file_name: &str) -> (r: String)
    ensures
        r@ == "plugins/"@ + file_name@,
{
    let mut r = to_owned("plugins/");
    append_str(&mut r, file_name);
    r
}

/// How an installed plugin runs and which file the record points at: the
/// native build when it is preferred and present, else the WebAssembly
/// module when present, else the native build; the primary file is the
/// module when present, else the native build.
pub open spec fn layout_spec(prefer_native: bool, wasm: Option<Seq<char>>, native: Option<Seq<char>>) -> Option<
    (ExecutionKind, Seq<char>),
> {
    let kind = if prefer_native && native is Some {
        ExecutionKind::Native
    } else if wasm is Some {
        ExecutionKind::Wasm
    } else {
        ExecutionKind::Native
    };
    match wasm {
        Some(w) => Some((kind, w)),
        None => match native {
            Some(n) => Some((kind, n)),
            None => None,
        },
    }
}

/// The record of a freshly installed plugin, or the error when neither
/// build was saved.
pub fn installed_record(
    id: Identity,
    wasm_rel: Option<String>,
    native_rel: Option<String>,
    prefer_native: bool,
    sha256: String,
    source: String,
) -> (r: Result<InstalledPlugin, PackageError>)
    ensures
        match layout_spec(prefer_native, opt_view(wasm_rel), opt_view(native_rel)) {
            Some(l) => r matches Ok(p) && p.name@ == id.name@ && p.version@ == id.version@ && opt_view(
                p.description,
            ) == opt_view(id.description) && p.execution_kind == l.0 && p.binary_path@ == l.1 && opt_view(
                p.native_binary_path,
            ) == opt_view(native_rel) && p.sha256@ == sha256@ && p.source@ == source@
                && p.default_params@.len() == 0 && p.manifest is None,
            None => r matches Err(e) && e matches PackageError::InvalidSpec(m) && m@
                == "Neither WASM nor Native binary was saved"@,
        },
{
    let kind = if prefer_native && native_rel.is_some() {
        ExecutionKind::Native
    } else if wasm_rel.is_some() {
        ExecutionKind::Wasm
    } else {
        ExecutionKind::Native
    };
    let primary = match &wasm_rel {
        Some(w) => to_owned(w.as_str()),
        None => match &native_rel {
            Some(n) => to_owned(n.as_str()),
            None => return Err(PackageError::InvalidSpec(to_owned("Neither WASM nor Native binary was saved"))),
        },
    };
    Ok(InstalledPlugin {
        name: id.name,
        description: id.description,
        version: id.version,
        binary_path: primary,
        native_binary_path: native_rel,
        execution_kind: kind,
        sha256,
        source,
        default_params: Vec::new(),
        manifest: None,
    })
}

// ---------------------------------------------------------------------------
// The package manager's directories and records
// ---------------------------------------------------------------------------

/// Calls `dirs::data_dir`, the platform's per-user data directory; it
/// depends on the environment, so nothing is stated of the result. The path
/// is converted to text lossily: a directory whose name is not valid UTF-8
/// comes back with its invalid bytes replaced by U+FFFD, so it does not name
/// the platform's directory exactly.
#[verifier::external_body]
pub(crate) fn data_dir() -> Option<String> {
    match dirs::data_dir() {
        Some(p) => Some(p.to_string_lossy().into_owned()),
        None => None,
    }
}

/// The directory that holds everything the command installs, under the
/// platform's data directory (the working directory when there is none).
pub open spec fn home_spec(data: Option<Seq<char>>) -> Seq<char> {
    join_spec(
        match data {
            Some(d) => d,
            None => "."@,
        },
        "rune-kit"@,
    )
}

fn home_dir(data: Option<String>) -> (r: String)
    ensures
        r@ == home_spec(opt_view(data)),
{
    match data {
        Some(d) => join_path(d.as_str(), "rune-kit"),
        None => join_path(".", "rune-kit"),
    }
}

/// Installs, records and removes plugins under one directory.
#[derive(Debug)]
pub struct PackageManager {
    base_dir: String,
    lockfile_path: String,
}

impl PackageManager {
    /// The directory everything is installed under.
    pub closed spec fn root(self) -> Seq<char> {
        self.base_dir@
    }

    /// The file that records the installed plugins.
    pub closed spec fn record_file(self) -> Seq<char> {
        self.lockfile_path@
    }

    /// A manager for the installation under `data_dir` (the working
    /// directory when there is none).
    pub fn with_data_dir(data_dir: Option<String>) -> (r: PackageManager)
        ensures
            r.root() == home_spec(opt_view(data_dir)),
            r.record_file() == join_spec(home_spec(opt_view(data_dir)), "installed.json"@),
    {
        let base_dir = home_dir(data_dir);
        let lockfile_path = join_path(base_dir.as_str(), "installed.json");
        PackageManager { base_dir, lockfile_path }
    }

    /// A manager for the installation under the user's data directory.
    pub fn new() -> (r: PackageManager)
        ensures
            exists|d: Option<Seq<char>>| #[trigger] home_spec(d) == r.root() && r.record_file() == join_spec(
                home_spec(d),
                "installed.json"@,
            ),
    {
        let d = data_dir();
        let r = PackageManager::with_data_dir(d);
        assert(home_spec(opt_view(d)) == r.root());
        r
    }

    /// The directory everything is installed under.
    pub fn base_dir(&self) -> (r: &str)
        ensures
            r@ == self.root(),
    {
        self.base_dir.as_str()
    }

    /// The file that records the installed plugins.
    pub fn lockfile_path(&self) -> (r: &str)
        ensures
            r@ == self.record_file(),
    {
        self.lockfile_path.as_str()
    }

    /// The directory that holds plugin files.
    pub fn plugins_dir(&self) -> (r: String)
        ensures
            r@ == join_spec(self.root(), "plugins"@),
    {
        join_path(self.base_dir.as_str(), "plugins")
    }

    /// Where the primary file of the installed plugin `name` lies.
    pub fn get_plugin_path(&self, lockfile: &Lockfile, name: &str) -> (r: Option<String>)
        ensures
            match lockfile.entry(name@) {
                Some(p) => r matches Some(path) && path@ == join_spec(self.root(), p.binary_path@),
                None => r is None,
            },
    {
        match lockfile.get(name) {
            Some(p) => Some(join_path(self.base_dir.as_str(), p.binary_path.as_str())),
            None => None,
        }
    }

    /// Drops the record of plugin `name` and returns the files to delete:
    /// its primary file and its native build, if it has one; nothing when
    /// no such plugin is recorded.
    pub fn uninstall(&self, lockfile: &mut Lockfile, name: &str) -> (r: Option<Vec<String>>)
        ensures
            final(lockfile).plugins@ == crate::keyed::without(old(lockfile).plugins@, name@),
            final(lockfile).version == old(lockfile).version,
            match old(lockfile).entry(name@) {
                Some(p) => r matches Some(files) && files@.len() == if p.native_binary_path is Some {
                    2int
                } else {
                    1int
                } && files@[0]@ == join_spec(self.root(), p.binary_path@) && (p.native_binary_path matches Some(
                    n,
                ) ==> files@[1]@ == join_spec(self.root(), n@)),
                None => r is None,
            },
    {
        match lockfile.remove(name) {
            Some(p) => {
                let mut files: Vec<String> = Vec::new();
                files.push(join_path(self.base_dir.as_str(), p.binary_path.as_str()));
                match &p.native_binary_path {
                    Some(n) => files.push(join_path(self.base_dir.as_str(), n.as_str())),
                    None => {},
                }
                Some(files)
            },
            None => None,
        }
    }
}

impl Default for PackageManager {
    /// The manager for the installation under the user's data directory.
    fn default() -> (r: PackageManager)
        ensures
            exists|d: Option<Seq<char>>| #[trigger] home_spec(d) == r.root() && r.record_file() == join_spec(
                home_spec(d),
                "installed.json"@,
            ),
    {
        PackageManager::new()
    }
}

/// Installs, records and removes skills under one directory.
#[derive(Debug)]
pub struct SkillManager {
    base_dir: String,
    lockfile_path: String,
}

impl SkillManager {
    /// The directory everything is installed under.
    pub closed spec fn root(self) -> Seq<char> {
        self.base_dir@
    }

    /// The file that records the installed skills.
    pub closed spec fn record_file(self) -> Seq<char> {
        self.lockfile_path@
    }

    /// A manager for the installation under `data_dir` (the working
    /// directory when there is none).
    pub fn with_data_dir(data_dir: Option<String>) -> (r: SkillManager)
        ensures
            r.root() == home_spec(opt_view(data_dir)),
            r.record_file() == join_spec(home_spec(opt_view(data_dir)), "installed_skills.json"@),
    {
        let base_dir = home_dir(data_dir);
        let lockfile_path = join_path(base_dir.as_str(), "installed_skills.json");
        SkillManager { base_dir, lockfile_path }
    }

    /// A manager for the installation under the user's data directory.
    pub fn new() -> (r: SkillManager)
        ensures
            exists|d: Option<Seq<char>>| #[trigger] home_spec(d) == r.root() && r.record_file() == join_spec(
                home_spec(d),
                "installed_skills.json"@,
            ),
    {
        let d = data_dir();
        let r = SkillManager::with_data_dir(d);
        assert(home_spec(opt_view(d)) == r.root());
        r
    }

    /// The directory everything is installed under.
    pub fn base_dir(&self) -> (r: &str)
        ensures
            r@ == self.root(),
    {
        self.base_dir.as_str()
    }

    /// The file that records the installed skills.
    pub fn lockfile_path(&self) -> (r: &str)
        ensures
            r@ == self.record_file(),
    {
        self.lockfile_path.as_str()
    }

    /// The directory that holds the files of skill `name`.
    pub fn skill_dir(&self, name: &str) -> (r: String)
        ensures
            r@ == join_spec(join_spec(self.root(), "skills"@), name@),
    {
        let skills = join_path(self.base_dir.as_str(), "skills");
        join_path(skills.as_str(), name)
    }

    /// Drops the record of skill `name` and returns the directory to
    /// delete; nothing when no such skill is recorded.
    pub fn uninstall_skill(&self, lockfile: &mut SkillLockfile, name: &str) -> (r: Option<String>)
        ensures
            final(lockfile).skills@ == crate::keyed::without(old(lockfile).skills@, name@),
            final(lockfile).version == old(lockfile).version,
            match old(lockfile).entry(name@) {
                Some(s) => r matches Some(dir) && dir@ == join_spec(join_spec(self.root(), "skills"@), s.name@),
                None => r is None,
            },
    {
        match lockfile.remove(name) {
            Some(s) => Some(self.skill_dir(s.name.as_str())),
            None => None,
        }
    }
}

impl Default for SkillManager {
    /// The manager for the installation under the user's data directory.
    fn default() -> (r: SkillManager)
        ensures
            exists|d: Option<Seq<char>>| #[trigger] home_spec(d) == r.root() && r.record_file() == join_spec(
                home_spec(d),
                "installed_skills.json"@,
            ),
    {
        SkillManager::new()
    }
}

impl Named for SkillFile {
    open spec fn key(&self) -> Seq<char> {
        self.path@
    }

    fn name_ref(&self) -> (r: &str) {
        self.path.as_str()
    }
}

/// The files of an installed skill in order of path.
pub fn order_skill_files(files: Vec<SkillFile>) -> (r: Vec<SkillFile>)
    ensures
        sorted_by_name(r@),
        r@.to_multiset() == files@.to_multiset(),
        r@.len() == files@.len(),
{
    sort_by_name(files)
}

/// The version recorded for an installed skill: the requested one, else
/// the one the registry resolved, else `0.1.0`.
pub fn skill_version(requested: Option<&str>, resolved: Option<&str>) -> (r: String)
    ensures
        r@ == match opt_text(requested) {
            Some(v) => v,
            None => match opt_text(resolved) {
                Some(v) => v,
                None => "0.1.0"@,
            },
        },
{
    match requested {
        Some(v) => to_owned(v),
        None => match resolved {
            Some(v) => to_owned(v),
            None => to_owned("0.1.0"),
        },
    }
}

// ---------------------------------------------------------------------------
// Updating the command itself
// ---------------------------------------------------------------------------

/// A release tag without its leading `v`.
pub open spec fn strip_v(t: Seq<char>) -> Seq<char> {
    if is_prefix("v"@, t) {
        t.drop_first()
    } else {
        t
    }
}

/// The version a release tag names.
pub fn release_version(tag: &str) -> (r: String)
    ensures
        r@ == strip_v(tag@),
{
    let v = chars_of(tag);
    if starts_with(tag, "v") {
        proof {
            reveal_strlit("v");
        }
        crate::text::string_of_range(&v, 1, v.len())
    } else {
        to_owned(tag)
    }
}

/// Whether a self-update to the release tagged `tag` goes ahead from the
/// running version `current`. It is refused exactly when it is not forced
/// and the release is the running version.
pub fn check_self_update(tag: &str, current: &str, force: bool) -> (r: Result<(), PackageError>)
    ensures
        r is Err <==> !force && strip_v(tag@) == current@,
        r matches Err(e) ==> e matches PackageError::SelfUpdate(m) && m@ == "Already on the latest version (v"@
            + current@ + "). Use --force to overwrite."@,
{
    let target = release_version(tag);
    proof {
        lemma_newer_irreflexive(current@);
    }
    if !force && !is_newer_version(target.as_str(), current) && str_eq(target.as_str(), current) {
        let mut m = to_owned("Already on the latest version (v");
        append_str(&mut m, current);
        append_str(&mut m, "). Use --force to overwrite.");
        return Err(PackageError::SelfUpdate(m));
    }
    Ok(())
}

/// The target triple of the release builds for the host with the given OS
/// and architecture (as `std::env::consts` names them); `unknown` for hosts
/// without a build.
pub open spec fn target_triple_spec(os: Seq<char>, arch: Seq<char>) -> Seq<char> {
    if os == "windows"@ && arch == "x86_64"@ {
        "x86_64-pc-windows-msvc"@
    } else if os == "windows"@ && arch == "aarch64"@ {
        "aarch64-pc-windows-msvc"@
    } else if os == "linux"@ && arch == "x86_64"@ {
        "x86_64-unknown-linux-gnu"@
    } else if os == "linux"@ && arch == "aarch64"@ {
        "aarch64-unknown-linux-gnu"@
    } else if os == "macos"@ && arch == "x86_64"@ {
        "x86_64-apple-darwin"@
    } else if os == "macos"@ && arch == "aarch64"@ {
        "aarch64-apple-darwin"@
    } else {
        "unknown"@
    }
}

/// The target triple of the release builds for the host with OS `os` and
/// architecture `arch`.
pub fn current_target_triple(os: &str, arch: &str) -> (r: &'static str)
    ensures
        r@ == target_triple_spec(os@, arch@),
{
    if str_eq(os, "windows") && str_eq(arch, "x86_64") {
        "x86_64-pc-windows-msvc"
    } else if str_eq(os, "windows") && str_eq(arch, "aarch64") {
        "aarch64-pc-windows-msvc"
    } else if str_eq(os, "linux") && str_eq(arch, "x86_64") {
        "x86_64-unknown-linux-gnu"
    } else if str_eq(os, "linux") && str_eq(arch, "aarch64") {
        "aarch64-unknown-linux-gnu"
    } else if str_eq(os, "macos") && str_eq(arch, "x86_64") {
        "x86_64-apple-darwin"
    } else if str_eq(os, "macos") && str_eq(arch, "aarch64") {
        "aarch64-apple-darwin"
    } else {
        "unknown"
    }
}

// ---------------------------------------------------------------------------
// Finding the executable in an unpacked archive
// ---------------------------------------------------------------------------

/// What to do with one directory entry while looking for an executable.
#[derive(Clone, Copy, Debug, PartialEq, Eq, Structural)]
pub enum EntryVerdict {
    /// This file is the executable.
    Take,
    /// This file may be the executable if nothing better turns up.
    Candidate,
    /// Look inside this directory.
    Descend,
    /// Pass over this entry.
    Skip,
}

/// A file stem names the plugin `expected`'s executable: up to ASCII case it
/// is `expected`, `expected-native`, or either with `-` written as `_`.
pub open spec fn executable_stem(stem: Seq<char>, expected: Seq<char>) -> bool {
    let under = replace_all(expected, "-"@, "_"@);
    eq_ignore_ascii_case(stem, expected) || eq_ignore_ascii_case(stem, expected + "-native"@)
        || eq_ignore_ascii_case(stem, under) || eq_ignore_ascii_case(stem, under + "_native"@)
}

/// Whether a file stem names the plugin `expected`'s executable.
pub fn executable_stem_matches(stem: &str, expected: &str) -> (r: bool)
    ensures
        r == executable_stem(stem@, expected@),
{
    let mut native = to_owned(expected);
    append_str(&mut native, "-native");
    let under = replace_exec(expected, "-", "_");
    let mut under_native = to_owned(under.as_str());
    append_str(&mut under_native, "_native");
    eq_ignore_ascii_case_exec(stem, expected) || eq_ignore_ascii_case_exec(stem, native.as_str())
        || eq_ignore_ascii_case_exec(stem, under.as_str()) || eq_ignore_ascii_case_exec(
        stem,
        under_native.as_str(),
    )
}

/// What to do with a directory entry of an unpacked plugin archive: a file
/// whose stem names the plugin is taken; another file is a candidate when
/// it is an `.exe` on Windows, or elsewhere when it is no `.txt`, `.md` or
/// `.json` file; a directory is searched.
pub open spec fn unpacked_entry_spec(
    is_file: bool,
    is_dir: bool,
    file_name: Seq<char>,
    stem: Seq<char>,
    extension: Option<Seq<char>>,
    expected: Seq<char>,
    windows: bool,
) -> EntryVerdict {
    if is_file {
        if executable_stem(stem, expected) {
            EntryVerdict::Take
        } else if windows {
            if extension matches Some(e) && eq_ignore_ascii_case(e, "exe"@) {
                EntryVerdict::Candidate
            } else {
                EntryVerdict::Skip
            }
        } else if !is_suffix(".txt"@, file_name) && !is_suffix(".md"@, file_name) && !is_suffix(".json"@, file_name) {
            EntryVerdict::Candidate
        } else {
            EntryVerdict::Skip
        }
    } else if is_dir {
        EntryVerdict::Descend
    } else {
        EntryVerdict::Skip
    }
}

/// What to do with a directory entry of an unpacked plugin archive.
pub fn classify_unpacked_entry(
    is_file: bool,
    is_dir: bool,
    file_name: &str,
    stem: &str,
    extension: Option<&str>,
    expected: &str,
    windows: bool,
) -> (r: EntryVerdict)
    ensures
        r == unpacked_entry_spec(is_file, is_dir, file_name@, stem@, opt_text(extension), expected@, windows),
{
    if is_file {
        if executable_stem_matches(stem, expected) {
            EntryVerdict::Take
        } else if windows {
            match extension {
                Some(e) => if eq_ignore_ascii_case_exec(e, "exe") {
                    EntryVerdict::Candidate
                } else {
                    EntryVerdict::Skip
                },
                None => EntryVerdict::Skip,
            }
        } else if !ends_with(file_name, ".txt") && !ends_with(file_name, ".md") && !ends_with(file_name, ".json") {
            EntryVerdict::Candidate
        } else {
            EntryVerdict::Skip
        }
    } else if is_dir {
        EntryVerdict::Descend
    } else {
        EntryVerdict::Skip
    }
}

/// Entry `i` of a directory settles the search: it is the executable, or a
/// directory inside which the executable was found. Each entry is its
/// verdict and whether looking inside it found the executable.
pub open spec fn settles(entries: Seq<(EntryVerdict, bool)>, i: int) -> bool {
    entries[i].0 == EntryVerdict::Take || (entries[i].0 == EntryVerdict::Descend && entries[i].1)
}

/// No entry before `k` settles the search.
pub open spec fn unsettled_before(entries: Seq<(EntryVerdict, bool)>, k: int) -> bool {
    forall|j: int| 0 <= j < k ==> !#[trigger] settles(entries, j)
}

/// No entry before `k` is a candidate.
pub open spec fn no_candidate_before(entries: Seq<(EntryVerdict, bool)>, k: int) -> bool {
    forall|j: int| 0 <= j < k ==> (#[trigger] entries[j]).0 != EntryVerdict::Candidate
}

/// The message when an unpacked archive holds no executable for `expected`.
pub open spec fn no_executable_text(expected: Seq<char>) -> Seq<char> {
    "No executable binary found in unpacked archive for '"@ + expected + "'"@
}

/// Which entry of a directory of an unpacked archive is the executable, the
/// entries taken in order: the first that settles the search (see
/// [`settles`]); when none does, the first candidate; when there is none,
/// the search fails.
pub fn choose_unpacked_entry(entries: &[(EntryVerdict, bool)], expected: &str) -> (r: Result<usize, PackageError>)
    ensures
        match r {
            Ok(i) => i < entries@.len() && (settles(entries@, i as int) && unsettled_before(entries@, i as int)
                || unsettled_before(entries@, entries@.len() as int) && entries@[i as int].0
                == EntryVerdict::Candidate && no_candidate_before(entries@, i as int)),
            Err(e) => {
                &&& unsettled_before(entries@, entries@.len() as int)
                &&& no_candidate_before(entries@, entries@.len() as int)
                &&& e matches PackageError::InvalidSpec(m) && m@ == no_executable_text(expected@)
            },
        },
{
    let mut first_candidate: Option<usize> = None;
    let mut i: usize = 0;
    while i < entries.len()
        invariant
            i <= entries@.len(),
            unsettled_before(entries@, i as int),
            match first_candidate {
                Some(c) => c < i && entries@[c as int].0 == EntryVerdict::Candidate && no_candidate_before(
                    entries@,
                    c as int,
                ),
                None => no_candidate_before(entries@, i as int),
            },
        decreases entries@.len() - i,
    {
        let (verdict, found) = entries[i];
        assert(entries@[i as int] == (verdict, found));
        match verdict {
            EntryVerdict::Take => return Ok(i),
            EntryVerdict::Descend => if found {
                return Ok(i);
            },
            EntryVerdict::Candidate => if first_candidate.is_none() {
                first_candidate = Some(i);
            },
            EntryVerdict::Skip => {},
        }
        i = i + 1;
    }
    match first_candidate {
        Some(c) => Ok(c),
        None => {
            let mut m = to_owned("No executable binary found in unpacked archive for '");
            append_str(&mut m, expected);
            append_str(&mut m, "'");
            Err(PackageError::InvalidSpec(m))
        },
    }
}

} // verus!
