//! Locating and checking a Laya ONNX bundle: where it lives in the cache,
//! whether it is complete, what to do when it is not, and whether each file
//! matches the size and digest that the repository manifest publishes.
//!
//! Everything that touches the environment, the disk or the network is done
//! by the caller, which hands the values it read (environment variables, file
//! sizes, file contents, the listing text) to the functions here.

use vstd::prelude::*;

use serde_json::Value;

use crate::text::{
    chars_of, extend_chars, push_decimal, replace, replace_chars, str_eq, string_of, decimal,
};

verus! {

/// Environment variable that must be set (to any non-empty value) to permit a
/// download.
pub const ALLOW_DOWNLOAD_ENV: &'static str = "LAYANOW_ALLOW_MODEL_DOWNLOAD";

/// Optional environment variable overriding the cache root.
pub const CACHE_DIR_ENV: &'static str = "LAYANOW_MODEL_CACHE";

/// Default Hugging Face repo: the published English fp32 bundle.
pub const DEFAULT_REPO: &'static str = "receptron/laya-onnx";

/// Apache-2.0 attribution for the model weights.
pub const ATTRIBUTION: &'static str = "Laya model weights: \u{a9} Convai Innovations, Apache-2.0 (https://huggingface.co/convaiinnovations/laya). ONNX export: Receptron (https://github.com/receptron/laya, MIT).";

/// Number of files that make up a bundle.
pub const BUNDLE_FILE_COUNT: usize = 5;

/// The files that make up a bundle, relative to its directory.
pub open spec fn spec_bundle_files() -> Seq<Seq<char>> {
    seq![
        "laya.onnx"@,
        "laya.onnx.data"@,
        "laya_config.json"@,
        "tokenizer/tokenizer.json"@,
        "tokenizer/tokenizer_config.json"@,
    ]
}

/// The files that make up a bundle, relative to its directory, in the order
/// in which they are checked and fetched.
pub fn bundle_files() -> (r: Vec<&'static str>)
    ensures
        r@.len() == BUNDLE_FILE_COUNT,
        forall|i: int| 0 <= i < r@.len() ==> #[trigger] r@[i]@ == spec_bundle_files()[i],
{
    proof {
        reveal_strlit("laya.onnx");
        reveal_strlit("laya.onnx.data");
        reveal_strlit("laya_config.json");
        reveal_strlit("tokenizer/tokenizer.json");
        reveal_strlit("tokenizer/tokenizer_config.json");
    }
    let r = vec![
        "laya.onnx",
        "laya.onnx.data",
        "laya_config.json",
        "tokenizer/tokenizer.json",
        "tokenizer/tokenizer_config.json",
    ];
    assert forall|i: int| 0 <= i < r@.len() implies #[trigger] r@[i]@ == spec_bundle_files()[i] by {
        if i == 0 {
        } else if i == 1 {
        } else if i == 2 {
        } else if i == 3 {
        } else {
        }
    }
    r
}

/// `base` joined with the relative path `comp` (`Path::join` on Unix): a
/// separator goes between them unless `base` is empty or already ends in one.
pub open spec fn join_path(base: Seq<char>, comp: Seq<char>) -> Seq<char> {
    if base.len() == 0 {
        comp
    } else if base.last() == '/' {
        base + comp
    } else {
        base + seq!['/'] + comp
    }
}

/// `base` joined with the relative path `comp` (see [`join_path`]).
pub(crate) fn join(base: &[char], comp: &[char]) -> (r: Vec<char>)
    ensures
        r@ == join_path(base@, comp@),
{
    let mut r: Vec<char> = Vec::new();
    extend_chars(&mut r, base);
    if base.len() > 0 && base[base.len() - 1] != '/' {
        r.push('/');
    }
    extend_chars(&mut r, comp);
    r
}

/// An environment value as the lookups here read it: unset and empty are the
/// same.
pub open spec fn spec_non_empty(value: Option<Seq<char>>) -> Option<Seq<char>> {
    match value {
        Some(v) => if v.len() > 0 {
            Some(v)
        } else {
            None
        },
        None => None,
    }
}

/// The views of an optional string.
pub open spec fn opt_view(value: Option<&str>) -> Option<Seq<char>> {
    match value {
        Some(v) => Some(v@),
        None => None,
    }
}

/// The cache root for model bundles, from the values of
/// `LAYANOW_MODEL_CACHE`, `XDG_CACHE_HOME` and `HOME` (unset or empty values
/// are skipped).
pub open spec fn spec_cache_dir(
    model_cache: Option<Seq<char>>,
    xdg_cache_home: Option<Seq<char>>,
    home: Option<Seq<char>>,
) -> Seq<char> {
    match spec_non_empty(model_cache) {
        Some(dir) => dir,
        None => match spec_non_empty(xdg_cache_home) {
            Some(xdg) => join_path(join_path(xdg, "layanow"@), "models"@),
            None => {
                let h = match spec_non_empty(home) {
                    Some(h) => h,
                    None => Seq::<char>::empty(),
                };
                join_path(join_path(join_path(h, ".cache"@), "layanow"@), "models"@)
            },
        },
    }
}

/// The characters of `value` when it is set and not empty.
pub(crate) fn non_empty_chars(value: Option<&str>) -> (r: Option<Vec<char>>)
    ensures
        match r {
            Some(v) => spec_non_empty(opt_view(value)) == Some(v@),
            None => spec_non_empty(opt_view(value)) is None,
        },
{
    match value {
        Some(v) => {
            let c = chars_of(v);
            if c.len() > 0 {
                Some(c)
            } else {
                None
            }
        },
        None => None,
    }
}

/// The cache root for model bundles.
///
/// Honours `LAYANOW_MODEL_CACHE`, then `XDG_CACHE_HOME`, then `~/.cache`,
/// always under `layanow/models`; each argument is the value of that
/// variable, if it is set.
pub fn cache_dir(model_cache: Option<&str>, xdg_cache_home: Option<&str>, home: Option<&str>) -> (r:
    String)
    ensures
        r@ == spec_cache_dir(opt_view(model_cache), opt_view(xdg_cache_home), opt_view(home)),
{
    proof {
        reveal_strlit("layanow");
        reveal_strlit("models");
        reveal_strlit(".cache");
    }
    let layanow = chars_of("layanow");
    let models = chars_of("models");
    match non_empty_chars(model_cache) {
        Some(dir) => string_of(dir.as_slice()),
        None => match non_empty_chars(xdg_cache_home) {
            Some(xdg) => {
                let a = join(xdg.as_slice(), layanow.as_slice());
                let b = join(a.as_slice(), models.as_slice());
                string_of(b.as_slice())
            },
            None => {
                let h = match non_empty_chars(home) {
                    Some(h) => h,
                    None => Vec::new(),
                };
                let cache = chars_of(".cache");
                let a = join(h.as_slice(), cache.as_slice());
                let b = join(a.as_slice(), layanow.as_slice());
                let c = join(b.as_slice(), models.as_slice());
                string_of(c.as_slice())
            },
        },
    }
}

/// The directory name of a repo in the cache: every `/` becomes `--`.
pub open spec fn spec_repo_dir_name(repo: Seq<char>) -> Seq<char> {
    replace(repo, "/"@, "--"@)
}

/// The cache directory for a specific repo under `cache_root`, e.g.
/// `receptron--laya-onnx`.
pub open spec fn spec_bundle_dir(cache_root: Seq<char>, repo: Seq<char>) -> Seq<char> {
    join_path(cache_root, spec_repo_dir_name(repo))
}

/// The cache directory for `repo` under `cache_root` (see [`cache_dir`]).
pub fn bundle_dir(cache_root: &str, repo: &str) -> (r: String)
    ensures
        r@ == spec_bundle_dir(cache_root@, repo@),
{
    proof {
        reveal_strlit("/");
        reveal_strlit("--");
    }
    let root = chars_of(cache_root);
    let name = replace_chars(chars_of(repo).as_slice(), chars_of("/").as_slice(), chars_of("--").as_slice());
    string_of(join(root.as_slice(), name.as_slice()).as_slice())
}

/// A file counts as present when it exists and is not empty.
pub open spec fn spec_is_present(size: Option<u64>) -> bool {
    match size {
        Some(n) => n > 0,
        None => false,
    }
}

/// Whether a file of the given size on disk (`None` when it does not exist)
/// counts as present: it exists and is not empty.
pub fn is_present(size: Option<u64>) -> (b: bool)
    ensures
        b == spec_is_present(size),
{
    match size {
        Some(n) => n > 0,
        None => false,
    }
}

/// A bundle is complete when every one of its files is present.
pub open spec fn spec_is_complete(sizes: Seq<Option<u64>>) -> bool {
    forall|i: int| 0 <= i < sizes.len() ==> spec_is_present(#[trigger] sizes[i])
}

/// Whether every file of a bundle is present, given the size on disk of each
/// file of [`bundle_files`] (`None` for a missing file).
pub fn is_complete(sizes: &[Option<u64>]) -> (b: bool)
    ensures
        b == spec_is_complete(sizes@),
{
    let mut k: usize = 0;
    while k < sizes.len()
        invariant
            k <= sizes@.len(),
            forall|m: int| 0 <= m < k ==> spec_is_present(#[trigger] sizes@[m]),
        decreases sizes@.len() - k,
    {
        if !is_present(sizes[k]) {
            return false;
        }
        k += 1;
    }
    true
}


/// Errors from locating or checking a bundle.
#[derive(Debug, Clone, PartialEq, Eq)]
pub enum BundleError {
    /// A filesystem operation failed (the operating system's message).
    Io(String),
    /// The bundle is not cached and first-run downloading is not enabled.
    BundleMissing {
        /// Expected bundle directory.
        path: String,
        /// Environment variable that enables downloading.
        env: &'static str,
    },
    /// A bundle file could not be downloaded.
    Download(String),
    /// The remote file manifest could not be read.
    Manifest(String),
    /// The manifest has no entry for a required bundle file.
    ManifestMissing(String),
    /// A downloaded or cached file did not match its manifest digest or size.
    ChecksumMismatch {
        /// Bundle-relative file name.
        file: String,
        /// Expected digest or size.
        expected: String,
        /// Actual digest or size.
        actual: String,
    },
}

/// A [`BundleError`] with its texts taken as character sequences.
pub enum BundleFault {
    /// See [`BundleError::Io`].
    Io(Seq<char>),
    /// See [`BundleError::BundleMissing`]: the path and the variable.
    BundleMissing(Seq<char>, Seq<char>),
    /// See [`BundleError::Download`].
    Download(Seq<char>),
    /// See [`BundleError::Manifest`].
    Manifest(Seq<char>),
    /// See [`BundleError::ManifestMissing`].
    ManifestMissing(Seq<char>),
    /// See [`BundleError::ChecksumMismatch`]: file, expected, actual.
    ChecksumMismatch(Seq<char>, Seq<char>, Seq<char>),
}

impl View for BundleError {
    type V = BundleFault;

    open spec fn view(&self) -> BundleFault {
        match self {
            BundleError::Io(m) => BundleFault::Io(m@),
            BundleError::BundleMissing { path, env } => BundleFault::BundleMissing(path@, env@),
            BundleError::Download(m) => BundleFault::Download(m@),
            BundleError::Manifest(m) => BundleFault::Manifest(m@),
            BundleError::ManifestMissing(f) => BundleFault::ManifestMissing(f@),
            BundleError::ChecksumMismatch { file, expected, actual } => BundleFault::ChecksumMismatch(
                file@,
                expected@,
                actual@,
            ),
        }
    }
}

/// The user-facing message for a bundle error.
pub open spec fn bundle_error_message(e: BundleFault) -> Seq<char> {
    match e {
        BundleFault::Io(m) => "i/o error: "@ + m,
        BundleFault::BundleMissing(path, env) => "Laya bundle not found at "@ + path + "; rerun with "@
            + env + "=1 to download it, or place the bundle files there manually"@,
        BundleFault::Download(m) => "model download failed: "@ + m,
        BundleFault::Manifest(m) => "could not read the model file manifest: "@ + m,
        BundleFault::ManifestMissing(f) => "model manifest has no entry for "@ + f,
        BundleFault::ChecksumMismatch(file, expected, actual) => "integrity check failed for "@ + file
            + ": expected "@ + expected + ", got "@ + actual,
    }
}

/// `a` followed by `b`, as a new vector.
fn cat(a: &[char], b: &[char]) -> (r: Vec<char>)
    ensures
        r@ == a@ + b@,
{
    let mut r: Vec<char> = Vec::new();
    extend_chars(&mut r, a);
    extend_chars(&mut r, b);
    r
}

/// The characters of `lit` followed by those of `s`.
fn prefixed(lit: &str, s: &str) -> (r: Vec<char>)
    ensures
        r@ == lit@ + s@,
{
    cat(chars_of(lit).as_slice(), chars_of(s).as_slice())
}

impl BundleError {
    /// The user-facing message for this error.
    pub fn message(&self) -> (r: String)
        ensures
            r@ == bundle_error_message(self@),
    {
        match self {
            BundleError::Io(m) => string_of(prefixed("i/o error: ", m.as_str()).as_slice()),
            BundleError::BundleMissing { path, env } => {
                let mut v = prefixed("Laya bundle not found at ", path.as_str());
                extend_chars(&mut v, chars_of("; rerun with ").as_slice());
                extend_chars(&mut v, chars_of(env).as_slice());
                extend_chars(
                    &mut v,
                    chars_of("=1 to download it, or place the bundle files there manually").as_slice(),
                );
                string_of(v.as_slice())
            },
            BundleError::Download(m) => string_of(
                prefixed("model download failed: ", m.as_str()).as_slice(),
            ),
            BundleError::Manifest(m) => string_of(
                prefixed("could not read the model file manifest: ", m.as_str()).as_slice(),
            ),
            BundleError::ManifestMissing(f) => string_of(
                prefixed("model manifest has no entry for ", f.as_str()).as_slice(),
            ),
            BundleError::ChecksumMismatch { file, expected, actual } => {
                let mut v = prefixed("integrity check failed for ", file.as_str());
                extend_chars(&mut v, chars_of(": expected ").as_slice());
                extend_chars(&mut v, chars_of(expected.as_str()).as_slice());
                extend_chars(&mut v, chars_of(", got ").as_slice());
                extend_chars(&mut v, chars_of(actual.as_str()).as_slice());
                string_of(v.as_slice())
            },
        }
    }
}

/// What to do about a bundle that was looked for in the cache.
#[derive(Debug, Clone, PartialEq, Eq)]
pub enum BundleStep {
    /// Every file is present: use the bundle in this directory.
    Cached(String),
    /// Files are missing and downloading is permitted: fetch the bundle into
    /// this directory, then use it.
    Download(String),
}

/// The copy of `s` as a `String`.
fn owned(s: &str) -> (r: String)
    ensures
        r@ == s@,
{
    string_of(chars_of(s).as_slice())
}

/// Decide how to obtain the bundle for `repo`.
///
/// `cache_root` is the cache root (see [`cache_dir`]), `sizes` the size on
/// disk of each of the bundle's files in the bundle directory (`None` when
/// missing), and `allow_download` the value of `ALLOW_DOWNLOAD_ENV`, if set.
/// A complete bundle is used as it is; otherwise an unset or empty
/// `allow_download` gives [`BundleError::BundleMissing`], and a set one asks
/// for a download.
pub fn ensure_bundle_from(
    cache_root: &str,
    repo: &str,
    sizes: &[Option<u64>],
    allow_download: Option<&str>,
) -> (r: Result<BundleStep, BundleError>)
    ensures
        spec_is_complete(sizes@) ==> (r matches Ok(BundleStep::Cached(d)) && d@ == spec_bundle_dir(
            cache_root@,
            repo@,
        )),
        !spec_is_complete(sizes@) && spec_non_empty(opt_view(allow_download)) is None ==> (r matches Err(
            e,
        ) && e@ == BundleFault::BundleMissing(
            spec_bundle_dir(cache_root@, repo@),
            ALLOW_DOWNLOAD_ENV@,
        )),
        !spec_is_complete(sizes@) && spec_non_empty(opt_view(allow_download)) is Some ==> (r matches Ok(
            BundleStep::Download(d),
        ) && d@ == spec_bundle_dir(cache_root@, repo@)),
{
    let dir = bundle_dir(cache_root, repo);
    if is_complete(sizes) {
        return Ok(BundleStep::Cached(dir));
    }
    match non_empty_chars(allow_download) {
        None => Err(BundleError::BundleMissing { path: dir, env: ALLOW_DOWNLOAD_ENV }),
        Some(_) => Ok(BundleStep::Download(dir)),
    }
}

/// Decide how to obtain the default bundle ([`DEFAULT_REPO`]); see
/// [`ensure_bundle_from`].
pub fn ensure_bundle(cache_root: &str, sizes: &[Option<u64>], allow_download: Option<&str>) -> (r:
    Result<BundleStep, BundleError>)
    ensures
        spec_is_complete(sizes@) ==> (r matches Ok(BundleStep::Cached(d)) && d@ == spec_bundle_dir(
            cache_root@,
            DEFAULT_REPO@,
        )),
        !spec_is_complete(sizes@) && spec_non_empty(opt_view(allow_download)) is None ==> (r matches Err(
            e,
        ) && e@ == BundleFault::BundleMissing(
            spec_bundle_dir(cache_root@, DEFAULT_REPO@),
            ALLOW_DOWNLOAD_ENV@,
        )),
        !spec_is_complete(sizes@) && spec_non_empty(opt_view(allow_download)) is Some ==> (r matches Ok(
            BundleStep::Download(d),
        ) && d@ == spec_bundle_dir(cache_root@, DEFAULT_REPO@)),
{
    ensure_bundle_from(cache_root, DEFAULT_REPO, sizes, allow_download)
}

/// The URL of the file listing that Hugging Face publishes for `repo`.
pub open spec fn spec_manifest_url(repo: Seq<char>) -> Seq<char> {
    "https://huggingface.co/api/models/"@ + repo + "/tree/main?recursive=true"@
}

/// The URL of the file listing for `repo`.
pub fn manifest_url(repo: &str) -> (r: String)
    ensures
        r@ == spec_manifest_url(repo@),
{
    let mut v = prefixed("https://huggingface.co/api/models/", repo);
    extend_chars(&mut v, chars_of("/tree/main?recursive=true").as_slice());
    string_of(v.as_slice())
}

/// The download URL of `file` in `repo`.
pub open spec fn spec_file_url(repo: Seq<char>, file: Seq<char>) -> Seq<char> {
    "https://huggingface.co/"@ + repo + "/resolve/main/"@ + file
}

/// The download URL of `file` in `repo`.
pub fn file_url(repo: &str, file: &str) -> (r: String)
    ensures
        r@ == spec_file_url(repo@, file@),
{
    let mut v = prefixed("https://huggingface.co/", repo);
    extend_chars(&mut v, chars_of("/resolve/main/").as_slice());
    extend_chars(&mut v, chars_of(file).as_slice());
    string_of(v.as_slice())
}

/// Where `file` is downloaded to before it is verified and renamed into
/// place: `<dir>/<file>.part`.
pub open spec fn spec_part_path(dir: Seq<char>, file: Seq<char>) -> Seq<char> {
    join_path(dir, file + ".part"@)
}

/// The temporary path for a download of `file` into `dir`.
pub fn part_path(dir: &str, file: &str) -> (r: String)
    ensures
        r@ == spec_part_path(dir@, file@),
{
    let name = cat(chars_of(file).as_slice(), chars_of(".part").as_slice());
    string_of(join(chars_of(dir).as_slice(), name.as_slice()).as_slice())
}

/// The path of `file` inside `dir`.
pub fn file_path(dir: &str, file: &str) -> (r: String)
    ensures
        r@ == join_path(dir@, file@),
{
    string_of(join(chars_of(dir).as_slice(), chars_of(file).as_slice()).as_slice())
}


/// How a file is hashed: Hugging Face stores large weights in LFS (content
/// SHA-256) and small files as git blobs (git-object SHA-1).
#[derive(Debug, Clone, Copy, PartialEq, Eq, Structural)]
pub enum DigestKind {
    /// SHA-256 of the content.
    Sha256,
    /// SHA-1 of the git blob object: `"blob <size>\0"` followed by the content.
    GitBlobSha1,
}

/// The published digest of a file, as lowercase hex.
#[derive(Debug, Clone, PartialEq, Eq)]
pub enum Checksum {
    /// SHA-256 of the content (LFS files).
    Sha256(String),
    /// Git-object SHA-1 (small files stored in git).
    GitBlobSha1(String),
}

/// Expected size and digest of one remote file.
#[derive(Debug, Clone, PartialEq, Eq)]
pub struct ExpectedFile {
    /// Size in bytes.
    pub size: u64,
    /// How the file is hashed, and the digest.
    pub checksum: Checksum,
}

/// An expected file as size, digest kind and hex digest.
pub open spec fn expected_view(e: ExpectedFile) -> (u64, DigestKind, Seq<char>) {
    match e.checksum {
        Checksum::Sha256(hex) => (e.size, DigestKind::Sha256, hex@),
        Checksum::GitBlobSha1(hex) => (e.size, DigestKind::GitBlobSha1, hex@),
    }
}

/// The hex digest of a checksum.
pub open spec fn checksum_hex(c: Checksum) -> Seq<char> {
    match c {
        Checksum::Sha256(hex) => hex@,
        Checksum::GitBlobSha1(hex) => hex@,
    }
}

/// The hex digest that a checksum publishes.
pub fn digest_hex(checksum: &Checksum) -> (r: &str)
    ensures
        r@ == checksum_hex(*checksum),
{
    match checksum {
        Checksum::Sha256(hex) => hex.as_str(),
        Checksum::GitBlobSha1(hex) => hex.as_str(),
    }
}

/// One entry of the repository's file listing, with the fields the manifest
/// reads (each `None` when absent or not of the expected JSON type).
#[derive(Debug, Clone, PartialEq, Eq)]
pub struct ManifestEntry {
    /// The entry's `type` (`"file"` or `"directory"`).
    pub kind: Option<String>,
    /// The entry's `path` within the repo.
    pub path: Option<String>,
    /// The entry's `size` in bytes.
    pub size: Option<u64>,
    /// The LFS object id (`lfs.oid`), the content SHA-256.
    pub lfs_oid: Option<String>,
    /// The git object id (`oid`), the git-blob SHA-1.
    pub oid: Option<String>,
}

/// What a listing entry contributes to the manifest: a file with a path, a
/// size and an object id gives its path and expectation, preferring the LFS
/// id; any other entry gives nothing.
pub open spec fn entry_expectation(e: ManifestEntry) -> Option<(Seq<char>, (u64, DigestKind, Seq<char>))> {
    match (e.kind, e.path, e.size) {
        (Some(kind), Some(path), Some(size)) => if kind@ != "file"@ {
            None
        } else {
            match e.lfs_oid {
                Some(oid) => Some((path@, (size, DigestKind::Sha256, oid@))),
                None => match e.oid {
                    Some(oid) => Some((path@, (size, DigestKind::GitBlobSha1, oid@))),
                    None => None,
                },
            }
        },
        _ => None,
    }
}

/// The expectations of a listing, in listing order.
pub open spec fn listing_expectations(entries: Seq<ManifestEntry>) -> Seq<
    (Seq<char>, (u64, DigestKind, Seq<char>)),
>
    decreases entries.len(),
{
    if entries.len() == 0 {
        Seq::empty()
    } else {
        let rest = listing_expectations(entries.drop_last());
        match entry_expectation(entries.last()) {
            Some(x) => rest.push(x),
            None => rest,
        }
    }
}

/// The expectation for `path`: the last one listed for it, since a later
/// entry for the same path replaces an earlier one.
pub open spec fn lookup_expectation(
    m: Seq<(Seq<char>, (u64, DigestKind, Seq<char>))>,
    path: Seq<char>,
) -> Option<(u64, DigestKind, Seq<char>)>
    decreases m.len(),
{
    if m.len() == 0 {
        None
    } else if m.last().0 == path {
        Some(m.last().1)
    } else {
        lookup_expectation(m.drop_last(), path)
    }
}

/// The expected size and digest of each file of a repository, keyed by path.
#[derive(Debug, Clone)]
pub struct Manifest {
    files: Vec<(String, ExpectedFile)>,
}

impl View for Manifest {
    type V = Seq<(Seq<char>, (u64, DigestKind, Seq<char>))>;

    closed spec fn view(&self) -> Seq<(Seq<char>, (u64, DigestKind, Seq<char>))> {
        self.files@.map_values(|p: (String, ExpectedFile)| (p.0@, expected_view(p.1)))
    }
}

/// The view of an optional string.
pub open spec fn opt_string_view(o: Option<String>) -> Option<Seq<char>> {
    match o {
        Some(s) => Some(s@),
        None => None,
    }
}

/// A listing entry's fields as plain values: type, path, size, LFS object
/// id and git object id.
pub type EntryFields = (Option<Seq<char>>, Option<Seq<char>>, Option<u64>, Option<Seq<char>>, Option<Seq<char>>);

/// The plain fields of a listing entry.
pub open spec fn entry_fields(e: ManifestEntry) -> EntryFields {
    (opt_string_view(e.kind), opt_string_view(e.path), e.size, opt_string_view(e.lfs_oid), opt_string_view(e.oid))
}

/// What an entry with these fields contributes to the manifest (see
/// [`entry_expectation`]).
pub open spec fn fields_expectation(f: EntryFields) -> Option<(Seq<char>, (u64, DigestKind, Seq<char>))> {
    match (f.0, f.1, f.2) {
        (Some(kind), Some(path), Some(size)) => if kind != "file"@ {
            None
        } else {
            match f.3 {
                Some(oid) => Some((path, (size, DigestKind::Sha256, oid))),
                None => match f.4 {
                    Some(oid) => Some((path, (size, DigestKind::GitBlobSha1, oid))),
                    None => None,
                },
            }
        },
        _ => None,
    }
}

/// The expectations of a listing given as plain fields, in listing order.
pub open spec fn fields_listing_expectations(entries: Seq<EntryFields>) -> Seq<(Seq<char>, (u64, DigestKind, Seq<char>))>
    decreases entries.len(),
{
    if entries.len() == 0 {
        Seq::empty()
    } else {
        let rest = fields_listing_expectations(entries.drop_last());
        match fields_expectation(entries.last()) {
            Some(x) => rest.push(x),
            None => rest,
        }
    }
}

/// An entry and its plain fields contribute the same expectation, and so
/// does a whole listing.
proof fn lemma_listing_fields(entries: Seq<ManifestEntry>)
    ensures
        listing_expectations(entries) == fields_listing_expectations(
            entries.map_values(|e: ManifestEntry| entry_fields(e)),
        ),
    decreases entries.len(),
{
    let fs = entries.map_values(|e: ManifestEntry| entry_fields(e));
    if entries.len() > 0 {
        lemma_listing_fields(entries.drop_last());
        assert(fs.drop_last() =~= entries.drop_last().map_values(|e: ManifestEntry| entry_fields(e)));
        assert(fs.last() == entry_fields(entries.last()));
        assert(entry_expectation(entries.last()) == fields_expectation(fs.last()));
    }
}

/// What `serde_json` reads from a repository's file listing: for each
/// element of the JSON array, its `type`, `path`, `size`, `lfs.oid` and
/// `oid` (each only when present with the expected JSON type); or the
/// parser's message when the text is not a JSON array.
pub uninterp spec fn listing_of(body: Seq<char>) -> Result<Seq<EntryFields>, Seq<char>>;

/// Parse a file listing with `serde_json::from_str::<Vec<Value>>` and read
/// each element's fields with `Value::get`, `Value::as_str` and
/// `Value::as_u64`. The contract states that the result is the named reading
/// of the text; what the parser accepts and its messages are left to the
/// name.
#[verifier::external_body]
fn parse_listing(body: &str) -> (r: Result<Vec<ManifestEntry>, String>)
    ensures
        match r {
            Ok(v) => listing_of(body@) == Ok::<Seq<EntryFields>, Seq<char>>(
                v@.map_values(|e: ManifestEntry| entry_fields(e)),
            ),
            Err(m) => listing_of(body@) == Err::<Seq<EntryFields>, Seq<char>>(m@),
        },
{
    let text = |v: Option<&Value>| v.and_then(Value::as_str).map(str::to_string);
    match serde_json::from_str::<Vec<Value>>(body) {
        Ok(es) => Ok(es.iter().map(|e| ManifestEntry {
            kind: text(e.get("type")),
            path: text(e.get("path")),
            size: e.get("size").and_then(Value::as_u64),
            lfs_oid: text(e.get("lfs").and_then(|l| l.get("oid"))),
            oid: text(e.get("oid")),
        }).collect()),
        Err(error) => Err(error.to_string()),
    }
}

/// The owned copy of an optional string.
fn clone_opt(s: &Option<String>) -> (r: Option<String>)
    ensures
        match (*s, r) {
            (Some(a), Some(b)) => a@ == b@,
            (None, None) => true,
            _ => false,
        },
{
    match s {
        Some(a) => Some(owned(a.as_str())),
        None => None,
    }
}

/// The expectation that one listing entry contributes, if any.
fn expectation_of(e: &ManifestEntry) -> (r: Option<(String, ExpectedFile)>)
    ensures
        match r {
            Some(p) => entry_expectation(*e) == Some((p.0@, expected_view(p.1))),
            None => entry_expectation(*e) is None,
        },
{
    proof {
        reveal_strlit("file");
    }
    match (&e.kind, &e.path, e.size) {
        (Some(kind), Some(path), Some(size)) => {
            if !str_eq(kind.as_str(), "file") {
                return None;
            }
            match &e.lfs_oid {
                Some(oid) => Some(
                    (owned(path.as_str()), ExpectedFile { size, checksum: Checksum::Sha256(owned(oid.as_str())) }),
                ),
                None => match &e.oid {
                    Some(oid) => Some(
                        (
                            owned(path.as_str()),
                            ExpectedFile { size, checksum: Checksum::GitBlobSha1(owned(oid.as_str())) },
                        ),
                    ),
                    None => None,
                },
            }
        },
        _ => None,
    }
}

impl Manifest {
    /// Build the manifest from the repository's file listing: every entry of
    /// type `file` with a path, a size and an object id (the LFS SHA-256 when
    /// there is one, else the git-blob SHA-1) is kept; other entries are
    /// skipped.
    pub fn from_entries(entries: &[ManifestEntry]) -> (m: Manifest)
        ensures
            m@ == listing_expectations(entries@),
    {
        let mut files: Vec<(String, ExpectedFile)> = Vec::new();
        let mut k: usize = 0;
        while k < entries.len()
            invariant
                k <= entries@.len(),
                files@.map_values(|p: (String, ExpectedFile)| (p.0@, expected_view(p.1)))
                    == listing_expectations(entries@.subrange(0, k as int)),
            decreases entries@.len() - k,
        {
            assert(entries@.subrange(0, k + 1).drop_last() =~= entries@.subrange(0, k as int));
            let ghost before = files@;
            match expectation_of(&entries[k]) {
                Some(p) => {
                    files.push(p);
                    assert(files@.map_values(|p: (String, ExpectedFile)| (p.0@, expected_view(p.1)))
                        =~= before.map_values(|p: (String, ExpectedFile)| (p.0@, expected_view(p.1))).push(
                        (p.0@, expected_view(p.1)),
                    ));
                },
                None => {},
            }
            k += 1;
        }
        assert(entries@.subrange(0, entries@.len() as int) =~= entries@);
        Manifest { files }
    }

    /// The number of files the manifest describes (counting repeated paths).
    pub fn len(&self) -> (n: usize)
        ensures
            n == self@.len(),
    {
        self.files.len()
    }
}

/// The manifest published as the listing text `body`, fetched from `url`:
/// the expectations of its entries (see [`Manifest::from_entries`]); a text
/// that is not a JSON array gives [`BundleError::Manifest`] with the URL and
/// the parser's message.
pub fn manifest_from_listing(url: &str, body: &str) -> (r: Result<Manifest, BundleError>)
    ensures
        match listing_of(body@) {
            Ok(fields) => r matches Ok(m) && m@ == fields_listing_expectations(fields),
            Err(msg) => r matches Err(e) && e@ == BundleFault::Manifest(url@ + ": "@ + msg),
        },
{
    match parse_listing(body) {
        Ok(entries) => {
            let m = Manifest::from_entries(entries.as_slice());
            proof {
                lemma_listing_fields(entries@);
            }
            Ok(m)
        },
        Err(msg) => {
            let mut v = prefixed(url, ": ");
            extend_chars(&mut v, chars_of(msg.as_str()).as_slice());
            Err(BundleError::Manifest(string_of(v.as_slice())))
        },
    }
}

/// The expectation for `file` in the manifest, or
/// [`BundleError::ManifestMissing`] when the manifest has none.
pub fn expect_file<'a>(manifest: &'a Manifest, file: &str) -> (r: Result<&'a ExpectedFile, BundleError>)
    ensures
        match lookup_expectation(manifest@, file@) {
            Some(x) => r matches Ok(e) && expected_view(*e) == x,
            None => r matches Err(e) && e@ == BundleFault::ManifestMissing(file@),
        },
{
    let ghost m = manifest@;
    let mut k: usize = manifest.files.len();
    assert(m.subrange(0, k as int) =~= m);
    while k > 0
        invariant
            k <= manifest.files@.len(),
            m == manifest@,
            lookup_expectation(m.subrange(0, k as int), file@) == lookup_expectation(m, file@),
        decreases k,
    {
        let ghost sub = m.subrange(0, k as int);
        assert(sub.drop_last() =~= m.subrange(0, k - 1));
        assert(sub.last() == m[k - 1]);
        if str_eq(manifest.files[k - 1].0.as_str(), file) {
            return Ok(&manifest.files[k - 1].1);
        }
        k -= 1;
    }
    Err(BundleError::ManifestMissing(owned(file)))
}

/// What to do with one bundle file before downloading the bundle.
#[derive(Debug, Clone, Copy, PartialEq, Eq, Structural)]
pub enum DownloadStep {
    /// The file is present with the expected size: keep it.
    Keep,
    /// The file is present with another size: remove it, then fetch it.
    Replace,
    /// The file is absent (or empty): fetch it.
    Fetch,
}

/// What to do with a bundle file whose size on disk is `on_disk` (`None`
/// when it does not exist) before a download: keep it when it is present
/// with the expected size, replace it when it is present with another size,
/// fetch it otherwise.
pub fn download_step(on_disk: Option<u64>, expected: &ExpectedFile) -> (r: DownloadStep)
    ensures
        r == (if spec_is_present(on_disk) {
            if on_disk == Some(expected.size) {
                DownloadStep::Keep
            } else {
                DownloadStep::Replace
            }
        } else {
            DownloadStep::Fetch
        }),
{
    if is_present(on_disk) {
        match on_disk {
            Some(n) => if n == expected.size {
                DownloadStep::Keep
            } else {
                DownloadStep::Replace
            },
            None => DownloadStep::Fetch,
        }
    } else {
        DownloadStep::Fetch
    }
}


/// What `sha2::Sha256` computes for `data`: its SHA-256 digest.
pub uninterp spec fn sha256_digest(data: Seq<u8>) -> Seq<u8>;

/// What `sha1::Sha1` computes for `data`: its SHA-1 digest.
pub uninterp spec fn sha1_digest(data: Seq<u8>) -> Seq<u8>;

/// The SHA-256 digest of `data` (`sha2::Sha256::digest`). The contract
/// states that the result is the named digest of exactly these bytes; the
/// hash function itself is left to the name.
#[verifier::external_body]
fn sha256(data: &[u8]) -> (d: Vec<u8>)
    ensures
        d@ == sha256_digest(data@),
{
    <sha2::Sha256 as sha2::Digest>::digest(data).to_vec()
}

/// The SHA-1 digest of `data` (`sha1::Sha1::digest`). The contract states
/// that the result is the named digest of exactly these bytes; the hash
/// function itself is left to the name.
#[verifier::external_body]
fn sha1(data: &[u8]) -> (d: Vec<u8>)
    ensures
        d@ == sha1_digest(data@),
{
    <sha1::Sha1 as sha1::Digest>::digest(data).to_vec()
}

/// The ASCII decimal digits of `n`, most significant first.
pub open spec fn decimal_bytes(n: nat) -> Seq<u8>
    decreases n,
{
    if n < 10 {
        seq![(48 + n) as u8]
    } else {
        decimal_bytes(n / 10).push((48 + n % 10) as u8)
    }
}

/// Append the ASCII decimal digits of `n` to `v`.
fn push_decimal_bytes(v: &mut Vec<u8>, n: u64)
    ensures
        final(v)@ == old(v)@ + decimal_bytes(n as nat),
    decreases n,
{
    if n < 10 {
        v.push(48 + n as u8);
        assert(old(v)@ + decimal_bytes(n as nat) =~= old(v)@.push((48 + n) as u8));
    } else {
        push_decimal_bytes(v, n / 10);
        v.push(48 + (n % 10) as u8);
        assert(old(v)@ + decimal_bytes(n as nat) =~= (old(v)@ + decimal_bytes((n / 10) as nat)).push(
            (48 + n % 10) as u8,
        ));
    }
}

/// The git blob header for a file of `size` bytes: `"blob <size>\0"`.
pub open spec fn blob_header(size: nat) -> Seq<u8> {
    seq![98u8, 108u8, 111u8, 98u8, 32u8] + decimal_bytes(size) + seq![0u8]
}

/// The digest of `contents` for a file expected as `e` (size, kind, hex):
/// SHA-256 of the content, or SHA-1 of the git blob header for the expected
/// size followed by the content.
pub open spec fn spec_file_digest(e: (u64, DigestKind, Seq<char>), contents: Seq<u8>) -> Seq<u8> {
    match e.1 {
        DigestKind::Sha256 => sha256_digest(contents),
        DigestKind::GitBlobSha1 => sha1_digest(blob_header(e.0 as nat) + contents),
    }
}

/// The lowercase hex digit for `d < 16`.
pub open spec fn hex_digit_char(d: nat) -> char {
    "0123456789abcdef"@[d as int]
}

/// `bytes` as lowercase hex, two digits per byte, high nibble first.
pub open spec fn spec_to_hex(bytes: Seq<u8>) -> Seq<char>
    decreases bytes.len(),
{
    if bytes.len() == 0 {
        Seq::empty()
    } else {
        spec_to_hex(bytes.drop_last()) + seq![
            hex_digit_char((bytes.last() / 16) as nat),
            hex_digit_char((bytes.last() % 16) as nat),
        ]
    }
}

/// `bytes` as lowercase hex, two digits per byte.
pub fn to_hex(bytes: &[u8]) -> (r: String)
    ensures
        r@ == spec_to_hex(bytes@),
        r@.len() == 2 * bytes@.len(),
{
    proof {
        reveal_strlit("0123456789abcdef");
    }
    let digits = chars_of("0123456789abcdef");
    let mut out: Vec<char> = Vec::new();
    let mut k: usize = 0;
    while k < bytes.len()
        invariant
            k <= bytes@.len(),
            digits@ == "0123456789abcdef"@,
            digits@.len() == 16,
            out@ == spec_to_hex(bytes@.subrange(0, k as int)),
            out@.len() == 2 * k,
        decreases bytes@.len() - k,
    {
        let b = bytes[k];
        assert(bytes@.subrange(0, k + 1).drop_last() =~= bytes@.subrange(0, k as int));
        out.push(digits[(b / 16) as usize]);
        out.push(digits[(b % 16) as usize]);
        k += 1;
    }
    assert(bytes@.subrange(0, bytes@.len() as int) =~= bytes@);
    string_of(out.as_slice())
}

/// The bytes that are hashed for a file expected as `expected`.
fn digest_input(expected: &ExpectedFile, contents: &[u8]) -> (r: Vec<u8>)
    requires
        expected_view(*expected).1 == DigestKind::GitBlobSha1,
    ensures
        r@ == blob_header(expected.size as nat) + contents@,
{
    let mut v: Vec<u8> = Vec::new();
    v.push(98u8);
    v.push(108u8);
    v.push(111u8);
    v.push(98u8);
    v.push(32u8);
    push_decimal_bytes(&mut v, expected.size);
    v.push(0u8);
    let ghost head = v@;
    let mut k: usize = 0;
    while k < contents.len()
        invariant
            k <= contents@.len(),
            v@ == head + contents@.subrange(0, k as int),
        decreases contents@.len() - k,
    {
        v.push(contents[k]);
        assert(contents@.subrange(0, k + 1) =~= contents@.subrange(0, k as int).push(contents@[k as int]));
        k += 1;
    }
    assert(contents@.subrange(0, contents@.len() as int) =~= contents@);
    assert(head =~= blob_header(expected.size as nat));
    v
}

/// The lowercase hex digest of `contents` for a file expected as `expected`
/// (SHA-256 of the content, or the git-blob SHA-1 for the expected size).
pub fn hash_contents(expected: &ExpectedFile, contents: &[u8]) -> (r: String)
    ensures
        r@ == spec_to_hex(spec_file_digest(expected_view(*expected), contents@)),
{
    match &expected.checksum {
        Checksum::Sha256(_) => to_hex(sha256(contents).as_slice()),
        Checksum::GitBlobSha1(_) => {
            let input = digest_input(expected, contents);
            to_hex(sha1(input.as_slice()).as_slice())
        },
    }
}

/// The decimal size followed by `" bytes"`.
pub open spec fn bytes_text(n: u64) -> Seq<char> {
    decimal(n as nat) + " bytes"@
}

/// `n` in decimal followed by `" bytes"`.
fn bytes_message(n: u64) -> (r: String)
    ensures
        r@ == bytes_text(n),
{
    let mut v: Vec<char> = Vec::new();
    push_decimal(&mut v, n);
    extend_chars(&mut v, chars_of(" bytes").as_slice());
    string_of(v.as_slice())
}

/// The size check of a file: `None` when its size on disk (`None` for a
/// missing file, read as 0) is the expected one, else the mismatch in bytes.
pub open spec fn spec_size_fault(file: Seq<char>, e: (u64, DigestKind, Seq<char>), on_disk: Option<u64>) -> Option<
    BundleFault,
> {
    let actual: u64 = match on_disk {
        Some(n) => n,
        None => 0,
    };
    if actual != e.0 {
        Some(BundleFault::ChecksumMismatch(file, bytes_text(e.0), bytes_text(actual)))
    } else {
        None
    }
}

/// Check the size on disk of `file` (`None` when it does not exist, which
/// counts as 0 bytes) against the expected size.
pub fn check_size(file: &str, expected: &ExpectedFile, on_disk: Option<u64>) -> (r: Result<(), BundleError>)
    ensures
        match spec_size_fault(file@, expected_view(*expected), on_disk) {
            Some(f) => r matches Err(e) && e@ == f,
            None => r is Ok,
        },
{
    let actual = match on_disk {
        Some(n) => n,
        None => 0,
    };
    if actual != expected.size {
        return Err(
            BundleError::ChecksumMismatch {
                file: owned(file),
                expected: bytes_message(expected.size),
                actual: bytes_message(actual),
            },
        );
    }
    Ok(())
}

/// The digest check of a file: `None` when the hex digest of its contents is
/// the published one, else the mismatch.
pub open spec fn spec_digest_fault(file: Seq<char>, e: (u64, DigestKind, Seq<char>), contents: Seq<u8>) -> Option<
    BundleFault,
> {
    let actual = spec_to_hex(spec_file_digest(e, contents));
    if actual != e.2 {
        Some(BundleFault::ChecksumMismatch(file, e.2, actual))
    } else {
        None
    }
}

/// Check the digest of `contents` against the one published for `file`.
pub fn check_digest(file: &str, expected: &ExpectedFile, contents: &[u8]) -> (r: Result<(), BundleError>)
    ensures
        match spec_digest_fault(file@, expected_view(*expected), contents@) {
            Some(f) => r matches Err(e) && e@ == f,
            None => r is Ok,
        },
{
    let actual = hash_contents(expected, contents);
    let expected_hex = digest_hex(&expected.checksum);
    if !str_eq(actual.as_str(), expected_hex) {
        return Err(
            BundleError::ChecksumMismatch { file: owned(file), expected: owned(expected_hex), actual },
        );
    }
    Ok(())
}

/// What was read from disk for one bundle file: its size (`None` when it
/// does not exist) and its contents, or the error that reading it gave.
#[derive(Debug, PartialEq, Eq)]
pub struct FileOnDisk {
    /// The file's size from its metadata.
    pub size: Option<u64>,
    /// The file's contents, or the operating system's message.
    pub contents: Result<Vec<u8>, String>,
}

/// The check of one file read from disk: its size first, then (if it could
/// be read) its digest.
pub open spec fn spec_file_fault(file: Seq<char>, e: (u64, DigestKind, Seq<char>), disk: FileOnDisk) -> Option<
    BundleFault,
> {
    match spec_size_fault(file, e, disk.size) {
        Some(f) => Some(f),
        None => match disk.contents {
            Err(m) => Some(BundleFault::Io(m@)),
            Ok(c) => spec_digest_fault(file, e, c@),
        },
    }
}

/// Verify one file read from disk against its expectation: size, then digest.
pub fn verify_file(file: &str, expected: &ExpectedFile, disk: &FileOnDisk) -> (r: Result<(), BundleError>)
    ensures
        match spec_file_fault(file@, expected_view(*expected), *disk) {
            Some(f) => r matches Err(e) && e@ == f,
            None => r is Ok,
        },
{
    check_size(file, expected, disk.size)?;
    match &disk.contents {
        Err(m) => Err(BundleError::Io(owned(m.as_str()))),
        Ok(c) => check_digest(file, expected, c.as_slice()),
    }
}

/// The check of the bundle's files from the `i`-th on, in order: the first
/// file without an expectation or failing its check decides.
pub open spec fn spec_bundle_fault_from(
    m: Seq<(Seq<char>, (u64, DigestKind, Seq<char>))>,
    disk: Seq<FileOnDisk>,
    i: nat,
) -> Option<BundleFault>
    decreases BUNDLE_FILE_COUNT - i,
{
    if i >= BUNDLE_FILE_COUNT {
        None
    } else {
        let file = spec_bundle_files()[i as int];
        match lookup_expectation(m, file) {
            None => Some(BundleFault::ManifestMissing(file)),
            Some(e) => match spec_file_fault(file, e, disk[i as int]) {
                Some(f) => Some(f),
                None => spec_bundle_fault_from(m, disk, i + 1),
            },
        }
    }
}

/// Verify a bundle against the manifest published for its repo.
///
/// `on_disk` holds what was read for each of the bundle's files, in the
/// order of [`bundle_files`]. The files are checked in that order, each for
/// an entry in the manifest, then its size, then its digest (SHA-256 for LFS
/// blobs, git-object SHA-1 for small files); the first failure is returned.
pub fn verify_bundle_from(manifest: &Manifest, on_disk: &[FileOnDisk]) -> (r: Result<(), BundleError>)
    requires
        on_disk@.len() == BUNDLE_FILE_COUNT,
    ensures
        match spec_bundle_fault_from(manifest@, on_disk@, 0) {
            Some(f) => r matches Err(e) && e@ == f,
            None => r is Ok,
        },
{
    let files = bundle_files();
    let mut k: usize = 0;
    while k < BUNDLE_FILE_COUNT
        invariant
            k <= BUNDLE_FILE_COUNT,
            on_disk@.len() == BUNDLE_FILE_COUNT,
            files@.len() == BUNDLE_FILE_COUNT,
            forall|i: int| 0 <= i < files@.len() ==> #[trigger] files@[i]@ == spec_bundle_files()[i],
            spec_bundle_fault_from(manifest@, on_disk@, 0) == spec_bundle_fault_from(
                manifest@,
                on_disk@,
                k as nat,
            ),
        decreases BUNDLE_FILE_COUNT - k,
    {
        let file = files[k];
        assert(file@ == spec_bundle_files()[k as int]);
        let expected = expect_file(manifest, file)?;
        verify_file(file, expected, &on_disk[k])?;
        k += 1;
    }
    Ok(())
}


/// The `i`-th bundle file is listed in the manifest and matches it: the size
/// on disk is the expected one, the file could be read, and its digest is
/// the published one.
pub open spec fn file_matches(
    m: Seq<(Seq<char>, (u64, DigestKind, Seq<char>))>,
    disk: Seq<FileOnDisk>,
    i: int,
) -> bool {
    match lookup_expectation(m, spec_bundle_files()[i]) {
        None => false,
        Some(e) => {
            &&& spec_size_fault(spec_bundle_files()[i], e, disk[i].size) is None
            &&& disk[i].contents matches Ok(c) && spec_digest_fault(spec_bundle_files()[i], e, c@) is None
        },
    }
}

/// The check from the `i`-th file on passes exactly when every file from the
/// `i`-th on matches.
proof fn lemma_bundle_fault_from(
    m: Seq<(Seq<char>, (u64, DigestKind, Seq<char>))>,
    disk: Seq<FileOnDisk>,
    i: nat,
)
    requires
        disk.len() == BUNDLE_FILE_COUNT,
        i <= BUNDLE_FILE_COUNT,
    ensures
        (spec_bundle_fault_from(m, disk, i) is None) <==> (forall|j: int|
            i <= j < BUNDLE_FILE_COUNT ==> #[trigger] file_matches(m, disk, j)),
    decreases BUNDLE_FILE_COUNT - i,
{
    if i < BUNDLE_FILE_COUNT {
        lemma_bundle_fault_from(m, disk, i + 1);
        if spec_bundle_fault_from(m, disk, i) is None {
            assert forall|j: int| i <= j < BUNDLE_FILE_COUNT implies #[trigger] file_matches(m, disk, j) by {
                if j > i {
                    assert(i + 1 <= j);
                }
            }
        } else {
            if forall|j: int| i <= j < BUNDLE_FILE_COUNT ==> #[trigger] file_matches(m, disk, j) {
                assert(file_matches(m, disk, i as int));
                assert(forall|j: int| i + 1 <= j < BUNDLE_FILE_COUNT ==> #[trigger] file_matches(m, disk, j));
            }
        }
    }
}

/// A bundle verifies exactly when every one of its files is listed in the
/// manifest and matches the published size and digest.
pub proof fn law_bundle_verifies_iff_every_file_matches(
    m: Seq<(Seq<char>, (u64, DigestKind, Seq<char>))>,
    disk: Seq<FileOnDisk>,
)
    requires
        disk.len() == BUNDLE_FILE_COUNT,
    ensures
        (spec_bundle_fault_from(m, disk, 0) is None) <==> (forall|j: int|
            0 <= j < BUNDLE_FILE_COUNT ==> #[trigger] file_matches(m, disk, j)),
{
    lemma_bundle_fault_from(m, disk, 0);
}

} // verus!
