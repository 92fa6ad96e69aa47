//! The traversal engine: ignore-list-driven tree walking with progress
//! reporting, project-manifest discovery, metadata extraction, and discovery
//! of package-manager cache directories. Filesystem access goes through an
//! injected environment, so every decision the scanner takes is checked here.

use vstd::prelude::*;

verus! {

use vstd::string::StringExecFns;
use crate::risk::has_startup_signal;
use crate::text::{
    after_last_slash, chars_of, has_prefix, spec_trim, starts_with_chars, str_eq, string_of,
    trim_chars,
};
use crate::types::{ProjectMeta, ScanProgress};

/// The base names whose subtrees every scan skips.
pub open spec fn spec_default_ignored(name: Seq<char>) -> bool {
    ||| name == "node_modules"@
    ||| name == "dist"@
    ||| name == "build"@
    ||| name == ".git"@
    ||| name == ".next"@
    ||| name == ".cache"@
    ||| name == "coverage"@
}

/// An entry is skipped when its base name is on the fixed ignore list, or,
/// when the whole disk is scanned, on the platform's reserved list.
pub open spec fn spec_is_ignored(
    name: Seq<char>,
    scan_all: bool,
    reserved: Seq<Seq<char>>,
) -> bool {
    spec_default_ignored(name) || (scan_all && reserved.contains(name))
}

/// The top-level directories a whole-disk scan avoids on Unix-like systems.
pub fn unix_reserved_names() -> (r: Vec<String>)
    ensures
        r.deep_view() == seq![
            "System"@, "Library"@, "Applications"@, "private"@, "Volumes"@, "proc"@, "dev"@,
            "sys"@, "run"@, "tmp"@,
        ],
{
    let mut r: Vec<String> = Vec::new();
    r.push(String::from_str("System"));
    r.push(String::from_str("Library"));
    r.push(String::from_str("Applications"));
    r.push(String::from_str("private"));
    r.push(String::from_str("Volumes"));
    r.push(String::from_str("proc"));
    r.push(String::from_str("dev"));
    r.push(String::from_str("sys"));
    r.push(String::from_str("run"));
    r.push(String::from_str("tmp"));
    proof {
        assert(r.deep_view() =~= seq![
            "System"@, "Library"@, "Applications"@, "private"@, "Volumes"@, "proc"@, "dev"@,
            "sys"@, "run"@, "tmp"@,
        ]);
    }
    r
}

/// The top-level directories a whole-disk scan avoids on Windows.
pub fn windows_reserved_names() -> (r: Vec<String>)
    ensures
        r.deep_view() == seq![
            "Windows"@, "Program Files"@, "Program Files (x86)"@, "ProgramData"@,
            "$Recycle.Bin"@, "System Volume Information"@,
        ],
{
    let mut r: Vec<String> = Vec::new();
    r.push(String::from_str("Windows"));
    r.push(String::from_str("Program Files"));
    r.push(String::from_str("Program Files (x86)"));
    r.push(String::from_str("ProgramData"));
    r.push(String::from_str("$Recycle.Bin"));
    r.push(String::from_str("System Volume Information"));
    proof {
        assert(r.deep_view() =~= seq![
            "Windows"@, "Program Files"@, "Program Files (x86)"@, "ProgramData"@,
            "$Recycle.Bin"@, "System Volume Information"@,
        ]);
    }
    r
}

/// Decide whether an entry with this base name is skipped, subtree included.
#[verifier::loop_isolation(false)]
pub fn is_ignored(name: &str, scan_all: bool, reserved: &Vec<String>) -> (r: bool)
    ensures
        r == spec_is_ignored(name@, scan_all, reserved.deep_view()),
{
    if str_eq(name, "node_modules") || str_eq(name, "dist") || str_eq(name, "build") || str_eq(
        name,
        ".git",
    ) || str_eq(name, ".next") || str_eq(name, ".cache") || str_eq(name, "coverage") {
        return true;
    }
    if !scan_all {
        return false;
    }
    let mut i: usize = 0;
    while i < reserved.len()
        invariant
            i <= reserved@.len(),
            forall|k: int| 0 <= k < i ==> reserved.deep_view()[k] != name@,
        decreases reserved@.len() - i,
    {
        proof {
            assert(reserved.deep_view()[i as int] == reserved@[i as int]@);
        }
        if str_eq(reserved[i].as_str(), name) {
            proof {
                assert(reserved.deep_view()[i as int] == name@);
                assert(reserved.deep_view().contains(name@));
            }
            return true;
        }
        i = i + 1;
    }
    false
}

/// One visited entry of a directory walk.
#[derive(Debug, Clone)]
pub struct WalkEntry {
    pub path: String,
    pub name: String,
    pub is_file: bool,
    pub is_dir: bool,
}

/// One step of a directory walk: a visited entry, or an unreadable one.
#[derive(Debug, Clone)]
pub enum WalkStep {
    Visited(WalkEntry),
    Failed,
}

/// The filesystem reads a scan performs. The program around the library
/// implements them over the real filesystem; a test may hand in a scripted
/// one. Nothing is assumed of any implementation: what the scanner
/// guarantees holds whatever these calls return.
pub trait ScanEnv {
    /// Begin a walk of the tree under `root`, never following symbolic
    /// links; entries come back one step at a time.
    fn start_walk(&mut self, root: &String);

    /// The next step of the walk, or nothing when it is done.
    fn next_step(&mut self) -> Option<WalkStep>;

    /// Skip what remains of the directory whose entry was just yielded.
    fn skip_current_dir(&mut self);

    /// The text of a file, when it can be read as text.
    fn read_to_string(&mut self, path: &String) -> Option<String>;

    /// Whether the path names an existing filesystem object.
    fn path_exists(&mut self, path: &String) -> bool;

    /// Whether the path names an existing directory.
    fn dir_exists(&mut self, path: &String) -> bool;

    /// The names of the entries directly inside a directory.
    fn entry_names(&mut self, dir: &String) -> Option<Vec<String>>;

    /// The names of the immediate subdirectories of a directory.
    fn subdir_names(&mut self, dir: &String) -> Option<Vec<String>>;

    /// The modification time of a path, in epoch milliseconds.
    fn modified_ms(&mut self, path: &String) -> Option<i64>;

    /// The recursive size of the tree under a path, in bytes.
    fn tree_size(&mut self, path: &String) -> u64;

    /// The current time, in epoch milliseconds.
    fn now_ms(&mut self) -> i64;

    /// The environment overrides for the npm cache, the yarn cache, and the
    /// pnpm store, where set.
    fn cache_env_overrides(&mut self) -> (Option<String>, Option<String>, Option<String>);
}

/// A consumer of progress snapshots while a scan runs.
pub trait ProgressSink {
    /// Whether enough wall time has passed that a snapshot should go out
    /// now, independently of the entry-count cadence.
    fn want_tick(&mut self) -> bool;

    /// Consume one progress snapshot.
    fn emit(&mut self, progress: ScanProgress);
}

/// How many days ago a timestamp lies: the millisecond difference, clamped
/// at the representable extremes, counted in whole days toward zero.
pub open spec fn spec_last_modified_days(now_ms: i64, ms: i64) -> int {
    let delta: int = if now_ms - ms > i64::MAX {
        i64::MAX as int
    } else if now_ms - ms < -(i64::MAX as int) {
        -(i64::MAX as int)
    } else {
        now_ms - ms
    };
    if delta >= 0 {
        delta / 86400000
    } else {
        -((-delta) / 86400000)
    }
}

/// How many days ago a timestamp lies, relative to `now_ms`.
pub fn last_modified_days(now_ms: i64, ms: i64) -> (r: i64)
    ensures
        r == spec_last_modified_days(now_ms, ms),
{
    if now_ms >= ms {
        let delta: i64 = if ms < 0 && now_ms > i64::MAX + ms {
            i64::MAX
        } else {
            now_ms - ms
        };
        ((delta as u64) / 86400000) as i64
    } else {
        let mag: i64 = if ms >= 0 && now_ms < ms - i64::MAX {
            i64::MAX
        } else {
            ms - now_ms
        };
        let days = ((mag as u64) / 86400000) as i64;
        -days
    }
}

/// The characters strictly before the last `/` of a path.
pub open spec fn before_last_slash(s: Seq<char>) -> Seq<char>
    decreases s.len(),
{
    if s.len() == 0 {
        s
    } else if s.last() == '/' {
        s.drop_last()
    } else {
        before_last_slash(s.drop_last())
    }
}

/// A path holds a `/` somewhere.
pub open spec fn spec_has_slash(s: Seq<char>) -> bool {
    exists|i: int| 0 <= i < s.len() && s[i] == '/'
}

proof fn lemma_before_last_slash_prefix(s: Seq<char>, j: int)
    requires
        0 < j <= s.len(),
        s[j - 1] == '/',
        forall|k: int| j <= k < s.len() ==> s[k] != '/',
    ensures
        before_last_slash(s) == s.take(j - 1),
    decreases s.len() - j,
{
    if j == s.len() {
        assert(s.last() == '/');
        assert(s.drop_last() =~= s.take(j - 1));
    } else {
        assert(s.last() == s[s.len() - 1]);
        assert(s.last() != '/');
        let d = s.drop_last();
        assert(forall|k: int| 0 <= k < d.len() ==> d[k] == s[k]);
        lemma_before_last_slash_prefix(d, j);
        assert(d.take(j - 1) =~= s.take(j - 1));
    }
}

/// The directory that holds a path: the characters before its last `/`, or
/// the given fallback when the path has none.
pub fn parent_dir(path: &String, fallback: &String) -> (r: String)
    ensures
        spec_has_slash(path@) ==> r@ == before_last_slash(path@),
        !spec_has_slash(path@) ==> r@ == fallback@,
{
    let chars = chars_of(path.as_str());
    let n = chars.len();
    let mut j: usize = n;
    while j > 0 && chars[j - 1] != '/'
        invariant
            j <= n,
            n == chars@.len(),
            chars@ == path@,
            forall|k: int| j <= k < n ==> chars@[k] != '/',
        decreases j,
    {
        j = j - 1;
    }
    if j == 0 {
        proof {
            assert(!spec_has_slash(path@));
        }
        fallback.clone()
    } else {
        proof {
            lemma_before_last_slash_prefix(path@, j as int);
            assert(spec_has_slash(path@));
        }
        let head = crate::text::copy_range(&chars, 0, j - 1);
        proof {
            assert(head@ =~= path@.take(j - 1));
        }
        string_of(&head)
    }
}

/// Declares serde_json's value type, so manifests parsed by serde_json can
/// pass through the scanner.
#[verifier::external_type_specification]
#[verifier::external_body]
pub struct ExValue(serde_json::Value);

/// Relies on serde_json::from_str: parses text as a JSON document, nothing
/// on malformed input.
#[verifier::external_body]
pub(crate) fn parse_json(text: &str) -> Option<serde_json::Value> {
    serde_json::from_str(text).ok()
}

/// The text of the named field of a JSON document, when it is a string, as
/// serde_json reads it; a function of the document and key alone.
pub uninterp spec fn spec_json_string_field(v: serde_json::Value, key: Seq<char>) -> Option<
    Seq<char>,
>;

/// Relies on serde_json::Value::get and Value::as_str: the named field of a
/// JSON object, when it is a string; a function of the document and key.
#[verifier::external_body]
pub(crate) fn json_string_field(v: &serde_json::Value, key: &str) -> (r: Option<String>)
    ensures
        r.deep_view() == spec_json_string_field(*v, key@),
{
    v.get(key).and_then(|x| x.as_str()).map(|s| s.to_string())
}

/// The entry count of the named field of a JSON document when it is an
/// object, zero otherwise, as serde_json reads it; a function of the
/// document and key alone.
pub uninterp spec fn spec_json_object_len(v: serde_json::Value, key: Seq<char>) -> usize;

/// Relies on serde_json::Value::get and Value::as_object: the entry count of
/// the named field, when it is an object; zero otherwise. A function of the
/// document and key.
#[verifier::external_body]
pub(crate) fn json_object_len(v: &serde_json::Value, key: &str) -> (r: usize)
    ensures
        r == spec_json_object_len(*v, key@),
{
    v.get(key).and_then(|x| x.as_object()).map(|m| m.len()).unwrap_or(0)
}

/// The string items of the named array field of a JSON document, non-string
/// items passed over, as serde_json reads them; a function of the document
/// and key alone.
pub uninterp spec fn spec_json_string_items(v: serde_json::Value, key: Seq<char>) -> Seq<
    Seq<char>,
>;

/// Relies on serde_json::Value::get and Value::as_array: the string items of
/// the named field, when it is an array; non-string items are passed over.
/// A function of the document and key.
#[verifier::external_body]
pub(crate) fn json_string_items(v: &serde_json::Value, key: &str) -> (r: Vec<String>)
    ensures
        r.deep_view() == spec_json_string_items(*v, key@),
{
    match v.get(key).and_then(|x| x.as_array()) {
        None => Vec::new(),
        Some(items) => items.iter().filter_map(|x| x.as_str().map(|s| s.to_string())).collect(),
    }
}

/// The string values of the named object field of a JSON document,
/// non-string values passed over, as serde_json reads them; a function of
/// the document and key alone.
pub uninterp spec fn spec_json_object_string_values(v: serde_json::Value, key: Seq<char>) -> Seq<
    Seq<char>,
>;

/// Relies on serde_json::Value::get and Value::as_object: the string values
/// of the named field, when it is an object; non-string values are passed
/// over. A function of the document and key.
#[verifier::external_body]
pub(crate) fn json_object_string_values(v: &serde_json::Value, key: &str) -> (r: Vec<String>)
    ensures
        r.deep_view() == spec_json_object_string_values(*v, key@),
{
    match v.get(key).and_then(|x| x.as_object()) {
        None => Vec::new(),
        Some(map) => map.values().filter_map(|x| x.as_str().map(|s| s.to_string())).collect(),
    }
}

/// The dependency total of a manifest document: the entry counts of its four
/// dependency maps, summed and clamped at the largest representable value.
pub open spec fn spec_dependency_count(v: serde_json::Value) -> usize {
    let total = spec_json_object_len(v, "dependencies"@)
        + spec_json_object_len(v, "devDependencies"@)
        + spec_json_object_len(v, "peerDependencies"@)
        + spec_json_object_len(v, "optionalDependencies"@);
    if total > usize::MAX {
        usize::MAX
    } else {
        total as usize
    }
}

/// The dependency total of a parsed manifest: the entry counts of its four
/// dependency maps, added with saturation.
pub fn get_dependency_count(pkg: &serde_json::Value) -> (r: usize)
    ensures
        r == spec_dependency_count(*pkg),
{
    let a = json_object_len(pkg, "dependencies");
    let b = json_object_len(pkg, "devDependencies");
    let c = json_object_len(pkg, "peerDependencies");
    let d = json_object_len(pkg, "optionalDependencies");
    a.saturating_add(b).saturating_add(c).saturating_add(d)
}

/// What the scanner reads out of one parsed manifest.
#[derive(Debug, Clone)]
pub struct RawManifest {
    pub name: Option<String>,
    pub keywords: Vec<String>,
    pub scripts: Vec<String>,
    pub dependency_count: usize,
}

/// Read the scanner's fields out of a parsed manifest: the declared name,
/// the keyword strings, the script command strings, and the dependency
/// total, each exactly what the accessors read from the document.
pub fn read_manifest(pkg: &serde_json::Value) -> (r: RawManifest)
    ensures
        r.name.deep_view() == spec_json_string_field(*pkg, "name"@),
        r.keywords.deep_view() == spec_json_string_items(*pkg, "keywords"@),
        r.scripts.deep_view() == spec_json_object_string_values(*pkg, "scripts"@),
        r.dependency_count == spec_dependency_count(*pkg),
{
    RawManifest {
        name: json_string_field(pkg, "name"),
        keywords: json_string_items(pkg, "keywords"),
        scripts: json_object_string_values(pkg, "scripts"),
        dependency_count: get_dependency_count(pkg),
    }
}

/// The display name of a project: its declared name when that is not blank,
/// else the base name of its directory.
pub open spec fn spec_project_name(declared: Option<Seq<char>>, dir: Seq<char>) -> Seq<char> {
    match declared {
        Option::Some(n) => {
            if spec_trim(n).len() > 0 {
                n
            } else {
                after_last_slash(dir)
            }
        },
        Option::None => after_last_slash(dir),
    }
}

/// Pick the display name of a project from its declared name and directory.
pub fn project_display_name(declared: &Option<String>, dir: &String) -> (r: String)
    ensures
        r@ == spec_project_name(declared.deep_view(), dir@),
{
    match declared {
        Option::Some(n) => {
            let cs = chars_of(n.as_str());
            let trimmed = trim_chars(&cs);
            if trimmed.len() > 0 {
                n.clone()
            } else {
                crate::text::path_base_name(dir)
            }
        },
        Option::None => crate::text::path_base_name(dir),
    }
}

/// Whether any entry name starts with `.env`.
pub open spec fn spec_any_env_name(names: Seq<Seq<char>>) -> bool {
    exists|i: int| 0 <= i < names.len() && has_prefix(names[i], ".env"@)
}

/// Decide whether a directory listing holds an environment file: an entry
/// whose name starts with `.env`.
pub fn has_env_name(names: &Vec<String>) -> (r: bool)
    ensures
        r == spec_any_env_name(names.deep_view()),
{
    let prefix = chars_of(".env");
    let mut i: usize = 0;
    while i < names.len()
        invariant
            i <= names@.len(),
            prefix@ == ".env"@,
            forall|k: int| 0 <= k < i ==> !has_prefix(names.deep_view()[k], ".env"@),
        decreases names@.len() - i,
    {
        let cs = chars_of(names[i].as_str());
        proof {
            assert(names.deep_view()[i as int] == names@[i as int]@);
        }
        if starts_with_chars(&cs, &prefix) {
            return true;
        }
        i = i + 1;
    }
    false
}

/// One candidate cache directory: where it is, which package manager it
/// serves, and whether its immediate subdirectories are listed one by one.
#[derive(Debug, Clone)]
pub struct CacheCandidate {
    pub path: String,
    pub label: String,
    pub expand_children: bool,
}

/// The mathematical content of a cache candidate.
pub ghost struct CandidateModel {
    pub path: Seq<char>,
    pub label: Seq<char>,
    pub expand_children: bool,
}

impl View for CacheCandidate {
    type V = CandidateModel;

    open spec fn view(&self) -> CandidateModel {
        CandidateModel {
            path: self.path@,
            label: self.label@,
            expand_children: self.expand_children,
        }
    }
}

/// A candidate list read as its mathematical content.
pub open spec fn cands_view(s: Seq<CacheCandidate>) -> Seq<CandidateModel> {
    s.map_values(|c: CacheCandidate| c@)
}

/// Relies on dirs::cache_dir: the per-user cache directory, if the platform
/// defines one.
#[verifier::external_body]
fn cache_dir_path() -> Option<String> {
    dirs::cache_dir().map(|p| p.to_string_lossy().to_string())
}

/// Relies on dirs::home_dir: the user's home directory, if the platform
/// defines one.
#[verifier::external_body]
fn home_dir_path() -> Option<String> {
    dirs::home_dir().map(|p| p.to_string_lossy().to_string())
}

/// The fixed candidate list built from the optional base directories and
/// environment overrides: the OS cache directory (expanded), the well-known
/// npm, yarn and pnpm directories under the home and data directories, and
/// the override paths.
pub open spec fn spec_gather(
    cache_base: Option<Seq<char>>,
    home: Option<Seq<char>>,
    data: Option<Seq<char>>,
    npm_env: Option<Seq<char>>,
    yarn_env: Option<Seq<char>>,
    pnpm_env: Option<Seq<char>>,
) -> Seq<CandidateModel> {
    (match cache_base {
        Option::Some(p) => seq![
            CandidateModel { path: p, label: "System cache"@, expand_children: true },
        ],
        Option::None => Seq::empty(),
    }) + (match home {
        Option::Some(h) => seq![
            CandidateModel { path: h + "/.npm"@, label: "npm cache"@, expand_children: false },
            CandidateModel {
                path: h + "/.yarn/cache"@,
                label: "yarn cache"@,
                expand_children: false,
            },
            CandidateModel { path: h + "/.yarn"@, label: "yarn data"@, expand_children: false },
            CandidateModel {
                path: h + "/.pnpm-store"@,
                label: "pnpm store"@,
                expand_children: false,
            },
            CandidateModel {
                path: h + "/.cache/yarn"@,
                label: "yarn cache"@,
                expand_children: false,
            },
            CandidateModel {
                path: h + "/.cache/npm"@,
                label: "npm cache"@,
                expand_children: false,
            },
        ],
        Option::None => Seq::empty(),
    }) + (match data {
        Option::Some(d) => seq![
            CandidateModel {
                path: d + "/pnpm/store"@,
                label: "pnpm store"@,
                expand_children: false,
            },
        ],
        Option::None => Seq::empty(),
    }) + (match npm_env {
        Option::Some(p) => seq![
            CandidateModel { path: p, label: "npm cache"@, expand_children: false },
        ],
        Option::None => Seq::empty(),
    }) + (match yarn_env {
        Option::Some(p) => seq![
            CandidateModel { path: p, label: "yarn cache"@, expand_children: false },
        ],
        Option::None => Seq::empty(),
    }) + (match pnpm_env {
        Option::Some(p) => seq![
            CandidateModel { path: p, label: "pnpm store"@, expand_children: false },
        ],
        Option::None => Seq::empty(),
    })
}

/// Gather the candidate cache directories: the platform's cache, home and
/// data directories contribute their well-known package-manager paths, and
/// the given environment overrides are appended.
pub fn gather_cache_candidates(
    npm_env: Option<String>,
    yarn_env: Option<String>,
    pnpm_env: Option<String>,
) -> (r: Vec<CacheCandidate>)
    ensures
        exists|cache_base: Option<Seq<char>>, home: Option<Seq<char>>, data: Option<Seq<char>>|
            cands_view(r@) == spec_gather(
                cache_base,
                home,
                data,
                npm_env.deep_view(),
                yarn_env.deep_view(),
                pnpm_env.deep_view(),
            ),
{
    let cache_base = cache_dir_path();
    let home = home_dir_path();
    let data = crate::cache::data_dir_path();
    let ghost cb = cache_base.deep_view();
    let ghost hm = home.deep_view();
    let ghost dt = data.deep_view();
    let mut r: Vec<CacheCandidate> = Vec::new();

    match cache_base {
        Option::Some(p) => {
            r.push(
                CacheCandidate {
                    path: p,
                    label: String::from_str("System cache"),
                    expand_children: true,
                },
            );
        },
        Option::None => {},
    }
    let ghost c1 = (match cb {
        Option::Some(p) => seq![
            CandidateModel { path: p, label: "System cache"@, expand_children: true },
        ],
        Option::None => Seq::<CandidateModel>::empty(),
    });
    proof {
        assert(cands_view(r@) =~= c1);
    }

    match &home {
        Option::Some(h) => {
            let mut p1 = h.clone();
            p1.append("/.npm");
            r.push(
                CacheCandidate {
                    path: p1,
                    label: String::from_str("npm cache"),
                    expand_children: false,
                },
            );
            let mut p2 = h.clone();
            p2.append("/.yarn/cache");
            r.push(
                CacheCandidate {
                    path: p2,
                    label: String::from_str("yarn cache"),
                    expand_children: false,
                },
            );
            let mut p3 = h.clone();
            p3.append("/.yarn");
            r.push(
                CacheCandidate {
                    path: p3,
                    label: String::from_str("yarn data"),
                    expand_children: false,
                },
            );
            let mut p4 = h.clone();
            p4.append("/.pnpm-store");
            r.push(
                CacheCandidate {
                    path: p4,
                    label: String::from_str("pnpm store"),
                    expand_children: false,
                },
            );
            let mut p5 = h.clone();
            p5.append("/.cache/yarn");
            r.push(
                CacheCandidate {
                    path: p5,
                    label: String::from_str("yarn cache"),
                    expand_children: false,
                },
            );
            let mut p6 = h.clone();
            p6.append("/.cache/npm");
            r.push(
                CacheCandidate {
                    path: p6,
                    label: String::from_str("npm cache"),
                    expand_children: false,
                },
            );
        },
        Option::None => {},
    }
    let ghost c2 = c1 + (match hm {
        Option::Some(h) => seq![
            CandidateModel { path: h + "/.npm"@, label: "npm cache"@, expand_children: false },
            CandidateModel {
                path: h + "/.yarn/cache"@,
                label: "yarn cache"@,
                expand_children: false,
            },
            CandidateModel { path: h + "/.yarn"@, label: "yarn data"@, expand_children: false },
            CandidateModel {
                path: h + "/.pnpm-store"@,
                label: "pnpm store"@,
                expand_children: false,
            },
            CandidateModel {
                path: h + "/.cache/yarn"@,
                label: "yarn cache"@,
                expand_children: false,
            },
            CandidateModel {
                path: h + "/.cache/npm"@,
                label: "npm cache"@,
                expand_children: false,
            },
        ],
        Option::None => Seq::<CandidateModel>::empty(),
    });
    proof {
        assert(cands_view(r@) =~= c2);
    }

    match data {
        Option::Some(d) => {
            let mut p = d;
            p.append("/pnpm/store");
            r.push(
                CacheCandidate {
                    path: p,
                    label: String::from_str("pnpm store"),
                    expand_children: false,
                },
            );
        },
        Option::None => {},
    }
    let ghost c3 = c2 + (match dt {
        Option::Some(d) => seq![
            CandidateModel {
                path: d + "/pnpm/store"@,
                label: "pnpm store"@,
                expand_children: false,
            },
        ],
        Option::None => Seq::<CandidateModel>::empty(),
    });
    proof {
        assert(cands_view(r@) =~= c3);
    }

    let ghost ne = npm_env.deep_view();
    match npm_env {
        Option::Some(p) => {
            r.push(
                CacheCandidate {
                    path: p,
                    label: String::from_str("npm cache"),
                    expand_children: false,
                },
            );
        },
        Option::None => {},
    }
    let ghost c4 = c3 + (match ne {
        Option::Some(p) => seq![
            CandidateModel { path: p, label: "npm cache"@, expand_children: false },
        ],
        Option::None => Seq::<CandidateModel>::empty(),
    });
    proof {
        assert(cands_view(r@) =~= c4);
    }

    let ghost ye = yarn_env.deep_view();
    match yarn_env {
        Option::Some(p) => {
            r.push(
                CacheCandidate {
                    path: p,
                    label: String::from_str("yarn cache"),
                    expand_children: false,
                },
            );
        },
        Option::None => {},
    }
    let ghost c5 = c4 + (match ye {
        Option::Some(p) => seq![
            CandidateModel { path: p, label: "yarn cache"@, expand_children: false },
        ],
        Option::None => Seq::<CandidateModel>::empty(),
    });
    proof {
        assert(cands_view(r@) =~= c5);
    }

    let ghost pe = pnpm_env.deep_view();
    match pnpm_env {
        Option::Some(p) => {
            r.push(
                CacheCandidate {
                    path: p,
                    label: String::from_str("pnpm store"),
                    expand_children: false,
                },
            );
        },
        Option::None => {},
    }
    let ghost c6 = c5 + (match pe {
        Option::Some(p) => seq![
            CandidateModel { path: p, label: "pnpm store"@, expand_children: false },
        ],
        Option::None => Seq::<CandidateModel>::empty(),
    });
    proof {
        assert(cands_view(r@) =~= c6);
        assert(c6 =~= spec_gather(cb, hm, dt, ne, ye, pe));
    }
    r
}

/// A display name composed from one of the candidates: its source label, a
/// separating dash, and a folder name.
pub open spec fn labelled_name(name: Seq<char>, candidates: Seq<CacheCandidate>) -> bool {
    exists|c: int, folder: Seq<char>|
        0 <= c < candidates.len() && name == #[trigger] (candidates[c].label@ + " - "@ + folder)
}

/// A cache-directory record carries no manifest path and no dependency
/// signals; its identity is its path.
pub open spec fn cache_meta_wf(m: ProjectMeta) -> bool {
    &&& m.is_cache
    &&& m.package_json_path@.len() == 0
    &&& m.dependency_count == 0
    &&& !m.has_git
    &&& !m.has_env_file
    &&& !m.has_startup_keyword
    &&& m.id@ == m.path@
}

/// Discover cache directories among the candidates: an existing expandable
/// candidate contributes each of its immediate subdirectories, every other
/// existing candidate contributes itself; duplicates by path are dropped.
/// Every record is a cache record and no two share an identity.
#[verifier::loop_isolation(false)]
pub fn scan_cache_dirs<E: ScanEnv>(env: &mut E, candidates: &Vec<CacheCandidate>) -> (r: Vec<
    ProjectMeta,
>)
    ensures
        forall|i: int| 0 <= i < r@.len() ==> cache_meta_wf(#[trigger] r@[i]),
        forall|i: int, j: int| 0 <= i < j < r@.len() ==> r@[i].id@ != r@[j].id@,
        forall|i: int|
            0 <= i < r@.len() ==> labelled_name((#[trigger] r@[i]).name@, candidates@),
{
    let mut projects: Vec<ProjectMeta> = Vec::new();
    let mut seen: Vec<String> = Vec::new();
    let mut ci: usize = 0;
    while ci < candidates.len()
        invariant
            ci <= candidates@.len(),
            forall|a: int| 0 <= a < projects@.len() ==> cache_meta_wf(#[trigger] projects@[a]),
            forall|a: int, b: int|
                0 <= a < b < projects@.len() ==> projects@[a].id@ != projects@[b].id@,
            forall|a: int|
                0 <= a < projects@.len() ==> seen.deep_view().contains(
                    (#[trigger] projects@[a]).id@,
                ),
            forall|a: int|
                0 <= a < projects@.len() ==> labelled_name(
                    (#[trigger] projects@[a]).name@,
                    candidates@,
                ),
        decreases candidates@.len() - ci,
    {
        let cand = &candidates[ci];
        if env.dir_exists(&cand.path) {
            if cand.expand_children {
                match env.subdir_names(&cand.path) {
                    Option::None => {},
                    Option::Some(names) => {
                        let mut k: usize = 0;
                        while k < names.len()
                            invariant
                                k <= names@.len(),
                                forall|a: int|
                                    0 <= a < projects@.len() ==> cache_meta_wf(
                                        #[trigger] projects@[a],
                                    ),
                                forall|a: int, b: int|
                                    0 <= a < b < projects@.len() ==> projects@[a].id@
                                        != projects@[b].id@,
                                forall|a: int|
                                    0 <= a < projects@.len() ==> seen.deep_view().contains(
                                        (#[trigger] projects@[a]).id@,
                                    ),
                                forall|a: int|
                                    0 <= a < projects@.len() ==> labelled_name(
                                        (#[trigger] projects@[a]).name@,
                                        candidates@,
                                    ),
                            decreases names@.len() - k,
                        {
                            let mut child_path = cand.path.clone();
                            child_path.append("/");
                            child_path.append(names[k].as_str());
                            if !crate::text::contains_string(&seen, &child_path) {
                                let mut label = cand.label.clone();
                                label.append(" - ");
                                label.append(names[k].as_str());
                                let ghost prev = projects@;
                                let ghost label_view = label@;
                                push_cache_record(env, &mut projects, &mut seen, child_path,
                                    label);
                                proof {
                                    assert(label_view == candidates@[ci as int].label@ + " - "@
                                        + names@[k as int]@);
                                    assert(labelled_name(label_view, candidates@));
                                    assert forall|a: int|
                                        0 <= a < projects@.len() implies labelled_name(
                                        (#[trigger] projects@[a]).name@,
                                        candidates@,
                                    ) by {
                                        if a < projects@.len() - 1 {
                                            assert(projects@[a] == prev[a]);
                                        } else {
                                            assert(projects@[a].name@ == label_view);
                                        }
                                    }
                                }
                            }
                            k = k + 1;
                        }
                    },
                }
            } else {
                if !crate::text::contains_string(&seen, &cand.path) {
                    let base = crate::text::path_base_name(&cand.path);
                    let mut label = cand.label.clone();
                    label.append(" - ");
                    label.append(base.as_str());
                    let path = cand.path.clone();
                    let ghost prev = projects@;
                    let ghost label_view = label@;
                    let ghost folder_view = base@;
                    push_cache_record(env, &mut projects, &mut seen, path, label);
                    proof {
                        assert(label_view == candidates@[ci as int].label@ + " - "@
                            + folder_view);
                        assert(labelled_name(label_view, candidates@));
                        assert forall|a: int|
                            0 <= a < projects@.len() implies labelled_name(
                            (#[trigger] projects@[a]).name@,
                            candidates@,
                        ) by {
                            if a < projects@.len() - 1 {
                                assert(projects@[a] == prev[a]);
                            } else {
                                assert(projects@[a].name@ == label_view);
                            }
                        }
                    }
                }
            }
        }
        ci = ci + 1;
    }
    projects
}

/// Append one cache record for a new path, remembering the path as seen.
fn push_cache_record<E: ScanEnv>(
    env: &mut E,
    projects: &mut Vec<ProjectMeta>,
    seen: &mut Vec<String>,
    path: String,
    name: String,
)
    requires
        !old(seen).deep_view().contains(path@),
        forall|a: int|
            0 <= a < old(projects)@.len() ==> cache_meta_wf(#[trigger] old(projects)@[a]),
        forall|a: int, b: int|
            0 <= a < b < old(projects)@.len() ==> old(projects)@[a].id@ != old(projects)@[b].id@,
        forall|a: int|
            0 <= a < old(projects)@.len() ==> old(seen).deep_view().contains(
                (#[trigger] old(projects)@[a]).id@,
            ),
    ensures
        final(projects)@.len() == old(projects)@.len() + 1,
        forall|a: int| 0 <= a < old(projects)@.len() ==> final(projects)@[a] == old(projects)@[a],
        final(projects)@.last().name@ == name@,
        forall|a: int|
            0 <= a < final(projects)@.len() ==> cache_meta_wf(#[trigger] final(projects)@[a]),
        forall|a: int, b: int|
            0 <= a < b < final(projects)@.len() ==> final(projects)@[a].id@
                != final(projects)@[b].id@,
        forall|a: int|
            0 <= a < final(projects)@.len() ==> final(seen).deep_view().contains(
                (#[trigger] final(projects)@[a]).id@,
            ),
{
    let ghost projects_before = projects@;
    let ghost seen_before = seen.deep_view();
    let last_modified = match env.modified_ms(&path) {
        Option::Some(v) => v,
        Option::None => 0,
    };
    let now = env.now_ms();
    let days = last_modified_days(now, last_modified);
    let size_bytes = env.tree_size(&path);
    let meta = ProjectMeta {
        id: path.clone(),
        path: path.clone(),
        name,
        package_json_path: String::new(),
        dependency_count: 0,
        has_git: false,
        has_env_file: false,
        has_startup_keyword: false,
        last_modified,
        last_modified_days: days,
        size_bytes,
        is_cache: true,
    };
    projects.push(meta);
    seen.push(path);
    proof {
        assert(seen.deep_view() =~= seen_before.push(projects@.last().id@));
        assert forall|a: int|
            0 <= a < projects@.len() implies final(seen).deep_view().contains(
            (#[trigger] projects@[a]).id@,
        ) by {
            if a < projects@.len() - 1 {
                let w = choose|w: int|
                    0 <= w < seen_before.len() && seen_before[w] == projects_before[a].id@;
                assert(seen.deep_view()[w] == projects@[a].id@);
            } else {
                assert(seen.deep_view()[seen_before.len() as int] == projects@[a].id@);
            }
        }
        assert forall|a: int, b: int|
            0 <= a < b < projects@.len() implies projects@[a].id@ != projects@[b].id@ by {
            if b == projects@.len() - 1 {
                let w = choose|w: int|
                    0 <= w < seen_before.len() && seen_before[w] == projects_before[a].id@;
                if projects@[a].id@ == projects@[b].id@ {
                    assert(seen_before.contains(projects@[b].id@));
                }
            }
        }
    }
}

/// The records are ordered by path.
pub open spec fn sorted_by_path(s: Seq<ProjectMeta>) -> bool {
    forall|i: int, j: int| 0 <= i <= j < s.len() ==> crate::text::lex_le(s[i].path@, s[j].path@)
}

/// Insert a record into a path-sorted list, after any record with an equal
/// path, keeping the list sorted.
#[verifier::loop_isolation(false)]
fn insert_sorted(sorted: &mut Vec<ProjectMeta>, m: ProjectMeta)
    requires
        sorted_by_path(old(sorted)@),
    ensures
        sorted_by_path(final(sorted)@),
        final(sorted)@.to_multiset() == old(sorted)@.to_multiset().insert(m),
{
    broadcast use vstd::seq_lib::group_to_multiset_ensures;

    let ghost before = sorted@;
    let n = sorted.len();
    let mut k: usize = 0;
    while k < n && crate::text::str_le(sorted[k].path.as_str(), m.path.as_str())
        invariant
            k <= n,
            n == sorted@.len(),
            forall|j: int| 0 <= j < k ==> crate::text::lex_le(sorted@[j].path@, m.path@),
        decreases n - k,
    {
        k = k + 1;
    }
    proof {
        if k < n {
            crate::text::lemma_lex_le_total(before[k as int].path@, m.path@);
            assert(crate::text::lex_le(m.path@, before[k as int].path@));
        }
    }
    let ghost mv = m;
    sorted.insert(k, m);
    proof {
        let after = sorted@;
        assert(after =~= before.insert(k as int, mv));
        assert(after.remove(k as int) =~= before);
        assert(after[k as int] == mv);
        assert(after.remove(k as int).to_multiset() =~= after.to_multiset().remove(mv));
        assert(after.contains(mv));
        assert(after.to_multiset().count(mv) > 0);
        assert(after.to_multiset() =~= before.to_multiset().insert(mv)) by {
            assert(before.to_multiset() =~= after.to_multiset().remove(mv));
        }
        assert forall|i: int, j: int|
            0 <= i <= j < after.len() implies crate::text::lex_le(
            after[i].path@,
            after[j].path@,
        ) by {
            let pi = if i < k {
                before[i]
            } else if i == k {
                mv
            } else {
                before[i - 1]
            };
            let pj = if j < k {
                before[j]
            } else if j == k {
                mv
            } else {
                before[j - 1]
            };
            assert(after[i] == pi);
            assert(after[j] == pj);
            if i == j {
                crate::text::lemma_lex_le_total(pi.path@, pi.path@);
            } else if i == k {
                assert(crate::text::lex_le(mv.path@, before[k as int].path@));
                assert(crate::text::lex_le(before[k as int].path@, before[j - 1].path@));
                crate::text::lemma_lex_le_trans(
                    mv.path@,
                    before[k as int].path@,
                    before[j - 1].path@,
                );
            }
        }
    }
}

/// Sort records by path; the result holds exactly the given records.
#[verifier::loop_isolation(false)]
pub fn sort_by_path_order(v: Vec<ProjectMeta>) -> (r: Vec<ProjectMeta>)
    ensures
        sorted_by_path(r@),
        r@.to_multiset() == v@.to_multiset(),
{
    broadcast use vstd::seq_lib::group_to_multiset_ensures;

    let ghost orig = v@;
    let mut rest = v;
    let mut r: Vec<ProjectMeta> = Vec::new();
    proof {
        assert(orig.take(0) =~= Seq::<ProjectMeta>::empty());
        assert(Seq::<ProjectMeta>::empty().to_multiset() =~= r@.to_multiset());
    }
    while rest.len() > 0
        invariant
            rest@.len() <= orig.len(),
            rest@ =~= orig.skip(orig.len() - rest@.len()),
            sorted_by_path(r@),
            r@.to_multiset() == orig.take(orig.len() - rest@.len()).to_multiset(),
        decreases rest@.len(),
    {
        let ghost i = orig.len() - rest@.len();
        let m = rest.remove(0);
        proof {
            assert(m == orig[i]);
            assert(rest@ =~= orig.skip(i + 1));
            assert(orig.take(i + 1) =~= orig.take(i).push(orig[i]));
        }
        insert_sorted(&mut r, m);
    }
    proof {
        assert(orig.take(orig.len() as int) =~= orig);
    }
    r
}

/// What a scan returns: the discovered records, how many entries the
/// counting pass visited, and how many it could not read.
pub struct ScanResult {
    pub projects: Vec<ProjectMeta>,
    pub total_entries: usize,
    pub skipped_entries: usize,
}

/// What holds of every record a scan returns. Its identity is its path. A
/// cache record carries no manifest path, no dependencies, and no project
/// signals. A manifest record's path is the directory that holds its
/// manifest: the text before the manifest path's last slash, or the scan
/// root when it holds none.
pub open spec fn record_wf(m: ProjectMeta, root: Seq<char>) -> bool {
    &&& m.id@ == m.path@
    &&& (m.is_cache ==> {
        &&& m.package_json_path@.len() == 0
        &&& m.dependency_count == 0
        &&& !m.has_git
        &&& !m.has_env_file
        &&& !m.has_startup_keyword
    })
    &&& (!m.is_cache ==> (if spec_has_slash(m.package_json_path@) {
        m.path@ == before_last_slash(m.package_json_path@)
    } else {
        m.path@ == root
    }))
}

/// Drop the later of any two records that share an identity: on a
/// path-sorted list equal paths sit together, so one pass keeps the first
/// record of each.
#[verifier::loop_isolation(false)]
fn dedup_sorted_by_path(v: Vec<ProjectMeta>) -> (r: Vec<ProjectMeta>)
    requires
        sorted_by_path(v@),
    ensures
        sorted_by_path(r@),
        forall|i: int, j: int| 0 <= i < j < r@.len() ==> r@[i].path@ != r@[j].path@,
        forall|i: int| 0 <= i < r@.len() ==> v@.contains(#[trigger] r@[i]),
{
    let ghost orig = v@;
    let mut rest = v;
    let mut out: Vec<ProjectMeta> = Vec::new();
    while rest.len() > 0
        invariant
            rest@.len() <= orig.len(),
            rest@ =~= orig.skip(orig.len() - rest@.len()),
            sorted_by_path(out@),
            forall|i: int, j: int| 0 <= i < j < out@.len() ==> out@[i].path@ != out@[j].path@,
            forall|i: int| 0 <= i < out@.len() ==> orig.contains(#[trigger] out@[i]),
            out@.len() > 0 ==> forall|k: int|
                0 <= k < rest@.len() ==> crate::text::lex_le(
                    out@.last().path@,
                    (#[trigger] rest@[k]).path@,
                ),
        decreases rest@.len(),
    {
        let ghost i = orig.len() - rest@.len();
        let m = rest.remove(0);
        proof {
            assert(m == orig[i]);
            assert(rest@ =~= orig.skip(i + 1));
            assert(forall|k: int| 0 <= k < rest@.len() ==> rest@[k] == orig[i + 1 + k]);
        }
        let keep = if out.len() == 0 {
            true
        } else {
            !crate::text::str_eq(out[out.len() - 1].path.as_str(), m.path.as_str())
        };
        if keep {
            let ghost out_before = out@;
            out.push(m);
            proof {
                assert(out@.drop_last() =~= out_before);
                assert(orig.contains(orig[i]));
                assert forall|a: int, b: int|
                    0 <= a <= b < out@.len() implies crate::text::lex_le(
                    out@[a].path@,
                    out@[b].path@,
                ) by {
                    if b == out@.len() - 1 {
                        if a == b {
                            crate::text::lemma_lex_le_total(out@[a].path@, out@[a].path@);
                        } else {
                            crate::text::lemma_lex_le_trans(
                                out_before[a].path@,
                                out_before.last().path@,
                                m.path@,
                            );
                        }
                    }
                }
                assert forall|a: int, b: int|
                    0 <= a < b < out@.len() implies out@[a].path@ != out@[b].path@ by {
                    if b == out@.len() - 1 && a < b - 1 {
                        if out@[a].path@ == m.path@ {
                            crate::text::lemma_lex_le_antisymmetric(
                                out_before[a].path@,
                                out_before.last().path@,
                            );
                        }
                    }
                }
            }
        }
    }
    out
}

/// Scan a root for projects and, when asked, cache directories. Two passes
/// walk the tree with the ignore policy: the first counts the entries, the
/// second finds `package.json` manifests and reports progress every 200
/// entries or whenever the sink asks, with a final snapshot guaranteed. Each
/// manifest becomes one record; one that does not parse is skipped silently.
/// The records come back sorted by path, each well shaped with its identity
/// equal to its path and, for a manifest record, its path the directory of
/// its manifest; identities are pairwise distinct, and without `scan_caches`
/// no cache record appears.
#[verifier::loop_isolation(false)]
pub fn scan_projects<E: ScanEnv, P: ProgressSink>(
    root: &String,
    scan_all: bool,
    scan_caches: bool,
    reserved: &Vec<String>,
    env: &mut E,
    progress: &mut P,
) -> (r: ScanResult)
    ensures
        sorted_by_path(r.projects@),
        forall|i: int|
            0 <= i < r.projects@.len() ==> record_wf(#[trigger] r.projects@[i], root@),
        forall|i: int, j: int|
            0 <= i < j < r.projects@.len() ==> r.projects@[i].id@ != r.projects@[j].id@,
        !scan_caches ==> forall|i: int|
            0 <= i < r.projects@.len() ==> !(#[trigger] r.projects@[i]).is_cache,
{
    broadcast use vstd::seq_lib::group_to_multiset_ensures;

    let mut total_entries: usize = 0;
    let mut skipped_entries: usize = 0;
    env.start_walk(root);
    let mut budget: u64 = u64::MAX;
    while budget > 0
        decreases budget,
    {
        budget = budget - 1;
        match env.next_step() {
            Option::None => {
                break ;
            },
            Option::Some(WalkStep::Failed) => {
                if skipped_entries < usize::MAX {
                    skipped_entries = skipped_entries + 1;
                }
            },
            Option::Some(WalkStep::Visited(entry)) => {
                if is_ignored(entry.name.as_str(), scan_all, reserved) {
                    if entry.is_dir {
                        env.skip_current_dir();
                    }
                } else {
                    if total_entries < usize::MAX {
                        total_entries = total_entries + 1;
                    }
                }
            },
        }
    }

    let mut package_paths: Vec<String> = Vec::new();
    let mut found_count: usize = 0;
    let mut scanned_count: usize = 0;
    env.start_walk(root);
    let mut budget: u64 = u64::MAX;
    while budget > 0
        decreases budget,
    {
        budget = budget - 1;
        match env.next_step() {
            Option::None => {
                break ;
            },
            Option::Some(WalkStep::Failed) => {},
            Option::Some(WalkStep::Visited(entry)) => {
                if is_ignored(entry.name.as_str(), scan_all, reserved) {
                    if entry.is_dir {
                        env.skip_current_dir();
                    }
                } else {
                    if scanned_count < usize::MAX {
                        scanned_count = scanned_count + 1;
                    }
                    if entry.is_file && str_eq(entry.name.as_str(), "package.json") {
                        package_paths.push(entry.path.clone());
                        if found_count < usize::MAX {
                            found_count = found_count + 1;
                        }
                    }
                    let tick = progress.want_tick();
                    if tick || scanned_count % 200 == 0 {
                        progress.emit(
                            ScanProgress {
                                found_count,
                                current_path: entry.path,
                                scanned_count,
                                total_count: Option::Some(total_entries),
                            },
                        );
                    }
                }
            },
        }
    }
    progress.emit(
        ScanProgress {
            found_count,
            current_path: root.clone(),
            scanned_count,
            total_count: Option::Some(total_entries),
        },
    );

    let mut projects: Vec<ProjectMeta> = Vec::new();
    let mut pi: usize = 0;
    while pi < package_paths.len()
        invariant
            pi <= package_paths@.len(),
            forall|a: int| 0 <= a < projects@.len() ==> !(#[trigger] projects@[a]).is_cache,
            forall|a: int|
                0 <= a < projects@.len() ==> record_wf(#[trigger] projects@[a], root@),
        decreases package_paths@.len() - pi,
    {
        let package_json_path = &package_paths[pi];
        pi = pi + 1;
        let project_dir = parent_dir(package_json_path, root);
        let text = match env.read_to_string(package_json_path) {
            Option::Some(t) => t,
            Option::None => {
                continue ;
            },
        };
        let pkg = match parse_json(text.as_str()) {
            Option::Some(v) => v,
            Option::None => {
                continue ;
            },
        };
        let raw = read_manifest(&pkg);
        let name = project_display_name(&raw.name, &project_dir);
        let mut git_path = project_dir.clone();
        git_path.append("/.git");
        let has_git = env.path_exists(&git_path);
        let has_env_file = match env.entry_names(&project_dir) {
            Option::Some(names) => has_env_name(&names),
            Option::None => false,
        };
        let has_startup_keyword = has_startup_signal(name.as_str(), &raw.keywords, &raw.scripts);
        let last_modified = match env.modified_ms(package_json_path) {
            Option::Some(v) => v,
            Option::None => match env.modified_ms(&project_dir) {
                Option::Some(v) => v,
                Option::None => 0,
            },
        };
        let now = env.now_ms();
        let last_modified_days_value = last_modified_days(now, last_modified);
        let size_bytes = env.tree_size(&project_dir);
        projects.push(
            ProjectMeta {
                id: project_dir.clone(),
                path: project_dir,
                name,
                package_json_path: package_json_path.clone(),
                dependency_count: raw.dependency_count,
                has_git,
                has_env_file,
                has_startup_keyword,
                last_modified,
                last_modified_days: last_modified_days_value,
                size_bytes,
                is_cache: false,
            },
        );
    }

    let ghost manifest_only = projects@;
    if scan_caches {
        let (npm_env, yarn_env, pnpm_env) = env.cache_env_overrides();
        let candidates = gather_cache_candidates(npm_env, yarn_env, pnpm_env);
        let mut cache_metas = scan_cache_dirs(env, &candidates);
        let ghost caches = cache_metas@;
        projects.append(&mut cache_metas);
        proof {
            assert(forall|a: int|
                0 <= a < projects@.len() ==> record_wf(#[trigger] projects@[a], root@)) by {
                assert(forall|a: int|
                    0 <= a < manifest_only.len() ==> projects@[a] == manifest_only[a]);
                assert(forall|a: int|
                    manifest_only.len() <= a < projects@.len() ==> projects@[a] == caches[
                        a - manifest_only.len()
                    ]);
            }
        }
    }
    let ghost unsorted = projects@;
    let sorted = sort_by_path_order(projects);
    proof {
        assert forall|i: int|
            0 <= i < sorted@.len() implies record_wf(#[trigger] sorted@[i], root@) && (
        !scan_caches ==> !sorted@[i].is_cache) by {
            assert(sorted@.contains(sorted@[i]));
            assert(sorted@.to_multiset().count(sorted@[i]) > 0);
            assert(unsorted.to_multiset().count(sorted@[i]) > 0);
            assert(unsorted.contains(sorted@[i]));
            let j = choose|j: int| 0 <= j < unsorted.len() && unsorted[j] == sorted@[i];
            assert(record_wf(unsorted[j], root@));
        }
    }
    let ghost sorted_view = sorted@;
    let deduped = dedup_sorted_by_path(sorted);
    proof {
        assert forall|i: int|
            0 <= i < deduped@.len() implies record_wf(#[trigger] deduped@[i], root@) && (
        !scan_caches ==> !deduped@[i].is_cache) by {
            assert(sorted_view.contains(deduped@[i]));
            let j = choose|j: int| 0 <= j < sorted_view.len() && sorted_view[j] == deduped@[i];
            assert(record_wf(sorted_view[j], root@));
        }
        assert forall|i: int, j: int|
            0 <= i < j < deduped@.len() implies deduped@[i].id@ != deduped@[j].id@ by {
            assert(record_wf(deduped@[i], root@));
            assert(record_wf(deduped@[j], root@));
            assert(deduped@[i].path@ != deduped@[j].path@);
        }
    }
    ScanResult { projects: deduped, total_entries, skipped_entries }
}

} // verus!
