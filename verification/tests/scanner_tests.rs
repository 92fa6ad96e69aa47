use devclean_core::scanner::{
    gather_cache_candidates, get_dependency_count, has_env_name, is_ignored, last_modified_days,
    project_display_name, read_manifest, scan_cache_dirs, scan_projects, unix_reserved_names,
    windows_reserved_names, CacheCandidate, ProgressSink, ScanEnv, WalkEntry, WalkStep,
};
use devclean_core::text::path_base_name;
use devclean_core::types::ScanProgress;

const DAY_MS: i64 = 86_400_000;

fn file(path: &str) -> WalkStep {
    WalkStep::Visited(WalkEntry {
        path: String::from(path),
        name: String::from(path.rsplit('/').next().unwrap_or("")),
        is_file: true,
        is_dir: false,
    })
}

fn dir(path: &str) -> WalkStep {
    WalkStep::Visited(WalkEntry {
        path: String::from(path),
        name: String::from(path.rsplit('/').next().unwrap_or("")),
        is_file: false,
        is_dir: true,
    })
}

/// A scripted filesystem for scans.
struct FakeEnv {
    steps: Vec<WalkStep>,
    cursor: usize,
    last_path: String,
    files: Vec<(String, String)>,
    existing: Vec<String>,
    directories: Vec<String>,
    entries: Vec<(String, Vec<String>)>,
    subdirs: Vec<(String, Vec<String>)>,
    mtimes: Vec<(String, i64)>,
    sizes: Vec<(String, u64)>,
    now: i64,
    overrides: (Option<String>, Option<String>, Option<String>),
}

impl FakeEnv {
    fn new(steps: Vec<WalkStep>) -> FakeEnv {
        FakeEnv {
            steps,
            cursor: 0,
            last_path: String::new(),
            files: Vec::new(),
            existing: Vec::new(),
            directories: Vec::new(),
            entries: Vec::new(),
            subdirs: Vec::new(),
            mtimes: Vec::new(),
            sizes: Vec::new(),
            now: 1_000 * DAY_MS,
            overrides: (None, None, None),
        }
    }

    fn lookup<T: Clone>(table: &[(String, T)], key: &String) -> Option<T> {
        table.iter().find(|(k, _)| k == key).map(|(_, v)| v.clone())
    }
}

impl ScanEnv for FakeEnv {
    fn start_walk(&mut self, _root: &String) {
        self.cursor = 0;
    }

    fn next_step(&mut self) -> Option<WalkStep> {
        if self.cursor >= self.steps.len() {
            return None;
        }
        let step = self.steps[self.cursor].clone();
        self.cursor += 1;
        if let WalkStep::Visited(e) = &step {
            self.last_path = e.path.clone();
        }
        Some(step)
    }

    fn skip_current_dir(&mut self) {
        let prefix = format!("{}/", self.last_path);
        while self.cursor < self.steps.len() {
            match &self.steps[self.cursor] {
                WalkStep::Visited(e) if e.path.starts_with(&prefix) => self.cursor += 1,
                _ => break,
            }
        }
    }

    fn read_to_string(&mut self, path: &String) -> Option<String> {
        Self::lookup(&self.files, path)
    }

    fn path_exists(&mut self, path: &String) -> bool {
        self.existing.contains(path) || self.directories.contains(path)
    }

    fn dir_exists(&mut self, path: &String) -> bool {
        self.directories.contains(path)
    }

    fn entry_names(&mut self, dir: &String) -> Option<Vec<String>> {
        Self::lookup(&self.entries, dir)
    }

    fn subdir_names(&mut self, dir: &String) -> Option<Vec<String>> {
        Self::lookup(&self.subdirs, dir)
    }

    fn modified_ms(&mut self, path: &String) -> Option<i64> {
        Self::lookup(&self.mtimes, path)
    }

    fn tree_size(&mut self, path: &String) -> u64 {
        Self::lookup(&self.sizes, path).unwrap_or(0)
    }

    fn now_ms(&mut self) -> i64 {
        self.now
    }

    fn cache_env_overrides(&mut self) -> (Option<String>, Option<String>, Option<String>) {
        self.overrides.clone()
    }
}

struct Sink {
    snapshots: Vec<ScanProgress>,
}

impl ProgressSink for Sink {
    fn want_tick(&mut self) -> bool {
        false
    }

    fn emit(&mut self, progress: ScanProgress) {
        self.snapshots.push(progress);
    }
}

fn run_scan(
    env: &mut FakeEnv,
    scan_all: bool,
    scan_caches: bool,
) -> (devclean_core::scanner::ScanResult, Vec<ScanProgress>) {
    let root = String::from("/r");
    let reserved = unix_reserved_names();
    let mut sink = Sink { snapshots: Vec::new() };
    let result = scan_projects(&root, scan_all, scan_caches, &reserved, env, &mut sink);
    (result, sink.snapshots)
}

#[test]
fn scan_without_manifests_finds_nothing_but_counts_entries() {
    let mut env = FakeEnv::new(vec![dir("/r/a"), file("/r/a/readme.md"), file("/r/notes.txt")]);
    let (result, _) = run_scan(&mut env, false, false);
    assert!(result.projects.is_empty());
    assert_eq!(result.total_entries, 3);
    assert_eq!(result.skipped_entries, 0);
}

#[test]
fn manifest_becomes_project_record() {
    let mut env = FakeEnv::new(vec![dir("/r/app"), file("/r/app/package.json")]);
    env.files.push((
        String::from("/r/app/package.json"),
        String::from(
            "{\"name\":\"shop\",\"keywords\":[\"production\"],\
             \"scripts\":{\"start\":\"node index.js\"},\
             \"dependencies\":{\"a\":\"1\",\"b\":\"2\"},\"devDependencies\":{\"c\":\"3\"}}",
        ),
    ));
    env.existing.push(String::from("/r/app/.git"));
    env.entries.push((String::from("/r/app"), vec![String::from(".env"), String::from("src")]));
    env.mtimes.push((String::from("/r/app/package.json"), 995 * DAY_MS));
    env.sizes.push((String::from("/r/app"), 4096));
    let (result, _) = run_scan(&mut env, false, false);
    assert_eq!(result.projects.len(), 1);
    let p = &result.projects[0];
    assert_eq!(p.id, "/r/app");
    assert_eq!(p.path, "/r/app");
    assert_eq!(p.name, "shop");
    assert_eq!(p.package_json_path, "/r/app/package.json");
    assert_eq!(p.dependency_count, 3);
    assert!(p.has_git);
    assert!(p.has_env_file);
    assert!(p.has_startup_keyword);
    assert_eq!(p.last_modified, 995 * DAY_MS);
    assert_eq!(p.last_modified_days, 5);
    assert_eq!(p.size_bytes, 4096);
    assert!(!p.is_cache);
}

#[test]
fn unparsable_manifest_is_skipped_silently() {
    let mut env = FakeEnv::new(vec![file("/r/bad/package.json"), file("/r/none/package.json")]);
    env.files.push((String::from("/r/bad/package.json"), String::from("{not json")));
    let (result, _) = run_scan(&mut env, false, false);
    assert!(result.projects.is_empty());
    assert_eq!(result.total_entries, 2);
}

#[test]
fn ignored_directories_are_pruned() {
    let mut env = FakeEnv::new(vec![
        dir("/r/node_modules"),
        file("/r/node_modules/package.json"),
        dir("/r/dist"),
        file("/r/a.txt"),
    ]);
    let (result, _) = run_scan(&mut env, false, false);
    assert!(result.projects.is_empty());
    assert_eq!(result.total_entries, 1);
}

#[test]
fn reserved_names_are_ignored_only_when_scanning_all() {
    let mut env = FakeEnv::new(vec![dir("/r/proc"), file("/r/x.txt")]);
    let (result, _) = run_scan(&mut env, true, false);
    assert_eq!(result.total_entries, 1);
    let mut env = FakeEnv::new(vec![dir("/r/proc"), file("/r/x.txt")]);
    let (result, _) = run_scan(&mut env, false, false);
    assert_eq!(result.total_entries, 2);
}

#[test]
fn unreadable_entries_count_as_skipped() {
    let mut env = FakeEnv::new(vec![WalkStep::Failed, file("/r/ok.txt"), WalkStep::Failed]);
    let (result, _) = run_scan(&mut env, false, false);
    assert_eq!(result.total_entries, 1);
    assert_eq!(result.skipped_entries, 2);
}

#[test]
fn progress_is_emitted_on_cadence_and_at_the_end() {
    let mut steps = Vec::new();
    for i in 0..250 {
        steps.push(file(&format!("/r/f{}", i)));
    }
    let mut env = FakeEnv::new(steps);
    let (result, snapshots) = run_scan(&mut env, false, false);
    assert_eq!(result.total_entries, 250);
    assert_eq!(snapshots.len(), 2);
    assert_eq!(snapshots[0].scanned_count, 200);
    assert_eq!(snapshots[0].total_count, Some(250));
    assert_eq!(snapshots[1].scanned_count, 250);
    assert_eq!(snapshots[1].current_path, "/r");
}

#[test]
fn projects_come_back_sorted_by_path() {
    let mut env = FakeEnv::new(vec![file("/r/b/package.json"), file("/r/a/package.json")]);
    env.files.push((String::from("/r/b/package.json"), String::from("{}")));
    env.files.push((String::from("/r/a/package.json"), String::from("{}")));
    let (result, _) = run_scan(&mut env, false, false);
    assert_eq!(result.projects.len(), 2);
    assert_eq!(result.projects[0].path, "/r/a");
    assert_eq!(result.projects[1].path, "/r/b");
}

#[test]
fn cache_discovery_uses_env_override() {
    let mut env = FakeEnv::new(vec![]);
    env.overrides = (Some(String::from("/fake/npm")), None, None);
    env.directories.push(String::from("/fake/npm"));
    env.sizes.push((String::from("/fake/npm"), 777));
    env.mtimes.push((String::from("/fake/npm"), 800 * DAY_MS));
    let (result, _) = run_scan(&mut env, false, true);
    assert_eq!(result.projects.len(), 1);
    let p = &result.projects[0];
    assert!(p.is_cache);
    assert_eq!(p.id, "/fake/npm");
    assert_eq!(p.name, "npm cache - npm");
    assert_eq!(p.size_bytes, 777);
    assert_eq!(p.last_modified_days, 200);
    assert_eq!(p.package_json_path, "");
    assert_eq!(p.dependency_count, 0);
}

#[test]
fn expandable_candidate_lists_its_subdirectories() {
    let mut env = FakeEnv::new(vec![]);
    env.directories.push(String::from("/sys/cache"));
    let candidates = vec![CacheCandidate {
        path: String::from("/sys/cache"),
        label: String::from("System cache"),
        expand_children: true,
    }];
    env.subdirs.push((
        String::from("/sys/cache"),
        vec![String::from("npm-cache"), String::from("fontconfig")],
    ));
    let records = scan_cache_dirs(&mut env, &candidates);
    assert_eq!(records.len(), 2);
    assert_eq!(records[0].id, "/sys/cache/npm-cache");
    assert_eq!(records[0].name, "System cache - npm-cache");
    assert_eq!(records[1].id, "/sys/cache/fontconfig");
    assert!(records.iter().all(|r| r.is_cache));
}

#[test]
fn duplicate_candidates_are_deduplicated_by_path() {
    let mut env = FakeEnv::new(vec![]);
    env.directories.push(String::from("/c/yarn"));
    let one = CacheCandidate {
        path: String::from("/c/yarn"),
        label: String::from("yarn cache"),
        expand_children: false,
    };
    let candidates = vec![one.clone(), one];
    let records = scan_cache_dirs(&mut env, &candidates);
    assert_eq!(records.len(), 1);
    assert_eq!(records[0].name, "yarn cache - yarn");
}

#[test]
fn gathered_candidates_carry_overrides() {
    let candidates = gather_cache_candidates(
        Some(String::from("/ovr/npm")),
        Some(String::from("/ovr/yarn")),
        None,
    );
    assert!(candidates.iter().any(|c| c.path == "/ovr/npm" && c.label == "npm cache"
        && !c.expand_children));
    assert!(candidates.iter().any(|c| c.path == "/ovr/yarn" && c.label == "yarn cache"));
    assert!(!candidates.iter().any(|c| c.path == "/ovr/pnpm"));
}

#[test]
fn manifest_fields_are_read_through_json() {
    let pkg: serde_json::Value = serde_json::from_str(
        "{\"name\":\" \",\"keywords\":[\"a\",7,\"b\"],\"scripts\":{\"x\":\"run\",\"y\":3},\
         \"dependencies\":{\"d\":\"1\"},\"peerDependencies\":{\"p\":\"1\",\"q\":\"2\"}}",
    )
    .expect("valid json");
    let raw = read_manifest(&pkg);
    assert_eq!(raw.name.as_deref(), Some(" "));
    assert_eq!(raw.keywords, vec![String::from("a"), String::from("b")]);
    assert_eq!(raw.scripts, vec![String::from("run")]);
    assert_eq!(raw.dependency_count, 3);
    assert_eq!(get_dependency_count(&pkg), 3);
    assert!(serde_json::from_str::<serde_json::Value>("not json").is_err());
}

#[test]
fn blank_declared_name_falls_back_to_directory_name() {
    let dir = String::from("/work/my-app");
    assert_eq!(project_display_name(&Some(String::from("  ")), &dir), "my-app");
    assert_eq!(project_display_name(&None, &dir), "my-app");
    assert_eq!(project_display_name(&Some(String::from("real")), &dir), "real");
}

#[test]
fn ignore_list_matches_exact_names() {
    let reserved = unix_reserved_names();
    assert!(is_ignored("node_modules", false, &reserved));
    assert!(is_ignored(".git", false, &reserved));
    assert!(is_ignored("coverage", false, &reserved));
    assert!(!is_ignored("node_modules2", false, &reserved));
    assert!(!is_ignored("proc", false, &reserved));
    assert!(is_ignored("proc", true, &reserved));
    let windows = windows_reserved_names();
    assert!(is_ignored("Program Files", true, &windows));
    assert!(!is_ignored("Program Files", false, &windows));
}

#[test]
fn env_file_detection_needs_dot_env_prefix() {
    assert!(has_env_name(&vec![String::from(".env")]));
    assert!(has_env_name(&vec![String::from("src"), String::from(".env.local")]));
    assert!(has_env_name(&vec![String::from(".envrc")]));
    assert!(!has_env_name(&vec![String::from("env"), String::from("environment")]));
    assert!(!has_env_name(&vec![]));
}

#[test]
fn day_arithmetic_truncates_toward_zero() {
    assert_eq!(last_modified_days(10 * DAY_MS, 4 * DAY_MS), 6);
    assert_eq!(last_modified_days(10 * DAY_MS, 10 * DAY_MS - 1), 0);
    assert_eq!(last_modified_days(4 * DAY_MS, 10 * DAY_MS), -6);
    assert_eq!(last_modified_days(i64::MAX, i64::MIN), i64::MAX / DAY_MS);
}

#[test]
fn base_name_is_text_after_last_slash() {
    assert_eq!(path_base_name(&String::from("/a/b/c")), "c");
    assert_eq!(path_base_name(&String::from("plain")), "plain");
    assert_eq!(path_base_name(&String::from("/a/b/")), "");
}

#[test]
fn records_sharing_an_identity_are_deduplicated() {
    let mut env = FakeEnv::new(vec![file("/fake/npm/package.json")]);
    env.files.push((String::from("/fake/npm/package.json"), String::from("{}")));
    env.overrides = (Some(String::from("/fake/npm")), None, None);
    env.directories.push(String::from("/fake/npm"));
    let (result, _) = run_scan(&mut env, false, true);
    assert_eq!(result.projects.len(), 1);
    assert_eq!(result.projects[0].id, "/fake/npm");
    let ids: Vec<&str> = result.projects.iter().map(|p| p.id.as_str()).collect();
    let mut unique = ids.clone();
    unique.dedup();
    assert_eq!(ids, unique);
}
