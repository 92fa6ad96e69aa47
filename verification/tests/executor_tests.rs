use devclean_core::delete::{DeletePlan, DeletePlanItem};
use devclean_core::executor::{
    execute_dry_run, execute_plan, free_quarantine_name, know_action_status,
    quarantine_candidate, u64_to_dec, DeleteAction, FsMutator, ItemStatus,
};

fn plan(items: Vec<(&str, u64)>) -> DeletePlan {
    let mut total: u64 = 0;
    let mut out = Vec::new();
    for (path, size_bytes) in items {
        total = total.saturating_add(size_bytes);
        out.push(DeletePlanItem { path: String::from(path), size_bytes });
    }
    DeletePlan { items: out, total_bytes: total }
}

/// A scripted filesystem: everything exists, renames and removals succeed,
/// and the clock stands still at one second.
struct FakeFs {
    now: u64,
    quarantine_names: Vec<String>,
    renames: Vec<(String, String)>,
    removed: Vec<String>,
    missing: Vec<String>,
    fail_on: Vec<String>,
}

impl FakeFs {
    fn new(now: u64) -> FakeFs {
        FakeFs {
            now,
            quarantine_names: Vec::new(),
            renames: Vec::new(),
            removed: Vec::new(),
            missing: Vec::new(),
            fail_on: Vec::new(),
        }
    }
}

impl FsMutator for FakeFs {
    fn target_exists(&mut self, path: &String) -> bool {
        !self.missing.contains(path)
    }

    fn list_names(&mut self, _dir: &String) -> Vec<String> {
        self.quarantine_names.clone()
    }

    fn now_unix_secs(&mut self) -> u64 {
        self.now
    }

    fn rename(&mut self, from: &String, to: &String) -> Result<(), String> {
        if self.fail_on.contains(from) {
            return Err(String::from("permission denied"));
        }
        self.renames.push((from.clone(), to.clone()));
        if let Some(name) = to.rsplit('/').next() {
            self.quarantine_names.push(String::from(name));
        }
        Ok(())
    }

    fn remove(&mut self, path: &String) -> Result<(), String> {
        if self.fail_on.contains(path) {
            return Err(String::from("busy"));
        }
        self.removed.push(path.clone());
        Ok(())
    }
}

#[test]
fn dry_run_counts_nothing_and_reports_plan_total() {
    let p = plan(vec![("/a", 10), ("/b", 32)]);
    let outcome = execute_dry_run(&p, false);
    assert_eq!(outcome.removed_count, 0);
    assert_eq!(outcome.reclaimed_bytes, 42);
    assert_eq!(outcome.items.len(), 2);
    for item in &outcome.items {
        assert!(matches!(item.status, ItemStatus::DryRun));
        assert!(item.destination.is_none());
    }
}

#[test]
fn dry_run_through_execute_plan_touches_nothing() {
    let p = plan(vec![("/a", 10), ("/b", 32)]);
    let mut fs = FakeFs::new(7);
    let root = String::from("/q");
    let outcome = execute_plan(&p, true, true, &root, &mut fs);
    assert_eq!(outcome.removed_count, 0);
    assert_eq!(outcome.reclaimed_bytes, 42);
    assert!(fs.renames.is_empty());
    assert!(fs.removed.is_empty());
    for item in &outcome.items {
        assert!(matches!(item.status, ItemStatus::DryRun));
        assert!(matches!(item.action, DeleteAction::Quarantine));
    }
}

#[test]
fn delete_mode_removes_each_target() {
    let p = plan(vec![("/a", 1), ("/b", 2)]);
    let mut fs = FakeFs::new(7);
    let root = String::new();
    let outcome = execute_plan(&p, false, false, &root, &mut fs);
    assert_eq!(outcome.removed_count, 2);
    assert_eq!(outcome.reclaimed_bytes, 3);
    assert_eq!(fs.removed, vec![String::from("/a"), String::from("/b")]);
    for item in &outcome.items {
        assert!(matches!(item.status, ItemStatus::Deleted));
        assert!(matches!(item.action, DeleteAction::Delete));
    }
}

#[test]
fn missing_target_is_reported_and_not_counted() {
    let p = plan(vec![("/gone", 5), ("/kept", 6)]);
    let mut fs = FakeFs::new(7);
    fs.missing.push(String::from("/gone"));
    let root = String::new();
    let outcome = execute_plan(&p, false, false, &root, &mut fs);
    assert_eq!(outcome.removed_count, 1);
    assert_eq!(outcome.reclaimed_bytes, 6);
    assert!(matches!(outcome.items[0].status, ItemStatus::Missing));
    assert!(matches!(outcome.items[1].status, ItemStatus::Deleted));
}

#[test]
fn failure_on_one_item_leaves_later_items_processed() {
    let p = plan(vec![("/locked", 5), ("/free", 6)]);
    let mut fs = FakeFs::new(7);
    fs.fail_on.push(String::from("/locked"));
    let root = String::new();
    let outcome = execute_plan(&p, false, false, &root, &mut fs);
    assert_eq!(outcome.removed_count, 1);
    assert_eq!(outcome.reclaimed_bytes, 6);
    match &outcome.items[0].status {
        ItemStatus::Failed(message) => assert_eq!(message, "busy"),
        other => panic!("expected a failure, got {:?}", other),
    }
    assert!(matches!(outcome.items[1].status, ItemStatus::Deleted));
    assert_eq!(outcome.items[0].status.status_text(), "error: busy");
}

#[test]
fn quarantine_moves_record_destination_and_original() {
    let p = plan(vec![("/work/proj", 100)]);
    let mut fs = FakeFs::new(1700000000);
    let root = String::from("/q");
    let outcome = execute_plan(&p, false, true, &root, &mut fs);
    assert_eq!(outcome.removed_count, 1);
    assert_eq!(outcome.reclaimed_bytes, 100);
    let item = &outcome.items[0];
    assert!(matches!(item.status, ItemStatus::Moved));
    assert_eq!(item.destination.as_deref(), Some("/q/1700000000_proj"));
    assert_eq!(item.original_path.as_deref(), Some("/work/proj"));
}

#[test]
fn colliding_names_in_same_second_get_numeric_suffixes() {
    let p = plan(vec![("/a/foo", 1), ("/b/foo", 2), ("/c/foo", 3)]);
    let mut fs = FakeFs::new(1700000000);
    let root = String::from("/q");
    let outcome = execute_plan(&p, false, true, &root, &mut fs);
    assert_eq!(outcome.removed_count, 3);
    let destinations: Vec<&str> =
        outcome.items.iter().map(|i| i.destination.as_deref().unwrap()).collect();
    assert_eq!(
        destinations,
        vec!["/q/1700000000_foo", "/q/1700000000_foo_1", "/q/1700000000_foo_2"]
    );
}

#[test]
fn free_name_avoids_every_taken_name() {
    let name = String::from("foo");
    assert_eq!(free_quarantine_name(99, &name, &vec![]), "99_foo");
    let taken = vec![String::from("99_foo"), String::from("99_foo_1")];
    assert_eq!(free_quarantine_name(99, &name, &taken), "99_foo_2");
}

#[test]
fn candidate_names_follow_stamp_name_try_shape() {
    let name = String::from("data");
    assert_eq!(quarantine_candidate(0, &name, 0), "0_data");
    assert_eq!(quarantine_candidate(1700000001, &name, 4), "1700000001_data_4");
}

#[test]
fn decimal_rendering_is_exact() {
    assert_eq!(u64_to_dec(0), "0");
    assert_eq!(u64_to_dec(9), "9");
    assert_eq!(u64_to_dec(1234567890), "1234567890");
    assert_eq!(u64_to_dec(u64::MAX), "18446744073709551615");
}

#[test]
fn action_status_words() {
    assert_eq!(know_action_status(true), "moved");
    assert_eq!(know_action_status(false), "deleted");
}
