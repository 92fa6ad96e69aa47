use devclean_core::delete::{
    build_delete_plan, collect_targets, select_existing, sum_saturating, DeleteEntry,
};

#[test]
fn saturating_sum_adds_and_saturates() {
    assert_eq!(sum_saturating(&vec![]), 0);
    assert_eq!(sum_saturating(&vec![1, 2, 3]), 6);
    assert_eq!(sum_saturating(&vec![u64::MAX, 1]), u64::MAX);
    assert_eq!(sum_saturating(&vec![u64::MAX - 1, 1, 5]), u64::MAX);
}

#[test]
fn deps_only_selection_keeps_existing_subset() {
    // a non-cache entry under dependency-only deletion probes exactly its
    // node_modules and .cache children; only the existing one survives
    let probes = vec![
        (String::from("/p/node_modules"), true),
        (String::from("/p/.cache"), false),
    ];
    assert_eq!(select_existing(&probes), vec![String::from("/p/node_modules")]);

    let probes = vec![
        (String::from("/p/node_modules"), true),
        (String::from("/p/.cache"), true),
    ];
    assert_eq!(
        select_existing(&probes),
        vec![String::from("/p/node_modules"), String::from("/p/.cache")]
    );

    let probes = vec![
        (String::from("/p/node_modules"), false),
        (String::from("/p/.cache"), false),
    ];
    assert!(select_existing(&probes).is_empty());
}

#[test]
fn selection_deduplicates_by_first_seen_path() {
    let probes = vec![
        (String::from("/a"), true),
        (String::from("/b"), true),
        (String::from("/a"), true),
        (String::from("/c"), false),
    ];
    assert_eq!(
        select_existing(&probes),
        vec![String::from("/a"), String::from("/b")]
    );
}

#[test]
fn plan_for_missing_paths_is_empty() {
    let entries = vec![
        DeleteEntry { path: String::from("/devclean-missing-root-a"), is_cache: false },
        DeleteEntry { path: String::from("/devclean-missing-root-b"), is_cache: true },
    ];
    let plan = build_delete_plan(&entries, false);
    assert!(plan.items.is_empty());
    assert_eq!(plan.total_bytes, 0);
    let plan = build_delete_plan(&entries, true);
    assert!(plan.items.is_empty());
    assert_eq!(plan.total_bytes, 0);
    assert!(collect_targets(&entries, true).is_empty());
}
