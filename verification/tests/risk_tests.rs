use devclean_core::risk::{clamp_score, classify, evaluate_heuristic, is_burner_name, merge_risk,
    has_startup_signal};
use devclean_core::types::{ProjectMeta, RiskClass, RiskSource};

fn meta(
    name: &str,
    dependency_count: usize,
    has_git: bool,
    has_env_file: bool,
    has_startup_keyword: bool,
    last_modified_days: i64,
    is_cache: bool,
) -> ProjectMeta {
    ProjectMeta {
        id: String::from("/projects/x"),
        path: String::from("/projects/x"),
        name: String::from(name),
        package_json_path: if is_cache {
            String::new()
        } else {
            String::from("/projects/x/package.json")
        },
        dependency_count,
        has_git,
        has_env_file,
        has_startup_keyword,
        last_modified: 0,
        last_modified_days,
        size_bytes: 0,
        is_cache,
    }
}

#[test]
fn classify_thresholds() {
    assert!(matches!(classify(0), RiskClass::Burner));
    assert!(matches!(classify(4), RiskClass::Burner));
    assert!(matches!(classify(5), RiskClass::Active));
    assert!(matches!(classify(7), RiskClass::Active));
    assert!(matches!(classify(8), RiskClass::Critical));
    assert!(matches!(classify(10), RiskClass::Critical));
}

#[test]
fn clamp_bounds() {
    assert_eq!(clamp_score(-7), 0);
    assert_eq!(clamp_score(0), 0);
    assert_eq!(clamp_score(6), 6);
    assert_eq!(clamp_score(10), 10);
    assert_eq!(clamp_score(13), 10);
}

#[test]
fn heuristic_score_always_clamped() {
    // every signal positive: raw 4 + 3 + 3 + 2 + 1 = 13, clamped to 10
    let m = meta("serious", 40, true, true, true, 5, false);
    let a = evaluate_heuristic(&m);
    assert_eq!(a.score, 10);
    assert!(matches!(a.class_name, RiskClass::Critical));
    // every signal negative: raw -4 - 2 - 1 = -7, clamped to 0
    let m = meta("my-tutorial", 0, false, false, false, 400, true);
    let a = evaluate_heuristic(&m);
    assert_eq!(a.score, 0);
    assert!(matches!(a.class_name, RiskClass::Burner));
}

#[test]
fn git_project_modified_recently_is_active() {
    let m = meta("plain", 0, true, false, false, 5, false);
    let a = evaluate_heuristic(&m);
    assert_eq!(a.score, 6);
    assert!(matches!(a.class_name, RiskClass::Active));
    assert!(matches!(a.source, RiskSource::Heuristic));
    assert_eq!(
        a.reasons,
        vec![
            String::from("Git history detected"),
            String::from("Modified within 30 days"),
        ]
    );
}

#[test]
fn bare_cache_entry_is_burner() {
    let m = meta("store-v3", 0, false, false, false, 50, true);
    let a = evaluate_heuristic(&m);
    assert_eq!(a.score, 0);
    assert!(matches!(a.class_name, RiskClass::Burner));
    assert_eq!(a.reasons, vec![String::from("System cache directory")]);
}

#[test]
fn tutorial_named_project_is_burner() {
    let m = meta("my-tutorial-app", 0, true, true, false, 200, false);
    let a = evaluate_heuristic(&m);
    // 4 + 3 - 2 - 1 = 4
    assert_eq!(a.score, 4);
    assert!(matches!(a.class_name, RiskClass::Burner));
    assert_eq!(
        a.reasons,
        vec![
            String::from("Git history detected"),
            String::from("Environment file present"),
            String::from("Name matches tutorial/test patterns"),
            String::from("Inactive for 6+ months"),
        ]
    );
}

#[test]
fn merge_truncates_average_and_reclassifies() {
    let m = meta("plain", 0, true, false, false, 5, false);
    let h = evaluate_heuristic(&m); // score 6
    let ai = devclean_core::ai::ai_assessment_from_reply(
        9,
        vec![String::from("Holds deployment secrets")],
    );
    let merged = merge_risk(&h, Some(&ai));
    assert_eq!(merged.score, 7); // floor((6 + 9) / 2)
    assert!(matches!(merged.class_name, RiskClass::Active));
    assert!(matches!(merged.source, RiskSource::Combined));
    assert_eq!(
        merged.reasons,
        vec![
            String::from("Git history detected"),
            String::from("Modified within 30 days"),
            String::from("Holds deployment secrets"),
        ]
    );
}

#[test]
fn merge_without_ai_is_identity() {
    let m = meta("plain", 41, true, false, false, 5, false);
    let h = evaluate_heuristic(&m);
    let merged = merge_risk(&h, None);
    assert_eq!(merged.score, h.score);
    assert_eq!(merged.class_name, h.class_name);
    assert_eq!(merged.reasons, h.reasons);
    assert!(matches!(merged.source, RiskSource::Heuristic));
}

#[test]
fn merge_deduplicates_reasons_by_exact_text() {
    let m = meta("plain", 0, true, false, false, 5, false);
    let h = evaluate_heuristic(&m);
    let ai = devclean_core::ai::ai_assessment_from_reply(
        6,
        vec![
            String::from("Git history detected"),
            String::from("Large install"),
            String::from("Large install"),
        ],
    );
    let merged = merge_risk(&h, Some(&ai));
    assert_eq!(
        merged.reasons,
        vec![
            String::from("Git history detected"),
            String::from("Modified within 30 days"),
            String::from("Large install"),
        ]
    );
}

#[test]
fn burner_names_match_case_insensitively() {
    assert!(is_burner_name("My-TUTORIAL-app"));
    assert!(is_burner_name("integration-test"));
    assert!(is_burner_name("boilerplate9"));
    assert!(is_burner_name("an example"));
    assert!(is_burner_name("data-SAMPLE"));
    assert!(!is_burner_name("shop-backend"));
    assert!(!is_burner_name(""));
}

#[test]
fn startup_signal_in_name_keywords_or_scripts() {
    assert!(has_startup_signal("my-STARTUP", &vec![], &vec![]));
    assert!(has_startup_signal(
        "plain",
        &vec![String::from("fintech"), String::from("Production")],
        &vec![]
    ));
    assert!(has_startup_signal(
        "plain",
        &vec![],
        &vec![String::from("deploy --prod")]
    ));
    assert!(!has_startup_signal(
        "plain",
        &vec![String::from("game")],
        &vec![String::from("node index.js")]
    ));
}
