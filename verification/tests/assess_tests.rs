use devclean_core::ai::ai_assessment_from_reply;
use devclean_core::assess::{resolve_after_ai, resolve_cached, AiStats, CachePolicy};
use devclean_core::types::RiskSource;

#[test]
fn heuristic_serves_when_ai_is_off_or_record_is_cache() {
    assert!(matches!(resolve_cached(false, false, true, None), CachePolicy::UseHeuristic));
    assert!(matches!(resolve_cached(true, true, true, None), CachePolicy::UseHeuristic));
}

#[test]
fn valid_cached_assessment_is_used() {
    let cached = ai_assessment_from_reply(7, vec![String::from("from cache")]);
    match resolve_cached(true, false, true, Some(cached)) {
        CachePolicy::UseCached(a) => {
            assert_eq!(a.score, 7);
            assert_eq!(a.reasons, vec![String::from("from cache")]);
        },
        other => panic!("expected the cached assessment, got {:?}", other),
    }
}

#[test]
fn cache_miss_requests_ai() {
    assert!(matches!(resolve_cached(true, false, true, None), CachePolicy::NeedAi));
    assert!(matches!(resolve_cached(true, false, false, None), CachePolicy::NeedAi));
}

#[test]
fn ai_reply_is_merged_and_stored_only_with_a_hash() {
    let heuristic = ai_assessment_from_reply(4, vec![String::from("h")]);
    let reply = ai_assessment_from_reply(8, vec![String::from("a")]);
    let (merged, store) = resolve_after_ai(&heuristic, Some(&reply), true);
    assert_eq!(merged.score, 6);
    assert!(matches!(merged.source, RiskSource::Combined));
    assert!(store);
    let (_, store) = resolve_after_ai(&heuristic, Some(&reply), false);
    assert!(!store);
}

#[test]
fn ai_failure_falls_back_to_heuristic() {
    let heuristic = ai_assessment_from_reply(4, vec![String::from("h")]);
    let (kept, store) = resolve_after_ai(&heuristic, None, true);
    assert_eq!(kept.score, 4);
    assert_eq!(kept.reasons, vec![String::from("h")]);
    assert!(!store);
}

#[test]
fn stats_count_hits_misses_and_calls() {
    let mut stats = AiStats::new();
    stats.note_hit();
    stats.note_miss();
    stats.note_miss();
    stats.note_call();
    assert_eq!(stats.cache_hits, 1);
    assert_eq!(stats.cache_misses, 2);
    assert_eq!(stats.calls, 1);
}
