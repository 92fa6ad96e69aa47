use devclean_core::ai::{
    ai_assessment_from_reply, classify_score, extract_text, merge_with_ai, strip_code_fence,
    GeminiCandidate, GeminiContent, GeminiPart, GeminiResponse,
};
use devclean_core::types::{RiskClass, RiskSource};

#[test]
fn strip_fence_plain_text_is_trimmed() {
    assert_eq!(strip_code_fence("  {\"a\":1}  \n"), "{\"a\":1}");
    assert_eq!(strip_code_fence("already clean"), "already clean");
    assert_eq!(strip_code_fence(""), "");
}

#[test]
fn strip_fence_removes_backtick_fences() {
    assert_eq!(strip_code_fence("```\n{\"a\":1}\n```"), "{\"a\":1}");
    assert_eq!(strip_code_fence("  ```json\n{\"a\":1}\n```  "), "{\"a\":1}");
    assert_eq!(strip_code_fence("```JSON {\"a\":1} ```"), "{\"a\":1}");
}

#[test]
fn strip_fence_removes_repeated_fences() {
    assert_eq!(strip_code_fence("``````json\n{}\n``````"), "{}");
}

#[test]
fn extract_text_takes_last_part_of_last_candidate() {
    let part = |text: &str| GeminiPart { text: Some(String::from(text)) };
    let response = GeminiResponse {
        candidates: Some(vec![
            GeminiCandidate { content: None },
            GeminiCandidate {
                content: Some(GeminiContent { parts: Some(vec![part("first"), part("last")]) }),
            },
        ]),
    };
    assert_eq!(extract_text(response), Some(String::from("last")));
}

#[test]
fn extract_text_misses_when_chain_is_broken() {
    assert!(extract_text(GeminiResponse { candidates: None }).is_none());
    assert!(extract_text(GeminiResponse { candidates: Some(vec![]) }).is_none());
    let response = GeminiResponse {
        candidates: Some(vec![GeminiCandidate {
            content: Some(GeminiContent { parts: Some(vec![]) }),
        }]),
    };
    assert!(extract_text(response).is_none());
    let response = GeminiResponse {
        candidates: Some(vec![GeminiCandidate {
            content: Some(GeminiContent {
                parts: Some(vec![GeminiPart { text: None }]),
            }),
        }]),
    };
    assert!(extract_text(response).is_none());
}

#[test]
fn ai_reply_is_capped_and_classified() {
    let a = ai_assessment_from_reply(12, vec![String::from("why")]);
    assert_eq!(a.score, 10);
    assert!(matches!(a.class_name, RiskClass::Critical));
    assert!(matches!(a.source, RiskSource::Ai));
    assert_eq!(a.reasons, vec![String::from("why")]);

    let a = ai_assessment_from_reply(3, vec![]);
    assert_eq!(a.score, 3);
    assert!(matches!(a.class_name, RiskClass::Burner));
}

#[test]
fn classify_score_matches_thresholds() {
    assert!(matches!(classify_score(8), RiskClass::Critical));
    assert!(matches!(classify_score(5), RiskClass::Active));
    assert!(matches!(classify_score(4), RiskClass::Burner));
}

#[test]
fn merge_with_ai_averages() {
    let h = ai_assessment_from_reply(2, vec![String::from("a")]);
    let ai = ai_assessment_from_reply(5, vec![String::from("b")]);
    let merged = merge_with_ai(&h, &ai);
    assert_eq!(merged.score, 3); // floor((2 + 5) / 2)
    assert!(matches!(merged.source, RiskSource::Combined));
    assert_eq!(merged.reasons, vec![String::from("a"), String::from("b")]);
}
