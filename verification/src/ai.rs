//! Handling of AI assessment replies: pulling the text out of a structured
//! reply, stripping markdown code fences around it, and turning a parsed
//! payload into a risk assessment. The network transport lives outside the
//! library and hands these functions plain values.

use vstd::prelude::*;

verus! {

use crate::risk::{classify, merge_risk, spec_merge_reasons};
use crate::text::{
    chars_of, has_prefix, spec_trim, string_of, strip_leading_runs, strip_leading_runs_chars,
    strip_prefix_if, strip_trailing_runs, strip_trailing_runs_chars, trim_chars,
};
use crate::types::{RiskAssessment, RiskClass, RiskSource, spec_classify};

/// One text part of a structured AI reply.
#[derive(Debug, Clone)]
pub struct GeminiPart {
    pub text: Option<String>,
}

/// The content of one reply candidate.
#[derive(Debug, Clone)]
pub struct GeminiContent {
    pub parts: Option<Vec<GeminiPart>>,
}

/// One candidate of a structured AI reply.
#[derive(Debug, Clone)]
pub struct GeminiCandidate {
    pub content: Option<GeminiContent>,
}

/// A structured AI reply: an optional list of candidates.
#[derive(Debug, Clone)]
pub struct GeminiResponse {
    pub candidates: Option<Vec<GeminiCandidate>>,
}

/// The text of the last part of the last candidate, if every link of that
/// chain is present.
pub open spec fn spec_extract_text(r: GeminiResponse) -> Option<Seq<char>> {
    match r.candidates {
        Option::None => Option::None,
        Option::Some(cs) => {
            if cs@.len() == 0 {
                Option::None
            } else {
                match cs@.last().content {
                    Option::None => Option::None,
                    Option::Some(content) => match content.parts {
                        Option::None => Option::None,
                        Option::Some(ps) => {
                            if ps@.len() == 0 {
                                Option::None
                            } else {
                                match ps@.last().text {
                                    Option::None => Option::None,
                                    Option::Some(t) => Option::Some(t@),
                                }
                            }
                        },
                    },
                }
            }
        },
    }
}

/// Pull the reply text out of a structured AI reply: the text of the last
/// part of the last candidate, or nothing when any link is absent.
pub fn extract_text(response: GeminiResponse) -> (r: Option<String>)
    ensures
        r is Some <==> spec_extract_text(response) is Some,
        r is Some ==> r->0@ == spec_extract_text(response)->0,
{
    match response.candidates {
        Option::None => Option::None,
        Option::Some(mut cs) => match cs.pop() {
            Option::None => Option::None,
            Option::Some(candidate) => match candidate.content {
                Option::None => Option::None,
                Option::Some(content) => match content.parts {
                    Option::None => Option::None,
                    Option::Some(mut ps) => match ps.pop() {
                        Option::None => Option::None,
                        Option::Some(part) => part.text,
                    },
                },
            },
        },
    }
}

/// The fence-stripped form of a reply text: the text trimmed; if it starts
/// with a backtick fence, every leading fence repetition is removed, one
/// `json` or `JSON` language tag is dropped, and after trimming again every
/// trailing fence repetition and surrounding whitespace goes too.
pub open spec fn spec_strip_code_fence(value: Seq<char>) -> Seq<char> {
    let trimmed = spec_trim(value);
    if has_prefix(trimmed, "```"@) {
        let without_start = strip_leading_runs(trimmed, "```"@);
        let without_lang = if has_prefix(without_start, "json"@) {
            strip_prefix_if(without_start, "json"@)
        } else {
            strip_prefix_if(without_start, "JSON"@)
        };
        spec_trim(strip_trailing_runs(spec_trim(without_lang), "```"@))
    } else {
        trimmed
    }
}

/// Strip a markdown code fence, and an optional `json` language tag, from
/// around a piece of reply text.
pub fn strip_code_fence(value: &str) -> (r: String)
    ensures
        r@ == spec_strip_code_fence(value@),
{
    proof {
        reveal_strlit("```");
        reveal_strlit("json");
        reveal_strlit("JSON");
    }
    let chars = chars_of(value);
    let fence = chars_of("```");
    let tag_lower = chars_of("json");
    let tag_upper = chars_of("JSON");
    let trimmed = trim_chars(&chars);
    if crate::text::starts_with_chars(&trimmed, &fence) {
        let without_start = strip_leading_runs_chars(&trimmed, &fence);
        let without_lang = if crate::text::starts_with_chars(&without_start, &tag_lower) {
            crate::text::copy_range(&without_start, tag_lower.len(), without_start.len())
        } else if crate::text::starts_with_chars(&without_start, &tag_upper) {
            crate::text::copy_range(&without_start, tag_upper.len(), without_start.len())
        } else {
            crate::text::copy_range(&without_start, 0, without_start.len())
        };
        proof {
            assert(without_start@.subrange(0, without_start@.len() as int) =~= without_start@);
            assert(without_start@.subrange(4, without_start@.len() as int) =~= without_start@.skip(
                4,
            ));
            assert(without_lang@ == (if has_prefix(without_start@, "json"@) {
                strip_prefix_if(without_start@, "json"@)
            } else {
                strip_prefix_if(without_start@, "JSON"@)
            }));
        }
        let again = trim_chars(&without_lang);
        let without_end = strip_trailing_runs_chars(&again, &fence);
        let result = trim_chars(&without_end);
        string_of(&result)
    } else {
        string_of(&trimmed)
    }
}

/// Classify an AI score with the shared thresholds.
pub fn classify_score(score: u8) -> (r: RiskClass)
    ensures
        r == spec_classify(score),
{
    classify(score)
}

/// Turn a parsed AI payload into an assessment: the score is capped at 10,
/// the class follows the capped score, the reasons are kept as sent, and the
/// source is `Ai`.
pub fn ai_assessment_from_reply(score: u8, reasons: Vec<String>) -> (r: RiskAssessment)
    ensures
        r.score == (if score > 10 {
            10u8
        } else {
            score
        }),
        r.class_name == spec_classify(r.score),
        r.reasons@ == reasons@,
        r.source == RiskSource::Ai,
        r.wf(),
{
    let capped = if score > 10 {
        10
    } else {
        score
    };
    let class_name = classify_score(capped);
    RiskAssessment { class_name, score: capped, reasons, source: RiskSource::Ai }
}

/// Combine a heuristic assessment with an AI one; the score becomes the
/// integer-truncated average, the class follows it, the AI reasons not
/// already present are appended, and the source is `Combined`.
pub fn merge_with_ai(heuristic: &RiskAssessment, ai: &RiskAssessment) -> (r: RiskAssessment)
    ensures
        r.score == (heuristic.score + ai.score) as int / 2,
        r.class_name == spec_classify(r.score),
        r.reasons.deep_view() == spec_merge_reasons(
            heuristic.reasons.deep_view(),
            ai.reasons.deep_view(),
        ),
        r.source == RiskSource::Combined,
{
    merge_risk(heuristic, Some(ai))
}

} // verus!
