//! Risk scoring: a deterministic heuristic over project metadata, score
//! classification, and the policy for merging a heuristic assessment with an
//! AI-supplied one.

use vstd::prelude::*;

verus! {

use crate::text::{
    clone_strings, contains_seq, contains_str, contains_string, join_space, lower_of, lowercase,
    spec_join_space,
};
use crate::types::{ProjectMeta, RiskAssessment, RiskClass, RiskSource, spec_classify};

/// A raw score clamped into the `[0, 10]` band.
pub open spec fn spec_clamp(score: int) -> u8 {
    if score < 0 {
        0
    } else if score > 10 {
        10
    } else {
        score as u8
    }
}

/// Clamp a raw score into the `[0, 10]` band.
pub fn clamp_score(score: i32) -> (r: u8)
    ensures
        r == spec_clamp(score as int),
{
    if score < 0 {
        0
    } else if score > 10 {
        10
    } else {
        score as u8
    }
}

/// Classify a score: 8 and above is `Critical`, 5 to 7 is `Active`,
/// everything below is `Burner`.
pub fn classify(score: u8) -> (r: RiskClass)
    ensures
        r == spec_classify(score),
        r == RiskClass::Critical <==> score >= 8,
        r == RiskClass::Active <==> (5 <= score < 8),
        r == RiskClass::Burner <==> score < 5,
{
    if score >= 8 {
        RiskClass::Critical
    } else if score >= 5 {
        RiskClass::Active
    } else {
        RiskClass::Burner
    }
}

/// Lowercased text mentions one of the burner-name hints.
pub open spec fn matches_burner_hint(lowered: Seq<char>) -> bool {
    ||| contains_seq(lowered, "tutorial"@)
    ||| contains_seq(lowered, "test"@)
    ||| contains_seq(lowered, "boilerplate"@)
    ||| contains_seq(lowered, "example"@)
    ||| contains_seq(lowered, "sample"@)
}

/// A project name marks a throwaway project: its lowercase form mentions a
/// burner-name hint.
pub open spec fn spec_is_burner_name(name: Seq<char>) -> bool {
    matches_burner_hint(lower_of(name))
}

/// Decide whether a project name marks a throwaway project.
pub fn is_burner_name(name: &str) -> (r: bool)
    ensures
        r == spec_is_burner_name(name@),
{
    let lowered = lowercase(name);
    contains_str(lowered.as_str(), "tutorial") || contains_str(lowered.as_str(), "test")
        || contains_str(lowered.as_str(), "boilerplate") || contains_str(
        lowered.as_str(),
        "example",
    ) || contains_str(lowered.as_str(), "sample")
}

/// Lowercased text mentions one of the startup hints.
pub open spec fn matches_startup_hint(lowered: Seq<char>) -> bool {
    ||| contains_seq(lowered, "startup"@)
    ||| contains_seq(lowered, "production"@)
    ||| contains_seq(lowered, "prod"@)
}

/// A startup hint occurs in the lowercase form of the name, of the joined
/// keywords, or of the joined script commands.
pub open spec fn spec_startup_signal(
    name: Seq<char>,
    keywords: Seq<Seq<char>>,
    scripts: Seq<Seq<char>>,
) -> bool {
    ||| matches_startup_hint(lower_of(name))
    ||| matches_startup_hint(lower_of(spec_join_space(keywords)))
    ||| matches_startup_hint(lower_of(spec_join_space(scripts)))
}

fn mentions_startup_hint(lowered: &String) -> (r: bool)
    ensures
        r == matches_startup_hint(lowered@),
{
    contains_str(lowered.as_str(), "startup") || contains_str(lowered.as_str(), "production")
        || contains_str(lowered.as_str(), "prod")
}

/// Decide whether the project advertises startup or production intent in its
/// name, its keywords, or its script commands.
pub fn has_startup_signal(name: &str, keywords: &Vec<String>, scripts: &Vec<String>) -> (r: bool)
    ensures
        r == spec_startup_signal(name@, keywords.deep_view(), scripts.deep_view()),
{
    let name_text = lowercase(name);
    let keyword_join = join_space(keywords);
    let keyword_text = lowercase(keyword_join.as_str());
    let script_join = join_space(scripts);
    let scripts_text = lowercase(script_join.as_str());
    mentions_startup_hint(&name_text) || mentions_startup_hint(&keyword_text)
        || mentions_startup_hint(&scripts_text)
}

/// The raw (unclamped) heuristic score of a project.
pub open spec fn spec_raw_score(m: ProjectMeta) -> int {
    (if m.is_cache {
        -4int
    } else {
        0int
    }) + (if m.has_git {
        4int
    } else {
        0int
    }) + (if m.has_env_file {
        3int
    } else {
        0int
    }) + (if m.has_startup_keyword {
        3int
    } else {
        0int
    }) + (if m.last_modified_days <= 30 {
        2int
    } else {
        0int
    }) + (if m.dependency_count >= 40 {
        1int
    } else {
        0int
    }) + (if spec_is_burner_name(m.name@) {
        -2int
    } else {
        0int
    }) + (if m.last_modified_days >= 180 {
        -1int
    } else {
        0int
    })
}

/// The heuristic score of a project, clamped into `[0, 10]`.
pub open spec fn spec_heuristic_score(m: ProjectMeta) -> u8 {
    spec_clamp(spec_raw_score(m))
}

/// The reason strings of the heuristic, in evaluation order.
pub open spec fn spec_heuristic_reasons(m: ProjectMeta) -> Seq<Seq<char>> {
    (if m.is_cache {
        seq!["System cache directory"@]
    } else {
        Seq::empty()
    }) + (if m.has_git {
        seq!["Git history detected"@]
    } else {
        Seq::empty()
    }) + (if m.has_env_file {
        seq!["Environment file present"@]
    } else {
        Seq::empty()
    }) + (if m.has_startup_keyword {
        seq!["Startup keywords in package.json"@]
    } else {
        Seq::empty()
    }) + (if m.last_modified_days <= 30 {
        seq!["Modified within 30 days"@]
    } else {
        Seq::empty()
    }) + (if m.dependency_count >= 40 {
        seq!["High dependency count"@]
    } else {
        Seq::empty()
    }) + (if spec_is_burner_name(m.name@) {
        seq!["Name matches tutorial/test patterns"@]
    } else {
        Seq::empty()
    }) + (if m.last_modified_days >= 180 {
        seq!["Inactive for 6+ months"@]
    } else {
        Seq::empty()
    })
}

/// Score a project with the fixed multi-signal heuristic. The score is the
/// clamped sum of the triggered signals, the class follows the score, each
/// triggered signal contributes its reason in evaluation order, and the
/// source is `Heuristic`.
#[verifier::rlimit(50)]
pub fn evaluate_heuristic(project: &ProjectMeta) -> (r: RiskAssessment)
    ensures
        r.score == spec_heuristic_score(*project),
        r.class_name == spec_classify(r.score),
        r.reasons.deep_view() == spec_heuristic_reasons(*project),
        r.source == RiskSource::Heuristic,
        r.wf(),
{
    let m = Ghost(*project);
    let mut score: i32 = 0;
    let mut reasons: Vec<String> = Vec::new();

    let ghost c0 = Seq::<Seq<char>>::empty();
    if project.is_cache {
        score = score - 4;
        reasons.push(String::from_str("System cache directory"));
    }
    let ghost c1 = c0 + (if m@.is_cache { seq!["System cache directory"@] } else { Seq::empty() });
    proof { assert(reasons.deep_view() =~= c1); }
    if project.has_git {
        score = score + 4;
        reasons.push(String::from_str("Git history detected"));
    }
    let ghost c2 = c1 + (if m@.has_git { seq!["Git history detected"@] } else { Seq::empty() });
    proof { assert(reasons.deep_view() =~= c2); }
    if project.has_env_file {
        score = score + 3;
        reasons.push(String::from_str("Environment file present"));
    }
    let ghost c3 = c2 + (if m@.has_env_file { seq!["Environment file present"@] } else { Seq::empty() });
    proof { assert(reasons.deep_view() =~= c3); }
    if project.has_startup_keyword {
        score = score + 3;
        reasons.push(String::from_str("Startup keywords in package.json"));
    }
    let ghost c4 = c3 + (if m@.has_startup_keyword { seq!["Startup keywords in package.json"@] } else { Seq::empty() });
    proof { assert(reasons.deep_view() =~= c4); }
    if project.last_modified_days <= 30 {
        score = score + 2;
        reasons.push(String::from_str("Modified within 30 days"));
    }
    let ghost c5 = c4 + (if m@.last_modified_days <= 30 { seq!["Modified within 30 days"@] } else { Seq::empty() });
    proof { assert(reasons.deep_view() =~= c5); }
    if project.dependency_count >= 40 {
        score = score + 1;
        reasons.push(String::from_str("High dependency count"));
    }
    let ghost c6 = c5 + (if m@.dependency_count >= 40 { seq!["High dependency count"@] } else { Seq::empty() });
    proof { assert(reasons.deep_view() =~= c6); }
    if is_burner_name(project.name.as_str()) {
        score = score - 2;
        reasons.push(String::from_str("Name matches tutorial/test patterns"));
    }
    let ghost c7 = c6 + (if spec_is_burner_name(m@.name@) { seq!["Name matches tutorial/test patterns"@] } else { Seq::empty() });
    proof { assert(reasons.deep_view() =~= c7); }
    if project.last_modified_days >= 180 {
        score = score - 1;
        reasons.push(String::from_str("Inactive for 6+ months"));
    }
    let ghost c8 = c7 + (if m@.last_modified_days >= 180 { seq!["Inactive for 6+ months"@] } else { Seq::empty() });
    proof {
        assert(reasons.deep_view() =~= c8);
        assert(c8 =~= spec_heuristic_reasons(*project));
    }
    let score = clamp_score(score);
    let class_name = classify(score);
    RiskAssessment { class_name, score, reasons, source: RiskSource::Heuristic }
}

/// `extra` folded onto `acc`: each reason is appended unless an equal string
/// is already present, first-seen order kept.
pub open spec fn spec_merge_reasons(acc: Seq<Seq<char>>, extra: Seq<Seq<char>>) -> Seq<Seq<char>>
    decreases extra.len(),
{
    if extra.len() == 0 {
        acc
    } else if acc.contains(extra[0]) {
        spec_merge_reasons(acc, extra.drop_first())
    } else {
        spec_merge_reasons(acc.push(extra[0]), extra.drop_first())
    }
}

/// Combine a heuristic assessment with an AI one. With no AI assessment the
/// heuristic is returned unchanged. Otherwise the score is the
/// integer-truncated average of the two scores, the class is recomputed from
/// it, the AI reasons not already present are appended in order, and the
/// source is `Combined`.
pub fn merge_risk(heuristic: &RiskAssessment, ai: Option<&RiskAssessment>) -> (r: RiskAssessment)
    ensures
        ai is None ==> {
            &&& r.score == heuristic.score
            &&& r.class_name == heuristic.class_name
            &&& r.reasons.deep_view() == heuristic.reasons.deep_view()
            &&& r.source == heuristic.source
        },
        ai is Some ==> {
            &&& r.score == (heuristic.score + ai->0.score) as int / 2
            &&& r.class_name == spec_classify(r.score)
            &&& r.reasons.deep_view() == spec_merge_reasons(
                heuristic.reasons.deep_view(),
                ai->0.reasons.deep_view(),
            )
            &&& r.source == RiskSource::Combined
        },
{
    match ai {
        None => RiskAssessment {
            class_name: heuristic.class_name,
            score: heuristic.score,
            reasons: clone_strings(&heuristic.reasons),
            source: heuristic.source,
        },
        Some(ai_assessment) => {
            let avg = ((heuristic.score as u16 + ai_assessment.score as u16) / 2) as u8;
            let class_name = classify(avg);
            let mut reasons = clone_strings(&heuristic.reasons);
            let ghost orig = reasons.deep_view();
            let ghost extra = ai_assessment.reasons.deep_view();
            proof {
                assert(extra.skip(0) =~= extra);
            }
            let mut i: usize = 0;
            while i < ai_assessment.reasons.len()
                invariant
                    i <= ai_assessment.reasons@.len(),
                    extra == ai_assessment.reasons.deep_view(),
                    extra.len() == ai_assessment.reasons@.len(),
                    spec_merge_reasons(orig, extra) == spec_merge_reasons(
                        reasons.deep_view(),
                        extra.skip(i as int),
                    ),
                decreases ai_assessment.reasons@.len() - i,
            {
                let reason = &ai_assessment.reasons[i];
                let ghost before = reasons.deep_view();
                proof {
                    assert(extra.skip(i as int)[0] == extra[i as int]);
                    assert(extra.skip(i as int).drop_first() =~= extra.skip(i + 1));
                }
                if !contains_string(&reasons, reason) {
                    reasons.push(reason.clone());
                    proof {
                        assert(reasons.deep_view() =~= before.push(extra[i as int]));
                    }
                }
                i = i + 1;
            }
            proof {
                assert(extra.skip(extra.len() as int) =~= Seq::<Seq<char>>::empty());
            }
            RiskAssessment { class_name, score: avg, reasons, source: RiskSource::Combined }
        },
    }
}

/// The heuristic score of every metadata record lies in the `[0, 10]` band.
pub proof fn law_heuristic_score_clamped(m: ProjectMeta)
    ensures
        0 <= spec_heuristic_score(m) <= 10,
{
}

/// Classification is a monotonic step function of the score: `Critical`
/// exactly on scores of 8 and above, `Active` exactly on 5 to 7, `Burner`
/// exactly below 5.
pub proof fn law_classify_thresholds(score: u8)
    ensures
        spec_classify(score) == RiskClass::Critical <==> score >= 8,
        spec_classify(score) == RiskClass::Active <==> (5 <= score < 8),
        spec_classify(score) == RiskClass::Burner <==> score < 5,
{
}

} // verus!
