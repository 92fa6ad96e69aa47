//! Shared data model: risk classes and assessments, project metadata,
//! project records, and scan progress snapshots.

use vstd::prelude::*;

verus! {

use crate::text::clone_strings;

/// How risky it is to delete a project: `Critical` projects should be kept,
/// `Active` projects deserve a close look, `Burner` projects are safe to drop.
#[derive(Debug, Clone, Copy, PartialEq, Eq, Structural)]
pub enum RiskClass {
    Critical,
    Active,
    Burner,
}

/// Where an assessment came from: the local heuristic, an AI reply, or a
/// combination of the two.
#[derive(Debug, Clone, Copy, PartialEq, Eq, Structural)]
pub enum RiskSource {
    Heuristic,
    Ai,
    Combined,
}

/// A scored risk assessment. The class is always the classification of the
/// score, and the reasons keep their evaluation order.
#[derive(Debug, Clone)]
pub struct RiskAssessment {
    pub class_name: RiskClass,
    pub score: u8,
    pub reasons: Vec<String>,
    pub source: RiskSource,
}

impl RiskAssessment {
    /// A well-formed assessment has a clamped score whose class matches it.
    pub open spec fn wf(self) -> bool {
        &&& self.score <= 10
        &&& self.class_name == spec_classify(self.score)
    }
}

/// Specification of score classification: 8 and above is `Critical`,
/// 5 to 7 is `Active`, below 5 is `Burner`.
pub open spec fn spec_classify(score: u8) -> RiskClass {
    if score >= 8 {
        RiskClass::Critical
    } else if score >= 5 {
        RiskClass::Active
    } else {
        RiskClass::Burner
    }
}

/// The mathematical content of a risk assessment.
pub ghost struct AssessmentModel {
    pub class_name: RiskClass,
    pub score: u8,
    pub reasons: Seq<Seq<char>>,
    pub source: RiskSource,
}

impl View for RiskAssessment {
    type V = AssessmentModel;

    open spec fn view(&self) -> AssessmentModel {
        AssessmentModel {
            class_name: self.class_name,
            score: self.score,
            reasons: self.reasons.deep_view(),
            source: self.source,
        }
    }
}

/// Copy an assessment, preserving its content.
pub fn clone_assessment(a: &RiskAssessment) -> (r: RiskAssessment)
    ensures
        r@ == a@,
{
    RiskAssessment {
        class_name: a.class_name,
        score: a.score,
        reasons: clone_strings(&a.reasons),
        source: a.source,
    }
}

/// Metadata of a discovered project or cache directory. The `id` (its
/// absolute path) identifies it within one scan result.
#[derive(Debug, Clone)]
pub struct ProjectMeta {
    pub id: String,
    pub path: String,
    pub name: String,
    pub package_json_path: String,
    pub dependency_count: usize,
    pub has_git: bool,
    pub has_env_file: bool,
    pub has_startup_keyword: bool,
    pub last_modified: i64,
    pub last_modified_days: i64,
    pub size_bytes: u64,
    pub is_cache: bool,
}

/// A project together with its risk assessment; built once per scan.
#[derive(Debug, Clone)]
pub struct ProjectRecord {
    pub meta: ProjectMeta,
    pub risk: RiskAssessment,
}

/// A progress snapshot emitted while a scan walks the tree.
#[derive(Debug, Clone)]
pub struct ScanProgress {
    pub found_count: usize,
    pub current_path: String,
    pub scanned_count: usize,
    pub total_count: Option<usize>,
}

} // verus!
