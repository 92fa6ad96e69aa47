//! The per-project assessment policy: when the cached AI assessment is used,
//! when a fresh AI assessment is requested, how its outcome is folded into
//! the heuristic, and the bookkeeping of hits, misses and calls. The caller
//! performs the lookup and the network call and feeds the results back in.

use vstd::prelude::*;

verus! {

use crate::ai::merge_with_ai;
use crate::risk::spec_merge_reasons;
use crate::types::{
    clone_assessment, ProjectMeta, ProjectRecord, RiskAssessment, RiskSource, spec_classify,
};

/// How one project is to be assessed, given what the cache said.
#[derive(Debug, Clone)]
pub enum CachePolicy {
    /// Keep the heuristic assessment: AI is off, or the record is a cache
    /// directory.
    UseHeuristic,
    /// Merge the cached AI assessment in; it counts as a cache hit.
    UseCached(RiskAssessment),
    /// Ask the AI collaborator; it counts as a cache miss.
    NeedAi,
}

/// Decide how to assess one project. The heuristic alone serves when AI is
/// off or the record is a cache directory; a cached assessment, valid for
/// the current manifest hash, is used when one exists; everything else needs
/// a fresh AI assessment.
pub fn resolve_cached(
    ai_enabled: bool,
    is_cache_entry: bool,
    hash_known: bool,
    cached: Option<RiskAssessment>,
) -> (r: CachePolicy)
    requires
        !hash_known ==> cached is None,
    ensures
        (!ai_enabled || is_cache_entry) <==> r is UseHeuristic,
        r is UseCached ==> cached is Some && r->UseCached_0@ == cached->0@,
        (ai_enabled && !is_cache_entry && cached is Some) ==> r is UseCached,
        (ai_enabled && !is_cache_entry && cached is None) <==> r is NeedAi,
{
    if !ai_enabled || is_cache_entry {
        CachePolicy::UseHeuristic
    } else {
        match cached {
            Option::Some(assessment) => CachePolicy::UseCached(assessment),
            Option::None => CachePolicy::NeedAi,
        }
    }
}

/// Fold the outcome of an AI request into the heuristic: a reply is merged
/// and is stored in the cache exactly when the manifest hash is known; any
/// failure falls back to the heuristic alone and stores nothing.
pub fn resolve_after_ai(
    heuristic: &RiskAssessment,
    ai: Option<&RiskAssessment>,
    hash_known: bool,
) -> (r: (RiskAssessment, bool))
    ensures
        ai is Some ==> {
            &&& r.0.score == (heuristic.score + ai->0.score) as int / 2
            &&& r.0.class_name == spec_classify(r.0.score)
            &&& r.0.reasons.deep_view() == spec_merge_reasons(
                heuristic.reasons.deep_view(),
                ai->0.reasons.deep_view(),
            )
            &&& r.0.source == RiskSource::Combined
            &&& r.1 == hash_known
        },
        ai is None ==> r.0@ == heuristic@ && !r.1,
{
    match ai {
        Option::Some(reply) => (merge_with_ai(heuristic, reply), hash_known),
        Option::None => (clone_assessment(heuristic), false),
    }
}

/// Pair a project with its assessment.
pub fn make_record(meta: ProjectMeta, risk: RiskAssessment) -> (r: ProjectRecord)
    ensures
        r.meta == meta,
        r.risk == risk,
{
    ProjectRecord { meta, risk }
}

/// Counters of how the assessments were obtained during one scan.
#[derive(Debug, Clone)]
pub struct AiStats {
    pub cache_hits: usize,
    pub cache_misses: usize,
    pub calls: usize,
}

impl AiStats {
    /// Fresh counters.
    pub fn new() -> (r: AiStats)
        ensures
            r.cache_hits == 0 && r.cache_misses == 0 && r.calls == 0,
    {
        AiStats { cache_hits: 0, cache_misses: 0, calls: 0 }
    }

    /// Count one cache hit.
    pub fn note_hit(&mut self)
        requires
            old(self).cache_hits < usize::MAX,
        ensures
            final(self).cache_hits == old(self).cache_hits + 1,
            final(self).cache_misses == old(self).cache_misses,
            final(self).calls == old(self).calls,
    {
        self.cache_hits = self.cache_hits + 1;
    }

    /// Count one cache miss.
    pub fn note_miss(&mut self)
        requires
            old(self).cache_misses < usize::MAX,
        ensures
            final(self).cache_misses == old(self).cache_misses + 1,
            final(self).cache_hits == old(self).cache_hits,
            final(self).calls == old(self).calls,
    {
        self.cache_misses = self.cache_misses + 1;
    }

    /// Count one AI call.
    pub fn note_call(&mut self)
        requires
            old(self).calls < usize::MAX,
        ensures
            final(self).calls == old(self).calls + 1,
            final(self).cache_hits == old(self).cache_hits,
            final(self).cache_misses == old(self).cache_misses,
    {
        self.calls = self.calls + 1;
    }
}

} // verus!
