//! The delete planner: resolves requested entries into concrete targets
//! (whole directories, or only their dependency caches), deduplicates them,
//! sizes each one, and totals the plan with saturating arithmetic.

use vstd::prelude::*;

verus! {

use vstd::string::StringExecFns;
use crate::text::contains_string;

/// One requested deletion: a path and whether it is a cache directory.
#[derive(Debug, Clone)]
pub struct DeleteEntry {
    pub path: String,
    pub is_cache: bool,
}

/// One resolved plan item: a concrete path and its measured size.
#[derive(Debug, Clone)]
pub struct DeletePlanItem {
    pub path: String,
    pub size_bytes: u64,
}

/// A delete plan: the resolved items in order and their total size.
#[derive(Debug, Clone)]
pub struct DeletePlan {
    pub items: Vec<DeletePlanItem>,
    pub total_bytes: u64,
}

/// The candidate target paths of one requested entry: with dependency-only
/// deletion a non-cache entry contributes its `node_modules` and `.cache`
/// children, every other entry contributes its own path.
pub open spec fn entry_candidates(e: DeleteEntry, deps_only: bool) -> Seq<Seq<char>> {
    if deps_only && !e.is_cache {
        seq![e.path@ + "/node_modules"@, e.path@ + "/.cache"@]
    } else {
        seq![e.path@]
    }
}

/// The candidate target paths of all requested entries, in request order.
pub open spec fn candidate_list(entries: Seq<DeleteEntry>, deps_only: bool) -> Seq<Seq<char>>
    decreases entries.len(),
{
    if entries.len() == 0 {
        Seq::empty()
    } else {
        candidate_list(entries.drop_last(), deps_only) + entry_candidates(
            entries.last(),
            deps_only,
        )
    }
}

/// The existing candidates, deduplicated by path with first-seen order kept.
pub open spec fn spec_select(cands: Seq<(Seq<char>, bool)>) -> Seq<Seq<char>>
    decreases cands.len(),
{
    if cands.len() == 0 {
        Seq::empty()
    } else {
        let prev = spec_select(cands.drop_last());
        if cands.last().1 && !prev.contains(cands.last().0) {
            prev.push(cands.last().0)
        } else {
            prev
        }
    }
}

/// Relies on std::path::Path::exists: whether the path names an existing
/// filesystem object; what it returns depends on the disk.
#[verifier::external_body]
fn path_exists(path: &String) -> bool {
    std::path::Path::new(path.as_str()).exists()
}

/// Relies on std::path::Path::metadata: the byte length of the path when it
/// names a plain file, nothing otherwise; depends on the disk.
#[verifier::external_body]
fn path_file_size(path: &String) -> Option<u64> {
    std::path::Path::new(path.as_str()).metadata().ok().filter(|m| m.is_file()).map(|m| m.len())
}

/// Relies on walkdir::WalkDir: the byte lengths of the plain files under the
/// path, symbolic links not followed; unreadable entries are passed over.
#[verifier::external_body]
fn file_sizes_under(path: &String) -> Vec<u64> {
    let mut out: Vec<u64> = Vec::new();
    for entry in walkdir::WalkDir::new(path.as_str()).follow_links(false) {
        if let Ok(e) = entry {
            if e.file_type().is_file() {
                if let Ok(m) = e.metadata() {
                    out.push(m.len());
                }
            }
        }
    }
    out
}

/// The saturating sum of a sequence of sizes.
pub open spec fn spec_sat_sum(s: Seq<u64>) -> u64
    decreases s.len(),
{
    if s.len() == 0 {
        0u64
    } else {
        let rest = spec_sat_sum(s.drop_last());
        if rest + s.last() > u64::MAX {
            u64::MAX
        } else {
            (rest + s.last()) as u64
        }
    }
}

/// Sum sizes, saturating at the largest representable value.
pub fn sum_saturating(v: &Vec<u64>) -> (r: u64)
    ensures
        r == spec_sat_sum(v@),
{
    let mut r: u64 = 0;
    let mut i: usize = 0;
    while i < v.len()
        invariant
            i <= v@.len(),
            r == spec_sat_sum(v@.take(i as int)),
        decreases v@.len() - i,
    {
        r = r.saturating_add(v[i]);
        i = i + 1;
        proof {
            assert(v@.take(i as int).drop_last() =~= v@.take(i - 1));
        }
    }
    proof {
        assert(v@.take(v@.len() as int) =~= v@);
    }
    r
}

/// The size of a delete target: its own length when it is a plain file, else
/// the saturating sum of the file sizes under it.
fn directory_size_bytes(dir: &String) -> u64 {
    match path_file_size(dir) {
        Option::Some(n) => n,
        Option::None => {
            let sizes = file_sizes_under(dir);
            sum_saturating(&sizes)
        },
    }
}

/// The candidate list splits at any request index.
proof fn lemma_candidate_split(s: Seq<DeleteEntry>, deps_only: bool, i: int)
    requires
        0 <= i <= s.len(),
    ensures
        candidate_list(s, deps_only) =~= candidate_list(s.take(i), deps_only) + candidate_list(
            s.skip(i),
            deps_only,
        ),
    decreases s.len(),
{
    if i == s.len() {
        assert(s.take(i) =~= s);
        assert(s.skip(i) =~= Seq::<DeleteEntry>::empty());
    } else {
        let d = s.drop_last();
        lemma_candidate_split(d, deps_only, i);
        assert(s.take(i) =~= d.take(i));
        assert(s.skip(i).drop_last() =~= d.skip(i));
        assert(s.skip(i).last() == s.last());
        assert(candidate_list(s.skip(i), deps_only) =~= candidate_list(d.skip(i), deps_only)
            + entry_candidates(s.last(), deps_only));
    }
}

/// Probe every candidate target of the requested entries: the paths come
/// back in candidate order, each with whatever the existence probe said.
#[verifier::loop_isolation(false)]
fn probe_candidates(entries: &Vec<DeleteEntry>, deps_only: bool) -> (r: Vec<(String, bool)>)
    ensures
        r@.len() == candidate_list(entries@, deps_only).len(),
        forall|i: int|
            0 <= i < r@.len() ==> r@[i].0@ == candidate_list(entries@, deps_only)[i],
{
    let ghost cands = candidate_list(entries@, deps_only);
    let mut r: Vec<(String, bool)> = Vec::new();
    let mut i: usize = 0;
    while i < entries.len()
        invariant
            i <= entries@.len(),
            cands == candidate_list(entries@, deps_only),
            r@.len() == candidate_list(entries@.take(i as int), deps_only).len(),
            candidate_list(entries@.take(i as int), deps_only).len() <= cands.len(),
            forall|k: int|
                0 <= k < r@.len() ==> r@[k].0@ == candidate_list(
                    entries@.take(i as int),
                    deps_only,
                )[k],
            forall|k: int|
                0 <= k < candidate_list(entries@.take(i as int), deps_only).len()
                    ==> candidate_list(entries@.take(i as int), deps_only)[k] == cands[k],
        decreases entries@.len() - i,
    {
        let ghost before = candidate_list(entries@.take(i as int), deps_only);
        let entry = &entries[i];
        if deps_only && !entry.is_cache {
            let mut nm = entry.path.clone();
            nm.append("/node_modules");
            let nm_exists = path_exists(&nm);
            r.push((nm, nm_exists));
            let mut ca = entry.path.clone();
            ca.append("/.cache");
            let ca_exists = path_exists(&ca);
            r.push((ca, ca_exists));
        } else {
            let own = entry.path.clone();
            let own_exists = path_exists(&own);
            r.push((own, own_exists));
        }
        i = i + 1;
        proof {
            let after = candidate_list(entries@.take(i as int), deps_only);
            assert(entries@.take(i as int).drop_last() =~= entries@.take(i - 1));
            assert(entries@.take(i as int).last() == entries@[i - 1]);
            assert(after =~= before + entry_candidates(entries@[i - 1], deps_only));
            lemma_candidate_split(entries@, deps_only, i as int);
        }
    }
    proof {
        assert(entries@.take(entries@.len() as int) =~= entries@);
    }
    r
}

/// Keep the probed candidates that exist, deduplicated by path with
/// first-seen order kept.
#[verifier::loop_isolation(false)]
pub fn select_existing(cands: &Vec<(String, bool)>) -> (r: Vec<String>)
    ensures
        r.deep_view() == spec_select(
            Seq::new(cands@.len(), |i: int| (cands@[i].0@, cands@[i].1)),
        ),
{
    let ghost model = Seq::new(cands@.len(), |i: int| (cands@[i].0@, cands@[i].1));
    let mut r: Vec<String> = Vec::new();
    let mut i: usize = 0;
    while i < cands.len()
        invariant
            i <= cands@.len(),
            model == Seq::new(cands@.len(), |k: int| (cands@[k].0@, cands@[k].1)),
            r.deep_view() == spec_select(model.take(i as int)),
        decreases cands@.len() - i,
    {
        let ghost before = r.deep_view();
        let cand = &cands[i];
        if cand.1 && !contains_string(&r, &cand.0) {
            r.push(cand.0.clone());
            proof {
                assert(r.deep_view() =~= before.push(cand.0@));
            }
        }
        i = i + 1;
        proof {
            assert(model.take(i as int).drop_last() =~= model.take(i - 1));
            assert(model.take(i as int).last() == model[i - 1]);
        }
    }
    proof {
        assert(model.take(model.len() as int) =~= model);
    }
    r
}

/// Selected targets are unique and all drawn from the candidates.
pub proof fn lemma_select_sound(cands: Seq<(Seq<char>, bool)>)
    ensures
        forall|i: int, j: int|
            0 <= i < j < spec_select(cands).len() ==> spec_select(cands)[i] != spec_select(
                cands,
            )[j],
        forall|i: int|
            0 <= i < spec_select(cands).len() ==> exists|k: int|
                0 <= k < cands.len() && (#[trigger] cands[k]).1 && cands[k].0 == #[trigger] spec_select(
                    cands,
                )[i],
    decreases cands.len(),
{
    if cands.len() > 0 {
        lemma_select_sound(cands.drop_last());
        let prev = spec_select(cands.drop_last());
        assert(forall|k: int|
            0 <= k < cands.drop_last().len() ==> cands.drop_last()[k] == cands[k]);
        if cands.last().1 && !prev.contains(cands.last().0) {
            assert(forall|i: int| 0 <= i < prev.len() ==> prev[i] != cands.last().0);
            assert(cands[cands.len() - 1].1 && cands[cands.len() - 1].0 == spec_select(
                cands,
            ).last());
        }
    }
}

/// Resolve the requested entries into existing targets: each returned path
/// is a candidate of some entry, the paths are pairwise distinct, and
/// whether a candidate was kept followed its existence probe.
pub fn collect_targets(entries: &Vec<DeleteEntry>, deps_only: bool) -> (r: Vec<String>)
    ensures
        exists|flags: Seq<(Seq<char>, bool)>|
            {
                &&& flags.len() == candidate_list(entries@, deps_only).len()
                &&& forall|i: int|
                    0 <= i < flags.len() ==> (#[trigger] flags[i]).0 == candidate_list(
                        entries@,
                        deps_only,
                    )[i]
                &&& r.deep_view() == spec_select(flags)
            },
        forall|i: int, j: int|
            0 <= i < j < r.deep_view().len() ==> r.deep_view()[i] != r.deep_view()[j],
        forall|i: int|
            0 <= i < r.deep_view().len() ==> candidate_list(entries@, deps_only).contains(
                r.deep_view()[i],
            ),
{
    let probed = probe_candidates(entries, deps_only);
    let r = select_existing(&probed);
    proof {
        let flags = Seq::new(probed@.len(), |i: int| (probed@[i].0@, probed@[i].1));
        assert(flags.len() == candidate_list(entries@, deps_only).len());
        assert(forall|i: int|
            0 <= i < flags.len() ==> (#[trigger] flags[i]).0 == candidate_list(
                entries@,
                deps_only,
            )[i]);
        assert(r.deep_view() == spec_select(flags));
        lemma_select_sound(flags);
        assert(forall|i: int|
            0 <= i < r.deep_view().len() ==> candidate_list(entries@, deps_only).contains(
                r.deep_view()[i],
            )) by {
            assert(forall|i: int|
                0 <= i < spec_select(flags).len() ==> exists|k: int|
                    0 <= k < flags.len() && (#[trigger] flags[k]).1 && flags[k].0
                        == #[trigger] spec_select(flags)[i]);
            assert forall|i: int| 0 <= i < r.deep_view().len() implies candidate_list(
                entries@,
                deps_only,
            ).contains(r.deep_view()[i]) by {
                let k = choose|k: int|
                    0 <= k < flags.len() && flags[k].1 && flags[k].0 == spec_select(flags)[i];
                assert(candidate_list(entries@, deps_only)[k] == r.deep_view()[i]);
            }
        }
    }
    r
}

/// Build a delete plan: resolve the entries into existing, deduplicated
/// targets, size each one, and total the sizes with saturating addition.
#[verifier::loop_isolation(false)]
pub fn build_delete_plan(entries: &Vec<DeleteEntry>, deps_only: bool) -> (r: DeletePlan)
    ensures
        r.total_bytes == spec_sat_sum(
            Seq::new(r.items@.len(), |i: int| r.items@[i].size_bytes),
        ),
        forall|i: int, j: int|
            0 <= i < j < r.items@.len() ==> r.items@[i].path@ != r.items@[j].path@,
        forall|i: int|
            0 <= i < r.items@.len() ==> candidate_list(entries@, deps_only).contains(
                r.items@[i].path@,
            ),
        exists|flags: Seq<(Seq<char>, bool)>|
            {
                &&& flags.len() == candidate_list(entries@, deps_only).len()
                &&& forall|i: int|
                    0 <= i < flags.len() ==> (#[trigger] flags[i]).0 == candidate_list(
                        entries@,
                        deps_only,
                    )[i]
                &&& Seq::new(r.items@.len(), |i: int| r.items@[i].path@) == spec_select(flags)
            },
{
    let targets = collect_targets(entries, deps_only);
    let mut items: Vec<DeletePlanItem> = Vec::new();
    let mut total_bytes: u64 = 0;
    let mut i: usize = 0;
    while i < targets.len()
        invariant
            i <= targets@.len(),
            items@.len() == i,
            forall|k: int| 0 <= k < i ==> items@[k].path@ == targets.deep_view()[k],
            total_bytes == spec_sat_sum(Seq::new(items@.len(), |k: int| items@[k].size_bytes)),
            forall|a: int, b: int|
                0 <= a < b < targets.deep_view().len() ==> targets.deep_view()[a]
                    != targets.deep_view()[b],
            forall|a: int|
                0 <= a < targets.deep_view().len() ==> candidate_list(
                    entries@,
                    deps_only,
                ).contains(targets.deep_view()[a]),
        decreases targets@.len() - i,
    {
        let ghost sizes_before = Seq::new(items@.len(), |k: int| items@[k].size_bytes);
        let size_bytes = directory_size_bytes(&targets[i]);
        total_bytes = total_bytes.saturating_add(size_bytes);
        items.push(DeletePlanItem { path: targets[i].clone(), size_bytes });
        i = i + 1;
        proof {
            let sizes_now = Seq::new(items@.len(), |k: int| items@[k].size_bytes);
            assert(sizes_now.drop_last() =~= sizes_before);
            assert(sizes_now.last() == size_bytes);
        }
    }
    proof {
        assert(items@.len() == targets.deep_view().len());
        let flags = choose|flags: Seq<(Seq<char>, bool)>|
            {
                &&& flags.len() == candidate_list(entries@, deps_only).len()
                &&& forall|i: int|
                    0 <= i < flags.len() ==> (#[trigger] flags[i]).0 == candidate_list(
                        entries@,
                        deps_only,
                    )[i]
                &&& targets.deep_view() == spec_select(flags)
            };
        assert(Seq::new(items@.len(), |a: int| items@[a].path@) =~= targets.deep_view());
        assert forall|a: int, b: int|
            0 <= a < b < items@.len() implies items@[a].path@ != items@[b].path@ by {
            assert(items@[a].path@ == targets.deep_view()[a]);
            assert(items@[b].path@ == targets.deep_view()[b]);
        }
        assert forall|a: int|
            0 <= a < items@.len() implies candidate_list(entries@, deps_only).contains(
            items@[a].path@,
        ) by {
            assert(items@[a].path@ == targets.deep_view()[a]);
            assert(candidate_list(entries@, deps_only).contains(targets.deep_view()[a]));
        }
    }
    DeletePlan { items, total_bytes }
}

/// With dependency-only deletion a single non-cache entry resolves to
/// exactly the existing subset of its `node_modules` and `.cache` children,
/// and never to its own root.
pub proof fn law_deps_only_plan(e: DeleteEntry, nm_exists: bool, cache_exists: bool)
    requires
        !e.is_cache,
    ensures
        ({
            let nm = e.path@ + "/node_modules"@;
            let ca = e.path@ + "/.cache"@;
            let sel = spec_select(seq![(nm, nm_exists), (ca, cache_exists)]);
            &&& (nm_exists && cache_exists) ==> sel == seq![nm, ca]
            &&& (nm_exists && !cache_exists) ==> sel == seq![nm]
            &&& (!nm_exists && cache_exists) ==> sel == seq![ca]
            &&& (!nm_exists && !cache_exists) ==> sel == Seq::<Seq<char>>::empty()
            &&& !sel.contains(e.path@)
        }),
{
    reveal_strlit("/node_modules");
    reveal_strlit("/.cache");
    let nm = e.path@ + "/node_modules"@;
    let ca = e.path@ + "/.cache"@;
    assert(nm.len() > e.path@.len());
    assert(ca.len() > e.path@.len());
    assert(nm.len() != ca.len());
    let probes = seq![(nm, nm_exists), (ca, cache_exists)];
    let first = seq![(nm, nm_exists)];
    let none = Seq::<(Seq<char>, bool)>::empty();
    assert(probes.drop_last() =~= first);
    assert(first.drop_last() =~= none);
    assert(spec_select(none) == Seq::<Seq<char>>::empty());
    assert(!Seq::<Seq<char>>::empty().contains(nm));
    let sel1 = spec_select(first);
    assert(first.last() == (nm, nm_exists));
    if nm_exists {
        assert(sel1 =~= seq![nm]);
        assert(!sel1.contains(ca)) by {
            assert(forall|i: int| 0 <= i < sel1.len() ==> sel1[i] == nm);
        }
    } else {
        assert(sel1 =~= Seq::<Seq<char>>::empty());
        assert(!sel1.contains(ca));
    }
    let sel = spec_select(probes);
    assert(spec_select(probes.drop_last()) == sel1);
    assert(probes.last() == (ca, cache_exists));
    if cache_exists {
        assert(sel =~= sel1.push(ca));
    } else {
        assert(sel == sel1);
    }
    if nm_exists && cache_exists {
        assert(sel =~= seq![nm, ca]);
    }
    if nm_exists && !cache_exists {
        assert(sel =~= seq![nm]);
    }
    if !nm_exists && cache_exists {
        assert(sel =~= seq![ca]);
    }
    if !nm_exists && !cache_exists {
        assert(sel =~= Seq::<Seq<char>>::empty());
    }
    assert(forall|i: int| 0 <= i < sel.len() ==> sel[i].len() > e.path@.len());
}

} // verus!
