//! The delete executor: dry runs that touch nothing, permanent removal, and
//! reversible quarantine moves with collision-free destination names.
//! Filesystem mutation goes through an injected mutator, so every decision
//! the executor takes is checked here.

use vstd::prelude::*;

verus! {

use vstd::seq_lib::*;
use vstd::set_lib::lemma_len_subset;
use vstd::string::{StrSliceExecFns, StringExecFns};
use crate::delete::{DeletePlan, spec_sat_sum};
use crate::text::{after_last_slash, clone_strings, contains_string, path_base_name};

/// A number written in decimal, most significant digit first.
pub open spec fn dec_of(n: nat) -> Seq<char>
    decreases n,
{
    if n < 10 {
        seq![(((n + 48) as u8) as char)]
    } else {
        dec_of(n / 10).push((((n % 10 + 48) as u8) as char))
    }
}

/// The number a digit string denotes.
pub open spec fn dec_val(s: Seq<char>) -> int
    decreases s.len(),
{
    if s.len() == 0 {
        0
    } else {
        dec_val(s.drop_last()) * 10 + (s.last() as u32) - 48
    }
}

/// Reading a decimal rendering back gives the number: rendering is
/// injective.
proof fn lemma_dec_val(n: nat)
    ensures
        dec_val(dec_of(n)) == n,
    decreases n,
{
    if n < 10 {
        assert((((n + 48) as u8) as char) as u32 == n + 48);
        assert(dec_of(n).drop_last() =~= Seq::<char>::empty());
        assert(dec_of(n).last() == (((n + 48) as u8) as char));
        assert(dec_val(dec_of(n).drop_last()) == 0);
        assert((dec_of(n).last() as u32) == n + 48);
        assert(dec_val(dec_of(n)) == n);
    } else {
        lemma_dec_val(n / 10);
        assert((((n % 10 + 48) as u8) as char) as u32 == n % 10 + 48);
        assert(dec_of(n).drop_last() =~= dec_of(n / 10));
        assert(dec_of(n).last() == (((n % 10 + 48) as u8) as char));
        assert(n / 10 * 10 + n % 10 == n);
        assert(dec_val(dec_of(n)) == n);
    }
}

proof fn lemma_dec_len_pos(n: nat)
    ensures
        dec_of(n).len() >= 1,
{
}

/// Render a number in decimal.
pub fn u64_to_dec(n: u64) -> (r: String)
    ensures
        r@ == dec_of(n as nat),
    decreases n,
{
    if n < 10 {
        let digit: char = ((48 + n as u8) as char);
        let mut r = String::new();
        crate::text::push_char(&mut r, digit);
        proof {
            assert(r@ =~= dec_of(n as nat));
        }
        r
    } else {
        let mut r = u64_to_dec(n / 10);
        let digit: char = ((48 + (n % 10) as u8) as char);
        crate::text::push_char(&mut r, digit);
        r
    }
}

/// The destination name of a quarantined item: the move's Unix second, an
/// underscore, the item's base name, and, past the first try, an underscore
/// and the try number.
pub open spec fn spec_quarantine_name(stamp: u64, name: Seq<char>, k: nat) -> Seq<char> {
    if k == 0 {
        dec_of(stamp as nat) + "_"@ + name
    } else {
        dec_of(stamp as nat) + "_"@ + name + "_"@ + dec_of(k)
    }
}

/// For one stamp and base name, distinct try numbers give distinct names.
proof fn lemma_quarantine_name_injective(stamp: u64, name: Seq<char>, k1: nat, k2: nat)
    requires
        spec_quarantine_name(stamp, name, k1) == spec_quarantine_name(stamp, name, k2),
    ensures
        k1 == k2,
{
    lemma_dec_len_pos(stamp as nat);
    lemma_dec_len_pos(k1);
    lemma_dec_len_pos(k2);
    let ds = dec_of(stamp as nat);
    if k1 == 0 && k2 != 0 {
        assert(spec_quarantine_name(stamp, name, k1).len() < spec_quarantine_name(
            stamp,
            name,
            k2,
        ).len());
    } else if k1 != 0 && k2 == 0 {
        assert(spec_quarantine_name(stamp, name, k1).len() > spec_quarantine_name(
            stamp,
            name,
            k2,
        ).len());
    } else if k1 != 0 && k2 != 0 {
        let base = ds + "_"@ + name + "_"@;
        let q1 = spec_quarantine_name(stamp, name, k1);
        let q2 = spec_quarantine_name(stamp, name, k2);
        assert(q1 =~= base + dec_of(k1));
        assert(q2 =~= base + dec_of(k2));
        assert((base + dec_of(k1)).len() == base.len() + dec_of(k1).len());
        assert((base + dec_of(k2)).len() == base.len() + dec_of(k2).len());
        assert(q1.len() == q2.len());
        assert(dec_of(k1).len() == dec_of(k2).len());
        assert(dec_of(k1) =~= q1.skip(base.len() as int));
        assert(dec_of(k2) =~= q2.skip(base.len() as int));
        lemma_dec_val(k1);
        lemma_dec_val(k2);
    }
}

/// Build the quarantine destination name for one try.
pub fn quarantine_candidate(stamp: u64, name: &String, k: u64) -> (r: String)
    ensures
        r@ == spec_quarantine_name(stamp, name@, k as nat),
{
    let mut r = u64_to_dec(stamp);
    r.append("_");
    r.append(name.as_str());
    if k > 0 {
        r.append("_");
        let tries = u64_to_dec(k);
        r.append(tries.as_str());
    }
    r
}

/// Find the first destination name that none of the taken names uses: the
/// bare stamped name when it is free, else the lowest-numbered variant that
/// is. Distinct try numbers give distinct names, so a free one always
/// exists.
pub fn free_quarantine_name(stamp: u64, name: &String, taken: &Vec<String>) -> (r: String)
    ensures
        !taken.deep_view().contains(r@),
        exists|k: nat|
            {
                &&& r@ == spec_quarantine_name(stamp, name@, k)
                &&& forall|j: nat|
                    j < k ==> taken.deep_view().contains(
                        #[trigger] spec_quarantine_name(stamp, name@, j),
                    )
            },
{
    let ghost tseq = taken.deep_view();
    let ghost tset = tseq.to_set();
    let tlen = taken.len();
    proof {
        seq_to_set_is_finite(tseq);
        tseq.lemma_cardinality_of_set();
        assert(tseq.len() == taken@.len());
    }
    let mut k: u64 = 0;
    let ghost mut tried: Set<Seq<char>> = Set::empty();
    loop
        invariant
            tseq == taken.deep_view(),
            tset == tseq.to_set(),
            tset.finite(),
            tset.len() <= tseq.len(),
            tseq.len() == tlen,
            tried.finite(),
            tried.len() == k,
            tried.subset_of(tset),
            forall|x: Seq<char>|
                tried.contains(x) ==> exists|j: nat|
                    j < k && x == spec_quarantine_name(stamp, name@, j),
            forall|j: nat|
                j < k ==> tseq.contains(#[trigger] spec_quarantine_name(stamp, name@, j)),
        decreases tseq.len() + 1 - k,
    {
        let cand = quarantine_candidate(stamp, name, k);
        if !contains_string(taken, &cand) {
            proof {
                assert(cand@ == spec_quarantine_name(stamp, name@, k as nat));
                assert(forall|j: nat|
                    j < k as nat ==> taken.deep_view().contains(
                        #[trigger] spec_quarantine_name(stamp, name@, j),
                    ));
            }
            return cand;
        }
        proof {
            assert(tseq.contains(cand@));
            assert(tset.contains(cand@));
            if tried.contains(cand@) {
                let j = choose|j: nat|
                    j < k && cand@ == spec_quarantine_name(stamp, name@, j);
                lemma_quarantine_name_injective(stamp, name@, j, k as nat);
                assert(false);
            }
            tried = tried.insert(cand@);
            lemma_len_subset(tried, tset);
        }
        k = k + 1;
    }
}

/// What the executor does to its targets.
#[derive(Debug, Clone, Copy, PartialEq, Eq, Structural)]
pub enum DeleteAction {
    Delete,
    Quarantine,
}

/// What happened to one plan item.
#[derive(Debug, Clone)]
pub enum ItemStatus {
    DryRun,
    Deleted,
    Moved,
    Missing,
    Failed(String),
}

/// The report word of a status.
pub open spec fn spec_status_text(s: ItemStatus) -> Seq<char> {
    match s {
        ItemStatus::DryRun => "dry-run"@,
        ItemStatus::Deleted => "deleted"@,
        ItemStatus::Moved => "moved"@,
        ItemStatus::Missing => "missing"@,
        ItemStatus::Failed(m) => "error: "@ + m@,
    }
}

impl ItemStatus {
    /// Render the status as its report word.
    pub fn status_text(&self) -> (r: String)
        ensures
            r@ == spec_status_text(*self),
    {
        match self {
            ItemStatus::DryRun => String::from_str("dry-run"),
            ItemStatus::Deleted => String::from_str("deleted"),
            ItemStatus::Moved => String::from_str("moved"),
            ItemStatus::Missing => String::from_str("missing"),
            ItemStatus::Failed(m) => {
                let mut r = String::from_str("error: ");
                r.append(m.as_str());
                r
            },
        }
    }
}

/// The action word a report shows for a successful removal.
pub fn know_action_status(quarantine: bool) -> (r: String)
    ensures
        quarantine ==> r@ == "moved"@,
        !quarantine ==> r@ == "deleted"@,
{
    if quarantine {
        String::from_str("moved")
    } else {
        String::from_str("deleted")
    }
}

/// The outcome of one plan item.
#[derive(Debug, Clone)]
pub struct DeleteOutcomeItem {
    pub path: String,
    pub size_bytes: u64,
    pub action: DeleteAction,
    pub status: ItemStatus,
    pub destination: Option<String>,
    pub original_path: Option<String>,
}

/// The outcome of executing a plan: how many targets went away, how many
/// bytes that reclaimed, and one outcome per plan item.
#[derive(Debug, Clone)]
pub struct DeleteOutcome {
    pub removed_count: usize,
    pub reclaimed_bytes: u64,
    pub items: Vec<DeleteOutcomeItem>,
}

/// The action taken under a quarantine flag.
pub open spec fn spec_action(quarantine: bool) -> DeleteAction {
    if quarantine {
        DeleteAction::Quarantine
    } else {
        DeleteAction::Delete
    }
}

/// An item counts toward the removal totals when its target actually went
/// away.
pub open spec fn is_counted(it: DeleteOutcomeItem) -> bool {
    it.status is Moved || it.status is Deleted
}

/// How many items count toward the removal totals.
pub open spec fn count_removed(items: Seq<DeleteOutcomeItem>) -> int
    decreases items.len(),
{
    if items.len() == 0 {
        0
    } else {
        count_removed(items.drop_last()) + if is_counted(items.last()) {
            1int
        } else {
            0int
        }
    }
}

/// The sizes of the items that count toward the removal totals, in order.
pub open spec fn counted_sizes(items: Seq<DeleteOutcomeItem>) -> Seq<u64>
    decreases items.len(),
{
    if items.len() == 0 {
        Seq::empty()
    } else {
        let rest = counted_sizes(items.drop_last());
        if is_counted(items.last()) {
            rest.push(items.last().size_bytes)
        } else {
            rest
        }
    }
}

/// The base name a quarantined target is stored under: the characters after
/// the last slash of its path, or `item` when there are none.
pub open spec fn spec_move_name(p: Seq<char>) -> Seq<char> {
    if after_last_slash(p).len() == 0 {
        "item"@
    } else {
        after_last_slash(p)
    }
}

/// The destination of a quarantined item is under the quarantine root and
/// carries the first stamped name that was free: every lower-numbered try
/// was occupied at the move.
pub open spec fn moved_destination_wf(dest: Seq<char>, root: Seq<char>, path: Seq<char>) -> bool {
    exists|stamp: u64, k: nat, occupied: Seq<Seq<char>>|
        {
            &&& dest == root + "/"@ + spec_quarantine_name(stamp, spec_move_name(path), k)
            &&& !occupied.contains(spec_quarantine_name(stamp, spec_move_name(path), k))
            &&& forall|j: nat|
                j < k ==> occupied.contains(
                    #[trigger] spec_quarantine_name(stamp, spec_move_name(path), j),
                )
        }
}

/// Report a dry run: nothing is touched, no item counts as removed, and the
/// reclaimable bytes are the plan total.
#[verifier::loop_isolation(false)]
pub fn execute_dry_run(plan: &DeletePlan, quarantine: bool) -> (r: DeleteOutcome)
    ensures
        r.removed_count == 0,
        r.reclaimed_bytes == plan.total_bytes,
        r.items@.len() == plan.items@.len(),
        forall|i: int|
            0 <= i < r.items@.len() ==> {
                let it = #[trigger] r.items@[i];
                &&& it.path@ == plan.items@[i].path@
                &&& it.size_bytes == plan.items@[i].size_bytes
                &&& it.action == spec_action(quarantine)
                &&& it.status is DryRun
                &&& it.destination is None
                &&& it.original_path is None
            },
{
    let action = if quarantine {
        DeleteAction::Quarantine
    } else {
        DeleteAction::Delete
    };
    let mut items: Vec<DeleteOutcomeItem> = Vec::new();
    let mut i: usize = 0;
    while i < plan.items.len()
        invariant
            i <= plan.items@.len(),
            items@.len() == i,
            forall|k: int|
                0 <= k < i ==> {
                    let it = #[trigger] items@[k];
                    &&& it.path@ == plan.items@[k].path@
                    &&& it.size_bytes == plan.items@[k].size_bytes
                    &&& it.action == spec_action(quarantine)
                    &&& it.status is DryRun
                    &&& it.destination is None
                    &&& it.original_path is None
                },
        decreases plan.items@.len() - i,
    {
        items.push(
            DeleteOutcomeItem {
                path: plan.items[i].path.clone(),
                size_bytes: plan.items[i].size_bytes,
                action,
                status: ItemStatus::DryRun,
                destination: Option::None,
                original_path: Option::None,
            },
        );
        i = i + 1;
    }
    DeleteOutcome { removed_count: 0, reclaimed_bytes: plan.total_bytes, items }
}

/// The filesystem operations the executor needs. The program around the
/// library implements them over the real filesystem; a test may hand in a
/// fake one. Nothing is assumed of any implementation: every guarantee below
/// holds whatever these calls return.
pub trait FsMutator {
    /// Whether the path currently names an existing filesystem object.
    fn target_exists(&mut self, path: &String) -> bool;

    /// The entry names currently inside a directory.
    fn list_names(&mut self, dir: &String) -> Vec<String>;

    /// The current time in whole seconds since the Unix epoch.
    fn now_unix_secs(&mut self) -> u64;

    /// Move `from` to `to`; an error message on failure.
    fn rename(&mut self, from: &String, to: &String) -> Result<(), String>;

    /// Remove the file, or the whole tree, at the path.
    fn remove(&mut self, path: &String) -> Result<(), String>;
}

/// Execute a plan item by item, in order and independently. A dry run
/// reports every item as `dry-run` and touches nothing. Otherwise a missing
/// target is reported as `missing`; under quarantine each target is moved to
/// a collision-free destination under the quarantine root (no two moved
/// items ever share one); without it each target is removed. A failure on
/// one item never stops the later ones. Exactly the moved and deleted items
/// count toward the totals.
#[verifier::loop_isolation(false)]
pub fn execute_plan<M: FsMutator>(
    plan: &DeletePlan,
    dry_run: bool,
    quarantine: bool,
    quarantine_root: &String,
    fs: &mut M,
) -> (r: DeleteOutcome)
    ensures
        r.items@.len() == plan.items@.len(),
        forall|i: int|
            0 <= i < r.items@.len() ==> {
                let it = #[trigger] r.items@[i];
                &&& it.path@ == plan.items@[i].path@
                &&& it.size_bytes == plan.items@[i].size_bytes
                &&& it.action == spec_action(quarantine)
                &&& (it.status is DryRun <==> dry_run)
                &&& (it.status is Moved ==> quarantine && it.destination is Some
                    && it.original_path is Some && it.original_path->0@ == it.path@
                    && moved_destination_wf(it.destination->0@, quarantine_root@, it.path@))
                &&& (it.status is Deleted ==> !quarantine)
                &&& (!(it.status is Moved) ==> it.destination is None
                    && it.original_path is None)
            },
        dry_run ==> r.removed_count == 0 && r.reclaimed_bytes == plan.total_bytes,
        !dry_run ==> r.removed_count == count_removed(r.items@),
        !dry_run ==> r.reclaimed_bytes == spec_sat_sum(counted_sizes(r.items@)),
        forall|i: int, j: int|
            0 <= i < j < r.items@.len() && (#[trigger] r.items@[i]).status is Moved && (
            #[trigger] r.items@[j]).status is Moved ==> r.items@[i].destination->0@
                != r.items@[j].destination->0@,
{
    if dry_run {
        let r = execute_dry_run(plan, quarantine);
        return r;
    }
    let action = if quarantine {
        DeleteAction::Quarantine
    } else {
        DeleteAction::Delete
    };
    let mut items: Vec<DeleteOutcomeItem> = Vec::new();
    let mut removed_count: usize = 0;
    let mut reclaimed_bytes: u64 = 0;
    let mut used: Vec<String> = Vec::new();
    let mut i: usize = 0;
    while i < plan.items.len()
        invariant
            i <= plan.items@.len(),
            items@.len() == i,
            removed_count <= i,
            removed_count == count_removed(items@),
            reclaimed_bytes == spec_sat_sum(counted_sizes(items@)),
            forall|k: int|
                0 <= k < i ==> {
                    let it = #[trigger] items@[k];
                    &&& it.path@ == plan.items@[k].path@
                    &&& it.size_bytes == plan.items@[k].size_bytes
                    &&& it.action == spec_action(quarantine)
                    &&& !(it.status is DryRun)
                    &&& (it.status is Moved ==> quarantine && it.destination is Some
                        && it.original_path is Some && it.original_path->0@ == it.path@
                        && moved_destination_wf(it.destination->0@, quarantine_root@, it.path@))
                    &&& (it.status is Deleted ==> !quarantine)
                    &&& (!(it.status is Moved) ==> it.destination is None
                        && it.original_path is None)
                },
            forall|k: int|
                0 <= k < i && (#[trigger] items@[k]).status is Moved ==> exists|u: int|
                    0 <= u < used.deep_view().len() && items@[k].destination->0@
                        == quarantine_root@ + "/"@ + used.deep_view()[u],
            forall|a: int, b: int|
                0 <= a < b < i && (#[trigger] items@[a]).status is Moved && (
                #[trigger] items@[b]).status is Moved ==> items@[a].destination->0@
                    != items@[b].destination->0@,
        decreases plan.items@.len() - i,
    {
        let ghost items_before = items@;
        let ghost used_entry = used.deep_view();
        let path = plan.items[i].path.clone();
        let size_bytes = plan.items[i].size_bytes;
        if !fs.target_exists(&path) {
            items.push(
                DeleteOutcomeItem {
                    path,
                    size_bytes,
                    action,
                    status: ItemStatus::Missing,
                    destination: Option::None,
                    original_path: Option::None,
                },
            );
            proof {
                assert(items@.drop_last() =~= items_before);
                assert(counted_sizes(items@) =~= counted_sizes(items_before));
            }
        } else if quarantine {
            let stamp = fs.now_unix_secs();
            let listed = fs.list_names(quarantine_root);
            let mut taken = clone_strings(&listed);
            let mut j: usize = 0;
            while j < used.len()
                invariant
                    j <= used@.len(),
                    taken@ == listed@ + used@.take(j as int),
                decreases used@.len() - j,
            {
                taken.push(used[j].clone());
                proof {
                    assert(taken@ =~= listed@ + used@.take(j + 1));
                }
                j = j + 1;
            }
            proof {
                assert(used@.take(used@.len() as int) =~= used@);
            }
            let base = path_base_name(&path);
            let name = if base.unicode_len() == 0 {
                String::from_str("item")
            } else {
                base
            };
            proof {
                assert(name@ == spec_move_name(path@));
            }
            let dest_name = free_quarantine_name(stamp, &name, &taken);
            let mut destination = quarantine_root.clone();
            destination.append("/");
            destination.append(dest_name.as_str());
            proof {
                assert(destination@ == quarantine_root@ + "/"@ + dest_name@);
                assert(forall|u: int|
                    0 <= u < used_entry.len() ==> taken.deep_view()[listed@.len() + u]
                        == used_entry[u]);
                assert(forall|u: int| 0 <= u < used_entry.len() ==> used_entry[u] != dest_name@);
            }
            match fs.rename(&path, &destination) {
                Result::Ok(_) => {
                    let original_path = path.clone();
                    items.push(
                        DeleteOutcomeItem {
                            path,
                            size_bytes,
                            action,
                            status: ItemStatus::Moved,
                            destination: Option::Some(destination),
                            original_path: Option::Some(original_path),
                        },
                    );
                    removed_count = removed_count + 1;
                    reclaimed_bytes = reclaimed_bytes.saturating_add(size_bytes);
                    used.push(dest_name);
                    proof {
                        let p = quarantine_root@ + "/"@;
                        let kk = choose|kk: nat|
                            {
                                &&& dest_name@ == spec_quarantine_name(stamp, name@, kk)
                                &&& forall|j: nat|
                                    j < kk ==> taken.deep_view().contains(
                                        #[trigger] spec_quarantine_name(stamp, name@, j),
                                    )
                            };
                        assert(moved_destination_wf(destination@, quarantine_root@, path@)) by {
                            assert(name@ == spec_move_name(path@));
                            assert(destination@ == quarantine_root@ + "/"@
                                + spec_quarantine_name(stamp, spec_move_name(path@), kk));
                            assert(!taken.deep_view().contains(
                                spec_quarantine_name(stamp, spec_move_name(path@), kk),
                            ));
                            assert(forall|j: nat|
                                j < kk ==> taken.deep_view().contains(
                                    #[trigger] spec_quarantine_name(
                                        stamp,
                                        spec_move_name(path@),
                                        j,
                                    ),
                                ));
                        }
                        assert(items@.last().destination->0@ == destination@);
                        assert(items@.last().path@ == path@);
                        assert(used.deep_view() =~= used_entry.push(dest_name@));
                        assert(items@.drop_last() =~= items_before);
                        assert(counted_sizes(items@) =~= counted_sizes(items_before).push(
                            size_bytes,
                        ));
                        assert(counted_sizes(items@).drop_last() =~= counted_sizes(
                            items_before,
                        ));
                        assert(counted_sizes(items@).last() == size_bytes);
                        assert forall|k: int|
                            0 <= k < items@.len() && (#[trigger] items@[k]).status is Moved
                            implies exists|u: int|
                            0 <= u < used.deep_view().len() && items@[k].destination->0@ == p
                                + used.deep_view()[u] by {
                            if k < items@.len() - 1 {
                                assert(items@[k] == items_before[k]);
                                let u = choose|u: int|
                                    0 <= u < used_entry.len() && items_before[
                                        k
                                    ].destination->0@ == p + used_entry[u];
                                assert(used.deep_view()[u] == used_entry[u]);
                                assert(0 <= u < used.deep_view().len() && items@[
                                    k
                                ].destination->0@ == p + used.deep_view()[u]);
                            } else {
                                let last_u = used.deep_view().len() - 1;
                                assert(used.deep_view()[last_u] == dest_name@);
                                assert(items@[k].destination->0@ == p + used.deep_view()[
                                    last_u
                                ]);
                            }
                        }
                        assert forall|a: int, b: int|
                            0 <= a < b < items@.len() && (#[trigger] items@[a]).status is Moved
                                && (#[trigger] items@[b]).status is Moved implies items@[
                            a
                        ].destination->0@ != items@[b].destination->0@ by {
                            if b == items@.len() - 1 {
                                assert(items@[a] == items_before[a]);
                                let u = choose|u: int|
                                    0 <= u < used_entry.len() && items_before[
                                        a
                                    ].destination->0@ == p + used_entry[u];
                                if items@[a].destination->0@ == items@[b].destination->0@ {
                                    assert((p + used_entry[u]).skip(p.len() as int)
                                        =~= used_entry[u]);
                                    assert((p + dest_name@).skip(p.len() as int)
                                        =~= dest_name@);
                                    assert(used_entry[u] == dest_name@);
                                    assert(false);
                                }
                            }
                        }
                    }
                },
                Result::Err(message) => {
                    items.push(
                        DeleteOutcomeItem {
                            path,
                            size_bytes,
                            action,
                            status: ItemStatus::Failed(message),
                            destination: Option::None,
                            original_path: Option::None,
                        },
                    );
                    proof {
                        assert(items@.drop_last() =~= items_before);
                        assert(counted_sizes(items@) =~= counted_sizes(items_before));
                    }
                },
            }
        } else {
            match fs.remove(&path) {
                Result::Ok(_) => {
                    items.push(
                        DeleteOutcomeItem {
                            path,
                            size_bytes,
                            action,
                            status: ItemStatus::Deleted,
                            destination: Option::None,
                            original_path: Option::None,
                        },
                    );
                    removed_count = removed_count + 1;
                    reclaimed_bytes = reclaimed_bytes.saturating_add(size_bytes);
                    proof {
                        assert(items@.drop_last() =~= items_before);
                        assert(counted_sizes(items@) =~= counted_sizes(items_before).push(
                            size_bytes,
                        ));
                        assert(counted_sizes(items@).drop_last() =~= counted_sizes(
                            items_before,
                        ));
                        assert(counted_sizes(items@).last() == size_bytes);
                    }
                },
                Result::Err(message) => {
                    items.push(
                        DeleteOutcomeItem {
                            path,
                            size_bytes,
                            action,
                            status: ItemStatus::Failed(message),
                            destination: Option::None,
                            original_path: Option::None,
                        },
                    );
                    proof {
                        assert(items@.drop_last() =~= items_before);
                        assert(counted_sizes(items@) =~= counted_sizes(items_before));
                    }
                },
            }
        }
        i = i + 1;
    }
    DeleteOutcome { removed_count, reclaimed_bytes, items }
}

} // verus!
