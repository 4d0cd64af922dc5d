use vstd::prelude::*;
use crate::text::chars_of;
use crate::path_parts::{file_name_of, path_components, path_components_spec, components_view, NORMAL};

verus! {

/// Whether the `persist_index`-th persist checks the cache budget: every
/// persist when `enforce_every` is at most 1, else every `enforce_every`-th.
pub open spec fn enforce_on_index(persist_index: u64, enforce_every: u64) -> bool {
    enforce_every <= 1 || persist_index % enforce_every == 0
}

/// Whether the `persist_index`-th persist checks the cache budget.
pub fn should_enforce_cache_size_budget_for_persist_index(persist_index: u64, enforce_every: u64) -> (b:
    bool)
    ensures
        b == enforce_on_index(persist_index, enforce_every),
{
    if enforce_every <= 1 {
        return true;
    }
    persist_index % enforce_every == 0
}

/// The budget gate: on the chosen persists, and no sooner than
/// `min_interval_ms` after the last enforcement; with no enforcement on
/// record yet (`last_enforced_ms` 0) a positive interval holds it back.
pub open spec fn enforce_for_state(
    persist_index: u64,
    enforce_every: u64,
    now_ms: u64,
    last_enforced_ms: u64,
    min_interval_ms: u64,
) -> bool {
    if !enforce_on_index(persist_index, enforce_every) {
        false
    } else if min_interval_ms == 0 {
        true
    } else if last_enforced_ms == 0 {
        false
    } else {
        (if now_ms >= last_enforced_ms {
            now_ms - last_enforced_ms
        } else {
            0
        }) >= min_interval_ms
    }
}

/// Whether a persist in the given state checks the cache budget.
pub fn should_enforce_cache_size_budget_for_state(
    persist_index: u64,
    enforce_every: u64,
    now_ms: u64,
    last_enforced_ms: u64,
    min_interval_ms: u64,
) -> (b: bool)
    ensures
        b == enforce_for_state(
            persist_index,
            enforce_every,
            now_ms,
            last_enforced_ms,
            min_interval_ms,
        ),
{
    if !should_enforce_cache_size_budget_for_persist_index(persist_index, enforce_every) {
        return false;
    }
    if min_interval_ms == 0 {
        return true;
    }
    if last_enforced_ms == 0 {
        return false;
    }
    now_ms.saturating_sub(last_enforced_ms) >= min_interval_ms
}

/// The process-wide record behind the cache budget gate: how many persists
/// there were, and when the budget was last enforced (0: never).
pub struct CacheBudgetGate {
    pub persist_count: u64,
    pub last_enforced_ms: u64,
}

/// Counts a persist and decides whether it enforces the cache budget. A
/// persist that the interval holds back while nothing is on record starts
/// the interval; an enforcing persist records its time.
pub fn should_enforce_cache_size_budget_now(
    gate: &mut CacheBudgetGate,
    enforce_every: u64,
    min_interval_ms: u64,
    now_ms: u64,
) -> (b: bool)
    ensures
        ({
            let index = if old(gate).persist_count == u64::MAX {
                0u64
            } else {
                (old(gate).persist_count + 1) as u64
            };
            &&& final(gate).persist_count == index
            &&& b == (enforce_on_index(index, enforce_every) && (min_interval_ms == 0
                || enforce_for_state(
                index,
                enforce_every,
                now_ms,
                old(gate).last_enforced_ms,
                min_interval_ms,
            )))
            &&& final(gate).last_enforced_ms == (if enforce_on_index(index, enforce_every)
                && min_interval_ms != 0 && (b || old(gate).last_enforced_ms == 0) {
                now_ms
            } else {
                old(gate).last_enforced_ms
            })
        }),
{
    gate.persist_count = gate.persist_count.wrapping_add(1);
    let persist_index = gate.persist_count;
    if !should_enforce_cache_size_budget_for_persist_index(persist_index, enforce_every) {
        return false;
    }
    if min_interval_ms == 0 {
        return true;
    }
    let last = gate.last_enforced_ms;
    if !should_enforce_cache_size_budget_for_state(
        persist_index,
        enforce_every,
        now_ms,
        last,
        min_interval_ms,
    ) {
        if last == 0 {
            gate.last_enforced_ms = now_ms;
        }
        return false;
    }
    gate.last_enforced_ms = now_ms;
    true
}

/// Whether cache usage is worth a warning: over nine tenths of the budget
/// (the product saturating).
pub fn cache_usage_is_high(total: u64, budget: u64) -> (b: bool)
    ensures
        b == (total > (if budget as int * 9 > u64::MAX {
            u64::MAX as int
        } else {
            budget as int * 9
        }) / 10),
{
    let product: u64 = if budget > u64::MAX / 9 {
        u64::MAX
    } else {
        budget * 9
    };
    total > product / 10
}

/// A file in the build cache that eviction may delete.
pub struct CacheFileInfo {
    pub path: String,
    pub size: u64,
    pub modified_ms: u64,
    pub is_object: bool,
}

/// Whether path character `x` sorts before a different character `y`: `/`
/// before every other character, the rest by code point, so that for paths
/// without empty or `.` components character order is the order of paths
/// compared component by component.
pub open spec fn path_char_before(x: char, y: char) -> bool {
    if x == '/' {
        true
    } else if y == '/' {
        false
    } else {
        (x as int) < (y as int)
    }
}

/// Whether path `a` sorts strictly before path `b`.
pub open spec fn path_lt(a: Seq<char>, b: Seq<char>) -> bool
    decreases a.len(),
{
    if b.len() == 0 {
        false
    } else if a.len() == 0 {
        true
    } else if a[0] != b[0] {
        path_char_before(a[0], b[0])
    } else {
        path_lt(a.drop_first(), b.drop_first())
    }
}

pub proof fn lemma_path_lt_asymmetric(a: Seq<char>, b: Seq<char>)
    ensures
        path_lt(a, b) ==> !path_lt(b, a),
    decreases a.len(),
{
    if a.len() > 0 && b.len() > 0 && a[0] == b[0] {
        lemma_path_lt_asymmetric(a.drop_first(), b.drop_first());
    }
}

/// Whether file `a` is evicted before file `b`: content objects first,
/// then older modification times, then by path.
pub open spec fn evicts_before(a: (bool, u64, Seq<char>), b: (bool, u64, Seq<char>)) -> bool {
    if a.0 != b.0 {
        a.0
    } else if a.1 != b.1 {
        a.1 < b.1
    } else {
        path_lt(a.2, b.2)
    }
}

/// The eviction priority: content objects go before other cache files;
/// among files of one kind the older goes first; no file goes before
/// itself, and of two files at most one goes before the other.
pub proof fn lemma_eviction_priority(a: (bool, u64, Seq<char>), b: (bool, u64, Seq<char>))
    ensures
        a.0 && !b.0 ==> evicts_before(a, b) && !evicts_before(b, a),
        a.0 == b.0 && a.1 < b.1 ==> evicts_before(a, b) && !evicts_before(b, a),
        !evicts_before(a, a),
        evicts_before(a, b) ==> !evicts_before(b, a),
{
    lemma_path_lt_asymmetric(a.2, b.2);
    lemma_path_lt_asymmetric(a.2, a.2);
}

pub open spec fn eviction_key(f: CacheFileInfo) -> (bool, u64, Seq<char>) {
    (f.is_object, f.modified_ms, f.path@)
}

proof fn lemma_evicts_before_asymmetric(a: (bool, u64, Seq<char>), b: (bool, u64, Seq<char>))
    ensures
        evicts_before(a, b) ==> !evicts_before(b, a),
{
    lemma_path_lt_asymmetric(a.2, b.2);
}

pub fn path_lt_exec(a: &Vec<char>, b: &Vec<char>) -> (r: bool)
    ensures
        r == path_lt(a@, b@),
{
    let mut i: usize = 0;
    assert(a@.skip(0) =~= a@);
    assert(b@.skip(0) =~= b@);
    while i < a.len() && i < b.len() && a[i] == b[i]
        invariant
            i <= a@.len(),
            i <= b@.len(),
            path_lt(a@, b@) == path_lt(a@.skip(i as int), b@.skip(i as int)),
        decreases a@.len() - i,
    {
        assert(a@.skip(i as int).drop_first() =~= a@.skip(i + 1));
        assert(b@.skip(i as int).drop_first() =~= b@.skip(i + 1));
        i = i + 1;
    }
    if i == b.len() {
        return false;
    }
    if i == a.len() {
        return true;
    }
    assert(a@.skip(i as int)[0] == a@[i as int]);
    assert(b@.skip(i as int)[0] == b@[i as int]);
    assert(a@[i as int] != b@[i as int]);
    if a[i] == '/' {
        return true;
    }
    if b[i] == '/' {
        return false;
    }
    let x = a[i];
    let y = b[i];
    let r = x < y;
    assert(r == ((x as int) < (y as int)));
    assert(path_lt(a@.skip(i as int), b@.skip(i as int)) == path_char_before(x, y));
    r
}

fn evicts_before_exec(
    files: &Vec<CacheFileInfo>,
    paths: &Vec<Vec<char>>,
    x: usize,
    y: usize,
) -> (r: bool)
    requires
        x < files@.len(),
        y < files@.len(),
        paths@.len() == files@.len(),
        forall|k: int| 0 <= k < files@.len() ==> (#[trigger] paths@[k])@ == files@[k].path@,
    ensures
        r == evicts_before(eviction_key(files@[x as int]), eviction_key(files@[y as int])),
{
    let a = &files[x];
    let b = &files[y];
    if a.is_object != b.is_object {
        return a.is_object;
    }
    if a.modified_ms != b.modified_ms {
        return a.modified_ms < b.modified_ms;
    }
    path_lt_exec(&paths[x], &paths[y])
}

/// The order in which the budget evicts cache files: all of them, each
/// once, content objects first, then oldest first, then by path.
pub fn cache_eviction_order(files: &Vec<CacheFileInfo>) -> (order: Vec<usize>)
    ensures
        order@.len() == files@.len(),
        forall|j: int| 0 <= j < order@.len() ==> #[trigger] order@[j] < files@.len(),
        forall|a: int, b: int|
            0 <= a < b < order@.len() ==> #[trigger] order@[a] != #[trigger] order@[b],
        forall|j: int|
            0 <= j && j + 1 < order@.len() ==> !evicts_before(
                eviction_key(files@[order@[j + 1] as int]),
                eviction_key(files@[#[trigger] order@[j] as int]),
            ),
{
    let mut paths: Vec<Vec<char>> = Vec::new();
    let mut k: usize = 0;
    while k < files.len()
        invariant
            k <= files@.len(),
            paths@.len() == k,
            forall|q: int| 0 <= q < k ==> (#[trigger] paths@[q])@ == files@[q].path@,
        decreases files@.len() - k,
    {
        paths.push(chars_of(files[k].path.as_str()));
        k = k + 1;
    }
    let mut order: Vec<usize> = Vec::new();
    let mut i: usize = 0;
    while i < files.len()
        invariant
            i <= files@.len(),
            paths@.len() == files@.len(),
            forall|q: int| 0 <= q < files@.len() ==> (#[trigger] paths@[q])@ == files@[q].path@,
            order@.len() == i,
            forall|j: int| 0 <= j < order@.len() ==> #[trigger] order@[j] < i,
            forall|a: int, b: int|
                0 <= a < b < order@.len() ==> #[trigger] order@[a] != #[trigger] order@[b],
            forall|j: int|
                0 <= j && j + 1 < order@.len() ==> !evicts_before(
                    eviction_key(files@[order@[j + 1] as int]),
                    eviction_key(files@[#[trigger] order@[j] as int]),
                ),
        decreases files@.len() - i,
    {
        let mut p = order.len();
        while p > 0 && evicts_before_exec(files, &paths, i, order[p - 1])
            invariant
                p <= order@.len(),
                i < files@.len(),
                paths@.len() == files@.len(),
                forall|q: int| 0 <= q < files@.len() ==> (#[trigger] paths@[q])@ == files@[q].path@,
                forall|j: int| 0 <= j < order@.len() ==> #[trigger] order@[j] < i,
                forall|j: int|
                    p <= j < order@.len() ==> evicts_before(
                        eviction_key(files@[i as int]),
                        eviction_key(files@[#[trigger] order@[j] as int]),
                    ),
            decreases p,
        {
            p = p - 1;
        }
        let ghost old_order = order@;
        order.insert(p, i);
        proof {
            let x = eviction_key(files@[i as int]);
            assert forall|j: int|
                0 <= j && j + 1 < order@.len() implies !evicts_before(
                eviction_key(files@[order@[j + 1] as int]),
                eviction_key(files@[#[trigger] order@[j] as int]),
            ) by {
                if j + 1 < p {
                    assert(order@[j] == old_order[j]);
                    assert(order@[j + 1] == old_order[j + 1]);
                } else if j + 1 == p {
                    assert(order@[j] == old_order[j]);
                } else if j == p {
                    assert(order@[j + 1] == old_order[j]);
                    lemma_evicts_before_asymmetric(x, eviction_key(files@[old_order[j] as int]));
                } else {
                    assert(order@[j] == old_order[j - 1]);
                    assert(order@[j + 1] == old_order[j]);
                }
            }
            assert forall|a: int, b: int|
                0 <= a < b < order@.len() implies #[trigger] order@[a] != #[trigger] order@[b] by {
                if a != p && b != p {
                    let a0 = if a < p {
                        a
                    } else {
                        a - 1
                    };
                    let b0 = if b < p {
                        b
                    } else {
                        b - 1
                    };
                    assert(order@[a] == old_order[a0]);
                    assert(order@[b] == old_order[b0]);
                } else if a == p {
                    assert(order@[b] == old_order[b - 1]);
                } else {
                    assert(order@[a] == old_order[a]);
                }
            }
            assert forall|j: int| 0 <= j < order@.len() implies #[trigger] order@[j] < i + 1 by {
                if j < p {
                    assert(order@[j] == old_order[j]);
                } else if j > p {
                    assert(order@[j] == old_order[j - 1]);
                }
            }
        }
        i = i + 1;
    }
    order
}

/// What deleting a cache file came to.
#[derive(Clone, Copy, Debug, PartialEq, Eq, Structural)]
pub enum RemovalOutcome {
    Removed,
    NotFound,
    Failed,
}

/// The cache total and the removed bytes after one eviction attempt of a
/// file of `size` bytes: a removed file leaves both totals, a file already
/// gone leaves only the cache total, a failure changes neither (saturating).
pub fn apply_cache_eviction_outcome(total: u64, removed: u64, size: u64, outcome: RemovalOutcome) -> (r:
    (u64, u64))
    ensures
        r == (match outcome {
            RemovalOutcome::Removed => (
                (if total >= size {
                    total - size
                } else {
                    0
                }) as u64,
                (if removed as int + size as int > u64::MAX {
                    u64::MAX as int
                } else {
                    removed + size
                }) as u64,
            ),
            RemovalOutcome::NotFound => ((if total >= size {
                total - size
            } else {
                0
            }) as u64, removed),
            RemovalOutcome::Failed => (total, removed),
        }),
{
    match outcome {
        RemovalOutcome::Removed => (total.saturating_sub(size), removed.saturating_add(size)),
        RemovalOutcome::NotFound => (total.saturating_sub(size), removed),
        RemovalOutcome::Failed => (total, removed),
    }
}

/// The sizes of `files` summed, saturating at `u64::MAX`.
pub open spec fn files_total(files: Seq<CacheFileInfo>) -> u64
    decreases files.len(),
{
    if files.len() == 0 {
        0
    } else {
        let t = files_total(files.drop_last());
        if t as int + files.last().size as int > u64::MAX {
            u64::MAX
        } else {
            (t + files.last().size) as u64
        }
    }
}

/// How the cache budget is to be enforced over the removable cache files:
/// their total size, whether it is over a (non-zero) budget, and then the
/// order in which to delete files until it no longer is.
pub struct CacheBudgetPlan {
    pub total: u64,
    pub over_budget: bool,
    pub order: Vec<usize>,
}

/// Plans the enforcement of the cache size budget: a zero budget disables
/// it; within budget nothing is deleted; over budget every file is listed in
/// eviction order (content objects first, oldest first, then by path).
pub fn enforce_cache_size_budget(files: &Vec<CacheFileInfo>, budget: u64) -> (plan: CacheBudgetPlan)
    ensures
        plan.total == files_total(files@),
        plan.over_budget == (budget != 0 && plan.total > budget),
        !plan.over_budget ==> plan.order@.len() == 0,
        plan.over_budget ==> {
            &&& plan.order@.len() == files@.len()
            &&& forall|j: int| 0 <= j < plan.order@.len() ==> #[trigger] plan.order@[j] < files@.len()
            &&& forall|a: int, b: int|
                0 <= a < b < plan.order@.len() ==> #[trigger] plan.order@[a]
                    != #[trigger] plan.order@[b]
            &&& forall|j: int|
                0 <= j && j + 1 < plan.order@.len() ==> !evicts_before(
                    eviction_key(files@[plan.order@[j + 1] as int]),
                    eviction_key(files@[#[trigger] plan.order@[j] as int]),
                )
        },
{
    let mut total: u64 = 0;
    let mut i: usize = 0;
    while i < files.len()
        invariant
            i <= files@.len(),
            total == files_total(files@.take(i as int)),
        decreases files@.len() - i,
    {
        assert(files@.take(i + 1).drop_last() =~= files@.take(i as int));
        total = total.saturating_add(files[i].size);
        i = i + 1;
    }
    assert(files@.take(i as int) =~= files@);
    if budget == 0 || total <= budget {
        return CacheBudgetPlan { total, over_budget: false, order: Vec::new() };
    }
    CacheBudgetPlan { total, over_budget: true, order: cache_eviction_order(files) }
}

/// The deletion loop of budget enforcement, one step at a time: the file
/// to delete as the `step`-th, in the plan's order, while the remaining
/// total (after `apply_cache_eviction_outcome` of the earlier steps) is
/// still over the budget; none once it is within the budget or every file
/// was tried.
pub fn next_cache_eviction(plan: &CacheBudgetPlan, step: usize, remaining_total: u64, budget: u64) -> (r:
    Option<usize>)
    ensures
        r == (if remaining_total > budget && step < plan.order@.len() {
            Some(plan.order@[step as int])
        } else {
            None::<usize>
        }),
{
    if remaining_total > budget && step < plan.order.len() {
        Some(plan.order[step])
    } else {
        None
    }
}

/// Whether budget enforcement may delete the file at `path`: its file
/// name is not the cache lock `.lock`.
pub open spec fn removable_path(path: Seq<char>) -> bool {
    match file_name_of(path_components_spec(path)) {
        Some(n) => n != ".lock"@,
        None => false,
    }
}

/// Whether budget enforcement may delete the file at `path`.
pub fn is_removable_cache_path(path: &str) -> (b: bool)
    ensures
        b == removable_path(path@),
{
    let cs = path_components(path);
    proof {
        assert(components_view(cs@).len() == cs@.len());
        if cs@.len() > 0 {
            assert(components_view(cs@).last() == (cs@.last().0, cs@.last().1@));
        }
    }
    if cs.len() > 0 && cs[cs.len() - 1].0 == NORMAL {
        !crate::text::str_eq(cs[cs.len() - 1].1.as_str(), ".lock")
    } else {
        false
    }
}

/// The cache files that budget enforcement may delete: every file but the
/// cache lock, in order.
pub fn removable_cache_files(files: Vec<CacheFileInfo>) -> (r: Vec<CacheFileInfo>)
    ensures
        r@ == files@.filter(|f: CacheFileInfo| removable_path(f.path@)),
{
    let ghost orig = files@;
    let ghost pred = |f: CacheFileInfo| removable_path(f.path@);
    let mut rest = files;
    let mut out: Vec<CacheFileInfo> = Vec::new();
    let ghost mut k: int = 0;
    assert(orig.take(0).filter(pred) =~= Seq::<CacheFileInfo>::empty()) by {
        assert(orig.take(0) =~= Seq::<CacheFileInfo>::empty());
        reveal(Seq::filter);
    }
    assert(orig.skip(0) =~= orig);
    while rest.len() > 0
        invariant
            0 <= k <= orig.len(),
            rest@ == orig.skip(k),
            out@ == orig.take(k).filter(pred),
            pred == |f: CacheFileInfo| removable_path(f.path@),
        decreases rest@.len(),
    {
        let f = rest.remove(0);
        proof {
            assert(f == orig[k]);
            assert(orig.take(k + 1) =~= orig.take(k).push(orig[k]));
            orig.take(k).lemma_filter_push(orig[k], pred);
            assert(rest@ =~= orig.skip(k + 1));
        }
        if is_removable_cache_path(f.path.as_str()) {
            out.push(f);
        }
        proof {
            k = k + 1;
        }
    }
    assert(orig.take(k) =~= orig);
    out
}

/// The cache total left after deleting the first `k` files of `order`
/// (each deletion taking its size off, saturating at zero).
pub open spec fn remaining_after(total: u64, files: Seq<CacheFileInfo>, order: Seq<usize>, k: int) -> u64
    decreases k,
{
    if k <= 0 {
        total
    } else {
        let t = remaining_after(total, files, order, k - 1);
        let size = files[order[k - 1] as int].size;
        if t >= size {
            (t - size) as u64
        } else {
            0
        }
    }
}

/// How many files of the plan enforcement deletes when every deletion
/// succeeds: it goes on while the remaining total is over the budget and
/// stops as soon as it is within it (or the files run out).
pub fn cache_eviction_stop(files: &Vec<CacheFileInfo>, plan: &CacheBudgetPlan, budget: u64) -> (k: usize)
    requires
        forall|j: int| 0 <= j < plan.order@.len() ==> #[trigger] plan.order@[j] < files@.len(),
    ensures
        k <= plan.order@.len(),
        forall|j: int| 0 <= j < k ==> remaining_after(plan.total, files@, plan.order@, j) > budget,
        k < plan.order@.len() ==> remaining_after(plan.total, files@, plan.order@, k as int) <= budget,
{
    let mut total = plan.total;
    let mut k: usize = 0;
    while k < plan.order.len()
        invariant
            k <= plan.order@.len(),
            forall|j: int| 0 <= j < plan.order@.len() ==> #[trigger] plan.order@[j] < files@.len(),
            total == remaining_after(plan.total, files@, plan.order@, k as int),
            forall|j: int| 0 <= j < k ==> remaining_after(plan.total, files@, plan.order@, j) > budget,
        ensures
            k <= plan.order@.len(),
            forall|j: int| 0 <= j < k ==> remaining_after(plan.total, files@, plan.order@, j) > budget,
            k < plan.order@.len() ==> remaining_after(plan.total, files@, plan.order@, k as int) <= budget,
        decreases plan.order@.len() - k,
    {
        if total <= budget {
            break;
        }
        let size = files[plan.order[k]].size;
        total = total.saturating_sub(size);
        k = k + 1;
    }
    k
}

/// The cache lock is never planned for deletion: every file that
/// `removable_cache_files` keeps has a removable path.
pub proof fn lemma_lock_never_planned(files: Seq<CacheFileInfo>, k: int)
    requires
        0 <= k < files.filter(|f: CacheFileInfo| removable_path(f.path@)).len(),
    ensures
        removable_path(files.filter(|f: CacheFileInfo| removable_path(f.path@))[k].path@),
{
    files.lemma_filter_pred(|f: CacheFileInfo| removable_path(f.path@), k);
}

} // verus!
