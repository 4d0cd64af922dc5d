use vstd::prelude::*;
use crate::text::{chars_of, push_str, str_eq, string_from_chars};

verus! {

/// Whether some entry of `v` reads `k`.
pub open spec fn holds_key(v: Seq<String>, k: Seq<char>) -> bool {
    exists|i: int| 0 <= i < v.len() && (#[trigger] v[i])@ == k
}

/// The keys that `v` holds, as a set.
pub open spec fn key_set(v: Seq<String>) -> Set<Seq<char>> {
    Set::new(|k: Seq<char>| holds_key(v, k))
}

/// The state of background cache persistence: the scopes with a persist in
/// flight, and the errors of failed persists not yet reported, oldest first.
pub struct AsyncPersistState {
    in_flight: Vec<String>,
    errors: Vec<String>,
}

/// Marks a scope as having a persist in flight for as long as it lives.
pub struct AsyncPersistGuard {
    pub scope_key: String,
}

impl AsyncPersistGuard {
    /// A guard for `scope_key`.
    pub fn new(scope_key: String) -> (g: Self)
        ensures
            g.scope_key == scope_key,
    {
        AsyncPersistGuard { scope_key }
    }

    /// Ends the guard's life: its scope no longer has a persist in flight.
    pub fn release(self, state: &mut AsyncPersistState)
        ensures
            final(state).in_flight() == old(state).in_flight().remove(self.scope_key@),
            final(state).errors() == old(state).errors(),
    {
        clear_async_persist_in_flight(state, self.scope_key.as_str());
    }
}

/// The scope of background persistence for a workspace and profile:
/// `<workspace root>::<profile>`.
pub fn async_persist_scope_key(workspace_root: &str, profile: &str) -> (k: String)
    ensures
        k@ == workspace_root@ + "::"@ + profile@,
{
    let root = chars_of(workspace_root);
    let mut k = string_from_chars(&root);
    push_str(&mut k, "::");
    push_str(&mut k, profile);
    k
}

impl AsyncPersistState {
    /// The scopes with a persist in flight.
    pub closed spec fn in_flight(&self) -> Set<Seq<char>> {
        key_set(self.in_flight@)
    }

    /// The errors not yet reported, oldest first.
    pub closed spec fn errors(&self) -> Seq<String> {
        self.errors@
    }

    /// Nothing in flight, no errors.
    pub fn new() -> (s: Self)
        ensures
            s.in_flight() == Set::<Seq<char>>::empty(),
            s.errors() == Seq::<String>::empty(),
    {
        let s = AsyncPersistState { in_flight: Vec::new(), errors: Vec::new() };
        assert(s.in_flight() =~= Set::<Seq<char>>::empty());
        s
    }
}

/// Claims `scope_key` for a background persist; returns false, changing
/// nothing, when a persist for it is already in flight.
pub fn try_mark_async_persist_in_flight(state: &mut AsyncPersistState, scope_key: &str) -> (claimed:
    bool)
    ensures
        claimed == !old(state).in_flight().contains(scope_key@),
        final(state).in_flight() == old(state).in_flight().insert(scope_key@),
        final(state).errors() == old(state).errors(),
{
    let mut i: usize = 0;
    while i < state.in_flight.len()
        invariant
            i <= state.in_flight@.len(),
            forall|j: int| 0 <= j < i ==> (#[trigger] state.in_flight@[j])@ != scope_key@,
        decreases state.in_flight@.len() - i,
    {
        if str_eq(state.in_flight[i].as_str(), scope_key) {
            proof {
                assert(holds_key(state.in_flight@, scope_key@));
                assert(key_set(state.in_flight@).insert(scope_key@) =~= key_set(state.in_flight@));
            }
            return false;
        }
        i = i + 1;
    }
    let ghost before = state.in_flight@;
    let chars = chars_of(scope_key);
    let key = string_from_chars(&chars);
    state.in_flight.push(key);
    proof {
        assert(!holds_key(before, scope_key@));
        assert forall|k: Seq<char>| key_set(state.in_flight@).contains(k) == key_set(before).insert(
            scope_key@,
        ).contains(k) by {
            if holds_key(before, k) {
                let j = choose|j: int| 0 <= j < before.len() && (#[trigger] before[j])@ == k;
                assert(state.in_flight@[j] == before[j]);
            }
            if holds_key(state.in_flight@, k) && k != scope_key@ {
                let j = choose|j: int|
                    0 <= j < state.in_flight@.len() && (#[trigger] state.in_flight@[j])@ == k;
                assert(j < before.len());
                assert(before[j] == state.in_flight@[j]);
            }
            if k == scope_key@ {
                assert(state.in_flight@[before.len() as int]@ == k);
            }
        }
        assert(key_set(state.in_flight@) =~= key_set(before).insert(scope_key@));
    }
    true
}

/// Releases `scope_key` once its persist is over.
pub fn clear_async_persist_in_flight(state: &mut AsyncPersistState, scope_key: &str)
    ensures
        final(state).in_flight() == old(state).in_flight().remove(scope_key@),
        final(state).errors() == old(state).errors(),
{
    let ghost before = state.in_flight@;
    let mut kept: Vec<String> = Vec::new();
    let mut i: usize = 0;
    while i < state.in_flight.len()
        invariant
            i <= state.in_flight@.len(),
            state.in_flight@ == before,
            forall|k: Seq<char>|
                #![trigger holds_key(kept@, k)]
                holds_key(kept@, k) <==> (k != scope_key@ && holds_key(before.take(i as int), k)),
        decreases state.in_flight@.len() - i,
    {
        let ghost kept_before = kept@;
        if !str_eq(state.in_flight[i].as_str(), scope_key) {
            let chars = chars_of(state.in_flight[i].as_str());
            kept.push(string_from_chars(&chars));
        }
        proof {
            assert forall|k: Seq<char>|
                #![trigger holds_key(kept@, k)]
                holds_key(kept@, k) <==> (k != scope_key@ && holds_key(
                    before.take(i + 1),
                    k,
                )) by {
                if holds_key(before.take(i + 1), k) {
                    let j = choose|j: int|
                        0 <= j < i + 1 && (#[trigger] before.take(i + 1)[j])@ == k;
                    if j < i {
                        assert(before.take(i as int)[j] == before.take(i + 1)[j]);
                        assert(holds_key(before.take(i as int), k));
                    }
                }
                if holds_key(before.take(i as int), k) {
                    let j = choose|j: int|
                        0 <= j < i && (#[trigger] before.take(i as int)[j])@ == k;
                    assert(before.take(i + 1)[j] == before.take(i as int)[j]);
                }
                if holds_key(kept@, k) {
                    let j = choose|j: int| 0 <= j < kept@.len() && (#[trigger] kept@[j])@ == k;
                    if j < kept_before.len() {
                        assert(kept_before[j] == kept@[j]);
                        assert(holds_key(kept_before, k));
                    } else {
                        assert(before.take(i + 1)[i as int] == before[i as int]);
                    }
                }
                if k != scope_key@ && before[i as int]@ == k {
                    assert(before.take(i + 1)[i as int] == before[i as int]);
                    assert(kept@[kept@.len() - 1]@ == k);
                }
                if holds_key(kept_before, k) {
                    let j = choose|j: int|
                        0 <= j < kept_before.len() && (#[trigger] kept_before[j])@ == k;
                    assert(kept@[j] == kept_before[j]);
                }
            }
        }
        i = i + 1;
    }
    assert(before.take(i as int) =~= before);
    state.in_flight = kept;
    assert(key_set(state.in_flight@) =~= key_set(before).remove(scope_key@));
}

/// Queues the error of a failed background persist, dropping the oldest
/// queued errors beyond `queue_limit`; returns the dropped ones, oldest
/// first.
pub fn record_async_persist_error(state: &mut AsyncPersistState, error: String, queue_limit: usize) -> (dropped:
    Vec<String>)
    ensures
        final(state).in_flight() == old(state).in_flight(),
        ({
            let all = old(state).errors().push(error);
            let n = if all.len() > queue_limit {
                all.len() - queue_limit
            } else {
                0
            };
            &&& dropped@ == all.take(n)
            &&& final(state).errors() == all.skip(n)
        }),
{
    let ghost all = state.errors@.push(error);
    let ghost flight = state.in_flight@;
    state.errors.push(error);
    let mut dropped: Vec<String> = Vec::new();
    let ghost n: int = if all.len() > queue_limit {
        all.len() - queue_limit
    } else {
        0
    };
    while state.errors.len() > queue_limit
        invariant
            state.in_flight@ == flight,
            dropped@.len() <= n,
            dropped@ == all.take(dropped@.len() as int),
            state.errors@ == all.skip(dropped@.len() as int),
            n == (if all.len() > queue_limit {
                all.len() - queue_limit
            } else {
                0
            }),
        decreases state.errors@.len(),
    {
        let first = state.errors.remove(0);
        dropped.push(first);
        assert(dropped@ =~= all.take(dropped@.len() as int));
        assert(state.errors@ =~= all.skip(dropped@.len() as int));
    }
    assert(dropped@.len() == n);
    dropped
}

/// Hands over every queued error, oldest first, leaving the queue empty.
pub fn take_async_persist_errors(state: &mut AsyncPersistState) -> (errors: Vec<String>)
    ensures
        errors@ == old(state).errors(),
        final(state).errors() == Seq::<String>::empty(),
        final(state).in_flight() == old(state).in_flight(),
{
    let mut errors: Vec<String> = Vec::new();
    std::mem::swap(&mut errors, &mut state.errors);
    errors
}

/// The error queue never holds more than its limit (when the limit is at
/// least one), and it always keeps the newest errors: the one just recorded
/// stays last.
pub proof fn lemma_error_queue_bounded(before: Seq<String>, error: String, queue_limit: nat)
    requires
        queue_limit >= 1,
    ensures
        ({
            let all = before.push(error);
            let n = if all.len() > queue_limit {
                all.len() - queue_limit
            } else {
                0
            };
            let kept = all.skip(n);
            &&& kept.len() <= queue_limit
            &&& kept.len() > 0 && kept.last() == error
            &&& before.len() < queue_limit ==> kept == all
        }),
{
    let all = before.push(error);
    let n: int = if all.len() > queue_limit {
        all.len() - queue_limit
    } else {
        0
    };
    assert(all.skip(n).last() == all.last());
    if before.len() < queue_limit {
        assert(all.skip(0) =~= all);
    }
}

/// What the queue holds after `error` was recorded into `queue` under
/// `queue_limit`: the newest errors, at most the limit of them.
pub open spec fn queue_after_record(queue: Seq<String>, error: String, queue_limit: nat) -> Seq<
    String,
> {
    let all = queue.push(error);
    all.skip(
        if all.len() > queue_limit {
            all.len() - queue_limit
        } else {
            0
        },
    )
}

/// What the queue holds after `errors` were recorded into `queue` one after
/// the other.
pub open spec fn queue_after_records(queue: Seq<String>, errors: Seq<String>, queue_limit: nat) -> Seq<
    String,
>
    decreases errors.len(),
{
    if errors.len() == 0 {
        queue
    } else {
        queue_after_record(
            queue_after_records(queue, errors.drop_last(), queue_limit),
            errors.last(),
            queue_limit,
        )
    }
}

/// Recording errors into an empty queue one after the other leaves the
/// newest of them, as many as the limit allows, oldest first; a take then
/// hands over exactly these (and leaves the queue empty).
pub proof fn lemma_error_queue_keeps_newest(errors: Seq<String>, queue_limit: nat)
    requires
        queue_limit >= 1,
    ensures
        queue_after_records(Seq::empty(), errors, queue_limit) == errors.skip(
            if errors.len() > queue_limit {
                errors.len() - queue_limit
            } else {
                0
            },
        ),
    decreases errors.len(),
{
    if errors.len() == 0 {
        assert(errors.skip(0) =~= errors);
    } else {
        let d = errors.drop_last();
        lemma_error_queue_keeps_newest(d, queue_limit);
        let m: int = if d.len() > queue_limit {
            d.len() - queue_limit
        } else {
            0
        };
        let all = d.skip(m).push(errors.last());
        assert(all =~= errors.skip(m));
        let n: int = if all.len() > queue_limit {
            all.len() - queue_limit
        } else {
            0
        };
        assert(all.skip(n) =~= errors.skip(m + n));
    }
}

} // verus!
