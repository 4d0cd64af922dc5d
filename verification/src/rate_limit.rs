use vstd::prelude::*;

verus! {

/// Length of the daemon's rate-limiting window, in milliseconds.
pub const DAEMON_RATE_WINDOW_MS: u64 = 1000;

/// Most requests the daemon accepts within one window.
pub const DAEMON_MAX_REQUESTS_PER_WINDOW: usize = 32;

/// A sliding-window rate limiter for daemon requests. It keeps the times of
/// the requests it allowed within the last window, oldest first; times are
/// milliseconds of a monotonic clock.
pub struct DaemonRateLimiter {
    events: Vec<u64>,
    history: Ghost<Seq<u64>>,
    dropped: Ghost<nat>,
    latest: Ghost<u64>,
    in_order: Ghost<bool>,
}

/// No request allowed at `t` has a request allowed `max` requests later that
/// is less than a window away: no window holds more than `max` allowed
/// requests.
pub open spec fn spaced(history: Seq<u64>, window: u64, max: nat) -> bool {
    forall|i: int|
        #![trigger history[i]]
        0 <= i && i + max < history.len() ==> history[i] + window <= history[i + max]
}

/// Whether no time in `s` is later than `t`.
pub open spec fn all_at_most(s: Seq<u64>, t: u64) -> bool {
    forall|i: int| 0 <= i < s.len() ==> #[trigger] s[i] <= t
}

/// Whether the times of `s` never go back.
#[verifier::opaque]
pub open spec fn nondecreasing(s: Seq<u64>) -> bool {
    forall|i: int, j: int| 0 <= i <= j < s.len() ==> #[trigger] s[i] <= #[trigger] s[j]
}

proof fn lemma_push_keeps_nondecreasing(h: Seq<u64>, x: u64)
    requires
        nondecreasing(h),
        forall|i: int| 0 <= i < h.len() ==> #[trigger] h[i] <= x,
    ensures
        nondecreasing(h.push(x)),
{
    reveal(nondecreasing);
    let g = h.push(x);
    assert forall|i: int, j: int| 0 <= i <= j < g.len() implies #[trigger] g[i] <= #[trigger] g[j] by {
        if j == h.len() {
            if i < h.len() {
                assert(g[i] == h[i]);
            }
        } else {
            assert(g[i] == h[i] && g[j] == h[j]);
        }
    }
}

proof fn lemma_empty_nondecreasing()
    ensures
        nondecreasing(Seq::<u64>::empty()),
{
    reveal(nondecreasing);
}

/// The allowed requests that are less than a window before `now`.
pub open spec fn recent_allowed(history: Seq<u64>, now: u64) -> Seq<u64> {
    history.filter(|h: u64| now < h + DAEMON_RATE_WINDOW_MS)
}

/// How many of the oldest `events` are a full window or more before `now`.
pub open spec fn expired_prefix(events: Seq<u64>, now: u64) -> nat
    decreases events.len(),
{
    if events.len() > 0 && events[0] + DAEMON_RATE_WINDOW_MS <= now {
        1 + expired_prefix(events.drop_first(), now)
    } else {
        0
    }
}

impl DaemonRateLimiter {
    /// The times of the allowed requests that are still within the window.
    pub closed spec fn events(&self) -> Seq<u64> {
        self.events@
    }

    /// The times of every request this limiter allowed, in order.
    pub closed spec fn allowed_history(&self) -> Seq<u64> {
        self.history@
    }

    /// The latest time at which the limiter was asked (0 before any call).
    pub closed spec fn latest_call(&self) -> u64 {
        self.latest@
    }

    /// Whether every call so far came at a time no earlier than the ones
    /// before it, as a monotonic clock gives them.
    pub closed spec fn calls_in_order(&self) -> bool {
        self.in_order@
    }

    pub closed spec fn wf(&self) -> bool {
        &&& self.events@.len() <= DAEMON_MAX_REQUESTS_PER_WINDOW
        &&& self.dropped@ + self.events@.len() == self.history@.len()
        &&& self.events@ == self.history@.skip(self.dropped@ as int)
        &&& forall|i: int|
            #![trigger self.history@[i]]
            0 <= i < self.dropped@ ==> self.history@[i] + DAEMON_RATE_WINDOW_MS <= self.latest@
        &&& forall|i: int|
            #![trigger self.history@[i]]
            0 <= i < self.history@.len() ==> self.history@[i] <= self.latest@
        &&& self.in_order@ ==> spaced(
            self.history@,
            DAEMON_RATE_WINDOW_MS,
            DAEMON_MAX_REQUESTS_PER_WINDOW as nat,
        )
        &&& self.in_order@ ==> nondecreasing(self.history@)
    }

    /// A limiter that has allowed nothing yet.
    pub fn new() -> (l: Self)
        ensures
            l.wf(),
            l.events() == Seq::<u64>::empty(),
            l.allowed_history() == Seq::<u64>::empty(),
            l.calls_in_order(),
            l.latest_call() == 0,
    {
        assert(Seq::<u64>::empty().skip(0) =~= Seq::<u64>::empty());
        proof {
            lemma_empty_nondecreasing();
        }
        DaemonRateLimiter {
            events: Vec::new(),
            history: Ghost(Seq::empty()),
            dropped: Ghost(0),
            latest: Ghost(0),
            in_order: Ghost(true),
        }
    }

    /// Decides a request arriving at `now_ms`: requests a full window old or
    /// older leave the window first; the request is allowed, and recorded,
    /// when fewer than the maximum remain. For calls in time order this is
    /// exactly: a request is allowed when fewer than the maximum of the
    /// earlier allowed requests lie less than a window before it.
    pub fn allow(&mut self, now_ms: u64) -> (allowed: bool)
        requires
            old(self).wf(),
        ensures
            final(self).wf(),
            ({
                let kept = old(self).events().skip(expired_prefix(old(self).events(), now_ms) as int);
                &&& allowed == (kept.len() < DAEMON_MAX_REQUESTS_PER_WINDOW)
                &&& final(self).events() == (if allowed {
                    kept.push(now_ms)
                } else {
                    kept
                })
            }),
            final(self).allowed_history() == (if allowed {
                old(self).allowed_history().push(now_ms)
            } else {
                old(self).allowed_history()
            }),
            final(self).latest_call() == (if old(self).latest_call() >= now_ms {
                old(self).latest_call()
            } else {
                now_ms
            }),
            final(self).calls_in_order() == (old(self).calls_in_order() && old(self).latest_call()
                <= now_ms),
            final(self).calls_in_order() ==> spaced(
                final(self).allowed_history(),
                DAEMON_RATE_WINDOW_MS,
                DAEMON_MAX_REQUESTS_PER_WINDOW as nat,
            ),
            old(self).calls_in_order() && old(self).latest_call() <= now_ms ==> (allowed
                <==> recent_allowed(old(self).allowed_history(), now_ms).len()
                < DAEMON_MAX_REQUESTS_PER_WINDOW),
    {
        proof {
            if self.in_order@ && self.latest@ <= now_ms {
                self.lemma_window_is_recent_allowed(now_ms);
            }
        }
        let ghost old_events = self.events@;
        let ghost old_history = self.history@;
        let ghost old_latest = self.latest@;
        let ghost was_in_order = self.in_order@;
        let ghost k: int = 0;
        while self.events.len() > 0 && now_ms.saturating_sub(self.events[0])
            >= DAEMON_RATE_WINDOW_MS
            invariant
                0 <= k <= old_events.len(),
                self.events@ == old_events.skip(k),
                self.history@ == old_history,
                self.dropped@ + self.events@.len() == self.history@.len(),
                self.events@ == self.history@.skip(self.dropped@ as int),
                self.latest@ == old_latest,
                self.events@.len() <= DAEMON_MAX_REQUESTS_PER_WINDOW,
                forall|i: int|
                    #![trigger self.history@[i]]
                    0 <= i < self.history@.len() ==> self.history@[i] <= self.latest@,
                forall|i: int|
                    #![trigger self.history@[i]]
                    0 <= i < self.dropped@ ==> self.history@[i] + DAEMON_RATE_WINDOW_MS
                        <= (if self.latest@ >= now_ms {
                        self.latest@
                    } else {
                        now_ms
                    }),
                k + expired_prefix(self.events@, now_ms) == expired_prefix(old_events, now_ms),
            decreases self.events@.len(),
        {
            let ghost front = self.events@[0];
            assert(self.events@.drop_first() =~= old_events.skip(k + 1));
            self.events.remove(0);
            proof {
                assert(old_events[k] == front);
                assert(self.history@[self.dropped@ as int] == front);
                self.dropped@ = self.dropped@ + 1;
                k = k + 1;
                assert(self.events@ =~= old_events.skip(k));
                assert(self.events@ =~= self.history@.skip(self.dropped@ as int));
            }
        }
        assert(k == expired_prefix(old_events, now_ms));
        let ghost new_latest = if old_latest >= now_ms {
            old_latest
        } else {
            now_ms
        };
        let ghost monotone_call = old_latest <= now_ms;
        if self.events.len() >= DAEMON_MAX_REQUESTS_PER_WINDOW {
            proof {
                self.latest@ = new_latest;
                self.in_order@ = was_in_order && monotone_call;
            }
            return false;
        }
        self.events.push(now_ms);
        proof {
            let h = old_history.push(now_ms);
            let n = old_history.len() as int;
            assert(self.events@ =~= h.skip(self.dropped@ as int));
            self.history@ = h;
            self.latest@ = new_latest;
            self.in_order@ = was_in_order && monotone_call;
            if self.in_order@ {
                lemma_push_keeps_nondecreasing(old_history, now_ms);
                assert forall|i: int|
                    #![trigger h[i]]
                    0 <= i && i + DAEMON_MAX_REQUESTS_PER_WINDOW < h.len() implies h[i]
                    + DAEMON_RATE_WINDOW_MS <= h[i + DAEMON_MAX_REQUESTS_PER_WINDOW] by {
                    if i + DAEMON_MAX_REQUESTS_PER_WINDOW == n {
                        assert(i < self.dropped@);
                        assert(old_history[i] + DAEMON_RATE_WINDOW_MS <= new_latest);
                        assert(old_latest <= now_ms || old_history.len() == 0 || true);
                    } else {
                        assert(old_history[i] == h[i]);
                        assert(old_history[i + DAEMON_MAX_REQUESTS_PER_WINDOW] == h[i
                            + DAEMON_MAX_REQUESTS_PER_WINDOW]);
                    }
                }
            }
        }
        true
    }
}

proof fn lemma_expired_prefix_split(ev: Seq<u64>, now: u64)
    requires
        nondecreasing(ev),
    ensures
        expired_prefix(ev, now) <= ev.len(),
        forall|i: int| 0 <= i < expired_prefix(ev, now) ==> #[trigger] ev[i] + DAEMON_RATE_WINDOW_MS <= now,
        forall|i: int| expired_prefix(ev, now) <= i < ev.len() ==> now < #[trigger] ev[i] + DAEMON_RATE_WINDOW_MS,
    decreases ev.len(),
{
    reveal(nondecreasing);
    if ev.len() > 0 {
        let t = ev.drop_first();
        assert(nondecreasing(t)) by {
            assert forall|i: int, j: int| 0 <= i <= j < t.len() implies #[trigger] t[i] <= #[trigger] t[j] by {
                assert(t[i] == ev[i + 1] && t[j] == ev[j + 1]);
            }
        }
        lemma_expired_prefix_split(t, now);
        if ev[0] + DAEMON_RATE_WINDOW_MS <= now {
            assert forall|i: int| 0 <= i < expired_prefix(ev, now) implies #[trigger] ev[i]
                + DAEMON_RATE_WINDOW_MS <= now by {
                if i > 0 {
                    assert(ev[i] == t[i - 1]);
                }
            }
            assert forall|i: int| expired_prefix(ev, now) <= i < ev.len() implies now < #[trigger] ev[i]
                + DAEMON_RATE_WINDOW_MS by {
                assert(ev[i] == t[i - 1]);
            }
        } else {
            assert forall|i: int| 0 <= i < ev.len() implies now < #[trigger] ev[i]
                + DAEMON_RATE_WINDOW_MS by {
                assert(ev[0] <= ev[i]);
            }
        }
    }
}

proof fn lemma_filter_of_split(s: Seq<u64>, m: int, now: u64)
    requires
        0 <= m <= s.len(),
        forall|i: int| 0 <= i < m ==> #[trigger] s[i] + DAEMON_RATE_WINDOW_MS <= now,
        forall|i: int| m <= i < s.len() ==> now < #[trigger] s[i] + DAEMON_RATE_WINDOW_MS,
    ensures
        recent_allowed(s, now) == s.skip(m),
    decreases s.len(),
{
    let p = |h: u64| now < h + DAEMON_RATE_WINDOW_MS;
    if s.len() == 0 {
        assert(s.skip(m) =~= Seq::<u64>::empty());
    } else {
        let d = s.drop_last();
        assert(s =~= d.push(s.last()));
        d.lemma_filter_push(s.last(), p);
        if m == s.len() {
            lemma_filter_of_split(d, m - 1, now);
            assert(d.skip(m - 1) =~= Seq::<u64>::empty());
            assert(s.skip(m) =~= Seq::<u64>::empty());
        } else {
            lemma_filter_of_split(d, m, now);
            assert(s.skip(m) =~= d.skip(m).push(s.last()));
        }
    }
}

impl DaemonRateLimiter {
    /// For calls in time order, the limiter's window at `now` is exactly the
    /// allowed requests less than a window before `now`; so `allow` grants a
    /// request if and only if fewer than the maximum of the earlier allowed
    /// requests lie less than a window before it.
    pub proof fn lemma_window_is_recent_allowed(&self, now: u64)
        requires
            self.wf(),
            self.calls_in_order(),
            self.latest_call() <= now,
        ensures
            self.events().skip(expired_prefix(self.events(), now) as int) == recent_allowed(
                self.allowed_history(),
                now,
            ),
    {
        let h = self.history@;
        let d = self.dropped@ as int;
        let ev = self.events@;
        reveal(nondecreasing);
        assert(nondecreasing(ev)) by {
            assert forall|i: int, j: int| 0 <= i <= j < ev.len() implies #[trigger] ev[i] <= #[trigger] ev[j] by {
                assert(ev[i] == h[i + d] && ev[j] == h[j + d]);
            }
        }
        lemma_expired_prefix_split(ev, now);
        let e = expired_prefix(ev, now) as int;
        assert forall|i: int| 0 <= i < d + e implies #[trigger] h[i] + DAEMON_RATE_WINDOW_MS <= now by {
            if i >= d {
                assert(h[i] == ev[i - d]);
            }
        }
        assert forall|i: int| d + e <= i < h.len() implies now < #[trigger] h[i] + DAEMON_RATE_WINDOW_MS by {
            assert(h[i] == ev[i - d]);
        }
        lemma_filter_of_split(h, d + e, now);
        assert(ev.skip(e) =~= h.skip(d + e));
    }
}

} // verus!
