//! Dispatch-and-completion core: which handler answers a call to a route, and
//! when every declared handler slot has been used so that the run may stop.
//!
//! A route with `h` handlers owns `max(1, h)` slots. The state of a run is, per
//! route, the number of its slots already used; a call to a route uses one slot
//! while any is left. The run is complete when every slot of every route is used.
use vstd::prelude::*;

verus! {

/// Number of completion slots that a route with `h` handlers contributes.
pub open spec fn slots(h: nat) -> nat {
    if h == 0 {
        1
    } else {
        h
    }
}

/// Sum of the slots of all routes: the number of slot-using calls after which
/// the run is complete.
pub open spec fn total_slots(counts: Seq<nat>) -> nat
    decreases counts.len(),
{
    if counts.len() == 0 {
        0
    } else {
        total_slots(counts.drop_last()) + slots(counts.last())
    }
}

/// Sum of a sequence of naturals.
pub open spec fn sum(s: Seq<nat>) -> nat
    decreases s.len(),
{
    if s.len() == 0 {
        0
    } else {
        sum(s.drop_last()) + s.last()
    }
}

/// The handler (by position) that answers the call with index `call` to a route
/// with `h` handlers: the call's own position while handlers are left, the last
/// handler after that, none at all when the route has no handler.
pub open spec fn chosen_handler(call: nat, h: nat) -> Option<nat> {
    if h == 0 {
        None
    } else if call < h {
        Some(call)
    } else {
        Some((h - 1) as nat)
    }
}

/// Slots of a route used after one more call, from `used` slots before it.
pub open spec fn step_used(used: nat, h: nat) -> nat {
    if used < slots(h) {
        used + 1
    } else {
        used
    }
}

/// Whether a call to `route` uses a slot and completes the run, given the used
/// slots before it.
pub open spec fn step_fires(counts: Seq<nat>, used: Seq<nat>, route: int) -> bool {
    &&& used[route] < slots(counts[route])
    &&& sum(used) + 1 == total_slots(counts)
}

/// Used slots of every route after the calls `reqs` (route positions, in order)
/// on a fresh run.
pub open spec fn used_after(counts: Seq<nat>, reqs: Seq<nat>) -> Seq<nat>
    decreases reqs.len(),
{
    if reqs.len() == 0 {
        Seq::new(counts.len(), |r: int| 0nat)
    } else {
        let u = used_after(counts, reqs.drop_last());
        let r = reqs.last() as int;
        u.update(r, step_used(u[r], counts[r]))
    }
}

/// Number of calls among `reqs` that completed the run.
pub open spec fn fires_in(counts: Seq<nat>, reqs: Seq<nat>) -> nat
    decreases reqs.len(),
{
    if reqs.len() == 0 {
        0
    } else {
        let u = used_after(counts, reqs.drop_last());
        fires_in(counts, reqs.drop_last()) + if step_fires(counts, u, reqs.last() as int) {
            1nat
        } else {
            0nat
        }
    }
}

/// Number of calls to `route` among `reqs`.
pub open spec fn hits(reqs: Seq<nat>, route: nat) -> nat
    decreases reqs.len(),
{
    if reqs.len() == 0 {
        0
    } else {
        hits(reqs.drop_last(), route) + if reqs.last() == route {
            1nat
        } else {
            0nat
        }
    }
}

/// Handlers chosen, in order, for the calls to `route` among `reqs` on a fresh run.
pub open spec fn choices_for(counts: Seq<nat>, reqs: Seq<nat>, route: nat) -> Seq<Option<nat>>
    decreases reqs.len(),
{
    if reqs.len() == 0 {
        Seq::empty()
    } else {
        let before = choices_for(counts, reqs.drop_last(), route);
        if reqs.last() == route {
            let u = used_after(counts, reqs.drop_last());
            before.push(chosen_handler(u[route as int], counts[route as int]))
        } else {
            before
        }
    }
}

/// Every call in `reqs` names one of `n` routes.
pub open spec fn routes_in_range(reqs: Seq<nat>, n: nat) -> bool {
    forall|k: int| 0 <= k < reqs.len() ==> #[trigger] reqs[k] < n
}

pub open spec fn min_nat(a: nat, b: nat) -> nat {
    if a < b {
        a
    } else {
        b
    }
}

proof fn lemma_sum_update(s: Seq<nat>, i: int, x: nat)
    requires
        0 <= i < s.len(),
    ensures
        sum(s.update(i, x)) + s[i] == sum(s) + x,
    decreases s.len(),
{
    let t = s.update(i, x);
    if i == s.len() - 1 {
        assert(t.drop_last() =~= s.drop_last());
    } else {
        lemma_sum_update(s.drop_last(), i, x);
        assert(t.drop_last() =~= s.drop_last().update(i, x));
    }
}

proof fn lemma_sum_zeros(n: nat)
    ensures
        sum(Seq::new(n, |r: int| 0nat)) == 0,
    decreases n,
{
    if n > 0 {
        lemma_sum_zeros((n - 1) as nat);
        assert(Seq::new(n, |r: int| 0nat).drop_last() =~= Seq::new((n - 1) as nat, |r: int| 0nat));
    }
}

/// With every route within its slots, the used slots sum to at most the total,
/// to exactly the total only when every route has used all of its slots.
proof fn lemma_sum_bounded(counts: Seq<nat>, used: Seq<nat>)
    requires
        used.len() == counts.len(),
        forall|r: int| 0 <= r < used.len() ==> used[r] <= slots(counts[r]),
    ensures
        sum(used) <= total_slots(counts),
        sum(used) == total_slots(counts) <==> forall|r: int|
            0 <= r < used.len() ==> used[r] == slots(counts[r]),
    decreases used.len(),
{
    if used.len() > 0 {
        let n = used.len() - 1;
        lemma_sum_bounded(counts.drop_last(), used.drop_last());
        if sum(used) == total_slots(counts) {
            assert forall|r: int| 0 <= r < used.len() implies used[r] == slots(counts[r]) by {
                if r < n {
                    assert(used.drop_last()[r] == used[r]);
                    assert(counts.drop_last()[r] == counts[r]);
                }
            }
        }
        if forall|r: int| 0 <= r < used.len() ==> used[r] == slots(counts[r]) {
            assert forall|r: int| 0 <= r < used.drop_last().len() implies used.drop_last()[r]
                == slots(counts.drop_last()[r]) by {
                assert(used[r] == slots(counts[r]));
            }
        }
    }
}

proof fn lemma_used_after_shape(counts: Seq<nat>, reqs: Seq<nat>)
    requires
        routes_in_range(reqs, counts.len()),
    ensures
        used_after(counts, reqs).len() == counts.len(),
        forall|r: int|
            0 <= r < counts.len() ==> #[trigger] used_after(counts, reqs)[r] == min_nat(
                hits(reqs, r as nat),
                slots(counts[r]),
            ),
    decreases reqs.len(),
{
    if reqs.len() > 0 {
        let prev = reqs.drop_last();
        assert(routes_in_range(prev, counts.len())) by {
            assert forall|k: int| 0 <= k < prev.len() implies #[trigger] prev[k] < counts.len() by {
                assert(prev[k] == reqs[k]);
            }
        }
        assert(reqs[reqs.len() - 1] < counts.len());
        lemma_used_after_shape(counts, prev);
    }
}

/// The calls to a route are answered, in order, by its handlers in their
/// declared order, the last handler answering every call after they run out.
pub proof fn lemma_handler_sequence(counts: Seq<nat>, reqs: Seq<nat>, route: nat)
    requires
        routes_in_range(reqs, counts.len()),
        route < counts.len(),
    ensures
        choices_for(counts, reqs, route) == Seq::new(
            hits(reqs, route),
            |i: int| chosen_handler(i as nat, counts[route as int]),
        ),
    decreases reqs.len(),
{
    if reqs.len() > 0 {
        let prev = reqs.drop_last();
        assert(routes_in_range(prev, counts.len())) by {
            assert forall|k: int| 0 <= k < prev.len() implies #[trigger] prev[k] < counts.len() by {
                assert(prev[k] == reqs[k]);
            }
        }
        lemma_handler_sequence(counts, prev, route);
        lemma_used_after_shape(counts, prev);
        let h = counts[route as int];
        let i = hits(prev, route);
        if reqs.last() == route {
            let u = used_after(counts, prev);
            assert(u[route as int] == min_nat(i, slots(h)));
            assert(chosen_handler(u[route as int], h) == chosen_handler(i, h));
            assert(choices_for(counts, reqs, route) =~= Seq::new(
                hits(reqs, route),
                |j: int| chosen_handler(j as nat, h),
            ));
        }
    }
}

/// A batch of exactly `h` calls to a route with `h >= 1` handlers on a fresh run,
/// in any interleaving with calls to other routes, is answered by each of the
/// route's handlers exactly once.
pub proof fn lemma_batch_uses_each_handler_once(counts: Seq<nat>, reqs: Seq<nat>, route: nat)
    requires
        routes_in_range(reqs, counts.len()),
        route < counts.len(),
        counts[route as int] >= 1,
        hits(reqs, route) == counts[route as int],
    ensures
        choices_for(counts, reqs, route).to_multiset() == Seq::new(
            counts[route as int],
            |i: int| Some(i as nat),
        ).to_multiset(),
{
    lemma_handler_sequence(counts, reqs, route);
    assert(choices_for(counts, reqs, route) =~= Seq::new(
        counts[route as int],
        |i: int| Some(i as nat),
    ));
}

/// Over any sequence of calls on a fresh run: the used slots never exceed the
/// declared total; the run is complete exactly when every route has received at
/// least `max(1, h)` calls; and the completion signal fires exactly once if the
/// run is complete, never otherwise.
pub proof fn lemma_completion_fires_once(counts: Seq<nat>, reqs: Seq<nat>)
    requires
        counts.len() >= 1,
        routes_in_range(reqs, counts.len()),
    ensures
        sum(used_after(counts, reqs)) <= total_slots(counts),
        sum(used_after(counts, reqs)) == total_slots(counts) <==> forall|r: int|
            0 <= r < counts.len() ==> #[trigger] hits(reqs, r as nat) >= slots(counts[r]),
        fires_in(counts, reqs) == if sum(used_after(counts, reqs)) == total_slots(counts) {
            1nat
        } else {
            0nat
        },
    decreases reqs.len(),
{
    let u = used_after(counts, reqs);
    lemma_used_after_shape(counts, reqs);
    lemma_sum_bounded(counts, u);
    assert(sum(u) == total_slots(counts) <==> forall|r: int|
        0 <= r < counts.len() ==> #[trigger] hits(reqs, r as nat) >= slots(counts[r])) by {
        if sum(u) == total_slots(counts) {
            assert forall|r: int| 0 <= r < counts.len() implies #[trigger] hits(reqs, r as nat)
                >= slots(counts[r]) by {
                assert(u[r] == slots(counts[r]));
            }
        }
        if forall|r: int| 0 <= r < counts.len() ==> #[trigger] hits(reqs, r as nat) >= slots(
            counts[r],
        ) {
            assert forall|r: int| 0 <= r < u.len() implies u[r] == slots(counts[r]) by {
                assert(hits(reqs, r as nat) >= slots(counts[r]));
            }
        }
    }
    if reqs.len() == 0 {
        lemma_sum_zeros(counts.len());
        assert(total_slots(counts) >= 1) by {
            assert(slots(counts.last()) >= 1);
        }
    } else {
        let prev = reqs.drop_last();
        assert(routes_in_range(prev, counts.len())) by {
            assert forall|k: int| 0 <= k < prev.len() implies #[trigger] prev[k] < counts.len() by {
                assert(prev[k] == reqs[k]);
            }
        }
        assert(reqs[reqs.len() - 1] < counts.len());
        lemma_completion_fires_once(counts, prev);
        let p = used_after(counts, prev);
        let r = reqs.last() as int;
        lemma_used_after_shape(counts, prev);
        lemma_sum_bounded(counts, p);
        lemma_sum_update(p, r, step_used(p[r], counts[r]));
        if p[r] < slots(counts[r]) {
            assert(sum(p) < total_slots(counts));
        }
    }
}

/// A route declared without handlers adds exactly one slot to the total; the
/// first call to it uses that slot, and no call to it is answered by a handler.
pub proof fn lemma_empty_route_one_slot(counts: Seq<nat>, reqs: Seq<nat>, route: nat)
    requires
        routes_in_range(reqs, counts.len()),
        route < counts.len(),
        counts[route as int] == 0,
    ensures
        total_slots(counts.push(0)) == total_slots(counts) + 1,
        used_after(counts, reqs)[route as int] == slots(0) <==> hits(reqs, route) >= 1,
        used_after(counts, reqs)[route as int] <= 1,
        forall|k: int| 0 <= k < choices_for(counts, reqs, route).len() ==> #[trigger] choices_for(counts, reqs, route)[k] is None,
{
    assert(counts.push(0).drop_last() =~= counts);
    lemma_used_after_shape(counts, reqs);
    lemma_handler_sequence(counts, reqs, route);
}

/// Slot accounting of one route: its number of handlers and how many of its
/// slots calls have used so far.
pub struct RouteCounter {
    pub handler_count: usize,
    pub used: usize,
}

/// What a dispatched call leads to.
#[derive(Clone, Copy, PartialEq, Eq, Structural, Debug)]
pub struct Dispatch {
    /// Position of the handler that answers the call, if the route has one.
    pub handler: Option<usize>,
    /// The call used one of the route's slots.
    pub counted: bool,
    /// The call used the last free slot of the run: shut down now.
    pub fires: bool,
}

/// Counts used slots across all routes and fires once when none is left.
pub struct CompletionTracker {
    total_expected: usize,
    consumed: usize,
    fired: bool,
}

impl CompletionTracker {
    pub closed spec fn total(&self) -> nat {
        self.total_expected as nat
    }

    pub closed spec fn used(&self) -> nat {
        self.consumed as nat
    }

    pub closed spec fn has_fired(&self) -> bool {
        self.fired
    }

    pub open spec fn wf(&self) -> bool {
        &&& self.used() <= self.total()
        &&& self.has_fired() == (self.used() == self.total())
    }

    /// A tracker for a run of `total_expected` slots. A run without slots is
    /// complete from the start.
    pub fn new(total_expected: usize) -> (t: Self)
        ensures
            t.wf(),
            t.total() == total_expected,
            t.used() == 0,
    {
        CompletionTracker { total_expected, consumed: 0, fired: total_expected == 0 }
    }

    /// Records one used slot. Returns whether this call completed the run: true
    /// for exactly one call, the one that uses the last slot.
    pub fn notify(&mut self) -> (fires: bool)
        requires
            old(self).wf(),
            old(self).used() < old(self).total(),
        ensures
            final(self).wf(),
            final(self).total() == old(self).total(),
            final(self).used() == old(self).used() + 1,
            fires == (final(self).used() == final(self).total()),
            fires == (final(self).has_fired() && !old(self).has_fired()),
    {
        self.consumed = self.consumed + 1;
        let fires = self.consumed == self.total_expected && !self.fired;
        if fires {
            self.fired = true;
        }
        fires
    }

    pub fn is_complete(&self) -> (r: bool)
        ensures
            r == self.has_fired(),
    {
        self.fired
    }

    pub fn total_expected(&self) -> (r: usize)
        ensures
            r == self.total(),
    {
        self.total_expected
    }

    pub fn consumed(&self) -> (r: usize)
        ensures
            r == self.used(),
    {
        self.consumed
    }
}

/// Per-route handler selection and run-wide completion accounting.
pub struct Dispatcher {
    routes: Vec<RouteCounter>,
    tracker: CompletionTracker,
}

impl Dispatcher {
    /// Number of handlers of each route, in declaration order.
    pub closed spec fn counts(&self) -> Seq<nat> {
        self.routes@.map_values(|c: RouteCounter| c.handler_count as nat)
    }

    /// Used slots of each route.
    pub closed spec fn used(&self) -> Seq<nat> {
        self.routes@.map_values(|c: RouteCounter| c.used as nat)
    }

    pub closed spec fn wf(&self) -> bool {
        &&& self.tracker.wf()
        &&& self.tracker.total() == total_slots(self.counts())
        &&& self.tracker.used() == sum(self.used())
        &&& forall|r: int| 0 <= r < self.routes@.len() ==> #[trigger] self.routes@[r].used as nat <= slots(self.routes@[r].handler_count as nat)
    }

    /// The run is complete: every slot of every route has been used.
    pub open spec fn complete(&self) -> bool {
        sum(self.used()) == total_slots(self.counts())
    }

    /// A fresh run over routes with the given numbers of handlers; `None` when
    /// the total number of slots does not fit in a `usize`.
    pub fn new(handler_counts: &Vec<usize>) -> (r: Option<Self>)
        ensures
            r is None <==> total_slots(handler_counts@.map_values(|h: usize| h as nat)) > usize::MAX,
            r matches Some(d) ==> {
                &&& d.wf()
                &&& d.counts() == handler_counts@.map_values(|h: usize| h as nat)
                &&& d.used() == Seq::new(handler_counts@.len(), |r: int| 0nat)
            },
    {
        let ghost counts = handler_counts@.map_values(|h: usize| h as nat);
        let mut routes: Vec<RouteCounter> = Vec::new();
        let mut total: usize = 0;
        let mut i: usize = 0;
        while i < handler_counts.len()
            invariant
                i <= handler_counts@.len(),
                counts == handler_counts@.map_values(|h: usize| h as nat),
                total as nat == total_slots(counts.subrange(0, i as int)),
                routes@.len() == i,
                forall|r: int| 0 <= r < i ==> (#[trigger] routes@[r]).handler_count == handler_counts@[r] && routes@[r].used == 0,
            decreases handler_counts@.len() - i,
        {
            let h = handler_counts[i];
            let s: usize = if h == 0 { 1 } else { h };
            assert(counts.subrange(0, i + 1).drop_last() =~= counts.subrange(0, i as int));
            if total > usize::MAX - s {
                proof {
                    lemma_total_slots_prefix(counts, (i + 1) as int);
                }
                return None;
            }
            total = total + s;
            routes.push(RouteCounter { handler_count: h, used: 0 });
            i = i + 1;
        }
        assert(counts.subrange(0, i as int) =~= counts);
        let ghost zeros = Seq::new(handler_counts@.len(), |r: int| 0nat);
        proof {
            lemma_sum_zeros(handler_counts@.len());
        }
        let d = Dispatcher { routes, tracker: CompletionTracker::new(total) };
        assert(d.counts() =~= counts);
        assert(d.used() =~= zeros);
        Some(d)
    }

    pub fn route_count(&self) -> (n: usize)
        ensures
            n == self.counts().len(),
    {
        self.routes.len()
    }

    pub fn is_complete(&self) -> (r: bool)
        requires
            self.wf(),
        ensures
            r == self.complete(),
    {
        self.tracker.is_complete()
    }

    /// Accounts one call to `route`: chooses its handler and uses a slot while
    /// the route has one left, reporting whether this call completes the run.
    pub fn dispatch(&mut self, route: usize) -> (out: Dispatch)
        requires
            old(self).wf(),
            route < old(self).counts().len(),
        ensures
            final(self).wf(),
            old(self).used().len() == old(self).counts().len(),
            final(self).counts() == old(self).counts(),
            final(self).used() == old(self).used().update(
                route as int,
                step_used(old(self).used()[route as int], old(self).counts()[route as int]),
            ),
            out.handler is None <==> chosen_handler(old(self).used()[route as int], old(self).counts()[route as int]) is None,
            out.handler matches Some(i) ==> chosen_handler(old(self).used()[route as int], old(self).counts()[route as int]) == Some(i as nat),
            out.counted == (old(self).used()[route as int] < slots(old(self).counts()[route as int])),
            out.fires == step_fires(old(self).counts(), old(self).used(), route as int),
            out.fires == (final(self).complete() && !old(self).complete()),
            old(self).complete() ==> final(self).complete(),
    {
        let ghost old_used = self.used();
        let ghost counts = self.counts();
        let h = self.routes[route].handler_count;
        let u = self.routes[route].used;
        let handler = if h == 0 {
            None
        } else if u < h {
            Some(u)
        } else {
            Some(h - 1)
        };
        let s: usize = if h == 0 { 1 } else { h };
        let counted = u < s;
        let mut fires = false;
        proof {
            lemma_sum_bounded(counts, old_used);
        }
        if counted {
            proof {
                assert(old_used[route as int] < slots(counts[route as int]));
                lemma_sum_update(old_used, route as int, old_used[route as int] + 1);
                lemma_sum_bounded(counts, old_used.update(route as int, old_used[route as int] + 1));
            }
            fires = self.tracker.notify();
            self.routes.set(route, RouteCounter { handler_count: h, used: u + 1 });
        }
        assert(self.counts() =~= counts);
        assert(self.used() =~= old_used.update(route as int, step_used(old_used[route as int], counts[route as int])));
        Dispatch { handler, counted, fires }
    }
}

proof fn lemma_total_slots_prefix(counts: Seq<nat>, i: int)
    requires
        0 <= i <= counts.len(),
    ensures
        total_slots(counts.subrange(0, i)) <= total_slots(counts),
    decreases counts.len() - i,
{
    if i < counts.len() {
        lemma_total_slots_prefix(counts, i + 1);
        assert(counts.subrange(0, i + 1).drop_last() =~= counts.subrange(0, i));
    } else {
        assert(counts.subrange(0, i) =~= counts);
    }
}

} // verus!
