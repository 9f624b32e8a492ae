//! Dependency tracking for fine-grained reactivity.
//!
//! Signals and effects are numbered in creation order. Reading a signal
//! while an effect runs subscribes that effect to the signal; setting a
//! signal re-runs exactly the live effects subscribed to it. Dependencies
//! are recomputed on every run (not accumulated), so an effect that
//! branches only stays subscribed to the signals it read in its last run.
//!
//! This module holds the bookkeeping and every decision; the host that owns
//! the signal values and the effect closures performs the runs it is told
//! to perform.

use vstd::prelude::*;

verus! {

/// `s` with every occurrence of `x` taken out.
pub open spec fn without(s: Seq<usize>, x: usize) -> Seq<usize>
    decreases s.len(),
{
    if s.len() == 0 {
        Seq::empty()
    } else if s.last() == x {
        without(s.drop_last(), x)
    } else {
        without(s.drop_last(), x).push(s.last())
    }
}

/// The entries of `s` whose effect is still alive, in order.
pub open spec fn alive_only(s: Seq<usize>, alive: Seq<bool>) -> Seq<usize>
    decreases s.len(),
{
    if s.len() == 0 {
        Seq::empty()
    } else if 0 <= s.last() < alive.len() && alive[s.last() as int] {
        alive_only(s.drop_last(), alive).push(s.last())
    } else {
        alive_only(s.drop_last(), alive)
    }
}

/// The abstract dependency graph.
#[verifier::ext_equal]
pub struct GraphState {
    /// For each signal, the effects subscribed to it, in subscription order.
    pub subscribers: Seq<Seq<usize>>,
    /// For each effect, the signals it read during its latest run.
    pub deps: Seq<Seq<usize>>,
    /// For each effect, whether its handle is still held.
    pub alive: Seq<bool>,
    /// The effects currently running, innermost last.
    pub stack: Seq<usize>,
}

/// The graph is consistent: every number refers to an existing signal or
/// effect, an effect is subscribed to a signal only if the signal is among
/// the effect's dependencies (and, while the effect is alive, exactly
/// then), and nothing is listed twice.
pub open spec fn graph_wf(g: GraphState) -> bool {
    &&& g.alive.len() == g.deps.len()
    &&& forall|s: int| 0 <= s < g.subscribers.len() ==> (#[trigger] g.subscribers[s]).no_duplicates()
    &&& forall|s: int, i: int|
        0 <= s < g.subscribers.len() && 0 <= i < g.subscribers[s].len() ==> #[trigger] g.subscribers[s][i]
            < g.deps.len()
    &&& forall|e: int, i: int|
        0 <= e < g.deps.len() && 0 <= i < g.deps[e].len() ==> #[trigger] g.deps[e][i]
            < g.subscribers.len()
    &&& forall|i: int| 0 <= i < g.stack.len() ==> #[trigger] g.stack[i] < g.deps.len()
    &&& forall|s: usize, e: usize|
        s < g.subscribers.len() && e < g.deps.len() && #[trigger] g.subscribers[s as int].contains(e)
            ==> g.deps[e as int].contains(s)
    &&& forall|s: usize, e: usize|
        s < g.subscribers.len() && e < g.deps.len() && g.alive[e as int]
            && #[trigger] g.deps[e as int].contains(s) ==> g.subscribers[s as int].contains(e)
}

/// A new signal, with no subscriber.
pub open spec fn signal_added(g: GraphState) -> GraphState {
    GraphState { subscribers: g.subscribers.push(Seq::empty()), ..g }
}

/// A new live effect, with no dependency.
pub open spec fn effect_added(g: GraphState) -> GraphState {
    GraphState { deps: g.deps.push(Seq::empty()), alive: g.alive.push(true), ..g }
}

/// Effect `e` starts a run: it is unsubscribed from everything it read
/// last time, forgets those dependencies, and becomes the innermost
/// running effect.
pub open spec fn run_begun(g: GraphState, e: usize) -> GraphState {
    GraphState {
        subscribers: g.subscribers.map_values(|subs: Seq<usize>| without(subs, e)),
        deps: g.deps.update(e as int, Seq::empty()),
        stack: g.stack.push(e),
        ..g
    }
}

/// The innermost running effect finishes its run.
pub open spec fn run_ended(g: GraphState) -> GraphState {
    if g.stack.len() == 0 {
        g
    } else {
        GraphState { stack: g.stack.drop_last(), ..g }
    }
}

/// Signal `s` is read: the innermost running effect, if any, subscribes
/// to it (once).
pub open spec fn read_tracked(g: GraphState, s: usize) -> GraphState {
    if g.stack.len() == 0 {
        g
    } else {
        let e = g.stack.last();
        if g.subscribers[s as int].contains(e) {
            g
        } else {
            GraphState {
                subscribers: g.subscribers.update(s as int, g.subscribers[s as int].push(e)),
                deps: g.deps.update(e as int, g.deps[e as int].push(s)),
                ..g
            }
        }
    }
}

/// Signal `s` was set: subscribers whose effect was dropped are forgotten.
pub open spec fn notified(g: GraphState, s: usize) -> GraphState {
    GraphState {
        subscribers: g.subscribers.update(s as int, alive_only(g.subscribers[s as int], g.alive)),
        ..g
    }
}

/// The effects to re-run when signal `s` is set: its live subscribers, in
/// subscription order.
pub open spec fn to_rerun(g: GraphState, s: usize) -> Seq<usize> {
    alive_only(g.subscribers[s as int], g.alive)
}

/// The handle of effect `e` was dropped.
pub open spec fn effect_dropped(g: GraphState, e: usize) -> GraphState {
    GraphState { alive: g.alive.update(e as int, false), ..g }
}

proof fn lemma_without_absent(s: Seq<usize>, x: usize)
    requires
        !s.contains(x),
    ensures
        without(s, x) == s,
    decreases s.len(),
{
    if s.len() > 0 {
        assert(!s.drop_last().contains(x)) by {
            if s.drop_last().contains(x) {
                let i = choose|i: int| 0 <= i < s.drop_last().len() && s.drop_last()[i] == x;
                assert(s[i] == x);
            }
        }
        lemma_without_absent(s.drop_last(), x);
        assert(s.drop_last().push(s.last()) =~= s);
    }
}

proof fn lemma_without_contains(s: Seq<usize>, x: usize, y: usize)
    ensures
        without(s, x).contains(y) <==> (s.contains(y) && y != x),
    decreases s.len(),
{
    broadcast use vstd::seq_lib::lemma_seq_contains_after_push;
    if s.len() > 0 {
        lemma_without_contains(s.drop_last(), x, y);
        assert(s.drop_last().push(s.last()) =~= s);
    }
}

proof fn lemma_without_no_duplicates(s: Seq<usize>, x: usize)
    requires
        s.no_duplicates(),
    ensures
        without(s, x).no_duplicates(),
    decreases s.len(),
{
    if s.len() > 0 {
        let d = s.drop_last();
        assert(d.no_duplicates());
        lemma_without_no_duplicates(d, x);
        if s.last() != x {
            lemma_without_contains(d, x, s.last());
            assert(!d.contains(s.last())) by {
                if d.contains(s.last()) {
                    let i = choose|i: int| 0 <= i < d.len() && d[i] == s.last();
                    assert(s[i] == s[s.len() - 1]);
                }
            }
            let w = without(d, x);
            assert forall|i: int, j: int|
                0 <= i < w.push(s.last()).len() && 0 <= j < w.push(s.last()).len() && i != j
                    implies w.push(s.last())[i] != w.push(s.last())[j] by {
                if i < w.len() && j < w.len() {
                } else if i == w.len() {
                    assert(w.contains(w[j]));
                } else {
                    assert(w.contains(w[i]));
                }
            }
        }
    }
}

proof fn lemma_alive_only_contains(s: Seq<usize>, alive: Seq<bool>, y: usize)
    ensures
        alive_only(s, alive).contains(y) <==> (s.contains(y) && 0 <= y < alive.len() && alive[y as int]),
    decreases s.len(),
{
    broadcast use vstd::seq_lib::lemma_seq_contains_after_push;
    if s.len() > 0 {
        lemma_alive_only_contains(s.drop_last(), alive, y);
        assert(s.drop_last().push(s.last()) =~= s);
    }
}

proof fn lemma_alive_only_no_duplicates(s: Seq<usize>, alive: Seq<bool>)
    requires
        s.no_duplicates(),
    ensures
        alive_only(s, alive).no_duplicates(),
    decreases s.len(),
{
    if s.len() > 0 {
        let d = s.drop_last();
        assert(d.no_duplicates());
        lemma_alive_only_no_duplicates(d, alive);
        lemma_alive_only_contains(d, alive, s.last());
        assert(!d.contains(s.last())) by {
            if d.contains(s.last()) {
                let i = choose|i: int| 0 <= i < d.len() && d[i] == s.last();
                assert(s[i] == s[s.len() - 1]);
            }
        }
        let w = alive_only(d, alive);
        assert forall|i: int, j: int|
            0 <= i < w.push(s.last()).len() && 0 <= j < w.push(s.last()).len() && i != j
                implies w.push(s.last())[i] != w.push(s.last())[j] by {
            if i < w.len() && j < w.len() {
            } else if i == w.len() {
                assert(w.contains(w[j]));
            } else {
                assert(w.contains(w[i]));
            }
        }
    }
}

proof fn lemma_alive_only_bounded(s: Seq<usize>, alive: Seq<bool>)
    ensures
        forall|i: int| 0 <= i < alive_only(s, alive).len() ==> #[trigger] alive_only(s, alive)[i] < alive.len() && alive[alive_only(s, alive)[i] as int],
{
    let a = alive_only(s, alive);
    assert forall|i: int| 0 <= i < a.len() implies #[trigger] a[i] < alive.len() && alive[a[i] as int] by {
        lemma_alive_only_contains(s, alive, a[i]);
        assert(a.contains(a[i]));
    }
}

/// The dependency graph of a reactive runtime.
pub struct ReactiveGraph {
    subscribers: Vec<Vec<usize>>,
    deps: Vec<Vec<usize>>,
    alive: Vec<bool>,
    stack: Vec<usize>,
}

impl View for ReactiveGraph {
    type V = GraphState;

    closed spec fn view(&self) -> GraphState {
        GraphState {
            subscribers: self.subscribers@.map_values(|v: Vec<usize>| v@),
            deps: self.deps@.map_values(|v: Vec<usize>| v@),
            alive: self.alive@,
            stack: self.stack@,
        }
    }
}

fn vec_contains(v: &Vec<usize>, x: usize) -> (r: bool)
    ensures
        r == v@.contains(x),
{
    let mut i: usize = 0;
    while i < v.len()
        invariant
            i <= v.len(),
            forall|j: int| 0 <= j < i ==> v@[j] != x,
        decreases v.len() - i,
    {
        if v[i] == x {
            return true;
        }
        i += 1;
    }
    false
}

fn vec_without(v: &Vec<usize>, x: usize) -> (r: Vec<usize>)
    ensures
        r@ == without(v@, x),
{
    let mut out: Vec<usize> = Vec::new();
    let mut i: usize = 0;
    while i < v.len()
        invariant
            i <= v.len(),
            out@ == without(v@.take(i as int), x),
        decreases v.len() - i,
    {
        assert(v@.take(i + 1).drop_last() =~= v@.take(i as int));
        if v[i] != x {
            out.push(v[i]);
        }
        i += 1;
    }
    assert(v@.take(v.len() as int) =~= v@);
    out
}

fn vec_alive_only(v: &Vec<usize>, alive: &Vec<bool>) -> (r: Vec<usize>)
    ensures
        r@ == alive_only(v@, alive@),
{
    let mut out: Vec<usize> = Vec::new();
    let mut i: usize = 0;
    while i < v.len()
        invariant
            i <= v.len(),
            out@ == alive_only(v@.take(i as int), alive@),
        decreases v.len() - i,
    {
        assert(v@.take(i + 1).drop_last() =~= v@.take(i as int));
        let e = v[i];
        if e < alive.len() && alive[e] {
            out.push(e);
        }
        i += 1;
    }
    assert(v@.take(v.len() as int) =~= v@);
    out
}

impl ReactiveGraph {
    /// The graph is consistent (see [`graph_wf`]).
    pub open spec fn wf(&self) -> bool {
        graph_wf(self@)
    }

    /// An empty graph: no signal, no effect, nothing running.
    pub fn new() -> (g: Self)
        ensures
            g.wf(),
            g@.subscribers.len() == 0,
            g@.deps.len() == 0,
            g@.stack.len() == 0,
    {
        let g = ReactiveGraph {
            subscribers: Vec::new(),
            deps: Vec::new(),
            alive: Vec::new(),
            stack: Vec::new(),
        };
        assert(g@.subscribers =~= Seq::<Seq<usize>>::empty());
        assert(g@.deps =~= Seq::<Seq<usize>>::empty());
        g
    }

    /// Registers a new signal and returns its number.
    pub fn add_signal(&mut self) -> (s: usize)
        requires
            old(self).wf(),
        ensures
            final(self).wf(),
            s == old(self)@.subscribers.len(),
            final(self)@ == signal_added(old(self)@),
    {
        let s = self.subscribers.len();
        self.subscribers.push(Vec::new());
        assert(self@.subscribers =~= old(self)@.subscribers.push(Seq::empty()));
        assert(self@ =~= signal_added(old(self)@));
        proof {
            let g = self@;
            assert forall|s2: usize, e: usize|
                s2 < g.subscribers.len() && e < g.deps.len() && g.alive[e as int]
                    && #[trigger] g.deps[e as int].contains(s2) implies g.subscribers[s2 as int].contains(e) by {
                let i = choose|i: int| 0 <= i < g.deps[e as int].len() && g.deps[e as int][i] == s2;
                assert(g.deps[e as int][i] < old(self)@.subscribers.len());
            }
        }
        s
    }

    /// Registers a new live effect and returns its number.
    pub fn add_effect(&mut self) -> (e: usize)
        requires
            old(self).wf(),
        ensures
            final(self).wf(),
            e == old(self)@.deps.len(),
            final(self)@ == effect_added(old(self)@),
    {
        let e = self.deps.len();
        self.deps.push(Vec::new());
        self.alive.push(true);
        assert(self@.deps =~= old(self)@.deps.push(Seq::empty()));
        assert(self@ =~= effect_added(old(self)@));
        proof {
            let g = self@;
            assert forall|s: usize, e2: usize|
                s < g.subscribers.len() && e2 < g.deps.len() && #[trigger] g.subscribers[s as int].contains(e2)
                    implies g.deps[e2 as int].contains(s) by {
                let i = choose|i: int| 0 <= i < g.subscribers[s as int].len() && g.subscribers[s as int][i] == e2;
                assert(g.subscribers[s as int][i] < old(self)@.deps.len());
            }
        }
        e
    }

    /// The innermost running effect, if any.
    pub fn running(&self) -> (r: Option<usize>)
        ensures
            r == (if self@.stack.len() > 0 {
                Some(self@.stack.last())
            } else {
                None
            }),
    {
        if self.stack.len() > 0 {
            Some(self.stack[self.stack.len() - 1])
        } else {
            None
        }
    }

    /// Effect `e` starts a run: it is unsubscribed from the signals it read
    /// last time, forgets them, and becomes the innermost running effect.
    pub fn begin_run(&mut self, e: usize)
        requires
            old(self).wf(),
            e < old(self)@.deps.len(),
        ensures
            final(self).wf(),
            final(self)@ == run_begun(old(self)@, e),
    {
        let ghost g = self@;
        let mut stale: Vec<usize> = Vec::new();
        self.deps.set_and_swap(e, &mut stale);
        assert(stale@ == g.deps[e as int]);
        let mut i: usize = 0;
        while i < stale.len()
            invariant
                i <= stale.len(),
                graph_wf(g),
                e < g.deps.len(),
                stale@ == g.deps[e as int],
                self.subscribers@.len() == g.subscribers.len(),
                self.deps@.len() == g.deps.len(),
                self.deps@[e as int]@ == Seq::<usize>::empty(),
                forall|e2: int| 0 <= e2 < g.deps.len() && e2 != e ==> #[trigger] self.deps@[e2]@ == g.deps[e2],
                self.alive@ == g.alive,
                self.stack@ == g.stack,
                forall|s: usize|
                    s < g.subscribers.len() ==> #[trigger] self.subscribers@[s as int]@ == (if stale@.take(
                        i as int,
                    ).contains(s) {
                        without(g.subscribers[s as int], e)
                    } else {
                        g.subscribers[s as int]
                    }),
            decreases stale.len() - i,
        {
            let s = stale[i];
            assert(s < g.subscribers.len());
            let w = vec_without(&self.subscribers[s], e);
            proof {
                lemma_without_idempotent(g.subscribers[s as int], e);
            }
            let ghost before = self.subscribers@;
            self.subscribers.set(s, w);
            proof {
                broadcast use vstd::seq_lib::lemma_seq_contains_after_push;
                assert(stale@.take(i + 1) =~= stale@.take(i as int).push(s));
                assert forall|s2: usize| s2 < g.subscribers.len() implies #[trigger] self.subscribers@[s2 as int]@
                    == (if stale@.take(i + 1).contains(s2) {
                    without(g.subscribers[s2 as int], e)
                } else {
                    g.subscribers[s2 as int]
                }) by {
                    if s2 != s {
                        assert(self.subscribers@[s2 as int]@ == before[s2 as int]@);
                        assert(stale@.take(i + 1).contains(s2) == stale@.take(i as int).contains(s2));
                    } else {
                        assert(before[s as int]@ == (if stale@.take(i as int).contains(s) {
                            without(g.subscribers[s as int], e)
                        } else {
                            g.subscribers[s as int]
                        }));
                        assert(stale@.take(i + 1).contains(s)) by {
                            assert(stale@.take(i + 1)[i as int] == s);
                        }
                    }
                }
            }
            i += 1;
        }
        self.stack.push(e);
        let ns = self.subscribers.len();
        proof {
            assert(ns == g.subscribers.len());
            assert(stale@.take(stale.len() as int) =~= stale@);
            assert forall|s: usize| s < g.subscribers.len() implies #[trigger] self.subscribers@[s as int]@
                == without(g.subscribers[s as int], e) by {
                if !stale@.contains(s) {
                    if g.subscribers[s as int].contains(e) {
                        assert(g.deps[e as int].contains(s));
                    }
                    lemma_without_absent(g.subscribers[s as int], e);
                }
            }
            assert forall|s: int| 0 <= s < g.subscribers.len() implies #[trigger] self.subscribers@[s]@
                == without(g.subscribers[s], e) by {
                assert(self.subscribers@[(s as usize) as int]@ == without(g.subscribers[(s as usize) as int], e));
            }
            assert(self@.subscribers =~= g.subscribers.map_values(
                |subs: Seq<usize>| without(subs, e),
            ));
            assert(self@.deps =~= g.deps.update(e as int, Seq::empty()));
            assert(self@ =~= run_begun(g, e));
            lemma_run_begun_wf(g, e);
        }
    }

    /// Signal `s` is read: the innermost running effect, if any, subscribes
    /// to it (once).
    pub fn track_read(&mut self, s: usize)
        requires
            old(self).wf(),
            s < old(self)@.subscribers.len(),
        ensures
            final(self).wf(),
            final(self)@ == read_tracked(old(self)@, s),
    {
        let ghost g = self@;
        if self.stack.len() == 0 {
            return;
        }
        let e = self.stack[self.stack.len() - 1];
        assert(g.stack[g.stack.len() - 1] < g.deps.len());
        if vec_contains(&self.subscribers[s], e) {
            return;
        }
        let mut subs: Vec<usize> = Vec::new();
        self.subscribers.set_and_swap(s, &mut subs);
        subs.push(e);
        self.subscribers.set(s, subs);
        let mut reads: Vec<usize> = Vec::new();
        self.deps.set_and_swap(e, &mut reads);
        reads.push(s);
        self.deps.set(e, reads);
        proof {
            assert(self@.subscribers =~= g.subscribers.update(s as int, g.subscribers[s as int].push(e)));
            assert(self@.deps =~= g.deps.update(e as int, g.deps[e as int].push(s)));
            assert(self@ =~= read_tracked(g, s));
            lemma_read_tracked_wf(g, s);
        }
    }

    /// Signal `s` was set: forgets subscribers whose effect was dropped and
    /// returns the effects to re-run, in subscription order.
    pub fn notify(&mut self, s: usize) -> (r: Vec<usize>)
        requires
            old(self).wf(),
            s < old(self)@.subscribers.len(),
        ensures
            final(self).wf(),
            final(self)@ == notified(old(self)@, s),
            r@ == to_rerun(old(self)@, s),
    {
        let ghost g = self@;
        let live = vec_alive_only(&self.subscribers[s], &self.alive);
        let mut result: Vec<usize> = Vec::new();
        let mut i: usize = 0;
        while i < live.len()
            invariant
                i <= live.len(),
                result@ == live@.take(i as int),
            decreases live.len() - i,
        {
            result.push(live[i]);
            assert(live@.take(i + 1) =~= result@);
            i += 1;
        }
        assert(live@.take(live.len() as int) =~= live@);
        self.subscribers.set(s, live);
        proof {
            assert(self@.subscribers =~= g.subscribers.update(s as int, alive_only(g.subscribers[s as int], g.alive)));
            assert(self@ =~= notified(g, s));
            lemma_notified_wf(g, s);
        }
        result
    }

    /// Ends the run of the innermost running effect.
    pub fn end_run(&mut self)
        requires
            old(self).wf(),
        ensures
            final(self).wf(),
            final(self)@ == run_ended(old(self)@),
    {
        self.stack.pop();
        assert(self@ =~= run_ended(old(self)@));
    }

    /// Marks effect `e` as dropped: it will never be re-run.
    pub fn drop_effect(&mut self, e: usize)
        requires
            old(self).wf(),
            e < old(self)@.deps.len(),
        ensures
            final(self).wf(),
            final(self)@ == effect_dropped(old(self)@, e),
    {
        self.alive.set(e, false);
        assert(self@ =~= effect_dropped(old(self)@, e));
    }
}

proof fn lemma_without_idempotent(s: Seq<usize>, x: usize)
    ensures
        without(without(s, x), x) == without(s, x),
{
    lemma_without_contains(s, x, x);
    lemma_without_absent(without(s, x), x);
}

proof fn lemma_run_begun_wf(g: GraphState, e: usize)
    requires
        graph_wf(g),
        e < g.deps.len(),
    ensures
        graph_wf(run_begun(g, e)),
{
    let h = run_begun(g, e);
    assert forall|s: int| 0 <= s < h.subscribers.len() implies (#[trigger] h.subscribers[s]).no_duplicates() by {
        lemma_without_no_duplicates(g.subscribers[s], e);
    }
    assert forall|s: int, i: int|
        0 <= s < h.subscribers.len() && 0 <= i < h.subscribers[s].len() implies #[trigger] h.subscribers[s][i]
            < h.deps.len() by {
        lemma_without_contains(g.subscribers[s], e, h.subscribers[s][i]);
        assert(h.subscribers[s].contains(h.subscribers[s][i]));
        let j = choose|j: int| 0 <= j < g.subscribers[s].len() && g.subscribers[s][j] == h.subscribers[s][i];
    }
    assert forall|s: usize, e2: usize|
        s < h.subscribers.len() && e2 < h.deps.len() && #[trigger] h.subscribers[s as int].contains(e2)
            implies h.deps[e2 as int].contains(s) by {
        lemma_without_contains(g.subscribers[s as int], e, e2);
        assert(g.subscribers[s as int].contains(e2));
    }
    assert forall|s: usize, e2: usize|
        s < h.subscribers.len() && e2 < h.deps.len() && h.alive[e2 as int]
            && #[trigger] h.deps[e2 as int].contains(s) implies h.subscribers[s as int].contains(e2) by {
        if e2 == e {
            assert(h.deps[e2 as int] == Seq::<usize>::empty());
        } else {
            assert(h.deps[e2 as int] == g.deps[e2 as int]);
            assert(g.subscribers[s as int].contains(e2));
            lemma_without_contains(g.subscribers[s as int], e, e2);
        }
    }
}

proof fn lemma_read_tracked_wf(g: GraphState, s: usize)
    requires
        graph_wf(g),
        s < g.subscribers.len(),
    ensures
        graph_wf(read_tracked(g, s)),
{
    broadcast use vstd::seq_lib::lemma_seq_contains_after_push;
    let h = read_tracked(g, s);
    if g.stack.len() > 0 && !g.subscribers[s as int].contains(g.stack.last()) {
        let e = g.stack.last();
        assert(g.stack[g.stack.len() - 1] < g.deps.len());
        assert forall|s2: int| 0 <= s2 < h.subscribers.len() implies (#[trigger] h.subscribers[s2]).no_duplicates() by {
            if s2 == s as int {
                let a = g.subscribers[s2];
                assert forall|i: int, j: int|
                    0 <= i < a.push(e).len() && 0 <= j < a.push(e).len() && i != j implies a.push(e)[i]
                        != a.push(e)[j] by {
                    if i < a.len() && j < a.len() {
                    } else if i == a.len() {
                        assert(a.contains(a[j]));
                    } else {
                        assert(a.contains(a[i]));
                    }
                }
            }
        }
        assert forall|s2: int, i: int|
            0 <= s2 < h.subscribers.len() && 0 <= i < h.subscribers[s2].len() implies #[trigger] h.subscribers[s2][i]
                < h.deps.len() by {
            if s2 == s as int && i < g.subscribers[s2].len() {
                assert(h.subscribers[s2][i] == g.subscribers[s2][i]);
            }
        }
        assert forall|e2: int, i: int|
            0 <= e2 < h.deps.len() && 0 <= i < h.deps[e2].len() implies #[trigger] h.deps[e2][i]
                < h.subscribers.len() by {
            if e2 == e as int && i < g.deps[e2].len() {
                assert(h.deps[e2][i] == g.deps[e2][i]);
            }
        }
        assert forall|s2: usize, e2: usize|
            s2 < h.subscribers.len() && e2 < h.deps.len() && #[trigger] h.subscribers[s2 as int].contains(e2)
                implies h.deps[e2 as int].contains(s2) by {
            if s2 == s && e2 == e {
            } else if s2 == s {
                assert(g.subscribers[s2 as int].contains(e2));
                if e2 == e {
                } else {
                    assert(h.deps[e2 as int] == g.deps[e2 as int]);
                }
            } else {
                assert(h.subscribers[s2 as int] == g.subscribers[s2 as int]);
                if e2 == e {
                    assert(g.deps[e2 as int].contains(s2));
                } else {
                    assert(h.deps[e2 as int] == g.deps[e2 as int]);
                }
            }
        }
        assert forall|s2: usize, e2: usize|
            s2 < h.subscribers.len() && e2 < h.deps.len() && h.alive[e2 as int]
                && #[trigger] h.deps[e2 as int].contains(s2) implies h.subscribers[s2 as int].contains(e2) by {
            if e2 == e && s2 == s {
            } else if e2 == e {
                assert(g.deps[e2 as int].contains(s2));
                assert(h.subscribers[s2 as int] == g.subscribers[s2 as int]);
            } else {
                assert(h.deps[e2 as int] == g.deps[e2 as int]);
                assert(g.subscribers[s2 as int].contains(e2));
                if s2 == s {
                } else {
                    assert(h.subscribers[s2 as int] == g.subscribers[s2 as int]);
                }
            }
        }
    }
}

proof fn lemma_notified_wf(g: GraphState, s: usize)
    requires
        graph_wf(g),
        s < g.subscribers.len(),
    ensures
        graph_wf(notified(g, s)),
{
    let h = notified(g, s);
    lemma_alive_only_no_duplicates(g.subscribers[s as int], g.alive);
    assert forall|s2: int, i: int|
        0 <= s2 < h.subscribers.len() && 0 <= i < h.subscribers[s2].len() implies #[trigger] h.subscribers[s2][i]
            < h.deps.len() by {
        if s2 == s as int {
            lemma_alive_only_bounded(g.subscribers[s2], g.alive);
        }
    }
    assert forall|s2: usize, e2: usize|
        s2 < h.subscribers.len() && e2 < h.deps.len() && #[trigger] h.subscribers[s2 as int].contains(e2)
            implies h.deps[e2 as int].contains(s2) by {
        lemma_alive_only_contains(g.subscribers[s as int], g.alive, e2);
        assert(g.subscribers[s2 as int].contains(e2));
    }
    assert forall|s2: usize, e2: usize|
        s2 < h.subscribers.len() && e2 < h.deps.len() && h.alive[e2 as int]
            && #[trigger] h.deps[e2 as int].contains(s2) implies h.subscribers[s2 as int].contains(e2) by {
        lemma_alive_only_contains(g.subscribers[s as int], g.alive, e2);
        assert(g.subscribers[s2 as int].contains(e2));
    }
}

/// The graph after the signals `reads` are read, in order.
pub open spec fn reads_tracked(g: GraphState, reads: Seq<usize>) -> GraphState
    decreases reads.len(),
{
    if reads.len() == 0 {
        g
    } else {
        read_tracked(reads_tracked(g, reads.drop_last()), reads.last())
    }
}

proof fn lemma_reads_tracked(g: GraphState, e: usize, reads: Seq<usize>)
    requires
        g.stack.len() > 0,
        g.stack.last() == e,
        forall|i: int| 0 <= i < reads.len() ==> #[trigger] reads[i] < g.subscribers.len(),
        forall|s: usize| s < g.subscribers.len() ==> !(#[trigger] g.subscribers[s as int].contains(e)),
    ensures
        reads_tracked(g, reads).stack == g.stack,
        reads_tracked(g, reads).subscribers.len() == g.subscribers.len(),
        reads_tracked(g, reads).alive == g.alive,
        forall|s: usize|
            s < g.subscribers.len() ==> (#[trigger] reads_tracked(g, reads).subscribers[s as int].contains(e)
                <==> reads.contains(s)),
    decreases reads.len(),
{
    broadcast use vstd::seq_lib::lemma_seq_contains_after_push;
    if reads.len() > 0 {
        let prev = reads.drop_last();
        lemma_reads_tracked(g, e, prev);
        let k = reads_tracked(g, prev);
        let r = reads.last();
        assert(reads =~= prev.push(r));
        assert(r < g.subscribers.len());
        assert forall|s: usize| s < g.subscribers.len() implies (
        #[trigger] reads_tracked(g, reads).subscribers[s as int].contains(e) <==> reads.contains(s)) by {
            assert(k.subscribers[s as int].contains(e) <==> prev.contains(s));
        }
    }
}

/// Dependencies are recomputed on every run: once an effect has run and
/// read the signals `reads` (and nothing else ran in between), it is
/// subscribed to exactly those signals, whatever it was subscribed to
/// before.
pub proof fn lemma_run_subscribes_exactly_what_it_read(g: GraphState, e: usize, reads: Seq<usize>)
    requires
        graph_wf(g),
        e < g.deps.len(),
        forall|i: int| 0 <= i < reads.len() ==> #[trigger] reads[i] < g.subscribers.len(),
    ensures
        run_ended(reads_tracked(run_begun(g, e), reads)).stack == g.stack,
        forall|s: usize|
            s < g.subscribers.len() ==> (#[trigger] run_ended(
                reads_tracked(run_begun(g, e), reads),
            ).subscribers[s as int].contains(e) <==> reads.contains(s)),
{
    let b = run_begun(g, e);
    assert forall|s: usize| s < b.subscribers.len() implies !(#[trigger] b.subscribers[s as int].contains(e)) by {
        lemma_without_contains(g.subscribers[s as int], e, e);
    }
    lemma_reads_tracked(b, e, reads);
    assert(b.stack.drop_last() =~= g.stack);
}

/// Setting a signal re-runs exactly the subscribed effects that are still
/// alive.
pub proof fn lemma_rerun_is_live_subscribers(g: GraphState, s: usize, e: usize)
    requires
        graph_wf(g),
        s < g.subscribers.len(),
    ensures
        to_rerun(g, s).contains(e) <==> (g.subscribers[s as int].contains(e) && e < g.alive.len()
            && g.alive[e as int]),
{
    lemma_alive_only_contains(g.subscribers[s as int], g.alive, e);
}

/// An effect whose handle was dropped is never re-run.
pub proof fn lemma_dropped_effect_never_reruns(g: GraphState, e: usize, s: usize)
    requires
        graph_wf(g),
        e < g.deps.len(),
        s < g.subscribers.len(),
    ensures
        !to_rerun(effect_dropped(g, e), s).contains(e),
{
    lemma_alive_only_contains(g.subscribers[s as int], g.alive.update(e as int, false), e);
}

/// Setting a signal re-runs an effect only if the effect read that signal
/// in its latest run.
pub proof fn lemma_rerun_only_on_dependencies(g: GraphState, s: usize, e: usize)
    requires
        graph_wf(g),
        s < g.subscribers.len(),
        to_rerun(g, s).contains(e),
    ensures
        g.deps[e as int].contains(s),
{
    lemma_alive_only_contains(g.subscribers[s as int], g.alive, e);
}

} // verus!
