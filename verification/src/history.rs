//! A bounded undo/redo stack over snapshot values.
//!
//! Pushing a new value records it as the present; [`History::undo`] and
//! [`History::redo`] walk the timeline. The stack stores plain snapshots, so
//! any cloneable application state (a UI tree, a form, ...) can be tracked.

use vstd::prelude::*;
use vstd::std_specs::cmp::PartialEqSpec;

verus! {

/// A bounded undo/redo stack. `limit`, if set, caps how many past snapshots
/// are retained when a new value is pushed (the oldest are dropped first).
pub struct History<T> {
    past: Vec<T>,
    present: T,
    future: Vec<T>,
    limit: Option<usize>,
}

/// The abstract timeline: past snapshots (oldest first), the present, and
/// future snapshots (the next redo last).
pub struct Timeline<T> {
    pub past: Seq<T>,
    pub present: T,
    pub future: Seq<T>,
    pub limit: Option<usize>,
}

impl<T> View for History<T> {
    type V = Timeline<T>;

    closed spec fn view(&self) -> Timeline<T> {
        Timeline {
            past: self.past@,
            present: self.present,
            future: self.future@,
            limit: self.limit,
        }
    }
}

/// Keeps only the newest `limit` snapshots of `past`.
pub open spec fn trim<T>(past: Seq<T>, limit: Option<usize>) -> Seq<T> {
    match limit {
        Some(l) => if past.len() > l {
            past.skip(past.len() - l)
        } else {
            past
        },
        None => past,
    }
}

/// The timeline after committing `v` as the new present.
pub open spec fn pushed<T>(h: Timeline<T>, v: T) -> Timeline<T> {
    Timeline {
        past: trim(h.past.push(h.present), h.limit),
        present: v,
        future: Seq::empty(),
        limit: h.limit,
    }
}

/// The timeline after one undo (meaningful when the past is not empty).
pub open spec fn undone<T>(h: Timeline<T>) -> Timeline<T> {
    Timeline {
        past: h.past.drop_last(),
        present: h.past.last(),
        future: h.future.push(h.present),
        limit: h.limit,
    }
}

/// The timeline after one redo (meaningful when the future is not empty).
pub open spec fn redone<T>(h: Timeline<T>) -> Timeline<T> {
    Timeline {
        past: h.past.push(h.present),
        present: h.future.last(),
        future: h.future.drop_last(),
        limit: h.limit,
    }
}

impl<T: Clone> History<T> {
    /// Creates a history seeded with `initial` as the present.
    pub fn new(initial: T, limit: Option<usize>) -> (h: Self)
        ensures
            h@.past == Seq::<T>::empty(),
            h@.present == initial,
            h@.future == Seq::<T>::empty(),
            h@.limit == limit,
    {
        History { past: Vec::new(), present: initial, future: Vec::new(), limit }
    }

    /// Returns the current value.
    pub fn present(&self) -> (r: &T)
        ensures
            *r == self@.present,
    {
        &self.present
    }

    /// Commits a new present, pushing the old one onto the undo stack and
    /// clearing the redo stack. Nothing changes if `new_value` equals the
    /// current present.
    pub fn push(&mut self, new_value: T)
        where
            T: PartialEq,
        ensures
            final(self)@ == old(self)@ || final(self)@ == pushed(old(self)@, new_value),
            T::obeys_eq_spec() ==> final(self)@ == (if new_value.eq_spec(&old(self)@.present) {
                old(self)@
            } else {
                pushed(old(self)@, new_value)
            }),
    {
        if new_value == self.present {
            return;
        }
        let ghost before = self@;
        let mut previous = new_value;
        std::mem::swap(&mut self.present, &mut previous);
        self.past.push(previous);
        let ghost full = self.past@;
        let ghost present = self.present;
        let ghost future = self.future@;
        assert(full == before.past.push(before.present));
        if let Some(limit) = self.limit {
            while self.past.len() > limit
                invariant
                    self.past@.len() >= limit || self.past@ == full,
                    full.len() >= self.past@.len(),
                    self.limit == Some(limit),
                    self.present == present,
                    self.future@ == future,
                    self.past@ == full.skip(full.len() - self.past@.len()),
                decreases self.past.len(),
            {
                self.past.remove(0);
                assert(self.past@ =~= full.skip(full.len() - self.past@.len()));
            }
            assert(full.skip(0) =~= full);
            assert(self.past@ =~= trim(full, self.limit));
        }
        self.future.clear();
        assert(self@ =~= pushed(before, new_value));
    }

    /// Moves the present onto the redo stack and restores the most recent
    /// past snapshot. Returns `true` if an undo happened.
    pub fn undo(&mut self) -> (r: bool)
        ensures
            r == (old(self)@.past.len() > 0),
            final(self)@ == (if r {
                undone(old(self)@)
            } else {
                old(self)@
            }),
    {
        match self.past.pop() {
            Some(prev) => {
                let mut current = prev;
                std::mem::swap(&mut self.present, &mut current);
                self.future.push(current);
                true
            },
            None => false,
        }
    }

    /// Moves the present onto the undo stack and restores the most recent
    /// future snapshot. Returns `true` if a redo happened.
    pub fn redo(&mut self) -> (r: bool)
        ensures
            r == (old(self)@.future.len() > 0),
            final(self)@ == (if r {
                redone(old(self)@)
            } else {
                old(self)@
            }),
    {
        match self.future.pop() {
            Some(next) => {
                let mut current = next;
                std::mem::swap(&mut self.present, &mut current);
                self.past.push(current);
                true
            },
            None => false,
        }
    }

    /// Whether an undo would succeed.
    pub fn can_undo(&self) -> (r: bool)
        ensures
            r == (self@.past.len() > 0),
    {
        !self.past.is_empty()
    }

    /// Whether a redo would succeed.
    pub fn can_redo(&self) -> (r: bool)
        ensures
            r == (self@.future.len() > 0),
    {
        !self.future.is_empty()
    }

    /// Number of undo-able steps currently retained.
    pub fn depth(&self) -> (r: usize)
        ensures
            r == self@.past.len(),
    {
        self.past.len()
    }
}

/// Undoing a redo gives back the timeline exactly.
pub proof fn lemma_undo_after_redo<T>(h: Timeline<T>)
    requires
        h.future.len() > 0,
    ensures
        undone(redone(h)) == h,
{
    assert(undone(redone(h)).past =~= h.past);
    assert(undone(redone(h)).future =~= h.future);
}

/// Redoing an undo gives back the timeline exactly.
pub proof fn lemma_redo_after_undo<T>(h: Timeline<T>)
    requires
        h.past.len() > 0,
    ensures
        redone(undone(h)) == h,
{
    assert(redone(undone(h)).past =~= h.past);
    assert(redone(undone(h)).future =~= h.future);
}

/// After a push the value is the present, nothing is left to redo, and no
/// more than `limit` snapshots are retained.
pub proof fn lemma_push_clears_redo_and_respects_limit<T>(h: Timeline<T>, v: T)
    ensures
        pushed(h, v).present == v,
        pushed(h, v).future.len() == 0,
        pushed(h, v).past.len() > 0 || h.limit == Some(0usize),
        h.limit matches Some(l) ==> pushed(h, v).past.len() <= l,
{
}

/// Undoing a push restores the previous present, and the pushed value
/// becomes the one thing to redo. When no snapshot was dropped by the
/// limit, the past is restored too.
pub proof fn lemma_undo_after_push<T>(h: Timeline<T>, v: T)
    requires
        h.limit matches Some(l) ==> l > 0,
    ensures
        undone(pushed(h, v)).present == h.present,
        undone(pushed(h, v)).future == seq![v],
        (h.limit matches Some(l) ==> h.past.len() < l) ==> undone(pushed(h, v)).past == h.past,
{
    let p = h.past.push(h.present);
    let t = trim(p, h.limit);
    assert(t.last() == h.present);
    assert(undone(pushed(h, v)).future =~= seq![v]);
    if h.limit matches Some(l) ==> h.past.len() < l {
        assert(t =~= p);
        assert(t.drop_last() =~= h.past);
    }
}

} // verus!
