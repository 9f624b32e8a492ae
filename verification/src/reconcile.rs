//! Backend-agnostic keyed list reconciliation.
//!
//! The input is two ordered sequences of keys: the previous render's keys and
//! the next render's keys. The output is a [`KeyedDiff`] saying, for each item
//! of the new sequence, whether the node rendered for that key can stay where
//! it is, must be moved, or must be created, plus the keys that disappeared.
//!
//! Keys should be unique; with duplicate keys the moves carry no meaning,
//! although the contracts below still describe exactly what is produced.

use vstd::prelude::*;

use crate::text::{decimal, push_decimal, push_str};

verus! {

/// A key that identifies one item of a keyed collection. Keys are compared
/// and copied by their view.
pub trait ReconcileKey: View + Sized {
    /// The text a key is shown as in change descriptions.
    spec fn key_text(&self) -> Seq<char>;

    fn same_key(&self, other: &Self) -> (r: bool)
        ensures
            r == (self@ == other@);

    fn copy_key(&self) -> (r: Self)
        ensures
            r@ == self@;

    fn text(&self) -> (r: String)
        ensures
            r@ == self.key_text();
}

impl ReconcileKey for String {
    open spec fn key_text(&self) -> Seq<char> {
        self@
    }

    fn same_key(&self, other: &Self) -> (r: bool) {
        *self == *other
    }

    fn copy_key(&self) -> (r: Self) {
        self.clone()
    }

    fn text(&self) -> (r: String) {
        self.clone()
    }
}

/// What to do with one item of the new sequence.
#[derive(Debug, Clone, PartialEq, Eq)]
pub enum ListEdit<K> {
    /// The key was rendered and already sits at this position.
    Keep { key: K },
    /// The key was rendered, at another position: move it here.
    Move { key: K },
    /// The key is new: create a node here.
    Insert { key: K },
}

/// The result of diffing two keyed sequences.
#[derive(Debug, Clone, PartialEq, Eq)]
pub struct KeyedDiff<K> {
    /// One entry per item of the new sequence, in order.
    pub edits: Vec<ListEdit<K>>,
    /// Keys of the old sequence that the new one lacks, in old order.
    pub removed: Vec<K>,
}

impl<K: View> View for ListEdit<K> {
    type V = ListEdit<K::V>;

    open spec fn view(&self) -> ListEdit<K::V> {
        match self {
            ListEdit::Keep { key } => ListEdit::Keep { key: key@ },
            ListEdit::Move { key } => ListEdit::Move { key: key@ },
            ListEdit::Insert { key } => ListEdit::Insert { key: key@ },
        }
    }
}

impl<K> ListEdit<K> {
    /// The key an edit is about.
    pub open spec fn key(self) -> K {
        match self {
            ListEdit::Keep { key } => key,
            ListEdit::Move { key } => key,
            ListEdit::Insert { key } => key,
        }
    }
}

/// The abstract diff: the edits and the removed keys, all taken by view.
pub struct DiffView<V> {
    pub edits: Seq<ListEdit<V>>,
    pub removed: Seq<V>,
}

impl<K: View> View for KeyedDiff<K> {
    type V = DiffView<K::V>;

    open spec fn view(&self) -> DiffView<K::V> {
        DiffView {
            edits: self.edits@.map_values(|e: ListEdit<K>| e@),
            removed: self.removed@.map_values(|k: K| k@),
        }
    }
}

/// The views of a sequence of keys.
pub open spec fn key_views<K: View>(s: Seq<K>) -> Seq<K::V> {
    s.map_values(|k: K| k@)
}

/// The keys of `old` that also occur in `new`, in old order.
pub open spec fn present_in<V>(old: Seq<V>, new: Seq<V>) -> Seq<V>
    decreases old.len(),
{
    if old.len() == 0 {
        Seq::empty()
    } else if new.contains(old.last()) {
        present_in(old.drop_last(), new).push(old.last())
    } else {
        present_in(old.drop_last(), new)
    }
}

/// The keys of `old` that do not occur in `new`, in old order.
pub open spec fn absent_from<V>(old: Seq<V>, new: Seq<V>) -> Seq<V>
    decreases old.len(),
{
    if old.len() == 0 {
        Seq::empty()
    } else if new.contains(old.last()) {
        absent_from(old.drop_last(), new)
    } else {
        absent_from(old.drop_last(), new).push(old.last())
    }
}

/// One step of the walk over the new sequence. `surviving` holds the old
/// keys, in old order, that occur in the new sequence and have not been
/// placed yet. A key absent from `old` is inserted; a key at the front of
/// `surviving` keeps its node; any other known key is moved (and leaves
/// `surviving`).
pub open spec fn step<V>(surviving: Seq<V>, old: Seq<V>, k: V) -> (Seq<V>, ListEdit<V>) {
    if !old.contains(k) {
        (surviving, ListEdit::Insert { key: k })
    } else if surviving.len() > 0 && surviving[0] == k {
        (surviving.drop_first(), ListEdit::Keep { key: k })
    } else {
        (surviving.remove_value(k), ListEdit::Move { key: k })
    }
}

/// The walk over the first `n` keys of `new`: the keys still surviving and
/// the edits produced so far.
pub open spec fn walk<V>(old: Seq<V>, new: Seq<V>, n: nat) -> (Seq<V>, Seq<ListEdit<V>>)
    recommends
        n <= new.len(),
    decreases n,
{
    if n == 0 {
        (present_in(old, new), Seq::empty())
    } else {
        let (surviving, edits) = walk(old, new, (n - 1) as nat);
        let (next, edit) = step(surviving, old, new[n - 1]);
        (next, edits.push(edit))
    }
}

/// The edits that turn `old` into `new`.
pub open spec fn reconcile_edits<V>(old: Seq<V>, new: Seq<V>) -> Seq<ListEdit<V>> {
    walk(old, new, new.len()).1
}

/// What applying a diff yields: the keys of its edits, in order.
pub open spec fn applied<V>(edits: Seq<ListEdit<V>>) -> Seq<V> {
    edits.map_values(|e: ListEdit<V>| e.key())
}

fn contains_key<K: ReconcileKey>(s: &[K], k: &K) -> (r: bool)
    ensures
        r == key_views(s@).contains(k@),
{
    let mut i: usize = 0;
    while i < s.len()
        invariant
            i <= s.len(),
            forall|j: int| 0 <= j < i ==> s@[j]@ != k@,
        decreases s.len() - i,
    {
        if s[i].same_key(k) {
            assert(key_views(s@)[i as int] == k@);
            return true;
        }
        i += 1;
    }
    proof {
        if key_views(s@).contains(k@) {
            let j = choose|j: int| 0 <= j < key_views(s@).len() && key_views(s@)[j] == k@;
            assert(s@[j]@ == k@);
        }
    }
    false
}

fn position_of<K: ReconcileKey>(s: &Vec<K>, k: &K) -> (r: Option<usize>)
    ensures
        match r {
            Some(i) => key_views(s@).index_of_first(k@) == Some(i as int),
            None => key_views(s@).index_of_first(k@) is None,
        },
{
    proof {
        key_views(s@).index_of_first_ensures(k@);
    }
    let mut i: usize = 0;
    while i < s.len()
        invariant
            i <= s.len(),
            forall|j: int| 0 <= j < i ==> s@[j]@ != k@,
        decreases s.len() - i,
    {
        if s[i].same_key(k) {
            proof {
                let v = key_views(s@);
                v.index_of_first_ensures(k@);
                assert(v[i as int] == k@);
                assert(v.contains(k@));
                let f = v.index_of_first(k@).unwrap();
                if f < i as int {
                    assert(s@[f]@ != k@);
                }
            }
            return Some(i);
        }
        i += 1;
    }
    proof {
        if key_views(s@).contains(k@) {
            let j = choose|j: int| 0 <= j < key_views(s@).len() && key_views(s@)[j] == k@;
            assert(s@[j]@ == k@);
        }
    }
    None
}

/// The views of a sequence of edits.
pub open spec fn edit_views<K: View>(s: Seq<ListEdit<K>>) -> Seq<ListEdit<K::V>> {
    s.map_values(|e: ListEdit<K>| e@)
}

/// Diffs `old` against `new`, producing the edits a backend needs to
/// reconcile a rendered keyed collection (add, remove, reorder) without a
/// full rebuild.
pub fn reconcile_keys<K: ReconcileKey>(old: &[K], new: &[K]) -> (diff: KeyedDiff<K>)
    ensures
        edit_views(diff.edits@) == reconcile_edits(key_views(old@), key_views(new@)),
        key_views(diff.removed@) == absent_from(key_views(old@), key_views(new@)),
{
    let ghost ov = key_views(old@);
    let ghost nv = key_views(new@);
    let mut surviving: Vec<K> = Vec::new();
    let mut removed: Vec<K> = Vec::new();
    let mut i: usize = 0;
    while i < old.len()
        invariant
            i <= old.len(),
            ov == key_views(old@),
            nv == key_views(new@),
            key_views(surviving@) == present_in(ov.take(i as int), nv),
            key_views(removed@) == absent_from(ov.take(i as int), nv),
        decreases old.len() - i,
    {
        let ghost prev = ov.take(i as int);
        assert(ov.take(i + 1).drop_last() =~= prev);
        assert(ov.take(i + 1).last() == old@[i as int]@);
        if contains_key(new, &old[i]) {
            let k = old[i].copy_key();
            surviving.push(k);
            assert(key_views(surviving@) =~= present_in(prev, nv).push(old@[i as int]@));
        } else {
            let k = old[i].copy_key();
            removed.push(k);
            assert(key_views(removed@) =~= absent_from(prev, nv).push(old@[i as int]@));
        }
        i += 1;
    }
    assert(ov.take(old.len() as int) =~= ov);

    let mut edits: Vec<ListEdit<K>> = Vec::new();
    let mut j: usize = 0;
    while j < new.len()
        invariant
            j <= new.len(),
            ov == key_views(old@),
            nv == key_views(new@),
            key_views(surviving@) == walk(ov, nv, j as nat).0,
            edit_views(edits@) == walk(ov, nv, j as nat).1,
        decreases new.len() - j,
    {
        let ghost before = key_views(surviving@);
        let ghost before_edits = edit_views(edits@);
        let k = &new[j];
        assert(nv[j as int] == k@);
        if !contains_key(old, k) {
            edits.push(ListEdit::Insert { key: k.copy_key() });
            assert(key_views(surviving@) == before);
        } else if surviving.len() > 0 && surviving[0].same_key(k) {
            surviving.remove(0);
            assert(key_views(surviving@) =~= before.drop_first());
            edits.push(ListEdit::Keep { key: k.copy_key() });
        } else {
            proof {
                before.index_of_first_ensures(k@);
            }
            match position_of(&surviving, k) {
                Some(idx) => {
                    surviving.remove(idx);
                    assert(key_views(surviving@) =~= before.remove(idx as int));
                },
                None => {},
            }
            assert(key_views(surviving@) == before.remove_value(k@));
            edits.push(ListEdit::Move { key: k.copy_key() });
        }
        assert(edit_views(edits@) =~= before_edits.push(step(before, ov, nv[j as int]).1));
        j += 1;
    }
    KeyedDiff { edits, removed }
}

/// Applies a diff to a keyed sequence, for backends that keep their own
/// mirror of the rendered keys. The result is the keys of the diff's edits,
/// in order; for a diff made by [`reconcile_keys`] from `old` to `new` it is
/// `new` (see [`lemma_apply_reconcile_is_new`]).
pub fn apply_edits<K: ReconcileKey>(old: &[K], diff: &KeyedDiff<K>) -> (out: Vec<K>)
    ensures
        key_views(out@) == applied(edit_views(diff.edits@)),
{
    let mut working: Vec<K> = Vec::new();
    let mut i: usize = 0;
    while i < old.len()
        invariant
            i <= old.len(),
        decreases old.len() - i,
    {
        if !contains_key(diff.removed.as_slice(), &old[i]) {
            working.push(old[i].copy_key());
        }
        i += 1;
    }
    let ghost ev = edit_views(diff.edits@);
    let mut out: Vec<K> = Vec::new();
    let mut j: usize = 0;
    while j < diff.edits.len()
        invariant
            j <= diff.edits.len(),
            ev == edit_views(diff.edits@),
            key_views(out@) == applied(ev.take(j as int)),
        decreases diff.edits.len() - j,
    {
        let ghost before = key_views(out@);
        assert(ev[j as int] == diff.edits@[j as int]@);
        match &diff.edits[j] {
            ListEdit::Keep { key } | ListEdit::Move { key } => {
                match position_of(&working, key) {
                    Some(idx) => {
                        proof {
                            key_views(working@).index_of_first_ensures(key@);
                        }
                        working.remove(idx);
                    },
                    None => {},
                }
                out.push(key.copy_key());
                assert(ev[j as int].key() == key@);
            },
            ListEdit::Insert { key } => {
                out.push(key.copy_key());
                assert(ev[j as int].key() == key@);
            },
        }
        assert(key_views(out@) =~= before.push(ev[j as int].key()));
        assert(ev.take(j + 1) =~= ev.take(j as int).push(ev[j as int]));
        assert(applied(ev.take(j + 1)) =~= applied(ev.take(j as int)).push(ev[j as int].key()));
        j += 1;
    }
    assert(ev.take(diff.edits.len() as int) =~= ev);
    out
}

/// The one-line description of an edit: `"kept k"`, `"moved k"` or
/// `"inserted k"`.
pub open spec fn describe<K: ReconcileKey>(edit: ListEdit<K>) -> Seq<char> {
    match edit {
        ListEdit::Keep { key } => "kept "@ + key.key_text(),
        ListEdit::Move { key } => "moved "@ + key.key_text(),
        ListEdit::Insert { key } => "inserted "@ + key.key_text(),
    }
}

/// A one-line human-readable description of a single edit, for
/// change-explanation UIs (e.g. "moved a", "inserted c", "kept b").
pub fn edit_description<K: ReconcileKey>(edit: &ListEdit<K>) -> (r: String)
    ensures
        r@ == describe(*edit),
{
    match edit {
        ListEdit::Keep { key } => {
            let mut s = String::from_str("kept ");
            push_str(&mut s, key.text().as_str());
            s
        },
        ListEdit::Move { key } => {
            let mut s = String::from_str("moved ");
            push_str(&mut s, key.text().as_str());
            s
        },
        ListEdit::Insert { key } => {
            let mut s = String::from_str("inserted ");
            push_str(&mut s, key.text().as_str());
            s
        },
    }
}

/// How many edits of a sequence keep their node.
pub open spec fn count_keeps<V>(edits: Seq<ListEdit<V>>) -> nat
    decreases edits.len(),
{
    if edits.len() == 0 {
        0
    } else {
        count_keeps(edits.drop_last()) + if edits.last() is Keep { 1nat } else { 0nat }
    }
}

/// How many edits of a sequence move a node.
pub open spec fn count_moves<V>(edits: Seq<ListEdit<V>>) -> nat
    decreases edits.len(),
{
    if edits.len() == 0 {
        0
    } else {
        count_moves(edits.drop_last()) + if edits.last() is Move { 1nat } else { 0nat }
    }
}

/// How many edits of a sequence insert a node.
pub open spec fn count_inserts<V>(edits: Seq<ListEdit<V>>) -> nat
    decreases edits.len(),
{
    if edits.len() == 0 {
        0
    } else {
        count_inserts(edits.drop_last()) + if edits.last() is Insert { 1nat } else { 0nat }
    }
}

proof fn lemma_counts_bounded<V>(edits: Seq<ListEdit<V>>)
    ensures
        count_keeps(edits) + count_moves(edits) + count_inserts(edits) == edits.len(),
    decreases edits.len(),
{
    if edits.len() > 0 {
        lemma_counts_bounded(edits.drop_last());
    }
}

/// The summary line: `"kept K, moved M, inserted I, removed R"`.
pub open spec fn summary<V>(edits: Seq<ListEdit<V>>, removed: nat) -> Seq<char> {
    "kept "@ + decimal(count_keeps(edits)) + ", moved "@ + decimal(count_moves(edits))
        + ", inserted "@ + decimal(count_inserts(edits)) + ", removed "@ + decimal(removed)
}

/// A human-readable summary of a diff: how many items were kept, moved,
/// inserted and removed.
pub fn diff_summary<K>(diff: &KeyedDiff<K>) -> (r: String)
    ensures
        r@ == summary(diff.edits@, diff.removed@.len()),
{
    let mut keeps: usize = 0;
    let mut moves: usize = 0;
    let mut inserts: usize = 0;
    let mut i: usize = 0;
    while i < diff.edits.len()
        invariant
            i <= diff.edits.len(),
            keeps == count_keeps(diff.edits@.take(i as int)),
            moves == count_moves(diff.edits@.take(i as int)),
            inserts == count_inserts(diff.edits@.take(i as int)),
        decreases diff.edits.len() - i,
    {
        proof {
            lemma_counts_bounded(diff.edits@.take(i as int));
            assert(diff.edits@.take(i + 1).drop_last() =~= diff.edits@.take(i as int));
        }
        match &diff.edits[i] {
            ListEdit::Keep { .. } => keeps += 1,
            ListEdit::Move { .. } => moves += 1,
            ListEdit::Insert { .. } => inserts += 1,
        }
        i += 1;
    }
    assert(diff.edits@.take(diff.edits.len() as int) =~= diff.edits@);
    let mut s = String::from_str("kept ");
    push_decimal(&mut s, keeps as u64);
    push_str(&mut s, ", moved ");
    push_decimal(&mut s, moves as u64);
    push_str(&mut s, ", inserted ");
    push_decimal(&mut s, inserts as u64);
    push_str(&mut s, ", removed ");
    push_decimal(&mut s, diff.removed.len() as u64);
    s
}

proof fn lemma_walk_shape<V>(old: Seq<V>, new: Seq<V>, n: nat)
    requires
        n <= new.len(),
    ensures
        walk(old, new, n).1.len() == n,
        forall|i: int|
            0 <= i < n ==> (#[trigger] walk(old, new, n).1[i]).key() == new[i] && (walk(
                old,
                new,
                n,
            ).1[i] is Insert <==> !old.contains(new[i])),
    decreases n,
{
    if n > 0 {
        lemma_walk_shape(old, new, (n - 1) as nat);
    }
}

/// Applying the diff from `old` to `new` gives back exactly `new`, whatever
/// the keys (duplicates included).
pub proof fn lemma_apply_reconcile_is_new<V>(old: Seq<V>, new: Seq<V>)
    ensures
        applied(reconcile_edits(old, new)) == new,
{
    lemma_walk_shape(old, new, new.len());
    assert(applied(reconcile_edits(old, new)) =~= new);
}

/// There is one edit per new key, about that key, and it is an insertion
/// exactly when the key did not occur in `old`.
pub proof fn lemma_edits_follow_new<V>(old: Seq<V>, new: Seq<V>)
    ensures
        reconcile_edits(old, new).len() == new.len(),
        forall|i: int|
            0 <= i < new.len() ==> (#[trigger] reconcile_edits(old, new)[i]).key() == new[i],
        forall|i: int|
            0 <= i < new.len() ==> (#[trigger] reconcile_edits(old, new)[i] is Insert
                <==> !old.contains(new[i])),
{
    lemma_walk_shape(old, new, new.len());
}

proof fn lemma_present_in_all<V>(old: Seq<V>, new: Seq<V>)
    requires
        forall|i: int| 0 <= i < old.len() ==> new.contains(#[trigger] old[i]),
    ensures
        present_in(old, new) == old,
        absent_from(old, new) == Seq::<V>::empty(),
    decreases old.len(),
{
    if old.len() > 0 {
        let rest = old.drop_last();
        assert forall|i: int| 0 <= i < rest.len() implies new.contains(#[trigger] rest[i]) by {
            assert(rest[i] == old[i]);
        }
        lemma_present_in_all(rest, new);
        assert(new.contains(old[old.len() - 1]));
        assert(rest.push(old.last()) =~= old);
    }
}

proof fn lemma_walk_identical<V>(s: Seq<V>, n: nat)
    requires
        n <= s.len(),
    ensures
        walk(s, s, n).0 == s.skip(n as int),
        walk(s, s, n).1.len() == n,
        forall|i: int| 0 <= i < n ==> #[trigger] walk(s, s, n).1[i] == (ListEdit::Keep { key: s[i] }),
    decreases n,
{
    if n == 0 {
        assert forall|i: int| 0 <= i < s.len() implies s.contains(#[trigger] s[i]) by {}
        lemma_present_in_all(s, s);
        assert(s.skip(0) =~= s);
    } else {
        lemma_walk_identical(s, (n - 1) as nat);
        let k = s[n - 1];
        assert(s.contains(k));
        assert(s.skip(n - 1)[0] == k);
        assert(s.skip(n - 1).drop_first() =~= s.skip(n as int));
    }
}

/// Diffing a sequence against itself keeps every node in place and removes
/// nothing.
pub proof fn lemma_identical_lists_all_keep<V>(s: Seq<V>)
    ensures
        reconcile_edits(s, s).len() == s.len(),
        forall|i: int|
            0 <= i < s.len() ==> #[trigger] reconcile_edits(s, s)[i] == (ListEdit::Keep { key: s[i] }),
        absent_from(s, s) == Seq::<V>::empty(),
{
    lemma_walk_identical(s, s.len());
    assert forall|i: int| 0 <= i < s.len() implies s.contains(#[trigger] s[i]) by {}
    lemma_present_in_all(s, s);
}

/// A key is reported removed exactly when it occurs in `old` and not in
/// `new`.
pub proof fn lemma_removed_are_the_vanished_keys<V>(old: Seq<V>, new: Seq<V>, k: V)
    ensures
        absent_from(old, new).contains(k) <==> (old.contains(k) && !new.contains(k)),
    decreases old.len(),
{
    broadcast use vstd::seq_lib::lemma_seq_contains_after_push;
    if old.len() > 0 {
        let rest = old.drop_last();
        lemma_removed_are_the_vanished_keys(rest, new, k);
        assert(old =~= rest.push(old.last()));
    }
}

/// Reordering a list (the same keys on both sides) only keeps and moves
/// nodes: no key is inserted and none is removed.
pub proof fn lemma_reorder_is_only_keeps_and_moves<V>(old: Seq<V>, new: Seq<V>)
    requires
        forall|i: int| 0 <= i < new.len() ==> old.contains(#[trigger] new[i]),
        forall|i: int| 0 <= i < old.len() ==> new.contains(#[trigger] old[i]),
    ensures
        forall|i: int| 0 <= i < new.len() ==> !(#[trigger] reconcile_edits(old, new)[i] is Insert),
        absent_from(old, new) == Seq::<V>::empty(),
{
    lemma_edits_follow_new(old, new);
    lemma_present_in_all(old, new);
}

/// Every key of `old` that comes before `new[i]` in `old` and occurs in
/// `new` has already been placed, at a position of `new` before `i`.
pub open spec fn predecessors_placed<V>(old: Seq<V>, new: Seq<V>, i: int) -> bool {
    forall|j: int, p: int|
        #![trigger old[j], old[p]]
        0 <= j < p < old.len() && old[p] == new[i] && new.contains(old[j]) ==> new.take(i).contains(
            old[j],
        )
}

/// `s` lists, in old order and once each, the keys of `old` that occur in
/// `new` outside its first `n` positions.
spec fn unplaced<V>(s: Seq<V>, old: Seq<V>, new: Seq<V>, n: int) -> bool {
    &&& s.no_duplicates()
    &&& forall|x: V|
        #[trigger] s.contains(x) <==> (old.contains(x) && new.contains(x) && !new.take(n).contains(x))
    &&& forall|a: int, b: int, p: int, q: int|
        #![trigger s[a], s[b], old[p], old[q]]
        0 <= a < b < s.len() && 0 <= p < old.len() && 0 <= q < old.len() && old[p] == s[a] && old[q]
            == s[b] ==> p < q
}

proof fn lemma_present_in_unplaced<V>(old: Seq<V>, new: Seq<V>)
    requires
        old.no_duplicates(),
    ensures
        unplaced(present_in(old, new), old, new, 0),
    decreases old.len(),
{
    broadcast use vstd::seq_lib::lemma_seq_contains_after_push;
    let s = present_in(old, new);
    assert(new.take(0) =~= Seq::<V>::empty());
    if old.len() == 0 {
        assert forall|x: V| #[trigger] s.contains(x) <==> (old.contains(x) && new.contains(x)
            && !new.take(0).contains(x)) by {}
    } else {
        let o = old.drop_last();
        let last = old.last();
        assert(o.no_duplicates()) by {
            assert forall|i: int, j: int| 0 <= i < o.len() && 0 <= j < o.len() && i != j implies o[i]
                != o[j] by {
                assert(o[i] == old[i] && o[j] == old[j]);
            }
        }
        lemma_present_in_unplaced(o, new);
        let t = present_in(o, new);
        assert(!o.contains(last)) by {
            if o.contains(last) {
                let j = choose|j: int| 0 <= j < o.len() && o[j] == last;
                assert(old[j] == old[old.len() - 1]);
            }
        }
        assert(old =~= o.push(last));
        assert forall|x: V| #[trigger] s.contains(x) <==> (old.contains(x) && new.contains(x)
            && !new.take(0).contains(x)) by {
            assert(t.contains(x) <==> (o.contains(x) && new.contains(x) && !new.take(0).contains(x)));
        }
        // Positions in `old` of keys of `t` lie before the last one.
        assert forall|a: int, p: int| 0 <= a < t.len() && 0 <= p < old.len() && old[p] == t[a]
            implies p < old.len() - 1 && o[p] == old[p] by {
            assert(t.contains(t[a]));
            if p == old.len() - 1 {
                assert(o.contains(last));
            }
        }
        if new.contains(last) {
            assert(s == t.push(last));
            assert(s.no_duplicates()) by {
                assert forall|i: int, j: int| 0 <= i < s.len() && 0 <= j < s.len() && i != j implies s[i]
                    != s[j] by {
                    if i < t.len() && j < t.len() {
                    } else if i < t.len() {
                        assert(t.contains(t[i]));
                    } else {
                        assert(t.contains(t[j]));
                    }
                }
            }
            assert forall|a: int, b: int, p: int, q: int|
                0 <= a < b < s.len() && 0 <= p < old.len() && 0 <= q < old.len() && old[p] == s[a]
                    && old[q] == s[b] implies p < q by {
                assert(s[a] == t[a]);
                assert(p < old.len() - 1 && o[p] == old[p]);
                if b < t.len() {
                    assert(s[b] == t[b]);
                    assert(q < old.len() - 1 && o[q] == old[q]);
                    assert(t[a] == s[a] && t[b] == s[b]);
                } else {
                    if q != old.len() - 1 {
                        assert(old[q] == old[old.len() - 1]);
                    }
                }
            }
        } else {
            assert(s == t);
            assert forall|a: int, b: int, p: int, q: int|
                0 <= a < b < s.len() && 0 <= p < old.len() && 0 <= q < old.len() && old[p] == s[a]
                    && old[q] == s[b] implies p < q by {
                assert(p < old.len() - 1 && o[p] == old[p]);
                assert(q < old.len() - 1 && o[q] == old[q]);
            }
        }
    }
}

/// The state of the walk: the surviving keys are the unplaced ones, and
/// every edit so far is the insertion, keep or move that the placed
/// predecessors decide.
proof fn lemma_walk_decides<V>(old: Seq<V>, new: Seq<V>, n: nat)
    requires
        old.no_duplicates(),
        new.no_duplicates(),
        n <= new.len(),
    ensures
        unplaced(walk(old, new, n).0, old, new, n as int),
        walk(old, new, n).1.len() == n,
        forall|i: int|
            0 <= i < n ==> #[trigger] walk(old, new, n).1[i] == (if !old.contains(new[i]) {
                ListEdit::Insert { key: new[i] }
            } else if predecessors_placed(old, new, i) {
                ListEdit::Keep { key: new[i] }
            } else {
                ListEdit::Move { key: new[i] }
            }),
    decreases n,
{
    broadcast use vstd::seq_lib::lemma_seq_contains_after_push;
    if n == 0 {
        lemma_present_in_unplaced(old, new);
    } else {
        let m = (n - 1) as int;
        lemma_walk_decides(old, new, m as nat);
        let s = walk(old, new, m as nat).0;
        let k = new[m];
        let (s2, e) = step(s, old, k);
        assert(new.take(m + 1) =~= new.take(m).push(k));
        assert(!new.take(m).contains(k)) by {
            if new.take(m).contains(k) {
                let j = choose|j: int| 0 <= j < new.take(m).len() && new.take(m)[j] == k;
                assert(new[j] == new[m]);
            }
        }
        let expected = if !old.contains(k) {
            ListEdit::Insert { key: k }
        } else if predecessors_placed(old, new, m) {
            ListEdit::Keep { key: k }
        } else {
            ListEdit::Move { key: k }
        };
        if !old.contains(k) {
            assert(s2 == s);
            assert forall|x: V| #[trigger] s2.contains(x) <==> (old.contains(x) && new.contains(x)
                && !new.take(m + 1).contains(x)) by {
                assert(s.contains(x) <==> (old.contains(x) && new.contains(x) && !new.take(m).contains(x)));
            }
        } else {
            assert(new.contains(k)) by {
                assert(new[m] == k);
            }
            assert(s.contains(k));
            let idx = s.index_of_first(k);
            s.index_of_first_ensures(k);
            let a0 = idx.unwrap();
            assert(s[a0] == k);
            // The key's position in `old`.
            let p = choose|p: int| 0 <= p < old.len() && old[p] == k;
            // Keep exactly when the predecessors are placed.
            if s[0] == k {
                assert(predecessors_placed(old, new, m)) by {
                    assert forall|j: int, pp: int|
                        #![trigger old[j], old[pp]]
                        0 <= j < pp < old.len() && old[pp] == new[m] && new.contains(old[j])
                            implies new.take(m).contains(old[j]) by {
                        if !new.take(m).contains(old[j]) {
                            assert(old.contains(old[j]));
                            assert(s.contains(old[j]));
                            let b = choose|b: int| 0 <= b < s.len() && s[b] == old[j];
                            assert(old[j] != k) by {
                                assert(old[pp] == k);
                            }
                            assert(b != 0);
                            assert(pp < j);
                        }
                    }
                }
            } else {
                assert(!predecessors_placed(old, new, m)) by {
                    assert(s.contains(s[0]));
                    let j = choose|j: int| 0 <= j < old.len() && old[j] == s[0];
                    assert(a0 != 0);
                    assert(j < p);
                    assert(new.contains(old[j]));
                    assert(!new.take(m).contains(old[j]));
                }
            }
            // The surviving keys after the step.
            let removed = s.remove(a0);
            if s[0] == k {
                assert(s2 == s.drop_first());
                assert(s2 =~= removed);
            } else {
                assert(s2 == s.remove_value(k));
                assert(s2 == removed);
            }
            assert(s2.no_duplicates()) by {
                assert forall|i: int, j: int| 0 <= i < s2.len() && 0 <= j < s2.len() && i != j implies s2[i]
                    != s2[j] by {
                    let ii = if i < a0 { i } else { i + 1 };
                    let jj = if j < a0 { j } else { j + 1 };
                    assert(s2[i] == s[ii] && s2[j] == s[jj]);
                }
            }
            assert forall|x: V| #[trigger] s2.contains(x) <==> (old.contains(x) && new.contains(x)
                && !new.take(m + 1).contains(x)) by {
                assert(s.contains(x) <==> (old.contains(x) && new.contains(x) && !new.take(m).contains(x)));
                if s2.contains(x) {
                    let i = choose|i: int| 0 <= i < s2.len() && s2[i] == x;
                    let ii = if i < a0 { i } else { i + 1 };
                    assert(s[ii] == x);
                    assert(ii != a0);
                    assert(s.contains(x));
                } else if s.contains(x) && x != k {
                    let ii = choose|ii: int| 0 <= ii < s.len() && s[ii] == x;
                    assert(ii != a0);
                    let i = if ii < a0 { ii } else { ii - 1 };
                    assert(s2[i] == x);
                }
            }
            assert forall|a: int, b: int, pp: int, q: int|
                0 <= a < b < s2.len() && 0 <= pp < old.len() && 0 <= q < old.len() && old[pp] == s2[a]
                    && old[q] == s2[b] implies pp < q by {
                let aa = if a < a0 { a } else { a + 1 };
                let bb = if b < a0 { b } else { b + 1 };
                assert(s2[a] == s[aa] && s2[b] == s[bb]);
                assert(aa < bb);
            }
        }
        assert(e == expected);
        assert(walk(old, new, n).1 == walk(old, new, m as nat).1.push(e));
        assert forall|i: int| 0 <= i < n implies #[trigger] walk(old, new, n).1[i] == (if !old.contains(
            new[i],
        ) {
            ListEdit::Insert { key: new[i] }
        } else if predecessors_placed(old, new, i) {
            ListEdit::Keep { key: new[i] }
        } else {
            ListEdit::Move { key: new[i] }
        }) by {
            if i < m {
                assert(walk(old, new, n).1[i] == walk(old, new, m as nat).1[i]);
            }
        }
    }
}

/// What each edit of a reconciliation is, with unique keys on both sides:
/// a key new to the list is inserted; a known key keeps its node exactly
/// when every key before it in the old order that survives into the new
/// list has already been placed (so it is next in line), and is moved
/// otherwise. Moving one key to the front, for instance, gives one move and
/// keeps every other node.
pub proof fn lemma_edit_kinds<V>(old: Seq<V>, new: Seq<V>, i: int)
    requires
        old.no_duplicates(),
        new.no_duplicates(),
        0 <= i < new.len(),
    ensures
        reconcile_edits(old, new)[i] == (if !old.contains(new[i]) {
            ListEdit::Insert { key: new[i] }
        } else if predecessors_placed(old, new, i) {
            ListEdit::Keep { key: new[i] }
        } else {
            ListEdit::Move { key: new[i] }
        }),
{
    lemma_walk_decides(old, new, new.len());
}

} // verus!
