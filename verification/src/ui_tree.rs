//! The abstract `UITree`: every node carries a type-specific [`NodeKind`]
//! plus shared [`NodeMeta`] (styling class, click message, AI metadata).
//! `Msg` is the application's own event type, so the tree never needs to
//! know what events an application defines.

use vstd::prelude::*;

use crate::text::{decimal, push_decimal};

verus! {

/// One node of a UI, with its children (for containers and lists).
pub struct UITree<Msg> {
    pub kind: NodeKind<Msg>,
    pub meta: NodeMeta<Msg>,
}

/// What a node is.
pub enum NodeKind<Msg> {
    Container { children: Vec<UITree<Msg>> },
    Heading { level: u8, text: String },
    Text { text: String },
    Button { label: String },
    Input { value: String },
    List { items: Vec<UITree<Msg>> },
    DataGrid { columns: Vec<String>, rows: Vec<Vec<String>> },
}

/// AI-agent metadata attached to any node.
pub struct AiMeta {
    /// Machine-readable action name (e.g. `"add_to_cart"`). When set, the
    /// node is an interactive action that an AI agent can invoke.
    pub action: Option<String>,
    /// Key-value parameters the action expects.
    pub params: Vec<(String, String)>,
    /// Human-readable description of what this element does.
    pub description: Option<String>,
}

/// Metadata shared by every node.
pub struct NodeMeta<Msg> {
    pub class: Option<String>,
    pub on_click: Option<Msg>,
    pub ai: AiMeta,
    /// Stable identifier assigned before server-side rendering so a client
    /// can match rendered elements back to their tree nodes.
    pub data_appfront_id: Option<u64>,
    /// Whether the subtree was produced by a component whose body reads
    /// reactive state.
    pub is_dynamic: bool,
    /// Stable identity for reconciliation of list items.
    pub key: Option<String>,
}

impl AiMeta {
    /// No action, no parameters, no description.
    pub fn new() -> (m: AiMeta)
        ensures
            m.action is None,
            m.params@.len() == 0,
            m.description is None,
    {
        AiMeta { action: None, params: Vec::new(), description: None }
    }
}

impl<Msg> NodeMeta<Msg> {
    /// Every field is unset.
    pub open spec fn is_empty(self) -> bool {
        &&& self.class is None
        &&& self.on_click is None
        &&& self.ai.action is None
        &&& self.ai.params@.len() == 0
        &&& self.ai.description is None
        &&& self.data_appfront_id is None
        &&& !self.is_dynamic
        &&& self.key is None
    }

    /// Metadata with every field unset.
    pub fn new() -> (m: NodeMeta<Msg>)
        ensures
            m.is_empty(),
    {
        NodeMeta {
            class: None,
            on_click: None,
            ai: AiMeta::new(),
            data_appfront_id: None,
            is_dynamic: false,
            key: None,
        }
    }
}

/// The number of nodes of a tree.
pub open spec fn size<Msg>(t: UITree<Msg>) -> nat
    decreases t,
{
    1 + match t.kind {
        NodeKind::Container { children } => size_all(children@),
        NodeKind::List { items } => size_all(items@),
        _ => 0,
    }
}

proof fn lemma_size_all_prefix<Msg>(ts: Seq<UITree<Msg>>, n: int)
    requires
        0 <= n <= ts.len(),
    ensures
        size_all(ts.take(n)) <= size_all(ts),
    decreases ts.len() - n,
{
    if n < ts.len() {
        lemma_size_all_prefix(ts, n + 1);
        assert(ts.take(n + 1).drop_last() =~= ts.take(n));
    } else {
        assert(ts.take(n) =~= ts);
    }
}

/// The number of nodes of a forest.
pub open spec fn size_all<Msg>(ts: Seq<UITree<Msg>>) -> nat
    decreases ts,
{
    if ts.len() == 0 {
        0
    } else {
        size_all(ts.drop_last()) + size(ts.last())
    }
}

/// `new` is `old` with its metadata's identifier set to `id` and nothing
/// else changed.
pub open spec fn meta_with_id<Msg>(new: NodeMeta<Msg>, old: NodeMeta<Msg>, id: u64) -> bool {
    &&& new.data_appfront_id == Some(id)
    &&& new.class == old.class
    &&& new.on_click == old.on_click
    &&& new.ai == old.ai
    &&& new.is_dynamic == old.is_dynamic
    &&& new.key == old.key
}

/// `new` is `old` with identifiers assigned in preorder, the root getting
/// `start`, its first child `start + 1`, and each later sibling the next
/// number after the whole subtree of the sibling before it.
pub open spec fn ids_assigned<Msg>(new: UITree<Msg>, old: UITree<Msg>, start: int) -> bool
    decreases old,
{
    &&& 0 <= start <= u64::MAX
    &&& meta_with_id(new.meta, old.meta, start as u64)
    &&& match (new.kind, old.kind) {
        (NodeKind::Container { children: n }, NodeKind::Container { children: o }) => all_ids_assigned(n@, o@, start + 1),
        (NodeKind::List { items: n }, NodeKind::List { items: o }) => all_ids_assigned(n@, o@, start + 1),
        (NodeKind::Container { .. }, _) => false,
        (NodeKind::List { .. }, _) => false,
        (_, NodeKind::Container { .. }) => false,
        (_, NodeKind::List { .. }) => false,
        (n, o) => n == o,
    }
}

/// The forest version of [`ids_assigned`]: sibling `i` starts right after
/// the subtrees of siblings `0..i`.
pub open spec fn all_ids_assigned<Msg>(new: Seq<UITree<Msg>>, old: Seq<UITree<Msg>>, start: int) -> bool
    decreases old,
{
    &&& new.len() == old.len()
    &&& old.len() > 0 ==> {
        &&& all_ids_assigned(new.drop_last(), old.drop_last(), start)
        &&& ids_assigned(new.last(), old.last(), start + size_all(old.drop_last()))
    }
}

fn assign_all<Msg>(children: Vec<UITree<Msg>>, next: u64) -> (r: (Vec<UITree<Msg>>, u64))
    requires
        next + size_all(children@) <= u64::MAX,
    ensures
        all_ids_assigned(r.0@, children@, next as int),
        r.1 == next + size_all(children@),
    decreases children@, 0nat,
{
    let ghost orig = children@;
    let mut rest = children;
    let mut done: Vec<UITree<Msg>> = Vec::new();
    let mut cur = next;
    let ghost i: int = 0;
    assert(orig.skip(0) =~= orig);
    assert(orig.take(0) =~= Seq::<UITree<Msg>>::empty());
    while rest.len() > 0
        invariant
            0 <= i <= orig.len(),
            orig == children@,
            rest@ == orig.skip(i),
            all_ids_assigned(done@, orig.take(i), next as int),
            cur == next + size_all(orig.take(i)),
            next + size_all(orig) <= u64::MAX,
        decreases rest.len(),
    {
        let child = rest.remove(0);
        assert(child == orig[i]);
        assert(decreases_to!(orig => orig[i]));
        proof {
            lemma_size_all_prefix(orig, i + 1);
            assert(orig.take(i + 1).drop_last() =~= orig.take(i));
            assert(orig.take(i + 1).last() == orig[i]);
        }
        let (c2, after) = assign(child, cur);
        let ghost before = done@;
        done.push(c2);
        cur = after;
        proof {
            assert(done@.drop_last() =~= before);
            i = i + 1;
            assert(rest@ =~= orig.skip(i));
        }
    }
    assert(orig.take(i) =~= orig);
    (done, cur)
}

fn assign<Msg>(t: UITree<Msg>, next: u64) -> (r: (UITree<Msg>, u64))
    requires
        next + size(t) <= u64::MAX,
    ensures
        ids_assigned(r.0, t, next as int),
        r.1 == next + size(t),
    decreases t, 1nat,
{
    let ghost old_t = t;
    let UITree { kind, meta } = t;
    let mut meta = meta;
    meta.data_appfront_id = Some(next);
    match kind {
        NodeKind::Container { children } => {
            let (children, after) = assign_all(children, next + 1);
            (UITree { kind: NodeKind::Container { children }, meta }, after)
        },
        NodeKind::List { items } => {
            let (items, after) = assign_all(items, next + 1);
            (UITree { kind: NodeKind::List { items }, meta }, after)
        },
        other => (UITree { kind: other, meta }, next + 1),
    }
}

impl<Msg> UITree<Msg> {
    /// A node of the given kind with empty metadata.
    pub fn leaf(kind: NodeKind<Msg>) -> (t: UITree<Msg>)
        ensures
            t.kind == kind,
            t.meta.is_empty(),
    {
        UITree { kind, meta: NodeMeta::new() }
    }

    /// Walks the tree and assigns a unique sequential identifier to every
    /// node, in preorder starting at 1. Safe to call repeatedly: previously
    /// assigned identifiers are overwritten.
    pub fn assign_ids(&mut self)
        requires
            1 + size(*old(self)) <= u64::MAX,
        ensures
            ids_assigned(*final(self), *old(self), 1),
    {
        let mut t = UITree::leaf(NodeKind::Text { text: String::new() });
        std::mem::swap(self, &mut t);
        let (t2, _) = assign(t, 1);
        *self = t2;
    }
}

impl<Msg> UITree<Msg> {
    /// The node's metadata, to be changed in place.
    pub fn meta_mut(&mut self) -> (m: &mut NodeMeta<Msg>)
        ensures
            *m == old(self).meta,
            final(self).kind == old(self).kind,
            final(self).meta == *final(m),
    {
        &mut self.meta
    }

    /// A container, with empty metadata, whose children are the nodes that
    /// `build` appends to the empty builder it is given.
    pub fn container<F: FnOnce(&mut ContainerBuilder<Msg>)>(build: F) -> (t: UITree<Msg>)
        requires
            forall|b: &mut ContainerBuilder<Msg>| build.requires((b,)),
        ensures
            t.meta.is_empty(),
            exists|b: &mut ContainerBuilder<Msg>|
                #![trigger build.ensures((b,), ())]
                b.kids().len() == 0 && build.ensures((b,), ()) && (t.kind matches NodeKind::Container {
                    children,
                } && children@ == final(b).kids()),
    {
        let mut b = ContainerBuilder::new();
        build(&mut b);
        UITree::leaf(NodeKind::Container { children: b.children })
    }
}

/// Appends children to a container under construction; each method adds
/// one node and returns a [`NodeRef`] to it, so that its metadata can be
/// set in a chain.
pub struct ContainerBuilder<Msg> {
    children: Vec<UITree<Msg>>,
}

/// `nodes` with one more node of the given kind and empty metadata.
pub open spec fn pushed<Msg>(new: Seq<UITree<Msg>>, old: Seq<UITree<Msg>>) -> bool {
    &&& new.len() == old.len() + 1
    &&& new.drop_last() == old
    &&& new.last().meta.is_empty()
}

impl<Msg> ContainerBuilder<Msg> {
    /// The children appended so far, in order.
    pub closed spec fn kids(&self) -> Seq<UITree<Msg>> {
        self.children@
    }

    /// A builder with no children.
    pub fn new() -> (b: ContainerBuilder<Msg>)
        ensures
            b.kids().len() == 0,
    {
        ContainerBuilder { children: Vec::new() }
    }

    /// The single child, when exactly one was appended.
    pub fn into_only_child(self) -> (r: Option<UITree<Msg>>)
        ensures
            self.kids().len() == 1 ==> r == Some(self.kids()[0]),
            self.kids().len() != 1 ==> r is None,
    {
        if self.children.len() == 1 {
            let mut c = self.children;
            c.pop()
        } else {
            None
        }
    }

    /// Appends a built node.
    pub fn with(&mut self, node: UITree<Msg>) -> (r: NodeRef<'_, Msg>)
        ensures
            r.index == old(self).kids().len(),
            r.children@ == old(self).kids().push(node),
            final(self).kids() == final(r.children)@,
    {
        self.children.push(node);
        let index = self.children.len() - 1;
        NodeRef { children: &mut self.children, index }
    }

    /// Appends a node of the given kind with empty metadata.
    pub fn push(&mut self, kind: NodeKind<Msg>) -> (r: NodeRef<'_, Msg>)
        ensures
            r.index == old(self).kids().len(),
            pushed(r.children@, old(self).kids()),
            r.children@.last().kind == kind,
            final(self).kids() == final(r.children)@,
    {
        let r = self.with(UITree::leaf(kind));
        assert(r.children@.drop_last() =~= old(self).kids());
        r
    }

    /// Appends a container built by `build`.
    pub fn container<F: FnOnce(&mut ContainerBuilder<Msg>)>(&mut self, build: F) -> (r: NodeRef<'_, Msg>)
        requires
            forall|b: &mut ContainerBuilder<Msg>| build.requires((b,)),
        ensures
            r.index == old(self).kids().len(),
            pushed(r.children@, old(self).kids()),
            exists|b: &mut ContainerBuilder<Msg>|
                #![trigger build.ensures((b,), ())]
                b.kids().len() == 0 && build.ensures((b,), ()) && (r.children@.last().kind matches NodeKind::Container {
                    children,
                } && children@ == final(b).kids()),
            final(self).kids() == final(r.children)@,
    {
        let node = UITree::container(build);
        let r = self.with(node);
        assert(r.children@.drop_last() =~= old(self).kids());
        r
    }

    /// Appends a heading.
    pub fn heading(&mut self, level: u8, text: &str) -> (r: NodeRef<'_, Msg>)
        ensures
            r.index == old(self).kids().len(),
            pushed(r.children@, old(self).kids()),
            r.children@.last().kind matches NodeKind::Heading { level: l, text: t } && l == level
                && t@ == text@,
            final(self).kids() == final(r.children)@,
    {
        self.push(NodeKind::Heading { level, text: String::from_str(text) })
    }

    /// Appends a run of text.
    pub fn text(&mut self, text: &str) -> (r: NodeRef<'_, Msg>)
        ensures
            r.index == old(self).kids().len(),
            pushed(r.children@, old(self).kids()),
            r.children@.last().kind matches NodeKind::Text { text: t } && t@ == text@,
            final(self).kids() == final(r.children)@,
    {
        self.push(NodeKind::Text { text: String::from_str(text) })
    }

    /// Appends a button.
    pub fn button(&mut self, label: &str) -> (r: NodeRef<'_, Msg>)
        ensures
            r.index == old(self).kids().len(),
            pushed(r.children@, old(self).kids()),
            r.children@.last().kind matches NodeKind::Button { label: t } && t@ == label@,
            final(self).kids() == final(r.children)@,
    {
        self.push(NodeKind::Button { label: String::from_str(label) })
    }

    /// Appends a text input holding `value`.
    pub fn input(&mut self, value: &str) -> (r: NodeRef<'_, Msg>)
        ensures
            r.index == old(self).kids().len(),
            pushed(r.children@, old(self).kids()),
            r.children@.last().kind matches NodeKind::Input { value: t } && t@ == value@,
            final(self).kids() == final(r.children)@,
    {
        self.push(NodeKind::Input { value: String::from_str(value) })
    }

    /// Appends a list whose items are the nodes `build` appends.
    pub fn list<F: FnOnce(&mut ContainerBuilder<Msg>)>(&mut self, build: F) -> (r: NodeRef<'_, Msg>)
        requires
            forall|b: &mut ContainerBuilder<Msg>| build.requires((b,)),
        ensures
            r.index == old(self).kids().len(),
            pushed(r.children@, old(self).kids()),
            exists|b: &mut ContainerBuilder<Msg>|
                #![trigger build.ensures((b,), ())]
                b.kids().len() == 0 && build.ensures((b,), ()) && (r.children@.last().kind matches NodeKind::List {
                    items,
                } && items@ == final(b).kids()),
            final(self).kids() == final(r.children)@,
    {
        let mut inner = ContainerBuilder::new();
        build(&mut inner);
        self.push(NodeKind::List { items: inner.children })
    }

    /// Appends a data grid with the given column headers and rows.
    pub fn data_grid(&mut self, columns: Vec<String>, rows: Vec<Vec<String>>) -> (r: NodeRef<'_, Msg>)
        ensures
            r.index == old(self).kids().len(),
            pushed(r.children@, old(self).kids()),
            r.children@.last().kind == (NodeKind::<Msg>::DataGrid { columns, rows }),
            final(self).kids() == final(r.children)@,
    {
        self.push(NodeKind::DataGrid { columns, rows })
    }
}

impl<Msg> Default for ContainerBuilder<Msg> {
    fn default() -> (b: ContainerBuilder<Msg>)
        ensures
            b.kids().len() == 0,
    {
        ContainerBuilder::new()
    }
}

/// The node just appended to a [`ContainerBuilder`]: its position among
/// the builder's children, through which its metadata is set.
pub struct NodeRef<'a, Msg> {
    pub children: &'a mut Vec<UITree<Msg>>,
    pub index: usize,
}

/// `nodes` with the metadata of node `i` replaced by `meta`.
pub open spec fn with_meta<Msg>(nodes: Seq<UITree<Msg>>, i: int, meta: NodeMeta<Msg>) -> Seq<UITree<Msg>> {
    nodes.update(i, UITree { kind: nodes[i].kind, meta })
}

impl<'a, Msg> NodeRef<'a, Msg> {
    /// Sets the styling class.
    pub fn class(self, class: &str) -> (r: NodeRef<'a, Msg>)
        requires
            self.index < old(self.children)@.len(),
        ensures
            r.index == self.index,
            r.children@ == with_meta(
                old(self.children)@,
                self.index as int,
                NodeMeta {
                    class: r.children@[self.index as int].meta.class,
                    ..old(self.children)@[self.index as int].meta
                },
            ),
            r.children@[self.index as int].meta.class matches Some(c) && c@ == class@,
            final(r.children)@ == final(self.children)@,
    {
        let NodeRef { children, index } = self;
        children[index].meta.class = Some(String::from_str(class));
        NodeRef { children, index }
    }

    /// Sets the message a click dispatches.
    pub fn on_click(self, msg: Msg) -> (r: NodeRef<'a, Msg>)
        requires
            self.index < old(self.children)@.len(),
        ensures
            r.index == self.index,
            r.children@ == with_meta(
                old(self.children)@,
                self.index as int,
                NodeMeta { on_click: Some(msg), ..old(self.children)@[self.index as int].meta },
            ),
            final(r.children)@ == final(self.children)@,
    {
        let NodeRef { children, index } = self;
        children[index].meta.on_click = Some(msg);
        NodeRef { children, index }
    }

    /// Sets the action an AI agent may invoke on the node.
    pub fn ai_action(self, action: &str) -> (r: NodeRef<'a, Msg>)
        requires
            self.index < old(self.children)@.len(),
        ensures
            r.index == self.index,
            r.children@ == with_meta(
                old(self.children)@,
                self.index as int,
                NodeMeta {
                    ai: AiMeta {
                        action: r.children@[self.index as int].meta.ai.action,
                        ..old(self.children)@[self.index as int].meta.ai
                    },
                    ..old(self.children)@[self.index as int].meta
                },
            ),
            r.children@[self.index as int].meta.ai.action matches Some(a) && a@ == action@,
            final(r.children)@ == final(self.children)@,
    {
        let NodeRef { children, index } = self;
        children[index].meta.ai.action = Some(String::from_str(action));
        NodeRef { children, index }
    }

    /// Adds a parameter (with an example value) to the node's AI action.
    pub fn ai_param(self, key: &str, value: &str) -> (r: NodeRef<'a, Msg>)
        requires
            self.index < old(self.children)@.len(),
        ensures
            r.index == self.index,
            r.children@ == with_meta(
                old(self.children)@,
                self.index as int,
                NodeMeta {
                    ai: AiMeta {
                        params: r.children@[self.index as int].meta.ai.params,
                        ..old(self.children)@[self.index as int].meta.ai
                    },
                    ..old(self.children)@[self.index as int].meta
                },
            ),
            r.children@[self.index as int].meta.ai.params@.drop_last()
                == old(self.children)@[self.index as int].meta.ai.params@,
            r.children@[self.index as int].meta.ai.params@.len()
                == old(self.children)@[self.index as int].meta.ai.params@.len() + 1,
            r.children@[self.index as int].meta.ai.params@.last().0@ == key@,
            r.children@[self.index as int].meta.ai.params@.last().1@ == value@,
            final(r.children)@ == final(self.children)@,
    {
        let NodeRef { children, index } = self;
        children[index].meta.ai.params.push((String::from_str(key), String::from_str(value)));
        NodeRef { children, index }
    }

    /// Sets the human-readable description of the node's AI action.
    pub fn ai_description(self, desc: &str) -> (r: NodeRef<'a, Msg>)
        requires
            self.index < old(self.children)@.len(),
        ensures
            r.index == self.index,
            r.children@ == with_meta(
                old(self.children)@,
                self.index as int,
                NodeMeta {
                    ai: AiMeta {
                        description: r.children@[self.index as int].meta.ai.description,
                        ..old(self.children)@[self.index as int].meta.ai
                    },
                    ..old(self.children)@[self.index as int].meta
                },
            ),
            r.children@[self.index as int].meta.ai.description matches Some(d) && d@ == desc@,
            final(r.children)@ == final(self.children)@,
    {
        let NodeRef { children, index } = self;
        children[index].meta.ai.description = Some(String::from_str(desc));
        NodeRef { children, index }
    }

    /// Sets the stable identity used to reconcile list items.
    pub fn key(self, key: &str) -> (r: NodeRef<'a, Msg>)
        requires
            self.index < old(self.children)@.len(),
        ensures
            r.index == self.index,
            r.children@ == with_meta(
                old(self.children)@,
                self.index as int,
                NodeMeta {
                    key: r.children@[self.index as int].meta.key,
                    ..old(self.children)@[self.index as int].meta
                },
            ),
            r.children@[self.index as int].meta.key matches Some(k) && k@ == key@,
            final(r.children)@ == final(self.children)@,
    {
        let NodeRef { children, index } = self;
        children[index].meta.key = Some(String::from_str(key));
        NodeRef { children, index }
    }
}

/// The identity of a list item across renders: its explicit key, or else
/// its position written in decimal.
pub open spec fn item_key_of<Msg>(item: UITree<Msg>, index: nat) -> Seq<char> {
    match item.meta.key {
        Some(k) => k@,
        None => decimal(index),
    }
}

/// The identity under which a list item is matched across renders (its
/// `data-key`): the explicit key when it has one, otherwise its position.
/// Unkeyed items are thus matched by position only.
pub fn item_key<Msg>(item: &UITree<Msg>, index: usize) -> (r: String)
    ensures
        r@ == item_key_of(*item, index as nat),
{
    match &item.meta.key {
        Some(k) => k.clone(),
        None => {
            let mut r = String::new();
            push_decimal(&mut r, index as u64);
            r
        },
    }
}

/// The identifiers of a tree's nodes, in preorder.
pub open spec fn id_list<Msg>(t: UITree<Msg>) -> Seq<Option<u64>>
    decreases t,
{
    seq![t.meta.data_appfront_id] + match t.kind {
        NodeKind::Container { children } => id_list_all(children@),
        NodeKind::List { items } => id_list_all(items@),
        _ => Seq::empty(),
    }
}

/// The identifiers of a forest's nodes, in preorder.
pub open spec fn id_list_all<Msg>(ts: Seq<UITree<Msg>>) -> Seq<Option<u64>>
    decreases ts,
{
    if ts.len() == 0 {
        Seq::empty()
    } else {
        id_list_all(ts.drop_last()) + id_list(ts.last())
    }
}

/// The identifiers `start, start + 1, ..., start + n - 1`.
pub open spec fn id_range(start: int, n: nat) -> Seq<Option<u64>> {
    Seq::new(n, |i: int| Some((start + i) as u64))
}

/// After identifiers are assigned from `start`, the tree has the same
/// number of nodes and, read in preorder, carries exactly the identifiers
/// `start, start + 1, ...`: every node has one, and no two share one.
pub proof fn lemma_assigned_ids_are_sequential<Msg>(new: UITree<Msg>, old: UITree<Msg>, start: int)
    requires
        ids_assigned(new, old, start),
    ensures
        size(new) == size(old),
        id_list(new) == id_range(start, size(old)),
    decreases old,
{
    match (new.kind, old.kind) {
        (NodeKind::Container { children: n }, NodeKind::Container { children: o }) => {
            lemma_all_assigned_ids_are_sequential(n@, o@, start + 1);
        },
        (NodeKind::List { items: n }, NodeKind::List { items: o }) => {
            lemma_all_assigned_ids_are_sequential(n@, o@, start + 1);
        },
        _ => {},
    }
    assert(id_list(new) =~= id_range(start, size(old)));
}

/// The forest version of [`lemma_assigned_ids_are_sequential`].
pub proof fn lemma_all_assigned_ids_are_sequential<Msg>(
    new: Seq<UITree<Msg>>,
    old: Seq<UITree<Msg>>,
    start: int,
)
    requires
        all_ids_assigned(new, old, start),
    ensures
        size_all(new) == size_all(old),
        id_list_all(new) == id_range(start, size_all(old)),
    decreases old,
{
    if old.len() > 0 {
        lemma_all_assigned_ids_are_sequential(new.drop_last(), old.drop_last(), start);
        lemma_assigned_ids_are_sequential(
            new.last(),
            old.last(),
            start + size_all(old.drop_last()),
        );
    }
    assert(id_list_all(new) =~= id_range(start, size_all(old)));
}

} // verus!
