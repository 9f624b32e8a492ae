//! Keyboard driver for the terminal backend: which nodes can take focus,
//! where the focus is, what has been typed into each input, and which
//! message a key press dispatches. Drawing to the terminal is the host's
//! job; everything here is pure state.

use std::collections::HashMap;

use vstd::prelude::*;

use crate::text::push_char;
use crate::ui_tree::{all_ids_assigned, ids_assigned, size, size_all, NodeKind, UITree};

verus! {

broadcast use vstd::std_specs::hash::group_hash_axioms;

/// Which kind of focusable node.
#[derive(Debug, Clone, Copy, PartialEq, Eq, Structural)]
pub enum InteractiveKind {
    Button,
    Input,
}

/// A focusable element discovered while walking the tree, in document
/// order.
#[derive(Debug, Clone)]
pub struct InteractiveNode<Msg> {
    /// The node's identifier (its preorder number, counting from 1).
    pub id: u64,
    pub kind: InteractiveKind,
    /// The message to dispatch when this node is activated.
    pub on_click: Option<Msg>,
}

/// The keys the driver reacts to.
#[derive(Debug, Clone, Copy, PartialEq, Eq, Structural)]
pub enum KeyCode {
    Esc,
    Tab,
    BackTab,
    Up,
    Down,
    Left,
    Right,
    Enter,
    Backspace,
    Char(char),
    /// Any other key.
    Other,
}

/// Whether a key went down, repeated, or came up.
#[derive(Debug, Clone, Copy, PartialEq, Eq, Structural)]
pub enum KeyEventKind {
    Press,
    Repeat,
    Release,
}

/// One key event.
#[derive(Debug, Clone, Copy, PartialEq, Eq, Structural)]
pub struct KeyEvent {
    pub code: KeyCode,
    pub kind: KeyEventKind,
}

impl KeyEvent {
    /// A key press.
    pub fn new(code: KeyCode) -> (k: KeyEvent)
        ensures
            k.code == code,
            k.kind == KeyEventKind::Press,
    {
        KeyEvent { code, kind: KeyEventKind::Press }
    }
}

/// What a focusable node is, by its preorder identifier.
pub type Interactive<Msg> = (u64, InteractiveKind, Option<Msg>);

/// The focusable nodes of a tree whose nodes are numbered in preorder from
/// `start`: buttons and inputs, in document order, with their click
/// messages.
pub open spec fn interactive_from<Msg>(t: UITree<Msg>, start: int) -> Seq<Interactive<Msg>>
    decreases t,
{
    match t.kind {
        NodeKind::Button { .. } => seq![(start as u64, InteractiveKind::Button, t.meta.on_click)],
        NodeKind::Input { .. } => seq![(start as u64, InteractiveKind::Input, t.meta.on_click)],
        NodeKind::Container { children } => all_interactive_from(children@, start + 1),
        NodeKind::List { items } => all_interactive_from(items@, start + 1),
        _ => Seq::empty(),
    }
}

/// The forest version of [`interactive_from`].
pub open spec fn all_interactive_from<Msg>(ts: Seq<UITree<Msg>>, start: int) -> Seq<
    Interactive<Msg>,
>
    decreases ts,
{
    if ts.len() == 0 {
        Seq::empty()
    } else {
        all_interactive_from(ts.drop_last(), start) + interactive_from(
            ts.last(),
            start + size_all(ts.drop_last()),
        )
    }
}

/// `a` is `b` or a clone of it.
pub open spec fn option_cloned<Msg: Clone>(a: Option<Msg>, b: Option<Msg>) -> bool {
    match (a, b) {
        (None, None) => true,
        (Some(x), Some(y)) => cloned(y, x),
        _ => false,
    }
}

/// The nodes match the description, their messages being clones.
pub open spec fn nodes_match<Msg: Clone>(
    nodes: Seq<InteractiveNode<Msg>>,
    info: Seq<Interactive<Msg>>,
) -> bool {
    &&& nodes.len() == info.len()
    &&& forall|i: int|
        0 <= i < nodes.len() ==> {
            &&& (#[trigger] nodes[i]).id == info[i].0
            &&& nodes[i].kind == info[i].1
            &&& option_cloned(nodes[i].on_click, info[i].2)
        }
}

fn clone_message<Msg: Clone>(m: &Option<Msg>) -> (r: Option<Msg>)
    ensures
        option_cloned(r, *m),
{
    match m {
        Some(x) => Some(x.clone()),
        None => None,
    }
}

fn collect_numbered<Msg: Clone>(
    ui: &UITree<Msg>,
    next: u64,
    out: &mut Vec<InteractiveNode<Msg>>,
) -> (after: u64)
    requires
        next + size(*ui) <= u64::MAX,
    ensures
        after == next + size(*ui),
        exists|added: Seq<InteractiveNode<Msg>>|
            {
                &&& final(out)@ == old(out)@ + added
                &&& nodes_match(added, interactive_from(*ui, next as int))
            },
    decreases *ui, 1nat,
{
    match &ui.kind {
        NodeKind::Button { .. } => {
            let node = InteractiveNode {
                id: next,
                kind: InteractiveKind::Button,
                on_click: clone_message(&ui.meta.on_click),
            };
            out.push(node);
            assert(nodes_match(seq![node], interactive_from(*ui, next as int)));
            assert(final(out)@ =~= old(out)@ + seq![node]);
            next + 1
        },
        NodeKind::Input { .. } => {
            let node = InteractiveNode {
                id: next,
                kind: InteractiveKind::Input,
                on_click: clone_message(&ui.meta.on_click),
            };
            out.push(node);
            assert(nodes_match(seq![node], interactive_from(*ui, next as int)));
            assert(final(out)@ =~= old(out)@ + seq![node]);
            next + 1
        },
        NodeKind::Container { children } => collect_all_numbered(children, next + 1, out),
        NodeKind::List { items } => collect_all_numbered(items, next + 1, out),
        _ => {
            assert(nodes_match(Seq::empty(), interactive_from(*ui, next as int)));
            assert(final(out)@ =~= old(out)@ + Seq::<InteractiveNode<Msg>>::empty());
            next + 1
        },
    }
}

fn collect_all_numbered<Msg: Clone>(
    children: &Vec<UITree<Msg>>,
    next: u64,
    out: &mut Vec<InteractiveNode<Msg>>,
) -> (after: u64)
    requires
        next + size_all(children@) <= u64::MAX,
    ensures
        after == next + size_all(children@),
        exists|added: Seq<InteractiveNode<Msg>>|
            {
                &&& final(out)@ == old(out)@ + added
                &&& nodes_match(added, all_interactive_from(children@, next as int))
            },
    decreases children@, 0nat,
{
    let ghost start = out@;
    let mut cur = next;
    let mut i: usize = 0;
    assert(nodes_match(Seq::empty(), all_interactive_from(children@.take(0), next as int)));
    assert(out@ =~= start + Seq::<InteractiveNode<Msg>>::empty());
    while i < children.len()
        invariant
            i <= children.len(),
            next + size_all(children@) <= u64::MAX,
            cur == next + size_all(children@.take(i as int)),
            exists|added: Seq<InteractiveNode<Msg>>|
                {
                    &&& out@ == start + added
                    &&& nodes_match(added, all_interactive_from(children@.take(i as int), next as int))
                },
        decreases children.len() - i,
    {
        assert(decreases_to!(children@ => children@[i as int]));
        let ghost added_before = choose|added: Seq<InteractiveNode<Msg>>|
            {
                &&& out@ == start + added
                &&& nodes_match(added, all_interactive_from(children@.take(i as int), next as int))
            };
        let ghost mid = out@;
        proof {
            lemma_size_all_take(children@, i as int + 1);
            assert(children@.take(i + 1).drop_last() =~= children@.take(i as int));
            assert(children@.take(i + 1).last() == children@[i as int]);
        }
        cur = collect_numbered(&children[i], cur, out);
        proof {
            let added_now = choose|added: Seq<InteractiveNode<Msg>>|
                {
                    &&& out@ == mid + added
                    &&& nodes_match(added, interactive_from(children@[i as int], (next + size_all(children@.take(i as int))) as int))
                };
            let total = added_before + added_now;
            assert(out@ =~= start + total);
            assert(nodes_match(total, all_interactive_from(children@.take(i + 1), next as int)));
        }
        i += 1;
    }
    assert(children@.take(children.len() as int) =~= children@);
    cur
}

proof fn lemma_size_all_take<Msg>(ts: Seq<UITree<Msg>>, n: int)
    requires
        0 <= n <= ts.len(),
    ensures
        size_all(ts.take(n)) <= size_all(ts),
    decreases ts.len() - n,
{
    if n < ts.len() {
        lemma_size_all_take(ts, n + 1);
        assert(ts.take(n + 1).drop_last() =~= ts.take(n));
    } else {
        assert(ts.take(n) =~= ts);
    }
}

/// Removes the last character of a string, if any.
///
/// Trusted: calls `String::pop`, and claims that it returns the last
/// character and drops it, or returns nothing for an empty string.
#[verifier::external_body]
fn pop_char(s: &mut String) -> (r: Option<char>)
    ensures
        old(s)@.len() == 0 ==> r is None && final(s)@ == old(s)@,
        old(s)@.len() > 0 ==> r == Some(old(s)@.last()) && final(s)@ == old(s)@.drop_last(),
{
    s.pop()
}

/// Keyboard and focus state for one tree: the focusable nodes, the index
/// of the focused one, the live text of edited inputs (by node identifier)
/// and whether quitting was requested.
pub struct TuiDriver<Msg: Clone> {
    interactive: Vec<InteractiveNode<Msg>>,
    focus: usize,
    inputs: HashMap<u64, String>,
    quit: bool,
}

/// The abstract driver state.
#[verifier::ext_equal]
pub struct DriverState<Msg> {
    pub interactive: Seq<InteractiveNode<Msg>>,
    pub focus: nat,
    pub inputs: Map<u64, Seq<char>>,
    pub quit: bool,
}

impl<Msg: Clone> View for TuiDriver<Msg> {
    type V = DriverState<Msg>;

    closed spec fn view(&self) -> DriverState<Msg> {
        DriverState {
            interactive: self.interactive@,
            focus: self.focus as nat,
            inputs: self.inputs@.map_values(|s: String| s@),
            quit: self.quit,
        }
    }
}

/// The focus is on a node, or there is none and the focus is zero.
pub open spec fn focus_valid<Msg>(d: DriverState<Msg>) -> bool {
    if d.interactive.len() == 0 {
        d.focus == 0
    } else {
        d.focus < d.interactive.len()
    }
}

/// Whether a key event activates the focused node.
pub open spec fn activates<Msg>(d: DriverState<Msg>, key: KeyEvent) -> bool {
    &&& key.kind == KeyEventKind::Press
    &&& d.interactive.len() > 0
    &&& (key.code == KeyCode::Enter || key.code == KeyCode::Char(' '))
}

/// The driver state after a key event.
pub open spec fn key_step<Msg>(d: DriverState<Msg>, key: KeyEvent) -> DriverState<Msg> {
    let n = d.interactive.len();
    if key.kind != KeyEventKind::Press {
        d
    } else if n == 0 {
        if key.code == KeyCode::Esc {
            DriverState { quit: true, ..d }
        } else {
            d
        }
    } else {
        match key.code {
            KeyCode::Esc => DriverState { quit: true, ..d },
            KeyCode::Tab | KeyCode::Down | KeyCode::Right => DriverState {
                focus: (d.focus + 1) % n,
                ..d
            },
            KeyCode::BackTab | KeyCode::Up | KeyCode::Left => DriverState {
                focus: if d.focus == 0 {
                    (n - 1) as nat
                } else {
                    (d.focus - 1) as nat
                },
                ..d
            },
            KeyCode::Enter => d,
            KeyCode::Char(c) => {
                let node = d.interactive[d.focus as int];
                if c == ' ' || node.kind != InteractiveKind::Input {
                    d
                } else {
                    let current = if d.inputs.contains_key(node.id) {
                        d.inputs[node.id]
                    } else {
                        Seq::empty()
                    };
                    DriverState { inputs: d.inputs.insert(node.id, current.push(c)), ..d }
                }
            },
            KeyCode::Backspace => {
                let node = d.interactive[d.focus as int];
                if node.kind == InteractiveKind::Input && d.inputs.contains_key(node.id) {
                    let current = d.inputs[node.id];
                    let shorter = if current.len() > 0 {
                        current.drop_last()
                    } else {
                        current
                    };
                    DriverState { inputs: d.inputs.insert(node.id, shorter), ..d }
                } else {
                    d
                }
            },
            KeyCode::Other => d,
        }
    }
}

impl<Msg: Clone> TuiDriver<Msg> {
    /// The focus is on a node (or zero when there is none).
    pub open spec fn wf(&self) -> bool {
        focus_valid(self@)
    }

    /// Builds the driver from a tree: its buttons and inputs, in document
    /// order, identified by their preorder number counting from 1 (the
    /// identifiers [`UITree::assign_ids`] gives), focus on the first.
    pub fn new(ui: &UITree<Msg>) -> (d: Self)
        requires
            1 + size(*ui) <= u64::MAX,
        ensures
            nodes_match(d@.interactive, interactive_from(*ui, 1)),
            d@.focus == 0,
            d@.inputs == Map::<u64, Seq<char>>::empty(),
            !d@.quit,
            d.wf(),
    {
        let mut interactive: Vec<InteractiveNode<Msg>> = Vec::new();
        collect_numbered(ui, 1, &mut interactive);
        let inputs: HashMap<u64, String> = HashMap::new();
        let d = TuiDriver { interactive, focus: 0, inputs, quit: false };
        assert(d@.inputs =~= Map::<u64, Seq<char>>::empty());
        d
    }

    /// The number of focusable nodes.
    pub fn len(&self) -> (r: usize)
        ensures
            r == self@.interactive.len(),
    {
        self.interactive.len()
    }

    /// Whether there is no focusable node.
    pub fn is_empty(&self) -> (r: bool)
        ensures
            r == (self@.interactive.len() == 0),
    {
        self.interactive.is_empty()
    }

    /// The focusable nodes, in document order.
    pub fn interactive(&self) -> (r: &Vec<InteractiveNode<Msg>>)
        ensures
            r@ == self@.interactive,
    {
        &self.interactive
    }

    /// Identifier of the focused node, if any.
    pub fn focus_id(&self) -> (r: Option<u64>)
        ensures
            r == (if self@.focus < self@.interactive.len() {
                Some(self@.interactive[self@.focus as int].id)
            } else {
                None
            }),
    {
        if self.focus < self.interactive.len() {
            Some(self.interactive[self.focus].id)
        } else {
            None
        }
    }

    /// Live input text, keyed by node identifier.
    pub fn inputs(&self) -> (r: &HashMap<u64, String>)
        ensures
            r@.map_values(|s: String| s@) == self@.inputs,
    {
        &self.inputs
    }

    /// Whether quitting was requested.
    pub fn quit(&self) -> (r: bool)
        ensures
            r == self@.quit,
    {
        self.quit
    }

    /// Feeds a key event to the driver. Returns the focused node's message
    /// when Enter or Space activates it; otherwise `None`. Character and
    /// Backspace keys edit the focused input.
    pub fn on_key(&mut self, key: KeyEvent) -> (r: Option<Msg>)
        requires
            old(self).wf(),
        ensures
            final(self).wf(),
            final(self)@ == key_step(old(self)@, key),
            activates(old(self)@, key) ==> option_cloned(
                r,
                old(self)@.interactive[old(self)@.focus as int].on_click,
            ),
            !activates(old(self)@, key) ==> r is None,
    {
        if key.kind != KeyEventKind::Press {
            return None;
        }
        if self.interactive.len() == 0 {
            if key.code == KeyCode::Esc {
                self.quit = true;
            }
            return None;
        }
        let n = self.interactive.len();
        match key.code {
            KeyCode::Esc => {
                self.quit = true;
                None
            },
            KeyCode::Tab | KeyCode::Down | KeyCode::Right => {
                self.focus = (self.focus + 1) % n;
                assert(self@ =~= key_step(old(self)@, key));
                None
            },
            KeyCode::BackTab | KeyCode::Up | KeyCode::Left => {
                let back = if self.focus == 0 {
                    n - 1
                } else {
                    self.focus - 1
                };
                assert(back % n == back) by (nonlinear_arith)
                    requires
                        back < n,
                ;
                self.focus = back % n;
                assert(self@ =~= key_step(old(self)@, key));
                None
            },
            KeyCode::Enter => clone_message(&self.interactive[self.focus].on_click),
            KeyCode::Char(c) => {
                if c == ' ' {
                    return clone_message(&self.interactive[self.focus].on_click);
                }
                let id = self.interactive[self.focus].id;
                if self.interactive[self.focus].kind == InteractiveKind::Input {
                    let mut current = match self.inputs.get(&id) {
                        Some(text) => text.clone(),
                        None => String::new(),
                    };
                    push_char(&mut current, c);
                    let ghost text = current;
                    self.inputs.insert(id, current);
                    assert(self@.inputs =~= key_step(old(self)@, key).inputs);
                }
                assert(self@ =~= key_step(old(self)@, key));
                None
            },
            KeyCode::Backspace => {
                let id = self.interactive[self.focus].id;
                if self.interactive[self.focus].kind == InteractiveKind::Input {
                    let found = match self.inputs.get(&id) {
                        Some(text) => Some(text.clone()),
                        None => None,
                    };
                    if let Some(text) = found {
                        let mut current = text;
                        pop_char(&mut current);
                        self.inputs.insert(id, current);
                        assert(self@.inputs =~= key_step(old(self)@, key).inputs);
                    }
                }
                assert(self@ =~= key_step(old(self)@, key));
                None
            },
            KeyCode::Other => None,
        }
    }
}

/// The focusable nodes of a tree, identified by the identifiers stored in
/// their metadata (0 where none is stored).
pub open spec fn interactive_in<Msg>(t: UITree<Msg>) -> Seq<Interactive<Msg>>
    decreases t,
{
    let id = match t.meta.data_appfront_id {
        Some(i) => i,
        None => 0u64,
    };
    match t.kind {
        NodeKind::Button { .. } => seq![(id, InteractiveKind::Button, t.meta.on_click)],
        NodeKind::Input { .. } => seq![(id, InteractiveKind::Input, t.meta.on_click)],
        NodeKind::Container { children } => all_interactive_in(children@),
        NodeKind::List { items } => all_interactive_in(items@),
        _ => Seq::empty(),
    }
}

/// The forest version of [`interactive_in`].
pub open spec fn all_interactive_in<Msg>(ts: Seq<UITree<Msg>>) -> Seq<Interactive<Msg>>
    decreases ts,
{
    if ts.len() == 0 {
        Seq::empty()
    } else {
        all_interactive_in(ts.drop_last()) + interactive_in(ts.last())
    }
}

/// Numbering the nodes on the fly finds the same focusable nodes, with the
/// same identifiers, as assigning identifiers first and reading them back.
pub proof fn lemma_numbering_agrees_with_assigned_ids<Msg>(
    assigned: UITree<Msg>,
    t: UITree<Msg>,
    start: int,
)
    requires
        ids_assigned(assigned, t, start),
    ensures
        interactive_in(assigned) == interactive_from(t, start),
    decreases t,
{
    match (assigned.kind, t.kind) {
        (NodeKind::Container { children: a }, NodeKind::Container { children: o }) => {
            lemma_all_numbering_agrees(a@, o@, start + 1);
        },
        (NodeKind::List { items: a }, NodeKind::List { items: o }) => {
            lemma_all_numbering_agrees(a@, o@, start + 1);
        },
        _ => {},
    }
}

/// The forest version of [`lemma_numbering_agrees_with_assigned_ids`].
pub proof fn lemma_all_numbering_agrees<Msg>(
    assigned: Seq<UITree<Msg>>,
    t: Seq<UITree<Msg>>,
    start: int,
)
    requires
        all_ids_assigned(assigned, t, start),
    ensures
        all_interactive_in(assigned) == all_interactive_from(t, start),
    decreases t,
{
    if t.len() > 0 {
        lemma_all_numbering_agrees(assigned.drop_last(), t.drop_last(), start);
        lemma_numbering_agrees_with_assigned_ids(
            assigned.last(),
            t.last(),
            start + size_all(t.drop_last()),
        );
    }
}

/// The single-line text of a node: its text, label or value, and nothing
/// for containers, lists and grids.
pub open spec fn node_text_of<Msg>(t: UITree<Msg>) -> Seq<char> {
    match t.kind {
        NodeKind::Text { text } => text@,
        NodeKind::Heading { text, .. } => text@,
        NodeKind::Button { label } => label@,
        NodeKind::Input { value } => value@,
        _ => Seq::empty(),
    }
}

/// Best-effort single-line text for a node (used when listing items).
pub fn node_text<Msg>(ui: &UITree<Msg>) -> (r: String)
    ensures
        r@ == node_text_of(*ui),
{
    match &ui.kind {
        NodeKind::Text { text } => text.clone(),
        NodeKind::Heading { text, .. } => text.clone(),
        NodeKind::Button { label } => label.clone(),
        NodeKind::Input { value } => value.clone(),
        _ => String::new(),
    }
}

} // verus!
