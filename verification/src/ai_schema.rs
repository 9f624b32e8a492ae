//! What an AI agent reads of a page without rendering it: the interactive
//! surface (buttons and inputs with their actions and parameters) and the
//! data content (headings, text, tables), both in document order.

use vstd::prelude::*;

use crate::text::{chars_of, push_str, str_eq};
use crate::html::{in_forest, in_tree};
use crate::ui_tree::{NodeKind, UITree};

verus! {

broadcast use vstd::string::group_string_axioms;

/// A button or input an agent can act on.
pub struct InteractiveElement {
    /// `"button"` or `"input"`.
    pub kind: String,
    /// A button's label.
    pub label: Option<String>,
    /// An input's current value.
    pub value: Option<String>,
    /// The node's AI action, if any.
    pub action: Option<String>,
    /// The node's AI parameters, in the order they were declared.
    pub params: Vec<(String, String)>,
}

/// A piece of content an agent can read.
pub struct DataElement {
    /// `"heading"`, `"text"` or `"data_grid"`.
    pub kind: String,
    pub columns: Option<Vec<String>>,
    pub rows: Option<Vec<Vec<String>>>,
    pub text: Option<String>,
}

/// The interactive surface and data content of a tree.
pub struct AiSchemaOutput {
    pub schema_version: String,
    /// The text of the first data element, or empty.
    pub title: String,
    pub interactive: Vec<InteractiveElement>,
    pub data: Vec<DataElement>,
}

/// The buttons and inputs of a tree, in document order.
pub open spec fn interactive_nodes<Msg>(t: UITree<Msg>) -> Seq<UITree<Msg>>
    decreases t,
{
    match t.kind {
        NodeKind::Container { children } => interactive_all(children@),
        NodeKind::List { items } => interactive_all(items@),
        NodeKind::Button { .. } => seq![t],
        NodeKind::Input { .. } => seq![t],
        _ => Seq::empty(),
    }
}

/// The buttons and inputs of a forest, in document order.
pub open spec fn interactive_all<Msg>(ts: Seq<UITree<Msg>>) -> Seq<UITree<Msg>>
    decreases ts,
{
    if ts.len() == 0 {
        Seq::empty()
    } else {
        interactive_all(ts.drop_last()) + interactive_nodes(ts.last())
    }
}

/// The headings, texts and data grids of a tree, in document order.
pub open spec fn data_nodes<Msg>(t: UITree<Msg>) -> Seq<UITree<Msg>>
    decreases t,
{
    match t.kind {
        NodeKind::Container { children } => data_all(children@),
        NodeKind::List { items } => data_all(items@),
        NodeKind::Heading { .. } => seq![t],
        NodeKind::Text { .. } => seq![t],
        NodeKind::DataGrid { .. } => seq![t],
        _ => Seq::empty(),
    }
}

/// The headings, texts and data grids of a forest, in document order.
pub open spec fn data_all<Msg>(ts: Seq<UITree<Msg>>) -> Seq<UITree<Msg>>
    decreases ts,
{
    if ts.len() == 0 {
        Seq::empty()
    } else {
        data_all(ts.drop_last()) + data_nodes(ts.last())
    }
}

/// `e` is what the schema says of the button or input `t`.
pub open spec fn describes_interactive<Msg>(e: InteractiveElement, t: UITree<Msg>) -> bool {
    &&& e.action == t.meta.ai.action
    &&& e.params@ == t.meta.ai.params@
    &&& match t.kind {
        NodeKind::Button { label } => e.kind@ == "button"@ && e.label == Some(label)
            && e.value is None,
        NodeKind::Input { value } => e.kind@ == "input"@ && e.label is None && e.value == Some(
            value,
        ),
        _ => false,
    }
}

/// `e` is what the schema says of the heading, text or data grid `t`.
pub open spec fn describes_data<Msg>(e: DataElement, t: UITree<Msg>) -> bool {
    match t.kind {
        NodeKind::Heading { text, .. } => e.kind@ == "heading"@ && e.columns is None
            && e.rows is None && e.text == Some(text),
        NodeKind::Text { text } => e.kind@ == "text"@ && e.columns is None && e.rows is None
            && e.text == Some(text),
        NodeKind::DataGrid { columns, rows } => {
            &&& e.kind@ == "data_grid"@
            &&& e.text is None
            &&& e.columns matches Some(c) && c@ == columns@
            &&& e.rows matches Some(r) && r@.len() == rows@.len() && forall|i: int|
                0 <= i < r@.len() ==> #[trigger] r@[i]@ == rows@[i]@
        },
        _ => false,
    }
}

/// `es` describes the interactive nodes `ns` one for one.
pub open spec fn all_interactive<Msg>(es: Seq<InteractiveElement>, ns: Seq<UITree<Msg>>) -> bool {
    &&& es.len() == ns.len()
    &&& forall|i: int| 0 <= i < es.len() ==> #[trigger] describes_interactive(es[i], ns[i])
}

/// `es` describes the data nodes `ns` one for one.
pub open spec fn all_data<Msg>(es: Seq<DataElement>, ns: Seq<UITree<Msg>>) -> bool {
    &&& es.len() == ns.len()
    &&& forall|i: int| 0 <= i < es.len() ==> #[trigger] describes_data(es[i], ns[i])
}

proof fn lemma_interactive_extend<Msg>(
    a: Seq<InteractiveElement>,
    b: Seq<InteractiveElement>,
    k: int,
    x: Seq<UITree<Msg>>,
    y: Seq<UITree<Msg>>,
)
    requires
        0 <= k <= a.len() <= b.len(),
        b.take(a.len() as int) == a,
        all_interactive(a.skip(k), x),
        all_interactive(b.skip(a.len() as int), y),
    ensures
        all_interactive(b.skip(k), x + y),
        b.take(k) == a.take(k),
{
    assert forall|i: int| 0 <= i < b.skip(k).len() implies #[trigger] describes_interactive(
        b.skip(k)[i],
        (x + y)[i],
    ) by {
        if i < x.len() {
            assert(b.skip(k)[i] == b.take(a.len() as int)[k + i]);
            assert(a.skip(k)[i] == a[k + i]);
        } else {
            assert(b.skip(k)[i] == b.skip(a.len() as int)[i - x.len()]);
        }
    }
    assert(b.take(k) =~= a.take(k)) by {
        assert forall|i: int| 0 <= i < k implies b.take(k)[i] == a.take(k)[i] by {
            assert(b.take(a.len() as int)[i] == b[i]);
        }
    }
}

proof fn lemma_data_extend<Msg>(
    a: Seq<DataElement>,
    b: Seq<DataElement>,
    k: int,
    x: Seq<UITree<Msg>>,
    y: Seq<UITree<Msg>>,
)
    requires
        0 <= k <= a.len() <= b.len(),
        b.take(a.len() as int) == a,
        all_data(a.skip(k), x),
        all_data(b.skip(a.len() as int), y),
    ensures
        all_data(b.skip(k), x + y),
        b.take(k) == a.take(k),
{
    assert forall|i: int| 0 <= i < b.skip(k).len() implies #[trigger] describes_data(
        b.skip(k)[i],
        (x + y)[i],
    ) by {
        if i < x.len() {
            assert(b.skip(k)[i] == b.take(a.len() as int)[k + i]);
            assert(a.skip(k)[i] == a[k + i]);
        } else {
            assert(b.skip(k)[i] == b.skip(a.len() as int)[i - x.len()]);
        }
    }
    assert(b.take(k) =~= a.take(k)) by {
        assert forall|i: int| 0 <= i < k implies b.take(k)[i] == a.take(k)[i] by {
            assert(b.take(a.len() as int)[i] == b[i]);
        }
    }
}

fn clone_opt(s: &Option<String>) -> (r: Option<String>)
    ensures
        r == *s,
{
    match s {
        Some(x) => Some(x.clone()),
        None => None,
    }
}

fn clone_params(v: &Vec<(String, String)>) -> (r: Vec<(String, String)>)
    ensures
        r@ == v@,
{
    let mut r: Vec<(String, String)> = Vec::new();
    let mut i: usize = 0;
    while i < v.len()
        invariant
            i <= v.len(),
            r@ == v@.take(i as int),
        decreases v.len() - i,
    {
        let k = v[i].0.clone();
        let x = v[i].1.clone();
        r.push((k, x));
        assert(r@ =~= v@.take(i + 1));
        i += 1;
    }
    assert(v@.take(v.len() as int) =~= v@);
    r
}

fn clone_strings(v: &Vec<String>) -> (r: Vec<String>)
    ensures
        r@ == v@,
{
    let mut r: Vec<String> = Vec::new();
    let mut i: usize = 0;
    while i < v.len()
        invariant
            i <= v.len(),
            r@ == v@.take(i as int),
        decreases v.len() - i,
    {
        r.push(v[i].clone());
        assert(r@ =~= v@.take(i + 1));
        i += 1;
    }
    assert(v@.take(v.len() as int) =~= v@);
    r
}

fn clone_rows(v: &Vec<Vec<String>>) -> (r: Vec<Vec<String>>)
    ensures
        r@.len() == v@.len(),
        forall|i: int| 0 <= i < r@.len() ==> #[trigger] r@[i]@ == v@[i]@,
{
    let mut r: Vec<Vec<String>> = Vec::new();
    let mut i: usize = 0;
    while i < v.len()
        invariant
            i <= v.len(),
            r@.len() == i,
            forall|j: int| 0 <= j < i ==> #[trigger] r@[j]@ == v@[j]@,
        decreases v.len() - i,
    {
        r.push(clone_strings(&v[i]));
        i += 1;
    }
    r
}

fn collect_all<Msg>(
    children: &Vec<UITree<Msg>>,
    interactive: &mut Vec<InteractiveElement>,
    data: &mut Vec<DataElement>,
)
    ensures
        final(interactive)@.len() >= old(interactive)@.len(),
        final(interactive)@.take(old(interactive)@.len() as int) == old(interactive)@,
        all_interactive(final(interactive)@.skip(old(interactive)@.len() as int), interactive_all(children@)),
        final(data)@.len() >= old(data)@.len(),
        final(data)@.take(old(data)@.len() as int) == old(data)@,
        all_data(final(data)@.skip(old(data)@.len() as int), data_all(children@)),
    decreases children@, 0nat,
{
    let ghost k1 = interactive@.len() as int;
    let ghost k2 = data@.len() as int;
    let mut i: usize = 0;
    assert(interactive@.take(k1) =~= interactive@);
    assert(data@.take(k2) =~= data@);
    assert(interactive@.skip(k1) =~= Seq::<InteractiveElement>::empty());
    assert(data@.skip(k2) =~= Seq::<DataElement>::empty());
    assert(children@.take(0) =~= Seq::<UITree<Msg>>::empty());
    while i < children.len()
        invariant
            i <= children.len(),
            k1 == old(interactive)@.len(),
            k2 == old(data)@.len(),
            interactive@.len() >= k1,
            interactive@.take(k1) == old(interactive)@,
            all_interactive(interactive@.skip(k1), interactive_all(children@.take(i as int))),
            data@.len() >= k2,
            data@.take(k2) == old(data)@,
            all_data(data@.skip(k2), data_all(children@.take(i as int))),
        decreases children.len() - i,
    {
        assert(decreases_to!(children@ => children@[i as int]));
        let ghost a = interactive@;
        let ghost d = data@;
        collect(&children[i], interactive, data);
        proof {
            lemma_interactive_extend(a, interactive@, k1, interactive_all(children@.take(i as int)),
                interactive_nodes(children@[i as int]));
            lemma_data_extend(d, data@, k2, data_all(children@.take(i as int)),
                data_nodes(children@[i as int]));
            let t = children@.take(i + 1);
            assert(t.drop_last() =~= children@.take(i as int));
            assert(t.last() == children@[i as int]);
        }
        i += 1;
    }
    assert(children@.take(children.len() as int) =~= children@);
}

fn collect<Msg>(
    ui: &UITree<Msg>,
    interactive: &mut Vec<InteractiveElement>,
    data: &mut Vec<DataElement>,
)
    ensures
        final(interactive)@.len() >= old(interactive)@.len(),
        final(interactive)@.take(old(interactive)@.len() as int) == old(interactive)@,
        all_interactive(final(interactive)@.skip(old(interactive)@.len() as int), interactive_nodes(*ui)),
        final(data)@.len() >= old(data)@.len(),
        final(data)@.take(old(data)@.len() as int) == old(data)@,
        all_data(final(data)@.skip(old(data)@.len() as int), data_nodes(*ui)),
    decreases *ui, 1nat,
{
    let ghost k1 = interactive@.len() as int;
    let ghost k2 = data@.len() as int;
    match &ui.kind {
        NodeKind::Container { children } => {
            collect_all(children, interactive, data);
        },
        NodeKind::List { items } => {
            collect_all(items, interactive, data);
        },
        NodeKind::Heading { text, .. } => {
            data.push(DataElement {
                kind: String::from_str("heading"),
                columns: None,
                rows: None,
                text: Some(text.clone()),
            });
            proof {
                reveal_strlit("heading");
            }
            assert(interactive@.skip(k1) =~= Seq::<InteractiveElement>::empty());
            assert(data@.take(k2) =~= old(data)@);
            assert(data@.skip(k2) =~= seq![data@[k2]]);
        },
        NodeKind::Text { text } => {
            data.push(DataElement {
                kind: String::from_str("text"),
                columns: None,
                rows: None,
                text: Some(text.clone()),
            });
            proof {
                reveal_strlit("text");
            }
            assert(interactive@.skip(k1) =~= Seq::<InteractiveElement>::empty());
            assert(data@.take(k2) =~= old(data)@);
            assert(data@.skip(k2) =~= seq![data@[k2]]);
        },
        NodeKind::DataGrid { columns, rows } => {
            data.push(DataElement {
                kind: String::from_str("data_grid"),
                columns: Some(clone_strings(columns)),
                rows: Some(clone_rows(rows)),
                text: None,
            });
            proof {
                reveal_strlit("data_grid");
            }
            assert(interactive@.skip(k1) =~= Seq::<InteractiveElement>::empty());
            assert(data@.take(k2) =~= old(data)@);
            assert(data@.skip(k2) =~= seq![data@[k2]]);
        },
        NodeKind::Button { label } => {
            interactive.push(InteractiveElement {
                kind: String::from_str("button"),
                label: Some(label.clone()),
                value: None,
                action: clone_opt(&ui.meta.ai.action),
                params: clone_params(&ui.meta.ai.params),
            });
            proof {
                reveal_strlit("button");
            }
            assert(data@.skip(k2) =~= Seq::<DataElement>::empty());
            assert(interactive@.take(k1) =~= old(interactive)@);
            assert(interactive@.skip(k1) =~= seq![interactive@[k1]]);
        },
        NodeKind::Input { value } => {
            interactive.push(InteractiveElement {
                kind: String::from_str("input"),
                label: None,
                value: Some(value.clone()),
                action: clone_opt(&ui.meta.ai.action),
                params: clone_params(&ui.meta.ai.params),
            });
            proof {
                reveal_strlit("input");
            }
            assert(data@.skip(k2) =~= Seq::<DataElement>::empty());
            assert(interactive@.take(k1) =~= old(interactive)@);
            assert(interactive@.skip(k1) =~= seq![interactive@[k1]]);
        },
    }
}

/// The title an agent is shown: the text of the first data element, or
/// empty when there is none or it carries no text.
pub open spec fn title_of<Msg>(t: UITree<Msg>) -> Seq<char> {
    let d = data_nodes(t);
    if d.len() == 0 {
        Seq::empty()
    } else {
        match d[0].kind {
            NodeKind::Heading { text, .. } => text@,
            NodeKind::Text { text } => text@,
            _ => Seq::empty(),
        }
    }
}

/// Describes the interactive surface and data content of `ui`: every
/// button and input, then every heading, text and data grid, each in
/// document order, under schema version `0.1.0`.
pub fn to_ai_schema<Msg>(ui: &UITree<Msg>) -> (r: AiSchemaOutput)
    ensures
        r.schema_version@ == "0.1.0"@,
        all_interactive(r.interactive@, interactive_nodes(*ui)),
        all_data(r.data@, data_nodes(*ui)),
        r.title@ == title_of(*ui),
{
    let mut interactive: Vec<InteractiveElement> = Vec::new();
    let mut data: Vec<DataElement> = Vec::new();
    collect(ui, &mut interactive, &mut data);
    assert(interactive@.skip(0) =~= interactive@);
    assert(data@.skip(0) =~= data@);
    let title = if data.len() > 0 {
        match &data[0].text {
            Some(t) => t.clone(),
            None => String::new(),
        }
    } else {
        String::new()
    };
    proof {
        reveal_strlit("0.1.0");
        if data@.len() > 0 {
            assert(describes_data(data@[0], data_nodes(*ui)[0]));
        }
    }
    AiSchemaOutput { schema_version: String::from_str("0.1.0"), title, interactive, data }
}

/// A schema.org `Action`: what invoking an element does.
pub struct LdAction {
    pub name: String,
    pub action: String,
    /// Sent as `actionParams`, left out when empty.
    pub params: Vec<(String, String)>,
}

/// What a `WebPageElement` entry says beside its description.
pub enum LdDetail {
    /// A container: `hasPart` with one placeholder per child, left out when
    /// there are no children.
    Parts(usize),
    /// A heading's text.
    Headline(String),
    /// A text node's text.
    Text(String),
    /// A button with neither an action nor a click message: its label.
    Name(String),
    /// An input: its value, and the action that sets it when it has one.
    Input { value: String, potential_action: Option<LdAction> },
    /// A list: `itemListElement` with one entry per item.
    ItemList(usize),
    /// A data grid, typed as a schema.org `Table`.
    Table { about: String, columns: Vec<String>, rows: Vec<Vec<String>> },
}

/// One entry of the JSON-LD `@graph`.
pub enum LdEntry {
    /// A `WebPageElement`, carrying the node's AI description if any.
    Element { description: Option<String>, detail: LdDetail },
    /// An `Action` (a button with an action or a click message).
    Action(LdAction),
}

/// Every node of a tree, each before its children (the order of the
/// `@graph` entries).
pub open spec fn ld_nodes<Msg>(t: UITree<Msg>) -> Seq<UITree<Msg>>
    decreases t,
{
    match t.kind {
        NodeKind::Container { children } => seq![t] + ld_all(children@),
        NodeKind::List { items } => seq![t] + ld_all(items@),
        _ => seq![t],
    }
}

/// Every node of a forest, each before its children.
pub open spec fn ld_all<Msg>(ts: Seq<UITree<Msg>>) -> Seq<UITree<Msg>>
    decreases ts,
{
    if ts.len() == 0 {
        Seq::empty()
    } else {
        ld_all(ts.drop_last()) + ld_nodes(ts.last())
    }
}

/// The strings of `parts` with `sep` between neighbours.
pub open spec fn joined(parts: Seq<String>, sep: Seq<char>) -> Seq<char>
    decreases parts.len(),
{
    if parts.len() == 0 {
        Seq::empty()
    } else if parts.len() == 1 {
        parts[0]@
    } else {
        joined(parts.drop_last(), sep) + sep + parts.last()@
    }
}

/// `a` is the action named `name` that invokes `action` with `params`.
pub open spec fn is_action(a: LdAction, name: Seq<char>, action: Seq<char>, params: Seq<(String, String)>) -> bool {
    a.name@ == name && a.action@ == action && a.params@ == params
}

/// `e` is the `@graph` entry of the node `t`.
pub open spec fn describes_ld<Msg>(e: LdEntry, t: UITree<Msg>) -> bool {
    let ai = t.meta.ai;
    match t.kind {
        NodeKind::Container { children } => e matches LdEntry::Element { description, detail }
            && description == ai.description && detail == LdDetail::Parts(children@.len() as usize),
        NodeKind::Heading { text, .. } => e matches LdEntry::Element { description, detail }
            && description == ai.description && detail == LdDetail::Headline(text),
        NodeKind::Text { text } => e matches LdEntry::Element { description, detail }
            && description == ai.description && detail == LdDetail::Text(text),
        NodeKind::Button { label } => match ai.action {
            Some(action) => e matches LdEntry::Action(a) && is_action(a, label@, action@, ai.params@),
            None => if t.meta.on_click is Some {
                e matches LdEntry::Action(a) && is_action(a, label@, "click"@, Seq::empty())
            } else {
                e matches LdEntry::Element { description, detail } && description
                    == ai.description && detail == LdDetail::Name(label)
            },
        },
        NodeKind::Input { value } => {
            &&& e matches LdEntry::Element { description, detail }
            &&& description == ai.description
            &&& detail matches LdDetail::Input { value: v, potential_action: p }
            &&& v == value
            &&& match ai.action {
                Some(action) => p matches Some(a) && is_action(
                    a,
                    "Set "@ + value@,
                    action@,
                    ai.params@,
                ),
                None => p is None,
            }
        },
        NodeKind::List { items } => e matches LdEntry::Element { description, detail }
            && description == ai.description && detail == LdDetail::ItemList(items@.len() as usize),
        NodeKind::DataGrid { columns, rows } => {
            &&& e matches LdEntry::Element { description, detail }
            &&& description == ai.description
            &&& detail matches LdDetail::Table { about, columns: c, rows: r }
            &&& about@ == joined(columns@, ", "@)
            &&& c@ == columns@
            &&& r@.len() == rows@.len()
            &&& forall|i: int| 0 <= i < r@.len() ==> #[trigger] r@[i]@ == rows@[i]@
        },
    }
}

/// `es` are the `@graph` entries of the nodes `ns`, one for one.
pub open spec fn all_ld<Msg>(es: Seq<LdEntry>, ns: Seq<UITree<Msg>>) -> bool {
    &&& es.len() == ns.len()
    &&& forall|i: int| 0 <= i < es.len() ==> #[trigger] describes_ld(es[i], ns[i])
}

proof fn lemma_ld_extend<Msg>(
    a: Seq<LdEntry>,
    b: Seq<LdEntry>,
    k: int,
    x: Seq<UITree<Msg>>,
    y: Seq<UITree<Msg>>,
)
    requires
        0 <= k <= a.len() <= b.len(),
        b.take(a.len() as int) == a,
        all_ld(a.skip(k), x),
        all_ld(b.skip(a.len() as int), y),
    ensures
        all_ld(b.skip(k), x + y),
        b.take(k) == a.take(k),
{
    assert forall|i: int| 0 <= i < b.skip(k).len() implies #[trigger] describes_ld(
        b.skip(k)[i],
        (x + y)[i],
    ) by {
        if i < x.len() {
            assert(b.skip(k)[i] == b.take(a.len() as int)[k + i]);
            assert(a.skip(k)[i] == a[k + i]);
        } else {
            assert(b.skip(k)[i] == b.skip(a.len() as int)[i - x.len()]);
        }
    }
    assert(b.take(k) =~= a.take(k)) by {
        assert forall|i: int| 0 <= i < k implies b.take(k)[i] == a.take(k)[i] by {
            assert(b.take(a.len() as int)[i] == b[i]);
        }
    }
}

fn join_strings(parts: &Vec<String>, sep: &str) -> (r: String)
    ensures
        r@ == joined(parts@, sep@),
{
    let mut r = String::new();
    let mut i: usize = 0;
    while i < parts.len()
        invariant
            i <= parts.len(),
            r@ == joined(parts@.take(i as int), sep@),
        decreases parts.len() - i,
    {
        if i > 0 {
            push_str(&mut r, sep);
        }
        push_str(&mut r, parts[i].as_str());
        proof {
            let t = parts@.take(i + 1);
            assert(t.drop_last() =~= parts@.take(i as int));
            if i == 0 {
                assert(r@ =~= joined(t, sep@));
            } else {
                assert(r@ =~= joined(t, sep@));
            }
        }
        i += 1;
    }
    assert(parts@.take(parts.len() as int) =~= parts@);
    r
}

fn ld_entry<Msg>(ui: &UITree<Msg>) -> (e: LdEntry)
    ensures
        describes_ld(e, *ui),
{
    let description = clone_opt(&ui.meta.ai.description);
    match &ui.kind {
        NodeKind::Container { children } => LdEntry::Element {
            description,
            detail: LdDetail::Parts(children.len()),
        },
        NodeKind::Heading { text, .. } => LdEntry::Element {
            description,
            detail: LdDetail::Headline(text.clone()),
        },
        NodeKind::Text { text } => LdEntry::Element { description, detail: LdDetail::Text(text.clone()) },
        NodeKind::Button { label } => {
            match &ui.meta.ai.action {
                Some(action) => LdEntry::Action(
                    LdAction {
                        name: label.clone(),
                        action: action.clone(),
                        params: clone_params(&ui.meta.ai.params),
                    },
                ),
                None => if ui.meta.on_click.is_some() {
                    proof {
                        reveal_strlit("click");
                    }
                    LdEntry::Action(
                        LdAction {
                            name: label.clone(),
                            action: String::from_str("click"),
                            params: Vec::new(),
                        },
                    )
                } else {
                    LdEntry::Element { description, detail: LdDetail::Name(label.clone()) }
                },
            }
        },
        NodeKind::Input { value } => {
            let potential_action = match &ui.meta.ai.action {
                Some(action) => {
                    let mut name = String::from_str("Set ");
                    push_str(&mut name, value.as_str());
                    proof {
                        reveal_strlit("Set ");
                    }
                    Some(
                        LdAction {
                            name,
                            action: action.clone(),
                            params: clone_params(&ui.meta.ai.params),
                        },
                    )
                },
                None => None,
            };
            LdEntry::Element {
                description,
                detail: LdDetail::Input { value: value.clone(), potential_action },
            }
        },
        NodeKind::List { items } => LdEntry::Element {
            description,
            detail: LdDetail::ItemList(items.len()),
        },
        NodeKind::DataGrid { columns, rows } => {
            let about = join_strings(columns, ", ");
            LdEntry::Element {
                description,
                detail: LdDetail::Table {
                    about,
                    columns: clone_strings(columns),
                    rows: clone_rows(rows),
                },
            }
        },
    }
}

fn walk_all<Msg>(children: &Vec<UITree<Msg>>, graph: &mut Vec<LdEntry>)
    ensures
        final(graph)@.len() >= old(graph)@.len(),
        final(graph)@.take(old(graph)@.len() as int) == old(graph)@,
        all_ld(final(graph)@.skip(old(graph)@.len() as int), ld_all(children@)),
    decreases children@, 0nat,
{
    let ghost k = graph@.len() as int;
    let mut i: usize = 0;
    assert(graph@.take(k) =~= graph@);
    assert(graph@.skip(k) =~= Seq::<LdEntry>::empty());
    assert(children@.take(0) =~= Seq::<UITree<Msg>>::empty());
    while i < children.len()
        invariant
            i <= children.len(),
            k == old(graph)@.len(),
            graph@.len() >= k,
            graph@.take(k) == old(graph)@,
            all_ld(graph@.skip(k), ld_all(children@.take(i as int))),
        decreases children.len() - i,
    {
        assert(decreases_to!(children@ => children@[i as int]));
        let ghost a = graph@;
        walk(&children[i], graph);
        proof {
            lemma_ld_extend(a, graph@, k, ld_all(children@.take(i as int)), ld_nodes(children@[i as int]));
            let t = children@.take(i + 1);
            assert(t.drop_last() =~= children@.take(i as int));
        }
        i += 1;
    }
    assert(children@.take(children.len() as int) =~= children@);
}

fn walk<Msg>(ui: &UITree<Msg>, graph: &mut Vec<LdEntry>)
    ensures
        final(graph)@.len() >= old(graph)@.len(),
        final(graph)@.take(old(graph)@.len() as int) == old(graph)@,
        all_ld(final(graph)@.skip(old(graph)@.len() as int), ld_nodes(*ui)),
    decreases *ui, 1nat,
{
    let ghost k = graph@.len() as int;
    graph.push(ld_entry(ui));
    let ghost a = graph@;
    assert(graph@.take(k) =~= old(graph)@);
    assert(graph@.skip(k) =~= seq![graph@[k]]);
    match &ui.kind {
        NodeKind::Container { children } => {
            walk_all(children, graph);
            proof {
                lemma_ld_extend(a, graph@, k, seq![*ui], ld_all(children@));
            }
        },
        NodeKind::List { items } => {
            walk_all(items, graph);
            proof {
                lemma_ld_extend(a, graph@, k, seq![*ui], ld_all(items@));
            }
        },
        _ => {},
    }
}

/// The schema.org structured data of `ui`: one `@graph` entry per node,
/// each before its children.
pub fn json_ld_graph<Msg>(ui: &UITree<Msg>) -> (r: Vec<LdEntry>)
    ensures
        all_ld(r@, ld_nodes(*ui)),
{
    let mut graph: Vec<LdEntry> = Vec::new();
    walk(ui, &mut graph);
    assert(graph@.skip(0) =~= graph@);
    graph
}

/// Each interactive element carries exactly its node's AI action and AI
/// parameters, buttons and inputs alike.
pub proof fn lemma_interactive_carries_ai_meta<Msg>(
    es: Seq<InteractiveElement>,
    ns: Seq<UITree<Msg>>,
    i: int,
)
    requires
        all_interactive(es, ns),
        0 <= i < es.len(),
    ensures
        es[i].params@ == ns[i].meta.ai.params@,
        es[i].action == ns[i].meta.ai.action,
        ns[i].kind is Button || ns[i].kind is Input,
{
    assert(describes_interactive(es[i], ns[i]));
}

proof fn lemma_interactive_complete<Msg>(x: UITree<Msg>, t: UITree<Msg>)
    requires
        in_tree(x, t),
        x.kind is Button || x.kind is Input,
    ensures
        interactive_nodes(t).contains(x),
    decreases t,
{
    if x == t {
        assert(interactive_nodes(t)[0] == x);
    } else {
        match t.kind {
            NodeKind::Container { children } => lemma_interactive_complete_all(x, children@),
            NodeKind::List { items } => lemma_interactive_complete_all(x, items@),
            _ => {},
        }
    }
}

proof fn lemma_interactive_complete_all<Msg>(x: UITree<Msg>, ts: Seq<UITree<Msg>>)
    requires
        in_forest(x, ts),
        x.kind is Button || x.kind is Input,
    ensures
        interactive_all(ts).contains(x),
    decreases ts,
{
    let init = ts.drop_last();
    let a = interactive_all(init);
    let b = interactive_nodes(ts.last());
    if in_forest(x, init) {
        lemma_interactive_complete_all(x, init);
        let k = choose|k: int| 0 <= k < a.len() && a[k] == x;
        assert((a + b)[k] == x);
    } else {
        lemma_interactive_complete(x, ts.last());
        let k = choose|k: int| 0 <= k < b.len() && b[k] == x;
        assert((a + b)[a.len() + k] == x);
    }
}

/// Every button and input of a tree, at any depth, is among the nodes the
/// schema lists as interactive.
pub proof fn lemma_every_control_is_listed<Msg>(x: UITree<Msg>, t: UITree<Msg>)
    requires
        in_tree(x, t),
        x.kind is Button || x.kind is Input,
    ensures
        interactive_nodes(t).contains(x),
{
    lemma_interactive_complete(x, t);
}

/// The action an `@graph` entry offers: an `Action` entry itself, or the
/// potential action of an input.
pub open spec fn entry_action(e: LdEntry) -> Option<LdAction> {
    match e {
        LdEntry::Action(a) => Some(a),
        LdEntry::Element { detail: LdDetail::Input { potential_action, .. }, .. } => potential_action,
        _ => None,
    }
}

/// For a button or input with an AI action, its `@graph` entry offers an
/// action that invokes exactly that action with exactly the node's AI
/// parameters, whichever of the two kinds the node is.
pub proof fn lemma_ld_actions_carry_params<Msg>(es: Seq<LdEntry>, ns: Seq<UITree<Msg>>, i: int)
    requires
        all_ld(es, ns),
        0 <= i < es.len(),
        ns[i].meta.ai.action is Some,
        ns[i].kind is Button || ns[i].kind is Input,
    ensures
        entry_action(es[i]) matches Some(a) && a.action@ == ns[i].meta.ai.action->0@ && a.params@
            == ns[i].meta.ai.params@,
{
    assert(describes_ld(es[i], ns[i]));
}

proof fn lemma_ld_complete<Msg>(x: UITree<Msg>, t: UITree<Msg>)
    requires
        in_tree(x, t),
    ensures
        ld_nodes(t).contains(x),
    decreases t,
{
    if x == t {
        assert(ld_nodes(t)[0] == x);
    } else {
        match t.kind {
            NodeKind::Container { children } => {
                lemma_ld_complete_all(x, children@);
                let k = choose|k: int| 0 <= k < ld_all(children@).len() && ld_all(children@)[k] == x;
                assert(ld_nodes(t)[k + 1] == x);
            },
            NodeKind::List { items } => {
                lemma_ld_complete_all(x, items@);
                let k = choose|k: int| 0 <= k < ld_all(items@).len() && ld_all(items@)[k] == x;
                assert(ld_nodes(t)[k + 1] == x);
            },
            _ => {},
        }
    }
}

proof fn lemma_ld_complete_all<Msg>(x: UITree<Msg>, ts: Seq<UITree<Msg>>)
    requires
        in_forest(x, ts),
    ensures
        ld_all(ts).contains(x),
    decreases ts,
{
    let init = ts.drop_last();
    let a = ld_all(init);
    let b = ld_nodes(ts.last());
    if in_forest(x, init) {
        lemma_ld_complete_all(x, init);
        let k = choose|k: int| 0 <= k < a.len() && a[k] == x;
        assert((a + b)[k] == x);
    } else {
        lemma_ld_complete(x, ts.last());
        let k = choose|k: int| 0 <= k < b.len() && b[k] == x;
        assert((a + b)[a.len() + k] == x);
    }
}

/// Every node of a tree, at any depth, has its own entry in the JSON-LD
/// `@graph`.
pub proof fn lemma_every_node_in_graph<Msg>(x: UITree<Msg>, t: UITree<Msg>)
    requires
        in_tree(x, t),
    ensures
        ld_nodes(t).contains(x),
{
    lemma_ld_complete(x, t);
}

/// Whether `a` comes strictly before `b` in the lexicographic order of
/// their characters (the order in which Rust compares `String`s).
pub open spec fn text_before(a: Seq<char>, b: Seq<char>) -> bool
    decreases a.len(),
{
    if a.len() == 0 {
        b.len() > 0
    } else if b.len() == 0 {
        false
    } else if a[0] != b[0] {
        a[0] < b[0]
    } else {
        text_before(a.skip(1), b.skip(1))
    }
}

proof fn lemma_before_irreflexive(a: Seq<char>)
    ensures
        !text_before(a, a),
    decreases a.len(),
{
    if a.len() > 0 {
        lemma_before_irreflexive(a.skip(1));
    }
}

proof fn lemma_before_transitive(a: Seq<char>, b: Seq<char>, c: Seq<char>)
    requires
        text_before(a, b),
        text_before(b, c),
    ensures
        text_before(a, c),
    decreases a.len(),
{
    if a.len() > 0 && b.len() > 0 && c.len() > 0 && a[0] == b[0] && b[0] == c[0] {
        lemma_before_transitive(a.skip(1), b.skip(1), c.skip(1));
    }
}

proof fn lemma_before_total(a: Seq<char>, b: Seq<char>)
    ensures
        a == b || text_before(a, b) || text_before(b, a),
    decreases a.len(),
{
    if a.len() > 0 && b.len() > 0 && a[0] == b[0] {
        lemma_before_total(a.skip(1), b.skip(1));
        if a.skip(1) == b.skip(1) {
            assert(a =~= seq![a[0]] + a.skip(1));
            assert(b =~= seq![b[0]] + b.skip(1));
        }
    } else if a.len() == 0 && b.len() == 0 {
        assert(a =~= b);
    }
}

/// Whether `a` sorts strictly before `b`.
pub fn str_before(a: &str, b: &str) -> (r: bool)
    ensures
        r == text_before(a@, b@),
{
    let x = chars_of(a);
    let y = chars_of(b);
    let mut i: usize = 0;
    assert(a@.skip(0) =~= a@);
    assert(b@.skip(0) =~= b@);
    loop
        invariant
            x@ == a@,
            y@ == b@,
            i <= x@.len(),
            i <= y@.len(),
            text_before(a@, b@) == text_before(a@.skip(i as int), b@.skip(i as int)),
        decreases x@.len() - i,
    {
        if i == x.len() {
            return i < y.len();
        }
        if i == y.len() {
            return false;
        }
        if x[i] != y[i] {
            return x[i] < y[i];
        }
        assert(a@.skip(i as int).skip(1) =~= a@.skip(i + 1));
        assert(b@.skip(i as int).skip(1) =~= b@.skip(i + 1));
        i += 1;
    }
}

/// The parameters as a map from key to value: declared in order, so a
/// later pair with the same key replaces an earlier one.
pub open spec fn param_map(pairs: Seq<(String, String)>) -> Map<Seq<char>, Seq<char>>
    decreases pairs.len(),
{
    if pairs.len() == 0 {
        Map::empty()
    } else {
        param_map(pairs.drop_last()).insert(pairs.last().0@, pairs.last().1@)
    }
}

/// `entries` lists the map `m`: keys strictly ascending, each with its
/// value, and every key of `m` listed.
pub open spec fn lists_map(entries: Seq<(String, String)>, m: Map<Seq<char>, Seq<char>>) -> bool {
    &&& forall|i: int, j: int|
        0 <= i < j < entries.len() ==> text_before(#[trigger] entries[i].0@, #[trigger] entries[j].0@)
    &&& forall|i: int|
        0 <= i < entries.len() ==> m.contains_key(#[trigger] entries[i].0@) && m[entries[i].0@]
            == entries[i].1@
    &&& forall|k: Seq<char>|
        #[trigger] m.contains_key(k) ==> exists|i: int| 0 <= i < entries.len() && entries[i].0@ == k
}

/// The parameters of an action as the object an agent reads: one entry
/// per key, the last declared value winning, keys in ascending order.
pub fn param_entries(pairs: &Vec<(String, String)>) -> (r: Vec<(String, String)>)
    ensures
        lists_map(r@, param_map(pairs@)),
{
    let mut r: Vec<(String, String)> = Vec::new();
    let mut i: usize = 0;
    assert(pairs@.take(0) =~= Seq::<(String, String)>::empty());
    while i < pairs.len()
        invariant
            i <= pairs@.len(),
            lists_map(r@, param_map(pairs@.take(i as int))),
        decreases pairs.len() - i,
    {
        let k = &pairs[i].0;
        let v = &pairs[i].1;
        let ghost m0 = param_map(pairs@.take(i as int));
        assert(pairs@.take(i + 1).drop_last() =~= pairs@.take(i as int));
        let ghost m1 = m0.insert(k@, v@);
        assert(param_map(pairs@.take(i + 1)) == m1);
        let mut j: usize = 0;
        while j < r.len() && str_before(r[j].0.as_str(), k.as_str())
            invariant
                j <= r@.len(),
                forall|t: int| 0 <= t < j ==> text_before(#[trigger] r@[t].0@, k@),
            decreases r.len() - j,
        {
            j += 1;
        }
        let ghost old_r = r@;
        proof {
            assert forall|t: int| 0 <= t < j implies r@[t].0@ != k@ by {
                lemma_before_irreflexive(k@);
            }
        }
        if j < r.len() && str_eq(r[j].0.as_str(), k.as_str()) {
            r.set(j, (k.clone(), v.clone()));
            proof {
                assert forall|t: int| 0 <= t < r@.len() && t != j implies r@[t].0@ != k@ by {
                    if t > j {
                        assert(text_before(old_r[j as int].0@, old_r[t].0@));
                        lemma_before_irreflexive(k@);
                    }
                }
                assert forall|kk: Seq<char>| #[trigger] m1.contains_key(kk) implies exists|t: int|
                    0 <= t < r@.len() && r@[t].0@ == kk by {
                    if kk != k@ {
                        assert(m0.contains_key(kk));
                        let t = choose|t: int| 0 <= t < old_r.len() && old_r[t].0@ == kk;
                        assert(r@[t].0@ == kk);
                    } else {
                        assert(r@[j as int].0@ == kk);
                    }
                }
            }
        } else {
            proof {
                assert forall|t: int| j <= t < old_r.len() implies text_before(
                    k@,
                    #[trigger] old_r[t].0@,
                ) by {
                    lemma_before_total(k@, old_r[j as int].0@);
                    if t > j {
                        lemma_before_transitive(k@, old_r[j as int].0@, old_r[t].0@);
                    }
                }
                assert forall|t: int| j <= t < old_r.len() implies old_r[t].0@ != k@ by {
                    assert(text_before(k@, old_r[t].0@));
                    lemma_before_irreflexive(k@);
                }
            }
            r.insert(j, (k.clone(), v.clone()));
            proof {
                assert forall|a: int, b: int| 0 <= a < b < r@.len() implies text_before(
                    #[trigger] r@[a].0@,
                    #[trigger] r@[b].0@,
                ) by {
                    if a < j && b == j {
                    } else if a < j && b > j {
                        assert(r@[b] == old_r[b - 1]);
                        lemma_before_transitive(r@[a].0@, k@, r@[b].0@);
                    } else if a == j {
                        assert(r@[b] == old_r[b - 1]);
                    } else if a > j {
                        assert(r@[a] == old_r[a - 1]);
                        assert(r@[b] == old_r[b - 1]);
                    }
                }
                assert forall|t: int| 0 <= t < r@.len() implies m1.contains_key(#[trigger] r@[t].0@)
                    && m1[r@[t].0@] == r@[t].1@ by {
                    if t < j {
                        assert(r@[t] == old_r[t]);
                    } else if t > j {
                        assert(r@[t] == old_r[t - 1]);
                    }
                }
                assert forall|kk: Seq<char>| #[trigger] m1.contains_key(kk) implies exists|t: int|
                    0 <= t < r@.len() && r@[t].0@ == kk by {
                    if kk != k@ {
                        assert(m0.contains_key(kk));
                        let t = choose|t: int| 0 <= t < old_r.len() && old_r[t].0@ == kk;
                        if t < j {
                            assert(r@[t] == old_r[t]);
                        } else {
                            assert(r@[t + 1] == old_r[t]);
                        }
                    } else {
                        assert(r@[j as int].0@ == kk);
                    }
                }
            }
        }
        i += 1;
    }
    assert(pairs@.take(pairs@.len() as int) =~= pairs@);
    r
}

} // verus!
