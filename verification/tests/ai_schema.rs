use appfront::ai_schema::{json_ld_graph, to_ai_schema, LdDetail, LdEntry};
use appfront::ui_tree::{NodeKind, UITree};

type Msg = u8;

fn leaf(kind: NodeKind<Msg>) -> UITree<Msg> {
    UITree::leaf(kind)
}

fn sample() -> UITree<Msg> {
    let heading = leaf(NodeKind::Heading { level: 1, text: "Shop".to_string() });
    let mut buy = leaf(NodeKind::Button { label: "Buy".to_string() });
    buy.meta.ai.action = Some("buy".to_string());
    buy.meta.ai.params.push(("sku".to_string(), "A1".to_string()));
    let mut input = leaf(NodeKind::Input { value: "3".to_string() });
    input.meta.ai.action = Some("set_qty".to_string());
    let grid = leaf(NodeKind::DataGrid {
        columns: vec!["Name".to_string(), "Price".to_string()],
        rows: vec![vec!["Tea".to_string(), "2".to_string()]],
    });
    let mut plain = leaf(NodeKind::Button { label: "Plain".to_string() });
    plain.meta.ai.description = Some("does nothing".to_string());
    let mut click = leaf(NodeKind::Button { label: "Click".to_string() });
    click.meta.on_click = Some(1);
    let list = leaf(NodeKind::List {
        items: vec![leaf(NodeKind::Text { text: "one".to_string() }), plain, click],
    });
    leaf(NodeKind::Container { children: vec![heading, buy, input, grid, list] })
}

#[test]
fn schema_lists_interactive_and_data_in_document_order() {
    let s = to_ai_schema(&sample());
    assert_eq!(s.schema_version, "0.1.0");
    assert_eq!(s.title, "Shop");
    let kinds: Vec<&str> = s.interactive.iter().map(|e| e.kind.as_str()).collect();
    assert_eq!(kinds, vec!["button", "input", "button", "button"]);
    assert_eq!(s.interactive[0].label.as_deref(), Some("Buy"));
    assert_eq!(s.interactive[0].action.as_deref(), Some("buy"));
    assert_eq!(s.interactive[0].params, vec![("sku".to_string(), "A1".to_string())]);
    assert_eq!(s.interactive[1].value.as_deref(), Some("3"));
    assert_eq!(s.interactive[1].label, None);
    let data: Vec<&str> = s.data.iter().map(|d| d.kind.as_str()).collect();
    assert_eq!(data, vec!["heading", "data_grid", "text"]);
    assert_eq!(s.data[1].columns, Some(vec!["Name".to_string(), "Price".to_string()]));
    assert_eq!(s.data[1].rows, Some(vec![vec!["Tea".to_string(), "2".to_string()]]));
    assert_eq!(s.data[2].text.as_deref(), Some("one"));
}

#[test]
fn title_is_empty_without_leading_text() {
    let grid = leaf(NodeKind::DataGrid { columns: vec![], rows: vec![] });
    let s = to_ai_schema(&leaf(NodeKind::Container { children: vec![grid] }));
    assert_eq!(s.title, "");
    assert_eq!(to_ai_schema(&leaf(NodeKind::Button { label: "x".to_string() })).title, "");
}

#[test]
fn json_ld_has_one_entry_per_node_in_preorder() {
    let g = json_ld_graph(&sample());
    assert_eq!(g.len(), 9);
    assert!(matches!(&g[0], LdEntry::Element { detail: LdDetail::Parts(5), description: None }));
    assert!(matches!(&g[1], LdEntry::Element { detail: LdDetail::Headline(h), .. } if h == "Shop"));
    match &g[2] {
        LdEntry::Action(a) => {
            assert_eq!(a.name, "Buy");
            assert_eq!(a.action, "buy");
            assert_eq!(a.params.len(), 1);
        }
        _ => panic!("expected an action"),
    }
    match &g[3] {
        LdEntry::Element { detail: LdDetail::Input { value, potential_action: Some(a) }, .. } => {
            assert_eq!(value, "3");
            assert_eq!(a.name, "Set 3");
            assert_eq!(a.action, "set_qty");
        }
        _ => panic!("expected an input with an action"),
    }
    match &g[4] {
        LdEntry::Element { detail: LdDetail::Table { about, columns, rows }, .. } => {
            assert_eq!(about, "Name, Price");
            assert_eq!(columns.len(), 2);
            assert_eq!(rows.len(), 1);
        }
        _ => panic!("expected a table"),
    }
    assert!(matches!(&g[5], LdEntry::Element { detail: LdDetail::ItemList(3), .. }));
    assert!(matches!(&g[6], LdEntry::Element { detail: LdDetail::Text(t), .. } if t == "one"));
    match &g[7] {
        LdEntry::Element { detail: LdDetail::Name(n), description } => {
            assert_eq!(n, "Plain");
            assert_eq!(description.as_deref(), Some("does nothing"));
        }
        _ => panic!("expected a named element"),
    }
    match &g[8] {
        LdEntry::Action(a) => {
            assert_eq!(a.action, "click");
            assert!(a.params.is_empty());
        }
        _ => panic!("expected a click action"),
    }
}

#[test]
fn empty_container_has_no_parts() {
    let g = json_ld_graph(&leaf(NodeKind::Container { children: vec![] }));
    assert_eq!(g.len(), 1);
    assert!(matches!(&g[0], LdEntry::Element { detail: LdDetail::Parts(0), .. }));
}

fn pair(k: &str, v: &str) -> (String, String) {
    (k.to_string(), v.to_string())
}

#[test]
fn params_become_one_entry_per_key_in_key_order() {
    let declared = vec![pair("title", "Buy milk"), pair("due", "today"), pair("title", "Buy eggs")];
    assert_eq!(
        appfront::ai_schema::param_entries(&declared),
        vec![pair("due", "today"), pair("title", "Buy eggs")]
    );
    assert!(appfront::ai_schema::param_entries(&Vec::new()).is_empty());
    let mixed = vec![pair("b", "1"), pair("B", "2"), pair("ab", "3"), pair("a", "4")];
    assert_eq!(
        appfront::ai_schema::param_entries(&mixed),
        vec![pair("B", "2"), pair("a", "4"), pair("ab", "3"), pair("b", "1")]
    );
}

#[test]
fn text_order_matches_string_order() {
    for (a, b) in [("a", "b"), ("a", "ab"), ("", "a"), ("Z", "a"), ("é", "z"), ("abc", "abc")] {
        assert_eq!(appfront::ai_schema::str_before(a, b), a < b, "{a} {b}");
        assert_eq!(appfront::ai_schema::str_before(b, a), b < a, "{b} {a}");
    }
}
