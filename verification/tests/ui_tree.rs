use appfront::ui_tree::{item_key, ContainerBuilder, NodeKind, UITree};

#[derive(Debug, Clone, PartialEq)]
enum Event {
    ExportData,
}

fn node(kind: NodeKind<Event>) -> UITree<Event> {
    UITree::leaf(kind)
}

fn sample_ui() -> UITree<Event> {
    UITree::container(|c: &mut ContainerBuilder<Event>| {
        c.heading(1, "Dashboard").class("text-2xl font-bold");
        c.data_grid(
            vec!["Name".to_string(), "Value".to_string()],
            vec![vec!["a".to_string(), "1".to_string()], vec!["b".to_string(), "2".to_string()]],
        )
        .class("w-full mt-4");
        c.button("Export").on_click(Event::ExportData);
    })
}

#[test]
fn builder_produces_expected_shape() {
    let ui = sample_ui();
    let NodeKind::Container { children } = ui.kind else {
        panic!("expected container");
    };
    assert_eq!(children.len(), 3);

    match &children[0].kind {
        NodeKind::Heading { level, text } => {
            assert_eq!(*level, 1);
            assert_eq!(text, "Dashboard");
        }
        _ => panic!("expected heading"),
    }
    assert_eq!(children[0].meta.class.as_deref(), Some("text-2xl font-bold"));

    match &children[1].kind {
        NodeKind::DataGrid { columns, rows } => {
            assert_eq!(columns, &["Name", "Value"]);
            assert_eq!(rows.len(), 2);
        }
        _ => panic!("expected data grid"),
    }

    match &children[2].kind {
        NodeKind::Button { label } => assert_eq!(label, "Export"),
        _ => panic!("expected button"),
    }
    assert_eq!(children[2].meta.on_click, Some(Event::ExportData));
}

#[test]
fn assign_ids_assigns_sequential_ids() {
    let mut ui = UITree::container(|c: &mut ContainerBuilder<Event>| {
        c.heading(2, "Section");
        c.list(|l: &mut ContainerBuilder<Event>| {
            l.text("item");
        });
        c.container(|inner: &mut ContainerBuilder<Event>| {
            inner.button("Go").on_click(Event::ExportData);
        });
    });

    ui.assign_ids();

    assert_eq!(ui.meta.data_appfront_id, Some(1));
    let NodeKind::Container { children } = &ui.kind else {
        panic!("expected container");
    };
    assert_eq!(children[0].meta.data_appfront_id, Some(2));
    assert_eq!(children[1].meta.data_appfront_id, Some(3));
    let NodeKind::List { items } = &children[1].kind else {
        panic!("expected list");
    };
    assert_eq!(items[0].meta.data_appfront_id, Some(4));
    assert_eq!(children[2].meta.data_appfront_id, Some(5));
    let NodeKind::Container { children: inner_children } = &children[2].kind else {
        panic!("expected container");
    };
    assert_eq!(inner_children[0].meta.data_appfront_id, Some(6));
    assert_eq!(inner_children[0].meta.on_click, Some(Event::ExportData));
}

#[test]
fn node_refs_set_ai_metadata_and_keys() {
    let ui = UITree::container(|c: &mut ContainerBuilder<Event>| {
        c.button("Add")
            .ai_action("add_task")
            .ai_param("title", "Buy milk")
            .ai_param("due", "today")
            .ai_description("Add a new task")
            .key("row-1");
        c.input("hello");
    });
    let NodeKind::Container { children } = &ui.kind else { panic!("container") };
    let m = &children[0].meta;
    assert_eq!(m.ai.action.as_deref(), Some("add_task"));
    assert_eq!(
        m.ai.params,
        vec![("title".to_string(), "Buy milk".to_string()), ("due".to_string(), "today".to_string())]
    );
    assert_eq!(m.ai.description.as_deref(), Some("Add a new task"));
    assert_eq!(m.key.as_deref(), Some("row-1"));
    assert!(matches!(&children[1].kind, NodeKind::Input { value } if value == "hello"));
    assert!(children[1].meta.ai.action.is_none());
}

#[test]
fn builder_yields_its_only_child() {
    let mut b: ContainerBuilder<Event> = ContainerBuilder::new();
    assert!(ContainerBuilder::<Event>::new().into_only_child().is_none());
    b.text("one");
    let child = b.into_only_child().expect("one child");
    assert!(matches!(child.kind, NodeKind::Text { ref text } if text == "one"));
    let mut two: ContainerBuilder<Event> = ContainerBuilder::default();
    two.text("a");
    two.with(UITree::leaf(NodeKind::Text { text: "b".to_string() }));
    assert!(two.into_only_child().is_none());
}

#[test]
fn meta_mut_changes_only_the_metadata() {
    let mut t: UITree<Event> = UITree::leaf(NodeKind::Text { text: "t".to_string() });
    t.meta_mut().class = Some("c".to_string());
    assert_eq!(t.meta.class.as_deref(), Some("c"));
    assert!(matches!(t.kind, NodeKind::Text { ref text } if text == "t"));
}

#[test]
fn assign_ids_twice_overwrites() {
    let mut ui = node(NodeKind::Container { children: vec![node(NodeKind::Text { text: "t".to_string() })] });
    ui.meta.data_appfront_id = Some(99);
    ui.assign_ids();
    ui.assign_ids();
    assert_eq!(ui.meta.data_appfront_id, Some(1));
    let NodeKind::Container { children } = &ui.kind else { panic!("container") };
    assert_eq!(children[0].meta.data_appfront_id, Some(2));
}

#[test]
fn item_key_is_the_explicit_key_or_the_position() {
    let mut keyed: UITree<Event> = UITree::leaf(NodeKind::Text { text: "a".to_string() });
    keyed.meta.key = Some("row-7".to_string());
    assert_eq!(item_key(&keyed, 3), "row-7");
    let plain: UITree<Event> = UITree::leaf(NodeKind::Text { text: "b".to_string() });
    assert_eq!(item_key(&plain, 0), "0");
    assert_eq!(item_key(&plain, 42), "42");
}
