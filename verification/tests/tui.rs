use appfront::tui::{node_text, InteractiveKind, KeyCode, KeyEvent, KeyEventKind, TuiDriver};
use appfront::ui_tree::{NodeKind, UITree};

#[derive(Debug, Clone, PartialEq)]
enum Msg {
    Increment,
}

fn node(kind: NodeKind<Msg>) -> UITree<Msg> {
    UITree::leaf(kind)
}

fn sample_ui() -> UITree<Msg> {
    let heading = node(NodeKind::Heading { level: 1, text: "Counter TUI".to_string() });
    let text = node(NodeKind::Text { text: "Press + to count".to_string() });
    let mut button = node(NodeKind::Button { label: "+1".to_string() });
    button.meta.on_click = Some(Msg::Increment);
    button.meta.key = Some("inc".to_string());
    let mut input = node(NodeKind::Input { value: "type here".to_string() });
    input.meta.key = Some("name".to_string());
    node(NodeKind::Container { children: vec![heading, text, button, input] })
}

#[test]
fn collects_interactive_in_document_order() {
    let ui = sample_ui();
    let driver = TuiDriver::new(&ui);
    assert_eq!(driver.len(), 2);
    assert_eq!(driver.interactive()[0].kind, InteractiveKind::Button);
    assert_eq!(driver.interactive()[1].kind, InteractiveKind::Input);
    assert_eq!(driver.focus_id(), Some(driver.interactive()[0].id));
}

#[test]
fn enter_on_button_dispatches_msg() {
    let ui = sample_ui();
    let mut driver = TuiDriver::new(&ui);
    let key = KeyEvent::new(KeyCode::Enter);
    assert_eq!(driver.on_key(key), Some(Msg::Increment));
    assert!(!driver.quit());
}

#[test]
fn space_activates_button_too() {
    let ui = sample_ui();
    let mut driver = TuiDriver::new(&ui);
    let key = KeyEvent::new(KeyCode::Char(' '));
    assert_eq!(driver.on_key(key), Some(Msg::Increment));
}

#[test]
fn tab_moves_focus_to_input_and_typing_edits_it() {
    let ui = sample_ui();
    let mut driver = TuiDriver::new(&ui);
    driver.on_key(KeyEvent::new(KeyCode::Tab));
    assert_eq!(driver.focus_id(), Some(driver.interactive()[1].id));

    driver.on_key(KeyEvent::new(KeyCode::Char('a')));
    driver.on_key(KeyEvent::new(KeyCode::Char('b')));
    let id = driver.interactive()[1].id;
    assert_eq!(driver.inputs().get(&id).map(String::as_str), Some("ab"));

    driver.on_key(KeyEvent::new(KeyCode::Backspace));
    assert_eq!(driver.inputs().get(&id).map(String::as_str), Some("a"));
}

#[test]
fn typing_on_button_is_ignored() {
    let ui = sample_ui();
    let mut driver = TuiDriver::new(&ui);
    assert_eq!(driver.on_key(KeyEvent::new(KeyCode::Char('x'))), None);
    assert!(driver.inputs().values().all(|v| v.is_empty()));
}

#[test]
fn esc_requests_quit() {
    let ui = sample_ui();
    let mut driver = TuiDriver::new(&ui);
    driver.on_key(KeyEvent::new(KeyCode::Esc));
    assert!(driver.quit());
}

#[test]
fn ids_are_preorder_numbers() {
    let driver = TuiDriver::new(&sample_ui());
    // container = 1, heading = 2, text = 3, button = 4, input = 5
    assert_eq!(driver.interactive()[0].id, 4);
    assert_eq!(driver.interactive()[1].id, 5);
}

#[test]
fn focus_wraps_both_ways() {
    let mut driver = TuiDriver::new(&sample_ui());
    driver.on_key(KeyEvent::new(KeyCode::Up));
    assert_eq!(driver.focus_id(), Some(5));
    driver.on_key(KeyEvent::new(KeyCode::Right));
    assert_eq!(driver.focus_id(), Some(4));
}

#[test]
fn release_events_are_ignored() {
    let mut driver = TuiDriver::new(&sample_ui());
    let release = KeyEvent { code: KeyCode::Esc, kind: KeyEventKind::Release };
    assert_eq!(driver.on_key(release), None);
    assert!(!driver.quit());
}

#[test]
fn empty_tree_only_quits_on_esc() {
    let ui: UITree<Msg> = node(NodeKind::Container { children: vec![] });
    let mut driver = TuiDriver::new(&ui);
    assert!(driver.is_empty());
    assert_eq!(driver.focus_id(), None);
    assert_eq!(driver.on_key(KeyEvent::new(KeyCode::Enter)), None);
    assert!(!driver.quit());
    driver.on_key(KeyEvent::new(KeyCode::Esc));
    assert!(driver.quit());
}

#[test]
fn backspace_on_untouched_input_does_nothing() {
    let mut driver = TuiDriver::new(&sample_ui());
    driver.on_key(KeyEvent::new(KeyCode::Tab));
    driver.on_key(KeyEvent::new(KeyCode::Backspace));
    assert!(driver.inputs().is_empty());
}

#[test]
fn node_text_reads_label_value_or_nothing() {
    assert_eq!(node_text(&node(NodeKind::Button { label: "go".to_string() })), "go");
    assert_eq!(node_text(&node(NodeKind::Input { value: "v".to_string() })), "v");
    assert_eq!(node_text(&node(NodeKind::List { items: vec![] })), "");
}
