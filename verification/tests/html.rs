use appfront::html::{esc_attr, esc_json_str, esc_script_json, esc_text, render, render_page};
use appfront::ui_tree::{AiMeta, ContainerBuilder, NodeKind, NodeMeta, UITree};

type Msg = ();

fn node(kind: NodeKind<Msg>) -> UITree<Msg> {
    UITree::leaf(kind)
}

fn container(children: Vec<UITree<Msg>>) -> UITree<Msg> {
    node(NodeKind::Container { children })
}

fn with_class(mut t: UITree<Msg>, class: &str) -> UITree<Msg> {
    t.meta.class = Some(class.to_string());
    t
}

fn ui_tree() -> UITree<Msg> {
    UITree::container(|c: &mut ContainerBuilder<Msg>| {
        c.heading(1, "Dashboard").class("title");
        c.button("Submit").ai_action("submit").ai_param("key", "val");
    })
}

#[test]
fn renders_heading() {
    let html = render(&ui_tree());
    assert!(html.contains("<h1 class=\"title\">Dashboard</h1>"), "{html}");
}

#[test]
fn renders_button_with_ai_attrs() {
    let html = render(&ui_tree());
    assert!(html.contains("data-ai-action=\"submit\""), "{html}");
    assert!(html.contains("data-ai-params"), "{html}");
}

#[test]
fn renders_input() {
    let ui = UITree::container(|c: &mut ContainerBuilder<Msg>| {
        c.input("hello");
    });
    let html = render(&ui);
    assert!(html.contains(r#"value="hello""#));
}

#[test]
fn renders_full_page() {
    let ui = UITree::container(|c: &mut ContainerBuilder<Msg>| {
        c.text("Hello");
    });
    let page = render_page(&ui, "Test Title", "Test Description");
    assert!(page.contains("<!DOCTYPE html>"));
    assert!(page.contains("<title>Test Title</title>"));
    assert!(page.contains(r#"property="og:title""#));
    assert!(page.contains(r#"property="og:description""#));
    assert!(page.contains(">Hello<"));
}

#[test]
fn escapes_special_chars() {
    let ui = UITree::container(|c: &mut ContainerBuilder<Msg>| {
        c.text("<script>alert('xss')</script>");
    });
    let html = render(&ui);
    assert!(!html.contains("<script>"));
    assert!(html.contains("&lt;script&gt;"));
}

#[test]
fn utility_classes_emit_inline_style() {
    let ui = UITree::container(|c: &mut ContainerBuilder<Msg>| {
        c.heading(1, "Styled").class("bg-blue-500 p-4");
    });
    let html = render(&ui);
    assert!(html.contains(r#"class="bg-blue-500 p-4""#), "{html}");
    assert!(html.contains("background-color: #3b82f6"), "{html}");
    assert!(html.contains("padding: 1rem"), "{html}");
}

#[test]
fn styled_heading_exact_markup() {
    let ui = with_class(node(NodeKind::Heading { level: 2, text: "S".to_string() }), "bg-blue-500 card p-4");
    assert_eq!(
        render(&ui),
        "<h2 class=\"bg-blue-500 card p-4\" style=\"background-color: #3b82f6; padding: 1rem\">S</h2>"
    );
}

#[test]
fn data_grid_exact_markup() {
    let ui = container(vec![node(NodeKind::DataGrid {
        columns: vec!["A".to_string(), "B".to_string()],
        rows: vec![vec!["1".to_string(), "2".to_string()]],
    })]);
    assert_eq!(
        render(&ui),
        "<div><table><thead><tr><th>A</th><th>B</th></tr></thead><tbody><tr><td>1</td><td>2</td></tr></tbody></table></div>"
    );
}

#[test]
fn unknown_class_not_styled() {
    let ui = UITree::container(|c: &mut ContainerBuilder<Msg>| {
        c.text("plain").class("my-custom-class");
    });
    let html = render(&ui);
    assert!(html.contains(r#"class="my-custom-class""#), "{html}");
    assert!(!html.contains("style="), "{html}");
}

#[test]
fn renders_data_grid() {
    let ui = UITree::container(|c: &mut ContainerBuilder<Msg>| {
        c.data_grid(vec!["A".to_string(), "B".to_string()], vec![vec!["1".to_string(), "2".to_string()]]);
    });
    let html = render(&ui);
    assert!(html.contains("<table>"));
    assert!(html.contains("<th>A</th>"));
    assert!(html.contains("<td>1</td>"));
}

#[test]
fn exact_fragment_for_small_tree() {
    let mut ui = ui_tree();
    ui.assign_ids();
    assert_eq!(
        render(&ui),
        "<div data-appfront-id=\"1\"><h1 class=\"title\" data-appfront-id=\"2\">Dashboard</h1><button type=\"button\" data-appfront-id=\"3\" data-ai-action=\"submit\" data-ai-params=\"{&quot;key&quot;:&quot;val&quot;}\">Submit</button></div>"
    );
}

#[test]
fn heading_level_is_clamped() {
    let ui = node(NodeKind::Heading { level: 9, text: "x".to_string() });
    assert_eq!(render(&ui), "<h6>x</h6>");
    let ui = node(NodeKind::Heading { level: 0, text: "y".to_string() });
    assert_eq!(render(&ui), "<h1>y</h1>");
}

#[test]
fn list_items_are_wrapped() {
    let ui = node(NodeKind::List { items: vec![node(NodeKind::Text { text: "a".to_string() })] });
    assert_eq!(render(&ui), "<ul><li>a</li></ul>");
}

#[test]
fn escape_functions_exact() {
    assert_eq!(esc_text("a<b>&c"), "a&lt;b&gt;&amp;c");
    assert_eq!(esc_attr("\"'<>&"), "&quot;&#x27;&lt;&gt;&amp;");
    assert_eq!(esc_script_json("</script>&"), "\\u003c/script\\u003e\\u0026");
    assert_eq!(esc_json_str("a\"b\\c\n"), "a\\\"b\\\\c\\n");
}

#[test]
fn page_escapes_title() {
    let ui = node(NodeKind::Text { text: String::new() });
    let page = render_page(&ui, "<x>", "\"d\"");
    assert!(page.contains("<title>&lt;x&gt;</title>"));
    assert!(page.contains("content=\"&quot;d&quot;\""));
}

#[test]
fn meta_and_ai_meta_start_empty() {
    let m: NodeMeta<Msg> = NodeMeta::new();
    assert!(m.class.is_none() && m.on_click.is_none() && m.key.is_none());
    let a = AiMeta::new();
    assert!(a.action.is_none() && a.params.is_empty() && a.description.is_none());
}
