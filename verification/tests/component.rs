use appfront::component::{
    allowed_for, apply_component_meta, body_reads_signal, check_attrs, doc_description,
    kebab_case, required_for, trim, AttrError, BodyToken,
};
use appfront::ui_tree::NodeMeta;

fn ident(s: &str) -> BodyToken {
    BodyToken::Ident(s.to_string())
}

fn names(v: &[&str]) -> Vec<String> {
    v.iter().map(|s| s.to_string()).collect()
}

#[test]
fn kebab_case_replaces_underscores() {
    assert_eq!(kebab_case("counter_row"), "counter-row");
    assert_eq!(kebab_case("app"), "app");
    assert_eq!(kebab_case("__x_"), "--x-");
}

#[test]
fn trim_strips_unicode_whitespace_at_both_ends() {
    assert_eq!(trim("  a b \t\n"), "a b");
    assert_eq!(trim("\u{3000}x\u{a0}"), "x");
    assert_eq!(trim("   "), "");
    assert_eq!(trim(""), "");
}

#[test]
fn doc_lines_become_one_description() {
    assert_eq!(doc_description(&names(&[])), None);
    assert_eq!(
        doc_description(&names(&[" A counter.", " Shows the count. "])),
        Some("A counter. Shows the count.".to_string())
    );
    assert_eq!(doc_description(&names(&[" ", "x"])), Some("x".to_string()));
}

#[test]
fn body_scan_finds_markers_at_any_depth() {
    let shallow = vec![ident("let"), ident("x"), BodyToken::Other, ident("count"), BodyToken::Other, ident("get")];
    assert!(body_reads_signal(&shallow));
    let deep = vec![ident("f"), BodyToken::Group(vec![BodyToken::Group(vec![ident("create_effect")])])];
    assert!(body_reads_signal(&deep));
    let none = vec![ident("UITree"), BodyToken::Group(vec![ident("heading"), BodyToken::Other])];
    assert!(!body_reads_signal(&none));
    assert!(!body_reads_signal(&vec![]));
}

#[test]
fn component_defaults_fill_only_what_is_unset() {
    let mut m: NodeMeta<()> = NodeMeta::new();
    apply_component_meta(&mut m, "counter-row", Some("A row.".to_string()), true);
    assert_eq!(m.class.as_deref(), Some("counter-row"));
    assert_eq!(m.ai.description.as_deref(), Some("A row."));
    assert!(m.is_dynamic);

    let mut m: NodeMeta<()> = NodeMeta::new();
    m.class = Some("custom".to_string());
    m.ai.description = Some("mine".to_string());
    m.is_dynamic = true;
    apply_component_meta(&mut m, "counter-row", None, false);
    assert_eq!(m.class.as_deref(), Some("custom"));
    assert_eq!(m.ai.description.as_deref(), Some("mine"));
    assert!(!m.is_dynamic);
}

#[test]
fn tag_tables() {
    assert_eq!(allowed_for("Input"), vec!["value", "class", "key", "on_input"]);
    assert_eq!(required_for("DataGrid"), vec!["columns", "rows"]);
    assert_eq!(allowed_for("Nope"), Vec::<&str>::new());
    assert_eq!(required_for("Container"), Vec::<&str>::new());
}

#[test]
fn attributes_are_checked_in_order() {
    assert_eq!(check_attrs("Heading", &names(&["level", "class"])), Ok(()));
    assert_eq!(
        check_attrs("Heading", &names(&["class", "on_click", "bogus"])),
        Err(AttrError::NotAccepted("on_click".to_string()))
    );
    assert_eq!(
        check_attrs("DataGrid", &names(&["rows"])),
        Err(AttrError::Missing("columns".to_string()))
    );
    assert_eq!(
        AttrError::Missing("columns".to_string()).message("DataGrid"),
        "`<DataGrid>` requires a `columns` attribute"
    );
    assert_eq!(
        AttrError::NotAccepted("on_click".to_string()).message("Heading"),
        "`<Heading>` does not accept a `on_click` attribute"
    );
}
