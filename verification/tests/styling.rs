use appfront::styling::{inline_style, utility, words};

#[test]
fn utilities_resolve_to_declarations() {
    assert_eq!(utility("bg-blue-500").as_deref(), Some("background-color: #3b82f6"));
    assert_eq!(utility("text-red-500").as_deref(), Some("color: #ef4444"));
    assert_eq!(utility("p-4").as_deref(), Some("padding: 1rem"));
    assert_eq!(utility("mt-2").as_deref(), Some("margin-top: 0.5rem"));
    assert_eq!(utility("m-0").as_deref(), Some("margin: 0"));
    assert_eq!(utility("font-bold").as_deref(), Some("font-weight: 700"));
    assert_eq!(utility("pl-7").as_deref(), Some("padding-left: 1.75rem"));
    assert_eq!(utility("p-x"), None);
    assert_eq!(utility("p-10"), None);
    assert_eq!(utility("bg-purple-500"), None);
    assert_eq!(utility("my-custom-class"), None);
    assert_eq!(utility(""), None);
}

#[test]
fn class_attribute_splits_at_whitespace() {
    assert_eq!(words("  bg-blue-500\tp-4  card "), vec!["bg-blue-500", "p-4", "card"]);
    assert!(words("   ").is_empty());
}

#[test]
fn inline_style_joins_recognised_classes() {
    assert_eq!(inline_style("bg-blue-500 p-4"), "background-color: #3b82f6; padding: 1rem");
    assert_eq!(inline_style("card p-4 shadow"), "padding: 1rem");
    assert_eq!(inline_style("my-custom-class"), "");
    assert_eq!(inline_style(""), "");
}
