use appfront::templates::{
    canvas_cargo_toml, canvas_main_rs, dom_cargo_toml, dom_lib_rs, gitignore, index_html,
    packager_toml, readme, tui_cargo_toml, tui_main_rs,
};

fn looks_like_toml(s: &str) -> bool {
    s.contains("[package]") && s.contains("[dependencies]")
}

#[test]
fn canvas_cargo_toml_embeds_paths_and_is_toml_shaped() {
    let out = canvas_cargo_toml("my-app", "/repo/appfront-core", "/repo/appfront-canvas");
    assert!(out.contains("/repo/appfront-core"));
    assert!(out.contains("/repo/appfront-canvas"));
    assert!(out.contains("name = \"my-app\""));
    assert!(looks_like_toml(&out));
}

#[test]
fn dom_cargo_toml_embeds_paths_and_is_toml_shaped() {
    let out = dom_cargo_toml("my-app", "/repo/appfront-core", "/repo/appfront-dom");
    assert!(out.contains("/repo/appfront-core"));
    assert!(out.contains("/repo/appfront-dom"));
    assert!(out.contains("crate-type = [\"cdylib\", \"rlib\"]"));
    assert!(looks_like_toml(&out));
}

#[test]
fn tui_cargo_toml_embeds_paths_and_is_toml_shaped() {
    let out = tui_cargo_toml("my-app", "/repo/appfront-core", "/repo/appfront-tui");
    assert!(out.contains("/repo/appfront-core"));
    assert!(out.contains("/repo/appfront-tui"));
    assert!(looks_like_toml(&out));
}

#[test]
fn canvas_main_rs_interpolates_title_with_no_leftover_braces() {
    let out = canvas_main_rs("My App");
    assert!(out.contains("My App"));
    assert!(!out.contains("{{"));
    assert!(!out.contains("}}"));
}

#[test]
fn dom_lib_rs_interpolates_title_with_no_leftover_braces() {
    let out = dom_lib_rs("My App");
    assert!(out.contains("My App"));
    assert!(!out.contains("{{"));
    assert!(!out.contains("}}"));
}

#[test]
fn tui_main_rs_interpolates_title_with_no_leftover_braces() {
    let out = tui_main_rs("My App");
    assert!(out.contains("My App"));
    assert!(!out.contains("{{"));
    assert!(!out.contains("}}"));
}

#[test]
fn index_html_interpolates_title() {
    let out = index_html("My App");
    assert!(out.contains("<title>My App</title>"));
}

#[test]
fn gitignore_has_expected_entries() {
    assert_eq!(gitignore(), "/target\n/dist\nCargo.lock\n");
}

#[test]
fn packager_toml_mentions_formats_and_updates() {
    let out = packager_toml("my-app");
    assert!(out.contains("product-name = \"my-app\""));
    assert!(out.contains("formats = ["));
    assert!(out.contains("generate-updates = true"));
}

#[test]
fn readme_both_mentions_canvas_and_dom() {
    let out = readme("my-app", true);
    assert!(out.contains("# my-app"));
    assert!(out.contains("canvas/"));
    assert!(out.contains("dom/"));
}

#[test]
fn readme_single_target_is_minimal() {
    let out = readme("my-app", false);
    assert!(out.contains("# my-app"));
    assert!(!out.contains("canvas/"));
}

#[test]
fn canvas_cargo_toml_exact_text() {
    let out = canvas_cargo_toml("p", "/c", "/v");
    assert_eq!(
        out,
        "[package]\nname = \"p\"\nversion = \"0.1.0\"\nedition = \"2021\"\npublish = false\n\n[dependencies]\nappfront-core = { path = \"/c\" }\nappfront-canvas = { path = \"/v\" }\n"
    );
}

#[test]
fn readme_single_target_exact_text() {
    assert_eq!(
        readme("x", false),
        "# x\n\nScaffolded by `appfront init`. See `appfront dev --help` / `appfront build --help`.\n"
    );
}
