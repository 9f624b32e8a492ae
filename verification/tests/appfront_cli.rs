use appfront::appfront_cli::{build_plan, dev, scaffold_files, target_label, BuildPlan, CliError, DevPlan, InitTarget};
use appfront::cli::DepPaths;

#[test]
fn small_tool_labels() {
    assert_eq!(target_label(InitTarget::Dom), "dom");
    assert_eq!(target_label(InitTarget::Canvas), "canvas");
    assert_eq!(target_label(InitTarget::Both), "canvas + dom");
}

#[test]
fn small_tool_dev_flags() {
    assert_eq!(dev(true, true), Err(CliError::ConflictingDevFlags));
    assert_eq!(dev(false, false), Err(CliError::NoDevTarget));
    assert_eq!(dev(true, false), Ok(DevPlan::Desktop));
    assert_eq!(dev(false, true), Ok(DevPlan::Web));
    assert_eq!(CliError::ConflictingDevFlags.message(), "pass only one of --desktop or --web");
}

#[test]
fn small_tool_build_targets() {
    assert_eq!(build_plan(None), Ok(BuildPlan::All));
    assert_eq!(build_plan(Some("wasm")), Ok(BuildPlan::Web));
    assert_eq!(build_plan(Some("desktop")), Ok(BuildPlan::Native));
    assert!(matches!(build_plan(Some("html")), Ok(BuildPlan::Note(n)) if n.starts_with("`appfront-html`")));
    let e = build_plan(Some("webview")).unwrap_err();
    assert_eq!(e.message(), "unknown target `webview`; use: dom, canvas, html, ai-schema, or all");
}

#[test]
fn small_tool_scaffolds_the_same_files() {
    let deps = DepPaths {
        core: "/core".to_string(),
        canvas: "/canvas".to_string(),
        dom: "/dom".to_string(),
        tui: "/tui".to_string(),
    };
    let files = scaffold_files("app", InitTarget::Dom, &deps);
    let paths: Vec<&str> = files.iter().map(|(p, _)| p.as_str()).collect();
    assert_eq!(paths, vec!["Cargo.toml", "src/lib.rs", "index.html", ".gitignore", "README.md"]);
    assert!(files[0].1.contains("name = \"app\""));
}
