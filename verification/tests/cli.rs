use appfront::cli::{scaffold_files, DepPaths};
use appfront::templates::{canvas_cargo_toml, dom_lib_rs, gitignore, readme};
use appfront::cli::{
    build_plan, dep_ref, dev, forward_slashes, resolve_build_steps, target_label,
    validate_project_name, BuildPlan, CliError, DevPlan, InitTarget,
};

#[test]
fn target_label_covers_every_variant() {
    assert_eq!(target_label(InitTarget::Dom), "dom");
    assert_eq!(target_label(InitTarget::Canvas), "canvas");
    assert_eq!(target_label(InitTarget::Tui), "tui");
    assert_eq!(target_label(InitTarget::Both), "canvas + dom");
}

#[test]
fn dep_path_uses_forward_slashes_and_ends_with_crate_name() {
    let path = forward_slashes("C:\\work\\tpt-appfront\\crates\\tpt-appfront-core");
    assert!(path.ends_with("tpt-appfront-core"));
    assert!(!path.contains('\\'));
    assert_eq!(path, "C:/work/tpt-appfront/crates/tpt-appfront-core");
}

#[test]
fn dep_ref_is_path_dep_inside_checkout_and_version_when_installed() {
    let r = dep_ref(true, "/src/crates/tpt-appfront-core", "0.1.0");
    assert!(r.starts_with("{ path ="), "expected path dep, got {r}");
    assert_eq!(r, "{ path = \"/src/crates/tpt-appfront-core\" }");
    let r = dep_ref(false, "/src/crates/tpt-appfront-core", "0.1.0");
    assert!(r.starts_with('"') && r.ends_with('"'), "expected version dep, got {r}");
    assert_eq!(r, "\"0.1.0\"");
}

#[test]
fn dev_rejects_conflicting_flags() {
    assert!(dev(true, true, false, false, false).is_err());
    assert!(dev(true, false, true, false, false).is_err());
    assert!(dev(false, true, true, false, false).is_err());
    assert!(dev(true, false, false, true, false).is_err());
    assert!(dev(false, true, false, true, false).is_err());
    assert!(dev(false, false, true, true, false).is_err());
    assert_eq!(dev(true, true, true, true, false), Err(CliError::ConflictingDevFlags));
}

#[test]
fn dev_requires_at_least_one_flag() {
    assert!(dev(false, false, false, false, false).is_err());
    assert_eq!(dev(false, false, false, false, true), Err(CliError::NoDevTarget));
}

#[test]
fn dev_selects_the_one_mode_given() {
    assert_eq!(dev(true, false, false, false, false), Ok(DevPlan::DesktopWatch));
    assert_eq!(dev(true, false, false, false, true), Ok(DevPlan::DesktopOnce));
    assert_eq!(dev(false, true, false, false, false), Ok(DevPlan::Web));
    assert_eq!(dev(false, false, true, false, false), Ok(DevPlan::Tui));
    assert_eq!(dev(false, false, false, true, false), Ok(DevPlan::DesktopWebview));
}

#[test]
fn build_rejects_unknown_target() {
    assert!(build_plan(Some("bogus")).is_err());
    let e = build_plan(Some("bogus")).unwrap_err();
    assert_eq!(e.message(), "unknown target `bogus`; use: dom, canvas, webview, or all");
}

#[test]
fn build_plan_notes_all_and_steps() {
    assert_eq!(build_plan(None), Ok(BuildPlan::All));
    assert_eq!(build_plan(Some("all")), Ok(BuildPlan::All));
    assert!(matches!(build_plan(Some("ssr")), Ok(BuildPlan::Note(n)) if n.contains("server crate")));
    assert!(matches!(build_plan(Some("ai-schema")), Ok(BuildPlan::Note(n)) if n.starts_with("`ai-schema`")));
    match build_plan(Some("wasm")) {
        Ok(BuildPlan::Steps(steps)) => {
            assert_eq!(steps.len(), 1);
            assert_eq!(steps[0].program, "trunk");
            assert_eq!(steps[0].args, vec!["build", "--release"]);
            assert!(steps[0].needs_trunk_index);
        }
        other => panic!("unexpected plan {other:?}"),
    }
}

#[test]
fn build_steps_per_target() {
    let canvas = resolve_build_steps("desktop").unwrap();
    assert_eq!(canvas[0].program, "cargo");
    assert!(canvas[0].report_size && !canvas[0].builds_ui && !canvas[0].needs_trunk_index);
    let tui = resolve_build_steps("terminal").unwrap();
    assert!(!tui[0].report_size);
    let webview = resolve_build_steps("webview").unwrap();
    assert!(webview[0].builds_ui && webview[0].report_size);
    assert_eq!(
        resolve_build_steps("html").unwrap_err(),
        CliError::UnknownTarget("html".to_string())
    );
}

#[test]
fn init_rejects_invalid_names_before_touching_disk() {
    assert!(validate_project_name("").is_err());
    assert!(validate_project_name("../escape").is_err());
    assert!(validate_project_name("a/b").is_err());
    assert!(validate_project_name("a\\b").is_err());
    assert!(validate_project_name("..").is_err());
    assert!(validate_project_name("my-app").is_ok());
    assert_eq!(
        validate_project_name("a/b").unwrap_err().message(),
        "invalid project name `a/b`: must be a plain directory name, not a path"
    );
}

#[test]
fn scaffold_writes_each_backend_then_gitignore_and_readme() {
    let deps = DepPaths {
        core: "/c/core".to_string(),
        canvas: "/c/canvas".to_string(),
        dom: "/c/dom".to_string(),
        tui: "/c/tui".to_string(),
    };
    let both = scaffold_files("shop", InitTarget::Both, &deps);
    let paths: Vec<&str> = both.iter().map(|(p, _)| p.as_str()).collect();
    assert_eq!(
        paths,
        vec![
            "canvas/Cargo.toml",
            "canvas/src/main.rs",
            "dom/Cargo.toml",
            "dom/src/lib.rs",
            "dom/index.html",
            ".gitignore",
            "README.md",
        ]
    );
    assert_eq!(both[0].1, canvas_cargo_toml("shop-canvas", "/c/core", "/c/canvas"));
    assert_eq!(both[3].1, dom_lib_rs("shop — TPT AppFront"));
    assert_eq!(both[5].1, gitignore());
    assert_eq!(both[6].1, readme("shop", true));

    let tui = scaffold_files("term", InitTarget::Tui, &deps);
    let paths: Vec<&str> = tui.iter().map(|(p, _)| p.as_str()).collect();
    assert_eq!(paths, vec!["Cargo.toml", "src/main.rs", ".gitignore", "README.md"]);
    assert!(tui[0].1.contains("/c/tui"));
    assert_eq!(tui[3].1, readme("term", false));
}
