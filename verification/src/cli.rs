//! The decisions of the `tpt-appfront` command-line tool: which project
//! names are acceptable, which dev mode a set of flags selects, which build
//! steps a target alias stands for, and how scaffolded manifests refer to
//! the framework crates. Running the selected commands is the host's job.

use vstd::prelude::*;

use crate::templates::{
    canvas_cargo_toml, canvas_cargo_toml_text, canvas_main_rs, canvas_main_rs_text, dom_cargo_toml,
    dom_cargo_toml_text, dom_lib_rs, dom_lib_rs_text, gitignore, index_html, index_html_text, readme,
    readme_text, tui_cargo_toml, tui_cargo_toml_text, tui_main_rs, tui_main_rs_text,
};
use crate::text::{push_char, push_str, str_eq};

verus! {

broadcast use vstd::string::group_string_axioms;

/// Which backend(s) `init` scaffolds.
#[derive(Debug, Clone, Copy, PartialEq, Eq, Structural)]
pub enum InitTarget {
    Dom,
    Canvas,
    Tui,
    Both,
}

/// Why a command was refused.
#[derive(Debug, Clone, PartialEq, Eq)]
pub enum CliError {
    /// The project name is empty, `..`, or holds a path separator.
    InvalidName(String),
    /// More than one of `--desktop`, `--web`, `--tui`, `--desktop-webview`.
    ConflictingDevFlags,
    /// None of `--desktop`, `--web`, `--tui`, `--desktop-webview`.
    NoDevTarget,
    /// A build target alias that names no target.
    UnknownTarget(String),
}

/// The label printed after scaffolding.
pub open spec fn target_label_of(t: InitTarget) -> Seq<char> {
    match t {
        InitTarget::Dom => "dom"@,
        InitTarget::Canvas => "canvas"@,
        InitTarget::Tui => "tui"@,
        InitTarget::Both => "canvas + dom"@,
    }
}

/// The label printed after scaffolding a target.
pub fn target_label(target: InitTarget) -> (r: &'static str)
    ensures
        r@ == target_label_of(target),
{
    match target {
        InitTarget::Dom => "dom",
        InitTarget::Canvas => "canvas",
        InitTarget::Tui => "tui",
        InitTarget::Both => "canvas + dom",
    }
}

/// A project name is a plain directory name: not empty, not `..`, and with
/// no `/` or `\` in it.
pub open spec fn valid_project_name(name: Seq<char>) -> bool {
    &&& name.len() > 0
    &&& !name.contains('/')
    &&& !name.contains('\\')
    &&& name != ".."@
}

fn has_separator(name: &str) -> (r: bool)
    ensures
        r == (name@.contains('/') || name@.contains('\\')),
{
    for c in it: name.chars()
        invariant
            it.seq() == name@,
            forall|j: int| 0 <= j < it.index() ==> name@[j] != '/' && name@[j] != '\\',
    {
        if c == '/' || c == '\\' {
            assert(name@[it.index() as int] == c);
            return true;
        }
    }
    false
}

/// Checks a project name before anything touches the disk.
pub fn validate_project_name(name: &str) -> (r: Result<(), CliError>)
    ensures
        r is Ok <==> valid_project_name(name@),
        r matches Err(e) ==> e matches CliError::InvalidName(n) && n@ == name@,
{
    let dots = String::from_str("..");
    let owned = String::from_str(name);
    if name.unicode_len() == 0 || has_separator(name) || owned == dots {
        return Err(CliError::InvalidName(owned));
    }
    Ok(())
}

/// What `dev` runs.
#[derive(Debug, Clone, Copy, PartialEq, Eq, Structural)]
pub enum DevPlan {
    /// `cargo run` once, with no reloading.
    DesktopOnce,
    /// `cargo run`, restarted whenever a source file changes.
    DesktopWatch,
    /// `trunk serve`.
    Web,
    /// `cargo run` of the terminal app.
    Tui,
    /// `trunk build` of the hosted `ui/` app (when present), then `cargo run`.
    DesktopWebview,
}

/// How many of the four mode flags are set.
pub open spec fn flag_count(desktop: bool, web: bool, tui: bool, desktop_webview: bool) -> nat {
    (if desktop { 1nat } else { 0nat }) + (if web { 1nat } else { 0nat }) + (if tui {
        1nat
    } else {
        0nat
    }) + (if desktop_webview { 1nat } else { 0nat })
}

/// The dev mode the flags select: exactly one mode flag must be set.
pub open spec fn dev_plan_of(
    desktop: bool,
    web: bool,
    tui: bool,
    desktop_webview: bool,
    no_reload: bool,
) -> Result<DevPlan, CliError> {
    let n = flag_count(desktop, web, tui, desktop_webview);
    if n > 1 {
        Err(CliError::ConflictingDevFlags)
    } else if n == 0 {
        Err(CliError::NoDevTarget)
    } else if desktop {
        Ok(if no_reload { DevPlan::DesktopOnce } else { DevPlan::DesktopWatch })
    } else if web {
        Ok(DevPlan::Web)
    } else if tui {
        Ok(DevPlan::Tui)
    } else {
        Ok(DevPlan::DesktopWebview)
    }
}

/// Chooses what `dev` runs from its flags.
pub fn dev(desktop: bool, web: bool, tui: bool, desktop_webview: bool, no_reload: bool) -> (r:
    Result<DevPlan, CliError>)
    ensures
        r == dev_plan_of(desktop, web, tui, desktop_webview, no_reload),
{
    match (desktop, web, tui, desktop_webview) {
        (true, true, _, _) | (true, _, true, _) | (_, true, true, _) | (_, _, true, true) | (
            true,
            _,
            _,
            true,
        ) | (_, true, _, true) => Err(CliError::ConflictingDevFlags),
        (true, false, false, false) => {
            if no_reload {
                Ok(DevPlan::DesktopOnce)
            } else {
                Ok(DevPlan::DesktopWatch)
            }
        },
        (false, true, false, false) => Ok(DevPlan::Web),
        (false, false, true, false) => Ok(DevPlan::Tui),
        (false, false, false, true) => Ok(DevPlan::DesktopWebview),
        (false, false, false, false) => Err(CliError::NoDevTarget),
    }
}

/// One build action: a program run with arguments in the project.
#[derive(Debug, Clone, PartialEq, Eq)]
pub struct BuildStep {
    pub program: &'static str,
    pub args: Vec<&'static str>,
    /// Only run when an `index.html` (a trunk app) exists.
    pub needs_trunk_index: bool,
    /// Build the nested `ui/` trunk app first (webview host).
    pub builds_ui: bool,
    /// Report the largest release binary size afterwards.
    pub report_size: bool,
}

/// A build step as plain values.
pub struct StepView {
    pub program: Seq<char>,
    pub args: Seq<Seq<char>>,
    pub needs_trunk_index: bool,
    pub builds_ui: bool,
    pub report_size: bool,
}

/// The plain values of a build step.
pub open spec fn step_view(s: BuildStep) -> StepView {
    StepView {
        program: s.program@,
        args: s.args@.map_values(|a: &'static str| a@),
        needs_trunk_index: s.needs_trunk_index,
        builds_ui: s.builds_ui,
        report_size: s.report_size,
    }
}

/// `program build --release` with the given flags.
pub open spec fn release_step(program: Seq<char>, needs_trunk_index: bool, builds_ui: bool, report_size: bool) -> StepView {
    StepView {
        program,
        args: seq!["build"@, "--release"@],
        needs_trunk_index,
        builds_ui,
        report_size,
    }
}

/// The build steps a single target alias stands for, or `None` for an
/// unknown alias.
pub open spec fn build_steps_of(target: Seq<char>) -> Option<Seq<StepView>> {
    if target == "canvas"@ || target == "desktop"@ {
        Some(seq![release_step("cargo"@, false, false, true)])
    } else if target == "tui"@ || target == "terminal"@ {
        Some(seq![release_step("cargo"@, false, false, false)])
    } else if target == "dom"@ || target == "wasm"@ {
        Some(seq![release_step("trunk"@, true, false, false)])
    } else if target == "webview"@ {
        Some(seq![release_step("cargo"@, false, true, true)])
    } else {
        None
    }
}

fn release(program: &'static str, needs_trunk_index: bool, builds_ui: bool, report_size: bool) -> (r: Vec<BuildStep>)
    ensures
        r@.len() == 1,
        step_view(r@[0]) == release_step(program@, needs_trunk_index, builds_ui, report_size),
{
    let mut args: Vec<&'static str> = Vec::new();
    args.push("build");
    args.push("--release");
    let step = BuildStep { program, args, needs_trunk_index, builds_ui, report_size };
    assert(step_view(step).args =~= seq!["build"@, "--release"@]);
    let mut v: Vec<BuildStep> = Vec::new();
    v.push(step);
    v
}

/// Maps a single target alias to its build steps. Library targets (`html`,
/// `ssr`, `ai-schema`) and the `all` aggregate are handled by
/// [`build_plan`].
pub fn resolve_build_steps(target: &str) -> (r: Result<Vec<BuildStep>, CliError>)
    ensures
        match build_steps_of(target@) {
            Some(steps) => r matches Ok(v) && v@.map_values(|s: BuildStep| step_view(s)) == steps,
            None => r matches Err(e) && e matches CliError::UnknownTarget(t) && t@ == target@,
        },
{
    let v = if str_eq(target, "canvas") || str_eq(target, "desktop") {
        release("cargo", false, false, true)
    } else if str_eq(target, "tui") || str_eq(target, "terminal") {
        release("cargo", false, false, false)
    } else if str_eq(target, "dom") || str_eq(target, "wasm") {
        release("trunk", true, false, false)
    } else if str_eq(target, "webview") {
        release("cargo", false, true, true)
    } else {
        return Err(CliError::UnknownTarget(String::from_str(target)));
    };
    assert(v@.map_values(|s: BuildStep| step_view(s)) =~= build_steps_of(target@).unwrap());
    Ok(v)
}

/// What `build` does for a target.
#[derive(Debug, Clone, PartialEq, Eq)]
pub enum BuildPlan {
    /// A library target with no artifact of its own: print the note.
    Note(&'static str),
    /// The native build, then the web build when an `index.html` exists.
    All,
    /// Run these steps.
    Steps(Vec<BuildStep>),
}

/// The note printed for the `html`/`ssr` targets.
pub open spec fn html_note() -> Seq<char> {
    "`tpt-appfront-html`/`tpt-appfront-server` are libraries embedded in your own server binary — build your project's server crate directly, e.g. `cargo build --release -p <your-server-crate>`."@
}

/// The note printed for the `ai-schema` target.
pub open spec fn ai_schema_note() -> Seq<char> {
    "`ai-schema` has no standalone build artifact — it's served at runtime via tpt-appfront-server, or embedded via `tpt_appfront_ai_schema::both(&ui)`."@
}

/// Chooses what `build` does: notes for the library targets, the `all`
/// aggregate (also when no target is given), or the steps of one target.
pub fn build_plan(target: Option<&str>) -> (r: Result<BuildPlan, CliError>)
    ensures
        match target {
            None => r == Ok::<BuildPlan, CliError>(BuildPlan::All),
            Some(t) => if t@ == "html"@ || t@ == "ssr"@ {
                r matches Ok(BuildPlan::Note(n)) && n@ == html_note()
            } else if t@ == "ai-schema"@ {
                r matches Ok(BuildPlan::Note(n)) && n@ == ai_schema_note()
            } else if t@ == "all"@ {
                r == Ok::<BuildPlan, CliError>(BuildPlan::All)
            } else {
                match build_steps_of(t@) {
                    Some(steps) => r matches Ok(BuildPlan::Steps(v)) && v@.map_values(
                        |s: BuildStep| step_view(s),
                    ) == steps,
                    None => r matches Err(e) && e matches CliError::UnknownTarget(u) && u@ == t@,
                }
            },
        },
{
    match target {
        None => Ok(BuildPlan::All),
        Some(t) => {
            if str_eq(t, "html") || str_eq(t, "ssr") {
                Ok(BuildPlan::Note("`tpt-appfront-html`/`tpt-appfront-server` are libraries embedded in your own server binary — build your project's server crate directly, e.g. `cargo build --release -p <your-server-crate>`."))
            } else if str_eq(t, "ai-schema") {
                Ok(BuildPlan::Note("`ai-schema` has no standalone build artifact — it's served at runtime via tpt-appfront-server, or embedded via `tpt_appfront_ai_schema::both(&ui)`."))
            } else if str_eq(t, "all") {
                Ok(BuildPlan::All)
            } else {
                match resolve_build_steps(t) {
                    Ok(v) => Ok(BuildPlan::Steps(v)),
                    Err(e) => Err(e),
                }
            }
        },
    }
}

/// The TOML dependency spec for a framework crate: a `path` dependency
/// inside the framework's own checkout, a version requirement otherwise.
pub open spec fn dep_ref_of(in_checkout: bool, path: Seq<char>, version: Seq<char>) -> Seq<char> {
    if in_checkout {
        "{ path = \""@ + path + "\" }"@
    } else {
        "\""@ + version + "\""@
    }
}

/// Returns a ready-to-emit TOML dependency spec: `{ path = "<path>" }` when
/// running inside the framework checkout, `"<version>"` otherwise.
pub fn dep_ref(in_checkout: bool, path: &str, version: &str) -> (r: String)
    ensures
        r@ == dep_ref_of(in_checkout, path@, version@),
{
    if in_checkout {
        let mut s = String::from_str("{ path = \"");
        push_str(&mut s, path);
        push_str(&mut s, "\" }");
        s
    } else {
        let mut s = String::from_str("\"");
        push_str(&mut s, version);
        push_str(&mut s, "\"");
        s
    }
}

/// `s` with every `\` turned into `/`.
pub open spec fn forward_slashes_of(s: Seq<char>) -> Seq<char>
    decreases s.len(),
{
    if s.len() == 0 {
        Seq::empty()
    } else {
        forward_slashes_of(s.drop_last()).push(if s.last() == '\\' { '/' } else { s.last() })
    }
}

/// Turns Windows path separators into forward slashes, so a path can be
/// written into a manifest on every platform.
pub fn forward_slashes(s: &str) -> (r: String)
    ensures
        r@ == forward_slashes_of(s@),
{
    let mut out = String::new();
    for c in it: s.chars()
        invariant
            it.seq() == s@,
            out@ == forward_slashes_of(s@.take(it.index() as int)),
    {
        let ghost i = it.index() as int;
        assert(s@.take(i + 1).drop_last() =~= s@.take(i));
        if c == '\\' {
            push_char(&mut out, '/');
        } else {
            push_char(&mut out, c);
        }
    }
    assert(s@.take(s@.len() as int) =~= s@);
    out
}

/// The message a refusal is reported with.
pub open spec fn error_message(e: CliError) -> Seq<char> {
    match e {
        CliError::InvalidName(n) => "invalid project name `"@ + n@
            + "`: must be a plain directory name, not a path"@,
        CliError::ConflictingDevFlags => "pass only one of --desktop, --web, --tui, or --desktop-webview"@,
        CliError::NoDevTarget => "specify --desktop (native window), --web (browser dev server), --tui (terminal), or --desktop-webview"@,
        CliError::UnknownTarget(t) => "unknown target `"@ + t@ + "`; use: dom, canvas, webview, or all"@,
    }
}

impl CliError {
    /// The message this refusal is reported with.
    pub fn message(&self) -> (r: String)
        ensures
            r@ == error_message(*self),
    {
        match self {
            CliError::InvalidName(n) => {
                let mut s = String::from_str("invalid project name `");
                push_str(&mut s, n.as_str());
                push_str(&mut s, "`: must be a plain directory name, not a path");
                s
            },
            CliError::ConflictingDevFlags => String::from_str(
                "pass only one of --desktop, --web, --tui, or --desktop-webview",
            ),
            CliError::NoDevTarget => String::from_str(
                "specify --desktop (native window), --web (browser dev server), --tui (terminal), or --desktop-webview",
            ),
            CliError::UnknownTarget(t) => {
                let mut s = String::from_str("unknown target `");
                push_str(&mut s, t.as_str());
                push_str(&mut s, "`; use: dom, canvas, webview, or all");
                s
            },
        }
    }
}

/// Where `init` points a scaffolded project's framework dependencies.
pub struct DepPaths {
    pub core: String,
    pub canvas: String,
    pub dom: String,
    pub tui: String,
}

/// The title a scaffolded app shows.
pub open spec fn app_title_of(name: Seq<char>) -> Seq<char> {
    name + " — TPT AppFront"@
}

/// The files of a scaffolded canvas crate under `dir`.
pub open spec fn canvas_files(dir: Seq<char>, pkg: Seq<char>, title: Seq<char>, deps: DepPaths) -> Seq<(Seq<char>, Seq<char>)> {
    seq![
        (dir + "Cargo.toml"@, canvas_cargo_toml_text(pkg, deps.core@, deps.canvas@)),
        (dir + "src/main.rs"@, canvas_main_rs_text(title)),
    ]
}

/// The files of a scaffolded DOM crate under `dir`.
pub open spec fn dom_files(dir: Seq<char>, pkg: Seq<char>, title: Seq<char>, deps: DepPaths) -> Seq<(Seq<char>, Seq<char>)> {
    seq![
        (dir + "Cargo.toml"@, dom_cargo_toml_text(pkg, deps.core@, deps.dom@)),
        (dir + "src/lib.rs"@, dom_lib_rs_text(title)),
        (dir + "index.html"@, index_html_text(title)),
    ]
}

/// The files `init` writes for a project `name`, as paths relative to the
/// project directory (with `/` between components) and contents, in the
/// order they are written: the backend crate(s), then `.gitignore` and
/// `README.md`.
pub open spec fn scaffold_of(name: Seq<char>, target: InitTarget, deps: DepPaths) -> Seq<(Seq<char>, Seq<char>)> {
    let title = app_title_of(name);
    let crates = match target {
        InitTarget::Canvas => canvas_files(Seq::empty(), name, title, deps),
        InitTarget::Dom => dom_files(Seq::empty(), name, title, deps),
        InitTarget::Tui => seq![
            ("Cargo.toml"@, tui_cargo_toml_text(name, deps.core@, deps.tui@)),
            ("src/main.rs"@, tui_main_rs_text(title)),
        ],
        InitTarget::Both => canvas_files("canvas/"@, name + "-canvas"@, title, deps) + dom_files(
            "dom/"@,
            name + "-dom"@,
            title,
            deps,
        ),
    };
    crates + seq![
        (".gitignore"@, "/target\n/dist\nCargo.lock\n"@),
        ("README.md"@, readme_text(name, target == InitTarget::Both)),
    ]
}

/// The characters of each path and content.
pub open spec fn files_view(v: Seq<(String, String)>) -> Seq<(Seq<char>, Seq<char>)> {
    v.map_values(|f: (String, String)| (f.0@, f.1@))
}

fn joined(a: &str, b: &str) -> (r: String)
    ensures
        r@ == a@ + b@,
{
    let mut s = String::from_str(a);
    push_str(&mut s, b);
    s
}

fn push_file(files: &mut Vec<(String, String)>, dir: &str, path: &str, content: String)
    ensures
        files_view(final(files)@) == files_view(old(files)@).push((dir@ + path@, content@)),
{
    let p = joined(dir, path);
    files.push((p, content));
    assert(files_view(files@) =~= files_view(old(files)@).push((dir@ + path@, content@)));
}

/// The files `init` writes for a new project `name` with the given backend
/// target, as relative paths and contents, in writing order.
pub fn scaffold_files(name: &str, target: InitTarget, deps: &DepPaths) -> (r: Vec<(String, String)>)
    ensures
        files_view(r@) == scaffold_of(name@, target, *deps),
{
    let title = joined(name, " — TPT AppFront");
    let t = title.as_str();
    let mut files: Vec<(String, String)> = Vec::new();
    match target {
        InitTarget::Canvas => {
            push_file(&mut files, "", "Cargo.toml", canvas_cargo_toml(name, deps.core.as_str(), deps.canvas.as_str()));
            push_file(&mut files, "", "src/main.rs", canvas_main_rs(t));
        },
        InitTarget::Dom => {
            push_file(&mut files, "", "Cargo.toml", dom_cargo_toml(name, deps.core.as_str(), deps.dom.as_str()));
            push_file(&mut files, "", "src/lib.rs", dom_lib_rs(t));
            push_file(&mut files, "", "index.html", index_html(t));
        },
        InitTarget::Tui => {
            push_file(&mut files, "", "Cargo.toml", tui_cargo_toml(name, deps.core.as_str(), deps.tui.as_str()));
            push_file(&mut files, "", "src/main.rs", tui_main_rs(t));
        },
        InitTarget::Both => {
            let canvas_pkg = joined(name, "-canvas");
            let dom_pkg = joined(name, "-dom");
            push_file(
                &mut files,
                "canvas/",
                "Cargo.toml",
                canvas_cargo_toml(canvas_pkg.as_str(), deps.core.as_str(), deps.canvas.as_str()),
            );
            push_file(&mut files, "canvas/", "src/main.rs", canvas_main_rs(t));
            push_file(
                &mut files,
                "dom/",
                "Cargo.toml",
                dom_cargo_toml(dom_pkg.as_str(), deps.core.as_str(), deps.dom.as_str()),
            );
            push_file(&mut files, "dom/", "src/lib.rs", dom_lib_rs(t));
            push_file(&mut files, "dom/", "index.html", index_html(t));
        },
    }
    push_file(&mut files, "", ".gitignore", String::from_str(gitignore()));
    let both = match target {
        InitTarget::Both => true,
        _ => false,
    };
    push_file(&mut files, "", "README.md", readme(name, both));
    proof {
        reveal_strlit("");
        reveal_strlit("Cargo.toml");
        reveal_strlit("src/main.rs");
        reveal_strlit("src/lib.rs");
        reveal_strlit("index.html");
        reveal_strlit("canvas/");
        reveal_strlit("dom/");
        reveal_strlit(".gitignore");
        reveal_strlit("README.md");
        assert(files_view(files@) =~= scaffold_of(name@, target, *deps));
    }
    files
}

} // verus!
