//! The decisions of the `appfront` command-line tool, the smaller of the
//! two tools: canvas and DOM backends only, one dev flag each, and builds
//! that run `cargo` or `trunk` directly.

use vstd::prelude::*;

use crate::cli::{scaffold_of, DepPaths};
use crate::text::{push_str, str_eq};

verus! {

broadcast use vstd::string::group_string_axioms;

/// Which backend(s) `appfront init` scaffolds.
#[derive(Debug, Clone, Copy, PartialEq, Eq, Structural)]
pub enum InitTarget {
    Dom,
    Canvas,
    Both,
}

/// The label printed after scaffolding a target.
pub open spec fn target_label_of(t: InitTarget) -> Seq<char> {
    match t {
        InitTarget::Dom => "dom"@,
        InitTarget::Canvas => "canvas"@,
        InitTarget::Both => "canvas + dom"@,
    }
}

/// The label printed after scaffolding a target.
pub fn target_label(target: InitTarget) -> (r: &'static str)
    ensures
        r@ == target_label_of(target),
{
    match target {
        InitTarget::Dom => "dom",
        InitTarget::Canvas => "canvas",
        InitTarget::Both => "canvas + dom",
    }
}

/// The same target, as the larger tool names it.
pub open spec fn wider(t: InitTarget) -> crate::cli::InitTarget {
    match t {
        InitTarget::Dom => crate::cli::InitTarget::Dom,
        InitTarget::Canvas => crate::cli::InitTarget::Canvas,
        InitTarget::Both => crate::cli::InitTarget::Both,
    }
}

/// The files `appfront init` writes for a new project `name`, as relative
/// paths and contents, in writing order (the same files the larger tool
/// writes for the same target).
pub fn scaffold_files(name: &str, target: InitTarget, deps: &DepPaths) -> (r: Vec<(String, String)>)
    ensures
        crate::cli::files_view(r@) == scaffold_of(name@, wider(target), *deps),
{
    let t = match target {
        InitTarget::Dom => crate::cli::InitTarget::Dom,
        InitTarget::Canvas => crate::cli::InitTarget::Canvas,
        InitTarget::Both => crate::cli::InitTarget::Both,
    };
    crate::cli::scaffold_files(name, t, deps)
}

/// Why a command was refused.
#[derive(Debug, Clone, PartialEq, Eq)]
pub enum CliError {
    /// Both `--desktop` and `--web`.
    ConflictingDevFlags,
    /// Neither `--desktop` nor `--web`.
    NoDevTarget,
    /// A build target alias that names no target.
    UnknownTarget(String),
}

/// What `appfront dev` runs.
#[derive(Debug, Clone, Copy, PartialEq, Eq, Structural)]
pub enum DevPlan {
    /// `cargo run`.
    Desktop,
    /// `trunk serve`.
    Web,
}

/// Chooses the dev mode: exactly one of `--desktop` and `--web`.
pub fn dev(desktop: bool, web: bool) -> (r: Result<DevPlan, CliError>)
    ensures
        r == (if desktop && web {
            Err(CliError::ConflictingDevFlags)
        } else if desktop {
            Ok(DevPlan::Desktop)
        } else if web {
            Ok(DevPlan::Web)
        } else {
            Err(CliError::NoDevTarget)
        }),
{
    if desktop && web {
        Err(CliError::ConflictingDevFlags)
    } else if desktop {
        Ok(DevPlan::Desktop)
    } else if web {
        Ok(DevPlan::Web)
    } else {
        Err(CliError::NoDevTarget)
    }
}

/// What `appfront build` does for a target.
#[derive(Debug, Clone, PartialEq, Eq)]
pub enum BuildPlan {
    /// A library target with no artifact of its own: print the note.
    Note(&'static str),
    /// `trunk build --release`.
    Web,
    /// `cargo build --release`.
    Native,
    /// The native build, then the web build when an `index.html` exists.
    All,
}

/// The note printed for the `html`/`ssr` targets.
pub open spec fn html_note() -> Seq<char> {
    "`appfront-html`/`appfront-server` are libraries embedded in your own server binary — build your project's server crate directly, e.g. `cargo build --release -p <your-server-crate>`."@
}

/// The note printed for the `ai-schema` target.
pub open spec fn ai_schema_note() -> Seq<char> {
    "`ai-schema` has no standalone build artifact — it's served at runtime via appfront-server, or embedded via `appfront_ai_schema::both(&ui)`."@
}

/// Chooses what `appfront build` does; no target means `all`.
pub fn build_plan(target: Option<&str>) -> (r: Result<BuildPlan, CliError>)
    ensures
        match target {
            None => r == Ok::<BuildPlan, CliError>(BuildPlan::All),
            Some(t) => if t@ == "dom"@ || t@ == "wasm"@ {
                r == Ok::<BuildPlan, CliError>(BuildPlan::Web)
            } else if t@ == "canvas"@ || t@ == "desktop"@ {
                r == Ok::<BuildPlan, CliError>(BuildPlan::Native)
            } else if t@ == "html"@ || t@ == "ssr"@ {
                r matches Ok(BuildPlan::Note(n)) && n@ == html_note()
            } else if t@ == "ai-schema"@ {
                r matches Ok(BuildPlan::Note(n)) && n@ == ai_schema_note()
            } else if t@ == "all"@ {
                r == Ok::<BuildPlan, CliError>(BuildPlan::All)
            } else {
                r matches Err(e) && e matches CliError::UnknownTarget(u) && u@ == t@
            },
        },
{
    match target {
        None => Ok(BuildPlan::All),
        Some(t) => {
            if str_eq(t, "dom") || str_eq(t, "wasm") {
                Ok(BuildPlan::Web)
            } else if str_eq(t, "canvas") || str_eq(t, "desktop") {
                Ok(BuildPlan::Native)
            } else if str_eq(t, "html") || str_eq(t, "ssr") {
                Ok(BuildPlan::Note("`appfront-html`/`appfront-server` are libraries embedded in your own server binary — build your project's server crate directly, e.g. `cargo build --release -p <your-server-crate>`."))
            } else if str_eq(t, "ai-schema") {
                Ok(BuildPlan::Note("`ai-schema` has no standalone build artifact — it's served at runtime via appfront-server, or embedded via `appfront_ai_schema::both(&ui)`."))
            } else if str_eq(t, "all") {
                Ok(BuildPlan::All)
            } else {
                Err(CliError::UnknownTarget(String::from_str(t)))
            }
        },
    }
}

/// The message a refusal is reported with.
pub open spec fn error_message(e: CliError) -> Seq<char> {
    match e {
        CliError::ConflictingDevFlags => "pass only one of --desktop or --web"@,
        CliError::NoDevTarget => "specify --desktop (native window) or --web (browser dev server)"@,
        CliError::UnknownTarget(t) => "unknown target `"@ + t@ + "`; use: dom, canvas, html, ai-schema, or all"@,
    }
}

impl CliError {
    /// The message this refusal is reported with.
    pub fn message(&self) -> (r: String)
        ensures
            r@ == error_message(*self),
    {
        match self {
            CliError::ConflictingDevFlags => String::from_str("pass only one of --desktop or --web"),
            CliError::NoDevTarget => String::from_str(
                "specify --desktop (native window) or --web (browser dev server)",
            ),
            CliError::UnknownTarget(t) => {
                let mut s = String::from_str("unknown target `");
                push_str(&mut s, t.as_str());
                push_str(&mut s, "`; use: dom, canvas, html, ai-schema, or all");
                s
            },
        }
    }
}

} // verus!
