//! Starter presets for `init --preset <name>`: each scaffolds a runnable
//! web app with a real UI shape to start from instead of the bare counter.

use vstd::prelude::*;

use crate::text::str_eq;

verus! {

/// A starter preset.
#[derive(Debug, Clone, Copy, PartialEq, Eq, Structural)]
pub enum Preset {
    /// A username/password sign-in screen with live signal-bound fields.
    Login,
    /// A nav sidebar and content area composing a CRUD list.
    Dashboard,
    /// A focused CRUD list with add/edit/delete state.
    CrudApp,
    /// A fuller landing: nav shell whose content switches per route.
    SaasStarter,
}

/// The `--preset` token of a preset.
pub open spec fn preset_name(p: Preset) -> Seq<char> {
    match p {
        Preset::Login => "login"@,
        Preset::Dashboard => "dashboard"@,
        Preset::CrudApp => "crud-app"@,
        Preset::SaasStarter => "saas-starter"@,
    }
}

/// The one-line description of a preset.
pub open spec fn preset_description(p: Preset) -> Seq<char> {
    match p {
        Preset::Login => "Sign-in form with live, Signal-bound username/password fields"@,
        Preset::Dashboard => "Sidebar nav shell composing a CRUD settings list"@,
        Preset::CrudApp => "Standalone CRUD list with add/edit/delete state"@,
        Preset::SaasStarter => "Full app shell with per-route content switching"@,
    }
}

/// The preset a token names: each preset's own name, plus the aliases
/// `crud` and `saas`.
pub open spec fn parse_preset(s: Seq<char>) -> Option<Preset> {
    if s == "login"@ {
        Some(Preset::Login)
    } else if s == "dashboard"@ {
        Some(Preset::Dashboard)
    } else if s == "crud-app"@ || s == "crud"@ {
        Some(Preset::CrudApp)
    } else if s == "saas-starter"@ || s == "saas"@ {
        Some(Preset::SaasStarter)
    } else {
        None
    }
}

impl Preset {
    /// The `init --preset` token for this preset.
    pub fn name(&self) -> (r: &'static str)
        ensures
            r@ == preset_name(*self),
    {
        match self {
            Preset::Login => "login",
            Preset::Dashboard => "dashboard",
            Preset::CrudApp => "crud-app",
            Preset::SaasStarter => "saas-starter",
        }
    }

    /// One-line description shown by `init --list-presets`.
    pub fn description(&self) -> (r: &'static str)
        ensures
            r@ == preset_description(*self),
    {
        match self {
            Preset::Login => "Sign-in form with live, Signal-bound username/password fields",
            Preset::Dashboard => "Sidebar nav shell composing a CRUD settings list",
            Preset::CrudApp => "Standalone CRUD list with add/edit/delete state",
            Preset::SaasStarter => "Full app shell with per-route content switching",
        }
    }

    /// Parses an `init --preset` token, or `None` if it isn't a known
    /// preset.
    pub fn from_str(s: &str) -> (r: Option<Preset>)
        ensures
            r == parse_preset(s@),
    {
        if str_eq(s, "login") {
            Some(Preset::Login)
        } else if str_eq(s, "dashboard") {
            Some(Preset::Dashboard)
        } else if str_eq(s, "crud-app") || str_eq(s, "crud") {
            Some(Preset::CrudApp)
        } else if str_eq(s, "saas-starter") || str_eq(s, "saas") {
            Some(Preset::SaasStarter)
        } else {
            None
        }
    }
}

/// Every preset, in order.
pub open spec fn all_presets() -> Seq<Preset> {
    seq![Preset::Login, Preset::Dashboard, Preset::CrudApp, Preset::SaasStarter]
}

/// `(preset, description)` pairs for `init --list-presets`, one per preset.
pub fn list_presets() -> (r: Vec<(Preset, &'static str)>)
    ensures
        r@.len() == all_presets().len(),
        forall|i: int|
            0 <= i < r@.len() ==> (#[trigger] r@[i]).0 == all_presets()[i] && r@[i].1@
                == preset_description(all_presets()[i]),
{
    let mut v: Vec<(Preset, &'static str)> = Vec::new();
    v.push((Preset::Login, Preset::Login.description()));
    v.push((Preset::Dashboard, Preset::Dashboard.description()));
    v.push((Preset::CrudApp, Preset::CrudApp.description()));
    v.push((Preset::SaasStarter, Preset::SaasStarter.description()));
    v
}

/// Every preset is parsed back from its own name.
pub proof fn lemma_name_round_trips(p: Preset)
    ensures
        parse_preset(preset_name(p)) == Some(p),
{
    reveal_strlit("login");
    reveal_strlit("dashboard");
    reveal_strlit("crud-app");
    reveal_strlit("crud");
    reveal_strlit("saas-starter");
    reveal_strlit("saas");
    assert("login"@.len() == 5);
    assert("dashboard"@.len() == 9);
    assert("crud-app"@.len() == 8);
    assert("crud"@.len() == 4);
    assert("saas-starter"@.len() == 12);
    assert("saas"@.len() == 4);
}

/// The empty token names no preset.
pub proof fn lemma_empty_is_no_preset()
    ensures
        parse_preset(Seq::empty()) is None,
{
    reveal_strlit("login");
    reveal_strlit("dashboard");
    reveal_strlit("crud-app");
    reveal_strlit("crud");
    reveal_strlit("saas-starter");
    reveal_strlit("saas");
    assert("login"@.len() == 5);
    assert("dashboard"@.len() == 9);
    assert("crud-app"@.len() == 8);
    assert("crud"@.len() == 4);
    assert("saas-starter"@.len() == 12);
    assert("saas"@.len() == 4);
}

} // verus!
