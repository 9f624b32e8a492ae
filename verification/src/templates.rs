//! String templates used by `appfront init` to scaffold a new project.
//! Path dependencies point at the checkout that built the command-line
//! tool, so the generated project builds with zero manual edits.

use vstd::prelude::*;

use crate::text::push_str;

verus! {

/// The text that [`canvas_cargo_toml`] produces.
pub open spec fn canvas_cargo_toml_text(pkg_name: Seq<char>, core_path: Seq<char>, canvas_path: Seq<char>) -> Seq<char> {
    "[package]
name = \""@
        + pkg_name
        + "\"
version = \"0.1.0\"
edition = \"2021\"
publish = false

[dependencies]
appfront-core = { path = \""@
        + core_path
        + "\" }
appfront-canvas = { path = \""@
        + canvas_path
        + "\" }
"@
}

/// The `Cargo.toml` of a scaffolded canvas (native window) crate.
pub fn canvas_cargo_toml(pkg_name: &str, core_path: &str, canvas_path: &str) -> (r: String)
    ensures
        r@ == canvas_cargo_toml_text(pkg_name@, core_path@, canvas_path@),
{
    let mut s = String::from_str("[package]
name = \"");
    push_str(&mut s, pkg_name);
    push_str(&mut s, "\"
version = \"0.1.0\"
edition = \"2021\"
publish = false

[dependencies]
appfront-core = { path = \"");
    push_str(&mut s, core_path);
    push_str(&mut s, "\" }
appfront-canvas = { path = \"");
    push_str(&mut s, canvas_path);
    push_str(&mut s, "\" }
");
    s
}

/// The text that [`canvas_main_rs`] produces.
pub open spec fn canvas_main_rs_text(app_title: Seq<char>) -> Seq<char> {
    "use appfront_core::{Signal, UITree};

#[derive(Debug, Clone)]
enum Msg {
    Increment,
}

fn main() -> Result<(), Box<dyn std::error::Error>> {
    let count = Signal::new(0i32);

    let count_for_ui = count.clone();
    let build_ui = move || -> UITree<Msg> {
        UITree::container(|c| {
            c.heading(1, \""@
        + app_title
        + "\");
            c.text(format!(\"Count: {}\", count_for_ui.get()));
            c.button(\"+1\").on_click(Msg::Increment);
        })
    };

    let dispatch = move |msg: Msg| match msg {
        Msg::Increment => count.set(count.get() + 1),
    };

    appfront_canvas::run_native(\""@
        + app_title
        + "\", build_ui, dispatch)?;
    Ok(())
}
"@
}

/// The `src/main.rs` of a scaffolded canvas crate: a counter app.
pub fn canvas_main_rs(app_title: &str) -> (r: String)
    ensures
        r@ == canvas_main_rs_text(app_title@),
{
    let mut s = String::from_str("use appfront_core::{Signal, UITree};

#[derive(Debug, Clone)]
enum Msg {
    Increment,
}

fn main() -> Result<(), Box<dyn std::error::Error>> {
    let count = Signal::new(0i32);

    let count_for_ui = count.clone();
    let build_ui = move || -> UITree<Msg> {
        UITree::container(|c| {
            c.heading(1, \"");
    push_str(&mut s, app_title);
    push_str(&mut s, "\");
            c.text(format!(\"Count: {}\", count_for_ui.get()));
            c.button(\"+1\").on_click(Msg::Increment);
        })
    };

    let dispatch = move |msg: Msg| match msg {
        Msg::Increment => count.set(count.get() + 1),
    };

    appfront_canvas::run_native(\"");
    push_str(&mut s, app_title);
    push_str(&mut s, "\", build_ui, dispatch)?;
    Ok(())
}
");
    s
}

/// The text that [`dom_cargo_toml`] produces.
pub open spec fn dom_cargo_toml_text(pkg_name: Seq<char>, core_path: Seq<char>, dom_path: Seq<char>) -> Seq<char> {
    "[package]
name = \""@
        + pkg_name
        + "\"
version = \"0.1.0\"
edition = \"2021\"
publish = false

[lib]
crate-type = [\"cdylib\", \"rlib\"]

[dependencies]
appfront-core = { path = \""@
        + core_path
        + "\" }
appfront-dom = { path = \""@
        + dom_path
        + "\" }
wasm-bindgen = \"0.2\"
web-sys = { version = \"0.3\", features = [\"Document\", \"Window\", \"Element\"] }
console_error_panic_hook = \"0.1\"

[profile.release]
opt-level = \"z\"
lto = true
codegen-units = 1
panic = \"abort\"
strip = true
"@
}

/// The `Cargo.toml` of a scaffolded DOM (browser) crate.
pub fn dom_cargo_toml(pkg_name: &str, core_path: &str, dom_path: &str) -> (r: String)
    ensures
        r@ == dom_cargo_toml_text(pkg_name@, core_path@, dom_path@),
{
    let mut s = String::from_str("[package]
name = \"");
    push_str(&mut s, pkg_name);
    push_str(&mut s, "\"
version = \"0.1.0\"
edition = \"2021\"
publish = false

[lib]
crate-type = [\"cdylib\", \"rlib\"]

[dependencies]
appfront-core = { path = \"");
    push_str(&mut s, core_path);
    push_str(&mut s, "\" }
appfront-dom = { path = \"");
    push_str(&mut s, dom_path);
    push_str(&mut s, "\" }
wasm-bindgen = \"0.2\"
web-sys = { version = \"0.3\", features = [\"Document\", \"Window\", \"Element\"] }
console_error_panic_hook = \"0.1\"

[profile.release]
opt-level = \"z\"
lto = true
codegen-units = 1
panic = \"abort\"
strip = true
");
    s
}

/// The text that [`dom_lib_rs`] produces.
pub open spec fn dom_lib_rs_text(app_title: Seq<char>) -> Seq<char> {
    "use appfront_core::{create_effect, Signal, UITree};
use std::rc::Rc;
use wasm_bindgen::prelude::*;

#[derive(Debug, Clone)]
enum Msg {
    Increment,
}

#[wasm_bindgen(start)]
pub fn start() -> Result<(), JsValue> {
    console_error_panic_hook::set_once();

    let window = web_sys::window().expect(\"no window\");
    let document = window.document().expect(\"no document\");
    let body = document.body().expect(\"no body\");

    let container = document.create_element(\"div\")?;
    body.append_child(&container)?;

    let count = Signal::new(0i32);
    let display = Signal::new(format!(\"Count: {}\", count.get()));

    let count_for_effect = count.clone();
    let display_for_effect = display.clone();
    let handle = create_effect(move || {
        display_for_effect.set(format!(\"Count: {}\", count_for_effect.get()));
    });
    std::mem::forget(handle);

    let ui: UITree<Msg> = UITree::container(|c| {
        c.heading(1, \""@
        + app_title
        + "\");
        c.button(\"+1\").on_click(Msg::Increment);
    });

    let count_for_dispatch = count.clone();
    let dispatch: Rc<dyn Fn(Msg)> = Rc::new(move |msg| match msg {
        Msg::Increment => count_for_dispatch.set(count_for_dispatch.get() + 1),
    });

    appfront_dom::mount(&container, &ui, dispatch)?;

    let (text_node, text_handle) = appfront_dom::reactive_text(&document, display)?;
    container.append_child(&text_node)?;
    // Whole-process root mount: forgetting is an explicit choice here, not
    // reactive_text's default behavior.
    std::mem::forget(text_handle);

    Ok(())
}
"@
}

/// The `src/lib.rs` of a scaffolded DOM crate: a counter app.
pub fn dom_lib_rs(app_title: &str) -> (r: String)
    ensures
        r@ == dom_lib_rs_text(app_title@),
{
    let mut s = String::from_str("use appfront_core::{create_effect, Signal, UITree};
use std::rc::Rc;
use wasm_bindgen::prelude::*;

#[derive(Debug, Clone)]
enum Msg {
    Increment,
}

#[wasm_bindgen(start)]
pub fn start() -> Result<(), JsValue> {
    console_error_panic_hook::set_once();

    let window = web_sys::window().expect(\"no window\");
    let document = window.document().expect(\"no document\");
    let body = document.body().expect(\"no body\");

    let container = document.create_element(\"div\")?;
    body.append_child(&container)?;

    let count = Signal::new(0i32);
    let display = Signal::new(format!(\"Count: {}\", count.get()));

    let count_for_effect = count.clone();
    let display_for_effect = display.clone();
    let handle = create_effect(move || {
        display_for_effect.set(format!(\"Count: {}\", count_for_effect.get()));
    });
    std::mem::forget(handle);

    let ui: UITree<Msg> = UITree::container(|c| {
        c.heading(1, \"");
    push_str(&mut s, app_title);
    push_str(&mut s, "\");
        c.button(\"+1\").on_click(Msg::Increment);
    });

    let count_for_dispatch = count.clone();
    let dispatch: Rc<dyn Fn(Msg)> = Rc::new(move |msg| match msg {
        Msg::Increment => count_for_dispatch.set(count_for_dispatch.get() + 1),
    });

    appfront_dom::mount(&container, &ui, dispatch)?;

    let (text_node, text_handle) = appfront_dom::reactive_text(&document, display)?;
    container.append_child(&text_node)?;
    // Whole-process root mount: forgetting is an explicit choice here, not
    // reactive_text's default behavior.
    std::mem::forget(text_handle);

    Ok(())
}
");
    s
}

/// The text that [`index_html`] produces.
pub open spec fn index_html_text(app_title: Seq<char>) -> Seq<char> {
    "<!DOCTYPE html>
<html lang=\"en\">
  <head>
    <meta charset=\"utf-8\" />
    <title>"@
        + app_title
        + "</title>
    <!-- data-wasm-opt runs Binaryen wasm-opt (-Oz) on the built wasm during `trunk build --release` to trim payload size -->
    <link data-trunk rel=\"rust\" href=\"Cargo.toml\" data-wasm-opt=\"z\" />
  </head>
  <body></body>
</html>
"@
}

/// The `index.html` a scaffolded DOM crate is served from.
pub fn index_html(app_title: &str) -> (r: String)
    ensures
        r@ == index_html_text(app_title@),
{
    let mut s = String::from_str("<!DOCTYPE html>
<html lang=\"en\">
  <head>
    <meta charset=\"utf-8\" />
    <title>");
    push_str(&mut s, app_title);
    push_str(&mut s, "</title>
    <!-- data-wasm-opt runs Binaryen wasm-opt (-Oz) on the built wasm during `trunk build --release` to trim payload size -->
    <link data-trunk rel=\"rust\" href=\"Cargo.toml\" data-wasm-opt=\"z\" />
  </head>
  <body></body>
</html>
");
    s
}

/// The text that [`tui_cargo_toml`] produces.
pub open spec fn tui_cargo_toml_text(pkg_name: Seq<char>, core_path: Seq<char>, tui_path: Seq<char>) -> Seq<char> {
    "[package]
name = \""@
        + pkg_name
        + "\"
version = \"0.1.0\"
edition = \"2021\"
publish = false

[dependencies]
appfront-core = { path = \""@
        + core_path
        + "\" }
appfront-tui = { path = \""@
        + tui_path
        + "\" }
"@
}

/// The `Cargo.toml` of a scaffolded terminal crate.
pub fn tui_cargo_toml(pkg_name: &str, core_path: &str, tui_path: &str) -> (r: String)
    ensures
        r@ == tui_cargo_toml_text(pkg_name@, core_path@, tui_path@),
{
    let mut s = String::from_str("[package]
name = \"");
    push_str(&mut s, pkg_name);
    push_str(&mut s, "\"
version = \"0.1.0\"
edition = \"2021\"
publish = false

[dependencies]
appfront-core = { path = \"");
    push_str(&mut s, core_path);
    push_str(&mut s, "\" }
appfront-tui = { path = \"");
    push_str(&mut s, tui_path);
    push_str(&mut s, "\" }
");
    s
}

/// The text that [`tui_main_rs`] produces.
pub open spec fn tui_main_rs_text(app_title: Seq<char>) -> Seq<char> {
    "use appfront_core::{Signal, UITree};

#[derive(Debug, Clone)]
enum Msg {
    Increment,
}

fn main() -> Result<(), Box<dyn std::error::Error>> {
    let count = Signal::new(0i32);

    let count_for_ui = count.clone();
    let build_ui = move || -> UITree<Msg> {
        UITree::container(|c| {
            c.heading(1, \""@
        + app_title
        + "\");
            c.text(format!(\"Count: {}\", count_for_ui.get()));
            c.button(\"+1\").on_click(Msg::Increment);
        })
    };

    let dispatch = move |msg: Msg| match msg {
        Msg::Increment => count.set(count.get() + 1),
    };

    // Tab/Arrows move focus, Enter/Space activate, Esc quits.
    appfront_tui::run(build_ui, dispatch)?;
    Ok(())
}
"@
}

/// The `src/main.rs` of a scaffolded terminal crate: a counter app.
pub fn tui_main_rs(app_title: &str) -> (r: String)
    ensures
        r@ == tui_main_rs_text(app_title@),
{
    let mut s = String::from_str("use appfront_core::{Signal, UITree};

#[derive(Debug, Clone)]
enum Msg {
    Increment,
}

fn main() -> Result<(), Box<dyn std::error::Error>> {
    let count = Signal::new(0i32);

    let count_for_ui = count.clone();
    let build_ui = move || -> UITree<Msg> {
        UITree::container(|c| {
            c.heading(1, \"");
    push_str(&mut s, app_title);
    push_str(&mut s, "\");
            c.text(format!(\"Count: {}\", count_for_ui.get()));
            c.button(\"+1\").on_click(Msg::Increment);
        })
    };

    let dispatch = move |msg: Msg| match msg {
        Msg::Increment => count.set(count.get() + 1),
    };

    // Tab/Arrows move focus, Enter/Space activate, Esc quits.
    appfront_tui::run(build_ui, dispatch)?;
    Ok(())
}
");
    s
}

/// The `.gitignore` of a scaffolded project.
pub fn gitignore() -> (r: &'static str)
    ensures
        r@ == "/target\n/dist\nCargo.lock\n"@,
{
    "/target\n/dist\nCargo.lock\n"
}

/// The text that [`packager_toml`] produces.
pub open spec fn packager_toml_text(pkg_name: Seq<char>) -> Seq<char> {
    "[package]
product-name = \""@
        + pkg_name
        + "\"
version = \"0.1.0\"

[packager]
# Installer/archive formats per target OS:
#   windows -> msi, nsis
#   macos   -> app, dmg
#   linux   -> appimage, deb
formats = [\"msi\", \"dmg\", \"appimage\", \"deb\"]
# Emit delta auto-update artifacts alongside the installers.
generate-updates = true
"@
}

/// `cargo-packager` config (`packager.toml`) written by `appfront build
/// --bundle` / `appfront optimize --bundle` when one isn't already present.
/// Produces per-OS installers (.msi/.dmg/.appimage/.deb) plus delta auto-update
/// artifacts. Tune `formats`/signing to taste.
pub fn packager_toml(pkg_name: &str) -> (r: String)
    ensures
        r@ == packager_toml_text(pkg_name@),
{
    let mut s = String::from_str("[package]
product-name = \"");
    push_str(&mut s, pkg_name);
    push_str(&mut s, "\"
version = \"0.1.0\"

[packager]
# Installer/archive formats per target OS:
#   windows -> msi, nsis
#   macos   -> app, dmg
#   linux   -> appimage, deb
formats = [\"msi\", \"dmg\", \"appimage\", \"deb\"]
# Emit delta auto-update artifacts alongside the installers.
generate-updates = true
");
    s
}

/// The README written into a new project; `both` selects the two-crate
/// (canvas + dom) layout.
pub open spec fn readme_text(name: Seq<char>, both: bool) -> Seq<char> {
    if both {
        "# "@
        + name
        + "

Scaffolded by `appfront init`.

- `canvas/` — native desktop app (winit/egui via `appfront-canvas`). Run with:
  ```sh
  cd canvas && cargo run
  ```
- `dom/` — browser app (real DOM via `appfront-dom`). Run with:
  ```sh
  cd dom && trunk serve
  ```

Or drive both through the CLI from this directory:
```sh
appfront dev --desktop --project canvas
appfront dev --web --project dom
appfront build --target canvas --project canvas
appfront build --target dom --project dom
```
"@
    } else {
        "# "@
        + name
        + "

Scaffolded by `appfront init`. See `appfront dev --help` / `appfront build --help`.
"@
    }
}

/// The `README.md` of a scaffolded project; `both` when it holds both a
/// canvas and a DOM crate.
pub fn readme(name: &str, both: bool) -> (r: String)
    ensures
        r@ == readme_text(name@, both),
{
    if both {
        let mut s = String::from_str("# ");
        push_str(&mut s, name);
        push_str(&mut s, "

Scaffolded by `appfront init`.

- `canvas/` — native desktop app (winit/egui via `appfront-canvas`). Run with:
  ```sh
  cd canvas && cargo run
  ```
- `dom/` — browser app (real DOM via `appfront-dom`). Run with:
  ```sh
  cd dom && trunk serve
  ```

Or drive both through the CLI from this directory:
```sh
appfront dev --desktop --project canvas
appfront dev --web --project dom
appfront build --target canvas --project canvas
appfront build --target dom --project dom
```
");
        s
    } else {
        let mut s = String::from_str("# ");
        push_str(&mut s, name);
        push_str(&mut s, "

Scaffolded by `appfront init`. See `appfront dev --help` / `appfront build --help`.
");
        s
    }
}

} // verus!
