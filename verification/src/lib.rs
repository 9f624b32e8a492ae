//! AppFront: one abstract UI tree, many renderers.

pub mod reconcile;
pub mod text;
pub mod history;
pub mod templates;
pub mod ui_tree;
pub mod styling;
pub mod html;
pub mod tui;
pub mod reactive;
pub mod presets;
pub mod cli;
pub mod appfront_cli;
pub mod server;
pub mod ai_schema;
pub mod component;
pub mod resource;
pub mod mcp;
pub mod webview;
pub mod view_syntax;
