# appfront

One abstract UI tree, many renderers: semantic HTML for crawlers, a JSON-LD
graph and an AI schema for agents, a terminal driver, and the `view!`
template grammar that builds the tree, together with the pieces around them
(the tree builder, the utility-class styling layer, keyed list
reconciliation, undo history, the reactive dependency graph, the smart
router's checks and pages, how MCP requests and webview IPC messages are
read and answered, the command-line tools' decisions).

`src/` is the library, written in Verus: every function has a contract and
is proved against it, and the laws that relate several functions (undo
after redo, applying a reconciliation reproduces the new list, escaped text
cannot open a tag, a dropped effect never re-runs, ...) are stated and proved
as proof functions next to the code they are about.

`app/` is ordinary Rust around the library: the per-thread reactive runtime
that owns signal values and runs effect closures, the terminal, MCP-over-stdio
and webview IPC hosts, JSON output, the code generators of `view!` and
`#[component]`, floating-point virtual scrolling, and the command-line tool.

Not here: the browser DOM backend (its one rendering rule of its own, the
key a list item is matched by, is `ui_tree::item_key`), the canvas backend
and the HTTP router itself; the router's pages, checks and PWA glue are in
`server`. Static subtrees of `view!` are flagged but rebuilt on every call,
and an `on_input` binding is checked but not recorded on the node.

`tests/` exercises the library on concrete values.
