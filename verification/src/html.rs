//! Semantic HTML backend: `UITree` to an HTML string, for server-side
//! rendering and crawlers, with `data-ai-action` / `data-ai-params`
//! attributes for AI agents.

use vstd::prelude::*;

use crate::styling::{inline_style, inline_style_of};
use crate::text::{decimal, push_char, push_decimal, push_str};
use crate::ui_tree::{NodeKind, NodeMeta, UITree};

verus! {

broadcast use vstd::string::group_string_axioms;

/// Replaces every character `c` of `s` by `f(c)`.
pub open spec fn escape_with(s: Seq<char>, f: spec_fn(char) -> Seq<char>) -> Seq<char>
    decreases s.len(),
{
    if s.len() == 0 {
        Seq::empty()
    } else {
        escape_with(s.drop_last(), f) + f(s.last())
    }
}

/// How a character is written in HTML text content.
pub open spec fn text_char(c: char) -> Seq<char> {
    if c == '&' {
        "&amp;"@
    } else if c == '<' {
        "&lt;"@
    } else if c == '>' {
        "&gt;"@
    } else {
        seq![c]
    }
}

/// How a character is written inside a double-quoted attribute value.
pub open spec fn attr_char(c: char) -> Seq<char> {
    if c == '&' {
        "&amp;"@
    } else if c == '<' {
        "&lt;"@
    } else if c == '>' {
        "&gt;"@
    } else if c == '"' {
        "&quot;"@
    } else if c == '\'' {
        "&#x27;"@
    } else {
        seq![c]
    }
}

/// How a character of JSON text is written inside an inline script.
pub open spec fn script_json_char(c: char) -> Seq<char> {
    if c == '<' {
        "\\u003c"@
    } else if c == '>' {
        "\\u003e"@
    } else if c == '&' {
        "\\u0026"@
    } else {
        seq![c]
    }
}

/// How a character is written inside a JSON string literal.
pub open spec fn json_str_char(c: char) -> Seq<char> {
    if c == '"' {
        "\\\""@
    } else if c == '\\' {
        "\\\\"@
    } else if c == '\n' {
        "\\n"@
    } else if c == '\r' {
        "\\r"@
    } else if c == '\t' {
        "\\t"@
    } else {
        seq![c]
    }
}

/// Text content with `&`, `<` and `>` escaped.
pub open spec fn esc_text_of(s: Seq<char>) -> Seq<char> {
    escape_with(s, |c: char| text_char(c))
}

/// An attribute value with `&`, `<`, `>` and both quotes escaped.
pub open spec fn esc_attr_of(s: Seq<char>) -> Seq<char> {
    escape_with(s, |c: char| attr_char(c))
}

/// JSON text with `<`, `>` and `&` escaped for an inline script.
pub open spec fn esc_script_json_of(s: Seq<char>) -> Seq<char> {
    escape_with(s, |c: char| script_json_char(c))
}

/// A string escaped for a JSON string literal.
pub open spec fn esc_json_str_of(s: Seq<char>) -> Seq<char> {
    escape_with(s, |c: char| json_str_char(c))
}

proof fn lemma_escape_step(s: Seq<char>, i: int, f: spec_fn(char) -> Seq<char>)
    requires
        0 <= i < s.len(),
    ensures
        escape_with(s.take(i + 1), f) == escape_with(s.take(i), f) + f(s[i]),
{
    assert(s.take(i + 1).drop_last() =~= s.take(i));
}

/// Escapes text content: `&`, `<` and `>` become entities.
pub fn esc_text(s: &str) -> (r: String)
    ensures
        r@ == esc_text_of(s@),
{
    let ghost f = |c: char| text_char(c);
    let mut out = String::new();
    let ghost chars = s@;
    for ch in it: s.chars()
        invariant
            it.seq() == chars,
            chars == s@,
            f == (|c: char| text_char(c)),
            out@ == escape_with(chars.take(it.index() as int), f),
    {
        let ghost i = it.index() as int;
        proof {
            lemma_escape_step(chars, i, f);
        }
        if ch == '&' {
            push_str(&mut out, "&amp;");
        } else if ch == '<' {
            push_str(&mut out, "&lt;");
        } else if ch == '>' {
            push_str(&mut out, "&gt;");
        } else {
            push_char(&mut out, ch);
        }
        assert(out@ =~= escape_with(chars.take(i + 1), f));
    }
    assert(chars.take(chars.len() as int) =~= chars);
    out
}

/// Escapes a string for safe use inside a double-quoted HTML attribute
/// value.
pub fn esc_attr(s: &str) -> (r: String)
    ensures
        r@ == esc_attr_of(s@),
{
    let ghost f = |c: char| attr_char(c);
    let mut out = String::new();
    let ghost chars = s@;
    for ch in it: s.chars()
        invariant
            it.seq() == chars,
            chars == s@,
            f == (|c: char| attr_char(c)),
            out@ == escape_with(chars.take(it.index() as int), f),
    {
        let ghost i = it.index() as int;
        proof {
            lemma_escape_step(chars, i, f);
        }
        if ch == '&' {
            push_str(&mut out, "&amp;");
        } else if ch == '<' {
            push_str(&mut out, "&lt;");
        } else if ch == '>' {
            push_str(&mut out, "&gt;");
        } else if ch == '"' {
            push_str(&mut out, "&quot;");
        } else if ch == '\'' {
            push_str(&mut out, "&#x27;");
        } else {
            push_char(&mut out, ch);
        }
        assert(out@ =~= escape_with(chars.take(i + 1), f));
    }
    assert(chars.take(chars.len() as int) =~= chars);
    out
}

/// Escapes JSON text for safe embedding inside an inline `<script>`
/// element: `<`, `>` and `&` become their `\uXXXX` JSON escapes, which are
/// the same JSON but inert as HTML, so a value holding `</script>` cannot
/// end the element early.
pub fn esc_script_json(s: &str) -> (r: String)
    ensures
        r@ == esc_script_json_of(s@),
{
    let ghost f = |c: char| script_json_char(c);
    let mut out = String::new();
    let ghost chars = s@;
    for ch in it: s.chars()
        invariant
            it.seq() == chars,
            chars == s@,
            f == (|c: char| script_json_char(c)),
            out@ == escape_with(chars.take(it.index() as int), f),
    {
        let ghost i = it.index() as int;
        proof {
            lemma_escape_step(chars, i, f);
        }
        if ch == '<' {
            push_str(&mut out, "\\u003c");
        } else if ch == '>' {
            push_str(&mut out, "\\u003e");
        } else if ch == '&' {
            push_str(&mut out, "\\u0026");
        } else {
            push_char(&mut out, ch);
        }
        assert(out@ =~= escape_with(chars.take(i + 1), f));
    }
    assert(chars.take(chars.len() as int) =~= chars);
    out
}

/// Escapes a string for use inside a JSON string literal.
pub fn esc_json_str(s: &str) -> (r: String)
    ensures
        r@ == esc_json_str_of(s@),
{
    let ghost f = |c: char| json_str_char(c);
    let mut out = String::new();
    let ghost chars = s@;
    for ch in it: s.chars()
        invariant
            it.seq() == chars,
            chars == s@,
            f == (|c: char| json_str_char(c)),
            out@ == escape_with(chars.take(it.index() as int), f),
    {
        let ghost i = it.index() as int;
        proof {
            lemma_escape_step(chars, i, f);
        }
        if ch == '"' {
            push_str(&mut out, "\\\"");
        } else if ch == '\\' {
            push_str(&mut out, "\\\\");
        } else if ch == '\n' {
            push_str(&mut out, "\\n");
        } else if ch == '\r' {
            push_str(&mut out, "\\r");
        } else if ch == '\t' {
            push_str(&mut out, "\\t");
        } else {
            push_char(&mut out, ch);
        }
        assert(out@ =~= escape_with(chars.take(i + 1), f));
    }
    assert(chars.take(chars.len() as int) =~= chars);
    out
}

proof fn lemma_escape_excludes(s: Seq<char>, f: spec_fn(char) -> Seq<char>, x: char)
    requires
        forall|c: char| !(#[trigger] f(c)).contains(x),
    ensures
        !escape_with(s, f).contains(x),
    decreases s.len(),
{
    broadcast use vstd::seq_lib::lemma_seq_concat_contains_all_elements;
    if s.len() > 0 {
        lemma_escape_excludes(s.drop_last(), f, x);
        assert(!f(s.last()).contains(x));
    }
}

/// Escaped text content holds no `<` and no `>`, so no text can open or
/// close an element.
pub proof fn lemma_escaped_text_has_no_markup(s: Seq<char>)
    ensures
        !esc_text_of(s).contains('<'),
        !esc_text_of(s).contains('>'),
{
    reveal_strlit("&amp;");
    reveal_strlit("&lt;");
    reveal_strlit("&gt;");
    let f = |c: char| text_char(c);
    assert forall|c: char| !(#[trigger] f(c)).contains('<') && !f(c).contains('>') by {
        if c == '&' {
            assert(f(c) =~= seq!['&', 'a', 'm', 'p', ';']);
        } else if c == '<' {
            assert(f(c) =~= seq!['&', 'l', 't', ';']);
        } else if c == '>' {
            assert(f(c) =~= seq!['&', 'g', 't', ';']);
        } else {
            assert(f(c) =~= seq![c]);
        }
    }
    lemma_escape_excludes(s, f, '<');
    lemma_escape_excludes(s, f, '>');
}

/// An escaped attribute value holds no quote of either kind and no angle
/// bracket, so it cannot end the attribute or the tag.
pub proof fn lemma_escaped_attr_cannot_break_out(s: Seq<char>)
    ensures
        !esc_attr_of(s).contains('"'),
        !esc_attr_of(s).contains('\''),
        !esc_attr_of(s).contains('<'),
        !esc_attr_of(s).contains('>'),
{
    reveal_strlit("&amp;");
    reveal_strlit("&lt;");
    reveal_strlit("&gt;");
    reveal_strlit("&quot;");
    reveal_strlit("&#x27;");
    let f = |c: char| attr_char(c);
    assert forall|c: char|
        !(#[trigger] f(c)).contains('"') && !f(c).contains('\'') && !f(c).contains('<')
            && !f(c).contains('>') by {
        if c == '&' {
            assert(f(c) =~= seq!['&', 'a', 'm', 'p', ';']);
        } else if c == '<' {
            assert(f(c) =~= seq!['&', 'l', 't', ';']);
        } else if c == '>' {
            assert(f(c) =~= seq!['&', 'g', 't', ';']);
        } else if c == '"' {
            assert(f(c) =~= seq!['&', 'q', 'u', 'o', 't', ';']);
        } else if c == '\'' {
            assert(f(c) =~= seq!['&', '#', 'x', '2', '7', ';']);
        } else {
            assert(f(c) =~= seq![c]);
        }
    }
    lemma_escape_excludes(s, f, '"');
    lemma_escape_excludes(s, f, '\'');
    lemma_escape_excludes(s, f, '<');
    lemma_escape_excludes(s, f, '>');
}

/// JSON escaped for an inline script holds no `<`, `>` or `&`, so it is
/// inert as HTML (it cannot spell `</script>`).
pub proof fn lemma_script_json_is_inert(s: Seq<char>)
    ensures
        !esc_script_json_of(s).contains('<'),
        !esc_script_json_of(s).contains('>'),
        !esc_script_json_of(s).contains('&'),
{
    reveal_strlit("\\u003c");
    reveal_strlit("\\u003e");
    reveal_strlit("\\u0026");
    let f = |c: char| script_json_char(c);
    assert forall|c: char|
        !(#[trigger] f(c)).contains('<') && !f(c).contains('>') && !f(c).contains('&') by {
        if c == '<' {
            assert(f(c) =~= seq!['\\', 'u', '0', '0', '3', 'c']);
        } else if c == '>' {
            assert(f(c) =~= seq!['\\', 'u', '0', '0', '3', 'e']);
        } else if c == '&' {
            assert(f(c) =~= seq!['\\', 'u', '0', '0', '2', '6']);
        } else {
            assert(f(c) =~= seq![c]);
        }
    }
    lemma_escape_excludes(s, f, '<');
    lemma_escape_excludes(s, f, '>');
    lemma_escape_excludes(s, f, '&');
}

/// ` name="value"`, with the value escaped.
pub open spec fn attr_of(name: Seq<char>, value: Seq<char>) -> Seq<char> {
    " "@ + name + "=\""@ + esc_attr_of(value) + "\""@
}

/// One `"key":"value"` member of the parameters object.
pub open spec fn param_json(k: Seq<char>, v: Seq<char>) -> Seq<char> {
    "\""@ + esc_json_str_of(k) + "\":\""@ + esc_json_str_of(v) + "\""@
}

/// The members of the parameters object, separated by commas.
pub open spec fn params_members(pairs: Seq<(String, String)>) -> Seq<char>
    decreases pairs.len(),
{
    if pairs.len() == 0 {
        Seq::empty()
    } else if pairs.len() == 1 {
        param_json(pairs[0].0@, pairs[0].1@)
    } else {
        params_members(pairs.drop_last()) + ","@ + param_json(pairs.last().0@, pairs.last().1@)
    }
}

/// The parameters as a flat JSON object of strings.
pub open spec fn params_json_of(pairs: Seq<(String, String)>) -> Seq<char> {
    "{"@ + params_members(pairs) + "}"@
}

/// The attributes written for a node's metadata: class (with the inline
/// style of its utility classes, when it has any), identifier, AI action
/// and (when there are any) AI parameters.
pub open spec fn attrs_of<Msg>(meta: NodeMeta<Msg>) -> Seq<char> {
    (match meta.class {
        Some(c) => attr_of("class"@, c@) + if inline_style_of(c@).len() > 0 {
            attr_of("style"@, inline_style_of(c@))
        } else {
            Seq::empty()
        },
        None => Seq::empty(),
    }) + (match meta.data_appfront_id {
        Some(id) => attr_of("data-appfront-id"@, decimal(id as nat)),
        None => Seq::empty(),
    }) + (match meta.ai.action {
        Some(a) => attr_of("data-ai-action"@, a@) + if meta.ai.params@.len() > 0 {
            attr_of("data-ai-params"@, params_json_of(meta.ai.params@))
        } else {
            Seq::empty()
        },
        None => Seq::empty(),
    })
}

/// Whether a node carries any attribute worth an element of its own.
pub open spec fn has_attrs<Msg>(meta: NodeMeta<Msg>) -> bool {
    meta.class is Some || meta.data_appfront_id is Some || meta.ai.action is Some
}

/// `<tag attrs>`.
pub open spec fn open_tag_of<Msg>(tag: Seq<char>, meta: NodeMeta<Msg>) -> Seq<char> {
    "<"@ + tag + attrs_of(meta) + ">"@
}

/// `</tag>`.
pub open spec fn close_tag_of(tag: Seq<char>) -> Seq<char> {
    "</"@ + tag + ">"@
}

/// The heading level clamped to `1..=6`.
pub open spec fn heading_level(level: u8) -> nat {
    if level < 1 {
        1
    } else if level > 6 {
        6
    } else {
        level as nat
    }
}

/// The cells of one row, each as `<open>text</close>`.
pub open spec fn cells_html(cells: Seq<String>, open: Seq<char>, close: Seq<char>) -> Seq<char>
    decreases cells.len(),
{
    if cells.len() == 0 {
        Seq::empty()
    } else {
        cells_html(cells.drop_last(), open, close) + open + esc_text_of(cells.last()@) + close
    }
}

/// The body rows of a data grid.
pub open spec fn rows_html(rows: Seq<Vec<String>>) -> Seq<char>
    decreases rows.len(),
{
    if rows.len() == 0 {
        Seq::empty()
    } else {
        rows_html(rows.drop_last()) + "<tr>"@ + cells_html(rows.last()@, "<td>"@, "</td>"@) + "</tr>"@
    }
}

/// The HTML of one node and its subtree.
pub open spec fn node_html<Msg>(t: UITree<Msg>) -> Seq<char>
    decreases t,
{
    match t.kind {
        NodeKind::Container { children } => open_tag_of("div"@, t.meta) + all_html(children@)
            + close_tag_of("div"@),
        NodeKind::Heading { level, text } => {
            let tag = "h"@ + decimal(heading_level(level));
            open_tag_of(tag, t.meta) + esc_text_of(text@) + close_tag_of(tag)
        },
        NodeKind::Text { text } => if has_attrs(t.meta) {
            open_tag_of("span"@, t.meta) + esc_text_of(text@) + close_tag_of("span"@)
        } else {
            esc_text_of(text@)
        },
        NodeKind::Button { label } => "<button type=\"button\""@ + attrs_of(t.meta) + ">"@
            + esc_text_of(label@) + close_tag_of("button"@),
        NodeKind::Input { value } => "<input"@ + attrs_of(t.meta) + attr_of("value"@, value@)
            + " />"@,
        NodeKind::List { items } => open_tag_of("ul"@, t.meta) + items_html(items@) + close_tag_of(
            "ul"@,
        ),
        NodeKind::DataGrid { columns, rows } => open_tag_of("table"@, t.meta)
            + "<thead><tr>"@ + cells_html(columns@, "<th>"@, "</th>"@) + "</tr></thead>"@
            + "<tbody>"@ + rows_html(rows@) + "</tbody>"@ + close_tag_of("table"@),
    }
}

/// The HTML of a forest, siblings one after another.
pub open spec fn all_html<Msg>(ts: Seq<UITree<Msg>>) -> Seq<char>
    decreases ts,
{
    if ts.len() == 0 {
        Seq::empty()
    } else {
        all_html(ts.drop_last()) + node_html(ts.last())
    }
}

/// The HTML of list items, each wrapped in `<li>`.
pub open spec fn items_html<Msg>(ts: Seq<UITree<Msg>>) -> Seq<char>
    decreases ts,
{
    if ts.len() == 0 {
        Seq::empty()
    } else {
        items_html(ts.drop_last()) + "<li>"@ + node_html(ts.last()) + "</li>"@
    }
}

/// Whether `t` occurs in `s` as a contiguous run of characters.
pub open spec fn occurs_in(t: Seq<char>, s: Seq<char>) -> bool {
    exists|i: int| 0 <= i && i + t.len() <= s.len() && #[trigger] s.subrange(i, i + t.len()) == t
}

/// `x` is `t` or a node below it (a child of a container or an item of a
/// list, at any depth).
pub open spec fn in_tree<Msg>(x: UITree<Msg>, t: UITree<Msg>) -> bool
    decreases t,
{
    x == t || match t.kind {
        NodeKind::Container { children } => in_forest(x, children@),
        NodeKind::List { items } => in_forest(x, items@),
        _ => false,
    }
}

/// `x` is one of the trees `ts` or a node below one of them.
pub open spec fn in_forest<Msg>(x: UITree<Msg>, ts: Seq<UITree<Msg>>) -> bool
    decreases ts,
{
    ts.len() > 0 && (in_forest(x, ts.drop_last()) || in_tree(x, ts.last()))
}

proof fn lemma_occurs_mid(a: Seq<char>, t: Seq<char>, b: Seq<char>)
    ensures
        occurs_in(t, a + t + b),
{
    assert((a + t + b).subrange(a.len() as int, (a.len() + t.len()) as int) =~= t);
}

proof fn lemma_occurs_trans(t: Seq<char>, m: Seq<char>, s: Seq<char>)
    requires
        occurs_in(t, m),
        occurs_in(m, s),
    ensures
        occurs_in(t, s),
{
    let i = choose|i: int| 0 <= i && i + t.len() <= m.len() && #[trigger] m.subrange(i, i + t.len()) == t;
    let j = choose|j: int| 0 <= j && j + m.len() <= s.len() && #[trigger] s.subrange(j, j + m.len()) == m;
    assert(s.subrange(j + i, j + i + t.len()) =~= m.subrange(i, i + t.len()));
}

proof fn lemma_attrs_in_node<Msg>(t: UITree<Msg>)
    ensures
        occurs_in(attrs_of(t.meta), node_html(t)),
{
    let at = attrs_of(t.meta);
    let h = node_html(t);
    match t.kind {
        NodeKind::Container { children } => {
            assert(h =~= "<"@ + "div"@ + at + (">"@ + all_html(children@) + close_tag_of("div"@)));
            lemma_occurs_mid("<"@ + "div"@, at, ">"@ + all_html(children@) + close_tag_of("div"@));
        },
        NodeKind::Heading { level, text } => {
            let tag = "h"@ + decimal(heading_level(level));
            assert(h =~= "<"@ + tag + at + (">"@ + esc_text_of(text@) + close_tag_of(tag)));
            lemma_occurs_mid("<"@ + tag, at, ">"@ + esc_text_of(text@) + close_tag_of(tag));
        },
        NodeKind::Text { text } => {
            if has_attrs(t.meta) {
                assert(h =~= "<"@ + "span"@ + at + (">"@ + esc_text_of(text@) + close_tag_of("span"@)));
                lemma_occurs_mid("<"@ + "span"@, at, ">"@ + esc_text_of(text@) + close_tag_of("span"@));
            } else {
                assert(at =~= Seq::<char>::empty());
                lemma_occurs_mid(Seq::empty(), at, h);
                assert(Seq::<char>::empty() + at + h =~= h);
            }
        },
        NodeKind::Button { label } => {
            assert(h =~= "<button type=\"button\""@ + at + (">"@ + esc_text_of(label@) + close_tag_of(
                "button"@,
            )));
            lemma_occurs_mid(
                "<button type=\"button\""@,
                at,
                ">"@ + esc_text_of(label@) + close_tag_of("button"@),
            );
        },
        NodeKind::Input { value } => {
            assert(h =~= "<input"@ + at + (attr_of("value"@, value@) + " />"@));
            lemma_occurs_mid("<input"@, at, attr_of("value"@, value@) + " />"@);
        },
        NodeKind::List { items } => {
            assert(h =~= "<"@ + "ul"@ + at + (">"@ + items_html(items@) + close_tag_of("ul"@)));
            lemma_occurs_mid("<"@ + "ul"@, at, ">"@ + items_html(items@) + close_tag_of("ul"@));
        },
        NodeKind::DataGrid { columns, rows } => {
            let rest = "<thead><tr>"@ + cells_html(columns@, "<th>"@, "</th>"@) + "</tr></thead>"@
                + "<tbody>"@ + rows_html(rows@) + "</tbody>"@ + close_tag_of("table"@);
            assert(h =~= "<"@ + "table"@ + at + (">"@ + rest));
            lemma_occurs_mid("<"@ + "table"@, at, ">"@ + rest);
        },
    }
}

proof fn lemma_attrs_in_tree<Msg>(x: UITree<Msg>, t: UITree<Msg>)
    requires
        in_tree(x, t),
    ensures
        occurs_in(attrs_of(x.meta), node_html(t)),
    decreases t,
{
    if x == t {
        lemma_attrs_in_node(t);
    } else {
        match t.kind {
            NodeKind::Container { children } => {
                lemma_attrs_in_forest(x, children@);
                lemma_occurs_mid(open_tag_of("div"@, t.meta), all_html(children@), close_tag_of("div"@));
                lemma_occurs_trans(attrs_of(x.meta), all_html(children@), node_html(t));
            },
            NodeKind::List { items } => {
                lemma_attrs_in_items(x, items@);
                lemma_occurs_mid(open_tag_of("ul"@, t.meta), items_html(items@), close_tag_of("ul"@));
                lemma_occurs_trans(attrs_of(x.meta), items_html(items@), node_html(t));
            },
            _ => {},
        }
    }
}

proof fn lemma_attrs_in_forest<Msg>(x: UITree<Msg>, ts: Seq<UITree<Msg>>)
    requires
        in_forest(x, ts),
    ensures
        occurs_in(attrs_of(x.meta), all_html(ts)),
    decreases ts,
{
    let init = ts.drop_last();
    let h = all_html(ts);
    if in_forest(x, init) {
        lemma_attrs_in_forest(x, init);
        lemma_occurs_mid(Seq::empty(), all_html(init), node_html(ts.last()));
        assert(Seq::<char>::empty() + all_html(init) + node_html(ts.last()) =~= h);
        lemma_occurs_trans(attrs_of(x.meta), all_html(init), h);
    } else {
        lemma_attrs_in_tree(x, ts.last());
        lemma_occurs_mid(all_html(init), node_html(ts.last()), Seq::empty());
        assert(all_html(init) + node_html(ts.last()) + Seq::<char>::empty() =~= h);
        lemma_occurs_trans(attrs_of(x.meta), node_html(ts.last()), h);
    }
}

proof fn lemma_attrs_in_items<Msg>(x: UITree<Msg>, ts: Seq<UITree<Msg>>)
    requires
        in_forest(x, ts),
    ensures
        occurs_in(attrs_of(x.meta), items_html(ts)),
    decreases ts,
{
    let init = ts.drop_last();
    let h = items_html(ts);
    if in_forest(x, init) {
        lemma_attrs_in_items(x, init);
        lemma_occurs_mid(Seq::empty(), items_html(init), "<li>"@ + node_html(ts.last()) + "</li>"@);
        assert(Seq::<char>::empty() + items_html(init) + ("<li>"@ + node_html(ts.last()) + "</li>"@)
            =~= h);
        lemma_occurs_trans(attrs_of(x.meta), items_html(init), h);
    } else {
        lemma_attrs_in_tree(x, ts.last());
        lemma_occurs_mid(items_html(init) + "<li>"@, node_html(ts.last()), "</li>"@);
        assert(items_html(init) + "<li>"@ + node_html(ts.last()) + "</li>"@ =~= h);
        lemma_occurs_trans(attrs_of(x.meta), node_html(ts.last()), h);
    }
}

/// Every node's attributes reach the page: for each node of the tree
/// (text nodes included), its class with inline style, its identifier and
/// its AI action and parameters are written, in that order, into the HTML
/// of the tree.
pub proof fn lemma_every_node_attrs_rendered<Msg>(x: UITree<Msg>, t: UITree<Msg>)
    requires
        in_tree(x, t),
    ensures
        occurs_in(attrs_of(x.meta), node_html(t)),
{
    lemma_attrs_in_tree(x, t);
}

/// Every node that carries an identifier `n` appears in the HTML of the
/// tree with the attribute `data-appfront-id="n"`, whatever its kind, so a
/// client can match each rendered element back to its node.
pub proof fn lemma_every_id_rendered<Msg>(x: UITree<Msg>, t: UITree<Msg>, n: u64)
    requires
        in_tree(x, t),
        x.meta.data_appfront_id == Some(n),
    ensures
        occurs_in(attr_of("data-appfront-id"@, decimal(n as nat)), node_html(t)),
{
    lemma_attrs_in_tree(x, t);
    let m = x.meta;
    let c = match m.class {
        Some(c) => attr_of("class"@, c@) + if inline_style_of(c@).len() > 0 {
            attr_of("style"@, inline_style_of(c@))
        } else {
            Seq::empty()
        },
        None => Seq::empty(),
    };
    let a = match m.ai.action {
        Some(a) => attr_of("data-ai-action"@, a@) + if m.ai.params@.len() > 0 {
            attr_of("data-ai-params"@, params_json_of(m.ai.params@))
        } else {
            Seq::empty()
        },
        None => Seq::empty(),
    };
    assert(attrs_of(m) =~= c + attr_of("data-appfront-id"@, decimal(n as nat)) + a);
    lemma_occurs_mid(c, attr_of("data-appfront-id"@, decimal(n as nat)), a);
    lemma_occurs_trans(attr_of("data-appfront-id"@, decimal(n as nat)), attrs_of(m), node_html(t));
}

fn attr(buf: &mut String, name: &str, value: &str)
    ensures
        final(buf)@ == old(buf)@ + attr_of(name@, value@),
{
    push_char(buf, ' ');
    push_str(buf, name);
    push_str(buf, "=\"");
    let v = esc_attr(value);
    push_str(buf, v.as_str());
    push_char(buf, '"');
    proof {
        reveal_strlit(" ");
        reveal_strlit("\"");
        assert(final(buf)@ =~= old(buf)@ + attr_of(name@, value@));
    }
}

fn params_to_json(pairs: &Vec<(String, String)>) -> (r: String)
    ensures
        r@ == params_json_of(pairs@),
{
    let mut buf = String::from_str("{");
    let mut i: usize = 0;
    while i < pairs.len()
        invariant
            i <= pairs.len(),
            buf@ == "{"@ + params_members(pairs@.take(i as int)),
        decreases pairs.len() - i,
    {
        let ghost before = buf@;
        if i > 0 {
            push_char(&mut buf, ',');
        }
        push_char(&mut buf, '"');
        let k = esc_json_str(pairs[i].0.as_str());
        push_str(&mut buf, k.as_str());
        push_str(&mut buf, "\":\"");
        let v = esc_json_str(pairs[i].1.as_str());
        push_str(&mut buf, v.as_str());
        push_char(&mut buf, '"');
        proof {
            reveal_strlit("\"");
            reveal_strlit(",");
            let t = pairs@.take(i + 1);
            assert(t.drop_last() =~= pairs@.take(i as int));
            assert(t.last() == pairs@[i as int]);
            if i == 0 {
                assert(buf@ =~= "{"@ + params_members(t));
            } else {
                assert(buf@ =~= "{"@ + params_members(t));
            }
        }
        i += 1;
    }
    push_char(&mut buf, '}');
    proof {
        reveal_strlit("}");
        assert(pairs@.take(pairs.len() as int) =~= pairs@);
        assert(buf@ =~= params_json_of(pairs@));
    }
    buf
}

fn class_attrs(buf: &mut String, class: &str)
    ensures
        final(buf)@ == old(buf)@ + attr_of("class"@, class@) + if inline_style_of(class@).len() > 0 {
            attr_of("style"@, inline_style_of(class@))
        } else {
            Seq::empty()
        },
{
    attr(buf, "class", class);
    let style = inline_style(class);
    if !style.as_str().is_empty() {
        attr(buf, "style", style.as_str());
    }
    proof {
        reveal_strlit("class");
        reveal_strlit("style");
    }
    assert(final(buf)@ =~= old(buf)@ + attr_of("class"@, class@) + if inline_style_of(class@).len()
        > 0 {
        attr_of("style"@, inline_style_of(class@))
    } else {
        Seq::empty()
    });
}

fn attrs<Msg>(buf: &mut String, meta: &NodeMeta<Msg>)
    ensures
        final(buf)@ == old(buf)@ + attrs_of(*meta),
{
    let ghost start = buf@;
    if let Some(class) = &meta.class {
        class_attrs(buf, class.as_str());
    }
    let ghost after_class = buf@;
    if let Some(id) = &meta.data_appfront_id {
        let mut digits = String::new();
        push_decimal(&mut digits, *id);
        attr(buf, "data-appfront-id", digits.as_str());
    }
    let ghost after_id = buf@;
    if let Some(action) = &meta.ai.action {
        attr(buf, "data-ai-action", action.as_str());
        if meta.ai.params.len() > 0 {
            let params_json = params_to_json(&meta.ai.params);
            attr(buf, "data-ai-params", params_json.as_str());
        }
    }
    assert(final(buf)@ =~= old(buf)@ + attrs_of(*meta));
}

fn open_tag<Msg>(buf: &mut String, tag: &str, meta: &NodeMeta<Msg>)
    ensures
        final(buf)@ == old(buf)@ + open_tag_of(tag@, *meta),
{
    push_str(buf, "<");
    push_str(buf, tag);
    attrs(buf, meta);
    push_str(buf, ">");
    assert(final(buf)@ =~= old(buf)@ + open_tag_of(tag@, *meta));
}

fn close_tag(buf: &mut String, tag: &str)
    ensures
        final(buf)@ == old(buf)@ + close_tag_of(tag@),
{
    push_str(buf, "</");
    push_str(buf, tag);
    push_str(buf, ">");
    assert(final(buf)@ =~= old(buf)@ + close_tag_of(tag@));
}

fn push_cells(buf: &mut String, cells: &Vec<String>, open: &str, close: &str)
    ensures
        final(buf)@ == old(buf)@ + cells_html(cells@, open@, close@),
{
    let mut i: usize = 0;
    while i < cells.len()
        invariant
            i <= cells.len(),
            buf@ == old(buf)@ + cells_html(cells@.take(i as int), open@, close@),
        decreases cells.len() - i,
    {
        push_str(buf, open);
        let e = esc_text(cells[i].as_str());
        push_str(buf, e.as_str());
        push_str(buf, close);
        proof {
            let t = cells@.take(i + 1);
            assert(t.drop_last() =~= cells@.take(i as int));
            assert(buf@ =~= old(buf)@ + cells_html(t, open@, close@));
        }
        i += 1;
    }
    assert(cells@.take(cells.len() as int) =~= cells@);
}

fn push_rows(buf: &mut String, rows: &Vec<Vec<String>>)
    ensures
        final(buf)@ == old(buf)@ + rows_html(rows@),
{
    let mut i: usize = 0;
    while i < rows.len()
        invariant
            i <= rows.len(),
            buf@ == old(buf)@ + rows_html(rows@.take(i as int)),
        decreases rows.len() - i,
    {
        push_str(buf, "<tr>");
        push_cells(buf, &rows[i], "<td>", "</td>");
        push_str(buf, "</tr>");
        proof {
            let t = rows@.take(i + 1);
            assert(t.drop_last() =~= rows@.take(i as int));
            assert(buf@ =~= old(buf)@ + rows_html(t));
        }
        i += 1;
    }
    assert(rows@.take(rows.len() as int) =~= rows@);
}

fn heading_tag(level: u8) -> (r: String)
    ensures
        r@ == "h"@ + decimal(heading_level(level)),
{
    let clamped: u8 = if level < 1 {
        1
    } else if level > 6 {
        6
    } else {
        level
    };
    let mut tag = String::from_str("h");
    push_decimal(&mut tag, clamped as u64);
    tag
}

fn render_all<Msg>(buf: &mut String, children: &Vec<UITree<Msg>>)
    ensures
        final(buf)@ == old(buf)@ + all_html(children@),
    decreases children@, 0nat,
{
    let mut i: usize = 0;
    while i < children.len()
        invariant
            i <= children.len(),
            buf@ == old(buf)@ + all_html(children@.take(i as int)),
        decreases children.len() - i,
    {
        assert(decreases_to!(children@ => children@[i as int]));
        render_node(buf, &children[i]);
        proof {
            let t = children@.take(i + 1);
            assert(t.drop_last() =~= children@.take(i as int));
            assert(buf@ =~= old(buf)@ + all_html(t));
        }
        i += 1;
    }
    assert(children@.take(children.len() as int) =~= children@);
}

fn render_items<Msg>(buf: &mut String, items: &Vec<UITree<Msg>>)
    ensures
        final(buf)@ == old(buf)@ + items_html(items@),
    decreases items@, 0nat,
{
    let mut i: usize = 0;
    while i < items.len()
        invariant
            i <= items.len(),
            buf@ == old(buf)@ + items_html(items@.take(i as int)),
        decreases items.len() - i,
    {
        assert(decreases_to!(items@ => items@[i as int]));
        push_str(buf, "<li>");
        render_node(buf, &items[i]);
        push_str(buf, "</li>");
        proof {
            let t = items@.take(i + 1);
            assert(t.drop_last() =~= items@.take(i as int));
            assert(buf@ =~= old(buf)@ + items_html(t));
        }
        i += 1;
    }
    assert(items@.take(items.len() as int) =~= items@);
}

fn render_node<Msg>(buf: &mut String, ui: &UITree<Msg>)
    ensures
        final(buf)@ == old(buf)@ + node_html(*ui),
    decreases *ui, 1nat,
{
    match &ui.kind {
        NodeKind::Container { children } => {
            open_tag(buf, "div", &ui.meta);
            render_all(buf, children);
            close_tag(buf, "div");
        },
        NodeKind::Heading { level, text } => {
            let tag = heading_tag(*level);
            open_tag(buf, tag.as_str(), &ui.meta);
            let e = esc_text(text.as_str());
            push_str(buf, e.as_str());
            close_tag(buf, tag.as_str());
        },
        NodeKind::Text { text } => {
            if ui.meta.class.is_some() || ui.meta.data_appfront_id.is_some()
                || ui.meta.ai.action.is_some() {
                open_tag(buf, "span", &ui.meta);
                let e = esc_text(text.as_str());
                push_str(buf, e.as_str());
                close_tag(buf, "span");
            } else {
                let e = esc_text(text.as_str());
                push_str(buf, e.as_str());
            }
        },
        NodeKind::Button { label } => {
            push_str(buf, "<button type=\"button\"");
            attrs(buf, &ui.meta);
            push_str(buf, ">");
            let e = esc_text(label.as_str());
            push_str(buf, e.as_str());
            close_tag(buf, "button");
        },
        NodeKind::Input { value } => {
            push_str(buf, "<input");
            attrs(buf, &ui.meta);
            attr(buf, "value", value.as_str());
            push_str(buf, " />");
        },
        NodeKind::List { items } => {
            open_tag(buf, "ul", &ui.meta);
            render_items(buf, items);
            close_tag(buf, "ul");
        },
        NodeKind::DataGrid { columns, rows } => {
            open_tag(buf, "table", &ui.meta);
            push_str(buf, "<thead><tr>");
            push_cells(buf, columns, "<th>", "</th>");
            push_str(buf, "</tr></thead>");
            push_str(buf, "<tbody>");
            push_rows(buf, rows);
            push_str(buf, "</tbody>");
            close_tag(buf, "table");
        },
    }
    assert(final(buf)@ =~= old(buf)@ + node_html(*ui));
}

/// Renders a tree to a semantic HTML fragment (no `<html>`, `<head>` or
/// `<body>`).
pub fn render<Msg>(ui: &UITree<Msg>) -> (r: String)
    ensures
        r@ == node_html(*ui),
{
    let mut buf = String::new();
    render_node(&mut buf, ui);
    assert(buf@ =~= node_html(*ui));
    buf
}

/// A full HTML5 page around `body`, with the title and description in
/// the `<title>` and OpenGraph tags (both escaped).
pub open spec fn page_html(body: Seq<char>, title: Seq<char>, description: Seq<char>) -> Seq<char> {
    "<!DOCTYPE html>\n<html lang=\"en\">\n<head>\n<meta charset=\"utf-8\">\n<meta name=\"viewport\" content=\"width=device-width, initial-scale=1\">\n<title>"@ + esc_attr_of(title) + "</title>\n<meta property=\"og:title\" content=\""@ + esc_attr_of(title) + "\">\n<meta property=\"og:description\" content=\""@
        + esc_attr_of(description) + "\">\n<meta property=\"og:type\" content=\"website\">\n\n</head>\n<body>\n"@ + body + "\n</body>\n</html>\n"@
}

/// Renders a full HTML5 page with OpenGraph tags.
pub fn render_page<Msg>(ui: &UITree<Msg>, title: &str, description: &str) -> (r: String)
    ensures
        r@ == page_html(node_html(*ui), title@, description@),
{
    let body = render(ui);
    let t = esc_attr(title);
    let d = esc_attr(description);
    let mut page = String::from_str("<!DOCTYPE html>\n<html lang=\"en\">\n<head>\n<meta charset=\"utf-8\">\n<meta name=\"viewport\" content=\"width=device-width, initial-scale=1\">\n<title>");
    push_str(&mut page, t.as_str());
    push_str(&mut page, "</title>\n<meta property=\"og:title\" content=\"");
    push_str(&mut page, t.as_str());
    push_str(&mut page, "\">\n<meta property=\"og:description\" content=\"");
    push_str(&mut page, d.as_str());
    push_str(&mut page, "\">\n<meta property=\"og:type\" content=\"website\">\n\n</head>\n<body>\n");
    push_str(&mut page, body.as_str());
    push_str(&mut page, "\n</body>\n</html>\n");
    page
}

} // verus!
