//! The grammar of the `view!` templating macro, over a model of its input
//! tokens: `<Tag attr={expr} ...>` elements with text, `{ expr }`
//! interpolations and `{if ..}` / `{for ..}` control flow as children;
//! followed by the checks made before any code is generated (tag
//! attributes, text children, self-closing tags) and the analysis of which
//! subtrees are static.
//!
//! Whether a run of tokens is a valid Rust expression or pattern is not
//! decided here: an interpolation's token carries that verdict, and the
//! condition, pattern and iterator of control flow are reported as pieces
//! whose verdicts are handed back before the outcome is settled.

use vstd::prelude::*;

use crate::component::{allowed_attrs, is_view_tag, required_attrs};
use crate::text::{push_str, str_eq};

verus! {

broadcast use vstd::string::group_string_axioms;

/// How the tokens inside a `{ ... }` group parse as a Rust expression.
#[derive(Debug, Clone, PartialEq, Eq)]
pub enum BraceExpr {
    /// A literal (a string, number, character or boolean literal).
    Literal,
    /// Some other expression.
    Other,
    /// Not an expression; the parser's complaint.
    Invalid(String),
}

/// A token of the macro input. Every token carries an id by which the
/// caller finds the real token again (for spans and code generation).
#[derive(Debug)]
pub enum ViewToken {
    Punct { id: usize, ch: char },
    Ident { id: usize, name: String },
    /// A literal; `string` is whether it is a string literal.
    Literal { id: usize, string: bool },
    /// A `{ ... }` group, the tokens inside it, and how they parse as an
    /// expression.
    Brace { id: usize, inner: Vec<ViewToken>, expr: BraceExpr },
    /// A `( ... )` or `[ ... ]` group.
    Group { id: usize },
}

/// An attribute: its name, the id of its name token, the id of its value
/// token, and whether the value is a literal.
#[derive(Debug, Clone, PartialEq, Eq)]
pub struct ViewAttr {
    pub name: String,
    pub name_id: usize,
    pub value: usize,
    pub literal: bool,
}

/// Which part of a control-flow block a piece is.
#[derive(Debug, Clone, Copy, PartialEq, Eq, Structural)]
pub enum PieceKind {
    /// The condition of an `if`.
    IfCondition,
    /// The pattern of a `for`.
    ForPattern,
    /// The iterator of a `for`.
    ForIterator,
}

/// A run of tokens of a control-flow block that must parse as an
/// expression (or, for a `for` pattern, as a pattern).
#[derive(Debug)]
pub struct Piece {
    pub kind: PieceKind,
    /// The ids of its tokens, in order.
    pub tokens: Vec<usize>,
    /// The id of the control-flow block it belongs to.
    pub block: usize,
    /// The control-flow blocks whose bodies enclose that block, outermost
    /// first.
    pub enclosing: Vec<usize>,
}

/// A piece as plain values.
pub struct PieceSpec {
    pub kind: PieceKind,
    pub tokens: Seq<usize>,
    pub block: usize,
    pub enclosing: Seq<usize>,
}

/// An element.
#[derive(Debug)]
pub struct ViewNode {
    pub tag: String,
    pub tag_id: usize,
    pub attrs: Vec<ViewAttr>,
    pub children: Vec<ViewChild>,
    /// Written `<Tag ... />`.
    pub self_closing: bool,
}

/// A child of an element or of a control-flow body.
#[derive(Debug)]
pub enum ViewChild {
    Node(ViewNode),
    /// A string literal, or a `{ expr }` inside `Heading`, `Text` or
    /// `Button`: the id of its token and whether it is a literal.
    Text { token: usize, literal: bool },
    /// A `{ expr }` elsewhere: a subtree built at run time.
    NodeExpr { token: usize },
    /// `{if cond { .. } else { .. }}`; an `else if` is the sole else child.
    If { cond: Vec<usize>, then_children: Vec<ViewChild>, else_children: Vec<ViewChild> },
    /// `{for pat in iter { .. }}`.
    For { pat: Vec<usize>, iter: Vec<usize>, body: Vec<ViewChild> },
}

/// An element as plain values.
pub struct NodeSpec {
    pub tag: String,
    pub tag_id: usize,
    pub attrs: Seq<ViewAttr>,
    pub children: Seq<ChildSpec>,
    pub self_closing: bool,
}

/// A child as plain values.
pub enum ChildSpec {
    Node(NodeSpec),
    Text { token: usize, literal: bool },
    NodeExpr { token: usize },
    If { cond: Seq<usize>, then_children: Seq<ChildSpec>, else_children: Seq<ChildSpec> },
    For { pat: Seq<usize>, iter: Seq<usize>, body: Seq<ChildSpec> },
}

/// Why a view is refused. Ids point at the token the complaint is about;
/// `None` means the end of the input.
#[derive(Debug, PartialEq, Eq)]
pub enum ViewError {
    ExpectedTagOpen(Option<usize>),
    UnexpectedEnd,
    ExpectedTagName(usize),
    UnknownTag { id: usize, tag: String },
    ExpectedEq(usize),
    ExpectedAttrValue(usize),
    InvalidAttrValue { id: usize, message: String },
    BadAttrValue(usize),
    ExpectedGt(Option<usize>),
    UnexpectedInTag(usize),
    UnexpectedEndInTag,
    MissingClose { id: usize, tag: String },
    UnexpectedClosingInBlock(usize),
    UnexpectedBrace(usize),
    ExpectedStringLiteral(usize),
    InvalidChildExpr { id: usize, message: String },
    ExpectedChild(usize),
    ExpectedClosing(usize),
    ExpectedClosingName(usize),
    MismatchedClose { id: usize, expected: String },
    ExpectedIfBlock(usize),
    ElseMustBeFollowed(usize),
    ExpectedIn(usize),
    ExpectedForBlock(usize),
    /// A control-flow piece that does not parse; the parser's complaint.
    InvalidPiece { kind: PieceKind, block: usize, message: String },
    /// An error inside the body of the control-flow block `block`.
    InBlock { block: usize, inner: Box<ViewError> },
    TrailingTokens,
    RootNotContainer(usize),
    NotAccepted { id: usize, tag: String, name: String },
    Missing { id: usize, tag: String, name: String },
    NeedsOneText { id: usize, tag: String },
    TextNotNode { id: usize, tag: String },
    InputHasChildren(usize),
    DataGridHasChildren(usize),
}

// ---------------------------------------------------------------------------
// Views
// ---------------------------------------------------------------------------

/// A piece as plain values.
pub open spec fn piece_view(p: Piece) -> PieceSpec {
    PieceSpec { kind: p.kind, tokens: p.tokens@, block: p.block, enclosing: p.enclosing@ }
}

/// Pieces as plain values.
pub open spec fn pieces_view(ps: Seq<Piece>) -> Seq<PieceSpec> {
    ps.map_values(|p: Piece| piece_view(p))
}

/// An element as plain values.
pub open spec fn node_view(n: ViewNode) -> NodeSpec
    decreases n,
{
    NodeSpec {
        tag: n.tag,
        tag_id: n.tag_id,
        attrs: n.attrs@,
        children: children_view(n.children@),
        self_closing: n.self_closing,
    }
}

/// A child as plain values.
pub open spec fn child_view(c: ViewChild) -> ChildSpec
    decreases c,
{
    match c {
        ViewChild::Node(n) => ChildSpec::Node(node_view(n)),
        ViewChild::Text { token, literal } => ChildSpec::Text { token, literal },
        ViewChild::NodeExpr { token } => ChildSpec::NodeExpr { token },
        ViewChild::If { cond, then_children, else_children } => ChildSpec::If {
            cond: cond@,
            then_children: children_view(then_children@),
            else_children: children_view(else_children@),
        },
        ViewChild::For { pat, iter, body } => ChildSpec::For {
            pat: pat@,
            iter: iter@,
            body: children_view(body@),
        },
    }
}

/// Children as plain values.
pub open spec fn children_view(cs: Seq<ViewChild>) -> Seq<ChildSpec>
    decreases cs,
{
    if cs.len() == 0 {
        Seq::empty()
    } else {
        children_view(cs.drop_last()).push(child_view(cs.last()))
    }
}

// ---------------------------------------------------------------------------
// The grammar
// ---------------------------------------------------------------------------

/// The id of a token.
pub open spec fn tok_id(t: ViewToken) -> usize {
    match t {
        ViewToken::Punct { id, .. } => id,
        ViewToken::Ident { id, .. } => id,
        ViewToken::Literal { id, .. } => id,
        ViewToken::Brace { id, .. } => id,
        ViewToken::Group { id } => id,
    }
}

/// The token is the punctuation mark `c`.
pub open spec fn is_punct(t: ViewToken, c: char) -> bool {
    t matches ViewToken::Punct { ch, .. } && ch == c
}

/// The token is the identifier `s`.
pub open spec fn is_ident(t: ViewToken, s: Seq<char>) -> bool {
    t matches ViewToken::Ident { name, .. } && name@ == s
}

/// The token is a `{ ... }` group.
pub open spec fn is_brace(t: ViewToken) -> bool {
    t is Brace
}

/// The ids of a run of tokens.
pub open spec fn ids_of(ts: Seq<ViewToken>) -> Seq<usize> {
    ts.map_values(|t: ViewToken| tok_id(t))
}

/// The index of the first `{ ... }` group at or after `pos`, or the length.
pub open spec fn first_brace(ts: Seq<ViewToken>, pos: int) -> int
    decreases ts.len() - pos,
{
    if pos < 0 || pos >= ts.len() {
        ts.len() as int
    } else if is_brace(ts[pos]) {
        pos
    } else {
        first_brace(ts, pos + 1)
    }
}

/// The index of the first `in` at or after `pos`, or the length.
pub open spec fn first_in(ts: Seq<ViewToken>, pos: int) -> int
    decreases ts.len() - pos,
{
    if pos < 0 || pos >= ts.len() {
        ts.len() as int
    } else if is_ident(ts[pos], "in"@) {
        pos
    } else {
        first_in(ts, pos + 1)
    }
}

/// Whether an element's children are its text (`Heading`, `Text`,
/// `Button`): there a `{ expr }` is text, elsewhere a subtree.
pub open spec fn text_context(tag: Seq<char>) -> bool {
    tag == "Heading"@ || tag == "Text"@ || tag == "Button"@
}

/// Parses an element starting at `pos`: the element and the position after
/// it, and the control-flow pieces met so far.
pub open spec fn p_node(
    ts: Seq<ViewToken>,
    pos: int,
    wraps: Seq<usize>,
    pcs: Seq<PieceSpec>,
) -> (Result<(NodeSpec, int), ViewError>, Seq<PieceSpec>)
    decreases ts, ts.len() - pos, 1int,
{
    if pos < 0 || pos >= ts.len() {
        (Err(ViewError::ExpectedTagOpen(None)), pcs)
    } else if !is_punct(ts[pos], '<') {
        (Err(ViewError::ExpectedTagOpen(Some(tok_id(ts[pos])))), pcs)
    } else if pos + 1 >= ts.len() {
        (Err(ViewError::UnexpectedEnd), pcs)
    } else {
        match ts[pos + 1] {
            ViewToken::Ident { id, name } => if !is_view_tag(name@) {
                (Err(ViewError::UnknownTag { id, tag: name }), pcs)
            } else {
                p_tag_rest(ts, pos + 2, name, id, Seq::empty(), wraps, pcs)
            },
            t => (Err(ViewError::ExpectedTagName(tok_id(t))), pcs),
        }
    }
}

/// Parses the attributes of an opening tag from `pos`, then its end
/// (`/>`, or `>` and the children up to the closing tag).
pub open spec fn p_tag_rest(
    ts: Seq<ViewToken>,
    pos: int,
    tag: String,
    tag_id: usize,
    attrs: Seq<ViewAttr>,
    wraps: Seq<usize>,
    pcs: Seq<PieceSpec>,
) -> (Result<(NodeSpec, int), ViewError>, Seq<PieceSpec>)
    decreases ts, ts.len() - pos, 0int,
{
    if pos < 0 || pos >= ts.len() {
        (Err(ViewError::UnexpectedEndInTag), pcs)
    } else if is_punct(ts[pos], '/') {
        if pos + 1 >= ts.len() {
            (Err(ViewError::ExpectedGt(None)), pcs)
        } else if !is_punct(ts[pos + 1], '>') {
            (Err(ViewError::ExpectedGt(Some(tok_id(ts[pos + 1])))), pcs)
        } else {
            (
                Ok(
                    (
                        NodeSpec { tag, tag_id, attrs, children: Seq::empty(), self_closing: true },
                        pos + 2,
                    ),
                ),
                pcs,
            )
        }
    } else if is_punct(ts[pos], '>') {
        let (r, pcs2) = p_children(
            ts,
            pos + 1,
            Some((tag, tag_id)),
            text_context(tag@),
            Seq::empty(),
            wraps,
            pcs,
        );
        match r {
            Ok((cs, p2)) => (
                Ok(
                    (NodeSpec { tag, tag_id, attrs, children: cs, self_closing: false }, p2),
                ),
                pcs2,
            ),
            Err(e) => (Err(e), pcs2),
        }
    } else {
        match ts[pos] {
            ViewToken::Ident { id: nid, name } => if pos + 1 >= ts.len() {
                (Err(ViewError::ExpectedEq(nid)), pcs)
            } else if !is_punct(ts[pos + 1], '=') {
                (Err(ViewError::ExpectedEq(tok_id(ts[pos + 1]))), pcs)
            } else if pos + 2 >= ts.len() {
                (Err(ViewError::ExpectedAttrValue(nid)), pcs)
            } else {
                match ts[pos + 2] {
                    ViewToken::Brace { id, expr, .. } => match expr {
                        BraceExpr::Invalid(m) => (
                            Err(ViewError::InvalidAttrValue { id, message: m }),
                            pcs,
                        ),
                        BraceExpr::Literal => p_tag_rest(
                            ts,
                            pos + 3,
                            tag,
                            tag_id,
                            attrs.push(ViewAttr { name, name_id: nid, value: id, literal: true }),
                            wraps,
                            pcs,
                        ),
                        BraceExpr::Other => p_tag_rest(
                            ts,
                            pos + 3,
                            tag,
                            tag_id,
                            attrs.push(ViewAttr { name, name_id: nid, value: id, literal: false }),
                            wraps,
                            pcs,
                        ),
                    },
                    ViewToken::Literal { id, .. } => p_tag_rest(
                        ts,
                        pos + 3,
                        tag,
                        tag_id,
                        attrs.push(ViewAttr { name, name_id: nid, value: id, literal: true }),
                        wraps,
                        pcs,
                    ),
                    t => (Err(ViewError::BadAttrValue(tok_id(t))), pcs),
                }
            },
            t => (Err(ViewError::UnexpectedInTag(tok_id(t))), pcs),
        }
    }
}

/// Parses a closing tag `</name>` at `pos` (whose first two tokens are
/// known to be `<` and `/`): the position after it.
pub open spec fn p_closing(ts: Seq<ViewToken>, pos: int, tag: String, tag_id: usize) -> Result<int, ViewError> {
    if pos + 2 >= ts.len() {
        Err(ViewError::ExpectedClosing(tag_id))
    } else {
        match ts[pos + 2] {
            ViewToken::Ident { id, name } => if name@ != tag@ {
                Err(ViewError::MismatchedClose { id, expected: tag })
            } else if pos + 3 >= ts.len() {
                Err(ViewError::ExpectedGt(None))
            } else if !is_punct(ts[pos + 3], '>') {
                Err(ViewError::ExpectedGt(Some(tok_id(ts[pos + 3]))))
            } else {
                Ok(pos + 4)
            },
            t => Err(ViewError::ExpectedClosingName(tok_id(t))),
        }
    }
}

/// Parses children from `pos` after those already in `acc`: up to the
/// closing tag of `close`, or, in a control-flow body (`close` is none), to
/// the end of the body.
pub open spec fn p_children(
    ts: Seq<ViewToken>,
    pos: int,
    close: Option<(String, usize)>,
    text_ctx: bool,
    acc: Seq<ChildSpec>,
    wraps: Seq<usize>,
    pcs: Seq<PieceSpec>,
) -> (Result<(Seq<ChildSpec>, int), ViewError>, Seq<PieceSpec>)
    decreases ts, ts.len() - pos, 2int,
{
    if pos < 0 || pos >= ts.len() {
        match close {
            Some((t, tid)) => (Err(ViewError::MissingClose { id: tid, tag: t }), pcs),
            None => (Ok((acc, pos)), pcs),
        }
    } else if is_punct(ts[pos], '<') {
        if pos + 1 < ts.len() && is_punct(ts[pos + 1], '/') {
            match close {
                Some((t, tid)) => match p_closing(ts, pos, t, tid) {
                    Ok(p2) => (Ok((acc, p2)), pcs),
                    Err(e) => (Err(e), pcs),
                },
                None => (Err(ViewError::UnexpectedClosingInBlock(tok_id(ts[pos]))), pcs),
            }
        } else {
            let (r, pcs2) = p_node(ts, pos, wraps, pcs);
            match r {
                Ok((n, p2)) => if pos < p2 <= ts.len() {
                    p_children(ts, p2, close, text_ctx, acc.push(ChildSpec::Node(n)), wraps, pcs2)
                } else {
                    (Err(ViewError::UnexpectedEnd), pcs2)
                },
                Err(e) => (Err(e), pcs2),
            }
        }
    } else if is_punct(ts[pos], '}') {
        match close {
            None => (Ok((acc, pos + 1)), pcs),
            Some(_) => (Err(ViewError::UnexpectedBrace(tok_id(ts[pos]))), pcs),
        }
    } else {
        match ts[pos] {
            ViewToken::Literal { id, string } => if !string {
                (Err(ViewError::ExpectedStringLiteral(id)), pcs)
            } else {
                p_children(
                    ts,
                    pos + 1,
                    close,
                    text_ctx,
                    acc.push(ChildSpec::Text { token: id, literal: true }),
                    wraps,
                    pcs,
                )
            },
            ViewToken::Brace { id, inner, expr } => {
                if inner@.len() > 0 && (is_ident(inner@[0], "if"@) || is_ident(inner@[0], "for"@)) {
                    let (r, pcs2) = p_control(inner@, 0, is_ident(inner@[0], "for"@), id, wraps, pcs);
                    match r {
                        Ok(c) => p_children(ts, pos + 1, close, text_ctx, acc.push(c), wraps, pcs2),
                        Err(e) => (Err(e), pcs2),
                    }
                } else {
                    match expr {
                        BraceExpr::Invalid(m) => (
                            Err(ViewError::InvalidChildExpr { id, message: m }),
                            pcs,
                        ),
                        BraceExpr::Literal => p_children(
                            ts,
                            pos + 1,
                            close,
                            text_ctx,
                            acc.push(
                                if text_ctx {
                                    ChildSpec::Text { token: id, literal: true }
                                } else {
                                    ChildSpec::NodeExpr { token: id }
                                },
                            ),
                            wraps,
                            pcs,
                        ),
                        BraceExpr::Other => p_children(
                            ts,
                            pos + 1,
                            close,
                            text_ctx,
                            acc.push(
                                if text_ctx {
                                    ChildSpec::Text { token: id, literal: false }
                                } else {
                                    ChildSpec::NodeExpr { token: id }
                                },
                            ),
                            wraps,
                            pcs,
                        ),
                    }
                }
            },
            t => (Err(ViewError::ExpectedChild(tok_id(t))), pcs),
        }
    }
}

/// The tokens inside a `{ ... }` group (none for any other token).
pub open spec fn brace_inner(t: ViewToken) -> Seq<ViewToken> {
    match t {
        ViewToken::Brace { inner, .. } => inner@,
        _ => Seq::empty(),
    }
}

/// Parses the body of a control-flow block: its children, with an error
/// inside it reported as inside the block.
pub open spec fn p_body(
    body: Seq<ViewToken>,
    block: usize,
    wraps: Seq<usize>,
    pcs: Seq<PieceSpec>,
) -> (Result<Seq<ChildSpec>, ViewError>, Seq<PieceSpec>)
    decreases body, body.len() + 1, 0int,
{
    let (r, pcs2) = p_children(body, 0, None, false, Seq::empty(), wraps.push(block), pcs);
    match r {
        Ok((cs, _)) => (Ok(cs), pcs2),
        Err(e) => (Err(ViewError::InBlock { block, inner: Box::new(e) }), pcs2),
    }
}

/// Parses control flow from the `if` or `for` at `pos` of the tokens of
/// the block `block`. Tokens after the construct are ignored.
pub open spec fn p_control(
    cs: Seq<ViewToken>,
    pos: int,
    is_for: bool,
    block: usize,
    wraps: Seq<usize>,
    pcs: Seq<PieceSpec>,
) -> (Result<ChildSpec, ViewError>, Seq<PieceSpec>)
    decreases cs, cs.len() - pos, 3int,
{
    if pos < 0 || pos >= cs.len() {
        (Err(ViewError::UnexpectedEnd), pcs)
    } else if !is_for {
        let b = first_brace(cs, pos + 1);
        if b < pos + 1 || b >= cs.len() {
            (Err(ViewError::ExpectedIfBlock(block)), pcs)
        } else {
            let cond = ids_of(cs.subrange(pos + 1, b));
            let pcs1 = pcs.push(
                PieceSpec { kind: PieceKind::IfCondition, tokens: cond, block, enclosing: wraps },
            );
            let (r1, pcs2) = match cs[b] {
                ViewToken::Brace { inner, .. } => p_body(inner@, block, wraps, pcs1),
                _ => (Err(ViewError::ExpectedIfBlock(block)), pcs1),
            };
            match r1 {
                Err(e) => (Err(e), pcs2),
                Ok(then_cs) => {
                    let q = b + 1;
                    if q < cs.len() && is_ident(cs[q], "else"@) {
                        if q + 1 < cs.len() && is_ident(cs[q + 1], "if"@) {
                            let (r2, pcs3) = p_control(cs, q + 1, false, block, wraps, pcs2);
                            match r2 {
                                Ok(c) => (
                                    Ok(
                                        ChildSpec::If {
                                            cond,
                                            then_children: then_cs,
                                            else_children: seq![c],
                                        },
                                    ),
                                    pcs3,
                                ),
                                Err(e) => (Err(e), pcs3),
                            }
                        } else if q + 1 < cs.len() && is_brace(cs[q + 1]) {
                            let (r2, pcs3) = match cs[q + 1] {
                                ViewToken::Brace { inner, .. } => p_body(inner@, block, wraps, pcs2),
                                _ => (Err(ViewError::ElseMustBeFollowed(block)), pcs2),
                            };
                            match r2 {
                                Ok(else_cs) => (
                                    Ok(
                                        ChildSpec::If {
                                            cond,
                                            then_children: then_cs,
                                            else_children: else_cs,
                                        },
                                    ),
                                    pcs3,
                                ),
                                Err(e) => (Err(e), pcs3),
                            }
                        } else {
                            (Err(ViewError::ElseMustBeFollowed(block)), pcs2)
                        }
                    } else {
                        (
                            Ok(
                                ChildSpec::If {
                                    cond,
                                    then_children: then_cs,
                                    else_children: Seq::empty(),
                                },
                            ),
                            pcs2,
                        )
                    }
                },
            }
        }
    } else {
        let k = first_in(cs, pos + 1);
        if k < pos + 1 || k >= cs.len() {
            (Err(ViewError::ExpectedIn(block)), pcs)
        } else {
            let pat = ids_of(cs.subrange(pos + 1, k));
            let pcs1 = pcs.push(
                PieceSpec { kind: PieceKind::ForPattern, tokens: pat, block, enclosing: wraps },
            );
            let b = first_brace(cs, k + 1);
            if b < k + 1 || b >= cs.len() {
                (Err(ViewError::ExpectedForBlock(block)), pcs1)
            } else {
                let iter = ids_of(cs.subrange(k + 1, b));
                let pcs2 = pcs1.push(
                    PieceSpec { kind: PieceKind::ForIterator, tokens: iter, block, enclosing: wraps },
                );
                let (r, pcs3) = match cs[b] {
                    ViewToken::Brace { inner, .. } => p_body(inner@, block, wraps, pcs2),
                    _ => (Err(ViewError::ExpectedForBlock(block)), pcs2),
                };
                match r {
                    Ok(body) => (Ok(ChildSpec::For { pat, iter, body }), pcs3),
                    Err(e) => (Err(e), pcs3),
                }
            }
        }
    }
}

// ---------------------------------------------------------------------------
// The parser
// ---------------------------------------------------------------------------

/// An element result as plain values.
pub open spec fn node_result_view(r: Result<(ViewNode, usize), ViewError>) -> Result<(NodeSpec, int), ViewError> {
    match r {
        Ok((n, p)) => Ok((node_view(n), p as int)),
        Err(e) => Err(e),
    }
}

/// A children result as plain values.
pub open spec fn children_result_view(r: Result<(Vec<ViewChild>, usize), ViewError>) -> Result<(Seq<ChildSpec>, int), ViewError> {
    match r {
        Ok((cs, p)) => Ok((children_view(cs@), p as int)),
        Err(e) => Err(e),
    }
}

fn token_id(t: &ViewToken) -> (r: usize)
    ensures
        r == tok_id(*t),
{
    match t {
        ViewToken::Punct { id, .. } => *id,
        ViewToken::Ident { id, .. } => *id,
        ViewToken::Literal { id, .. } => *id,
        ViewToken::Brace { id, .. } => *id,
        ViewToken::Group { id } => *id,
    }
}

fn punct_is(t: &ViewToken, c: char) -> (r: bool)
    ensures
        r == is_punct(*t, c),
{
    match t {
        ViewToken::Punct { ch, .. } => *ch == c,
        _ => false,
    }
}

fn ident_is(t: &ViewToken, s: &str) -> (r: bool)
    ensures
        r == is_ident(*t, s@),
{
    match t {
        ViewToken::Ident { name, .. } => str_eq(name.as_str(), s),
        _ => false,
    }
}

fn copy_ids(v: &Vec<usize>) -> (r: Vec<usize>)
    ensures
        r@ == v@,
{
    let mut r: Vec<usize> = Vec::new();
    let mut i: usize = 0;
    while i < v.len()
        invariant
            i <= v.len(),
            r@ == v@.take(i as int),
        decreases v.len() - i,
    {
        r.push(v[i]);
        assert(r@ =~= v@.take(i + 1));
        i += 1;
    }
    assert(v@.take(v.len() as int) =~= v@);
    r
}

fn ids_between(ts: &Vec<ViewToken>, a: usize, b: usize) -> (r: Vec<usize>)
    requires
        a <= b <= ts@.len(),
    ensures
        r@ == ids_of(ts@.subrange(a as int, b as int)),
{
    let mut r: Vec<usize> = Vec::new();
    let mut i: usize = a;
    while i < b
        invariant
            a <= i <= b <= ts@.len(),
            r@ == ids_of(ts@.subrange(a as int, i as int)),
        decreases b - i,
    {
        r.push(token_id(&ts[i]));
        assert(r@ =~= ids_of(ts@.subrange(a as int, i + 1)));
        i += 1;
    }
    r
}

fn find_brace(ts: &Vec<ViewToken>, start: usize) -> (r: usize)
    requires
        start <= ts@.len(),
    ensures
        r as int == first_brace(ts@, start as int),
{
    let mut i: usize = start;
    while i < ts.len()
        invariant
            start <= i <= ts@.len(),
            first_brace(ts@, start as int) == first_brace(ts@, i as int),
        decreases ts.len() - i,
    {
        if let ViewToken::Brace { .. } = &ts[i] {
            return i;
        }
        i += 1;
    }
    i
}

fn find_in(ts: &Vec<ViewToken>, start: usize) -> (r: usize)
    requires
        start <= ts@.len(),
    ensures
        r as int == first_in(ts@, start as int),
{
    let mut i: usize = start;
    while i < ts.len()
        invariant
            start <= i <= ts@.len(),
            first_in(ts@, start as int) == first_in(ts@, i as int),
        decreases ts.len() - i,
    {
        if ident_is(&ts[i], "in") {
            return i;
        }
        i += 1;
    }
    i
}

fn push_piece(pieces: &mut Vec<Piece>, kind: PieceKind, tokens: Vec<usize>, block: usize, wraps: &Vec<usize>)
    ensures
        pieces_view(final(pieces)@) == pieces_view(old(pieces)@).push(
            PieceSpec { kind, tokens: tokens@, block, enclosing: wraps@ },
        ),
{
    let p = Piece { kind, tokens, block, enclosing: copy_ids(wraps) };
    pieces.push(p);
    assert(pieces_view(pieces@) =~= pieces_view(old(pieces)@).push(
        PieceSpec { kind, tokens: tokens@, block, enclosing: wraps@ },
    ));
}

fn x_node(ts: &Vec<ViewToken>, pos: usize, wraps: &Vec<usize>, pieces: &mut Vec<Piece>) -> (r: Result<(ViewNode, usize), ViewError>)
    ensures
        node_result_view(r) == p_node(ts@, pos as int, wraps@, pieces_view(old(pieces)@)).0,
        pieces_view(final(pieces)@) == p_node(ts@, pos as int, wraps@, pieces_view(old(pieces)@)).1,
    decreases ts@, ts@.len() - pos, 1int,
{
    if pos >= ts.len() {
        return Err(ViewError::ExpectedTagOpen(None));
    }
    if !punct_is(&ts[pos], '<') {
        return Err(ViewError::ExpectedTagOpen(Some(token_id(&ts[pos]))));
    }
    if pos + 1 >= ts.len() {
        return Err(ViewError::UnexpectedEnd);
    }
    match &ts[pos + 1] {
        ViewToken::Ident { id, name } => {
            if !is_tag(name.as_str()) {
                return Err(ViewError::UnknownTag { id: *id, tag: name.clone() });
            }
            x_tag_rest(ts, pos + 2, name.clone(), *id, Vec::new(), wraps, pieces)
        },
        t => Err(ViewError::ExpectedTagName(token_id(t))),
    }
}

fn is_tag(s: &str) -> (r: bool)
    ensures
        r == is_view_tag(s@),
{
    str_eq(s, "Container") || str_eq(s, "Heading") || str_eq(s, "Text") || str_eq(s, "Button")
        || str_eq(s, "Input") || str_eq(s, "List") || str_eq(s, "DataGrid")
}

fn x_tag_rest(
    ts: &Vec<ViewToken>,
    pos: usize,
    tag: String,
    tag_id: usize,
    attrs: Vec<ViewAttr>,
    wraps: &Vec<usize>,
    pieces: &mut Vec<Piece>,
) -> (r: Result<(ViewNode, usize), ViewError>)
    ensures
        node_result_view(r) == p_tag_rest(ts@, pos as int, tag, tag_id, attrs@, wraps@, pieces_view(old(pieces)@)).0,
        pieces_view(final(pieces)@) == p_tag_rest(ts@, pos as int, tag, tag_id, attrs@, wraps@, pieces_view(old(pieces)@)).1,
    decreases ts@, ts@.len() - pos, 0int,
{
    if pos >= ts.len() {
        return Err(ViewError::UnexpectedEndInTag);
    }
    if punct_is(&ts[pos], '/') {
        if pos + 1 >= ts.len() {
            return Err(ViewError::ExpectedGt(None));
        }
        if !punct_is(&ts[pos + 1], '>') {
            return Err(ViewError::ExpectedGt(Some(token_id(&ts[pos + 1]))));
        }
        let n = ViewNode { tag, tag_id, attrs, children: Vec::new(), self_closing: true };
        assert(children_view(n.children@) =~= Seq::<ChildSpec>::empty());
        return Ok((n, pos + 2));
    }
    if punct_is(&ts[pos], '>') {
        let text_ctx = str_eq(tag.as_str(), "Heading") || str_eq(tag.as_str(), "Text") || str_eq(
            tag.as_str(),
            "Button",
        );
        assert(children_view(Seq::<ViewChild>::empty()) =~= Seq::<ChildSpec>::empty());
        let r = x_children(ts, pos + 1, Some((tag.clone(), tag_id)), text_ctx, Vec::new(), wraps, pieces);
        return match r {
            Ok((cs, p2)) => Ok(
                (ViewNode { tag, tag_id, attrs, children: cs, self_closing: false }, p2),
            ),
            Err(e) => Err(e),
        };
    }
    match &ts[pos] {
        ViewToken::Ident { id: nid, name } => {
            if pos + 1 >= ts.len() {
                return Err(ViewError::ExpectedEq(*nid));
            }
            if !punct_is(&ts[pos + 1], '=') {
                return Err(ViewError::ExpectedEq(token_id(&ts[pos + 1])));
            }
            if pos + 2 >= ts.len() {
                return Err(ViewError::ExpectedAttrValue(*nid));
            }
            let (value, literal) = match &ts[pos + 2] {
                ViewToken::Brace { id, expr, .. } => match expr {
                    BraceExpr::Invalid(m) => {
                        return Err(ViewError::InvalidAttrValue { id: *id, message: m.clone() });
                    },
                    BraceExpr::Literal => (*id, true),
                    BraceExpr::Other => (*id, false),
                },
                ViewToken::Literal { id, .. } => (*id, true),
                t => {
                    return Err(ViewError::BadAttrValue(token_id(t)));
                },
            };
            let mut attrs = attrs;
            attrs.push(ViewAttr { name: name.clone(), name_id: *nid, value, literal });
            x_tag_rest(ts, pos + 3, tag, tag_id, attrs, wraps, pieces)
        },
        t => Err(ViewError::UnexpectedInTag(token_id(t))),
    }
}

fn x_closing(ts: &Vec<ViewToken>, pos: usize, tag: &String, tag_id: usize) -> (r: Result<usize, ViewError>)
    ensures
        match r {
            Ok(p) => p_closing(ts@, pos as int, *tag, tag_id) == Ok::<int, ViewError>(p as int),
            Err(e) => p_closing(ts@, pos as int, *tag, tag_id) == Err::<int, ViewError>(e),
        },
{
    if pos >= ts.len() || ts.len() - pos <= 2 {
        return Err(ViewError::ExpectedClosing(tag_id));
    }
    match &ts[pos + 2] {
        ViewToken::Ident { id, name } => {
            if !str_eq(name.as_str(), tag.as_str()) {
                return Err(ViewError::MismatchedClose { id: *id, expected: tag.clone() });
            }
            if pos + 3 >= ts.len() {
                return Err(ViewError::ExpectedGt(None));
            }
            if !punct_is(&ts[pos + 3], '>') {
                return Err(ViewError::ExpectedGt(Some(token_id(&ts[pos + 3]))));
            }
            Ok(pos + 4)
        },
        t => Err(ViewError::ExpectedClosingName(token_id(t))),
    }
}

proof fn lemma_children_push(acc: Seq<ViewChild>, c: ViewChild)
    ensures
        children_view(acc.push(c)) == children_view(acc).push(child_view(c)),
{
    assert(acc.push(c).drop_last() =~= acc);
}

fn x_children(
    ts: &Vec<ViewToken>,
    pos: usize,
    close: Option<(String, usize)>,
    text_ctx: bool,
    acc: Vec<ViewChild>,
    wraps: &Vec<usize>,
    pieces: &mut Vec<Piece>,
) -> (r: Result<(Vec<ViewChild>, usize), ViewError>)
    ensures
        children_result_view(r) == p_children(ts@, pos as int, close, text_ctx, children_view(acc@), wraps@, pieces_view(old(pieces)@)).0,
        pieces_view(final(pieces)@) == p_children(ts@, pos as int, close, text_ctx, children_view(acc@), wraps@, pieces_view(old(pieces)@)).1,
    decreases ts@, ts@.len() - pos, 2int,
{
    if pos >= ts.len() {
        return match close {
            Some((t, tid)) => Err(ViewError::MissingClose { id: tid, tag: t }),
            None => Ok((acc, pos)),
        };
    }
    if punct_is(&ts[pos], '<') {
        if pos + 1 < ts.len() && punct_is(&ts[pos + 1], '/') {
            return match close {
                Some((t, tid)) => match x_closing(ts, pos, &t, tid) {
                    Ok(p2) => Ok((acc, p2)),
                    Err(e) => Err(e),
                },
                None => Err(ViewError::UnexpectedClosingInBlock(token_id(&ts[pos]))),
            };
        }
        let r = x_node(ts, pos, wraps, pieces);
        return match r {
            Ok((n, p2)) => {
                if pos < p2 && p2 <= ts.len() {
                    let ghost c = ViewChild::Node(n);
                    let mut acc = acc;
                    proof {
                        lemma_children_push(acc@, c);
                    }
                    acc.push(ViewChild::Node(n));
                    x_children(ts, p2, close, text_ctx, acc, wraps, pieces)
                } else {
                    Err(ViewError::UnexpectedEnd)
                }
            },
            Err(e) => Err(e),
        };
    }
    if punct_is(&ts[pos], '}') {
        return match close {
            None => Ok((acc, pos + 1)),
            Some(_) => Err(ViewError::UnexpectedBrace(token_id(&ts[pos]))),
        };
    }
    match &ts[pos] {
        ViewToken::Literal { id, string } => {
            if !*string {
                return Err(ViewError::ExpectedStringLiteral(*id));
            }
            let c = ViewChild::Text { token: *id, literal: true };
            let mut acc = acc;
            proof {
                lemma_children_push(acc@, c);
            }
            acc.push(c);
            x_children(ts, pos + 1, close, text_ctx, acc, wraps, pieces)
        },
        ViewToken::Brace { id, inner, expr } => {
            if inner.len() > 0 && (ident_is(&inner[0], "if") || ident_is(&inner[0], "for")) {
                assert(decreases_to!(ts@ => ts@[pos as int]));
                let is_for = ident_is(&inner[0], "for");
                let r = x_control(inner, 0, is_for, *id, wraps, pieces);
                return match r {
                    Ok(c) => {
                        let mut acc = acc;
                        proof {
                            lemma_children_push(acc@, c);
                        }
                        acc.push(c);
                        x_children(ts, pos + 1, close, text_ctx, acc, wraps, pieces)
                    },
                    Err(e) => Err(e),
                };
            }
            let literal = match expr {
                BraceExpr::Invalid(m) => {
                    return Err(ViewError::InvalidChildExpr { id: *id, message: m.clone() });
                },
                BraceExpr::Literal => true,
                BraceExpr::Other => false,
            };
            let c = if text_ctx {
                ViewChild::Text { token: *id, literal }
            } else {
                ViewChild::NodeExpr { token: *id }
            };
            let mut acc = acc;
            proof {
                lemma_children_push(acc@, c);
            }
            acc.push(c);
            x_children(ts, pos + 1, close, text_ctx, acc, wraps, pieces)
        },
        t => Err(ViewError::ExpectedChild(token_id(t))),
    }
}

fn x_body(body: &Vec<ViewToken>, block: usize, wraps: &Vec<usize>, pieces: &mut Vec<Piece>) -> (r: Result<Vec<ViewChild>, ViewError>)
    ensures
        (match r {
            Ok(cs) => Ok::<Seq<ChildSpec>, ViewError>(children_view(cs@)),
            Err(e) => Err(e),
        }) == p_body(body@, block, wraps@, pieces_view(old(pieces)@)).0,
        pieces_view(final(pieces)@) == p_body(body@, block, wraps@, pieces_view(old(pieces)@)).1,
    decreases body@, body@.len() + 1, 0int,
{
    let mut inner_wraps = copy_ids(wraps);
    inner_wraps.push(block);
    assert(children_view(Seq::<ViewChild>::empty()) =~= Seq::<ChildSpec>::empty());
    match x_children(body, 0, None, false, Vec::new(), &inner_wraps, pieces) {
        Ok((cs, _)) => Ok(cs),
        Err(e) => Err(ViewError::InBlock { block, inner: Box::new(e) }),
    }
}

fn x_control(
    cs: &Vec<ViewToken>,
    pos: usize,
    is_for: bool,
    block: usize,
    wraps: &Vec<usize>,
    pieces: &mut Vec<Piece>,
) -> (r: Result<ViewChild, ViewError>)
    ensures
        (match r {
            Ok(c) => Ok::<ChildSpec, ViewError>(child_view(c)),
            Err(e) => Err(e),
        }) == p_control(cs@, pos as int, is_for, block, wraps@, pieces_view(old(pieces)@)).0,
        pieces_view(final(pieces)@) == p_control(cs@, pos as int, is_for, block, wraps@, pieces_view(old(pieces)@)).1,
    decreases cs@, cs@.len() - pos, 3int,
{
    if pos >= cs.len() {
        return Err(ViewError::UnexpectedEnd);
    }
    if !is_for {
        let b = find_brace(cs, pos + 1);
        if b < pos + 1 || b >= cs.len() {
            return Err(ViewError::ExpectedIfBlock(block));
        }
        let cond = ids_between(cs, pos + 1, b);
        let cond_copy = copy_ids(&cond);
        push_piece(pieces, PieceKind::IfCondition, cond_copy, block, wraps);
        let then_cs = match &cs[b] {
            ViewToken::Brace { inner, .. } => {
                assert(decreases_to!(cs@ => cs@[b as int]));
                match x_body(inner, block, wraps, pieces) {
                    Ok(v) => v,
                    Err(e) => {
                        return Err(e);
                    },
                }
            },
            _ => {
                return Err(ViewError::ExpectedIfBlock(block));
            },
        };
        let q = b + 1;
        if q < cs.len() && ident_is(&cs[q], "else") {
            if q + 1 < cs.len() && ident_is(&cs[q + 1], "if") {
                return match x_control(cs, q + 1, false, block, wraps, pieces) {
                    Ok(c) => {
                        let mut else_cs: Vec<ViewChild> = Vec::new();
                        let ghost c0 = c;
                        else_cs.push(c);
                        proof {
                            lemma_children_push(Seq::<ViewChild>::empty(), c0);
                            assert(Seq::<ViewChild>::empty().push(c0) =~= else_cs@);
                            assert(children_view(Seq::<ViewChild>::empty()) =~= Seq::<ChildSpec>::empty());
                            assert(children_view(else_cs@) =~= seq![child_view(c0)]);
                        }
                        Ok(ViewChild::If { cond, then_children: then_cs, else_children: else_cs })
                    },
                    Err(e) => Err(e),
                };
            }
            if q + 1 < cs.len() {
                if let ViewToken::Brace { inner, .. } = &cs[q + 1] {
                    assert(decreases_to!(cs@ => cs@[q + 1]));
                    return match x_body(inner, block, wraps, pieces) {
                        Ok(else_cs) => Ok(ViewChild::If { cond, then_children: then_cs, else_children: else_cs }),
                        Err(e) => Err(e),
                    };
                }
            }
            return Err(ViewError::ElseMustBeFollowed(block));
        }
        let else_cs: Vec<ViewChild> = Vec::new();
        assert(children_view(else_cs@) =~= Seq::<ChildSpec>::empty());
        Ok(ViewChild::If { cond, then_children: then_cs, else_children: else_cs })
    } else {
        let k = find_in(cs, pos + 1);
        if k < pos + 1 || k >= cs.len() {
            return Err(ViewError::ExpectedIn(block));
        }
        let pat = ids_between(cs, pos + 1, k);
        push_piece(pieces, PieceKind::ForPattern, copy_ids(&pat), block, wraps);
        let b = find_brace(cs, k + 1);
        if b < k + 1 || b >= cs.len() {
            return Err(ViewError::ExpectedForBlock(block));
        }
        let iter = ids_between(cs, k + 1, b);
        push_piece(pieces, PieceKind::ForIterator, copy_ids(&iter), block, wraps);
        match &cs[b] {
            ViewToken::Brace { inner, .. } => {
                assert(decreases_to!(cs@ => cs@[b as int]));
                match x_body(inner, block, wraps, pieces) {
                    Ok(body) => Ok(ViewChild::For { pat, iter, body }),
                    Err(e) => Err(e),
                }
            },
            _ => Err(ViewError::ExpectedForBlock(block)),
        }
    }
}

// ---------------------------------------------------------------------------
// Checks before code generation
// ---------------------------------------------------------------------------

/// A failed check, as plain values.
pub enum Failure {
    NotAccepted { id: usize, tag: String, name: String },
    Missing { id: usize, tag: String, name: Seq<char> },
    NeedsOneText { id: usize, tag: String },
    TextNotNode { id: usize, tag: String },
    InputHasChildren(usize),
    DataGridHasChildren(usize),
}

/// `e` reports the failed check `f`.
pub open spec fn reports(e: ViewError, f: Failure) -> bool {
    match f {
        Failure::NotAccepted { id, tag, name } => e == ViewError::NotAccepted { id, tag, name },
        Failure::Missing { id, tag, name } => e matches ViewError::Missing { id: i, tag: t, name: n }
            && i == id && t == tag && n@ == name,
        Failure::NeedsOneText { id, tag } => e == ViewError::NeedsOneText { id, tag },
        Failure::TextNotNode { id, tag } => e == ViewError::TextNotNode { id, tag },
        Failure::InputHasChildren(id) => e == ViewError::InputHasChildren(id),
        Failure::DataGridHasChildren(id) => e == ViewError::DataGridHasChildren(id),
    }
}

/// The first attribute, in the order written, whose name is not in
/// `allowed`.
pub open spec fn first_unaccepted(attrs: Seq<ViewAttr>, allowed: Seq<Seq<char>>) -> Option<ViewAttr>
    decreases attrs.len(),
{
    if attrs.len() == 0 {
        None
    } else if !allowed.contains(attrs[0].name@) {
        Some(attrs[0])
    } else {
        first_unaccepted(attrs.skip(1), allowed)
    }
}

/// The names of the attributes.
pub open spec fn attr_names(attrs: Seq<ViewAttr>) -> Seq<Seq<char>> {
    attrs.map_values(|a: ViewAttr| a.name@)
}

/// The first required attribute, in the tag's order, that `names` lacks.
pub open spec fn first_absent(req: Seq<Seq<char>>, names: Seq<Seq<char>>) -> Option<Seq<char>>
    decreases req.len(),
{
    if req.len() == 0 {
        None
    } else if !names.contains(req[0]) {
        Some(req[0])
    } else {
        first_absent(req.skip(1), names)
    }
}

/// The first failed check of an element and its subtree, in document
/// order: its attributes (unaccepted ones first, then missing ones), then
/// its children's shape (`Heading`, `Text` and `Button` need exactly one
/// text child; `Input` and `DataGrid` take none), then its descendants.
pub open spec fn node_failure(n: NodeSpec) -> Option<Failure>
    decreases n,
{
    match first_unaccepted(n.attrs, allowed_attrs(n.tag@)) {
        Some(a) => Some(Failure::NotAccepted { id: a.name_id, tag: n.tag, name: a.name }),
        None => match first_absent(required_attrs(n.tag@), attr_names(n.attrs)) {
            Some(m) => Some(Failure::Missing { id: n.tag_id, tag: n.tag, name: m }),
            None => if text_context(n.tag@) {
                if n.self_closing || n.children.len() != 1 {
                    Some(Failure::NeedsOneText { id: n.tag_id, tag: n.tag })
                } else if !(n.children[0] is Text) {
                    Some(Failure::TextNotNode { id: n.tag_id, tag: n.tag })
                } else {
                    None
                }
            } else if n.tag@ == "Input"@ {
                if n.children.len() > 0 {
                    Some(Failure::InputHasChildren(n.tag_id))
                } else {
                    None
                }
            } else if n.tag@ == "DataGrid"@ {
                if n.children.len() > 0 {
                    Some(Failure::DataGridHasChildren(n.tag_id))
                } else {
                    None
                }
            } else {
                children_failure(n.children)
            },
        },
    }
}

/// The first failed check among children, in order.
pub open spec fn children_failure(cs: Seq<ChildSpec>) -> Option<Failure>
    decreases cs,
{
    if cs.len() == 0 {
        None
    } else {
        match children_failure(cs.drop_last()) {
            Some(f) => Some(f),
            None => child_failure(cs.last()),
        }
    }
}

/// The first failed check of a child: an element's own, or those of the
/// bodies of control flow (the `then` body before the `else` body).
pub open spec fn child_failure(c: ChildSpec) -> Option<Failure>
    decreases c,
{
    match c {
        ChildSpec::Node(n) => node_failure(n),
        ChildSpec::If { then_children, else_children, .. } => match children_failure(then_children) {
            Some(f) => Some(f),
            None => children_failure(else_children),
        },
        ChildSpec::For { body, .. } => children_failure(body),
        _ => None,
    }
}

fn first_unaccepted_attr(attrs: &Vec<ViewAttr>, allowed: &Vec<&'static str>) -> (r: Option<usize>)
    ensures
        match r {
            Some(i) => i < attrs@.len() && first_unaccepted(attrs@, names_of_static(allowed@)) == Some(attrs@[i as int]),
            None => first_unaccepted(attrs@, names_of_static(allowed@)) is None,
        },
{
    let mut i: usize = 0;
    assert(attrs@.skip(0) =~= attrs@);
    while i < attrs.len()
        invariant
            i <= attrs@.len(),
            first_unaccepted(attrs@, names_of_static(allowed@)) == first_unaccepted(attrs@.skip(i as int), names_of_static(allowed@)),
        decreases attrs.len() - i,
    {
        let ghost rest = attrs@.skip(i as int);
        assert(rest[0] == attrs@[i as int]);
        if !static_contains(allowed, attrs[i].name.as_str()) {
            return Some(i);
        }
        assert(rest.skip(1) =~= attrs@.skip(i + 1));
        i += 1;
    }
    None
}

/// The characters of each name.
pub open spec fn names_of_static(v: Seq<&'static str>) -> Seq<Seq<char>> {
    v.map_values(|s: &'static str| s@)
}

fn static_contains(set: &Vec<&'static str>, name: &str) -> (r: bool)
    ensures
        r == names_of_static(set@).contains(name@),
{
    let mut i: usize = 0;
    while i < set.len()
        invariant
            i <= set.len(),
            forall|k: int| 0 <= k < i ==> set@[k]@ != name@,
        decreases set.len() - i,
    {
        if str_eq(set[i], name) {
            assert(names_of_static(set@)[i as int] == name@);
            return true;
        }
        i += 1;
    }
    proof {
        if names_of_static(set@).contains(name@) {
            let k = choose|k: int| 0 <= k < names_of_static(set@).len() && names_of_static(set@)[k] == name@;
            assert(set@[k]@ == name@);
        }
    }
    false
}

fn attrs_contain(attrs: &Vec<ViewAttr>, name: &str) -> (r: bool)
    ensures
        r == attr_names(attrs@).contains(name@),
{
    let mut i: usize = 0;
    while i < attrs.len()
        invariant
            i <= attrs.len(),
            forall|k: int| 0 <= k < i ==> attrs@[k].name@ != name@,
        decreases attrs.len() - i,
    {
        if str_eq(attrs[i].name.as_str(), name) {
            assert(attr_names(attrs@)[i as int] == name@);
            return true;
        }
        i += 1;
    }
    proof {
        if attr_names(attrs@).contains(name@) {
            let k = choose|k: int| 0 <= k < attr_names(attrs@).len() && attr_names(attrs@)[k] == name@;
            assert(attrs@[k].name@ == name@);
        }
    }
    false
}

fn first_absent_attr(req: &Vec<&'static str>, attrs: &Vec<ViewAttr>) -> (r: Option<&'static str>)
    ensures
        match r {
            Some(m) => first_absent(names_of_static(req@), attr_names(attrs@)) == Some(m@),
            None => first_absent(names_of_static(req@), attr_names(attrs@)) is None,
        },
{
    let mut j: usize = 0;
    assert(names_of_static(req@).skip(0) =~= names_of_static(req@));
    while j < req.len()
        invariant
            j <= req@.len(),
            first_absent(names_of_static(req@), attr_names(attrs@)) == first_absent(
                names_of_static(req@).skip(j as int),
                attr_names(attrs@),
            ),
        decreases req.len() - j,
    {
        let ghost rest = names_of_static(req@).skip(j as int);
        assert(rest[0] == req@[j as int]@);
        if !attrs_contain(attrs, req[j]) {
            return Some(req[j]);
        }
        assert(rest.skip(1) =~= names_of_static(req@).skip(j + 1));
        j += 1;
    }
    assert(names_of_static(req@).skip(req.len() as int) =~= Seq::<Seq<char>>::empty());
    None
}

/// The result of a check: nothing when it passed, else the error that
/// reports it.
pub open spec fn check_matches(r: Result<(), ViewError>, f: Option<Failure>) -> bool {
    match r {
        Ok(()) => f is None,
        Err(e) => f matches Some(x) && reports(e, x),
    }
}

fn x_check_node(n: &ViewNode) -> (r: Result<(), ViewError>)
    ensures
        check_matches(r, node_failure(node_view(*n))),
    decreases *n, 1nat,
{
    let allowed = crate::component::allowed_for(n.tag.as_str());
    assert(names_of_static(allowed@) == crate::component::names_of(allowed@));
    match first_unaccepted_attr(&n.attrs, &allowed) {
        Some(i) => {
            return Err(ViewError::NotAccepted {
                id: n.attrs[i].name_id,
                tag: n.tag.clone(),
                name: n.attrs[i].name.clone(),
            });
        },
        None => {},
    }
    let required = crate::component::required_for(n.tag.as_str());
    assert(names_of_static(required@) == crate::component::names_of(required@));
    match first_absent_attr(&required, &n.attrs) {
        Some(m) => {
            return Err(ViewError::Missing { id: n.tag_id, tag: n.tag.clone(), name: String::from_str(m) });
        },
        None => {},
    }
    let t = n.tag.as_str();
    if str_eq(t, "Heading") || str_eq(t, "Text") || str_eq(t, "Button") {
        if n.self_closing || n.children.len() != 1 {
            return Err(ViewError::NeedsOneText { id: n.tag_id, tag: n.tag.clone() });
        }
        proof {
            lemma_children_view_index(n.children@, 0);
        }
        match &n.children[0] {
            ViewChild::Text { .. } => Ok(()),
            _ => Err(ViewError::TextNotNode { id: n.tag_id, tag: n.tag.clone() }),
        }
    } else if str_eq(t, "Input") {
        proof {
            lemma_children_view_len(n.children@);
        }
        if n.children.len() > 0 {
            Err(ViewError::InputHasChildren(n.tag_id))
        } else {
            Ok(())
        }
    } else if str_eq(t, "DataGrid") {
        proof {
            lemma_children_view_len(n.children@);
        }
        if n.children.len() > 0 {
            Err(ViewError::DataGridHasChildren(n.tag_id))
        } else {
            Ok(())
        }
    } else {
        x_check_children(&n.children)
    }
}

proof fn lemma_children_view_len(cs: Seq<ViewChild>)
    ensures
        children_view(cs).len() == cs.len(),
    decreases cs.len(),
{
    if cs.len() > 0 {
        lemma_children_view_len(cs.drop_last());
    }
}

proof fn lemma_children_view_index(cs: Seq<ViewChild>, i: int)
    requires
        0 <= i < cs.len(),
    ensures
        children_view(cs).len() == cs.len(),
        children_view(cs)[i] == child_view(cs[i]),
    decreases cs.len(),
{
    lemma_children_view_len(cs);
    if i < cs.len() - 1 {
        lemma_children_view_index(cs.drop_last(), i);
    }
}

fn x_check_children(cs: &Vec<ViewChild>) -> (r: Result<(), ViewError>)
    ensures
        check_matches(r, children_failure(children_view(cs@))),
    decreases cs@, 0nat,
{
    let mut i: usize = 0;
    assert(children_view(cs@.take(0)) =~= Seq::<ChildSpec>::empty());
    while i < cs.len()
        invariant
            i <= cs.len(),
            children_failure(children_view(cs@.take(i as int))) is None,
        decreases cs.len() - i,
    {
        assert(decreases_to!(cs@ => cs@[i as int]));
        let r = x_check_child(&cs[i]);
        proof {
            lemma_view_step(cs@, i as int);
            lemma_failure_prefix(cs@, i + 1);
        }
        match r {
            Err(e) => {
                return Err(e);
            },
            Ok(()) => {},
        }
        i += 1;
    }
    assert(cs@.take(cs.len() as int) =~= cs@);
    Ok(())
}

proof fn lemma_view_step(cs: Seq<ViewChild>, n: int)
    requires
        0 <= n < cs.len(),
    ensures
        children_view(cs.take(n + 1)) == children_view(cs.take(n)).push(child_view(cs[n])),
        children_failure(children_view(cs.take(n + 1))) == (match children_failure(
            children_view(cs.take(n)),
        ) {
            Some(f) => Some(f),
            None => child_failure(child_view(cs[n])),
        }),
        children_static(children_view(cs.take(n + 1))) == (children_static(children_view(cs.take(n)))
            && child_static(child_view(cs[n]))),
{
    let t = cs.take(n + 1);
    assert(t.drop_last() =~= cs.take(n));
    assert(t.last() == cs[n]);
    let v = children_view(cs.take(n));
    let w = v.push(child_view(cs[n]));
    assert(w.drop_last() =~= v);
    assert(w.last() == child_view(cs[n]));
}

proof fn lemma_failure_prefix(cs: Seq<ViewChild>, n: int)
    requires
        0 <= n <= cs.len(),
    ensures
        children_failure(children_view(cs.take(n))) is Some ==> children_failure(children_view(cs))
            == children_failure(children_view(cs.take(n))),
    decreases cs.len() - n,
{
    if n < cs.len() {
        lemma_failure_prefix(cs, n + 1);
        lemma_view_step(cs, n);
    } else {
        assert(cs.take(n) =~= cs);
    }
}

fn x_check_child(c: &ViewChild) -> (r: Result<(), ViewError>)
    ensures
        check_matches(r, child_failure(child_view(*c))),
    decreases *c, 2nat,
{
    match c {
        ViewChild::Node(n) => x_check_node(n),
        ViewChild::If { then_children, else_children, .. } => {
            match x_check_children(then_children) {
                Err(e) => Err(e),
                Ok(()) => x_check_children(else_children),
            }
        },
        ViewChild::For { body, .. } => x_check_children(body),
        _ => Ok(()),
    }
}

// ---------------------------------------------------------------------------
// Static subtrees
// ---------------------------------------------------------------------------

/// An element is static when every attribute value is a literal and every
/// child is a literal text or a static element: nothing in it is computed
/// at run time, so it can be built once and reused.
pub open spec fn node_static(n: NodeSpec) -> bool
    decreases n,
{
    &&& forall|i: int| 0 <= i < n.attrs.len() ==> (#[trigger] n.attrs[i]).literal
    &&& children_static(n.children)
}

/// Every child is static.
pub open spec fn children_static(cs: Seq<ChildSpec>) -> bool
    decreases cs,
{
    cs.len() == 0 || (children_static(cs.drop_last()) && child_static(cs.last()))
}

/// A child is static: a literal text, or a static element.
pub open spec fn child_static(c: ChildSpec) -> bool
    decreases c,
{
    match c {
        ChildSpec::Text { literal, .. } => literal,
        ChildSpec::Node(n) => node_static(n),
        _ => false,
    }
}

/// Whether an element is static (see [`node_static`]).
pub fn node_is_static(n: &ViewNode) -> (r: bool)
    ensures
        r == node_static(node_view(*n)),
    decreases *n, 1nat,
{
    let mut i: usize = 0;
    while i < n.attrs.len()
        invariant
            i <= n.attrs@.len(),
            forall|k: int| 0 <= k < i ==> (#[trigger] n.attrs@[k]).literal,
        decreases n.attrs.len() - i,
    {
        if !n.attrs[i].literal {
            assert(node_view(*n).attrs[i as int] == n.attrs@[i as int]);
            return false;
        }
        i += 1;
    }
    children_are_static(&n.children)
}

fn children_are_static(cs: &Vec<ViewChild>) -> (r: bool)
    ensures
        r == children_static(children_view(cs@)),
    decreases cs@, 0nat,
{
    let mut i: usize = 0;
    assert(children_view(cs@.take(0)) =~= Seq::<ChildSpec>::empty());
    while i < cs.len()
        invariant
            i <= cs.len(),
            children_static(children_view(cs@.take(i as int))),
        decreases cs.len() - i,
    {
        assert(decreases_to!(cs@ => cs@[i as int]));
        let ok = match &cs[i] {
            ViewChild::Text { literal, .. } => *literal,
            ViewChild::Node(m) => node_is_static(m),
            _ => false,
        };
        proof {
            lemma_view_step(cs@, i as int);
        }
        if !ok {
            proof {
                lemma_static_prefix(cs@, i + 1);
            }
            return false;
        }
        i += 1;
    }
    assert(cs@.take(cs.len() as int) =~= cs@);
    true
}

proof fn lemma_static_prefix(cs: Seq<ViewChild>, n: int)
    requires
        0 <= n <= cs.len(),
    ensures
        children_static(children_view(cs)) ==> children_static(children_view(cs.take(n))),
    decreases cs.len() - n,
{
    if n < cs.len() {
        lemma_static_prefix(cs, n + 1);
        lemma_view_step(cs, n);
    } else {
        assert(cs.take(n) =~= cs);
    }
}

// ---------------------------------------------------------------------------
// The whole view
// ---------------------------------------------------------------------------

/// The structure of a view's input, before the pieces of its control flow
/// are known to parse: the root element and where it ends (or the first
/// structural error), and the pieces met on the way, in order.
pub struct ViewParse {
    pub result: Result<(ViewNode, usize), ViewError>,
    pub pieces: Vec<Piece>,
}

/// Parses the structure of a view from its tokens.
pub fn parse_view(tokens: &Vec<ViewToken>) -> (r: ViewParse)
    ensures
        node_result_view(r.result) == p_node(tokens@, 0, Seq::empty(), Seq::empty()).0,
        pieces_view(r.pieces@) == p_node(tokens@, 0, Seq::empty(), Seq::empty()).1,
{
    let mut pieces: Vec<Piece> = Vec::new();
    let wraps: Vec<usize> = Vec::new();
    assert(pieces_view(pieces@) =~= Seq::<PieceSpec>::empty());
    let result = x_node(tokens, 0, &wraps, &mut pieces);
    ViewParse { result, pieces }
}

/// `e` as reported from inside the bodies of the control-flow blocks
/// `enclosing` (outermost first).
pub open spec fn wrapped(e: ViewError, enclosing: Seq<usize>) -> ViewError
    decreases enclosing.len(),
{
    if enclosing.len() == 0 {
        e
    } else {
        wrapped(ViewError::InBlock { block: enclosing.last(), inner: Box::new(e) }, enclosing.drop_last())
    }
}

/// The error of the first piece, in order, whose verdict is a complaint.
pub open spec fn first_bad_piece(pcs: Seq<PieceSpec>, verdicts: Seq<Option<String>>) -> Option<ViewError>
    decreases pcs.len(),
{
    if pcs.len() == 0 || verdicts.len() == 0 {
        None
    } else {
        match verdicts[0] {
            Some(m) => Some(
                wrapped(
                    ViewError::InvalidPiece { kind: pcs[0].kind, block: pcs[0].block, message: m },
                    pcs[0].enclosing,
                ),
            ),
            None => first_bad_piece(pcs.skip(1), verdicts.skip(1)),
        }
    }
}

fn wrap(e: ViewError, enclosing: &Vec<usize>) -> (r: ViewError)
    ensures
        r == wrapped(e, enclosing@),
{
    let mut r = e;
    let mut k: usize = enclosing.len();
    assert(enclosing@.take(k as int) =~= enclosing@);
    while k > 0
        invariant
            k <= enclosing@.len(),
            wrapped(e, enclosing@) == wrapped(r, enclosing@.take(k as int)),
        decreases k,
    {
        r = ViewError::InBlock { block: enclosing[k - 1], inner: Box::new(r) };
        assert(enclosing@.take(k as int).drop_last() =~= enclosing@.take(k - 1));
        k -= 1;
    }
    assert(enclosing@.take(0) =~= Seq::<usize>::empty());
    r
}

/// The view a macro input denotes, once each piece of its control flow has
/// its verdict (`None` when it parses, else the complaint), in the order of
/// `parse.pieces`: the first piece that does not parse; else the first
/// structural error; else tokens left after the root, a root other than
/// `Container`, or the first failed check; else the root element.
pub fn settle_view(tokens: &Vec<ViewToken>, parse: ViewParse, verdicts: &Vec<Option<String>>) -> (r: Result<ViewNode, ViewError>)
    requires
        verdicts@.len() == parse.pieces@.len(),
    ensures
        first_bad_piece(pieces_view(parse.pieces@), verdicts@) matches Some(e) ==> r == Err::<ViewNode, ViewError>(e),
        first_bad_piece(pieces_view(parse.pieces@), verdicts@) is None ==> match parse.result {
            Err(e) => r == Err::<ViewNode, ViewError>(e),
            Ok((root, end)) => if end < tokens@.len() {
                r == Err::<ViewNode, ViewError>(ViewError::TrailingTokens)
            } else if root.tag@ != "Container"@ {
                r == Err::<ViewNode, ViewError>(ViewError::RootNotContainer(root.tag_id))
            } else {
                match node_failure(node_view(root)) {
                    Some(f) => r matches Err(e) && reports(e, f),
                    None => r matches Ok(n) && node_view(n) == node_view(root),
                }
            },
        },
{
    let ghost pv = pieces_view(parse.pieces@);
    let mut i: usize = 0;
    assert(pv.skip(0) =~= pv);
    assert(verdicts@.skip(0) =~= verdicts@);
    while i < parse.pieces.len()
        invariant
            i <= parse.pieces@.len(),
            verdicts@.len() == parse.pieces@.len(),
            pv == pieces_view(parse.pieces@),
            first_bad_piece(pv, verdicts@) == first_bad_piece(pv.skip(i as int), verdicts@.skip(i as int)),
        decreases parse.pieces.len() - i,
    {
        let ghost rest = pv.skip(i as int);
        let ghost vrest = verdicts@.skip(i as int);
        assert(rest[0] == piece_view(parse.pieces@[i as int]));
        assert(vrest[0] == verdicts@[i as int]);
        match &verdicts[i] {
            Some(m) => {
                let p = &parse.pieces[i];
                let e = ViewError::InvalidPiece { kind: p.kind, block: p.block, message: m.clone() };
                return Err(wrap(e, &p.enclosing));
            },
            None => {},
        }
        assert(rest.skip(1) =~= pv.skip(i + 1));
        assert(vrest.skip(1) =~= verdicts@.skip(i + 1));
        i += 1;
    }
    assert(pv.skip(i as int).len() == 0);
    match parse.result {
        Err(e) => Err(e),
        Ok((root, end)) => {
            if end < tokens.len() {
                return Err(ViewError::TrailingTokens);
            }
            if !str_eq(root.tag.as_str(), "Container") {
                return Err(ViewError::RootNotContainer(root.tag_id));
            }
            match x_check_node(&root) {
                Ok(()) => Ok(root),
                Err(e) => Err(e),
            }
        },
    }
}

/// The text of a piece's complaint.
pub open spec fn piece_text(kind: PieceKind, message: Seq<char>) -> Seq<char> {
    match kind {
        PieceKind::IfCondition => "invalid `if` condition: "@ + message,
        PieceKind::ForPattern => "invalid `for` pattern: "@ + message,
        PieceKind::ForIterator => "invalid `for` iterator: "@ + message,
    }
}

/// The message a view error is reported with.
pub open spec fn error_text(e: ViewError) -> Seq<char>
    decreases e,
{
    match e {
        ViewError::ExpectedTagOpen(_) => "expected `<Tag ...>`"@,
        ViewError::UnexpectedEnd => "unexpected end of input"@,
        ViewError::ExpectedTagName(_) => "expected tag name"@,
        ViewError::ExpectedEq(_) => "expected `=` after attribute name"@,
        ViewError::ExpectedAttrValue(_) => "expected attribute value"@,
        ViewError::BadAttrValue(_) => "attribute value must be `{ expr }` or a literal (e.g. `level={1u8}` or `class=\"x\"`)"@,
        ViewError::ExpectedGt(_) => "expected `>`"@,
        ViewError::UnexpectedInTag(_) => "unexpected token inside tag"@,
        ViewError::UnexpectedEndInTag => "unexpected end of input in tag"@,
        ViewError::UnexpectedClosingInBlock(_) => "unexpected closing tag inside a control-flow block"@,
        ViewError::UnexpectedBrace(_) => "unexpected `}`"@,
        ViewError::ExpectedStringLiteral(_) => "expected a string literal as text"@,
        ViewError::ExpectedChild(_) => "expected a child node (`<Tag>`), control flow (`{if}`/`{for}`), or text (`\"...\"` / `{ expr }`)"@,
        ViewError::ExpectedClosing(_) => "expected closing tag"@,
        ViewError::ExpectedClosingName(_) => "expected closing tag name"@,
        ViewError::ExpectedIfBlock(_) => "expected `{` block after `if` condition"@,
        ViewError::ElseMustBeFollowed(_) => "`else` must be followed by `{ ... }` or `if ...`"@,
        ViewError::ExpectedIn(_) => "expected `in` in `for` loop"@,
        ViewError::ExpectedForBlock(_) => "expected `{` block after `for` iterator"@,
        ViewError::TrailingTokens => "unexpected tokens after the root node"@,
        ViewError::RootNotContainer(_) => "view! root must be a single `<Container>` element"@,
        ViewError::InputHasChildren(_) => "`<Input>` is self-closing and must not have children"@,
        ViewError::DataGridHasChildren(_) => "`<DataGrid>` is self-closing and must not have children — supply `columns` and `rows` as `{ expr }`s"@,
        ViewError::UnknownTag { tag, .. } => "unknown tag `<"@ + tag@
            + ">`; v1 supports: Container, Heading, Text, Button, Input, List, DataGrid"@,
        ViewError::InvalidAttrValue { message, .. } => message@,
        ViewError::MissingClose { tag, .. } => "missing closing `</"@ + tag@ + ">`"@,
        ViewError::InvalidChildExpr { message, .. } => "invalid expression: "@ + message@,
        ViewError::MismatchedClose { expected, .. } => "mismatched closing tag: expected `</"@
            + expected@ + ">`"@,
        ViewError::InvalidPiece { kind, message, .. } => piece_text(kind, message@),
        ViewError::InBlock { inner, .. } => "in control-flow block: "@ + error_text(*inner),
        ViewError::NotAccepted { tag, name, .. } => "`<"@ + tag@ + ">` does not accept a `"@ + name@
            + "` attribute"@,
        ViewError::Missing { tag, name, .. } => "`<"@ + tag@ + ">` requires a `"@ + name@
            + "` attribute"@,
        ViewError::NeedsOneText { tag, .. } => "`<"@ + tag@
            + ">` must have exactly one text child (a string literal or `{ expr }`)"@,
        ViewError::TextNotNode { tag, .. } => "`<"@ + tag@
            + ">` text must be a string literal or `{ expr }`, not a child node or control flow"@,
    }
}

impl ViewError {
    /// The message this error is reported with.
    pub fn message(&self) -> (r: String)
        ensures
            r@ == error_text(*self),
        decreases *self,
    {
        match self {
            ViewError::ExpectedTagOpen(_) => String::from_str("expected `<Tag ...>`"),
            ViewError::UnexpectedEnd => String::from_str("unexpected end of input"),
            ViewError::ExpectedTagName(_) => String::from_str("expected tag name"),
            ViewError::ExpectedEq(_) => String::from_str("expected `=` after attribute name"),
            ViewError::ExpectedAttrValue(_) => String::from_str("expected attribute value"),
            ViewError::BadAttrValue(_) => String::from_str("attribute value must be `{ expr }` or a literal (e.g. `level={1u8}` or `class=\"x\"`)"),
            ViewError::ExpectedGt(_) => String::from_str("expected `>`"),
            ViewError::UnexpectedInTag(_) => String::from_str("unexpected token inside tag"),
            ViewError::UnexpectedEndInTag => String::from_str("unexpected end of input in tag"),
            ViewError::UnexpectedClosingInBlock(_) => String::from_str("unexpected closing tag inside a control-flow block"),
            ViewError::UnexpectedBrace(_) => String::from_str("unexpected `}`"),
            ViewError::ExpectedStringLiteral(_) => String::from_str("expected a string literal as text"),
            ViewError::ExpectedChild(_) => String::from_str("expected a child node (`<Tag>`), control flow (`{if}`/`{for}`), or text (`\"...\"` / `{ expr }`)"),
            ViewError::ExpectedClosing(_) => String::from_str("expected closing tag"),
            ViewError::ExpectedClosingName(_) => String::from_str("expected closing tag name"),
            ViewError::ExpectedIfBlock(_) => String::from_str("expected `{` block after `if` condition"),
            ViewError::ElseMustBeFollowed(_) => String::from_str("`else` must be followed by `{ ... }` or `if ...`"),
            ViewError::ExpectedIn(_) => String::from_str("expected `in` in `for` loop"),
            ViewError::ExpectedForBlock(_) => String::from_str("expected `{` block after `for` iterator"),
            ViewError::TrailingTokens => String::from_str("unexpected tokens after the root node"),
            ViewError::RootNotContainer(_) => String::from_str("view! root must be a single `<Container>` element"),
            ViewError::InputHasChildren(_) => String::from_str("`<Input>` is self-closing and must not have children"),
            ViewError::DataGridHasChildren(_) => String::from_str("`<DataGrid>` is self-closing and must not have children — supply `columns` and `rows` as `{ expr }`s"),
            ViewError::UnknownTag { tag, .. } => {
                let mut r = String::from_str("unknown tag `<");
                push_str(&mut r, tag.as_str());
                push_str(&mut r, ">`; v1 supports: Container, Heading, Text, Button, Input, List, DataGrid");
                r
            },
            ViewError::InvalidAttrValue { message, .. } => message.clone(),
            ViewError::MissingClose { tag, .. } => {
                let mut r = String::from_str("missing closing `</");
                push_str(&mut r, tag.as_str());
                push_str(&mut r, ">`");
                r
            },
            ViewError::InvalidChildExpr { message, .. } => {
                let mut r = String::from_str("invalid expression: ");
                push_str(&mut r, message.as_str());
                r
            },
            ViewError::MismatchedClose { expected, .. } => {
                let mut r = String::from_str("mismatched closing tag: expected `</");
                push_str(&mut r, expected.as_str());
                push_str(&mut r, ">`");
                r
            },
            ViewError::InvalidPiece { kind, message, .. } => {
                let mut r = match kind {
                    PieceKind::IfCondition => String::from_str("invalid `if` condition: "),
                    PieceKind::ForPattern => String::from_str("invalid `for` pattern: "),
                    PieceKind::ForIterator => String::from_str("invalid `for` iterator: "),
                };
                push_str(&mut r, message.as_str());
                r
            },
            ViewError::InBlock { inner, .. } => {
                let mut r = String::from_str("in control-flow block: ");
                let m = inner.message();
                push_str(&mut r, m.as_str());
                r
            },
            ViewError::NotAccepted { tag, name, .. } => {
                let mut r = String::from_str("`<");
                push_str(&mut r, tag.as_str());
                push_str(&mut r, ">` does not accept a `");
                push_str(&mut r, name.as_str());
                push_str(&mut r, "` attribute");
                r
            },
            ViewError::Missing { tag, name, .. } => {
                let mut r = String::from_str("`<");
                push_str(&mut r, tag.as_str());
                push_str(&mut r, ">` requires a `");
                push_str(&mut r, name.as_str());
                push_str(&mut r, "` attribute");
                r
            },
            ViewError::NeedsOneText { tag, .. } => {
                let mut r = String::from_str("`<");
                push_str(&mut r, tag.as_str());
                push_str(&mut r, ">` must have exactly one text child (a string literal or `{ expr }`)");
                r
            },
            ViewError::TextNotNode { tag, .. } => {
                let mut r = String::from_str("`<");
                push_str(&mut r, tag.as_str());
                push_str(
                    &mut r,
                    ">` text must be a string literal or `{ expr }`, not a child node or control flow",
                );
                r
            },
        }
    }
}

} // verus!
