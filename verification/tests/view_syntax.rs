use appfront::view_syntax::{
    node_is_static, parse_view, settle_view, BraceExpr, PieceKind, ViewChild, ViewError, ViewNode,
    ViewToken,
};

/// A small tokenizer for tests: punctuation, identifiers, string and number
/// literals and `{ ... }` groups, numbered in order.
fn lex(src: &str) -> Vec<ViewToken> {
    let chars: Vec<char> = src.chars().collect();
    let mut pos = 0;
    let mut next_id = 0;
    let toks = lex_until(&chars, &mut pos, &mut next_id, false);
    assert_eq!(pos, chars.len(), "unbalanced braces in test input");
    toks
}

fn lex_until(chars: &[char], pos: &mut usize, next_id: &mut usize, in_brace: bool) -> Vec<ViewToken> {
    let mut out = Vec::new();
    while *pos < chars.len() {
        let c = chars[*pos];
        if c.is_whitespace() {
            *pos += 1;
        } else if c == '}' {
            assert!(in_brace, "stray closing brace");
            *pos += 1;
            return out;
        } else if c == '{' {
            *pos += 1;
            let id = *next_id;
            *next_id += 1;
            let inner = lex_until(chars, pos, next_id, true);
            let expr = if inner.is_empty() {
                BraceExpr::Invalid("unexpected end of input, expected an expression".to_string())
            } else if inner.len() == 1 && matches!(inner[0], ViewToken::Literal { .. }) {
                BraceExpr::Literal
            } else {
                BraceExpr::Other
            };
            out.push(ViewToken::Brace { id, inner, expr });
        } else if c == '"' {
            *pos += 1;
            while chars[*pos] != '"' {
                *pos += 1;
            }
            *pos += 1;
            out.push(ViewToken::Literal { id: *next_id, string: true });
            *next_id += 1;
        } else if c.is_ascii_digit() {
            while *pos < chars.len() && chars[*pos].is_ascii_alphanumeric() {
                *pos += 1;
            }
            out.push(ViewToken::Literal { id: *next_id, string: false });
            *next_id += 1;
        } else if c.is_alphabetic() || c == '_' {
            let start = *pos;
            while *pos < chars.len() && (chars[*pos].is_alphanumeric() || chars[*pos] == '_') {
                *pos += 1;
            }
            let name: String = chars[start..*pos].iter().collect();
            out.push(ViewToken::Ident { id: *next_id, name });
            *next_id += 1;
        } else if c == '(' {
            let mut depth = 0;
            loop {
                if chars[*pos] == '(' {
                    depth += 1;
                }
                if chars[*pos] == ')' {
                    depth -= 1;
                }
                *pos += 1;
                if depth == 0 {
                    break;
                }
            }
            out.push(ViewToken::Group { id: *next_id });
            *next_id += 1;
        } else {
            out.push(ViewToken::Punct { id: *next_id, ch: c });
            *next_id += 1;
            *pos += 1;
        }
    }
    assert!(!in_brace, "missing closing brace in test input");
    out
}

/// Parses and settles a view whose control-flow pieces all parse.
fn view(src: &str) -> Result<ViewNode, ViewError> {
    let toks = lex(src);
    let parse = parse_view(&toks);
    let verdicts = vec![None; parse.pieces.len()];
    settle_view(&toks, parse, &verdicts)
}

fn tags(n: &ViewNode) -> Vec<String> {
    n.children
        .iter()
        .map(|c| match c {
            ViewChild::Node(m) => m.tag.clone(),
            ViewChild::Text { .. } => "text".to_string(),
            ViewChild::NodeExpr { .. } => "expr".to_string(),
            ViewChild::If { .. } => "if".to_string(),
            ViewChild::For { .. } => "for".to_string(),
        })
        .collect()
}

#[test]
fn data_grid_rejects_children() {
    let err = view(
        r#"<Container><DataGrid columns={cols} rows={rows}><Text>"x"</Text></DataGrid></Container>"#,
    )
    .unwrap_err();
    assert_eq!(err, ViewError::DataGridHasChildren(4));
    assert_eq!(
        err.message(),
        "`<DataGrid>` is self-closing and must not have children — supply `columns` and `rows` as `{ expr }`s"
    );
}

#[test]
fn builds_a_container_with_all_node_types() {
    let root = view(
        r#"<Container>
            <Heading level={1u8}>"Counter"</Heading>
            <Text>{ format(3) }</Text>
            <Button on_click={Msg::Increment}>"+1"</Button>
            <Input value={hi} />
            <List class={"todo"}><Text>"first"</Text></List>
            <DataGrid columns={c} rows={r} />
        </Container>"#,
    )
    .unwrap();
    assert_eq!(root.tag, "Container");
    assert_eq!(tags(&root), vec!["Heading", "Text", "Button", "Input", "List", "DataGrid"]);
    match &root.children[1] {
        ViewChild::Node(text) => {
            assert!(matches!(text.children[0], ViewChild::Text { literal: false, .. }));
        }
        _ => panic!("expected a text element"),
    }
    match &root.children[0] {
        ViewChild::Node(h) => {
            assert_eq!(h.attrs.len(), 1);
            assert_eq!(h.attrs[0].name, "level");
            assert!(h.attrs[0].literal);
        }
        _ => panic!("expected a heading"),
    }
    match &root.children[3] {
        ViewChild::Node(input) => assert!(input.self_closing),
        _ => panic!("expected an input"),
    }
}

#[test]
fn interpolation_outside_text_is_a_subtree() {
    let root = view(r#"<Container>{ compose(1) }<Text>{ name }</Text></Container>"#).unwrap();
    assert_eq!(tags(&root), vec!["expr", "Text"]);
}

#[test]
fn if_else_and_else_if_chains() {
    let root = view(
        r#"<Container>
            {if n == 1 { <Text>"one"</Text> } else if n == 2 { <Text>"two"</Text> } else { <Text>"many"</Text> }}
            {if show { <Text>"yes"</Text> }}
        </Container>"#,
    )
    .unwrap();
    assert_eq!(tags(&root), vec!["if", "if"]);
    match &root.children[0] {
        ViewChild::If { cond, then_children, else_children } => {
            assert_eq!(cond.len(), 4);
            assert_eq!(then_children.len(), 1);
            assert_eq!(else_children.len(), 1);
            match &else_children[0] {
                ViewChild::If { else_children: last, .. } => assert_eq!(last.len(), 1),
                _ => panic!("else if must nest an if"),
            }
        }
        _ => panic!("expected an if"),
    }
    match &root.children[1] {
        ViewChild::If { else_children, .. } => assert!(else_children.is_empty()),
        _ => panic!("expected an if"),
    }
}

#[test]
fn for_loops_record_pattern_and_iterator_pieces() {
    let toks = lex(r#"<Container><List>{for item in items { <Text>{ item }</Text> }}</List></Container>"#);
    let parse = parse_view(&toks);
    let kinds: Vec<PieceKind> = parse.pieces.iter().map(|p| p.kind).collect();
    assert_eq!(kinds, vec![PieceKind::ForPattern, PieceKind::ForIterator]);
    assert_eq!(parse.pieces[0].tokens.len(), 1);
    assert_eq!(parse.pieces[1].tokens.len(), 1);
    assert!(parse.pieces[0].enclosing.is_empty());
    let root = settle_view(&toks, parse, &vec![None, None]).unwrap();
    match &root.children[0] {
        ViewChild::Node(list) => match &list.children[0] {
            ViewChild::For { pat, iter, body } => {
                assert_eq!((pat.len(), iter.len(), body.len()), (1, 1, 1));
            }
            _ => panic!("expected a for loop"),
        },
        _ => panic!("expected a list"),
    }
}

#[test]
fn a_bad_piece_is_reported_first_and_inside_its_blocks() {
    let toks = lex(r#"<Container>{if a { {if b { <Text>"x"</Text> }} }} <Bogus/></Container>"#);
    let parse = parse_view(&toks);
    assert!(parse.result.is_err(), "the unknown tag is a structural error");
    assert_eq!(parse.pieces.len(), 2);
    assert_eq!(parse.pieces[1].enclosing.len(), 1);
    let verdicts = vec![None, Some("expected an expression".to_string())];
    let err = settle_view(&toks, parse, &verdicts).unwrap_err();
    assert_eq!(
        err.message(),
        "in control-flow block: invalid `if` condition: expected an expression"
    );
    assert!(matches!(err, ViewError::InBlock { .. }));
}

#[test]
fn structural_errors() {
    assert_eq!(view(r#"<Container><Bogus/></Container>"#).unwrap_err().message(),
        "unknown tag `<Bogus>`; v1 supports: Container, Heading, Text, Button, Input, List, DataGrid");
    assert_eq!(view(r#"<Container><Text>"x"</Heading></Container>"#).unwrap_err().message(),
        "mismatched closing tag: expected `</Text>`");
    assert_eq!(view(r#"<Container><Text>"x""#).unwrap_err().message(), "missing closing `</Text>`");
    assert_eq!(view(r#"<Container></Container><Text/>"#).unwrap_err(), ViewError::TrailingTokens);
    assert_eq!(view(r#"<Text>"x"</Text>"#).unwrap_err(), ViewError::RootNotContainer(1));
    assert_eq!(view(r#"<Container><Text>3</Text></Container>"#).unwrap_err().message(),
        "expected a string literal as text");
    assert_eq!(view(r#"<Container>{if a { </Container> }}</Container>"#).unwrap_err().message(),
        "in control-flow block: unexpected closing tag inside a control-flow block");
    assert_eq!(view(r#"<Container class=(x)></Container>"#).unwrap_err().message(),
        "attribute value must be `{ expr }` or a literal (e.g. `level={1u8}` or `class=\"x\"`)");
    assert_eq!(view(r#"<Container>{}</Container>"#).unwrap_err().message(),
        "invalid expression: unexpected end of input, expected an expression");
    assert_eq!(view(r#"<Container>{if a }</Container>"#).unwrap_err().message(),
        "expected `{` block after `if` condition");
    assert_eq!(view(r#"<Container>{for x items { }}</Container>"#).unwrap_err().message(),
        "expected `in` in `for` loop");
    assert_eq!(view(r#"<Container>{if a { } else x }</Container>"#).unwrap_err().message(),
        "`else` must be followed by `{ ... }` or `if ...`");
    assert_eq!(view(r#"Container"#).unwrap_err(), ViewError::ExpectedTagOpen(Some(0)));
    assert_eq!(view(r#""#).unwrap_err(), ViewError::ExpectedTagOpen(None));
}

#[test]
fn checks_before_code_generation() {
    assert_eq!(view(r#"<Container><Heading class={"h"} onclick={f}>"T"</Heading></Container>"#).unwrap_err().message(),
        "`<Heading>` does not accept a `onclick` attribute");
    assert_eq!(view(r#"<Container><Heading>"T"</Heading></Container>"#).unwrap_err().message(),
        "`<Heading>` requires a `level` attribute");
    assert_eq!(view(r#"<Container><Text/></Container>"#).unwrap_err().message(),
        "`<Text>` must have exactly one text child (a string literal or `{ expr }`)");
    assert_eq!(view(r#"<Container><Button on_click={m}><Text>"x"</Text></Button></Container>"#).unwrap_err().message(),
        "`<Button>` text must be a string literal or `{ expr }`, not a child node or control flow");
    assert_eq!(view(r#"<Container><Input value={v}>"x"</Input></Container>"#).unwrap_err().message(),
        "`<Input>` is self-closing and must not have children");
    assert_eq!(view(r#"<Container>{if a { <Text/> }}</Container>"#).unwrap_err().message(),
        "`<Text>` must have exactly one text child (a string literal or `{ expr }`)");
}

#[test]
fn static_analysis() {
    let fully = view(r#"<Container class={"page"}><Heading level={1u8}>"Title"</Heading><Text>"body"</Text></Container>"#).unwrap();
    assert!(node_is_static(&fully));
    let dynamic = view(r#"<Container><Text>{ format(n) }</Text></Container>"#).unwrap();
    assert!(!node_is_static(&dynamic));
    let control = view(r#"<Container>{if flag { <Text>"x"</Text> }}</Container>"#).unwrap();
    assert!(!node_is_static(&control));
    let mixed = view(r#"<Container><Heading level={1u8}>"S"</Heading><Button on_click={Msg::Inc}>"l"</Button></Container>"#).unwrap();
    assert!(!node_is_static(&mixed), "a non-literal attribute makes its element dynamic");
    match &mixed.children[0] {
        ViewChild::Node(h) => assert!(node_is_static(h)),
        _ => panic!("expected a heading"),
    }
}
