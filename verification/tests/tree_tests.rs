use emmylua_core::expr::parse_expr;
use emmylua_core::kind::{LuaSyntaxKind, LuaTokenKind, SourceRange};
use emmylua_core::marker::MarkEvent;
use emmylua_core::parser::{LuaParser, Token};
use emmylua_core::tree::{build_green, GreenChild, GreenTree, LuaSyntaxTree};

fn toks(parts: &[(LuaTokenKind, &str)]) -> (Vec<u8>, Vec<Token>) {
    let mut text: Vec<u8> = Vec::new();
    let mut tokens: Vec<Token> = Vec::new();
    for (k, s) in parts {
        let start = text.len();
        text.extend_from_slice(s.as_bytes());
        tokens.push(Token {
            kind: *k,
            range: SourceRange {
                start_offset: start,
                length: s.len(),
            },
        });
    }
    (text, tokens)
}

fn parse_to_tree(parts: &[(LuaTokenKind, &str)]) -> LuaSyntaxTree {
    let (text, tokens) = toks(parts);
    let mut p = LuaParser::new(text, tokens);
    let m = p.mark(LuaSyntaxKind::Chunk);
    let r = parse_expr(&mut p);
    assert!(r.is_ok());
    m.complete(&mut p);
    assert_eq!(p.index, p.tokens.len(), "the whole token stream is consumed");
    let LuaParser {
        text,
        events,
        errors,
        ..
    } = p;
    let green = build_green(events, &text);
    LuaSyntaxTree::new(green, errors)
}

fn kind_of(g: &GreenTree, idx: usize) -> LuaSyntaxKind {
    g.nodes[idx].kind
}

/// The `nth` node (not token) child of an arena node.
fn child_node(g: &GreenTree, idx: usize, nth: usize) -> usize {
    let mut seen = 0;
    for c in &g.nodes[idx].children {
        if let GreenChild::Node(j) = c {
            if seen == nth {
                return *j;
            }
            seen += 1;
        }
    }
    panic!("no such node child");
}

fn token_kinds(g: &GreenTree, idx: usize) -> Vec<LuaTokenKind> {
    let mut out = Vec::new();
    for c in &g.nodes[idx].children {
        if let GreenChild::Token(t) = c {
            out.push(t.kind);
        }
    }
    out
}

fn node_text(g: &GreenTree, idx: usize, out: &mut Vec<u8>) {
    for c in &g.nodes[idx].children {
        match c {
            GreenChild::Node(j) => node_text(g, *j, out),
            GreenChild::Token(t) => out.extend_from_slice(&t.text),
        }
    }
}

#[test]
fn tighter_second_operator_nests_to_the_right() {
    // a + b * c parses as a + (b * c)
    let tree = parse_to_tree(&[
        (LuaTokenKind::TkName, "a"),
        (LuaTokenKind::TkPlus, "+"),
        (LuaTokenKind::TkName, "b"),
        (LuaTokenKind::TkMul, "*"),
        (LuaTokenKind::TkName, "c"),
    ]);
    let g = &tree.root;
    assert_eq!(kind_of(g, g.root), LuaSyntaxKind::Chunk);
    let outer = child_node(g, g.root, 0);
    assert_eq!(kind_of(g, outer), LuaSyntaxKind::BinaryExpr);
    assert_eq!(token_kinds(g, outer), vec![LuaTokenKind::TkPlus]);
    let left = child_node(g, outer, 0);
    assert_eq!(kind_of(g, left), LuaSyntaxKind::NameExpr);
    let right = child_node(g, outer, 1);
    assert_eq!(kind_of(g, right), LuaSyntaxKind::BinaryExpr);
    assert_eq!(token_kinds(g, right), vec![LuaTokenKind::TkMul]);
}

#[test]
fn tighter_first_operator_nests_to_the_left() {
    // a * b + c parses as (a * b) + c
    let tree = parse_to_tree(&[
        (LuaTokenKind::TkName, "a"),
        (LuaTokenKind::TkMul, "*"),
        (LuaTokenKind::TkName, "b"),
        (LuaTokenKind::TkPlus, "+"),
        (LuaTokenKind::TkName, "c"),
    ]);
    let g = &tree.root;
    let outer = child_node(g, g.root, 0);
    assert_eq!(kind_of(g, outer), LuaSyntaxKind::BinaryExpr);
    assert_eq!(token_kinds(g, outer), vec![LuaTokenKind::TkPlus]);
    let left = child_node(g, outer, 0);
    assert_eq!(kind_of(g, left), LuaSyntaxKind::BinaryExpr);
    assert_eq!(token_kinds(g, left), vec![LuaTokenKind::TkMul]);
    let right = child_node(g, outer, 1);
    assert_eq!(kind_of(g, right), LuaSyntaxKind::NameExpr);
}

#[test]
fn equal_priority_is_left_associative() {
    // a - b - c parses as (a - b) - c
    let tree = parse_to_tree(&[
        (LuaTokenKind::TkName, "a"),
        (LuaTokenKind::TkMinus, "-"),
        (LuaTokenKind::TkName, "b"),
        (LuaTokenKind::TkMinus, "-"),
        (LuaTokenKind::TkName, "c"),
    ]);
    let g = &tree.root;
    let outer = child_node(g, g.root, 0);
    assert_eq!(kind_of(g, outer), LuaSyntaxKind::BinaryExpr);
    let left = child_node(g, outer, 0);
    assert_eq!(kind_of(g, left), LuaSyntaxKind::BinaryExpr);
    let right = child_node(g, outer, 1);
    assert_eq!(kind_of(g, right), LuaSyntaxKind::NameExpr);
}

#[test]
fn power_is_right_associative() {
    // a ^ b ^ c parses as a ^ (b ^ c)
    let tree = parse_to_tree(&[
        (LuaTokenKind::TkName, "a"),
        (LuaTokenKind::TkPow, "^"),
        (LuaTokenKind::TkName, "b"),
        (LuaTokenKind::TkPow, "^"),
        (LuaTokenKind::TkName, "c"),
    ]);
    let g = &tree.root;
    let outer = child_node(g, g.root, 0);
    assert_eq!(kind_of(g, outer), LuaSyntaxKind::BinaryExpr);
    let right = child_node(g, outer, 1);
    assert_eq!(kind_of(g, right), LuaSyntaxKind::BinaryExpr);
}

#[test]
fn suffix_chain_wraps_left_to_right() {
    // a.b:c(1,2)[3] nests, outermost last: index([3]) around call(1,2)
    // around index(:c) around index(.b) around the name.
    let tree = parse_to_tree(&[
        (LuaTokenKind::TkName, "a"),
        (LuaTokenKind::TkDot, "."),
        (LuaTokenKind::TkName, "b"),
        (LuaTokenKind::TkColon, ":"),
        (LuaTokenKind::TkName, "c"),
        (LuaTokenKind::TkLeftParen, "("),
        (LuaTokenKind::TkInt, "1"),
        (LuaTokenKind::TkComma, ","),
        (LuaTokenKind::TkInt, "2"),
        (LuaTokenKind::TkRightParen, ")"),
        (LuaTokenKind::TkLeftBracket, "["),
        (LuaTokenKind::TkInt, "3"),
        (LuaTokenKind::TkRightBracket, "]"),
    ]);
    let g = &tree.root;
    let outer = child_node(g, g.root, 0);
    assert_eq!(kind_of(g, outer), LuaSyntaxKind::IndexExpr);
    assert_eq!(
        token_kinds(g, outer),
        vec![LuaTokenKind::TkLeftBracket, LuaTokenKind::TkRightBracket]
    );
    let call = child_node(g, outer, 0);
    assert_eq!(kind_of(g, call), LuaSyntaxKind::CallExpr);
    assert_eq!(kind_of(g, child_node(g, call, 1)), LuaSyntaxKind::CallArgList);
    let method = child_node(g, call, 0);
    assert_eq!(kind_of(g, method), LuaSyntaxKind::IndexExpr);
    assert_eq!(token_kinds(g, method)[0], LuaTokenKind::TkColon);
    let dot = child_node(g, method, 0);
    assert_eq!(kind_of(g, dot), LuaSyntaxKind::IndexExpr);
    assert_eq!(token_kinds(g, dot)[0], LuaTokenKind::TkDot);
    let name = child_node(g, dot, 0);
    assert_eq!(kind_of(g, name), LuaSyntaxKind::NameExpr);
}

#[test]
fn table_fields_are_reclassified_by_look_ahead() {
    // {1, x = 2, [k] = 3}: positional value, named assignment, computed
    // assignment.
    let tree = parse_to_tree(&[
        (LuaTokenKind::TkLeftBrace, "{"),
        (LuaTokenKind::TkInt, "1"),
        (LuaTokenKind::TkComma, ","),
        (LuaTokenKind::TkName, "x"),
        (LuaTokenKind::TkAssign, "="),
        (LuaTokenKind::TkInt, "2"),
        (LuaTokenKind::TkComma, ","),
        (LuaTokenKind::TkLeftBracket, "["),
        (LuaTokenKind::TkName, "k"),
        (LuaTokenKind::TkRightBracket, "]"),
        (LuaTokenKind::TkAssign, "="),
        (LuaTokenKind::TkInt, "3"),
        (LuaTokenKind::TkRightBrace, "}"),
    ]);
    let g = &tree.root;
    let table = child_node(g, g.root, 0);
    assert_eq!(kind_of(g, table), LuaSyntaxKind::TableExpr);
    let f0 = child_node(g, table, 0);
    let f1 = child_node(g, table, 1);
    let f2 = child_node(g, table, 2);
    assert_eq!(kind_of(g, f0), LuaSyntaxKind::TableFieldValue);
    assert_eq!(kind_of(g, f1), LuaSyntaxKind::TableFieldAssign);
    assert_eq!(kind_of(g, f2), LuaSyntaxKind::TableFieldAssign);
    // the named assignment starts with a bare name, the computed one with
    // a bracket
    assert_eq!(token_kinds(g, f1)[0], LuaTokenKind::TkName);
    assert_eq!(token_kinds(g, f2)[0], LuaTokenKind::TkLeftBracket);
}

#[test]
fn tree_is_lossless() {
    let parts = [
        (LuaTokenKind::TkName, "foo"),
        (LuaTokenKind::TkLeftParen, "("),
        (LuaTokenKind::TkString, "\"hi\""),
        (LuaTokenKind::TkRightParen, ")"),
        (LuaTokenKind::TkConcat, ".."),
        (LuaTokenKind::TkName, "bar"),
    ];
    let (source, _) = toks(&parts);
    let tree = parse_to_tree(&parts);
    let mut rebuilt: Vec<u8> = Vec::new();
    node_text(&tree.root, tree.root.root, &mut rebuilt);
    assert_eq!(rebuilt, source);
}

#[test]
fn chunk_node_and_errors_are_exposed() {
    let tree = parse_to_tree(&[(LuaTokenKind::TkName, "a")]);
    assert!(tree.get_errors().is_empty());
    let chunk = tree.get_chunk_node();
    assert_eq!(chunk.node.kind(), LuaSyntaxKind::Chunk);
    assert_eq!(
        chunk.node.text_range(),
        SourceRange {
            start_offset: 0,
            length: 1
        }
    );
}

#[test]
fn red_view_computes_absolute_ranges() {
    // ab + c: the right operand starts after "ab" and "+"
    let tree = parse_to_tree(&[
        (LuaTokenKind::TkName, "ab"),
        (LuaTokenKind::TkPlus, "+"),
        (LuaTokenKind::TkName, "c"),
    ]);
    let root = tree.get_red_root();
    assert_eq!(root.kind(), LuaSyntaxKind::Chunk);
    let binary = emmylua_core::tree::LuaSyntaxNode {
        tree: root.tree,
        path: vec![0],
    };
    assert_eq!(binary.kind(), LuaSyntaxKind::BinaryExpr);
    assert_eq!(
        binary.text_range(),
        SourceRange {
            start_offset: 0,
            length: 4
        }
    );
    let right = emmylua_core::tree::LuaSyntaxNode {
        tree: root.tree,
        path: vec![0, 2],
    };
    assert_eq!(right.kind(), LuaSyntaxKind::NameExpr);
    assert_eq!(
        right.text_range(),
        SourceRange {
            start_offset: 3,
            length: 1
        }
    );
    let parent = right.parent().unwrap();
    assert_eq!(parent.kind(), LuaSyntaxKind::BinaryExpr);
    let tok = emmylua_core::tree::LuaSyntaxToken {
        tree: root.tree,
        path: vec![0, 2, 0],
    };
    assert_eq!(tok.kind(), LuaTokenKind::TkName);
    assert_eq!(tok.text(), &b"c".to_vec());
    assert_eq!(
        tok.text_range(),
        SourceRange {
            start_offset: 3,
            length: 1
        }
    );
}

#[test]
fn bare_name_field_stays_positional() {
    // {x} is a positional value holding a name expression
    let tree = parse_to_tree(&[
        (LuaTokenKind::TkLeftBrace, "{"),
        (LuaTokenKind::TkName, "x"),
        (LuaTokenKind::TkRightBrace, "}"),
    ]);
    let g = &tree.root;
    let table = child_node(g, g.root, 0);
    let field = child_node(g, table, 0);
    assert_eq!(kind_of(g, field), LuaSyntaxKind::TableFieldValue);
    assert_eq!(kind_of(g, child_node(g, field, 0)), LuaSyntaxKind::NameExpr);
}

#[test]
fn builder_survives_undo_tombstones() {
    // a tombstoned start is skipped; its end was suppressed by the caller
    let events = vec![
        MarkEvent::NodeStart {
            kind: LuaSyntaxKind::NameExpr,
            parent: 0,
        },
        MarkEvent::none(),
        MarkEvent::EatToken {
            kind: LuaTokenKind::TkName,
            range: SourceRange {
                start_offset: 0,
                length: 1,
            },
        },
        MarkEvent::NodeEnd,
    ];
    let text = b"a".to_vec();
    let g = build_green(events, &text);
    assert_eq!(g.nodes[g.root].kind, LuaSyntaxKind::NameExpr);
    let mut rebuilt = Vec::new();
    node_text(&g, g.root, &mut rebuilt);
    assert_eq!(rebuilt, text);
}
