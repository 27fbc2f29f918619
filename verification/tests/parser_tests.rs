use emmylua_core::expr::{parse_closure_expr, parse_expr};
use emmylua_core::kind::{
    BinaryOperator, LuaOpKind, LuaSyntaxKind, LuaTokenKind, SourceRange, UnaryOperator,
    UNARY_PRIORITY,
};
use emmylua_core::marker::{CompleteMarker, MarkEvent, Marker};
use emmylua_core::parser::{LuaParser, Token};

fn toks(parts: &[(LuaTokenKind, &str)]) -> (Vec<u8>, Vec<Token>) {
    let mut text: Vec<u8> = Vec::new();
    let mut tokens: Vec<Token> = Vec::new();
    for (k, s) in parts {
        let start = text.len();
        text.extend_from_slice(s.as_bytes());
        tokens.push(Token {
            kind: *k,
            range: SourceRange {
                start_offset: start,
                length: s.len(),
            },
        });
    }
    (text, tokens)
}

fn parser_for(parts: &[(LuaTokenKind, &str)]) -> LuaParser {
    let (text, tokens) = toks(parts);
    LuaParser::new(text, tokens)
}

fn depth_of(events: &[MarkEvent]) -> i64 {
    let mut d: i64 = 0;
    for e in events {
        match e {
            MarkEvent::NodeStart { .. } => d += 1,
            MarkEvent::EatToken { .. } => {}
            MarkEvent::NodeEnd => d -= 1,
        }
    }
    d
}

#[test]
fn mark_event_none_is_tombstone_start() {
    let e = MarkEvent::none();
    assert!(matches!(
        e,
        MarkEvent::NodeStart {
            kind: LuaSyntaxKind::Tombstone,
            parent: 0
        }
    ));
}

#[test]
fn complete_marker_empty_is_tombstone() {
    let cm = CompleteMarker::empty();
    assert_eq!(cm.start, 0);
    assert_eq!(cm.finish, 0);
    assert_eq!(cm.kind, LuaSyntaxKind::Tombstone);
}

#[test]
fn marker_new_keeps_position() {
    let m = Marker::new(5);
    assert_eq!(m.position, 5);
}

#[test]
fn mark_complete_records_balanced_events() {
    let mut p = parser_for(&[(LuaTokenKind::TkName, "a")]);
    let m = p.mark(LuaSyntaxKind::NameExpr);
    assert_eq!(p.mark_level, 1);
    p.bump();
    let cm = m.complete(&mut p);
    assert_eq!(p.mark_level, 0);
    assert_eq!(cm.start, 0);
    assert_eq!(cm.finish, 2);
    assert_eq!(cm.kind, LuaSyntaxKind::NameExpr);
    assert_eq!(p.events.len(), 3);
    assert!(matches!(
        p.events[0],
        MarkEvent::NodeStart {
            kind: LuaSyntaxKind::NameExpr,
            parent: 0
        }
    ));
    assert!(matches!(
        p.events[1],
        MarkEvent::EatToken {
            kind: LuaTokenKind::TkName,
            ..
        }
    ));
    assert!(matches!(p.events[2], MarkEvent::NodeEnd));
}

#[test]
fn set_kind_reclassifies_open_node() {
    let mut p = parser_for(&[(LuaTokenKind::TkInt, "1")]);
    let mut m = p.mark(LuaSyntaxKind::TableFieldValue);
    m.set_kind(&mut p, LuaSyntaxKind::TableFieldAssign);
    let cm = m.complete(&mut p);
    assert_eq!(cm.kind, LuaSyntaxKind::TableFieldAssign);
}

#[test]
fn undo_writes_tombstone_kind() {
    let mut p = parser_for(&[(LuaTokenKind::TkInt, "1")]);
    let m = p.mark(LuaSyntaxKind::LiteralExpr);
    m.undo(&mut p);
    assert!(matches!(
        p.events[0],
        MarkEvent::NodeStart {
            kind: LuaSyntaxKind::Tombstone,
            ..
        }
    ));
}

#[test]
fn precede_redirects_parent_of_completed_node() {
    let mut p = parser_for(&[(LuaTokenKind::TkName, "a")]);
    let m = p.mark(LuaSyntaxKind::NameExpr);
    p.bump();
    let cm = m.complete(&mut p);
    let m2 = cm.precede(&mut p, LuaSyntaxKind::BinaryExpr);
    assert_eq!(m2.position, 3);
    match p.events[0] {
        MarkEvent::NodeStart { kind, parent } => {
            assert_eq!(kind, LuaSyntaxKind::NameExpr);
            assert_eq!(parent, 3);
        }
        _ => panic!("expected a node start"),
    }
    assert!(matches!(
        p.events[3],
        MarkEvent::NodeStart {
            kind: LuaSyntaxKind::BinaryExpr,
            parent: 0
        }
    ));
}

#[test]
fn successful_parse_balances_event_stream() {
    let mut p = parser_for(&[
        (LuaTokenKind::TkInt, "1"),
        (LuaTokenKind::TkPlus, "+"),
        (LuaTokenKind::TkInt, "2"),
    ]);
    let r = parse_expr(&mut p);
    assert!(r.is_ok());
    assert_eq!(p.mark_level, 0);
    assert_eq!(depth_of(&p.events), 0);
    // no prefix closes more nodes than it opened
    let mut d: i64 = 0;
    for e in &p.events {
        match e {
            MarkEvent::NodeStart { .. } => d += 1,
            MarkEvent::EatToken { .. } => {}
            MarkEvent::NodeEnd => d -= 1,
        }
        assert!(d >= 0);
    }
}

#[test]
fn consumed_token_text_in_event_order_reproduces_source() {
    let parts = [
        (LuaTokenKind::TkName, "a"),
        (LuaTokenKind::TkPlus, "+"),
        (LuaTokenKind::TkName, "bb"),
        (LuaTokenKind::TkMul, "*"),
        (LuaTokenKind::TkName, "c"),
    ];
    let mut p = parser_for(&parts);
    let source = p.text.clone();
    let r = parse_expr(&mut p);
    assert!(r.is_ok());
    let mut rebuilt: Vec<u8> = Vec::new();
    for e in &p.events {
        if let MarkEvent::EatToken { range, .. } = e {
            rebuilt.extend_from_slice(&source[range.start_offset..range.start_offset + range.length]);
        }
    }
    assert_eq!(rebuilt, source);
}

#[test]
fn binary_operator_without_operand_records_one_error_on_operator() {
    let mut p = parser_for(&[(LuaTokenKind::TkInt, "1"), (LuaTokenKind::TkPlus, "+")]);
    let r = parse_expr(&mut p);
    assert!(r.is_err());
    assert_eq!(p.errors.len(), 1);
    assert_eq!(p.errors[0].message, "binary operator not followed by expression");
    assert_eq!(
        p.errors[0].range,
        SourceRange {
            start_offset: 1,
            length: 1
        }
    );
    // the node opened for the failing construct was resolved
    assert_eq!(p.mark_level, 0);
    assert_eq!(depth_of(&p.events), 0);
}

#[test]
fn unary_operator_without_operand_records_error_on_operator() {
    let mut p = parser_for(&[(LuaTokenKind::TkMinus, "-")]);
    let r = parse_expr(&mut p);
    assert!(r.is_err());
    assert_eq!(p.errors.len(), 1);
    assert_eq!(p.errors[0].message, "unary operator not followed by expression");
    assert_eq!(
        p.errors[0].range,
        SourceRange {
            start_offset: 0,
            length: 1
        }
    );
    assert_eq!(p.mark_level, 0);
    assert_eq!(depth_of(&p.events), 0);
}

#[test]
fn failed_parse_leaves_event_stream_balanced() {
    // a failure deep in a nested construct still resolves every opened
    // node on the way out
    let mut p = parser_for(&[
        (LuaTokenKind::TkLeftBrace, "{"),
        (LuaTokenKind::TkName, "x"),
        (LuaTokenKind::TkAssign, "="),
        (LuaTokenKind::TkLeftParen, "("),
        (LuaTokenKind::TkInt, "1"),
        (LuaTokenKind::TkPlus, "+"),
        (LuaTokenKind::TkRightBrace, "}"),
    ]);
    let r = parse_expr(&mut p);
    assert!(r.is_err());
    assert_eq!(p.mark_level, 0);
    assert_eq!(depth_of(&p.events), 0);
}

#[test]
fn missing_primary_expression_is_an_error() {
    let mut p = parser_for(&[(LuaTokenKind::TkComma, ",")]);
    let r = parse_expr(&mut p);
    match r {
        Err(e) => assert_eq!(e.message, "expect primary expression"),
        Ok(_) => panic!("expected a failure"),
    }
}

#[test]
fn closure_with_empty_body_parses() {
    let mut p = parser_for(&[
        (LuaTokenKind::TkFunction, "function"),
        (LuaTokenKind::TkLeftParen, "("),
        (LuaTokenKind::TkName, "x"),
        (LuaTokenKind::TkComma, ","),
        (LuaTokenKind::TkDots, "..."),
        (LuaTokenKind::TkRightParen, ")"),
        (LuaTokenKind::TkEnd, "end"),
    ]);
    let r = parse_closure_expr(&mut p);
    assert!(r.is_ok());
    assert_eq!(r.unwrap().kind, LuaSyntaxKind::ClosureExpr);
    assert_eq!(p.mark_level, 0);
    assert_eq!(p.index, 7);
}

#[test]
fn closure_missing_parameter_name_fails() {
    let mut p = parser_for(&[
        (LuaTokenKind::TkFunction, "function"),
        (LuaTokenKind::TkLeftParen, "("),
        (LuaTokenKind::TkComma, ","),
    ]);
    let r = parse_closure_expr(&mut p);
    match r {
        Err(e) => assert_eq!(e.message, "expect parameter name"),
        Ok(_) => panic!("expected a failure"),
    }
}

#[test]
fn unclosed_parenthesis_is_an_error() {
    let mut p = parser_for(&[(LuaTokenKind::TkLeftParen, "("), (LuaTokenKind::TkName, "a")]);
    let r = parse_expr(&mut p);
    match r {
        Err(e) => assert_eq!(e.message, "unexpected token"),
        Ok(_) => panic!("expected a failure"),
    }
}

#[test]
fn dot_without_name_is_an_index_error() {
    let mut p = parser_for(&[(LuaTokenKind::TkName, "a"), (LuaTokenKind::TkDot, ".")]);
    let r = parse_expr(&mut p);
    match r {
        Err(e) => assert_eq!(e.message, "unexpected token"),
        Ok(_) => panic!("expected a failure"),
    }
}

#[test]
fn call_sugar_accepts_string_and_table_arguments() {
    // f "s" and f {1} are calls without parentheses
    let mut p = parser_for(&[
        (LuaTokenKind::TkName, "f"),
        (LuaTokenKind::TkString, "\"s\""),
        (LuaTokenKind::TkLeftBrace, "{"),
        (LuaTokenKind::TkInt, "1"),
        (LuaTokenKind::TkRightBrace, "}"),
    ]);
    let r = parse_expr(&mut p);
    assert!(r.is_ok());
    assert_eq!(r.unwrap().kind, LuaSyntaxKind::CallExpr);
    assert_eq!(p.index, 5);
    assert_eq!(p.mark_level, 0);
}

#[test]
fn empty_table_and_trailing_separator_parse() {
    let mut p = parser_for(&[
        (LuaTokenKind::TkLeftBrace, "{"),
        (LuaTokenKind::TkRightBrace, "}"),
    ]);
    assert!(parse_expr(&mut p).is_ok());
    assert_eq!(p.mark_level, 0);

    let mut p = parser_for(&[
        (LuaTokenKind::TkLeftBrace, "{"),
        (LuaTokenKind::TkInt, "1"),
        (LuaTokenKind::TkSemicolon, ";"),
        (LuaTokenKind::TkRightBrace, "}"),
    ]);
    assert!(parse_expr(&mut p).is_ok());
    assert_eq!(p.index, 4);
}

#[test]
fn unary_operator_binds_tighter_than_binary() {
    // -a + b consumes everything and yields a binary expression on top
    let mut p = parser_for(&[
        (LuaTokenKind::TkMinus, "-"),
        (LuaTokenKind::TkName, "a"),
        (LuaTokenKind::TkPlus, "+"),
        (LuaTokenKind::TkName, "b"),
    ]);
    let r = parse_expr(&mut p);
    assert!(r.is_ok());
    assert_eq!(r.unwrap().kind, LuaSyntaxKind::BinaryExpr);
    assert_eq!(p.index, 4);
}

#[test]
fn operator_tables_match_lua_priorities() {
    assert_eq!(UNARY_PRIORITY, 12);
    let add = LuaOpKind::to_binary_operator(LuaTokenKind::TkPlus);
    assert_eq!(add, BinaryOperator::OpAdd);
    assert_eq!(add.get_priority().left, 10);
    assert_eq!(add.get_priority().right, 10);
    let pow = LuaOpKind::to_binary_operator(LuaTokenKind::TkPow);
    assert_eq!(pow.get_priority().left, 14);
    assert_eq!(pow.get_priority().right, 13);
    let concat = LuaOpKind::to_binary_operator(LuaTokenKind::TkConcat);
    assert_eq!(concat.get_priority().left, 9);
    assert_eq!(concat.get_priority().right, 8);
    assert_eq!(
        LuaOpKind::to_unary_operator(LuaTokenKind::TkNot),
        UnaryOperator::OpNot
    );
    assert_eq!(
        LuaOpKind::to_unary_operator(LuaTokenKind::TkMinus),
        UnaryOperator::OpUnm
    );
    assert_eq!(
        LuaOpKind::to_unary_operator(LuaTokenKind::TkName),
        UnaryOperator::OpNop
    );
    assert_eq!(
        LuaOpKind::to_binary_operator(LuaTokenKind::TkName),
        BinaryOperator::OpNop
    );
}
