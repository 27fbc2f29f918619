//! The precedence-climbing expression parser.
//!
//! The grammar's behaviour is captured by an acceptance relation, the
//! `accept_*` spec functions: for every cursor position they say whether
//! the construct is accepted, where the cursor lands, which node kind the
//! completed marker carries, and — on failure — exactly which contextual
//! errors are recorded and which message and range the returned error
//! carries. Every parse function is proved equivalent to its acceptance
//! function (`accept_post`), on top of the structural guarantees of
//! `parse_post`: the parser stays well-formed, text and tokens are
//! untouched, the cursor only advances, and the nesting depth is restored
//! on every path — error paths complete the node opened for the failing
//! construct, so the event stream remains balanced, and the enclosing
//! driver recovers at a statement boundary outside this crate.
use vstd::prelude::*;
use crate::kind::{
    BinaryOperator, LuaOpKind, LuaSyntaxKind, LuaTokenKind, UnaryOperator, UNARY_PRIORITY,
    SourceRange, is_expr_kind, spec_binary_operator, spec_priority, spec_unary_operator,
};
use crate::marker::CompleteMarker;
use crate::parser::{LuaParser, Token, errors_extended, starts_preserved};
use crate::parser_error::LuaParseError;

verus! {

pub type ParseResult = Result<CompleteMarker, LuaParseError>;

/// Outcome of the acceptance relation: the cursor after the construct and
/// the kind of the node it completes, or the failure — the contextual
/// errors recorded on the way out (message and range, innermost first),
/// then the message and range the returned error carries.
pub enum Acc {
    Pass(int, LuaSyntaxKind),
    Fail(Seq<(Seq<char>, SourceRange)>, Seq<char>, SourceRange),
}

/// Kind of the token at a position; end-of-file past the stream.
pub open spec fn tok_kind(toks: Seq<Token>, i: int) -> LuaTokenKind {
    if 0 <= i < toks.len() {
        toks[i].kind
    } else {
        LuaTokenKind::TkEof
    }
}

/// Range of the token at a position; the empty end-of-text range past the
/// stream.
pub open spec fn tok_range(toks: Seq<Token>, eofr: SourceRange, i: int) -> SourceRange {
    if 0 <= i < toks.len() {
        toks[i].range
    } else {
        eofr
    }
}

/// The empty range at the end of this parser's text.
pub open spec fn spec_eof_range(p: LuaParser) -> SourceRange {
    SourceRange { start_offset: p.text@.len() as usize, length: 0 }
}

pub open spec fn is_literal_kind(k: LuaTokenKind) -> bool {
    match k {
        LuaTokenKind::TkInt | LuaTokenKind::TkFloat | LuaTokenKind::TkComplex
        | LuaTokenKind::TkNil | LuaTokenKind::TkTrue | LuaTokenKind::TkFalse
        | LuaTokenKind::TkDots | LuaTokenKind::TkString | LuaTokenKind::TkLongString => true,
        _ => false,
    }
}

pub open spec fn is_suffix_index_kind(k: LuaTokenKind) -> bool {
    k == LuaTokenKind::TkDot || k == LuaTokenKind::TkColon || k == LuaTokenKind::TkLeftBracket
}

pub open spec fn is_suffix_call_kind(k: LuaTokenKind) -> bool {
    k == LuaTokenKind::TkLeftParen || k == LuaTokenKind::TkLongString || k
        == LuaTokenKind::TkString || k == LuaTokenKind::TkLeftBrace
}

/// Where a flat statement block ends: the first closing keyword at or
/// after `j`, or the end of input.
pub open spec fn block_end(toks: Seq<Token>, j: int) -> int
    decreases toks.len() - j,
    when 0 <= j <= toks.len()
{
    if j < toks.len() && toks[j].kind != LuaTokenKind::TkEnd && toks[j].kind
        != LuaTokenKind::TkEof {
        block_end(toks, j + 1)
    } else {
        j
    }
}

/// Acceptance of the whole expression grammar at `i`.
pub open spec fn accept_expr(toks: Seq<Token>, eofr: SourceRange, i: int) -> Acc
    decreases toks.len() - i, 8int,
    when 0 <= i <= toks.len()
{
    accept_sub_expr(toks, eofr, i, 0)
}

/// Precedence climbing: a unary or simple expression, then every binary
/// operator whose left priority exceeds `limit`, folded left to right. A
/// failing unary operand records the contextual unary error on the
/// operator's range.
pub open spec fn accept_sub_expr(toks: Seq<Token>, eofr: SourceRange, i: int, limit: int) -> Acc
    decreases toks.len() - i, 7int,
    when 0 <= i <= toks.len()
{
    let first = if spec_unary_operator(tok_kind(toks, i)) != UnaryOperator::OpNop {
        match accept_sub_expr(toks, eofr, i + 1, UNARY_PRIORITY as int) {
            Acc::Pass(n1, _) => Acc::Pass(n1, LuaSyntaxKind::UnaryExpr),
            Acc::Fail(tr, m, rg) => Acc::Fail(
                tr.push(
                    ("unary operator not followed by expression"@, tok_range(toks, eofr, i)),
                ),
                m,
                rg,
            ),
        }
    } else {
        accept_simple(toks, eofr, i)
    };
    match first {
        Acc::Pass(n1, k) => if i < n1 <= toks.len() {
            accept_bin_rest(toks, eofr, n1, limit, k)
        } else {
            Acc::Pass(n1, k)
        },
        Acc::Fail(tr, m, rg) => Acc::Fail(tr, m, rg),
    }
}

/// The binary fold: while the operator at `j` binds tighter than `limit`,
/// consume it and a right operand parsed at the operator's right-binding
/// priority; a failing right operand records the contextual binary error
/// on the operator's range. `k` is the kind accumulated so far.
pub open spec fn accept_bin_rest(
    toks: Seq<Token>,
    eofr: SourceRange,
    j: int,
    limit: int,
    k: LuaSyntaxKind,
) -> Acc
    decreases toks.len() - j, 0int,
    when 0 <= j <= toks.len()
{
    let bop = spec_binary_operator(tok_kind(toks, j));
    if bop != BinaryOperator::OpNop && spec_priority(bop).left as int > limit {
        match accept_sub_expr(toks, eofr, j + 1, spec_priority(bop).right as int) {
            Acc::Pass(ni, _) => if j < ni <= toks.len() {
                accept_bin_rest(toks, eofr, ni, limit, LuaSyntaxKind::BinaryExpr)
            } else {
                Acc::Pass(ni, LuaSyntaxKind::BinaryExpr)
            },
            Acc::Fail(tr, m, rg) => Acc::Fail(
                tr.push(
                    ("binary operator not followed by expression"@, tok_range(toks, eofr, j)),
                ),
                m,
                rg,
            ),
        }
    } else {
        Acc::Pass(j, k)
    }
}

/// Dispatch on the current token: a literal leaf, a table constructor, a
/// closure, or a suffixed primary expression.
pub open spec fn accept_simple(toks: Seq<Token>, eofr: SourceRange, i: int) -> Acc
    decreases toks.len() - i, 6int,
    when 0 <= i <= toks.len()
{
    let k = tok_kind(toks, i);
    if is_literal_kind(k) {
        Acc::Pass(i + 1, LuaSyntaxKind::LiteralExpr)
    } else if k == LuaTokenKind::TkLeftBrace {
        accept_table(toks, eofr, i)
    } else if k == LuaTokenKind::TkFunction {
        accept_closure(toks, eofr, i)
    } else {
        accept_suffixed(toks, eofr, i)
    }
}

/// An optional `function` keyword, a parameter list, a statement block
/// unless the closing keyword follows at once, then the closing keyword.
pub open spec fn accept_closure(toks: Seq<Token>, eofr: SourceRange, i: int) -> Acc
    decreases toks.len() - i, 3int,
    when 0 <= i <= toks.len()
{
    let i1 = if tok_kind(toks, i) == LuaTokenKind::TkFunction {
        i + 1
    } else {
        i
    };
    match accept_param_list(toks, eofr, i1) {
        Acc::Pass(n1, _) => if 0 <= n1 <= toks.len() {
            let n2 = if tok_kind(toks, n1) != LuaTokenKind::TkEnd {
                block_end(toks, n1)
            } else {
                n1
            };
            if tok_kind(toks, n2) == LuaTokenKind::TkEnd {
                Acc::Pass(n2 + 1, LuaSyntaxKind::ClosureExpr)
            } else {
                Acc::Fail(
                    Seq::empty(),
                    "unexpected token"@,
                    tok_range(toks, eofr, n2),
                )
            }
        } else {
            Acc::Pass(n1, LuaSyntaxKind::ClosureExpr)
        },
        Acc::Fail(tr, m, rg) => Acc::Fail(tr, m, rg),
    }
}

/// `( name, name, ... )`, each parameter a name or a varargs marker.
pub open spec fn accept_param_list(toks: Seq<Token>, eofr: SourceRange, i: int) -> Acc
    decreases toks.len() - i, 2int,
    when 0 <= i <= toks.len()
{
    if tok_kind(toks, i) == LuaTokenKind::TkLeftParen {
        if tok_kind(toks, i + 1) == LuaTokenKind::TkRightParen {
            Acc::Pass(i + 2, LuaSyntaxKind::ParamList)
        } else {
            match accept_param_name(toks, eofr, i + 1) {
                Acc::Pass(n1, _) => if i < n1 <= toks.len() {
                    accept_param_rest(toks, eofr, n1)
                } else {
                    Acc::Pass(n1, LuaSyntaxKind::ParamList)
                },
                Acc::Fail(tr, m, rg) => Acc::Fail(tr, m, rg),
            }
        }
    } else {
        Acc::Fail(Seq::empty(), "unexpected token"@, tok_range(toks, eofr, i))
    }
}

/// After the first parameter: `, name` repeated, then the closing
/// parenthesis.
pub open spec fn accept_param_rest(toks: Seq<Token>, eofr: SourceRange, j: int) -> Acc
    decreases toks.len() - j, 0int,
    when 0 <= j <= toks.len()
{
    if tok_kind(toks, j) == LuaTokenKind::TkComma {
        match accept_param_name(toks, eofr, j + 1) {
            Acc::Pass(ni, _) => if j < ni <= toks.len() {
                accept_param_rest(toks, eofr, ni)
            } else {
                Acc::Pass(ni, LuaSyntaxKind::ParamList)
            },
            Acc::Fail(tr, m, rg) => Acc::Fail(tr, m, rg),
        }
    } else if tok_kind(toks, j) == LuaTokenKind::TkRightParen {
        Acc::Pass(j + 1, LuaSyntaxKind::ParamList)
    } else {
        Acc::Fail(Seq::empty(), "unexpected token"@, tok_range(toks, eofr, j))
    }
}

/// One parameter: a name token or the varargs marker.
pub open spec fn accept_param_name(toks: Seq<Token>, eofr: SourceRange, i: int) -> Acc
    decreases toks.len() - i, 0int,
    when 0 <= i <= toks.len()
{
    if tok_kind(toks, i) == LuaTokenKind::TkName || tok_kind(toks, i) == LuaTokenKind::TkDots {
        Acc::Pass(i + 1, LuaSyntaxKind::ParamName)
    } else {
        Acc::Fail(Seq::empty(), "expect parameter name"@, tok_range(toks, eofr, i))
    }
}

/// `{ field (sep field)* sep? }` with `,` or `;` separators.
pub open spec fn accept_table(toks: Seq<Token>, eofr: SourceRange, i: int) -> Acc
    decreases toks.len() - i, 2int,
    when 0 <= i <= toks.len()
{
    if tok_kind(toks, i) == LuaTokenKind::TkLeftBrace {
        if tok_kind(toks, i + 1) == LuaTokenKind::TkRightBrace {
            Acc::Pass(i + 2, LuaSyntaxKind::TableExpr)
        } else {
            match accept_field(toks, eofr, i + 1) {
                Acc::Pass(n1, _) => if i < n1 <= toks.len() {
                    accept_table_rest(toks, eofr, n1)
                } else {
                    Acc::Pass(n1, LuaSyntaxKind::TableExpr)
                },
                Acc::Fail(tr, m, rg) => Acc::Fail(tr, m, rg),
            }
        }
    } else {
        Acc::Fail(Seq::empty(), "unexpected token"@, tok_range(toks, eofr, i))
    }
}

/// After a field: separators and further fields, a tolerated trailing
/// separator, then the closing brace.
pub open spec fn accept_table_rest(toks: Seq<Token>, eofr: SourceRange, j: int) -> Acc
    decreases toks.len() - j, 0int,
    when 0 <= j <= toks.len()
{
    if tok_kind(toks, j) == LuaTokenKind::TkComma || tok_kind(toks, j)
        == LuaTokenKind::TkSemicolon {
        if tok_kind(toks, j + 1) == LuaTokenKind::TkRightBrace {
            Acc::Pass(j + 2, LuaSyntaxKind::TableExpr)
        } else {
            match accept_field(toks, eofr, j + 1) {
                Acc::Pass(ni, _) => if j < ni <= toks.len() {
                    accept_table_rest(toks, eofr, ni)
                } else {
                    Acc::Pass(ni, LuaSyntaxKind::TableExpr)
                },
                Acc::Fail(tr, m, rg) => Acc::Fail(tr, m, rg),
            }
        }
    } else if tok_kind(toks, j) == LuaTokenKind::TkRightBrace {
        Acc::Pass(j + 1, LuaSyntaxKind::TableExpr)
    } else {
        Acc::Fail(Seq::empty(), "unexpected token"@, tok_range(toks, eofr, j))
    }
}

/// One table field, classified by look-ahead: `[expr] = expr` and
/// `name = expr` are assignments, anything else a positional value.
pub open spec fn accept_field(toks: Seq<Token>, eofr: SourceRange, i: int) -> Acc
    decreases toks.len() - i, 9int,
    when 0 <= i <= toks.len()
{
    if tok_kind(toks, i) == LuaTokenKind::TkLeftBracket {
        match accept_expr(toks, eofr, i + 1) {
            Acc::Pass(n1, _) => if i < n1 <= toks.len() {
                if tok_kind(toks, n1) == LuaTokenKind::TkRightBracket {
                    if tok_kind(toks, n1 + 1) == LuaTokenKind::TkAssign {
                        match accept_expr(toks, eofr, n1 + 2) {
                            Acc::Pass(n2, _) => Acc::Pass(n2, LuaSyntaxKind::TableFieldAssign),
                            Acc::Fail(tr, m, rg) => Acc::Fail(tr, m, rg),
                        }
                    } else {
                        Acc::Fail(
                            Seq::empty(),
                            "unexpected token"@,
                            tok_range(toks, eofr, n1 + 1),
                        )
                    }
                } else {
                    Acc::Fail(Seq::empty(), "unexpected token"@, tok_range(toks, eofr, n1))
                }
            } else {
                Acc::Pass(n1, LuaSyntaxKind::TableFieldAssign)
            },
            Acc::Fail(tr, m, rg) => Acc::Fail(tr, m, rg),
        }
    } else if tok_kind(toks, i) == LuaTokenKind::TkName && tok_kind(toks, i + 1)
        == LuaTokenKind::TkAssign {
        match accept_expr(toks, eofr, i + 2) {
            Acc::Pass(n2, _) => Acc::Pass(n2, LuaSyntaxKind::TableFieldAssign),
            Acc::Fail(tr, m, rg) => Acc::Fail(tr, m, rg),
        }
    } else {
        match accept_expr(toks, eofr, i) {
            Acc::Pass(n2, _) => Acc::Pass(n2, LuaSyntaxKind::TableFieldValue),
            Acc::Fail(tr, m, rg) => Acc::Fail(tr, m, rg),
        }
    }
}

/// A primary expression, then every index and call suffix, folded left to
/// right.
pub open spec fn accept_suffixed(toks: Seq<Token>, eofr: SourceRange, i: int) -> Acc
    decreases toks.len() - i, 5int,
    when 0 <= i <= toks.len()
{
    match accept_primary(toks, eofr, i) {
        Acc::Pass(n1, k) => if i < n1 <= toks.len() {
            accept_suffix_rest(toks, eofr, n1, k)
        } else {
            Acc::Pass(n1, k)
        },
        Acc::Fail(tr, m, rg) => Acc::Fail(tr, m, rg),
    }
}

/// The suffix fold: `.`/`:`/`[` open an index suffix, `(`/string/`{` a
/// call suffix; the fold ends at the first token that starts neither. `k`
/// is the kind accumulated so far.
pub open spec fn accept_suffix_rest(
    toks: Seq<Token>,
    eofr: SourceRange,
    j: int,
    k: LuaSyntaxKind,
) -> Acc
    decreases toks.len() - j, 4int,
    when 0 <= j <= toks.len()
{
    if is_suffix_index_kind(tok_kind(toks, j)) {
        match accept_index_struct(toks, eofr, j) {
            Acc::Pass(ni, _) => if j < ni <= toks.len() {
                accept_suffix_rest(toks, eofr, ni, LuaSyntaxKind::IndexExpr)
            } else {
                Acc::Pass(ni, LuaSyntaxKind::IndexExpr)
            },
            Acc::Fail(tr, m, rg) => Acc::Fail(tr, m, rg),
        }
    } else if is_suffix_call_kind(tok_kind(toks, j)) {
        match accept_args(toks, eofr, j) {
            Acc::Pass(ni, _) => if j < ni <= toks.len() {
                accept_suffix_rest(toks, eofr, ni, LuaSyntaxKind::CallExpr)
            } else {
                Acc::Pass(ni, LuaSyntaxKind::CallExpr)
            },
            Acc::Fail(tr, m, rg) => Acc::Fail(tr, m, rg),
        }
    } else {
        Acc::Pass(j, k)
    }
}

/// A name leaf or a parenthesized sub-expression.
pub open spec fn accept_primary(toks: Seq<Token>, eofr: SourceRange, i: int) -> Acc
    decreases toks.len() - i, 0int,
    when 0 <= i <= toks.len()
{
    if tok_kind(toks, i) == LuaTokenKind::TkName {
        Acc::Pass(i + 1, LuaSyntaxKind::NameExpr)
    } else if tok_kind(toks, i) == LuaTokenKind::TkLeftParen {
        match accept_expr(toks, eofr, i + 1) {
            Acc::Pass(n1, _) => if tok_kind(toks, n1) == LuaTokenKind::TkRightParen {
                Acc::Pass(n1 + 1, LuaSyntaxKind::ParenExpr)
            } else {
                Acc::Fail(Seq::empty(), "unexpected token"@, tok_range(toks, eofr, n1))
            },
            Acc::Fail(tr, m, rg) => Acc::Fail(tr, m, rg),
        }
    } else {
        Acc::Fail(Seq::empty(), "expect primary expression"@, tok_range(toks, eofr, i))
    }
}

/// `.name`, `:name`, or `[expr]`.
pub open spec fn accept_index_struct(toks: Seq<Token>, eofr: SourceRange, j: int) -> Acc
    decreases toks.len() - j, 1int,
    when 0 <= j <= toks.len()
{
    if tok_kind(toks, j) == LuaTokenKind::TkLeftBracket {
        match accept_expr(toks, eofr, j + 1) {
            Acc::Pass(n1, _) => if tok_kind(toks, n1) == LuaTokenKind::TkRightBracket {
                Acc::Pass(n1 + 1, LuaSyntaxKind::Tombstone)
            } else {
                Acc::Fail(Seq::empty(), "unexpected token"@, tok_range(toks, eofr, n1))
            },
            Acc::Fail(tr, m, rg) => Acc::Fail(tr, m, rg),
        }
    } else if tok_kind(toks, j) == LuaTokenKind::TkDot || tok_kind(toks, j)
        == LuaTokenKind::TkColon {
        if tok_kind(toks, j + 1) == LuaTokenKind::TkName {
            Acc::Pass(j + 2, LuaSyntaxKind::Tombstone)
        } else {
            Acc::Fail(Seq::empty(), "unexpected token"@, tok_range(toks, eofr, j + 1))
        }
    } else {
        Acc::Fail(Seq::empty(), "expect index struct"@, tok_range(toks, eofr, j))
    }
}

/// Call arguments: a parenthesized expression list, a single table
/// constructor, or a single string literal.
pub open spec fn accept_args(toks: Seq<Token>, eofr: SourceRange, j: int) -> Acc
    decreases toks.len() - j, 3int,
    when 0 <= j <= toks.len()
{
    let k = tok_kind(toks, j);
    if k == LuaTokenKind::TkLeftParen {
        if tok_kind(toks, j + 1) == LuaTokenKind::TkRightParen {
            Acc::Pass(j + 2, LuaSyntaxKind::CallArgList)
        } else {
            match accept_expr(toks, eofr, j + 1) {
                Acc::Pass(n1, _) => if j < n1 <= toks.len() {
                    accept_args_rest(toks, eofr, n1)
                } else {
                    Acc::Pass(n1, LuaSyntaxKind::CallArgList)
                },
                Acc::Fail(tr, m, rg) => Acc::Fail(tr, m, rg),
            }
        }
    } else if k == LuaTokenKind::TkLeftBrace {
        match accept_table(toks, eofr, j) {
            Acc::Pass(ni, _) => Acc::Pass(ni, LuaSyntaxKind::CallArgList),
            Acc::Fail(tr, m, rg) => Acc::Fail(tr, m, rg),
        }
    } else if k == LuaTokenKind::TkString || k == LuaTokenKind::TkLongString {
        Acc::Pass(j + 1, LuaSyntaxKind::CallArgList)
    } else {
        Acc::Fail(Seq::empty(), "expect args"@, tok_range(toks, eofr, j))
    }
}

/// After the first argument: `, expr` repeated, then the closing
/// parenthesis.
pub open spec fn accept_args_rest(toks: Seq<Token>, eofr: SourceRange, j: int) -> Acc
    decreases toks.len() - j, 0int,
    when 0 <= j <= toks.len()
{
    if tok_kind(toks, j) == LuaTokenKind::TkComma {
        match accept_expr(toks, eofr, j + 1) {
            Acc::Pass(ni, _) => if j < ni <= toks.len() {
                accept_args_rest(toks, eofr, ni)
            } else {
                Acc::Pass(ni, LuaSyntaxKind::CallArgList)
            },
            Acc::Fail(tr, m, rg) => Acc::Fail(tr, m, rg),
        }
    } else if tok_kind(toks, j) == LuaTokenKind::TkRightParen {
        Acc::Pass(j + 1, LuaSyntaxKind::CallArgList)
    } else {
        Acc::Fail(Seq::empty(), "unexpected token"@, tok_range(toks, eofr, j))
    }
}

/// What every parsing step guarantees: the parser stays well-formed, the
/// input is untouched, the cursor only advances, errors only accumulate,
/// recorded node starts keep their kinds, and the nesting depth is
/// restored on every path — error paths resolve the node they opened.
pub open spec fn step_post(pre: LuaParser, post: LuaParser, ok: bool) -> bool {
    &&& post.wf()
    &&& post.text@ == pre.text@
    &&& post.tokens@ == pre.tokens@
    &&& pre.index <= post.index
    &&& post.mark_level == pre.mark_level
    &&& errors_extended(pre.errors@, post.errors@)
    &&& starts_preserved(pre.events@, post.events@)
}

/// `step_post`, plus: a successful parse hands back a completed marker
/// whose start still addresses a node-start event.
pub open spec fn parse_post(pre: LuaParser, post: LuaParser, r: ParseResult) -> bool {
    &&& step_post(pre, post, r is Ok)
    &&& (r matches Ok(cm) ==> cm.start < post.events@.len() && post.events@[cm.start as int]
        is NodeStart)
}

/// The parse function behaves exactly as the acceptance relation says:
/// success if and only if the construct is accepted; on success the
/// cursor lands where the relation says, the completed marker carries the
/// stated kind, and no error is recorded; on failure the returned error
/// carries the stated message and range, and exactly the stated
/// contextual errors are appended to the list, in order.
pub open spec fn accept_post(pre: LuaParser, post: LuaParser, r: ParseResult, a: Acc) -> bool {
    &&& (r is Ok <==> a is Pass)
    &&& (a matches Acc::Pass(ni, k) ==> post.index == ni && post.errors@ == pre.errors@ && (
    r matches Ok(cm) && cm.kind == k))
    &&& (a matches Acc::Fail(trail, msg, rg) ==> (r matches Err(e) && e.message@ == msg && e.range
        == rg) && post.errors@.len() == pre.errors@.len() + trail.len() && (forall|q: int|
        #![auto]
        0 <= q < trail.len() ==> post.errors@[pre.errors@.len() + q].message@ == trail[q].0
            && post.errors@[pre.errors@.len() + q].range == trail[q].1))
}

/// Consume the current token if it has the expected kind, else return the
/// error to decorate upstream, recording nothing.
pub fn expect_token(p: &mut LuaParser, token: LuaTokenKind) -> (r: Result<(), LuaParseError>)
    requires
        old(p).wf(),
        token != LuaTokenKind::TkEof,
    ensures
        step_post(*old(p), *final(p), r is Ok),
        final(p).errors@ == old(p).errors@,
        r is Ok <==> old(p).spec_current_token() == token,
        r is Ok ==> final(p).index == old(p).index + 1,
        r matches Err(e) ==> *final(p) == *old(p) && e.message@ == "unexpected token"@ && e.range
            == old(p).spec_current_range(),
{
    if p.current_token() == token {
        p.bump();
        Ok(())
    } else {
        Err(LuaParseError::from_source_range("unexpected token", p.current_token_range()))
    }
}

/// Consume the current token if it has the given kind.
pub fn if_token_bump(p: &mut LuaParser, token: LuaTokenKind) -> (r: bool)
    requires
        old(p).wf(),
        token != LuaTokenKind::TkEof,
    ensures
        step_post(*old(p), *final(p), true),
        final(p).errors@ == old(p).errors@,
        r == (old(p).spec_current_token() == token),
        r ==> final(p).index == old(p).index + 1,
        !r ==> *final(p) == *old(p),
{
    if p.current_token() == token {
        p.bump();
        true
    } else {
        false
    }
}

/// Statement blocks belong to the statement grammar, which lies outside
/// this crate; a closure body is recorded losslessly as a flat run of
/// tokens under a block node, up to the closing keyword. This always
/// succeeds and consumes exactly up to the closing keyword or the end of
/// input.
pub fn parse_block(p: &mut LuaParser) -> (r: ParseResult)
    requires
        old(p).wf(),
    ensures
        parse_post(*old(p), *final(p), r),
        r is Ok,
        r matches Ok(cm) ==> cm.kind == LuaSyntaxKind::Block,
        final(p).index as int == block_end(old(p).tokens@, old(p).index as int),
        final(p).errors@ == old(p).errors@,
{
    let ghost toks0 = old(p).tokens@;
    let ghost i0 = old(p).index as int;
    let m = p.mark(LuaSyntaxKind::Block);
    while p.current_token() != LuaTokenKind::TkEnd && p.current_token() != LuaTokenKind::TkEof
        invariant
            p.wf(),
            p.text@ == old(p).text@,
            p.tokens@ == old(p).tokens@,
            old(p).index <= p.index,
            p.mark_level == old(p).mark_level + 1,
            p.errors@ == old(p).errors@,
            starts_preserved(old(p).events@, p.events@),
            m.position < p.events@.len(),
            p.events@[m.position as int] is NodeStart,
            p.events@[m.position as int]->NodeStart_kind == LuaSyntaxKind::Block,
            block_end(toks0, p.index as int) == block_end(toks0, i0),
        decreases p.tokens@.len() - p.index,
    {
        p.bump();
    }
    Ok(m.complete(p))
}

/// Entry point of the expression grammar.
pub fn parse_expr(p: &mut LuaParser) -> (r: ParseResult)
    requires
        old(p).wf(),
    ensures
        parse_post(*old(p), *final(p), r),
        r is Ok ==> old(p).index < final(p).index,
        r matches Ok(cm) ==> is_expr_kind(cm.kind),
        accept_post(
            *old(p),
            *final(p),
            r,
            accept_expr(old(p).tokens@, spec_eof_range(*old(p)), old(p).index as int),
        ),
    decreases old(p).tokens@.len() - old(p).index, 6int,
{
    parse_sub_expr(p, 0)
}

/// Precedence climbing: a unary or simple expression, then a left fold of
/// every binary operator whose left priority exceeds `limit`.
fn parse_sub_expr(p: &mut LuaParser, limit: i32) -> (r: ParseResult)
    requires
        old(p).wf(),
    ensures
        parse_post(*old(p), *final(p), r),
        r is Ok ==> old(p).index < final(p).index,
        r matches Ok(cm) ==> is_expr_kind(cm.kind),
        accept_post(
            *old(p),
            *final(p),
            r,
            accept_sub_expr(
                old(p).tokens@,
                spec_eof_range(*old(p)),
                old(p).index as int,
                limit as int,
            ),
        ),
    decreases old(p).tokens@.len() - old(p).index, 5int,
{
    let ghost toks0 = old(p).tokens@;
    let ghost eofr0 = spec_eof_range(*old(p));
    let ghost i0 = old(p).index as int;
    let uop = LuaOpKind::to_unary_operator(p.current_token());
    let mut cm: CompleteMarker;
    if uop != UnaryOperator::OpNop {
        proof {
            assert(spec_unary_operator(LuaTokenKind::TkEof) == UnaryOperator::OpNop);
        }
        let m = p.mark(LuaSyntaxKind::UnaryExpr);
        let range = p.current_token_range();
        p.bump();
        match parse_sub_expr(p, UNARY_PRIORITY) {
            Ok(_) => {},
            Err(err) => {
                p.push_error(
                    LuaParseError::from_source_range(
                        "unary operator not followed by expression",
                        range,
                    ),
                );
                m.complete(p);
                return Err(err);
            },
        }
        cm = m.complete(p);
    } else {
        match parse_simple_expr(p) {
            Ok(c) => {
                cm = c;
            },
            Err(err) => {
                return Err(err);
            },
        }
    }
    let mut bop = LuaOpKind::to_binary_operator(p.current_token());
    while bop != BinaryOperator::OpNop && bop.get_priority().left > limit
        invariant
            p.wf(),
            p.text@ == old(p).text@,
            p.tokens@ == old(p).tokens@,
            old(p).index < p.index,
            p.mark_level == old(p).mark_level,
            p.errors@ == old(p).errors@,
            starts_preserved(old(p).events@, p.events@),
            cm.start < p.events@.len(),
            p.events@[cm.start as int] is NodeStart,
            is_expr_kind(cm.kind),
            bop == spec_binary_operator(p.spec_current_token()),
            accept_sub_expr(toks0, eofr0, i0, limit as int) == accept_bin_rest(
                toks0,
                eofr0,
                p.index as int,
                limit as int,
                cm.kind,
            ),
        decreases p.tokens@.len() - p.index,
    {
        proof {
            assert(spec_binary_operator(LuaTokenKind::TkEof) == BinaryOperator::OpNop);
        }
        let range = p.current_token_range();
        let m = cm.precede(p, LuaSyntaxKind::BinaryExpr);
        p.bump();
        let right_priority = bop.get_priority().right;
        match parse_sub_expr(p, right_priority) {
            Ok(_) => {},
            Err(err) => {
                p.push_error(
                    LuaParseError::from_source_range(
                        "binary operator not followed by expression",
                        range,
                    ),
                );
                m.complete(p);
                return Err(err);
            },
        }
        cm = m.complete(p);
        bop = LuaOpKind::to_binary_operator(p.current_token());
    }
    Ok(cm)
}

/// A literal leaf, a table constructor, a closure, or a suffixed primary
/// expression, by one-token dispatch.
fn parse_simple_expr(p: &mut LuaParser) -> (r: ParseResult)
    requires
        old(p).wf(),
    ensures
        parse_post(*old(p), *final(p), r),
        r is Ok ==> old(p).index < final(p).index,
        r matches Ok(cm) ==> is_expr_kind(cm.kind),
        accept_post(
            *old(p),
            *final(p),
            r,
            accept_simple(old(p).tokens@, spec_eof_range(*old(p)), old(p).index as int),
        ),
    decreases old(p).tokens@.len() - old(p).index, 4int,
{
    match p.current_token() {
        LuaTokenKind::TkInt | LuaTokenKind::TkFloat | LuaTokenKind::TkComplex
        | LuaTokenKind::TkNil | LuaTokenKind::TkTrue | LuaTokenKind::TkFalse
        | LuaTokenKind::TkDots | LuaTokenKind::TkString | LuaTokenKind::TkLongString => {
            let m = p.mark(LuaSyntaxKind::LiteralExpr);
            p.bump();
            Ok(m.complete(p))
        },
        LuaTokenKind::TkLeftBrace => parse_table_expr(p),
        LuaTokenKind::TkFunction => parse_closure_expr(p),
        _ => parse_suffixed_expr(p),
    }
}

/// `function (params) block end`; the body is only parsed when the very
/// next token is not already the closing keyword.
pub fn parse_closure_expr(p: &mut LuaParser) -> (r: ParseResult)
    requires
        old(p).wf(),
    ensures
        parse_post(*old(p), *final(p), r),
        r is Ok ==> old(p).index < final(p).index,
        r matches Ok(cm) ==> cm.kind == LuaSyntaxKind::ClosureExpr,
        accept_post(
            *old(p),
            *final(p),
            r,
            accept_closure(old(p).tokens@, spec_eof_range(*old(p)), old(p).index as int),
        ),
    decreases old(p).tokens@.len() - old(p).index, 3int,
{
    let m = p.mark(LuaSyntaxKind::ClosureExpr);
    if_token_bump(p, LuaTokenKind::TkFunction);
    match parse_param_list(p) {
        Ok(_) => {},
        Err(err) => {
            m.complete(p);
            return Err(err);
        },
    }
    if p.current_token() != LuaTokenKind::TkEnd {
        match parse_block(p) {
            Ok(_) => {},
            Err(err) => {
                m.complete(p);
                return Err(err);
            },
        }
    }
    match expect_token(p, LuaTokenKind::TkEnd) {
        Ok(_) => {},
        Err(err) => {
            m.complete(p);
            return Err(err);
        },
    }
    Ok(m.complete(p))
}

/// `( name, name, ... )`, each parameter a name or a varargs marker.
fn parse_param_list(p: &mut LuaParser) -> (r: ParseResult)
    requires
        old(p).wf(),
    ensures
        parse_post(*old(p), *final(p), r),
        r is Ok ==> old(p).index < final(p).index,
        r matches Ok(cm) ==> cm.kind == LuaSyntaxKind::ParamList,
        accept_post(
            *old(p),
            *final(p),
            r,
            accept_param_list(old(p).tokens@, spec_eof_range(*old(p)), old(p).index as int),
        ),
    decreases old(p).tokens@.len() - old(p).index, 2int,
{
    let ghost toks0 = old(p).tokens@;
    let ghost eofr0 = spec_eof_range(*old(p));
    let ghost i0 = old(p).index as int;
    let m = p.mark(LuaSyntaxKind::ParamList);
    match expect_token(p, LuaTokenKind::TkLeftParen) {
        Ok(_) => {},
        Err(err) => {
            m.complete(p);
            return Err(err);
        },
    }
    if p.current_token() != LuaTokenKind::TkRightParen {
        match parse_param_name(p) {
            Ok(_) => {},
            Err(err) => {
                m.complete(p);
                return Err(err);
            },
        }
        while p.current_token() == LuaTokenKind::TkComma
            invariant
                p.wf(),
                p.text@ == old(p).text@,
                p.tokens@ == old(p).tokens@,
                old(p).index < p.index,
                p.mark_level == old(p).mark_level + 1,
                p.errors@ == old(p).errors@,
                starts_preserved(old(p).events@, p.events@),
                m.position < p.events@.len(),
                p.events@[m.position as int] is NodeStart,
                p.events@[m.position as int]->NodeStart_kind == LuaSyntaxKind::ParamList,
                accept_param_list(toks0, eofr0, i0) == accept_param_rest(
                    toks0,
                    eofr0,
                    p.index as int,
                ),
            decreases p.tokens@.len() - p.index,
        {
            p.bump();
            match parse_param_name(p) {
                Ok(_) => {},
                Err(err) => {
                    m.complete(p);
                    return Err(err);
                },
            }
        }
    }
    match expect_token(p, LuaTokenKind::TkRightParen) {
        Ok(_) => {},
        Err(err) => {
            m.complete(p);
            return Err(err);
        },
    }
    Ok(m.complete(p))
}

/// One parameter: a name token or the varargs marker.
fn parse_param_name(p: &mut LuaParser) -> (r: ParseResult)
    requires
        old(p).wf(),
    ensures
        parse_post(*old(p), *final(p), r),
        r is Ok ==> old(p).index < final(p).index,
        r matches Ok(cm) ==> cm.kind == LuaSyntaxKind::ParamName,
        accept_post(
            *old(p),
            *final(p),
            r,
            accept_param_name(old(p).tokens@, spec_eof_range(*old(p)), old(p).index as int),
        ),
    decreases old(p).tokens@.len() - old(p).index, 1int,
{
    let m = p.mark(LuaSyntaxKind::ParamName);
    if p.current_token() == LuaTokenKind::TkName || p.current_token() == LuaTokenKind::TkDots {
        p.bump();
    } else {
        let err = LuaParseError::from_source_range(
            "expect parameter name",
            p.current_token_range(),
        );
        m.complete(p);
        return Err(err);
    }
    Ok(m.complete(p))
}

/// `{ field (sep field)* sep? }` with `,` or `;` separators and a
/// tolerated trailing separator before the closing brace.
fn parse_table_expr(p: &mut LuaParser) -> (r: ParseResult)
    requires
        old(p).wf(),
        old(p).spec_current_token() == LuaTokenKind::TkLeftBrace,
    ensures
        parse_post(*old(p), *final(p), r),
        r is Ok ==> old(p).index < final(p).index,
        r matches Ok(cm) ==> cm.kind == LuaSyntaxKind::TableExpr,
        accept_post(
            *old(p),
            *final(p),
            r,
            accept_table(old(p).tokens@, spec_eof_range(*old(p)), old(p).index as int),
        ),
    decreases old(p).tokens@.len() - old(p).index, 3int,
{
    let ghost toks0 = old(p).tokens@;
    let ghost eofr0 = spec_eof_range(*old(p));
    let ghost i0 = old(p).index as int;
    let m = p.mark(LuaSyntaxKind::TableExpr);
    p.bump();
    if p.current_token() == LuaTokenKind::TkRightBrace {
        p.bump();
        return Ok(m.complete(p));
    }
    match parse_field(p) {
        Ok(_) => {},
        Err(err) => {
            m.complete(p);
            return Err(err);
        },
    }
    while p.current_token() == LuaTokenKind::TkComma || p.current_token()
        == LuaTokenKind::TkSemicolon
        invariant
            p.wf(),
            p.text@ == old(p).text@,
            p.tokens@ == old(p).tokens@,
            old(p).index < p.index,
            p.mark_level == old(p).mark_level + 1,
            p.errors@ == old(p).errors@,
            starts_preserved(old(p).events@, p.events@),
            m.position < p.events@.len(),
            p.events@[m.position as int] is NodeStart,
            p.events@[m.position as int]->NodeStart_kind == LuaSyntaxKind::TableExpr,
            accept_table(toks0, eofr0, i0) == accept_table_rest(toks0, eofr0, p.index as int),
        decreases p.tokens@.len() - p.index,
    {
        p.bump();
        if p.current_token() != LuaTokenKind::TkRightBrace {
            match parse_field(p) {
                Ok(_) => {},
                Err(err) => {
                    m.complete(p);
                    return Err(err);
                },
            }
        }
    }
    match expect_token(p, LuaTokenKind::TkRightBrace) {
        Ok(_) => {},
        Err(err) => {
            m.complete(p);
            return Err(err);
        },
    }
    Ok(m.complete(p))
}

/// One table field, opened tentatively as a positional value and
/// reclassified through the marker once look-ahead reveals a
/// `[expr] = expr` or `name = expr` assignment form.
#[verifier::rlimit(60)]
fn parse_field(p: &mut LuaParser) -> (r: ParseResult)
    requires
        old(p).wf(),
    ensures
        parse_post(*old(p), *final(p), r),
        r is Ok ==> old(p).index < final(p).index,
        r matches Ok(cm) ==> (cm.kind == LuaSyntaxKind::TableFieldValue || cm.kind
            == LuaSyntaxKind::TableFieldAssign),
        accept_post(
            *old(p),
            *final(p),
            r,
            accept_field(old(p).tokens@, spec_eof_range(*old(p)), old(p).index as int),
        ),
    decreases old(p).tokens@.len() - old(p).index, 7int,
{
    let mut m = p.mark(LuaSyntaxKind::TableFieldValue);
    if p.current_token() == LuaTokenKind::TkLeftBracket {
        m.set_kind(p, LuaSyntaxKind::TableFieldAssign);
        p.bump();
        match parse_expr(p) {
            Ok(_) => {},
            Err(err) => {
                m.complete(p);
                return Err(err);
            },
        }
        match expect_token(p, LuaTokenKind::TkRightBracket) {
            Ok(_) => {},
            Err(err) => {
                m.complete(p);
                return Err(err);
            },
        }
        match expect_token(p, LuaTokenKind::TkAssign) {
            Ok(_) => {},
            Err(err) => {
                m.complete(p);
                return Err(err);
            },
        }
        match parse_expr(p) {
            Ok(_) => {},
            Err(err) => {
                m.complete(p);
                return Err(err);
            },
        }
    } else if p.current_token() == LuaTokenKind::TkName {
        if p.peek_next_token() == LuaTokenKind::TkAssign {
            m.set_kind(p, LuaSyntaxKind::TableFieldAssign);
            p.bump();
            p.bump();
            match parse_expr(p) {
                Ok(_) => {},
                Err(err) => {
                    m.complete(p);
                    return Err(err);
                },
            }
        } else {
            match parse_expr(p) {
                Ok(_) => {},
                Err(err) => {
                    m.complete(p);
                    return Err(err);
                },
            }
        }
    } else {
        match parse_expr(p) {
            Ok(_) => {},
            Err(err) => {
                m.complete(p);
                return Err(err);
            },
        }
    }
    Ok(m.complete(p))
}

/// A primary expression followed by a left fold of index and call
/// suffixes, each new suffix preceding the accumulated result.
fn parse_suffixed_expr(p: &mut LuaParser) -> (r: ParseResult)
    requires
        old(p).wf(),
    ensures
        parse_post(*old(p), *final(p), r),
        r is Ok ==> old(p).index < final(p).index,
        r matches Ok(cm) ==> is_expr_kind(cm.kind),
        accept_post(
            *old(p),
            *final(p),
            r,
            accept_suffixed(old(p).tokens@, spec_eof_range(*old(p)), old(p).index as int),
        ),
    decreases old(p).tokens@.len() - old(p).index, 3int,
{
    let ghost toks0 = old(p).tokens@;
    let ghost eofr0 = spec_eof_range(*old(p));
    let ghost i0 = old(p).index as int;
    let mut cm = match parse_primary_expr(p) {
        Ok(c) => c,
        Err(err) => {
            return Err(err);
        },
    };
    let mut t = p.current_token();
    while t == LuaTokenKind::TkDot || t == LuaTokenKind::TkColon || t
        == LuaTokenKind::TkLeftBracket || t == LuaTokenKind::TkLeftParen || t
        == LuaTokenKind::TkLongString || t == LuaTokenKind::TkString || t
        == LuaTokenKind::TkLeftBrace
        invariant
            p.wf(),
            p.text@ == old(p).text@,
            p.tokens@ == old(p).tokens@,
            old(p).index < p.index,
            p.mark_level == old(p).mark_level,
            p.errors@ == old(p).errors@,
            starts_preserved(old(p).events@, p.events@),
            cm.start < p.events@.len(),
            p.events@[cm.start as int] is NodeStart,
            is_expr_kind(cm.kind),
            t == p.spec_current_token(),
            accept_suffixed(toks0, eofr0, i0) == accept_suffix_rest(
                toks0,
                eofr0,
                p.index as int,
                cm.kind,
            ),
        decreases p.tokens@.len() - p.index,
    {
        if t == LuaTokenKind::TkDot || t == LuaTokenKind::TkColon || t
            == LuaTokenKind::TkLeftBracket {
            let m = cm.precede(p, LuaSyntaxKind::IndexExpr);
            match parse_index_struct(p) {
                Ok(_) => {},
                Err(err) => {
                    m.complete(p);
                    return Err(err);
                },
            }
            cm = m.complete(p);
        } else {
            let m = cm.precede(p, LuaSyntaxKind::CallExpr);
            match parse_args(p) {
                Ok(_) => {},
                Err(err) => {
                    m.complete(p);
                    return Err(err);
                },
            }
            cm = m.complete(p);
        }
        t = p.current_token();
    }
    Ok(cm)
}

/// A name leaf or a parenthesized sub-expression.
fn parse_primary_expr(p: &mut LuaParser) -> (r: ParseResult)
    requires
        old(p).wf(),
    ensures
        parse_post(*old(p), *final(p), r),
        r is Ok ==> old(p).index < final(p).index,
        r matches Ok(cm) ==> is_expr_kind(cm.kind),
        accept_post(
            *old(p),
            *final(p),
            r,
            accept_primary(old(p).tokens@, spec_eof_range(*old(p)), old(p).index as int),
        ),
    decreases old(p).tokens@.len() - old(p).index, 2int,
{
    match p.current_token() {
        LuaTokenKind::TkName => {
            let m = p.mark(LuaSyntaxKind::NameExpr);
            p.bump();
            Ok(m.complete(p))
        },
        LuaTokenKind::TkLeftParen => {
            let m = p.mark(LuaSyntaxKind::ParenExpr);
            p.bump();
            match parse_expr(p) {
                Ok(_) => {},
                Err(err) => {
                    m.complete(p);
                    return Err(err);
                },
            }
            match expect_token(p, LuaTokenKind::TkRightParen) {
                Ok(_) => {},
                Err(err) => {
                    m.complete(p);
                    return Err(err);
                },
            }
            Ok(m.complete(p))
        },
        _ => Err(
            LuaParseError::from_source_range("expect primary expression", p.current_token_range()),
        ),
    }
}

/// `.name`, `:name`, or `[expr]` after an indexable expression.
fn parse_index_struct(p: &mut LuaParser) -> (r: Result<(), LuaParseError>)
    requires
        old(p).wf(),
    ensures
        step_post(*old(p), *final(p), r is Ok),
        r is Ok ==> old(p).index < final(p).index,
        ({
            let a = accept_index_struct(
                old(p).tokens@,
                spec_eof_range(*old(p)),
                old(p).index as int,
            );
            &&& (r is Ok <==> a is Pass)
            &&& (a matches Acc::Pass(ni, _) ==> final(p).index == ni && final(p).errors@ == old(
                p,
            ).errors@)
            &&& (a matches Acc::Fail(trail, msg, rg) ==> (r matches Err(e) && e.message@ == msg
                && e.range == rg) && final(p).errors@.len() == old(p).errors@.len() + trail.len()
                && (forall|q: int|
                #![auto]
                0 <= q < trail.len() ==> final(p).errors@[old(p).errors@.len() + q].message@
                    == trail[q].0 && final(p).errors@[old(p).errors@.len() + q].range
                    == trail[q].1))
        }),
    decreases old(p).tokens@.len() - old(p).index, 1int,
{
    match p.current_token() {
        LuaTokenKind::TkLeftBracket => {
            p.bump();
            match parse_expr(p) {
                Ok(_) => {},
                Err(err) => {
                    return Err(err);
                },
            }
            match expect_token(p, LuaTokenKind::TkRightBracket) {
                Ok(_) => {},
                Err(err) => {
                    return Err(err);
                },
            }
        },
        LuaTokenKind::TkDot | LuaTokenKind::TkColon => {
            p.bump();
            match expect_token(p, LuaTokenKind::TkName) {
                Ok(_) => {},
                Err(err) => {
                    return Err(err);
                },
            }
        },
        _ => {
            return Err(
                LuaParseError::from_source_range("expect index struct", p.current_token_range()),
            );
        },
    }
    Ok(())
}

/// Call arguments: a parenthesized expression list, a single table
/// constructor, or a single string literal.
fn parse_args(p: &mut LuaParser) -> (r: ParseResult)
    requires
        old(p).wf(),
    ensures
        parse_post(*old(p), *final(p), r),
        r is Ok ==> old(p).index < final(p).index,
        r matches Ok(cm) ==> cm.kind == LuaSyntaxKind::CallArgList,
        accept_post(
            *old(p),
            *final(p),
            r,
            accept_args(old(p).tokens@, spec_eof_range(*old(p)), old(p).index as int),
        ),
    decreases old(p).tokens@.len() - old(p).index, 4int,
{
    let ghost toks0 = old(p).tokens@;
    let ghost eofr0 = spec_eof_range(*old(p));
    let ghost i0 = old(p).index as int;
    let m = p.mark(LuaSyntaxKind::CallArgList);
    match p.current_token() {
        LuaTokenKind::TkLeftParen => {
            p.bump();
            if p.current_token() != LuaTokenKind::TkRightParen {
                match parse_expr(p) {
                    Ok(_) => {},
                    Err(err) => {
                        m.complete(p);
                        return Err(err);
                    },
                }
                while p.current_token() == LuaTokenKind::TkComma
                    invariant
                        p.wf(),
                        p.text@ == old(p).text@,
                        p.tokens@ == old(p).tokens@,
                        old(p).index < p.index,
                        p.mark_level == old(p).mark_level + 1,
                        p.errors@ == old(p).errors@,
                        starts_preserved(old(p).events@, p.events@),
                        m.position < p.events@.len(),
                        p.events@[m.position as int] is NodeStart,
                        p.events@[m.position as int]->NodeStart_kind == LuaSyntaxKind::CallArgList,
                        accept_args(toks0, eofr0, i0) == accept_args_rest(
                            toks0,
                            eofr0,
                            p.index as int,
                        ),
                    decreases p.tokens@.len() - p.index,
                {
                    p.bump();
                    match parse_expr(p) {
                        Ok(_) => {},
                        Err(err) => {
                            m.complete(p);
                            return Err(err);
                        },
                    }
                }
            }
            match expect_token(p, LuaTokenKind::TkRightParen) {
                Ok(_) => {},
                Err(err) => {
                    m.complete(p);
                    return Err(err);
                },
            }
        },
        LuaTokenKind::TkLeftBrace => {
            match parse_table_expr(p) {
                Ok(_) => {},
                Err(err) => {
                    m.complete(p);
                    return Err(err);
                },
            }
        },
        LuaTokenKind::TkString | LuaTokenKind::TkLongString => {
            p.bump();
        },
        _ => {
            let err = LuaParseError::from_source_range("expect args", p.current_token_range());
            m.complete(p);
            return Err(err);
        },
    }
    Ok(m.complete(p))
}

/// Precedence correctness, acceptance half: for every pair of binary
/// operators, the five-token sequence `a op1 b op2 c` of three names is
/// accepted whole — whichever operator binds tighter — and completes as a
/// binary expression. (Which operator nests inside which is recorded in
/// the event stream, beyond what the acceptance relation states.)
pub proof fn lemma_binary_pair_accepted(toks: Seq<Token>, eofr: SourceRange)
    requires
        toks.len() == 5,
        toks[0].kind == LuaTokenKind::TkName,
        toks[2].kind == LuaTokenKind::TkName,
        toks[4].kind == LuaTokenKind::TkName,
        spec_binary_operator(toks[1].kind) != BinaryOperator::OpNop,
        spec_binary_operator(toks[3].kind) != BinaryOperator::OpNop,
    ensures
        accept_expr(toks, eofr, 0) == (Acc::Pass(5int, LuaSyntaxKind::BinaryExpr)),
{
    let op1 = spec_binary_operator(toks[1].kind);
    let op2 = spec_binary_operator(toks[3].kind);
    // tokens that act as binary operators never start a suffix
    assert(spec_binary_operator(LuaTokenKind::TkDot) == BinaryOperator::OpNop);
    assert(spec_binary_operator(LuaTokenKind::TkColon) == BinaryOperator::OpNop);
    assert(spec_binary_operator(LuaTokenKind::TkLeftBracket) == BinaryOperator::OpNop);
    assert(spec_binary_operator(LuaTokenKind::TkLeftParen) == BinaryOperator::OpNop);
    assert(spec_binary_operator(LuaTokenKind::TkLeftBrace) == BinaryOperator::OpNop);
    assert(spec_binary_operator(LuaTokenKind::TkString) == BinaryOperator::OpNop);
    assert(spec_binary_operator(LuaTokenKind::TkLongString) == BinaryOperator::OpNop);
    assert(!is_suffix_index_kind(toks[1].kind) && !is_suffix_call_kind(toks[1].kind));
    assert(!is_suffix_index_kind(toks[3].kind) && !is_suffix_call_kind(toks[3].kind));
    // every real binary operator binds with positive priority
    assert(spec_priority(op1).left as int >= 1);
    assert(spec_priority(op2).left as int >= 1);
    assert(tok_kind(toks, 5) == LuaTokenKind::TkEof);
    // each name alone is a simple expression consuming one token
    assert(accept_primary(toks, eofr, 0) == (Acc::Pass(1int, LuaSyntaxKind::NameExpr)));
    assert(accept_suffix_rest(toks, eofr, 1, LuaSyntaxKind::NameExpr) == (Acc::Pass(
        1int,
        LuaSyntaxKind::NameExpr,
    )));
    assert(accept_suffixed(toks, eofr, 0) == (Acc::Pass(1int, LuaSyntaxKind::NameExpr)));
    assert(accept_simple(toks, eofr, 0) == (Acc::Pass(1int, LuaSyntaxKind::NameExpr)));
    assert(accept_primary(toks, eofr, 2) == (Acc::Pass(3int, LuaSyntaxKind::NameExpr)));
    assert(accept_suffix_rest(toks, eofr, 3, LuaSyntaxKind::NameExpr) == (Acc::Pass(
        3int,
        LuaSyntaxKind::NameExpr,
    )));
    assert(accept_suffixed(toks, eofr, 2) == (Acc::Pass(3int, LuaSyntaxKind::NameExpr)));
    assert(accept_simple(toks, eofr, 2) == (Acc::Pass(3int, LuaSyntaxKind::NameExpr)));
    assert(accept_primary(toks, eofr, 4) == (Acc::Pass(5int, LuaSyntaxKind::NameExpr)));
    assert(accept_suffix_rest(toks, eofr, 5, LuaSyntaxKind::NameExpr) == (Acc::Pass(
        5int,
        LuaSyntaxKind::NameExpr,
    )));
    assert(accept_suffixed(toks, eofr, 4) == (Acc::Pass(5int, LuaSyntaxKind::NameExpr)));
    assert(accept_simple(toks, eofr, 4) == (Acc::Pass(5int, LuaSyntaxKind::NameExpr)));
    // the last operand is accepted at any binding limit
    assert forall|l: int| #![auto]
        accept_sub_expr(toks, eofr, 4, l) == (Acc::Pass(5int, LuaSyntaxKind::NameExpr)) by {
        assert(accept_bin_rest(toks, eofr, 5, l, LuaSyntaxKind::NameExpr) == (Acc::Pass(
            5int,
            LuaSyntaxKind::NameExpr,
        )));
    }
    // the middle operand folds the second operator exactly when it binds
    // tighter than the context
    assert forall|l: int| #![auto]
        accept_sub_expr(toks, eofr, 2, l) == (if spec_priority(op2).left as int > l {
            Acc::Pass(5int, LuaSyntaxKind::BinaryExpr)
        } else {
            Acc::Pass(3int, LuaSyntaxKind::NameExpr)
        }) by {
        if spec_priority(op2).left as int > l {
            assert(accept_sub_expr(toks, eofr, 4, spec_priority(op2).right as int) == (Acc::Pass(
                5int,
                LuaSyntaxKind::NameExpr,
            )));
            assert(accept_bin_rest(toks, eofr, 5, l, LuaSyntaxKind::BinaryExpr) == (Acc::Pass(
                5int,
                LuaSyntaxKind::BinaryExpr,
            )));
            assert(accept_bin_rest(toks, eofr, 3, l, LuaSyntaxKind::NameExpr) == (Acc::Pass(
                5int,
                LuaSyntaxKind::BinaryExpr,
            )));
        } else {
            assert(accept_bin_rest(toks, eofr, 3, l, LuaSyntaxKind::NameExpr) == (Acc::Pass(
                3int,
                LuaSyntaxKind::NameExpr,
            )));
        }
    }
    // the whole sequence: the first operator always binds above limit 0
    if spec_priority(op2).left as int > spec_priority(op1).right as int {
        assert(accept_sub_expr(toks, eofr, 2, spec_priority(op1).right as int) == (Acc::Pass(
            5int,
            LuaSyntaxKind::BinaryExpr,
        )));
        assert(accept_bin_rest(toks, eofr, 5, 0, LuaSyntaxKind::BinaryExpr) == (Acc::Pass(
            5int,
            LuaSyntaxKind::BinaryExpr,
        )));
        assert(accept_bin_rest(toks, eofr, 1, 0, LuaSyntaxKind::NameExpr) == (Acc::Pass(
            5int,
            LuaSyntaxKind::BinaryExpr,
        )));
    } else {
        assert(accept_sub_expr(toks, eofr, 2, spec_priority(op1).right as int) == (Acc::Pass(
            3int,
            LuaSyntaxKind::NameExpr,
        )));
        assert(accept_sub_expr(toks, eofr, 4, spec_priority(op2).right as int) == (Acc::Pass(
            5int,
            LuaSyntaxKind::NameExpr,
        )));
        assert(accept_bin_rest(toks, eofr, 5, 0, LuaSyntaxKind::BinaryExpr) == (Acc::Pass(
            5int,
            LuaSyntaxKind::BinaryExpr,
        )));
        assert(accept_bin_rest(toks, eofr, 3, 0, LuaSyntaxKind::BinaryExpr) == (Acc::Pass(
            5int,
            LuaSyntaxKind::BinaryExpr,
        )));
        assert(accept_bin_rest(toks, eofr, 1, 0, LuaSyntaxKind::NameExpr) == (Acc::Pass(
            5int,
            LuaSyntaxKind::BinaryExpr,
        )));
    }
    assert(accept_sub_expr(toks, eofr, 0, 0) == (Acc::Pass(5int, LuaSyntaxKind::BinaryExpr)));
}

/// Error attachment: a lone operand followed by a bare binary operator is
/// rejected with exactly one contextual error, on the operator token,
/// identifying the missing binary operand.
pub proof fn lemma_error_attachment(toks: Seq<Token>, eofr: SourceRange)
    requires
        toks.len() == 2,
        toks[0].kind == LuaTokenKind::TkInt,
        toks[1].kind == LuaTokenKind::TkPlus,
    ensures
        accept_expr(toks, eofr, 0) matches Acc::Fail(trail, msg, rg) && trail.len() == 1
            && trail[0].0 == "binary operator not followed by expression"@ && trail[0].1
            == toks[1].range,
{
    let e = Seq::<(Seq<char>, SourceRange)>::empty();
    assert(tok_kind(toks, 0) == LuaTokenKind::TkInt);
    assert(tok_kind(toks, 1) == LuaTokenKind::TkPlus);
    assert(tok_kind(toks, 2) == LuaTokenKind::TkEof);
    assert(accept_primary(toks, eofr, 2) == (Acc::Fail(e, "expect primary expression"@, eofr)));
    assert(accept_suffixed(toks, eofr, 2) == (Acc::Fail(e, "expect primary expression"@, eofr)));
    assert(accept_simple(toks, eofr, 2) == (Acc::Fail(e, "expect primary expression"@, eofr)));
    let rp = spec_priority(BinaryOperator::OpAdd).right as int;
    assert(accept_sub_expr(toks, eofr, 2, rp) == (Acc::Fail(
        e,
        "expect primary expression"@,
        eofr,
    )));
    let trail1 = e.push(("binary operator not followed by expression"@, toks[1].range));
    assert(tok_range(toks, eofr, 1) == toks[1].range);
    assert(accept_bin_rest(toks, eofr, 1, 0, LuaSyntaxKind::LiteralExpr) == (Acc::Fail(
        trail1,
        "expect primary expression"@,
        eofr,
    )));
    assert(accept_simple(toks, eofr, 0) == (Acc::Pass(1int, LuaSyntaxKind::LiteralExpr)));
    assert(accept_sub_expr(toks, eofr, 0, 0) == (Acc::Fail(
        trail1,
        "expect primary expression"@,
        eofr,
    )));
    assert(trail1.len() == 1);
    assert(trail1[0].0 == "binary operator not followed by expression"@);
    assert(trail1[0].1 == toks[1].range);
}

} // verus!
