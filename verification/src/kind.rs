//! Token kinds, syntax-node kinds, operators and the operator-priority
//! tables of the expression grammar.
use vstd::prelude::*;

verus! {

/// A half-open byte range `[start_offset, start_offset + length)` into the
/// source text.
#[derive(Debug, Clone, Copy, PartialEq, Eq, Structural)]
pub struct SourceRange {
    pub start_offset: usize,
    pub length: usize,
}

/// Kind of a lexed token.
#[derive(Debug, Clone, Copy, PartialEq, Eq, Structural)]
pub enum LuaTokenKind {
    TkEof,
    TkName,
    TkInt,
    TkFloat,
    TkComplex,
    TkNil,
    TkTrue,
    TkFalse,
    TkDots,
    TkString,
    TkLongString,
    TkFunction,
    TkEnd,
    TkLeftParen,
    TkRightParen,
    TkLeftBrace,
    TkRightBrace,
    TkLeftBracket,
    TkRightBracket,
    TkComma,
    TkSemicolon,
    TkDot,
    TkColon,
    TkAssign,
    TkPlus,
    TkMinus,
    TkMul,
    TkDiv,
    TkIDiv,
    TkMod,
    TkPow,
    TkConcat,
    TkEq,
    TkNe,
    TkLt,
    TkLe,
    TkGt,
    TkGe,
    TkAnd,
    TkOr,
    TkNot,
    TkLen,
    TkBAnd,
    TkBOr,
    TkBXor,
    TkShl,
    TkShr,
}

/// Kind of a syntax-tree node. `Tombstone` is the erased classification
/// written by `Marker::undo` and by the tree builder when it consumes a
/// redirected node-start event.
#[derive(Debug, Clone, Copy, PartialEq, Eq, Structural)]
pub enum LuaSyntaxKind {
    Tombstone,
    Chunk,
    Block,
    LiteralExpr,
    NameExpr,
    ParenExpr,
    UnaryExpr,
    BinaryExpr,
    IndexExpr,
    CallExpr,
    CallArgList,
    TableExpr,
    TableFieldValue,
    TableFieldAssign,
    ClosureExpr,
    ParamList,
    ParamName,
    ForStat,
    ForRangeStat,
    LocalStat,
    LocalName,
    DocNameType,
    DocTagAlias,
    DocTagClass,
    DocTagEnum,
    DocTagField,
    DocTagParam,
}

/// The expression node kinds: what the expression parser returns and what
/// the semantic resolver classifies as an expression.
pub open spec fn is_expr_kind(k: LuaSyntaxKind) -> bool {
    match k {
        LuaSyntaxKind::LiteralExpr | LuaSyntaxKind::NameExpr | LuaSyntaxKind::ParenExpr
        | LuaSyntaxKind::UnaryExpr | LuaSyntaxKind::BinaryExpr | LuaSyntaxKind::IndexExpr
        | LuaSyntaxKind::CallExpr | LuaSyntaxKind::TableExpr | LuaSyntaxKind::ClosureExpr => true,
        _ => false,
    }
}

#[derive(Debug, Clone, Copy, PartialEq, Eq, Structural)]
pub enum UnaryOperator {
    OpNop,
    OpNot,
    OpLen,
    OpUnm,
    OpBNot,
}

#[derive(Debug, Clone, Copy, PartialEq, Eq, Structural)]
pub enum BinaryOperator {
    OpNop,
    OpAdd,
    OpSub,
    OpMul,
    OpDiv,
    OpIDiv,
    OpMod,
    OpPow,
    OpConcat,
    OpEq,
    OpNe,
    OpLt,
    OpLe,
    OpGt,
    OpGe,
    OpAnd,
    OpOr,
    OpBAnd,
    OpBOr,
    OpBXor,
    OpShl,
    OpShr,
}

/// Binding priority of a binary operator. Equal left and right priority
/// gives left associativity; right greater than left gives right
/// associativity.
#[derive(Debug, Clone, Copy, PartialEq, Eq, Structural)]
pub struct OpPriority {
    pub left: i32,
    pub right: i32,
}

/// Fixed binding priority of the unary operators.
pub const UNARY_PRIORITY: i32 = 12;

pub open spec fn spec_unary_operator(kind: LuaTokenKind) -> UnaryOperator {
    match kind {
        LuaTokenKind::TkNot => UnaryOperator::OpNot,
        LuaTokenKind::TkLen => UnaryOperator::OpLen,
        LuaTokenKind::TkMinus => UnaryOperator::OpUnm,
        LuaTokenKind::TkBXor => UnaryOperator::OpBNot,
        _ => UnaryOperator::OpNop,
    }
}

pub open spec fn spec_binary_operator(kind: LuaTokenKind) -> BinaryOperator {
    match kind {
        LuaTokenKind::TkPlus => BinaryOperator::OpAdd,
        LuaTokenKind::TkMinus => BinaryOperator::OpSub,
        LuaTokenKind::TkMul => BinaryOperator::OpMul,
        LuaTokenKind::TkDiv => BinaryOperator::OpDiv,
        LuaTokenKind::TkIDiv => BinaryOperator::OpIDiv,
        LuaTokenKind::TkMod => BinaryOperator::OpMod,
        LuaTokenKind::TkPow => BinaryOperator::OpPow,
        LuaTokenKind::TkConcat => BinaryOperator::OpConcat,
        LuaTokenKind::TkEq => BinaryOperator::OpEq,
        LuaTokenKind::TkNe => BinaryOperator::OpNe,
        LuaTokenKind::TkLt => BinaryOperator::OpLt,
        LuaTokenKind::TkLe => BinaryOperator::OpLe,
        LuaTokenKind::TkGt => BinaryOperator::OpGt,
        LuaTokenKind::TkGe => BinaryOperator::OpGe,
        LuaTokenKind::TkAnd => BinaryOperator::OpAnd,
        LuaTokenKind::TkOr => BinaryOperator::OpOr,
        LuaTokenKind::TkBAnd => BinaryOperator::OpBAnd,
        LuaTokenKind::TkBOr => BinaryOperator::OpBOr,
        LuaTokenKind::TkBXor => BinaryOperator::OpBXor,
        LuaTokenKind::TkShl => BinaryOperator::OpShl,
        LuaTokenKind::TkShr => BinaryOperator::OpShr,
        _ => BinaryOperator::OpNop,
    }
}

pub open spec fn spec_priority(op: BinaryOperator) -> OpPriority {
    match op {
        BinaryOperator::OpOr => OpPriority { left: 1, right: 1 },
        BinaryOperator::OpAnd => OpPriority { left: 2, right: 2 },
        BinaryOperator::OpLt | BinaryOperator::OpGt | BinaryOperator::OpLe
        | BinaryOperator::OpGe | BinaryOperator::OpNe | BinaryOperator::OpEq => OpPriority {
            left: 3,
            right: 3,
        },
        BinaryOperator::OpBOr => OpPriority { left: 4, right: 4 },
        BinaryOperator::OpBXor => OpPriority { left: 5, right: 5 },
        BinaryOperator::OpBAnd => OpPriority { left: 6, right: 6 },
        BinaryOperator::OpShl | BinaryOperator::OpShr => OpPriority { left: 7, right: 7 },
        BinaryOperator::OpConcat => OpPriority { left: 9, right: 8 },
        BinaryOperator::OpAdd | BinaryOperator::OpSub => OpPriority { left: 10, right: 10 },
        BinaryOperator::OpMul | BinaryOperator::OpDiv | BinaryOperator::OpIDiv
        | BinaryOperator::OpMod => OpPriority { left: 11, right: 11 },
        BinaryOperator::OpPow => OpPriority { left: 14, right: 13 },
        BinaryOperator::OpNop => OpPriority { left: 0, right: 0 },
    }
}

impl BinaryOperator {
    pub fn get_priority(self) -> (r: OpPriority)
        ensures
            r == spec_priority(self),
    {
        match self {
            BinaryOperator::OpOr => OpPriority { left: 1, right: 1 },
            BinaryOperator::OpAnd => OpPriority { left: 2, right: 2 },
            BinaryOperator::OpLt | BinaryOperator::OpGt | BinaryOperator::OpLe
            | BinaryOperator::OpGe | BinaryOperator::OpNe | BinaryOperator::OpEq => OpPriority {
                left: 3,
                right: 3,
            },
            BinaryOperator::OpBOr => OpPriority { left: 4, right: 4 },
            BinaryOperator::OpBXor => OpPriority { left: 5, right: 5 },
            BinaryOperator::OpBAnd => OpPriority { left: 6, right: 6 },
            BinaryOperator::OpShl | BinaryOperator::OpShr => OpPriority { left: 7, right: 7 },
            BinaryOperator::OpConcat => OpPriority { left: 9, right: 8 },
            BinaryOperator::OpAdd | BinaryOperator::OpSub => OpPriority { left: 10, right: 10 },
            BinaryOperator::OpMul | BinaryOperator::OpDiv | BinaryOperator::OpIDiv
            | BinaryOperator::OpMod => OpPriority { left: 11, right: 11 },
            BinaryOperator::OpPow => OpPriority { left: 14, right: 13 },
            BinaryOperator::OpNop => OpPriority { left: 0, right: 0 },
        }
    }
}

/// Classification of tokens into operators, mirrored by
/// `spec_unary_operator` and `spec_binary_operator`.
pub struct LuaOpKind;

impl LuaOpKind {
    pub fn to_unary_operator(kind: LuaTokenKind) -> (r: UnaryOperator)
        ensures
            r == spec_unary_operator(kind),
    {
        match kind {
            LuaTokenKind::TkNot => UnaryOperator::OpNot,
            LuaTokenKind::TkLen => UnaryOperator::OpLen,
            LuaTokenKind::TkMinus => UnaryOperator::OpUnm,
            LuaTokenKind::TkBXor => UnaryOperator::OpBNot,
            _ => UnaryOperator::OpNop,
        }
    }

    pub fn to_binary_operator(kind: LuaTokenKind) -> (r: BinaryOperator)
        ensures
            r == spec_binary_operator(kind),
    {
        match kind {
            LuaTokenKind::TkPlus => BinaryOperator::OpAdd,
            LuaTokenKind::TkMinus => BinaryOperator::OpSub,
            LuaTokenKind::TkMul => BinaryOperator::OpMul,
            LuaTokenKind::TkDiv => BinaryOperator::OpDiv,
            LuaTokenKind::TkIDiv => BinaryOperator::OpIDiv,
            LuaTokenKind::TkMod => BinaryOperator::OpMod,
            LuaTokenKind::TkPow => BinaryOperator::OpPow,
            LuaTokenKind::TkConcat => BinaryOperator::OpConcat,
            LuaTokenKind::TkEq => BinaryOperator::OpEq,
            LuaTokenKind::TkNe => BinaryOperator::OpNe,
            LuaTokenKind::TkLt => BinaryOperator::OpLt,
            LuaTokenKind::TkLe => BinaryOperator::OpLe,
            LuaTokenKind::TkGt => BinaryOperator::OpGt,
            LuaTokenKind::TkGe => BinaryOperator::OpGe,
            LuaTokenKind::TkAnd => BinaryOperator::OpAnd,
            LuaTokenKind::TkOr => BinaryOperator::OpOr,
            LuaTokenKind::TkBAnd => BinaryOperator::OpBAnd,
            LuaTokenKind::TkBOr => BinaryOperator::OpBOr,
            LuaTokenKind::TkBXor => BinaryOperator::OpBXor,
            LuaTokenKind::TkShl => BinaryOperator::OpShl,
            LuaTokenKind::TkShr => BinaryOperator::OpShr,
            _ => BinaryOperator::OpNop,
        }
    }
}

} // verus!
