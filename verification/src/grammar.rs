//! The grammar of the language, as functions from a token sequence and a
//! position to what is read there and the position after it. The parser in
//! `parser` computes exactly these functions.
//!
//! A position past the end of the sequence reads as `Eof`. Rules that read a
//! list of items, or that go on after a sub-rule, first check that the
//! sub-rule did not move backwards or past the end: no rule ever does (see
//! `progress`), and the check makes the recursion evidently terminate.
use vstd::prelude::*;

use crate::ast::{
    BinOp, SpecClass, SpecExpr, SpecField, SpecMethod, SpecParam, SpecProgram, SpecStmt, SpecType,
    UnaryOp, Visibility,
};
use crate::lexer::{SpecToken, SpecTokenKind};

verus! {

/// The mathematical model of a parser error.
pub enum SpecParseError {
    Expected { expected: SpecTokenKind, got: SpecTokenKind, line: nat, col: nat },
    ExpectedIdent { got: SpecTokenKind, line: nat, col: nat },
    ExpectedType { got: SpecTokenKind, line: nat },
    UnexpectedToken { got: SpecTokenKind, line: nat, col: nat },
}

/// What a rule reads at a position: a value and the position after it, or an error.
pub type Reading<A> = Result<(A, int), SpecParseError>;

/// The kind of the token at `p` (`Eof` past the end).
pub open spec fn kind_at(ts: Seq<SpecToken>, p: int) -> SpecTokenKind {
    if 0 <= p < ts.len() {
        ts[p].kind
    } else {
        SpecTokenKind::Eof
    }
}

/// The line of the token at `p`.
pub open spec fn line_at(ts: Seq<SpecToken>, p: int) -> nat {
    if 0 <= p < ts.len() {
        ts[p].line
    } else {
        0
    }
}

/// The column of the token at `p`.
pub open spec fn col_at(ts: Seq<SpecToken>, p: int) -> nat {
    if 0 <= p < ts.len() {
        ts[p].col
    } else {
        0
    }
}

/// `to` is reached from `from` without moving backwards or past the end.
pub open spec fn moves(ts: Seq<SpecToken>, from: int, to: int) -> bool {
    from <= to <= ts.len()
}

/// The error of a rule at `p` that cannot start an expression there.
pub open spec fn unexpected(ts: Seq<SpecToken>, p: int) -> SpecParseError {
    SpecParseError::UnexpectedToken { got: kind_at(ts, p), line: line_at(ts, p), col: col_at(ts, p) }
}

/// Requires the token `k` at `p`.
pub open spec fn expect_rule(ts: Seq<SpecToken>, p: int, k: SpecTokenKind) -> Result<int, SpecParseError> {
    if kind_at(ts, p) == k {
        Ok(p + 1)
    } else {
        Err(
            SpecParseError::Expected {
                expected: k,
                got: kind_at(ts, p),
                line: line_at(ts, p),
                col: col_at(ts, p),
            },
        )
    }
}

/// Requires an identifier at `p`, and reads its name.
pub open spec fn ident_rule(ts: Seq<SpecToken>, p: int) -> Reading<Seq<char>> {
    match kind_at(ts, p) {
        SpecTokenKind::Ident(name) => Ok((name, p + 1)),
        other => Err(
            SpecParseError::ExpectedIdent { got: other, line: line_at(ts, p), col: col_at(ts, p) },
        ),
    }
}

/// Skips the token `k` at `p` if it is there.
pub open spec fn eat_rule(ts: Seq<SpecToken>, p: int, k: SpecTokenKind) -> int {
    if kind_at(ts, p) == k {
        p + 1
    } else {
        p
    }
}

// ---------------------------------------------------------------------------
// Types
// ---------------------------------------------------------------------------

/// The type that a token names on its own, if any.
pub open spec fn base_type(k: SpecTokenKind) -> Option<SpecType> {
    match k {
        SpecTokenKind::Void => Some(SpecType::Void),
        SpecTokenKind::Int => Some(SpecType::Int),
        SpecTokenKind::Float => Some(SpecType::Float),
        SpecTokenKind::Bool => Some(SpecType::Bool),
        SpecTokenKind::StringType => Some(SpecType::Str),
        SpecTokenKind::Ident(n) => Some(SpecType::Named(n)),
        _ => None,
    }
}

/// type ::= base | base `[` `]`
pub open spec fn type_rule(ts: Seq<SpecToken>, p: int) -> Reading<SpecType> {
    match base_type(kind_at(ts, p)) {
        None => Err(SpecParseError::ExpectedType { got: kind_at(ts, p), line: line_at(ts, p) }),
        Some(t) => if kind_at(ts, p + 1) == SpecTokenKind::LBracket {
            match expect_rule(ts, p + 2, SpecTokenKind::RBracket) {
                Ok(q) => Ok((SpecType::Array(Box::new(t)), q)),
                Err(e) => Err(e),
            }
        } else {
            Ok((t, p + 1))
        },
    }
}

// ---------------------------------------------------------------------------
// Expressions
// ---------------------------------------------------------------------------

/// expr ::= or [`=` expr]        (assignment, to the right)
pub open spec fn expr_rule(ts: Seq<SpecToken>, p: int) -> Reading<SpecExpr>
    decreases ts.len() - p, 20int,
{
    match or_rule(ts, p) {
        Ok((lhs, q)) => if !moves(ts, p, q) {
            Err(unexpected(ts, q))
        } else if kind_at(ts, q) == SpecTokenKind::Eq {
            match expr_rule(ts, q + 1) {
                Ok((rhs, q2)) => Ok(
                    (SpecExpr::Assign { target: Box::new(lhs), value: Box::new(rhs) }, q2),
                ),
                Err(e) => Err(e),
            }
        } else {
            Ok((lhs, q))
        },
        Err(e) => Err(e),
    }
}

/// or ::= and { `||` and }
pub open spec fn or_rule(ts: Seq<SpecToken>, p: int) -> Reading<SpecExpr>
    decreases ts.len() - p, 19int,
{
    match and_rule(ts, p) {
        Ok((lhs, q)) => if !moves(ts, p, q) {
            Err(unexpected(ts, q))
        } else {
            or_rest(ts, lhs, q)
        },
        Err(e) => Err(e),
    }
}

/// The `{ `||` and }` part of `or`, after `lhs`.
pub open spec fn or_rest(ts: Seq<SpecToken>, lhs: SpecExpr, p: int) -> Reading<SpecExpr>
    decreases ts.len() - p, 18int,
{
    if kind_at(ts, p) == SpecTokenKind::Or {
        match and_rule(ts, p + 1) {
            Ok((rhs, q)) => if !moves(ts, p + 1, q) {
                Err(unexpected(ts, q))
            } else {
                or_rest(
                    ts,
                    SpecExpr::BinOp { op: BinOp::Or, lhs: Box::new(lhs), rhs: Box::new(rhs) },
                    q,
                )
            },
            Err(e) => Err(e),
        }
    } else {
        Ok((lhs, p))
    }
}

/// and ::= compare { `&&` compare }
pub open spec fn and_rule(ts: Seq<SpecToken>, p: int) -> Reading<SpecExpr>
    decreases ts.len() - p, 17int,
{
    match compare_rule(ts, p) {
        Ok((lhs, q)) => if !moves(ts, p, q) {
            Err(unexpected(ts, q))
        } else {
            and_rest(ts, lhs, q)
        },
        Err(e) => Err(e),
    }
}

/// The `{ `&&` compare }` part of `and`, after `lhs`.
pub open spec fn and_rest(ts: Seq<SpecToken>, lhs: SpecExpr, p: int) -> Reading<SpecExpr>
    decreases ts.len() - p, 16int,
{
    if kind_at(ts, p) == SpecTokenKind::And {
        match compare_rule(ts, p + 1) {
            Ok((rhs, q)) => if !moves(ts, p + 1, q) {
                Err(unexpected(ts, q))
            } else {
                and_rest(
                    ts,
                    SpecExpr::BinOp { op: BinOp::And, lhs: Box::new(lhs), rhs: Box::new(rhs) },
                    q,
                )
            },
            Err(e) => Err(e),
        }
    } else {
        Ok((lhs, p))
    }
}

/// The comparison operator that a token stands for, if any.
pub open spec fn compare_op(k: SpecTokenKind) -> Option<BinOp> {
    match k {
        SpecTokenKind::EqEq => Some(BinOp::Eq),
        SpecTokenKind::NotEq => Some(BinOp::NotEq),
        SpecTokenKind::Lt => Some(BinOp::Lt),
        SpecTokenKind::LtEq => Some(BinOp::LtEq),
        SpecTokenKind::Gt => Some(BinOp::Gt),
        SpecTokenKind::GtEq => Some(BinOp::GtEq),
        _ => None,
    }
}

/// The additive operator that a token stands for, if any.
pub open spec fn add_op(k: SpecTokenKind) -> Option<BinOp> {
    match k {
        SpecTokenKind::Plus => Some(BinOp::Add),
        SpecTokenKind::Minus => Some(BinOp::Sub),
        _ => None,
    }
}

/// The multiplicative operator that a token stands for, if any.
pub open spec fn mul_op(k: SpecTokenKind) -> Option<BinOp> {
    match k {
        SpecTokenKind::Star => Some(BinOp::Mul),
        SpecTokenKind::Slash => Some(BinOp::Div),
        SpecTokenKind::Percent => Some(BinOp::Mod),
        _ => None,
    }
}

/// compare ::= add [ compare_op add ]       (comparisons do not chain)
pub open spec fn compare_rule(ts: Seq<SpecToken>, p: int) -> Reading<SpecExpr>
    decreases ts.len() - p, 15int,
{
    match add_rule(ts, p) {
        Ok((lhs, q)) => if !moves(ts, p, q) {
            Err(unexpected(ts, q))
        } else {
            match compare_op(kind_at(ts, q)) {
                Some(op) => match add_rule(ts, q + 1) {
                    Ok((rhs, q2)) => Ok(
                        (SpecExpr::BinOp { op, lhs: Box::new(lhs), rhs: Box::new(rhs) }, q2),
                    ),
                    Err(e) => Err(e),
                },
                None => Ok((lhs, q)),
            }
        },
        Err(e) => Err(e),
    }
}

/// add ::= mul { add_op mul }
pub open spec fn add_rule(ts: Seq<SpecToken>, p: int) -> Reading<SpecExpr>
    decreases ts.len() - p, 14int,
{
    match mul_rule(ts, p) {
        Ok((lhs, q)) => if !moves(ts, p, q) {
            Err(unexpected(ts, q))
        } else {
            add_rest(ts, lhs, q)
        },
        Err(e) => Err(e),
    }
}

/// The `{ add_op mul }` part of `add`, after `lhs`.
pub open spec fn add_rest(ts: Seq<SpecToken>, lhs: SpecExpr, p: int) -> Reading<SpecExpr>
    decreases ts.len() - p, 13int,
{
    match add_op(kind_at(ts, p)) {
        Some(op) => match mul_rule(ts, p + 1) {
            Ok((rhs, q)) => if !moves(ts, p + 1, q) {
                Err(unexpected(ts, q))
            } else {
                add_rest(ts, SpecExpr::BinOp { op, lhs: Box::new(lhs), rhs: Box::new(rhs) }, q)
            },
            Err(e) => Err(e),
        },
        None => Ok((lhs, p)),
    }
}

/// mul ::= unary { mul_op unary }
pub open spec fn mul_rule(ts: Seq<SpecToken>, p: int) -> Reading<SpecExpr>
    decreases ts.len() - p, 12int,
{
    match unary_rule(ts, p) {
        Ok((lhs, q)) => if !moves(ts, p, q) {
            Err(unexpected(ts, q))
        } else {
            mul_rest(ts, lhs, q)
        },
        Err(e) => Err(e),
    }
}

/// The `{ mul_op unary }` part of `mul`, after `lhs`.
pub open spec fn mul_rest(ts: Seq<SpecToken>, lhs: SpecExpr, p: int) -> Reading<SpecExpr>
    decreases ts.len() - p, 11int,
{
    match mul_op(kind_at(ts, p)) {
        Some(op) => match unary_rule(ts, p + 1) {
            Ok((rhs, q)) => if !moves(ts, p + 1, q) {
                Err(unexpected(ts, q))
            } else {
                mul_rest(ts, SpecExpr::BinOp { op, lhs: Box::new(lhs), rhs: Box::new(rhs) }, q)
            },
            Err(e) => Err(e),
        },
        None => Ok((lhs, p)),
    }
}

/// unary ::= `-` postfix | `!` postfix | postfix     (a sign does not repeat)
pub open spec fn unary_rule(ts: Seq<SpecToken>, p: int) -> Reading<SpecExpr>
    decreases ts.len() - p, 10int,
{
    if kind_at(ts, p) == SpecTokenKind::Minus {
        match postfix_rule(ts, p + 1) {
            Ok((e, q)) => Ok((SpecExpr::UnaryOp { op: UnaryOp::Neg, expr: Box::new(e) }, q)),
            Err(e) => Err(e),
        }
    } else if kind_at(ts, p) == SpecTokenKind::Not {
        match postfix_rule(ts, p + 1) {
            Ok((e, q)) => Ok((SpecExpr::UnaryOp { op: UnaryOp::Not, expr: Box::new(e) }, q)),
            Err(e) => Err(e),
        }
    } else {
        postfix_rule(ts, p)
    }
}

/// postfix ::= primary { `.` ident [ `(` args `)` ] }
pub open spec fn postfix_rule(ts: Seq<SpecToken>, p: int) -> Reading<SpecExpr>
    decreases ts.len() - p, 9int,
{
    match primary_rule(ts, p) {
        Ok((e, q)) => if !moves(ts, p, q) {
            Err(unexpected(ts, q))
        } else {
            postfix_rest(ts, e, q)
        },
        Err(e) => Err(e),
    }
}

/// The `{ `.` ident [ `(` args `)` ] }` part of `postfix`, after `e`.
pub open spec fn postfix_rest(ts: Seq<SpecToken>, e: SpecExpr, p: int) -> Reading<SpecExpr>
    decreases ts.len() - p, 8int,
{
    if kind_at(ts, p) == SpecTokenKind::Dot {
        match ident_rule(ts, p + 1) {
            Ok((name, q)) => if kind_at(ts, q) == SpecTokenKind::LParen {
                match args_rule(ts, q + 1) {
                    Ok((args, q2)) => if !moves(ts, q + 1, q2) {
                        Err(unexpected(ts, q2))
                    } else {
                        match expect_rule(ts, q2, SpecTokenKind::RParen) {
                            Ok(q3) => postfix_rest(
                                ts,
                                SpecExpr::MethodCall { object: Box::new(e), method: name, args },
                                q3,
                            ),
                            Err(err) => Err(err),
                        }
                    },
                    Err(err) => Err(err),
                }
            } else {
                postfix_rest(ts, SpecExpr::FieldAccess { object: Box::new(e), field: name }, q)
            },
            Err(err) => Err(err),
        }
    } else {
        Ok((e, p))
    }
}

/// Tokens that start a primary expression: literals, `(`, `new` and identifiers.
pub open spec fn starts_primary(k: SpecTokenKind) -> bool {
    match k {
        SpecTokenKind::IntLiteral(_) | SpecTokenKind::FloatLiteral(_) | SpecTokenKind::StringLiteral(
            _,
        ) | SpecTokenKind::BoolLiteral(_) | SpecTokenKind::LParen | SpecTokenKind::New
        | SpecTokenKind::Ident(_) => true,
        _ => false,
    }
}

/// primary ::= literal | `(` expr `)` | `new` ident `(` args `)`
///           | ident `.` ident `(` args `)` | ident
pub open spec fn primary_rule(ts: Seq<SpecToken>, p: int) -> Reading<SpecExpr>
    decreases ts.len() - p, 7int,
{
    match kind_at(ts, p) {
        SpecTokenKind::IntLiteral(n) => Ok((SpecExpr::IntLit(n), p + 1)),
        SpecTokenKind::FloatLiteral(s) => Ok((SpecExpr::FloatLit(s), p + 1)),
        SpecTokenKind::StringLiteral(s) => Ok((SpecExpr::StrLit(s), p + 1)),
        SpecTokenKind::BoolLiteral(b) => Ok((SpecExpr::BoolLit(b), p + 1)),
        SpecTokenKind::LParen => match expr_rule(ts, p + 1) {
            Ok((e, q)) => match expect_rule(ts, q, SpecTokenKind::RParen) {
                Ok(q2) => Ok((e, q2)),
                Err(err) => Err(err),
            },
            Err(err) => Err(err),
        },
        SpecTokenKind::New => match ident_rule(ts, p + 1) {
            Ok((class, q)) => match expect_rule(ts, q, SpecTokenKind::LParen) {
                Ok(q2) => match args_rule(ts, q2) {
                    Ok((args, q3)) => match expect_rule(ts, q3, SpecTokenKind::RParen) {
                        Ok(q4) => Ok((SpecExpr::New { class, args }, q4)),
                        Err(err) => Err(err),
                    },
                    Err(err) => Err(err),
                },
                Err(err) => Err(err),
            },
            Err(err) => Err(err),
        },
        SpecTokenKind::Ident(name) => {
            if kind_at(ts, p + 1) == SpecTokenKind::Dot && kind_at(ts, p + 2) is Ident
                && kind_at(ts, p + 3) == SpecTokenKind::LParen {
                match args_rule(ts, p + 4) {
                    Ok((args, q)) => match expect_rule(ts, q, SpecTokenKind::RParen) {
                        Ok(q2) => Ok(
                            (
                                SpecExpr::StaticCall {
                                    class: name,
                                    method: kind_at(ts, p + 2)->Ident_0,
                                    args,
                                },
                                q2,
                            ),
                        ),
                        Err(err) => Err(err),
                    },
                    Err(err) => Err(err),
                }
            } else {
                Ok((SpecExpr::Ident(name), p + 1))
            }
        },
        other => Err(unexpected(ts, p)),
    }
}

/// args ::= (nothing, before `)`) | expr { `,` expr }
pub open spec fn args_rule(ts: Seq<SpecToken>, p: int) -> Reading<Seq<SpecExpr>>
    decreases ts.len() - p, 22int,
{
    if kind_at(ts, p) == SpecTokenKind::RParen {
        Ok((seq![], p))
    } else {
        arg_list_rule(ts, p)
    }
}

/// expr { `,` expr }
pub open spec fn arg_list_rule(ts: Seq<SpecToken>, p: int) -> Reading<Seq<SpecExpr>>
    decreases ts.len() - p, 21int,
{
    match expr_rule(ts, p) {
        Ok((e, q)) => if !moves(ts, p, q) {
            Err(unexpected(ts, q))
        } else if kind_at(ts, q) == SpecTokenKind::Comma {
            match arg_list_rule(ts, q + 1) {
                Ok((rest, q2)) => Ok((seq![e] + rest, q2)),
                Err(err) => Err(err),
            }
        } else {
            Ok((seq![e], q))
        },
        Err(err) => Err(err),
    }
}

// ---------------------------------------------------------------------------
// Statements
// ---------------------------------------------------------------------------

/// block ::= { stmt }        (up to a `}` or the end)
pub open spec fn block_rule(ts: Seq<SpecToken>, p: int) -> Reading<Seq<SpecStmt>>
    decreases ts.len() - p, 3int,
{
    if kind_at(ts, p) == SpecTokenKind::RBrace || kind_at(ts, p) == SpecTokenKind::Eof {
        Ok((seq![], p))
    } else {
        match stmt_rule(ts, p) {
            Ok((s, q)) => if !moves(ts, p + 1, q) {
                Err(unexpected(ts, q))
            } else {
                match block_rule(ts, q) {
                    Ok((rest, q2)) => Ok((seq![s] + rest, q2)),
                    Err(e) => Err(e),
                }
            },
            Err(e) => Err(e),
        }
    }
}

/// stmt ::= return_stmt | if_stmt | while_stmt | var_decl | expr `;`
pub open spec fn stmt_rule(ts: Seq<SpecToken>, p: int) -> Reading<SpecStmt>
    decreases ts.len() - p, 2int,
{
    match kind_at(ts, p) {
        SpecTokenKind::Return => return_rule(ts, p),
        SpecTokenKind::If => if_rule(ts, p),
        SpecTokenKind::While => while_rule(ts, p),
        SpecTokenKind::Int | SpecTokenKind::Float | SpecTokenKind::Bool
        | SpecTokenKind::StringType => var_decl_rule(ts, p),
        _ => match expr_rule(ts, p) {
            Ok((e, q)) => match expect_rule(ts, q, SpecTokenKind::Semicolon) {
                Ok(q2) => Ok((SpecStmt::Expr(e), q2)),
                Err(err) => Err(err),
            },
            Err(err) => Err(err),
        },
    }
}

/// return_stmt ::= `return` [expr] `;`
pub open spec fn return_rule(ts: Seq<SpecToken>, p: int) -> Reading<SpecStmt> {
    if kind_at(ts, p + 1) == SpecTokenKind::Semicolon {
        Ok((SpecStmt::Return(None), p + 2))
    } else {
        match expr_rule(ts, p + 1) {
            Ok((e, q)) => match expect_rule(ts, q, SpecTokenKind::Semicolon) {
                Ok(q2) => Ok((SpecStmt::Return(Some(e)), q2)),
                Err(err) => Err(err),
            },
            Err(err) => Err(err),
        }
    }
}

/// `(` expr `)` `{` block `}`: the condition and body of an `if` or a `while`
/// whose keyword is at `p`.
pub open spec fn guarded_block_rule(ts: Seq<SpecToken>, p: int) -> Reading<(SpecExpr, Seq<SpecStmt>)>
    decreases ts.len() - p, 0int,
{
    match expect_rule(ts, p + 1, SpecTokenKind::LParen) {
        Ok(q) => match expr_rule(ts, q) {
            Ok((cond, q2)) => if !moves(ts, q, q2) {
                Err(unexpected(ts, q2))
            } else {
                match expect_rule(ts, q2, SpecTokenKind::RParen) {
                    Ok(q3) => match expect_rule(ts, q3, SpecTokenKind::LBrace) {
                        Ok(q4) => match block_rule(ts, q4) {
                            Ok((body, q5)) => match expect_rule(ts, q5, SpecTokenKind::RBrace) {
                                Ok(q6) => Ok(((cond, body), q6)),
                                Err(err) => Err(err),
                            },
                            Err(err) => Err(err),
                        },
                        Err(err) => Err(err),
                    },
                    Err(err) => Err(err),
                }
            },
            Err(err) => Err(err),
        },
        Err(err) => Err(err),
    }
}

/// if_stmt ::= `if` `(` expr `)` `{` block `}` [ `else` `{` block `}` ]
pub open spec fn if_rule(ts: Seq<SpecToken>, p: int) -> Reading<SpecStmt>
    decreases ts.len() - p, 1int,
{
    match guarded_block_rule(ts, p) {
        Ok(((cond, then_body), q)) => if !moves(ts, p + 1, q) {
            Err(unexpected(ts, q))
        } else if kind_at(ts, q) == SpecTokenKind::Else {
            match expect_rule(ts, q + 1, SpecTokenKind::LBrace) {
                Ok(q2) => match block_rule(ts, q2) {
                    Ok((else_body, q3)) => match expect_rule(ts, q3, SpecTokenKind::RBrace) {
                        Ok(q4) => Ok(
                            (SpecStmt::If { cond, then_body, else_body: Some(else_body) }, q4),
                        ),
                        Err(err) => Err(err),
                    },
                    Err(err) => Err(err),
                },
                Err(err) => Err(err),
            }
        } else {
            Ok((SpecStmt::If { cond, then_body, else_body: None }, q))
        },
        Err(err) => Err(err),
    }
}

/// while_stmt ::= `while` `(` expr `)` `{` block `}`
pub open spec fn while_rule(ts: Seq<SpecToken>, p: int) -> Reading<SpecStmt>
    decreases ts.len() - p, 1int,
{
    match guarded_block_rule(ts, p) {
        Ok(((cond, body), q)) => Ok((SpecStmt::While { cond, body }, q)),
        Err(err) => Err(err),
    }
}

/// var_decl ::= type ident [ `=` expr ] `;`
pub open spec fn var_decl_rule(ts: Seq<SpecToken>, p: int) -> Reading<SpecStmt> {
    match type_rule(ts, p) {
        Ok((ty, q)) => match ident_rule(ts, q) {
            Ok((name, q2)) => if kind_at(ts, q2) == SpecTokenKind::Eq {
                match expr_rule(ts, q2 + 1) {
                    Ok((e, q3)) => match expect_rule(ts, q3, SpecTokenKind::Semicolon) {
                        Ok(q4) => Ok((SpecStmt::VarDecl { ty, name, init: Some(e) }, q4)),
                        Err(err) => Err(err),
                    },
                    Err(err) => Err(err),
                }
            } else {
                match expect_rule(ts, q2, SpecTokenKind::Semicolon) {
                    Ok(q3) => Ok((SpecStmt::VarDecl { ty, name, init: None }, q3)),
                    Err(err) => Err(err),
                }
            },
            Err(err) => Err(err),
        },
        Err(err) => Err(err),
    }
}

// ---------------------------------------------------------------------------
// Classes
// ---------------------------------------------------------------------------

/// params ::= (nothing, before `)`) | param { `,` param }
pub open spec fn params_rule(ts: Seq<SpecToken>, p: int) -> Reading<Seq<SpecParam>>
    decreases ts.len() - p, 1int,
{
    if kind_at(ts, p) == SpecTokenKind::RParen {
        Ok((seq![], p))
    } else {
        param_list_rule(ts, p)
    }
}

/// param { `,` param }, where param ::= type ident
pub open spec fn param_list_rule(ts: Seq<SpecToken>, p: int) -> Reading<Seq<SpecParam>>
    decreases ts.len() - p, 0int,
{
    match type_rule(ts, p) {
        Ok((ty, q)) => match ident_rule(ts, q) {
            Ok((name, q2)) => if kind_at(ts, q2) == SpecTokenKind::Comma {
                match param_list_rule(ts, q2 + 1) {
                    Ok((rest, q3)) => Ok((seq![SpecParam { ty, name }] + rest, q3)),
                    Err(err) => Err(err),
                }
            } else {
                Ok((seq![SpecParam { ty, name }], q2))
            },
            Err(err) => Err(err),
        },
        Err(err) => Err(err),
    }
}

/// The rest of a method whose header (visibility, `static`, return type, name)
/// is read: `(` params `)` `{` block `}`.
pub open spec fn method_rest_rule(
    ts: Seq<SpecToken>,
    p: int,
    vis: Visibility,
    is_static: bool,
    return_ty: SpecType,
    name: Seq<char>,
) -> Reading<SpecMethod> {
    match expect_rule(ts, p, SpecTokenKind::LParen) {
        Ok(q) => match params_rule(ts, q) {
            Ok((params, q2)) => match expect_rule(ts, q2, SpecTokenKind::RParen) {
                Ok(q3) => match expect_rule(ts, q3, SpecTokenKind::LBrace) {
                    Ok(q4) => match block_rule(ts, q4) {
                        Ok((body, q5)) => match expect_rule(ts, q5, SpecTokenKind::RBrace) {
                            Ok(q6) => Ok(
                                (SpecMethod { vis, is_static, return_ty, name, params, body }, q6),
                            ),
                            Err(err) => Err(err),
                        },
                        Err(err) => Err(err),
                    },
                    Err(err) => Err(err),
                },
                Err(err) => Err(err),
            },
            Err(err) => Err(err),
        },
        Err(err) => Err(err),
    }
}

/// A member of a class: a method or a field.
pub enum SpecMember {
    Method(SpecMethod),
    Field(SpecField),
}

/// The visibility that a member declares at `p` (public when it declares
/// none), and the position after it.
pub open spec fn vis_rule(ts: Seq<SpecToken>, p: int) -> (Visibility, int) {
    if kind_at(ts, p) == SpecTokenKind::Public {
        (Visibility::Public, p + 1)
    } else if kind_at(ts, p) == SpecTokenKind::Private {
        (Visibility::Private, p + 1)
    } else {
        (Visibility::Public, p)
    }
}

/// member ::= [`public` | `private`] [`static`] type ident
///            ( `(` params `)` `{` block `}` | [ `=` expr ] `;` )
pub open spec fn member_rule(ts: Seq<SpecToken>, p: int) -> Reading<SpecMember> {
    let (vis, p1) = vis_rule(ts, p);
    let is_static = kind_at(ts, p1) == SpecTokenKind::Static;
    let p2 = eat_rule(ts, p1, SpecTokenKind::Static);
    match type_rule(ts, p2) {
        Ok((ty, q)) => match ident_rule(ts, q) {
            Ok((name, q2)) => if kind_at(ts, q2) == SpecTokenKind::LParen {
                match method_rest_rule(ts, q2, vis, is_static, ty, name) {
                    Ok((m, q3)) => Ok((SpecMember::Method(m), q3)),
                    Err(err) => Err(err),
                }
            } else if kind_at(ts, q2) == SpecTokenKind::Eq {
                match expr_rule(ts, q2 + 1) {
                    Ok((e, q3)) => match expect_rule(ts, q3, SpecTokenKind::Semicolon) {
                        Ok(q4) => Ok(
                            (
                                SpecMember::Field(
                                    SpecField { vis, is_static, ty, name, init: Some(e) },
                                ),
                                q4,
                            ),
                        ),
                        Err(err) => Err(err),
                    },
                    Err(err) => Err(err),
                }
            } else {
                match expect_rule(ts, q2, SpecTokenKind::Semicolon) {
                    Ok(q3) => Ok(
                        (SpecMember::Field(SpecField { vis, is_static, ty, name, init: None }), q3),
                    ),
                    Err(err) => Err(err),
                }
            },
            Err(err) => Err(err),
        },
        Err(err) => Err(err),
    }
}

/// members ::= { member }        (up to a `}` or the end), methods and fields apart
pub open spec fn members_rule(ts: Seq<SpecToken>, p: int) -> Reading<
    (Seq<SpecMethod>, Seq<SpecField>),
>
    decreases ts.len() - p,
{
    if kind_at(ts, p) == SpecTokenKind::RBrace || kind_at(ts, p) == SpecTokenKind::Eof {
        Ok(((seq![], seq![]), p))
    } else {
        match member_rule(ts, p) {
            Ok((m, q)) => if !moves(ts, p + 1, q) {
                Err(unexpected(ts, q))
            } else {
                match members_rule(ts, q) {
                    Ok(((ms, fs), q2)) => match m {
                        SpecMember::Method(x) => Ok(((seq![x] + ms, fs), q2)),
                        SpecMember::Field(f) => Ok(((ms, seq![f] + fs), q2)),
                    },
                    Err(err) => Err(err),
                }
            },
            Err(err) => Err(err),
        }
    }
}

/// class ::= [`public`] `class` ident `{` members `}`
pub open spec fn class_rule(ts: Seq<SpecToken>, p: int) -> Reading<SpecClass> {
    let p1 = eat_rule(ts, p, SpecTokenKind::Public);
    match expect_rule(ts, p1, SpecTokenKind::Class) {
        Ok(q) => match ident_rule(ts, q) {
            Ok((name, q2)) => match expect_rule(ts, q2, SpecTokenKind::LBrace) {
                Ok(q3) => class_body_rule(ts, name, q3),
                Err(err) => Err(err),
            },
            Err(err) => Err(err),
        },
        Err(err) => Err(err),
    }
}

/// The members and closing `}` of the class `name`, from `p` on.
pub open spec fn class_body_rule(ts: Seq<SpecToken>, name: Seq<char>, p: int) -> Reading<SpecClass> {
    match members_rule(ts, p) {
        Ok(((methods, fields), q)) => match expect_rule(ts, q, SpecTokenKind::RBrace) {
            Ok(q2) => Ok((SpecClass { name, methods, fields }, q2)),
            Err(err) => Err(err),
        },
        Err(err) => Err(err),
    }
}

/// classes ::= { class }        (up to the end)
pub open spec fn classes_rule(ts: Seq<SpecToken>, p: int) -> Reading<Seq<SpecClass>>
    decreases ts.len() - p,
{
    if kind_at(ts, p) == SpecTokenKind::Eof {
        Ok((seq![], p))
    } else {
        match class_rule(ts, p) {
            Ok((c, q)) => if !moves(ts, p + 1, q) {
                Err(unexpected(ts, q))
            } else {
                match classes_rule(ts, q) {
                    Ok((rest, q2)) => Ok((seq![c] + rest, q2)),
                    Err(err) => Err(err),
                }
            },
            Err(err) => Err(err),
        }
    }
}

/// program ::= class classes        (one or more classes, up to the end),
/// read from the first token.
pub open spec fn program_rule(ts: Seq<SpecToken>) -> Result<SpecProgram, SpecParseError> {
    match class_rule(ts, 0) {
        Ok((first, q)) => if !moves(ts, 1, q) {
            Err(unexpected(ts, q))
        } else {
            match classes_rule(ts, q) {
                Ok((rest, _)) => Ok(SpecProgram { classes: seq![first] + rest }),
                Err(err) => Err(err),
            }
        },
        Err(err) => Err(err),
    }
}

/// Law: a program that is read has at least one class. A token sequence that
/// holds no class (only `Eof`) is refused: a class is expected there.
pub proof fn law_program_has_a_class(ts: Seq<SpecToken>)
    ensures
        program_rule(ts) matches Ok(p) ==> p.classes.len() >= 1,
        kind_at(ts, 0) is Eof ==> program_rule(ts) == Err::<SpecProgram, SpecParseError>(
            SpecParseError::Expected {
                expected: SpecTokenKind::Class,
                got: SpecTokenKind::Eof,
                line: line_at(ts, 0),
                col: col_at(ts, 0),
            },
        ),
{
}

/// Law: the classes of a program are read up to an `Eof` token; no token
/// after the last class is left unread.
pub proof fn law_classes_end_at_eof(ts: Seq<SpecToken>, p: int)
    ensures
        classes_rule(ts, p) matches Ok((_, q)) ==> kind_at(ts, q) is Eof,
    decreases ts.len() - p,
{
    if !(kind_at(ts, p) is Eof) {
        if let Ok((_, q)) = class_rule(ts, p) {
            if moves(ts, p + 1, q) {
                law_classes_end_at_eof(ts, q);
            }
        }
    }
}

} // verus!
