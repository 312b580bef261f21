//! What the grammar makes of the tokens that carry meaning: each operator
//! token is its own operator (with the grouping of its level), each type
//! keyword its own type, each literal its own value; a statement is told by
//! its first token, one that opens with a base-type keyword declaring a local
//! of that type; a member's modifiers give its visibility and `static` flag;
//! and a class keeps its name and its members in order.
use vstd::prelude::*;

use crate::ast::{BinOp, SpecClass, SpecExpr, SpecStmt, SpecType, UnaryOp, Visibility};
use crate::grammar::{
    SpecMember, SpecParseError, add_rest, add_rule, and_rest, and_rule, class_rule, compare_rule,
    expr_rule, guarded_block_rule, kind_at, member_rule, members_rule, mul_rest, mul_rule,
    or_rest, or_rule, postfix_rule, primary_rule, stmt_rule, type_rule, unary_rule,
};
use crate::lexer::{SpecToken, SpecTokenKind};
use crate::progress::{
    lemma_add_moves, lemma_and_moves, lemma_compare_moves, lemma_guarded_block_moves,
    lemma_member_moves, lemma_mul_moves, lemma_or_moves, lemma_unary_moves,
};

verus! {

/// Where an additive operand starts at `p` and is followed by the token
/// `tok` and a second operand, the comparison at `p` is `op` applied to the
/// two operands, and it ends where the second operand ends.
pub open spec fn compares_with(ts: Seq<SpecToken>, p: int, tok: SpecTokenKind, op: BinOp) -> bool {
    match add_rule(ts, p) {
        Ok((lhs, q)) => kind_at(ts, q) == tok ==> match add_rule(ts, q + 1) {
            Ok((rhs, q2)) => compare_rule(ts, p) == Ok::<(SpecExpr, int), SpecParseError>(
                (SpecExpr::BinOp { op, lhs: Box::new(lhs), rhs: Box::new(rhs) }, q2),
            ),
            Err(e) => compare_rule(ts, p) == Err::<(SpecExpr, int), SpecParseError>(e),
        },
        Err(_) => true,
    }
}

/// The six comparison tokens.
pub open spec fn compares(k: SpecTokenKind) -> bool {
    ||| k is EqEq
    ||| k is NotEq
    ||| k is Lt
    ||| k is LtEq
    ||| k is Gt
    ||| k is GtEq
}

/// Each comparison token is read as its own operator: `==` as `Eq`, `!=` as
/// `NotEq`, `<` as `Lt`, `<=` as `LtEq`, `>` as `Gt` and `>=` as `GtEq`, with
/// the operands on either side of it; after an operand that no comparison
/// token follows, the comparison is that operand alone.
pub proof fn law_comparison_operators(ts: Seq<SpecToken>, p: int)
    requires
        p <= ts.len(),
    ensures
        compares_with(ts, p, SpecTokenKind::EqEq, BinOp::Eq),
        compares_with(ts, p, SpecTokenKind::NotEq, BinOp::NotEq),
        compares_with(ts, p, SpecTokenKind::Lt, BinOp::Lt),
        compares_with(ts, p, SpecTokenKind::LtEq, BinOp::LtEq),
        compares_with(ts, p, SpecTokenKind::Gt, BinOp::Gt),
        compares_with(ts, p, SpecTokenKind::GtEq, BinOp::GtEq),
        add_rule(ts, p) matches Ok((lhs, q)) ==> (!compares(kind_at(ts, q)) ==> compare_rule(ts, p)
            == Ok::<(SpecExpr, int), SpecParseError>((lhs, q))),
{
    lemma_add_moves(ts, p);
}

/// Where the token at `p` is `tok`, the type at `p` is `t`, or an array of
/// `t` where `[` `]` follows.
pub open spec fn names_type(ts: Seq<SpecToken>, p: int, tok: SpecTokenKind, t: SpecType) -> bool {
    kind_at(ts, p) == tok ==> {
        &&& kind_at(ts, p + 1) != SpecTokenKind::LBracket ==> type_rule(ts, p) == Ok::<
            (SpecType, int),
            SpecParseError,
        >((t, p + 1))
        &&& (kind_at(ts, p + 1) == SpecTokenKind::LBracket && kind_at(ts, p + 2)
            == SpecTokenKind::RBracket) ==> type_rule(ts, p) == Ok::<(SpecType, int), SpecParseError>(
            (SpecType::Array(Box::new(t)), p + 3),
        )
    }
}

/// Each type keyword is read as its own type: `int` as `Int`, `float` as
/// `Float`, `boolean` as `Bool`, `String` as `Str` and `void` as `Void`; a
/// name is read as the class type of that name; and any of them followed by
/// `[` `]` as an array of it. No other token starts a type.
pub proof fn law_type_keywords(ts: Seq<SpecToken>, p: int)
    ensures
        names_type(ts, p, SpecTokenKind::Int, SpecType::Int),
        names_type(ts, p, SpecTokenKind::Float, SpecType::Float),
        names_type(ts, p, SpecTokenKind::Bool, SpecType::Bool),
        names_type(ts, p, SpecTokenKind::StringType, SpecType::Str),
        names_type(ts, p, SpecTokenKind::Void, SpecType::Void),
        kind_at(ts, p) matches SpecTokenKind::Ident(n) ==> names_type(
            ts,
            p,
            SpecTokenKind::Ident(n),
            SpecType::Named(n),
        ),
        !(kind_at(ts, p) is Int || kind_at(ts, p) is Float || kind_at(ts, p) is Bool || kind_at(
            ts,
            p,
        ) is StringType || kind_at(ts, p) is Void || kind_at(ts, p) is Ident) ==> type_rule(
            ts,
            p,
        ) is Err,
{
}

/// Where the token at `p` is `tok` and a name follows it, the statement at
/// `p` declares a local of type `t` with that name: without an initial value
/// where `;` follows the name, and with the expression after `=` where `=`
/// follows it and `;` follows that expression.
pub open spec fn declares(ts: Seq<SpecToken>, p: int, tok: SpecTokenKind, t: SpecType) -> bool {
    (kind_at(ts, p) == tok && kind_at(ts, p + 1) is Ident) ==> {
        let name = kind_at(ts, p + 1)->Ident_0;
        &&& kind_at(ts, p + 2) == SpecTokenKind::Semicolon ==> stmt_rule(ts, p) == Ok::<
            (SpecStmt, int),
            SpecParseError,
        >((SpecStmt::VarDecl { ty: t, name, init: None }, p + 3))
        &&& kind_at(ts, p + 2) == SpecTokenKind::Eq ==> (expr_rule(ts, p + 3) matches Ok((e, q))
            ==> (kind_at(ts, q) == SpecTokenKind::Semicolon ==> stmt_rule(ts, p) == Ok::<
            (SpecStmt, int),
            SpecParseError,
        >((SpecStmt::VarDecl { ty: t, name, init: Some(e) }, q + 1))))
    }
}

/// A statement that starts with a base-type keyword (`int`, `float`,
/// `boolean`, `String`) and a name, then `;` or `=` an expression and `;`,
/// declares a local variable of that type.
pub proof fn law_local_declarations(ts: Seq<SpecToken>, p: int)
    ensures
        declares(ts, p, SpecTokenKind::Int, SpecType::Int),
        declares(ts, p, SpecTokenKind::Float, SpecType::Float),
        declares(ts, p, SpecTokenKind::Bool, SpecType::Bool),
        declares(ts, p, SpecTokenKind::StringType, SpecType::Str),
{
}

/// The position after a member's visibility keyword, if it has one.
pub open spec fn after_visibility(ts: Seq<SpecToken>, p: int) -> int {
    if kind_at(ts, p) is Public || kind_at(ts, p) is Private {
        p + 1
    } else {
        p
    }
}

/// A member is private exactly when it starts with `private`, and static
/// exactly when `static` follows its optional `public` or `private`; so for
/// methods as for fields.
pub proof fn law_member_modifiers(ts: Seq<SpecToken>, p: int)
    ensures
        member_rule(ts, p) matches Ok((SpecMember::Method(m), _)) ==> {
            &&& m.vis == (if kind_at(ts, p) is Private {
                Visibility::Private
            } else {
                Visibility::Public
            })
            &&& m.is_static == (kind_at(ts, after_visibility(ts, p)) is Static)
        },
        member_rule(ts, p) matches Ok((SpecMember::Field(f), _)) ==> {
            &&& f.vis == (if kind_at(ts, p) is Private {
                Visibility::Private
            } else {
                Visibility::Public
            })
            &&& f.is_static == (kind_at(ts, after_visibility(ts, p)) is Static)
        },
{
}

/// Where the token at `p` is `tok`, after the operand `lhs`: the rest of a
/// sum at `p` goes on from `op` applied to `lhs` and the product that follows
/// the token (so `a - b + c` is `(a - b) + c`).
pub open spec fn adds_with(
    ts: Seq<SpecToken>,
    lhs: SpecExpr,
    p: int,
    tok: SpecTokenKind,
    op: BinOp,
) -> bool {
    kind_at(ts, p) == tok ==> match mul_rule(ts, p + 1) {
        Ok((rhs, q)) => add_rest(ts, lhs, p) == add_rest(
            ts,
            SpecExpr::BinOp { op, lhs: Box::new(lhs), rhs: Box::new(rhs) },
            q,
        ),
        Err(e) => add_rest(ts, lhs, p) == Err::<(SpecExpr, int), SpecParseError>(e),
    }
}

/// Where the token at `p` is `tok`, after the operand `lhs`: the rest of a
/// product at `p` goes on from `op` applied to `lhs` and the unary operand
/// that follows the token (so `a / b * c` is `(a / b) * c`).
pub open spec fn multiplies_with(
    ts: Seq<SpecToken>,
    lhs: SpecExpr,
    p: int,
    tok: SpecTokenKind,
    op: BinOp,
) -> bool {
    kind_at(ts, p) == tok ==> match unary_rule(ts, p + 1) {
        Ok((rhs, q)) => mul_rest(ts, lhs, p) == mul_rest(
            ts,
            SpecExpr::BinOp { op, lhs: Box::new(lhs), rhs: Box::new(rhs) },
            q,
        ),
        Err(e) => mul_rest(ts, lhs, p) == Err::<(SpecExpr, int), SpecParseError>(e),
    }
}

/// `+` is read as `Add` and `-` as `Sub`, `*` as `Mul`, `/` as `Div` and `%`
/// as `Mod`, each grouping to the left; a sum or a product ends at the first
/// token that is none of its operators.
pub proof fn law_arithmetic_operators(ts: Seq<SpecToken>, lhs: SpecExpr, p: int)
    requires
        p <= ts.len(),
    ensures
        adds_with(ts, lhs, p, SpecTokenKind::Plus, BinOp::Add),
        adds_with(ts, lhs, p, SpecTokenKind::Minus, BinOp::Sub),
        !(kind_at(ts, p) is Plus || kind_at(ts, p) is Minus) ==> add_rest(ts, lhs, p) == Ok::<
            (SpecExpr, int),
            SpecParseError,
        >((lhs, p)),
        multiplies_with(ts, lhs, p, SpecTokenKind::Star, BinOp::Mul),
        multiplies_with(ts, lhs, p, SpecTokenKind::Slash, BinOp::Div),
        multiplies_with(ts, lhs, p, SpecTokenKind::Percent, BinOp::Mod),
        !(kind_at(ts, p) is Star || kind_at(ts, p) is Slash || kind_at(ts, p) is Percent)
            ==> mul_rest(ts, lhs, p) == Ok::<(SpecExpr, int), SpecParseError>((lhs, p)),
{
    if p < ts.len() {
        lemma_mul_moves(ts, p + 1);
        lemma_unary_moves(ts, p + 1);
    }
}

/// `||` is read as `Or` and `&&` as `And`, each grouping to the left: after
/// the operand `lhs`, a `||` at `p` and the conjunction after it go on as
/// their disjunction, and a `&&` and the comparison after it as their
/// conjunction; any other token ends the chain.
pub proof fn law_logical_operators(ts: Seq<SpecToken>, lhs: SpecExpr, p: int)
    requires
        p <= ts.len(),
    ensures
        kind_at(ts, p) == SpecTokenKind::Or ==> match and_rule(ts, p + 1) {
            Ok((rhs, q)) => or_rest(ts, lhs, p) == or_rest(
                ts,
                SpecExpr::BinOp { op: BinOp::Or, lhs: Box::new(lhs), rhs: Box::new(rhs) },
                q,
            ),
            Err(e) => or_rest(ts, lhs, p) == Err::<(SpecExpr, int), SpecParseError>(e),
        },
        kind_at(ts, p) != SpecTokenKind::Or ==> or_rest(ts, lhs, p) == Ok::<
            (SpecExpr, int),
            SpecParseError,
        >((lhs, p)),
        kind_at(ts, p) == SpecTokenKind::And ==> match compare_rule(ts, p + 1) {
            Ok((rhs, q)) => and_rest(ts, lhs, p) == and_rest(
                ts,
                SpecExpr::BinOp { op: BinOp::And, lhs: Box::new(lhs), rhs: Box::new(rhs) },
                q,
            ),
            Err(e) => and_rest(ts, lhs, p) == Err::<(SpecExpr, int), SpecParseError>(e),
        },
        kind_at(ts, p) != SpecTokenKind::And ==> and_rest(ts, lhs, p) == Ok::<
            (SpecExpr, int),
            SpecParseError,
        >((lhs, p)),
{
    if p < ts.len() {
        lemma_and_moves(ts, p + 1);
        lemma_compare_moves(ts, p + 1);
    }
}

/// A leading `-` is read as `Neg` and a leading `!` as `Not`, applied to the
/// operand that follows.
pub proof fn law_unary_operators(ts: Seq<SpecToken>, p: int)
    ensures
        kind_at(ts, p) == SpecTokenKind::Minus ==> match postfix_rule(ts, p + 1) {
            Ok((e, q)) => unary_rule(ts, p) == Ok::<(SpecExpr, int), SpecParseError>(
                (SpecExpr::UnaryOp { op: UnaryOp::Neg, expr: Box::new(e) }, q),
            ),
            Err(err) => unary_rule(ts, p) == Err::<(SpecExpr, int), SpecParseError>(err),
        },
        kind_at(ts, p) == SpecTokenKind::Not ==> match postfix_rule(ts, p + 1) {
            Ok((e, q)) => unary_rule(ts, p) == Ok::<(SpecExpr, int), SpecParseError>(
                (SpecExpr::UnaryOp { op: UnaryOp::Not, expr: Box::new(e) }, q),
            ),
            Err(err) => unary_rule(ts, p) == Err::<(SpecExpr, int), SpecParseError>(err),
        },
        !(kind_at(ts, p) is Minus || kind_at(ts, p) is Not) ==> unary_rule(ts, p) == postfix_rule(
            ts,
            p,
        ),
{
}

/// `=` assigns the expression on its right (itself possibly an assignment)
/// to the disjunction on its left: `a = b = c` is `a = (b = c)`.
pub proof fn law_assignment(ts: Seq<SpecToken>, p: int)
    requires
        p <= ts.len(),
    ensures
        or_rule(ts, p) matches Ok((target, q)) ==> (kind_at(ts, q) == SpecTokenKind::Eq ==> (
        expr_rule(ts, q + 1) matches Ok((value, q2)) ==> expr_rule(ts, p) == Ok::<
            (SpecExpr, int),
            SpecParseError,
        >((SpecExpr::Assign { target: Box::new(target), value: Box::new(value) }, q2)))),
        or_rule(ts, p) matches Ok((e, q)) ==> (kind_at(ts, q) != SpecTokenKind::Eq ==> expr_rule(
            ts,
            p,
        ) == Ok::<(SpecExpr, int), SpecParseError>((e, q))),
{
    lemma_or_moves(ts, p);
}

/// A literal token is read as the literal expression of the same value, and a
/// name that no `.` follows as a reference to that name.
pub proof fn law_literals_and_names(ts: Seq<SpecToken>, p: int)
    ensures
        kind_at(ts, p) matches SpecTokenKind::IntLiteral(n) ==> primary_rule(ts, p) == Ok::<
            (SpecExpr, int),
            SpecParseError,
        >((SpecExpr::IntLit(n), p + 1)),
        kind_at(ts, p) matches SpecTokenKind::FloatLiteral(s) ==> primary_rule(ts, p) == Ok::<
            (SpecExpr, int),
            SpecParseError,
        >((SpecExpr::FloatLit(s), p + 1)),
        kind_at(ts, p) matches SpecTokenKind::StringLiteral(s) ==> primary_rule(ts, p) == Ok::<
            (SpecExpr, int),
            SpecParseError,
        >((SpecExpr::StrLit(s), p + 1)),
        kind_at(ts, p) matches SpecTokenKind::BoolLiteral(b) ==> primary_rule(ts, p) == Ok::<
            (SpecExpr, int),
            SpecParseError,
        >((SpecExpr::BoolLit(b), p + 1)),
        kind_at(ts, p) matches SpecTokenKind::Ident(name) ==> (kind_at(ts, p + 1)
            != SpecTokenKind::Dot ==> primary_rule(ts, p) == Ok::<(SpecExpr, int), SpecParseError>(
            (SpecExpr::Ident(name), p + 1),
        )),
{
}

/// A statement that starts with `return` returns the expression before its
/// `;` (nothing when `;` follows at once); one that starts with `while` loops
/// on its condition over its body; one that starts with `if` and has no
/// `else` runs its body on its condition; and one that starts with none of
/// `return`, `if`, `while` or a base-type keyword is an expression followed
/// by `;`.
pub proof fn law_statement_forms(ts: Seq<SpecToken>, p: int)
    requires
        p <= ts.len(),
    ensures
        kind_at(ts, p) == SpecTokenKind::Return ==> (kind_at(ts, p + 1) == SpecTokenKind::Semicolon
            ==> stmt_rule(ts, p) == Ok::<(SpecStmt, int), SpecParseError>(
            (SpecStmt::Return(None), p + 2),
        )),
        kind_at(ts, p) == SpecTokenKind::Return ==> (expr_rule(ts, p + 1) matches Ok((e, q)) ==> (
        kind_at(ts, q) == SpecTokenKind::Semicolon && kind_at(ts, p + 1)
            != SpecTokenKind::Semicolon ==> stmt_rule(ts, p) == Ok::<(SpecStmt, int), SpecParseError>(
            (SpecStmt::Return(Some(e)), q + 1),
        ))),
        kind_at(ts, p) == SpecTokenKind::While ==> (guarded_block_rule(ts, p) matches Ok(
            ((cond, body), q),
        ) ==> stmt_rule(ts, p) == Ok::<(SpecStmt, int), SpecParseError>(
            (SpecStmt::While { cond, body }, q),
        )),
        kind_at(ts, p) == SpecTokenKind::If ==> (guarded_block_rule(ts, p) matches Ok(
            ((cond, then_body), q),
        ) ==> (kind_at(ts, q) != SpecTokenKind::Else ==> stmt_rule(ts, p) == Ok::<
            (SpecStmt, int),
            SpecParseError,
        >((SpecStmt::If { cond, then_body, else_body: None }, q)))),
        !(kind_at(ts, p) is Return || kind_at(ts, p) is If || kind_at(ts, p) is While || kind_at(
            ts,
            p,
        ) is Int || kind_at(ts, p) is Float || kind_at(ts, p) is Bool || kind_at(ts, p) is StringType)
            ==> (expr_rule(ts, p) matches Ok((e, q)) ==> (kind_at(ts, q) == SpecTokenKind::Semicolon
            ==> stmt_rule(ts, p) == Ok::<(SpecStmt, int), SpecParseError>(
            (SpecStmt::Expr(e), q + 1),
        ))),
{
    if kind_at(ts, p) == SpecTokenKind::If {
        lemma_guarded_block_moves(ts, p);
    }
}

/// A class is `class`, its name and `{`, after an optional `public`; it holds
/// the methods and the fields of the members that follow, up to its `}`.
pub proof fn law_class_declaration(ts: Seq<SpecToken>, p: int)
    ensures
        ({
            let p1 = if kind_at(ts, p) is Public {
                p + 1
            } else {
                p
            };
            (kind_at(ts, p1) == SpecTokenKind::Class && kind_at(ts, p1 + 1) is Ident && kind_at(
                ts,
                p1 + 2,
            ) == SpecTokenKind::LBrace) ==> (members_rule(ts, p1 + 3) matches Ok(
                ((methods, fields), q),
            ) ==> (kind_at(ts, q) == SpecTokenKind::RBrace ==> class_rule(ts, p) == Ok::<
                (SpecClass, int),
                SpecParseError,
            >((SpecClass { name: kind_at(ts, p1 + 1)->Ident_0, methods, fields }, q + 1))))
        }),
        !(kind_at(ts, p) is Public || kind_at(ts, p) is Class) ==> class_rule(ts, p) is Err,
{
}

/// Of the members of a class, the methods are kept in their order and so are
/// the fields: a method first among them comes first among the methods, and a
/// field first among them first among the fields.
pub proof fn law_members_in_order(ts: Seq<SpecToken>, p: int)
    requires
        p <= ts.len(),
        !(kind_at(ts, p) is RBrace || kind_at(ts, p) is Eof),
    ensures
        member_rule(ts, p) matches Ok((SpecMember::Method(m), q)) ==> (members_rule(ts, q) matches Ok(
            ((ms, fs), q2),
        ) ==> members_rule(ts, p) == Ok::<(_, int), SpecParseError>(((seq![m] + ms, fs), q2))),
        member_rule(ts, p) matches Ok((SpecMember::Field(f), q)) ==> (members_rule(ts, q) matches Ok(
            ((ms, fs), q2),
        ) ==> members_rule(ts, p) == Ok::<(_, int), SpecParseError>(((ms, seq![f] + fs), q2))),
{
    lemma_member_moves(ts, p);
}

} // verus!
