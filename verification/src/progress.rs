//! Every rule of the grammar that succeeds ends at or after the position where
//! it starts (strictly after, for a statement, a member and a class), and not
//! past the end of the tokens. So the checks of this that the rules make, to
//! show that they terminate, never decide what a rule reads.
use vstd::prelude::*;

use crate::ast::{BinOp, SpecExpr};
use crate::grammar::{
    add_op, add_rest, add_rule, and_rest, and_rule, arg_list_rule, args_rule, block_rule,
    class_rule, classes_rule, compare_op, compare_rule, expr_rule, guarded_block_rule,
    ident_rule, if_rule, kind_at, member_rule, members_rule, moves, mul_op, mul_rest, mul_rule,
    or_rest, or_rule, param_list_rule, params_rule, postfix_rest, postfix_rule, primary_rule,
    return_rule, stmt_rule, type_rule, unary_rule, var_decl_rule, while_rule,
};
use crate::lexer::{SpecToken, SpecTokenKind};

verus! {

// ── Expressions ──────────────────────────────────────────────────────────

pub proof fn lemma_expr_moves(ts: Seq<SpecToken>, p: int)
    requires
        p <= ts.len(),
    ensures
        expr_rule(ts, p) matches Ok((_, q)) ==> moves(ts, p, q),
    decreases ts.len() - p, 20int,
{
    lemma_or_moves(ts, p);
    if let Ok((_, q)) = or_rule(ts, p) {
        if moves(ts, p, q) && kind_at(ts, q) == SpecTokenKind::Eq {
            lemma_expr_moves(ts, q + 1);
        }
    }
}

pub proof fn lemma_or_moves(ts: Seq<SpecToken>, p: int)
    requires
        p <= ts.len(),
    ensures
        or_rule(ts, p) matches Ok((_, q)) ==> moves(ts, p, q),
    decreases ts.len() - p, 19int,
{
    lemma_and_moves(ts, p);
    if let Ok((lhs, q)) = and_rule(ts, p) {
        if moves(ts, p, q) {
            lemma_or_rest_moves(ts, lhs, q);
        }
    }
}

pub proof fn lemma_or_rest_moves(ts: Seq<SpecToken>, lhs: SpecExpr, p: int)
    requires
        p <= ts.len(),
    ensures
        or_rest(ts, lhs, p) matches Ok((_, q)) ==> moves(ts, p, q),
    decreases ts.len() - p, 18int,
{
    if kind_at(ts, p) == SpecTokenKind::Or {
        lemma_and_moves(ts, p + 1);
        if let Ok((rhs, q)) = and_rule(ts, p + 1) {
            if moves(ts, p + 1, q) {
                lemma_or_rest_moves(
                    ts,
                    SpecExpr::BinOp { op: BinOp::Or, lhs: Box::new(lhs), rhs: Box::new(rhs) },
                    q,
                );
            }
        }
    }
}

pub proof fn lemma_and_moves(ts: Seq<SpecToken>, p: int)
    requires
        p <= ts.len(),
    ensures
        and_rule(ts, p) matches Ok((_, q)) ==> moves(ts, p, q),
    decreases ts.len() - p, 17int,
{
    lemma_compare_moves(ts, p);
    if let Ok((lhs, q)) = compare_rule(ts, p) {
        if moves(ts, p, q) {
            lemma_and_rest_moves(ts, lhs, q);
        }
    }
}

pub proof fn lemma_and_rest_moves(ts: Seq<SpecToken>, lhs: SpecExpr, p: int)
    requires
        p <= ts.len(),
    ensures
        and_rest(ts, lhs, p) matches Ok((_, q)) ==> moves(ts, p, q),
    decreases ts.len() - p, 16int,
{
    if kind_at(ts, p) == SpecTokenKind::And {
        lemma_compare_moves(ts, p + 1);
        if let Ok((rhs, q)) = compare_rule(ts, p + 1) {
            if moves(ts, p + 1, q) {
                lemma_and_rest_moves(
                    ts,
                    SpecExpr::BinOp { op: BinOp::And, lhs: Box::new(lhs), rhs: Box::new(rhs) },
                    q,
                );
            }
        }
    }
}

pub proof fn lemma_compare_moves(ts: Seq<SpecToken>, p: int)
    requires
        p <= ts.len(),
    ensures
        compare_rule(ts, p) matches Ok((_, q)) ==> moves(ts, p, q),
    decreases ts.len() - p, 15int,
{
    lemma_add_moves(ts, p);
    if let Ok((_, q)) = add_rule(ts, p) {
        if moves(ts, p, q) && compare_op(kind_at(ts, q)) is Some {
            lemma_add_moves(ts, q + 1);
        }
    }
}

pub proof fn lemma_add_moves(ts: Seq<SpecToken>, p: int)
    requires
        p <= ts.len(),
    ensures
        add_rule(ts, p) matches Ok((_, q)) ==> moves(ts, p, q),
    decreases ts.len() - p, 14int,
{
    lemma_mul_moves(ts, p);
    if let Ok((lhs, q)) = mul_rule(ts, p) {
        if moves(ts, p, q) {
            lemma_add_rest_moves(ts, lhs, q);
        }
    }
}

pub proof fn lemma_add_rest_moves(ts: Seq<SpecToken>, lhs: SpecExpr, p: int)
    requires
        p <= ts.len(),
    ensures
        add_rest(ts, lhs, p) matches Ok((_, q)) ==> moves(ts, p, q),
    decreases ts.len() - p, 13int,
{
    if let Some(op) = add_op(kind_at(ts, p)) {
        lemma_mul_moves(ts, p + 1);
        if let Ok((rhs, q)) = mul_rule(ts, p + 1) {
            if moves(ts, p + 1, q) {
                lemma_add_rest_moves(
                    ts,
                    SpecExpr::BinOp { op, lhs: Box::new(lhs), rhs: Box::new(rhs) },
                    q,
                );
            }
        }
    }
}

pub proof fn lemma_mul_moves(ts: Seq<SpecToken>, p: int)
    requires
        p <= ts.len(),
    ensures
        mul_rule(ts, p) matches Ok((_, q)) ==> moves(ts, p, q),
    decreases ts.len() - p, 12int,
{
    lemma_unary_moves(ts, p);
    if let Ok((lhs, q)) = unary_rule(ts, p) {
        if moves(ts, p, q) {
            lemma_mul_rest_moves(ts, lhs, q);
        }
    }
}

pub proof fn lemma_mul_rest_moves(ts: Seq<SpecToken>, lhs: SpecExpr, p: int)
    requires
        p <= ts.len(),
    ensures
        mul_rest(ts, lhs, p) matches Ok((_, q)) ==> moves(ts, p, q),
    decreases ts.len() - p, 11int,
{
    if let Some(op) = mul_op(kind_at(ts, p)) {
        lemma_unary_moves(ts, p + 1);
        if let Ok((rhs, q)) = unary_rule(ts, p + 1) {
            if moves(ts, p + 1, q) {
                lemma_mul_rest_moves(
                    ts,
                    SpecExpr::BinOp { op, lhs: Box::new(lhs), rhs: Box::new(rhs) },
                    q,
                );
            }
        }
    }
}

pub proof fn lemma_unary_moves(ts: Seq<SpecToken>, p: int)
    requires
        p <= ts.len(),
    ensures
        unary_rule(ts, p) matches Ok((_, q)) ==> moves(ts, p, q),
    decreases ts.len() - p, 10int,
{
    if kind_at(ts, p) == SpecTokenKind::Minus || kind_at(ts, p) == SpecTokenKind::Not {
        lemma_postfix_moves(ts, p + 1);
    } else {
        lemma_postfix_moves(ts, p);
    }
}

pub proof fn lemma_postfix_moves(ts: Seq<SpecToken>, p: int)
    requires
        p <= ts.len(),
    ensures
        postfix_rule(ts, p) matches Ok((_, q)) ==> moves(ts, p, q),
    decreases ts.len() - p, 9int,
{
    lemma_primary_moves(ts, p);
    if let Ok((e, q)) = primary_rule(ts, p) {
        if moves(ts, p, q) {
            lemma_postfix_rest_moves(ts, e, q);
        }
    }
}

pub proof fn lemma_postfix_rest_moves(ts: Seq<SpecToken>, e: SpecExpr, p: int)
    requires
        p <= ts.len(),
    ensures
        postfix_rest(ts, e, p) matches Ok((_, q)) ==> moves(ts, p, q),
    decreases ts.len() - p, 8int,
{
    if kind_at(ts, p) == SpecTokenKind::Dot {
        if let Ok((name, q)) = ident_rule(ts, p + 1) {
            if kind_at(ts, q) == SpecTokenKind::LParen {
                lemma_args_moves(ts, q + 1);
                if let Ok((args, q2)) = args_rule(ts, q + 1) {
                    if moves(ts, q + 1, q2) && kind_at(ts, q2) == SpecTokenKind::RParen {
                        lemma_postfix_rest_moves(
                            ts,
                            SpecExpr::MethodCall { object: Box::new(e), method: name, args },
                            q2 + 1,
                        );
                    }
                }
            } else {
                lemma_postfix_rest_moves(
                    ts,
                    SpecExpr::FieldAccess { object: Box::new(e), field: name },
                    q,
                );
            }
        }
    }
}

pub proof fn lemma_primary_moves(ts: Seq<SpecToken>, p: int)
    requires
        p <= ts.len(),
    ensures
        primary_rule(ts, p) matches Ok((_, q)) ==> moves(ts, p, q),
    decreases ts.len() - p, 7int,
{
    match kind_at(ts, p) {
        SpecTokenKind::LParen => {
            lemma_expr_moves(ts, p + 1);
        },
        SpecTokenKind::New => {
            if kind_at(ts, p + 1) is Ident && kind_at(ts, p + 2) == SpecTokenKind::LParen {
                lemma_args_moves(ts, p + 3);
            }
        },
        SpecTokenKind::Ident(_) => {
            if kind_at(ts, p + 3) == SpecTokenKind::LParen {
                lemma_args_moves(ts, p + 4);
            }
        },
        _ => {},
    }
}

pub proof fn lemma_args_moves(ts: Seq<SpecToken>, p: int)
    requires
        p <= ts.len(),
    ensures
        args_rule(ts, p) matches Ok((_, q)) ==> moves(ts, p, q),
    decreases ts.len() - p, 22int,
{
    if kind_at(ts, p) != SpecTokenKind::RParen {
        lemma_arg_list_moves(ts, p);
    }
}

pub proof fn lemma_arg_list_moves(ts: Seq<SpecToken>, p: int)
    requires
        p <= ts.len(),
    ensures
        arg_list_rule(ts, p) matches Ok((_, q)) ==> moves(ts, p, q),
    decreases ts.len() - p, 21int,
{
    lemma_expr_moves(ts, p);
    if let Ok((_, q)) = expr_rule(ts, p) {
        if moves(ts, p, q) && kind_at(ts, q) == SpecTokenKind::Comma {
            lemma_arg_list_moves(ts, q + 1);
        }
    }
}

// ── Types and statements ─────────────────────────────────────────────────

pub proof fn lemma_type_moves(ts: Seq<SpecToken>, p: int)
    requires
        p <= ts.len(),
    ensures
        type_rule(ts, p) matches Ok((_, q)) ==> moves(ts, p + 1, q),
{
}

pub proof fn lemma_block_moves(ts: Seq<SpecToken>, p: int)
    requires
        p <= ts.len(),
    ensures
        block_rule(ts, p) matches Ok((_, q)) ==> moves(ts, p, q),
    decreases ts.len() - p, 3int,
{
    if !(kind_at(ts, p) == SpecTokenKind::RBrace || kind_at(ts, p) == SpecTokenKind::Eof) {
        lemma_stmt_moves(ts, p);
        if let Ok((_, q)) = stmt_rule(ts, p) {
            if moves(ts, p + 1, q) {
                lemma_block_moves(ts, q);
            }
        }
    }
}

pub proof fn lemma_stmt_moves(ts: Seq<SpecToken>, p: int)
    requires
        p <= ts.len(),
    ensures
        stmt_rule(ts, p) matches Ok((_, q)) ==> moves(ts, p + 1, q),
    decreases ts.len() - p, 2int,
{
    match kind_at(ts, p) {
        SpecTokenKind::Return => {
            lemma_expr_moves(ts, p + 1);
            assert(return_rule(ts, p) matches Ok((_, q)) ==> moves(ts, p + 1, q));
        },
        SpecTokenKind::If => {
            lemma_if_moves(ts, p);
        },
        SpecTokenKind::While => {
            lemma_guarded_block_moves(ts, p);
            assert(while_rule(ts, p) matches Ok((_, q)) ==> moves(ts, p + 1, q));
        },
        SpecTokenKind::Int | SpecTokenKind::Float | SpecTokenKind::Bool
        | SpecTokenKind::StringType => {
            lemma_var_decl_moves(ts, p);
        },
        _ => {
            lemma_expr_moves(ts, p);
        },
    }
}

pub proof fn lemma_var_decl_moves(ts: Seq<SpecToken>, p: int)
    requires
        p <= ts.len(),
    ensures
        var_decl_rule(ts, p) matches Ok((_, q)) ==> moves(ts, p + 1, q),
{
    lemma_type_moves(ts, p);
    if let Ok((_, q)) = type_rule(ts, p) {
        if let Ok((_, q2)) = ident_rule(ts, q) {
            if kind_at(ts, q2) == SpecTokenKind::Eq {
                lemma_expr_moves(ts, q2 + 1);
            }
        }
    }
}

pub proof fn lemma_guarded_block_moves(ts: Seq<SpecToken>, p: int)
    requires
        p <= ts.len(),
    ensures
        guarded_block_rule(ts, p) matches Ok((_, q)) ==> moves(ts, p + 1, q),
    decreases ts.len() - p, 0int,
{
    if kind_at(ts, p + 1) == SpecTokenKind::LParen {
        if let Ok((_, q2)) = expr_rule(ts, p + 2) {
            if moves(ts, p + 2, q2) && kind_at(ts, q2) == SpecTokenKind::RParen && kind_at(
                ts,
                q2 + 1,
            ) == SpecTokenKind::LBrace {
                lemma_block_moves(ts, q2 + 2);
            }
        }
    }
}

pub proof fn lemma_if_moves(ts: Seq<SpecToken>, p: int)
    requires
        p <= ts.len(),
    ensures
        if_rule(ts, p) matches Ok((_, q)) ==> moves(ts, p + 1, q),
    decreases ts.len() - p, 1int,
{
    lemma_guarded_block_moves(ts, p);
    if let Ok((_, q)) = guarded_block_rule(ts, p) {
        if moves(ts, p + 1, q) && kind_at(ts, q) == SpecTokenKind::Else && kind_at(ts, q + 1)
            == SpecTokenKind::LBrace {
            lemma_block_moves(ts, q + 2);
        }
    }
}

// ── Classes ──────────────────────────────────────────────────────────────

pub proof fn lemma_params_moves(ts: Seq<SpecToken>, p: int)
    requires
        p <= ts.len(),
    ensures
        params_rule(ts, p) matches Ok((_, q)) ==> moves(ts, p, q),
{
    if kind_at(ts, p) != SpecTokenKind::RParen {
        lemma_param_list_moves(ts, p);
    }
}

pub proof fn lemma_param_list_moves(ts: Seq<SpecToken>, p: int)
    requires
        p <= ts.len(),
    ensures
        param_list_rule(ts, p) matches Ok((_, q)) ==> moves(ts, p, q),
    decreases ts.len() - p,
{
    lemma_type_moves(ts, p);
    if let Ok((_, q)) = type_rule(ts, p) {
        if let Ok((_, q2)) = ident_rule(ts, q) {
            if kind_at(ts, q2) == SpecTokenKind::Comma {
                lemma_param_list_moves(ts, q2 + 1);
            }
        }
    }
}

pub proof fn lemma_member_moves(ts: Seq<SpecToken>, p: int)
    requires
        p <= ts.len(),
    ensures
        member_rule(ts, p) matches Ok((_, q)) ==> moves(ts, p + 1, q),
{
    let p1 = if kind_at(ts, p) == SpecTokenKind::Public || kind_at(ts, p)
        == SpecTokenKind::Private {
        p + 1
    } else {
        p
    };
    let p2 = if kind_at(ts, p1) == SpecTokenKind::Static {
        p1 + 1
    } else {
        p1
    };
    lemma_type_moves(ts, p2);
    if let Ok((_, q)) = type_rule(ts, p2) {
        if let Ok((_, q2)) = ident_rule(ts, q) {
            if kind_at(ts, q2) == SpecTokenKind::LParen {
                lemma_params_moves(ts, q2 + 1);
                if let Ok((_, q3)) = params_rule(ts, q2 + 1) {
                    if kind_at(ts, q3) == SpecTokenKind::RParen && kind_at(ts, q3 + 1)
                        == SpecTokenKind::LBrace {
                        lemma_block_moves(ts, q3 + 2);
                    }
                }
            } else if kind_at(ts, q2) == SpecTokenKind::Eq {
                lemma_expr_moves(ts, q2 + 1);
            }
        }
    }
}

pub proof fn lemma_members_moves(ts: Seq<SpecToken>, p: int)
    requires
        p <= ts.len(),
    ensures
        members_rule(ts, p) matches Ok((_, q)) ==> moves(ts, p, q),
    decreases ts.len() - p,
{
    if !(kind_at(ts, p) == SpecTokenKind::RBrace || kind_at(ts, p) == SpecTokenKind::Eof) {
        lemma_member_moves(ts, p);
        if let Ok((_, q)) = member_rule(ts, p) {
            if moves(ts, p + 1, q) {
                lemma_members_moves(ts, q);
            }
        }
    }
}

pub proof fn lemma_class_moves(ts: Seq<SpecToken>, p: int)
    requires
        p <= ts.len(),
    ensures
        class_rule(ts, p) matches Ok((_, q)) ==> moves(ts, p + 1, q),
{
    let p1 = if kind_at(ts, p) == SpecTokenKind::Public {
        p + 1
    } else {
        p
    };
    if kind_at(ts, p1) == SpecTokenKind::Class && kind_at(ts, p1 + 1) is Ident && kind_at(
        ts,
        p1 + 2,
    ) == SpecTokenKind::LBrace {
        lemma_members_moves(ts, p1 + 3);
    }
}

pub proof fn lemma_classes_moves(ts: Seq<SpecToken>, p: int)
    requires
        p <= ts.len(),
    ensures
        classes_rule(ts, p) matches Ok((_, q)) ==> moves(ts, p, q),
    decreases ts.len() - p,
{
    if !(kind_at(ts, p) is Eof) {
        lemma_class_moves(ts, p);
        if let Ok((_, q)) = class_rule(ts, p) {
            if moves(ts, p + 1, q) {
                lemma_classes_moves(ts, q);
            }
        }
    }
}

/// Law: the rules of the grammar move forward. An expression, a block, the
/// members of a class or a sequence of classes that is read ends at or after
/// where it starts; a type, a statement or a class, strictly after; none ends
/// past the end of the tokens.
pub proof fn law_grammar_moves_forward(ts: Seq<SpecToken>, p: int)
    requires
        p <= ts.len(),
    ensures
        expr_rule(ts, p) matches Ok((_, q)) ==> moves(ts, p, q),
        type_rule(ts, p) matches Ok((_, q)) ==> moves(ts, p + 1, q),
        stmt_rule(ts, p) matches Ok((_, q)) ==> moves(ts, p + 1, q),
        block_rule(ts, p) matches Ok((_, q)) ==> moves(ts, p, q),
        members_rule(ts, p) matches Ok((_, q)) ==> moves(ts, p, q),
        class_rule(ts, p) matches Ok((_, q)) ==> moves(ts, p + 1, q),
        classes_rule(ts, p) matches Ok((_, q)) ==> moves(ts, p, q),
{
    lemma_expr_moves(ts, p);
    lemma_type_moves(ts, p);
    lemma_stmt_moves(ts, p);
    lemma_block_moves(ts, p);
    lemma_members_moves(ts, p);
    lemma_class_moves(ts, p);
    lemma_classes_moves(ts, p);
}

} // verus!
