//! The parser: reads a token sequence ending with `Eof` as a program, by
//! recursive descent. Each parsing function computes the grammar rule of the
//! same name in `grammar`.
use vstd::prelude::*;

use crate::ast::{
    exprs_view, stmts_view, BinOp, ClassDecl, Expr, FieldDecl, MethodDecl, Param, Program,
    SpecClass, SpecExpr, SpecField, SpecMethod, SpecParam, SpecProgram, SpecStmt, Stmt, Type,
    UnaryOp, Visibility,
};
use crate::grammar::{
    add_op, add_rest, base_type, starts_primary, add_rule, and_rest, and_rule, arg_list_rule, args_rule, block_rule,
    class_body_rule, class_rule, classes_rule, col_at, compare_op, compare_rule, eat_rule,
    expect_rule, expr_rule, guarded_block_rule, ident_rule, if_rule, kind_at, line_at,
    member_rule, members_rule, method_rest_rule, moves, mul_op, mul_rest, mul_rule, or_rest,
    or_rule, param_list_rule, params_rule, postfix_rest, postfix_rule, primary_rule,
    program_rule, return_rule, stmt_rule, type_rule, unary_rule, var_decl_rule, while_rule,
    Reading, SpecMember, SpecParseError,
};
use crate::lexer::{tokens_view, SpecToken, SpecTokenKind, Token, TokenKind};

verus! {

/// Errors reported by the parser.
#[derive(Debug)]
pub enum ParseError {
    /// A token other than the one the grammar requires here.
    Expected { expected: TokenKind, got: TokenKind, line: usize, col: usize },
    /// A token other than an identifier where a name is required.
    ExpectedIdent { got: TokenKind, line: usize, col: usize },
    /// A token that starts no type where a type is required.
    ExpectedType { got: TokenKind, line: usize },
    /// A token that starts no expression.
    UnexpectedToken { got: TokenKind, line: usize, col: usize },
}

impl View for ParseError {
    type V = SpecParseError;

    open spec fn view(&self) -> SpecParseError {
        match self {
            ParseError::Expected { expected, got, line, col } => SpecParseError::Expected {
                expected: expected@,
                got: got@,
                line: *line as nat,
                col: *col as nat,
            },
            ParseError::ExpectedIdent { got, line, col } => SpecParseError::ExpectedIdent {
                got: got@,
                line: *line as nat,
                col: *col as nat,
            },
            ParseError::ExpectedType { got, line } => SpecParseError::ExpectedType {
                got: got@,
                line: *line as nat,
            },
            ParseError::UnexpectedToken { got, line, col } => SpecParseError::UnexpectedToken {
                got: got@,
                line: *line as nat,
                col: *col as nat,
            },
        }
    }
}

/// What an executed parsing function read, in the terms of the grammar:
/// its value and the position after it, or its error.
pub open spec fn reading<T: View>(r: Result<T, ParseError>, q: usize) -> Reading<T::V> {
    match r {
        Ok(v) => Ok((v@, q as int)),
        Err(e) => Err(e@),
    }
}

/// `reading` for a list of expressions.
pub open spec fn exprs_reading(r: Result<Vec<Expr>, ParseError>, q: usize) -> Reading<
    Seq<SpecExpr>,
> {
    match r {
        Ok(v) => Ok((exprs_view(v@), q as int)),
        Err(e) => Err(e@),
    }
}

/// `reading` for a list of statements.
pub open spec fn stmts_reading(r: Result<Vec<Stmt>, ParseError>, q: usize) -> Reading<
    Seq<SpecStmt>,
> {
    match r {
        Ok(v) => Ok((stmts_view(v@), q as int)),
        Err(e) => Err(e@),
    }
}

/// `reading` for a list of parameters.
pub open spec fn params_reading(r: Result<Vec<Param>, ParseError>, q: usize) -> Reading<
    Seq<SpecParam>,
> {
    match r {
        Ok(v) => Ok((v@.map_values(|p: Param| p@), q as int)),
        Err(e) => Err(e@),
    }
}

/// The program whose classes `r` reads.
pub open spec fn program_of(r: Reading<Seq<SpecClass>>) -> Result<SpecProgram, SpecParseError> {
    match r {
        Ok((classes, _)) => Ok(SpecProgram { classes }),
        Err(e) => Err(e),
    }
}

/// The items `pre` in front of the list that `r` reads.
pub open spec fn after_items<A>(pre: Seq<A>, r: Reading<Seq<A>>) -> Reading<Seq<A>> {
    match r {
        Ok((xs, q)) => Ok((pre + xs, q)),
        Err(e) => Err(e),
    }
}

pub proof fn lemma_exprs_view_push(es: Seq<Expr>, e: Expr)
    ensures
        exprs_view(es.push(e)) == exprs_view(es).push(e@),
{
    assert(es.push(e).drop_last() =~= es);
}

pub proof fn lemma_stmts_view_push(ss: Seq<Stmt>, s: Stmt)
    ensures
        stmts_view(ss.push(s)) == stmts_view(ss).push(s@),
{
    assert(ss.push(s).drop_last() =~= ss);
}

/// Parses a token sequence that ends with `Eof` as a program.
pub fn parse(tokens: Vec<Token>) -> (r: Result<Program, ParseError>)
    requires
        tokens.len() > 0,
        tokens@.last().kind@ is Eof,
    ensures
        match r {
            Ok(p) => program_rule(tokens_view(tokens@)) == Ok::<_, SpecParseError>(p@),
            Err(e) => program_rule(tokens_view(tokens@)) == Err::<SpecProgram, _>(e@),
        },
{
    let mut p = Parser::new(tokens);
    p.parse_program()
}

/// A token sequence and the position of the next token to read.
struct Parser {
    tokens: Vec<Token>,
    pos: usize,
}

impl Parser {
    /// The model of the token sequence.
    spec fn toks(&self) -> Seq<SpecToken> {
        tokens_view(self.tokens@)
    }

    /// The position is that of a token.
    spec fn on_token(&self) -> bool {
        self.pos < self.tokens.len()
    }

    /// The sequence ends with `Eof`, and the position is that of a token.
    spec fn wf(&self) -> bool {
        &&& self.on_token()
        &&& self.tokens@.last().kind@ is Eof
    }

    /// `next` reads the same tokens as `self`, and its position is that of a token.
    spec fn stays(&self, next: &Parser) -> bool {
        &&& next.tokens == self.tokens
        &&& next.on_token()
    }

    /// `next` reads the same tokens as `self`, and is well formed.
    spec fn kept(&self, next: &Parser) -> bool {
        &&& next.tokens == self.tokens
        &&& next.wf()
    }

    /// The position after the current token: the next one, or the same one
    /// when it is the last.
    spec fn next_pos(&self) -> int {
        if self.pos + 1 < self.tokens.len() {
            self.pos + 1
        } else {
            self.pos as int
        }
    }

    fn new(tokens: Vec<Token>) -> (p: Self)
        requires
            tokens.len() > 0,
        ensures
            p.on_token(),
            p.pos == 0,
            p.tokens == tokens,
    {
        Self { tokens, pos: 0 }
    }

    fn peek(&self) -> (k: &TokenKind)
        requires
            self.on_token(),
        ensures
            k@ == kind_at(self.toks(), self.pos as int),
            *k == self.tokens@[self.pos as int].kind,
    {
        &self.tokens[self.pos].kind
    }

    fn peek_token(&self) -> (t: &Token)
        requires
            self.on_token(),
        ensures
            *t == self.tokens@[self.pos as int],
            t@.kind == kind_at(self.toks(), self.pos as int),
            t@.line == line_at(self.toks(), self.pos as int),
            t@.col == col_at(self.toks(), self.pos as int),
    {
        &self.tokens[self.pos]
    }

    /// Moves past the current token, unless it is the last one, and gives the
    /// token moved past.
    fn advance(&mut self) -> (t: &Token)
        requires
            old(self).on_token(),
        ensures
            old(self).stays(final(self)),
            final(self).pos == old(self).next_pos(),
            *t == old(self).tokens@[old(self).pos as int],
    {
        let i = self.pos;
        if self.pos + 1 < self.tokens.len() {
            self.pos += 1;
        }
        &self.tokens[i]
    }

    /// Requires the token `kind` here, and moves past it; an error leaves the
    /// position as it is.
    fn expect(&mut self, kind: &TokenKind) -> (r: Result<(), ParseError>)
        requires
            old(self).on_token(),
        ensures
            old(self).stays(final(self)),
            r is Ok <==> kind_at(old(self).toks(), old(self).pos as int) == kind@,
            r is Ok ==> final(self).pos == old(self).next_pos(),
            r is Err ==> final(self).pos == old(self).pos,
            r matches Err(e) ==> (e@ == (SpecParseError::Expected {
                expected: kind@,
                got: kind_at(old(self).toks(), old(self).pos as int),
                line: line_at(old(self).toks(), old(self).pos as int),
                col: col_at(old(self).toks(), old(self).pos as int),
            })),
            old(self).wf() && !(kind@ is Eof) ==> (match r {
                Ok(()) => expect_rule(old(self).toks(), old(self).pos as int, kind@) == Ok::<
                    int,
                    SpecParseError,
                >(final(self).pos as int),
                Err(e) => expect_rule(old(self).toks(), old(self).pos as int, kind@) == Err::<
                    int,
                    SpecParseError,
                >(e@),
            }),
    {
        if self.peek().same(kind) {
            self.advance();
            Ok(())
        } else {
            let t = self.peek_token();
            Err(
                ParseError::Expected {
                    expected: kind.clone(),
                    got: t.kind.clone(),
                    line: t.line,
                    col: t.col,
                },
            )
        }
    }

    /// Requires an identifier here, gives its name and moves past it; an error
    /// leaves the position as it is.
    fn expect_ident(&mut self) -> (r: Result<String, ParseError>)
        requires
            old(self).on_token(),
        ensures
            old(self).stays(final(self)),
            r matches Ok(name) ==> (kind_at(old(self).toks(), old(self).pos as int)
                == SpecTokenKind::Ident(name@) && final(self).pos == old(self).next_pos()),
            r is Err ==> final(self).pos == old(self).pos,
            old(self).wf() ==> ident_rule(old(self).toks(), old(self).pos as int) == reading(
                r,
                final(self).pos,
            ),
    {
        match self.peek() {
            TokenKind::Ident(name) => {
                let name = name.clone();
                self.advance();
                Ok(name)
            },
            other => {
                let t = self.peek_token();
                Err(ParseError::ExpectedIdent { got: other.clone(), line: t.line, col: t.col })
            },
        }
    }

    /// Moves past the token `kind` if it is here, and says whether it was.
    fn eat(&mut self, kind: &TokenKind) -> (r: bool)
        requires
            old(self).on_token(),
        ensures
            old(self).stays(final(self)),
            r == (kind_at(old(self).toks(), old(self).pos as int) == kind@),
            final(self).pos == (if r {
                old(self).next_pos()
            } else {
                old(self).pos as int
            }),
            old(self).wf() && !(kind@ is Eof) ==> final(self).pos == eat_rule(
                old(self).toks(),
                old(self).pos as int,
                kind@,
            ),
    {
        if self.peek().same(kind) {
            self.advance();
            true
        } else {
            false
        }
    }
}

// ── Types and expressions ───────────────────────────────────────────────

impl Parser {
    #[verifier::spinoff_prover]
    fn parse_type(&mut self) -> (r: Result<Type, ParseError>)
        requires
            old(self).wf(),
        ensures
            old(self).kept(final(self)),
            type_rule(old(self).toks(), old(self).pos as int) == reading(r, final(self).pos),
            r is Ok ==> old(self).pos < final(self).pos,
            base_type(kind_at(old(self).toks(), old(self).pos as int)) is None ==> r is Err
                && final(self).pos == old(self).pos,
    {
        let ty = match self.peek() {
            TokenKind::Void => {
                self.advance();
                Type::Void
            },
            TokenKind::Int => {
                self.advance();
                Type::Int
            },
            TokenKind::Float => {
                self.advance();
                Type::Float
            },
            TokenKind::Bool => {
                self.advance();
                Type::Bool
            },
            TokenKind::StringType => {
                self.advance();
                Type::Str
            },
            TokenKind::Ident(n) => {
                let n = n.clone();
                self.advance();
                Type::Named(n)
            },
            other => {
                let got = other.clone();
                return Err(ParseError::ExpectedType { got, line: self.peek_token().line });
            },
        };
        let ghost base = ty@;
        // an array type?
        if self.eat(&TokenKind::LBracket) {
            self.expect(&TokenKind::RBracket)?;
            let arr = Type::Array(Box::new(ty));
            assert(arr@ == crate::ast::SpecType::Array(Box::new(base)));
            return Ok(arr);
        }
        Ok(ty)
    }

    #[verifier::spinoff_prover]
    fn parse_expr(&mut self) -> (r: Result<Expr, ParseError>)
        requires
            old(self).wf(),
        ensures
            old(self).kept(final(self)),
            expr_rule(old(self).toks(), old(self).pos as int) == reading(r, final(self).pos),
            r is Ok ==> old(self).pos <= final(self).pos,
        decreases old(self).tokens.len() - old(self).pos, 20int,
    {
        let lhs = self.parse_or()?;
        if self.eat(&TokenKind::Eq) {
            let rhs = self.parse_expr()?;
            return Ok(Expr::Assign { target: Box::new(lhs), value: Box::new(rhs) });
        }
        Ok(lhs)
    }

    #[verifier::spinoff_prover]
    fn parse_or(&mut self) -> (r: Result<Expr, ParseError>)
        requires
            old(self).wf(),
        ensures
            old(self).kept(final(self)),
            or_rule(old(self).toks(), old(self).pos as int) == reading(r, final(self).pos),
            r is Ok ==> old(self).pos <= final(self).pos,
        decreases old(self).tokens.len() - old(self).pos, 19int,
    {
        let ghost ts = self.toks();
        let ghost p0 = self.pos as int;
        let mut lhs = self.parse_and()?;
        loop
            invariant
                old(self).kept(self),
                ts == self.toks(),
                p0 == old(self).pos,
                p0 <= self.pos,
                or_rule(ts, p0) == or_rest(ts, lhs@, self.pos as int),
            decreases self.tokens.len() - self.pos,
        {
            let ghost p = self.pos as int;
            let ghost l0 = lhs@;
            if !self.eat(&TokenKind::Or) {
                return Ok(lhs);
            }
            let rhs = self.parse_and()?;
            lhs = Expr::BinOp { op: BinOp::Or, lhs: Box::new(lhs), rhs: Box::new(rhs) };
            proof {
                assert(lhs@ == SpecExpr::BinOp { op: BinOp::Or, lhs: Box::new(l0), rhs: Box::new(rhs@) });
                assert(or_rest(ts, l0, p) == or_rest(ts, lhs@, self.pos as int));
            }
        }
    }

    #[verifier::spinoff_prover]
    fn parse_and(&mut self) -> (r: Result<Expr, ParseError>)
        requires
            old(self).wf(),
        ensures
            old(self).kept(final(self)),
            and_rule(old(self).toks(), old(self).pos as int) == reading(r, final(self).pos),
            r is Ok ==> old(self).pos <= final(self).pos,
        decreases old(self).tokens.len() - old(self).pos, 17int,
    {
        let ghost ts = self.toks();
        let ghost p0 = self.pos as int;
        let mut lhs = self.parse_compare()?;
        loop
            invariant
                old(self).kept(self),
                ts == self.toks(),
                p0 == old(self).pos,
                p0 <= self.pos,
                and_rule(ts, p0) == and_rest(ts, lhs@, self.pos as int),
            decreases self.tokens.len() - self.pos,
        {
            let ghost p = self.pos as int;
            let ghost l0 = lhs@;
            if !self.eat(&TokenKind::And) {
                return Ok(lhs);
            }
            let rhs = self.parse_compare()?;
            lhs = Expr::BinOp { op: BinOp::And, lhs: Box::new(lhs), rhs: Box::new(rhs) };
            proof {
                assert(lhs@ == SpecExpr::BinOp { op: BinOp::And, lhs: Box::new(l0), rhs: Box::new(rhs@) });
                assert(and_rest(ts, l0, p) == and_rest(ts, lhs@, self.pos as int));
            }
        }
    }

    #[verifier::rlimit(30)]
    #[verifier::spinoff_prover]
    fn parse_compare(&mut self) -> (r: Result<Expr, ParseError>)
        requires
            old(self).wf(),
        ensures
            old(self).kept(final(self)),
            compare_rule(old(self).toks(), old(self).pos as int) == reading(r, final(self).pos),
            r is Ok ==> old(self).pos <= final(self).pos,
        decreases old(self).tokens.len() - old(self).pos, 15int,
    {
        let lhs = self.parse_add()?;
        let op = match self.peek() {
            TokenKind::EqEq => BinOp::Eq,
            TokenKind::NotEq => BinOp::NotEq,
            TokenKind::Lt => BinOp::Lt,
            TokenKind::LtEq => BinOp::LtEq,
            TokenKind::Gt => BinOp::Gt,
            TokenKind::GtEq => BinOp::GtEq,
            _ => return Ok(lhs),
        };
        self.advance();
        let rhs = self.parse_add()?;
        Ok(Expr::BinOp { op, lhs: Box::new(lhs), rhs: Box::new(rhs) })
    }

    #[verifier::spinoff_prover]
    fn parse_add(&mut self) -> (r: Result<Expr, ParseError>)
        requires
            old(self).wf(),
        ensures
            old(self).kept(final(self)),
            add_rule(old(self).toks(), old(self).pos as int) == reading(r, final(self).pos),
            r is Ok ==> old(self).pos <= final(self).pos,
        decreases old(self).tokens.len() - old(self).pos, 14int,
    {
        let ghost ts = self.toks();
        let ghost p0 = self.pos as int;
        let mut lhs = self.parse_mul()?;
        loop
            invariant
                old(self).kept(self),
                ts == self.toks(),
                p0 == old(self).pos,
                p0 <= self.pos,
                add_rule(ts, p0) == add_rest(ts, lhs@, self.pos as int),
            decreases self.tokens.len() - self.pos,
        {
            let ghost p = self.pos as int;
            let ghost l0 = lhs@;
            let op = match self.peek() {
                TokenKind::Plus => BinOp::Add,
                TokenKind::Minus => BinOp::Sub,
                _ => return Ok(lhs),
            };
            self.advance();
            let rhs = self.parse_mul()?;
            lhs = Expr::BinOp { op, lhs: Box::new(lhs), rhs: Box::new(rhs) };
            proof {
                assert(lhs@ == SpecExpr::BinOp { op, lhs: Box::new(l0), rhs: Box::new(rhs@) });
                assert(add_rest(ts, l0, p) == add_rest(ts, lhs@, self.pos as int));
            }
        }
    }

    #[verifier::spinoff_prover]
    fn parse_mul(&mut self) -> (r: Result<Expr, ParseError>)
        requires
            old(self).wf(),
        ensures
            old(self).kept(final(self)),
            mul_rule(old(self).toks(), old(self).pos as int) == reading(r, final(self).pos),
            r is Ok ==> old(self).pos <= final(self).pos,
        decreases old(self).tokens.len() - old(self).pos, 12int,
    {
        let ghost ts = self.toks();
        let ghost p0 = self.pos as int;
        let mut lhs = self.parse_unary()?;
        loop
            invariant
                old(self).kept(self),
                ts == self.toks(),
                p0 == old(self).pos,
                p0 <= self.pos,
                mul_rule(ts, p0) == mul_rest(ts, lhs@, self.pos as int),
            decreases self.tokens.len() - self.pos,
        {
            let ghost p = self.pos as int;
            let ghost l0 = lhs@;
            let op = match self.peek() {
                TokenKind::Star => BinOp::Mul,
                TokenKind::Slash => BinOp::Div,
                TokenKind::Percent => BinOp::Mod,
                _ => return Ok(lhs),
            };
            self.advance();
            let rhs = self.parse_unary()?;
            lhs = Expr::BinOp { op, lhs: Box::new(lhs), rhs: Box::new(rhs) };
            proof {
                assert(lhs@ == SpecExpr::BinOp { op, lhs: Box::new(l0), rhs: Box::new(rhs@) });
                assert(mul_rest(ts, l0, p) == mul_rest(ts, lhs@, self.pos as int));
            }
        }
    }

    #[verifier::spinoff_prover]
    fn parse_unary(&mut self) -> (r: Result<Expr, ParseError>)
        requires
            old(self).wf(),
        ensures
            old(self).kept(final(self)),
            unary_rule(old(self).toks(), old(self).pos as int) == reading(r, final(self).pos),
            r is Ok ==> old(self).pos <= final(self).pos,
        decreases old(self).tokens.len() - old(self).pos, 10int,
    {
        if self.eat(&TokenKind::Minus) {
            let e = self.parse_postfix()?;
            return Ok(Expr::UnaryOp { op: UnaryOp::Neg, expr: Box::new(e) });
        }
        if self.eat(&TokenKind::Not) {
            let e = self.parse_postfix()?;
            return Ok(Expr::UnaryOp { op: UnaryOp::Not, expr: Box::new(e) });
        }
        self.parse_postfix()
    }

    #[verifier::rlimit(30)]
    #[verifier::spinoff_prover]
    fn parse_postfix(&mut self) -> (r: Result<Expr, ParseError>)
        requires
            old(self).wf(),
        ensures
            old(self).kept(final(self)),
            postfix_rule(old(self).toks(), old(self).pos as int) == reading(r, final(self).pos),
            r is Ok ==> old(self).pos <= final(self).pos,
        decreases old(self).tokens.len() - old(self).pos, 9int,
    {
        let ghost ts = self.toks();
        let ghost p0 = self.pos as int;
        let mut expr = self.parse_primary()?;
        loop
            invariant
                old(self).kept(self),
                ts == self.toks(),
                p0 == old(self).pos,
                p0 <= self.pos,
                postfix_rule(ts, p0) == postfix_rest(ts, expr@, self.pos as int),
            decreases self.tokens.len() - self.pos,
        {
            let ghost p = self.pos as int;
            let ghost e0 = expr@;
            if !self.eat(&TokenKind::Dot) {
                return Ok(expr);
            }
            let field = self.expect_ident()?;
            if self.peek().same(&TokenKind::LParen) {
                self.advance();
                let args = self.parse_args()?;
                self.expect(&TokenKind::RParen)?;
                expr = Expr::MethodCall { object: Box::new(expr), method: field, args };
                proof {
                    assert(expr@ == SpecExpr::MethodCall {
                        object: Box::new(e0),
                        method: field@,
                        args: exprs_view(args@),
                    });
                    assert(postfix_rest(ts, e0, p) == postfix_rest(ts, expr@, self.pos as int));
                }
            } else {
                expr = Expr::FieldAccess { object: Box::new(expr), field };
                proof {
                    assert(expr@ == SpecExpr::FieldAccess { object: Box::new(e0), field: field@ });
                    assert(postfix_rest(ts, e0, p) == postfix_rest(ts, expr@, self.pos as int));
                }
            }
        }
    }

    #[verifier::rlimit(60)]
    #[verifier::spinoff_prover]
    fn parse_primary(&mut self) -> (r: Result<Expr, ParseError>)
        requires
            old(self).wf(),
        ensures
            old(self).kept(final(self)),
            primary_rule(old(self).toks(), old(self).pos as int) == reading(r, final(self).pos),
            r is Ok ==> old(self).pos <= final(self).pos,
            !starts_primary(kind_at(old(self).toks(), old(self).pos as int)) ==> r is Err
                && final(self).pos == old(self).pos,
        decreases old(self).tokens.len() - old(self).pos, 7int,
    {
        match self.peek() {
            TokenKind::IntLiteral(n) => {
                let n = *n;
                self.advance();
                Ok(Expr::IntLit(n))
            },
            TokenKind::FloatLiteral(f) => {
                let f = f.clone();
                self.advance();
                Ok(Expr::FloatLit(f))
            },
            TokenKind::StringLiteral(s) => {
                let s = s.clone();
                self.advance();
                Ok(Expr::StrLit(s))
            },
            TokenKind::BoolLiteral(b) => {
                let b = *b;
                self.advance();
                Ok(Expr::BoolLit(b))
            },
            TokenKind::LParen => {
                self.advance();
                let e = self.parse_expr()?;
                self.expect(&TokenKind::RParen)?;
                Ok(e)
            },
            TokenKind::New => {
                self.advance();
                let class = self.expect_ident()?;
                self.expect(&TokenKind::LParen)?;
                let args = self.parse_args()?;
                self.expect(&TokenKind::RParen)?;
                Ok(Expr::New { class, args })
            },
            TokenKind::Ident(name) => {
                let name = name.clone();
                self.advance();
                // A static call `ClassName.method(...)`: the dot is followed
                // by an identifier and then `(`.
                if self.peek().same(&TokenKind::Dot) {
                    if self.pos + 2 < self.tokens.len() {
                        if let TokenKind::Ident(_) = &self.tokens[self.pos + 1].kind {
                            if self.tokens[self.pos + 2].kind.same(&TokenKind::LParen) {
                                self.advance();  // .
                                let method = self.expect_ident()?;
                                self.advance();  // (
                                let args = self.parse_args()?;
                                self.expect(&TokenKind::RParen)?;
                                return Ok(Expr::StaticCall { class: name, method, args });
                            }
                        }
                    }
                }
                Ok(Expr::Ident(name))
            },
            other => {
                let got = other.clone();
                let t = self.peek_token();
                Err(ParseError::UnexpectedToken { got, line: t.line, col: t.col })
            },
        }
    }

    #[verifier::rlimit(80)]
    #[verifier::spinoff_prover]
    fn parse_args(&mut self) -> (r: Result<Vec<Expr>, ParseError>)
        requires
            old(self).wf(),
        ensures
            old(self).kept(final(self)),
            args_rule(old(self).toks(), old(self).pos as int) == exprs_reading(r, final(self).pos),
            r is Ok ==> old(self).pos <= final(self).pos,
        decreases old(self).tokens.len() - old(self).pos, 22int,
    {
        let ghost ts = self.toks();
        let ghost p0 = self.pos as int;
        let mut args: Vec<Expr> = Vec::new();
        if self.peek().same(&TokenKind::RParen) {
            return Ok(args);
        }
        proof {
            assert(exprs_view(args@) =~= seq![]);
            assert(after_items(seq![], arg_list_rule(ts, p0)) == arg_list_rule(ts, p0)) by {
                match arg_list_rule(ts, p0) {
                    Ok((xs, q)) => { assert(seq![] + xs =~= xs); },
                    Err(_) => {},
                }
            }
        }
        loop
            invariant
                old(self).kept(self),
                ts == self.toks(),
                p0 == old(self).pos,
                p0 <= self.pos,
                args_rule(ts, p0) == after_items(exprs_view(args@), arg_list_rule(ts, self.pos as int)),
            decreases self.tokens.len() - self.pos,
        {
            let ghost before = args@;
            let ghost pe = self.pos as int;
            let e = self.parse_expr()?;
            let ghost q = self.pos as int;
            args.push(e);
            proof {
                lemma_exprs_view_push(before, e);
            }
            if !self.eat(&TokenKind::Comma) {
                proof {
                    assert(self.pos == q);
                    assert(arg_list_rule(ts, pe) == Ok::<_, SpecParseError>((seq![e@], q)));
                    assert(exprs_view(before) + seq![e@] =~= exprs_view(args@));
                }
                return Ok(args);
            }
            proof {
                assert(self.pos == q + 1);
                assert(arg_list_rule(ts, pe) == after_items(seq![e@], arg_list_rule(ts, q + 1)));
                match arg_list_rule(ts, self.pos as int) {
                    Ok((xs, q2)) => {
                        assert(exprs_view(before) + (seq![e@] + xs) =~= exprs_view(args@) + xs);
                    },
                    Err(_) => {},
                }
            }
        }
    }
}

// ── Statements ───────────────────────────────────────────────────────────

impl Parser {
    #[verifier::spinoff_prover]
    fn parse_block(&mut self) -> (r: Result<Vec<Stmt>, ParseError>)
        requires
            old(self).wf(),
        ensures
            old(self).kept(final(self)),
            block_rule(old(self).toks(), old(self).pos as int) == stmts_reading(r, final(self).pos),
            r is Ok ==> old(self).pos <= final(self).pos,
        decreases old(self).tokens.len() - old(self).pos, 3int,
    {
        let ghost ts = self.toks();
        let ghost p0 = self.pos as int;
        let mut stmts: Vec<Stmt> = Vec::new();
        proof {
            assert(stmts_view(stmts@) =~= seq![]);
            lemma_after_no_items(block_rule(ts, p0));
        }
        loop
            invariant
                old(self).kept(self),
                ts == self.toks(),
                p0 == old(self).pos,
                p0 <= self.pos,
                block_rule(ts, p0) == after_items(stmts_view(stmts@), block_rule(ts, self.pos as int)),
            decreases self.tokens.len() - self.pos,
        {
            if self.peek().same(&TokenKind::RBrace) || self.peek().same(&TokenKind::Eof) {
                proof {
                    assert(stmts_view(stmts@) + seq![] =~= stmts_view(stmts@));
                }
                return Ok(stmts);
            }
            let ghost before = stmts@;
            let s = self.parse_stmt()?;
            stmts.push(s);
            proof {
                lemma_stmts_view_push(before, s);
                match block_rule(ts, self.pos as int) {
                    Ok((xs, q)) => {
                        assert(stmts_view(before) + (seq![s@] + xs) =~= stmts_view(stmts@) + xs);
                    },
                    Err(_) => {},
                }
            }
        }
    }

    #[verifier::rlimit(40)]
    #[verifier::spinoff_prover]
    fn parse_stmt(&mut self) -> (r: Result<Stmt, ParseError>)
        requires
            old(self).wf(),
        ensures
            old(self).kept(final(self)),
            stmt_rule(old(self).toks(), old(self).pos as int) == reading(r, final(self).pos),
            r is Ok ==> old(self).pos < final(self).pos,
        decreases old(self).tokens.len() - old(self).pos, 2int,
    {
        let ghost ts = self.toks();
        let ghost p = self.pos as int;
        match self.peek() {
            TokenKind::Return => {
                assert(stmt_rule(ts, p) == return_rule(ts, p));
                self.advance();
                let val = if self.peek().same(&TokenKind::Semicolon) {
                    None
                } else {
                    Some(self.parse_expr()?)
                };
                self.expect(&TokenKind::Semicolon)?;
                Ok(Stmt::Return(val))
            },
            TokenKind::If => {
                assert(stmt_rule(ts, p) == if_rule(ts, p));
                self.advance();
                self.expect(&TokenKind::LParen)?;
                let cond = self.parse_expr()?;
                self.expect(&TokenKind::RParen)?;
                self.expect(&TokenKind::LBrace)?;
                let then_body = self.parse_block()?;
                self.expect(&TokenKind::RBrace)?;
                let ghost q = self.pos as int;
                assert(guarded_block_rule(ts, p) == Ok::<_, SpecParseError>(
                    ((cond@, stmts_view(then_body@)), q),
                ));
                let else_body = if self.eat(&TokenKind::Else) {
                    self.expect(&TokenKind::LBrace)?;
                    let b = self.parse_block()?;
                    self.expect(&TokenKind::RBrace)?;
                    Some(b)
                } else {
                    None
                };
                Ok(Stmt::If { cond, then_body, else_body })
            },
            TokenKind::While => {
                assert(stmt_rule(ts, p) == while_rule(ts, p));
                self.advance();
                self.expect(&TokenKind::LParen)?;
                let cond = self.parse_expr()?;
                self.expect(&TokenKind::RParen)?;
                self.expect(&TokenKind::LBrace)?;
                let body = self.parse_block()?;
                self.expect(&TokenKind::RBrace)?;
                Ok(Stmt::While { cond, body })
            },
            // A local variable declaration: `int x = ...`
            TokenKind::Int | TokenKind::Float | TokenKind::Bool | TokenKind::StringType => {
                assert(stmt_rule(ts, p) == var_decl_rule(ts, p));
                let ty = self.parse_type()?;
                let name = self.expect_ident()?;
                let init = if self.eat(&TokenKind::Eq) {
                    Some(self.parse_expr()?)
                } else {
                    None
                };
                self.expect(&TokenKind::Semicolon)?;
                Ok(Stmt::VarDecl { ty, name, init })
            },
            _ => {
                let expr = self.parse_expr()?;
                self.expect(&TokenKind::Semicolon)?;
                Ok(Stmt::Expr(expr))
            },
        }
    }
}

// ── Classes ──────────────────────────────────────────────────────────────

/// The methods `ms` and fields `fs` in front of the members that `r` reads.
pub open spec fn after_members(
    ms: Seq<SpecMethod>,
    fs: Seq<SpecField>,
    r: Reading<(Seq<SpecMethod>, Seq<SpecField>)>,
) -> Reading<(Seq<SpecMethod>, Seq<SpecField>)> {
    match r {
        Ok(((a, b), q)) => Ok(((ms + a, fs + b), q)),
        Err(e) => Err(e),
    }
}

proof fn lemma_after_no_items<A>(r: Reading<Seq<A>>)
    ensures
        after_items(seq![], r) == r,
{
    match r {
        Ok((xs, q)) => {
            assert(seq![] + xs =~= xs);
        },
        Err(_) => {},
    }
}

impl Parser {
    #[verifier::spinoff_prover]
    fn parse_params(&mut self) -> (r: Result<Vec<Param>, ParseError>)
        requires
            old(self).wf(),
        ensures
            old(self).kept(final(self)),
            params_rule(old(self).toks(), old(self).pos as int) == params_reading(r, final(self).pos),
            r is Ok ==> old(self).pos <= final(self).pos,
    {
        let ghost ts = self.toks();
        let ghost p0 = self.pos as int;
        let mut params: Vec<Param> = Vec::new();
        if self.peek().same(&TokenKind::RParen) {
            proof {
                assert(params@.map_values(|p: Param| p@) =~= seq![]);
            }
            return Ok(params);
        }
        proof {
            assert(params@.map_values(|p: Param| p@) =~= seq![]);
            lemma_after_no_items(param_list_rule(ts, p0));
        }
        loop
            invariant
                old(self).kept(self),
                ts == self.toks(),
                p0 == old(self).pos,
                p0 <= self.pos,
                params_rule(ts, p0) == after_items(
                    params@.map_values(|p: Param| p@),
                    param_list_rule(ts, self.pos as int),
                ),
            decreases self.tokens.len() - self.pos,
        {
            let ghost before = params@;
            let ty = self.parse_type()?;
            let name = self.expect_ident()?;
            let param = Param { ty, name };
            params.push(param);
            proof {
                assert(params@.map_values(|p: Param| p@) =~= before.map_values(|p: Param| p@).push(param@));
            }
            if !self.eat(&TokenKind::Comma) {
                proof {
                    assert(before.map_values(|p: Param| p@) + seq![param@] =~= params@.map_values(|p: Param| p@));
                }
                return Ok(params);
            }
            proof {
                match param_list_rule(ts, self.pos as int) {
                    Ok((xs, q)) => {
                        assert(before.map_values(|p: Param| p@) + (seq![param@] + xs)
                            =~= params@.map_values(|p: Param| p@) + xs);
                    },
                    Err(_) => {},
                }
            }
        }
    }

    fn parse_method_rest(
        &mut self,
        vis: Visibility,
        is_static: bool,
        return_ty: Type,
        name: String,
    ) -> (r: Result<MethodDecl, ParseError>)
        requires
            old(self).wf(),
        ensures
            old(self).kept(final(self)),
            method_rest_rule(old(self).toks(), old(self).pos as int, vis, is_static, return_ty@, name@)
                == reading(r, final(self).pos),
            r is Ok ==> old(self).pos < final(self).pos,
    {
        self.expect(&TokenKind::LParen)?;
        let params = self.parse_params()?;
        self.expect(&TokenKind::RParen)?;
        self.expect(&TokenKind::LBrace)?;
        let body = self.parse_block()?;
        self.expect(&TokenKind::RBrace)?;
        Ok(MethodDecl { vis, is_static, return_ty, name, params, body })
    }

    #[verifier::rlimit(40)]
    #[verifier::spinoff_prover]
    fn parse_class(&mut self) -> (r: Result<ClassDecl, ParseError>)
        requires
            old(self).wf(),
        ensures
            old(self).kept(final(self)),
            class_rule(old(self).toks(), old(self).pos as int) == reading(r, final(self).pos),
            r is Ok ==> old(self).pos < final(self).pos,
    {
        let ghost ts = self.toks();
        // An optional `public`
        self.eat(&TokenKind::Public);
        self.expect(&TokenKind::Class)?;
        let name = self.expect_ident()?;
        self.expect(&TokenKind::LBrace)?;
        let ghost pm = self.pos as int;
        assert(class_rule(ts, old(self).pos as int) == class_body_rule(ts, name@, pm));

        let mut methods: Vec<MethodDecl> = Vec::new();
        let mut fields: Vec<FieldDecl> = Vec::new();
        proof {
            assert(methods@.map_values(|m: MethodDecl| m@) =~= seq![]);
            assert(fields@.map_values(|f: FieldDecl| f@) =~= seq![]);
            match members_rule(ts, pm) {
                Ok(((a, b), q)) => {
                    assert(seq![] + a =~= a);
                    assert(seq![] + b =~= b);
                },
                Err(_) => {},
            }
        }

        loop
            invariant
                old(self).kept(self),
                ts == self.toks(),
                old(self).pos < pm <= self.pos,
                class_rule(ts, old(self).pos as int) == class_body_rule(ts, name@, pm),
                members_rule(ts, pm) == after_members(
                    methods@.map_values(|m: MethodDecl| m@),
                    fields@.map_values(|f: FieldDecl| f@),
                    members_rule(ts, self.pos as int),
                ),
            ensures
                kind_at(ts, self.pos as int) is RBrace || kind_at(ts, self.pos as int) is Eof,
            decreases self.tokens.len() - self.pos,
        {
            if self.peek().same(&TokenKind::RBrace) || self.peek().same(&TokenKind::Eof) {
                break;
            }
            let ghost p = self.pos as int;
            assert(members_rule(ts, p) == match member_rule(ts, p) {
                Ok((m, q)) => if !moves(ts, p + 1, q) {
                    Err(crate::grammar::unexpected(ts, q))
                } else {
                    match members_rule(ts, q) {
                        Ok(((ms, fs), q2)) => match m {
                            SpecMember::Method(x) => Ok(((seq![x] + ms, fs), q2)),
                            SpecMember::Field(f) => Ok(((ms, seq![f] + fs), q2)),
                        },
                        Err(err) => Err(err),
                    }
                },
                Err(err) => Err(err),
            });
            let ghost ms0 = methods@.map_values(|m: MethodDecl| m@);
            let ghost fs0 = fields@.map_values(|f: FieldDecl| f@);
            let vis = if self.eat(&TokenKind::Public) {
                Visibility::Public
            } else if self.eat(&TokenKind::Private) {
                Visibility::Private
            } else {
                Visibility::Public
            };
            let is_static = self.eat(&TokenKind::Static);
            let ty = self.parse_type()?;
            let member_name = self.expect_ident()?;

            if self.peek().same(&TokenKind::LParen) {
                // a method
                let m = self.parse_method_rest(vis, is_static, ty, member_name)?;
                assert(member_rule(ts, p) == Ok::<_, SpecParseError>((SpecMember::Method(m@), self.pos as int)));
                methods.push(m);
                proof {
                    assert(methods@.map_values(|m: MethodDecl| m@) =~= ms0.push(m@));
                    match members_rule(ts, self.pos as int) {
                        Ok(((a, b), q)) => {
                            assert(ms0 + (seq![m@] + a) =~= methods@.map_values(|m: MethodDecl| m@) + a);
                        },
                        Err(_) => {},
                    }
                }
            } else {
                // a field
                let init = if self.eat(&TokenKind::Eq) {
                    Some(self.parse_expr()?)
                } else {
                    None
                };
                self.expect(&TokenKind::Semicolon)?;
                let f = FieldDecl { vis, is_static, ty, name: member_name, init };
                assert(member_rule(ts, p) == Ok::<_, SpecParseError>((SpecMember::Field(f@), self.pos as int)));
                fields.push(f);
                proof {
                    assert(fields@.map_values(|f: FieldDecl| f@) =~= fs0.push(f@));
                    match members_rule(ts, self.pos as int) {
                        Ok(((a, b), q)) => {
                            assert(fs0 + (seq![f@] + b) =~= fields@.map_values(|f: FieldDecl| f@) + b);
                        },
                        Err(_) => {},
                    }
                }
            }
        }

        proof {
            assert(methods@.map_values(|m: MethodDecl| m@) + seq![] =~= methods@.map_values(|m: MethodDecl| m@));
            assert(fields@.map_values(|f: FieldDecl| f@) + seq![] =~= fields@.map_values(|f: FieldDecl| f@));
        }
        self.expect(&TokenKind::RBrace)?;
        Ok(ClassDecl { name, methods, fields })
    }

    #[verifier::spinoff_prover]
    fn parse_program(&mut self) -> (r: Result<Program, ParseError>)
        requires
            old(self).wf(),
            old(self).pos == 0,
        ensures
            match r {
                Ok(p) => program_rule(old(self).toks()) == Ok::<_, SpecParseError>(p@),
                Err(e) => program_rule(old(self).toks()) == Err::<SpecProgram, _>(e@),
            },
            r is Ok ==> kind_at(old(self).toks(), final(self).pos as int) is Eof,
    {
        let ghost ts = self.toks();
        // A program is one or more classes.
        let first = self.parse_class()?;
        let mut classes: Vec<ClassDecl> = Vec::new();
        classes.push(first);
        proof {
            assert(classes@.map_values(|c: ClassDecl| c@) =~= seq![first@]);
        }
        loop
            invariant
                old(self).kept(self),
                ts == self.toks(),
                program_rule(ts) == program_of(
                    after_items(classes@.map_values(|c: ClassDecl| c@), classes_rule(ts, self.pos as int)),
                ),
            decreases self.tokens.len() - self.pos,
        {
            if self.peek().same(&TokenKind::Eof) {
                proof {
                    assert(classes@.map_values(|c: ClassDecl| c@) + seq![] =~= classes@.map_values(|c: ClassDecl| c@));
                }
                return Ok(Program { classes });
            }
            let ghost before = classes@.map_values(|c: ClassDecl| c@);
            let c = self.parse_class()?;
            classes.push(c);
            proof {
                assert(classes@.map_values(|c: ClassDecl| c@) =~= before.push(c@));
                match classes_rule(ts, self.pos as int) {
                    Ok((xs, q)) => {
                        assert(before + (seq![c@] + xs) =~= classes@.map_values(|c: ClassDecl| c@) + xs);
                    },
                    Err(_) => {},
                }
            }
        }
    }
}

} // verus!
