//! The lexer: turns source text into a sequence of tokens, each with the line
//! and column at which it starts, ending with a single `Eof` token.
use vstd::prelude::*;

use crate::text::{
    char_is_alphabetic, char_is_alphanumeric, char_is_white_space, chars_of, is_alphabetic,
    is_alphanumeric, is_white_space, string_from_chars, text_is,
};

verus! {

/// A token together with the position (line and column, both counted from 1)
/// of its first character.
#[derive(Debug)]
pub struct Token {
    pub kind: TokenKind,
    pub line: usize,
    pub col: usize,
}

/// The kinds of tokens. A float literal keeps the text it was written with
/// (digits, a point, digits); its numeric value is left to the consumer.
#[derive(Debug)]
pub enum TokenKind {
    // literals
    IntLiteral(i64),
    FloatLiteral(String),
    StringLiteral(String),
    BoolLiteral(bool),
    // identifiers and keywords
    Ident(String),
    Class,
    Void,
    Return,
    If,
    Else,
    While,
    For,
    New,
    Static,
    Public,
    Private,
    Final,
    Int,
    Float,
    Bool,
    StringType,
    // operators
    Plus,
    Minus,
    Star,
    Slash,
    Percent,
    Eq,
    EqEq,
    NotEq,
    Lt,
    LtEq,
    Gt,
    GtEq,
    And,
    Or,
    Not,
    Dot,
    Comma,
    Semicolon,
    Colon,
    // brackets
    LParen,
    RParen,
    LBrace,
    RBrace,
    LBracket,
    RBracket,
    Eof,
}

/// The mathematical model of a token kind: texts are character sequences.
pub enum SpecTokenKind {
    IntLiteral(i64),
    FloatLiteral(Seq<char>),
    StringLiteral(Seq<char>),
    BoolLiteral(bool),
    Ident(Seq<char>),
    Class,
    Void,
    Return,
    If,
    Else,
    While,
    For,
    New,
    Static,
    Public,
    Private,
    Final,
    Int,
    Float,
    Bool,
    StringType,
    Plus,
    Minus,
    Star,
    Slash,
    Percent,
    Eq,
    EqEq,
    NotEq,
    Lt,
    LtEq,
    Gt,
    GtEq,
    And,
    Or,
    Not,
    Dot,
    Comma,
    Semicolon,
    Colon,
    LParen,
    RParen,
    LBrace,
    RBrace,
    LBracket,
    RBracket,
    Eof,
}

/// The mathematical model of a token.
pub struct SpecToken {
    pub kind: SpecTokenKind,
    pub line: nat,
    pub col: nat,
}

impl View for TokenKind {
    type V = SpecTokenKind;

    open spec fn view(&self) -> SpecTokenKind {
        match self {
            TokenKind::IntLiteral(n) => SpecTokenKind::IntLiteral(*n),
            TokenKind::FloatLiteral(s) => SpecTokenKind::FloatLiteral(s@),
            TokenKind::StringLiteral(s) => SpecTokenKind::StringLiteral(s@),
            TokenKind::BoolLiteral(b) => SpecTokenKind::BoolLiteral(*b),
            TokenKind::Ident(s) => SpecTokenKind::Ident(s@),
            TokenKind::Class => SpecTokenKind::Class,
            TokenKind::Void => SpecTokenKind::Void,
            TokenKind::Return => SpecTokenKind::Return,
            TokenKind::If => SpecTokenKind::If,
            TokenKind::Else => SpecTokenKind::Else,
            TokenKind::While => SpecTokenKind::While,
            TokenKind::For => SpecTokenKind::For,
            TokenKind::New => SpecTokenKind::New,
            TokenKind::Static => SpecTokenKind::Static,
            TokenKind::Public => SpecTokenKind::Public,
            TokenKind::Private => SpecTokenKind::Private,
            TokenKind::Final => SpecTokenKind::Final,
            TokenKind::Int => SpecTokenKind::Int,
            TokenKind::Float => SpecTokenKind::Float,
            TokenKind::Bool => SpecTokenKind::Bool,
            TokenKind::StringType => SpecTokenKind::StringType,
            TokenKind::Plus => SpecTokenKind::Plus,
            TokenKind::Minus => SpecTokenKind::Minus,
            TokenKind::Star => SpecTokenKind::Star,
            TokenKind::Slash => SpecTokenKind::Slash,
            TokenKind::Percent => SpecTokenKind::Percent,
            TokenKind::Eq => SpecTokenKind::Eq,
            TokenKind::EqEq => SpecTokenKind::EqEq,
            TokenKind::NotEq => SpecTokenKind::NotEq,
            TokenKind::Lt => SpecTokenKind::Lt,
            TokenKind::LtEq => SpecTokenKind::LtEq,
            TokenKind::Gt => SpecTokenKind::Gt,
            TokenKind::GtEq => SpecTokenKind::GtEq,
            TokenKind::And => SpecTokenKind::And,
            TokenKind::Or => SpecTokenKind::Or,
            TokenKind::Not => SpecTokenKind::Not,
            TokenKind::Dot => SpecTokenKind::Dot,
            TokenKind::Comma => SpecTokenKind::Comma,
            TokenKind::Semicolon => SpecTokenKind::Semicolon,
            TokenKind::Colon => SpecTokenKind::Colon,
            TokenKind::LParen => SpecTokenKind::LParen,
            TokenKind::RParen => SpecTokenKind::RParen,
            TokenKind::LBrace => SpecTokenKind::LBrace,
            TokenKind::RBrace => SpecTokenKind::RBrace,
            TokenKind::LBracket => SpecTokenKind::LBracket,
            TokenKind::RBracket => SpecTokenKind::RBracket,
            TokenKind::Eof => SpecTokenKind::Eof,
        }
    }
}

impl View for Token {
    type V = SpecToken;

    open spec fn view(&self) -> SpecToken {
        SpecToken { kind: self.kind@, line: self.line as nat, col: self.col as nat }
    }
}

/// The model of a vector of tokens.
pub open spec fn tokens_view(ts: Seq<Token>) -> Seq<SpecToken> {
    ts.map_values(|t: Token| t@)
}

/// The model of an optional token kind.
pub open spec fn opt_kind_view(k: Option<TokenKind>) -> Option<SpecTokenKind> {
    match k {
        Some(k) => Some(k@),
        None => None,
    }
}

impl TokenKind {
    /// Whether two token kinds are the same kind with the same payload.
    pub fn same(&self, other: &TokenKind) -> (r: bool)
        ensures
            r == (self@ == other@),
    {
        match (self, other) {
            (TokenKind::IntLiteral(a), TokenKind::IntLiteral(b)) => *a == *b,
            (TokenKind::FloatLiteral(a), TokenKind::FloatLiteral(b)) => a.eq(b),
            (TokenKind::StringLiteral(a), TokenKind::StringLiteral(b)) => a.eq(b),
            (TokenKind::BoolLiteral(a), TokenKind::BoolLiteral(b)) => *a == *b,
            (TokenKind::Ident(a), TokenKind::Ident(b)) => a.eq(b),
            (TokenKind::Class, TokenKind::Class) => true,
            (TokenKind::Void, TokenKind::Void) => true,
            (TokenKind::Return, TokenKind::Return) => true,
            (TokenKind::If, TokenKind::If) => true,
            (TokenKind::Else, TokenKind::Else) => true,
            (TokenKind::While, TokenKind::While) => true,
            (TokenKind::For, TokenKind::For) => true,
            (TokenKind::New, TokenKind::New) => true,
            (TokenKind::Static, TokenKind::Static) => true,
            (TokenKind::Public, TokenKind::Public) => true,
            (TokenKind::Private, TokenKind::Private) => true,
            (TokenKind::Final, TokenKind::Final) => true,
            (TokenKind::Int, TokenKind::Int) => true,
            (TokenKind::Float, TokenKind::Float) => true,
            (TokenKind::Bool, TokenKind::Bool) => true,
            (TokenKind::StringType, TokenKind::StringType) => true,
            (TokenKind::Plus, TokenKind::Plus) => true,
            (TokenKind::Minus, TokenKind::Minus) => true,
            (TokenKind::Star, TokenKind::Star) => true,
            (TokenKind::Slash, TokenKind::Slash) => true,
            (TokenKind::Percent, TokenKind::Percent) => true,
            (TokenKind::Eq, TokenKind::Eq) => true,
            (TokenKind::EqEq, TokenKind::EqEq) => true,
            (TokenKind::NotEq, TokenKind::NotEq) => true,
            (TokenKind::Lt, TokenKind::Lt) => true,
            (TokenKind::LtEq, TokenKind::LtEq) => true,
            (TokenKind::Gt, TokenKind::Gt) => true,
            (TokenKind::GtEq, TokenKind::GtEq) => true,
            (TokenKind::And, TokenKind::And) => true,
            (TokenKind::Or, TokenKind::Or) => true,
            (TokenKind::Not, TokenKind::Not) => true,
            (TokenKind::Dot, TokenKind::Dot) => true,
            (TokenKind::Comma, TokenKind::Comma) => true,
            (TokenKind::Semicolon, TokenKind::Semicolon) => true,
            (TokenKind::Colon, TokenKind::Colon) => true,
            (TokenKind::LParen, TokenKind::LParen) => true,
            (TokenKind::RParen, TokenKind::RParen) => true,
            (TokenKind::LBrace, TokenKind::LBrace) => true,
            (TokenKind::RBrace, TokenKind::RBrace) => true,
            (TokenKind::LBracket, TokenKind::LBracket) => true,
            (TokenKind::RBracket, TokenKind::RBracket) => true,
            (TokenKind::Eof, TokenKind::Eof) => true,
            _ => false,
        }
    }
}

impl Clone for TokenKind {
    fn clone(&self) -> (r: Self)
        ensures
            r@ == self@,
    {
        match self {
            TokenKind::IntLiteral(x) => TokenKind::IntLiteral(*x),
            TokenKind::FloatLiteral(x) => TokenKind::FloatLiteral(x.clone()),
            TokenKind::StringLiteral(x) => TokenKind::StringLiteral(x.clone()),
            TokenKind::BoolLiteral(x) => TokenKind::BoolLiteral(*x),
            TokenKind::Ident(x) => TokenKind::Ident(x.clone()),
            TokenKind::Class => TokenKind::Class,
            TokenKind::Void => TokenKind::Void,
            TokenKind::Return => TokenKind::Return,
            TokenKind::If => TokenKind::If,
            TokenKind::Else => TokenKind::Else,
            TokenKind::While => TokenKind::While,
            TokenKind::For => TokenKind::For,
            TokenKind::New => TokenKind::New,
            TokenKind::Static => TokenKind::Static,
            TokenKind::Public => TokenKind::Public,
            TokenKind::Private => TokenKind::Private,
            TokenKind::Final => TokenKind::Final,
            TokenKind::Int => TokenKind::Int,
            TokenKind::Float => TokenKind::Float,
            TokenKind::Bool => TokenKind::Bool,
            TokenKind::StringType => TokenKind::StringType,
            TokenKind::Plus => TokenKind::Plus,
            TokenKind::Minus => TokenKind::Minus,
            TokenKind::Star => TokenKind::Star,
            TokenKind::Slash => TokenKind::Slash,
            TokenKind::Percent => TokenKind::Percent,
            TokenKind::Eq => TokenKind::Eq,
            TokenKind::EqEq => TokenKind::EqEq,
            TokenKind::NotEq => TokenKind::NotEq,
            TokenKind::Lt => TokenKind::Lt,
            TokenKind::LtEq => TokenKind::LtEq,
            TokenKind::Gt => TokenKind::Gt,
            TokenKind::GtEq => TokenKind::GtEq,
            TokenKind::And => TokenKind::And,
            TokenKind::Or => TokenKind::Or,
            TokenKind::Not => TokenKind::Not,
            TokenKind::Dot => TokenKind::Dot,
            TokenKind::Comma => TokenKind::Comma,
            TokenKind::Semicolon => TokenKind::Semicolon,
            TokenKind::Colon => TokenKind::Colon,
            TokenKind::LParen => TokenKind::LParen,
            TokenKind::RParen => TokenKind::RParen,
            TokenKind::LBrace => TokenKind::LBrace,
            TokenKind::RBrace => TokenKind::RBrace,
            TokenKind::LBracket => TokenKind::LBracket,
            TokenKind::RBracket => TokenKind::RBracket,
            TokenKind::Eof => TokenKind::Eof,
        }
    }
}

impl Clone for Token {
    fn clone(&self) -> (r: Self)
        ensures
            r@ == self@,
    {
        Token { kind: self.kind.clone(), line: self.line, col: self.col }
    }
}

impl PartialEq for TokenKind {
    fn eq(&self, other: &Self) -> (r: bool) {
        self.same(other)
    }
}

impl vstd::std_specs::cmp::PartialEqSpecImpl for TokenKind {
    open spec fn obeys_eq_spec() -> bool {
        true
    }

    open spec fn eq_spec(&self, other: &TokenKind) -> bool {
        self@ == other@
    }
}

impl PartialEq for Token {
    fn eq(&self, other: &Self) -> (r: bool) {
        self.kind.same(&other.kind) && self.line == other.line && self.col == other.col
    }
}

impl vstd::std_specs::cmp::PartialEqSpecImpl for Token {
    open spec fn obeys_eq_spec() -> bool {
        true
    }

    open spec fn eq_spec(&self, other: &Token) -> bool {
        self@ == other@
    }
}


/// Errors reported by the lexer.
#[derive(Debug, Clone, Copy, PartialEq, Eq, Structural)]
pub enum LexError {
    /// A character that starts no token, with its position.
    UnexpectedChar { ch: char, line: usize, col: usize },
    /// A string literal that reaches the end of its line before its closing quote.
    UnterminatedString { line: usize },
    /// An integer literal whose value does not fit in `i64`.
    IntegerTooLarge,
}

/// The mathematical model of a lexer error.
pub enum SpecLexError {
    UnexpectedChar { ch: char, line: nat, col: nat },
    UnterminatedString { line: nat },
    IntegerTooLarge,
}

impl View for LexError {
    type V = SpecLexError;

    open spec fn view(&self) -> SpecLexError {
        match *self {
            LexError::UnexpectedChar { ch, line, col } => SpecLexError::UnexpectedChar {
                ch,
                line: line as nat,
                col: col as nat,
            },
            LexError::UnterminatedString { line } => SpecLexError::UnterminatedString {
                line: line as nat,
            },
            LexError::IntegerTooLarge => SpecLexError::IntegerTooLarge,
        }
    }
}

// ---------------------------------------------------------------------------
// The lexical grammar
// ---------------------------------------------------------------------------

/// ASCII decimal digits.
pub open spec fn is_digit(c: char) -> bool {
    '0' <= c && c <= '9'
}

/// Characters that may begin an identifier or keyword.
pub open spec fn starts_word(c: char) -> bool {
    is_alphabetic(c) || c == '_'
}

/// Characters that may continue an identifier or keyword.
pub open spec fn continues_word(c: char) -> bool {
    is_alphanumeric(c) || c == '_'
}

/// The end of the run of digits that starts at `i`.
pub open spec fn digits_end(cs: Seq<char>, i: nat) -> nat
    decreases cs.len() - i,
{
    if i < cs.len() && is_digit(cs[i as int]) {
        digits_end(cs, i + 1)
    } else {
        i
    }
}

/// The end of the run of word characters that starts at `i`. A word is its
/// first character followed by the run that starts just after it.
pub open spec fn word_end(cs: Seq<char>, i: nat) -> nat
    decreases cs.len() - i,
{
    if i < cs.len() && continues_word(cs[i as int]) {
        word_end(cs, i + 1)
    } else {
        i
    }
}

/// The position of the first line break at or after `i` (or the end of the text).
pub open spec fn line_end(cs: Seq<char>, i: nat) -> nat
    decreases cs.len() - i,
{
    if i < cs.len() && cs[i as int] != '\n' {
        line_end(cs, i + 1)
    } else {
        i
    }
}

/// The position of the first quote or line break at or after `i` (or the end of the text).
pub open spec fn string_end(cs: Seq<char>, i: nat) -> nat
    decreases cs.len() - i,
{
    if i < cs.len() && cs[i as int] != '"' && cs[i as int] != '\n' {
        string_end(cs, i + 1)
    } else {
        i
    }
}

/// Where a block comment whose body starts at `i` ends: the position, line and
/// column just after its closing `*/`. A comment left open stops one character
/// before the end of the text.
pub open spec fn block_comment_end(cs: Seq<char>, i: nat, line: nat, col: nat) -> (nat, nat, nat)
    decreases cs.len() - i,
{
    if i + 1 < cs.len() {
        if cs[i as int] == '*' && cs[i + 1int] == '/' {
            (i + 2, line, col + 2)
        } else if cs[i as int] == '\n' {
            block_comment_end(cs, i + 1, line + 1, 1)
        } else {
            block_comment_end(cs, i + 1, line, col + 1)
        }
    } else {
        (i, line, col)
    }
}

/// The value of a decimal digit.
pub open spec fn digit_value(c: char) -> int {
    (c as int) - ('0' as int)
}

/// The value of a sequence of decimal digits, most significant first.
pub open spec fn decimal_value(ds: Seq<char>) -> int
    decreases ds.len(),
{
    if ds.len() == 0 {
        0
    } else {
        decimal_value(ds.drop_last()) * 10 + digit_value(ds.last())
    }
}

/// The token kind of a word: a keyword, a boolean literal or an identifier.
pub open spec fn word_kind(w: Seq<char>) -> SpecTokenKind {
    if w == "class"@ {
        SpecTokenKind::Class
    } else if w == "void"@ {
        SpecTokenKind::Void
    } else if w == "return"@ {
        SpecTokenKind::Return
    } else if w == "if"@ {
        SpecTokenKind::If
    } else if w == "else"@ {
        SpecTokenKind::Else
    } else if w == "while"@ {
        SpecTokenKind::While
    } else if w == "for"@ {
        SpecTokenKind::For
    } else if w == "new"@ {
        SpecTokenKind::New
    } else if w == "static"@ {
        SpecTokenKind::Static
    } else if w == "public"@ {
        SpecTokenKind::Public
    } else if w == "private"@ {
        SpecTokenKind::Private
    } else if w == "final"@ {
        SpecTokenKind::Final
    } else if w == "int"@ {
        SpecTokenKind::Int
    } else if w == "float"@ {
        SpecTokenKind::Float
    } else if w == "boolean"@ {
        SpecTokenKind::Bool
    } else if w == "String"@ {
        SpecTokenKind::StringType
    } else if w == "true"@ {
        SpecTokenKind::BoolLiteral(true)
    } else if w == "false"@ {
        SpecTokenKind::BoolLiteral(false)
    } else {
        SpecTokenKind::Ident(w)
    }
}

/// Operators written with two characters.
pub open spec fn two_char_kind(a: char, b: char) -> Option<SpecTokenKind> {
    if a == '=' && b == '=' {
        Some(SpecTokenKind::EqEq)
    } else if a == '!' && b == '=' {
        Some(SpecTokenKind::NotEq)
    } else if a == '<' && b == '=' {
        Some(SpecTokenKind::LtEq)
    } else if a == '>' && b == '=' {
        Some(SpecTokenKind::GtEq)
    } else if a == '&' && b == '&' {
        Some(SpecTokenKind::And)
    } else if a == '|' && b == '|' {
        Some(SpecTokenKind::Or)
    } else {
        None
    }
}

/// Operators and brackets written with one character.
pub open spec fn one_char_kind(c: char) -> Option<SpecTokenKind> {
    if c == '+' {
        Some(SpecTokenKind::Plus)
    } else if c == '-' {
        Some(SpecTokenKind::Minus)
    } else if c == '*' {
        Some(SpecTokenKind::Star)
    } else if c == '/' {
        Some(SpecTokenKind::Slash)
    } else if c == '%' {
        Some(SpecTokenKind::Percent)
    } else if c == '=' {
        Some(SpecTokenKind::Eq)
    } else if c == '<' {
        Some(SpecTokenKind::Lt)
    } else if c == '>' {
        Some(SpecTokenKind::Gt)
    } else if c == '!' {
        Some(SpecTokenKind::Not)
    } else if c == '.' {
        Some(SpecTokenKind::Dot)
    } else if c == ',' {
        Some(SpecTokenKind::Comma)
    } else if c == ';' {
        Some(SpecTokenKind::Semicolon)
    } else if c == ':' {
        Some(SpecTokenKind::Colon)
    } else if c == '(' {
        Some(SpecTokenKind::LParen)
    } else if c == ')' {
        Some(SpecTokenKind::RParen)
    } else if c == '{' {
        Some(SpecTokenKind::LBrace)
    } else if c == '}' {
        Some(SpecTokenKind::RBrace)
    } else if c == '[' {
        Some(SpecTokenKind::LBracket)
    } else if c == ']' {
        Some(SpecTokenKind::RBracket)
    } else {
        None
    }
}

/// `rest` with the tokens `pre` in front of it (errors are kept as they are).
pub open spec fn after(pre: Seq<SpecToken>, rest: Result<Seq<SpecToken>, SpecLexError>) -> Result<
    Seq<SpecToken>,
    SpecLexError,
> {
    match rest {
        Ok(ts) => Ok(pre + ts),
        Err(e) => Err(e),
    }
}

/// The token, if any, as a sequence of zero or one tokens.
pub open spec fn opt_seq(t: Option<SpecToken>) -> Seq<SpecToken> {
    match t {
        Some(t) => seq![t],
        None => seq![],
    }
}

/// One step of the lexer at position `i` of `cs` (a character of it), which is
/// on line `line` at column `col`: skips a line break, a space or a comment, or
/// reads one token. Gives the token read, if any, and the position, line and
/// column after it.
pub open spec fn lex_step(cs: Seq<char>, i: nat, line: nat, col: nat) -> Result<
    (Option<SpecToken>, nat, nat, nat),
    SpecLexError,
> {
    let c = cs[i as int];
    if c == '\n' {
        Ok((None, i + 1, line + 1, 1))
    } else if is_white_space(c) {
        Ok((None, i + 1, line, col + 1))
    } else if c == '/' && i + 1 < cs.len() && cs[i + 1int] == '/' {
        Ok((None, line_end(cs, i + 2), line, col))
    } else if c == '/' && i + 1 < cs.len() && cs[i + 1int] == '*' {
        let (j, l, k) = block_comment_end(cs, i + 2, line, col + 2);
        Ok((None, j, l, k))
    } else if is_digit(c) {
        let j = digits_end(cs, i);
        if j < cs.len() && cs[j as int] == '.' {
            let k = digits_end(cs, j + 1);
            let kind = SpecTokenKind::FloatLiteral(cs.subrange(i as int, k as int));
            Ok((Some(SpecToken { kind, line, col }), k, line, (col + k - i) as nat))
        } else {
            let v = decimal_value(cs.subrange(i as int, j as int));
            if v > i64::MAX {
                Err(SpecLexError::IntegerTooLarge)
            } else {
                let kind = SpecTokenKind::IntLiteral(v as i64);
                Ok((Some(SpecToken { kind, line, col }), j, line, (col + j - i) as nat))
            }
        }
    } else if c == '"' {
        let j = string_end(cs, i + 1);
        if j < cs.len() && cs[j as int] == '\n' {
            Err(SpecLexError::UnterminatedString { line })
        } else {
            let kind = SpecTokenKind::StringLiteral(cs.subrange(i + 1int, j as int));
            Ok((Some(SpecToken { kind, line, col }), j + 1, line, (col + j - i + 1) as nat))
        }
    } else if starts_word(c) {
        let j = word_end(cs, i + 1);
        let kind = word_kind(cs.subrange(i as int, j as int));
        Ok((Some(SpecToken { kind, line, col }), j, line, (col + j - i) as nat))
    } else if i + 1 < cs.len() && two_char_kind(c, cs[i + 1int]) is Some {
        let kind = two_char_kind(c, cs[i + 1int])->0;
        Ok((Some(SpecToken { kind, line, col }), i + 2, line, col + 2))
    } else {
        match one_char_kind(c) {
            Some(kind) => Ok((Some(SpecToken { kind, line, col }), i + 1, line, col + 1)),
            None => Err(SpecLexError::UnexpectedChar { ch: c, line, col }),
        }
    }
}

/// A step of the lexer moves forward, at most one position past the end.
pub proof fn lemma_lex_step_progress(cs: Seq<char>, i: nat, line: nat, col: nat)
    requires
        i < cs.len(),
    ensures
        lex_step(cs, i, line, col) matches Ok((_, i2, _, _)) ==> i < i2 <= cs.len() + 1,
{
    let c = cs[i as int];
    if i + 1 < cs.len() {
        lemma_line_end(cs, i + 2);
        lemma_block_comment_end(cs, i + 2, line, col + 2);
    }
    lemma_digits_end(cs, i);
    if digits_end(cs, i) < cs.len() {
        lemma_digits_end(cs, digits_end(cs, i) + 1);
    }
    lemma_string_end(cs, i + 1);
    lemma_word_end(cs, i + 1);
}

/// The tokens of `cs` from position `i` on, when that position is on line
/// `line` at column `col`: the steps of the lexer, until the end of the text,
/// followed by `Eof`.
pub open spec fn lex_from(cs: Seq<char>, i: nat, line: nat, col: nat) -> Result<
    Seq<SpecToken>,
    SpecLexError,
>
    decreases cs.len() + 1 - i,
{
    if i >= cs.len() {
        Ok(seq![SpecToken { kind: SpecTokenKind::Eof, line, col }])
    } else {
        proof {
            lemma_lex_step_progress(cs, i, line, col);
        }
        match lex_step(cs, i, line, col) {
            Ok((t, i2, l2, c2)) => after(opt_seq(t), lex_from(cs, i2, l2, c2)),
            Err(e) => Err(e),
        }
    }
}

/// The tokens of a whole text, which starts on line 1 at column 1.
pub open spec fn lex(cs: Seq<char>) -> Result<Seq<SpecToken>, SpecLexError> {
    lex_from(cs, 0, 1, 1)
}

// ---------------------------------------------------------------------------
// Facts about the scanning functions
// ---------------------------------------------------------------------------

pub proof fn lemma_digits_end(cs: Seq<char>, i: nat)
    requires
        i <= cs.len(),
    ensures
        i <= digits_end(cs, i) <= cs.len(),
        i < cs.len() && is_digit(cs[i as int]) ==> i < digits_end(cs, i),
        forall|k: int| i <= k < digits_end(cs, i) ==> is_digit(#[trigger] cs[k]),
        digits_end(cs, i) < cs.len() ==> !is_digit(cs[digits_end(cs, i) as int]),
    decreases cs.len() - i,
{
    if i < cs.len() && is_digit(cs[i as int]) {
        lemma_digits_end(cs, i + 1);
    }
}

pub proof fn lemma_word_end(cs: Seq<char>, i: nat)
    requires
        i <= cs.len(),
    ensures
        i <= word_end(cs, i) <= cs.len(),
        i < cs.len() && continues_word(cs[i as int]) ==> i < word_end(cs, i),
        forall|k: int| i <= k < word_end(cs, i) ==> continues_word(#[trigger] cs[k]),
        word_end(cs, i) < cs.len() ==> !continues_word(cs[word_end(cs, i) as int]),
    decreases cs.len() - i,
{
    if i < cs.len() && continues_word(cs[i as int]) {
        lemma_word_end(cs, i + 1);
    }
}

pub proof fn lemma_line_end(cs: Seq<char>, i: nat)
    requires
        i <= cs.len(),
    ensures
        i <= line_end(cs, i) <= cs.len(),
    decreases cs.len() - i,
{
    if i < cs.len() && cs[i as int] != '\n' {
        lemma_line_end(cs, i + 1);
    }
}

pub proof fn lemma_string_end(cs: Seq<char>, i: nat)
    requires
        i <= cs.len(),
    ensures
        i <= string_end(cs, i) <= cs.len(),
        forall|k: int| i <= k < string_end(cs, i) ==> #[trigger] cs[k] != '"' && cs[k] != '\n',
    decreases cs.len() - i,
{
    if i < cs.len() && cs[i as int] != '"' && cs[i as int] != '\n' {
        lemma_string_end(cs, i + 1);
    }
}

pub proof fn lemma_block_comment_end(cs: Seq<char>, i: nat, line: nat, col: nat)
    requires
        i <= cs.len(),
    ensures
        ({
            let (j, l, k) = block_comment_end(cs, i, line, col);
            &&& i <= j <= cs.len()
            &&& line <= l
            &&& l <= line + (j - i)
            &&& (col <= i + 1 ==> k <= j + 1)
            &&& (col >= 1 ==> k >= 1)
            &&& (l == line ==> k >= col)
        }),
    decreases cs.len() - i,
{
    if i + 1 < cs.len() {
        if cs[i as int] == '*' && cs[i + 1int] == '/' {
        } else if cs[i as int] == '\n' {
            lemma_block_comment_end(cs, i + 1, line + 1, 1);
        } else {
            lemma_block_comment_end(cs, i + 1, line, col + 1);
        }
    }
}


// ---------------------------------------------------------------------------
// The lexer
// ---------------------------------------------------------------------------

/// Whether `c` is an ASCII decimal digit.
fn is_ascii_digit(c: char) -> (r: bool)
    ensures
        r == is_digit(c),
{
    '0' <= c && c <= '9'
}

/// The end of the run of digits that starts at `i`.
fn scan_digits(cs: &Vec<char>, i: usize) -> (j: usize)
    requires
        i <= cs.len(),
    ensures
        j == digits_end(cs@, i as nat),
{
    let mut j = i;
    while j < cs.len() && is_ascii_digit(cs[j])
        invariant
            i <= j <= cs.len(),
            digits_end(cs@, i as nat) == digits_end(cs@, j as nat),
        decreases cs.len() - j,
    {
        j += 1;
    }
    j
}

/// The end of the word that starts at `i` (whose first character starts a word).
fn scan_word(cs: &Vec<char>, i: usize) -> (j: usize)
    requires
        i < cs.len(),
        starts_word(cs@[i as int]),
    ensures
        j == word_end(cs@, (i + 1) as nat),
        i < j,
{
    let mut j = i;
    while j < cs.len() && (char_is_alphanumeric(cs[j]) || cs[j] == '_')
        invariant
            i <= j <= cs.len(),
            starts_word(cs@[i as int]),
            j > i ==> word_end(cs@, (i + 1) as nat) == word_end(cs@, j as nat),
        decreases cs.len() - j,
    {
        j += 1;
    }
    j
}

/// The position of the first line break at or after `i` (or the end of the text).
fn scan_line(cs: &Vec<char>, i: usize) -> (j: usize)
    requires
        i <= cs.len(),
    ensures
        j == line_end(cs@, i as nat),
{
    let mut j = i;
    while j < cs.len() && cs[j] != '\n'
        invariant
            i <= j <= cs.len(),
            line_end(cs@, i as nat) == line_end(cs@, j as nat),
        decreases cs.len() - j,
    {
        j += 1;
    }
    j
}

pub proof fn lemma_decimal_value_nonneg(ds: Seq<char>)
    requires
        forall|k: int| 0 <= k < ds.len() ==> is_digit(#[trigger] ds[k]),
    ensures
        decimal_value(ds) >= 0,
    decreases ds.len(),
{
    if ds.len() > 0 {
        assert forall|k: int| 0 <= k < ds.drop_last().len() implies is_digit(
            #[trigger] ds.drop_last()[k],
        ) by {
            assert(ds.drop_last()[k] == ds[k]);
        }
        lemma_decimal_value_nonneg(ds.drop_last());
    }
}

/// A prefix of a digit sequence has a value no larger than the whole.
pub proof fn lemma_decimal_value_prefix(ds: Seq<char>, k: int)
    requires
        0 <= k <= ds.len(),
        forall|m: int| 0 <= m < ds.len() ==> is_digit(#[trigger] ds[m]),
    ensures
        decimal_value(ds.take(k)) <= decimal_value(ds),
    decreases ds.len(),
{
    if k < ds.len() {
        let d = ds.drop_last();
        assert forall|m: int| 0 <= m < d.len() implies is_digit(#[trigger] d[m]) by {
            assert(d[m] == ds[m]);
        }
        lemma_decimal_value_prefix(d, k);
        assert(d.take(k) =~= ds.take(k));
        lemma_decimal_value_nonneg(d);
    } else {
        assert(ds.take(k) =~= ds);
    }
}

/// The value of the digits `cs[start..end]`, or `None` when it exceeds `i64::MAX`.
fn decimal_of(cs: &Vec<char>, start: usize, end: usize) -> (r: Option<i64>)
    requires
        start <= end <= cs.len(),
        forall|k: int| start <= k < end ==> is_digit(#[trigger] cs@[k]),
    ensures
        ({
            let v = decimal_value(cs@.subrange(start as int, end as int));
            &&& v >= 0
            &&& (v <= i64::MAX ==> r == Some(v as i64))
            &&& (v > i64::MAX ==> r is None)
        }),
{
    let ghost ds = cs@.subrange(start as int, end as int);
    proof {
        lemma_decimal_value_nonneg(ds);
    }
    let mut v: i64 = 0;
    let mut k = start;
    while k < end
        invariant
            start <= k <= end <= cs.len(),
            ds == cs@.subrange(start as int, end as int),
            forall|m: int| start <= m < end ==> is_digit(#[trigger] cs@[m]),
            v as int == decimal_value(ds.take(k - start)),
            v >= 0,
        decreases end - k,
    {
        let c = cs[k];
        let d = (c as u32 - '0' as u32) as i64;
        proof {
            assert(ds.take(k + 1 - start).drop_last() =~= ds.take(k - start));
            assert(ds.take(k + 1 - start).last() == c);
        }
        match v.checked_mul(10) {
            Some(t) => match t.checked_add(d) {
                Some(w) => {
                    v = w;
                },
                None => {
                    proof {
                        lemma_decimal_value_prefix(ds, k + 1 - start);
                    }
                    return None;
                },
            },
            None => {
                proof {
                    lemma_decimal_value_prefix(ds, k + 1 - start);
                    lemma_decimal_value_nonneg(ds.take(k + 1 - start));
                }
                return None;
            },
        }
        k += 1;
    }
    assert(ds.take(end - start) =~= ds);
    Some(v)
}

/// The keyword, boolean literal or identifier that a word stands for.
fn word_token(w: String) -> (k: TokenKind)
    ensures
        k@ == word_kind(w@),
{
    if text_is(&w, "class") {
        TokenKind::Class
    } else if text_is(&w, "void") {
        TokenKind::Void
    } else if text_is(&w, "return") {
        TokenKind::Return
    } else if text_is(&w, "if") {
        TokenKind::If
    } else if text_is(&w, "else") {
        TokenKind::Else
    } else if text_is(&w, "while") {
        TokenKind::While
    } else if text_is(&w, "for") {
        TokenKind::For
    } else if text_is(&w, "new") {
        TokenKind::New
    } else if text_is(&w, "static") {
        TokenKind::Static
    } else if text_is(&w, "public") {
        TokenKind::Public
    } else if text_is(&w, "private") {
        TokenKind::Private
    } else if text_is(&w, "final") {
        TokenKind::Final
    } else if text_is(&w, "int") {
        TokenKind::Int
    } else if text_is(&w, "float") {
        TokenKind::Float
    } else if text_is(&w, "boolean") {
        TokenKind::Bool
    } else if text_is(&w, "String") {
        TokenKind::StringType
    } else if text_is(&w, "true") {
        TokenKind::BoolLiteral(true)
    } else if text_is(&w, "false") {
        TokenKind::BoolLiteral(false)
    } else {
        TokenKind::Ident(w)
    }
}

/// The operator written with the two characters `a` and `b`, if any.
fn two_char_token(a: char, b: char) -> (r: Option<TokenKind>)
    ensures
        opt_kind_view(r) == two_char_kind(a, b),
{
    match (a, b) {
        ('=', '=') => Some(TokenKind::EqEq),
        ('!', '=') => Some(TokenKind::NotEq),
        ('<', '=') => Some(TokenKind::LtEq),
        ('>', '=') => Some(TokenKind::GtEq),
        ('&', '&') => Some(TokenKind::And),
        ('|', '|') => Some(TokenKind::Or),
        _ => None,
    }
}

/// The operator or bracket written with the character `c`, if any.
fn one_char_token(c: char) -> (r: Option<TokenKind>)
    ensures
        opt_kind_view(r) == one_char_kind(c),
{
    match c {
        '+' => Some(TokenKind::Plus),
        '-' => Some(TokenKind::Minus),
        '*' => Some(TokenKind::Star),
        '/' => Some(TokenKind::Slash),
        '%' => Some(TokenKind::Percent),
        '=' => Some(TokenKind::Eq),
        '<' => Some(TokenKind::Lt),
        '>' => Some(TokenKind::Gt),
        '!' => Some(TokenKind::Not),
        '.' => Some(TokenKind::Dot),
        ',' => Some(TokenKind::Comma),
        ';' => Some(TokenKind::Semicolon),
        ':' => Some(TokenKind::Colon),
        '(' => Some(TokenKind::LParen),
        ')' => Some(TokenKind::RParen),
        '{' => Some(TokenKind::LBrace),
        '}' => Some(TokenKind::RBrace),
        '[' => Some(TokenKind::LBracket),
        ']' => Some(TokenKind::RBracket),
        _ => None,
    }
}

/// Where the block comment whose body starts at `i` (on line `line`, at column
/// `col`) ends: see `block_comment_end`.
fn skip_block_comment(cs: &Vec<char>, i: usize, line: usize, col: usize) -> (r: (usize, usize, usize))
    requires
        i <= cs.len(),
        1 <= line <= i,
        1 <= col <= i + 1,
        cs.len() + 4 <= usize::MAX,
    ensures
        (r.0 as nat, r.1 as nat, r.2 as nat) == block_comment_end(cs@, i as nat, line as nat, col as nat),
        i <= r.0 <= cs.len(),
        1 <= r.1 <= r.0 + 1,
        1 <= r.2 <= r.0 + 1,
{
    let n = cs.len();
    let ghost target = block_comment_end(cs@, i as nat, line as nat, col as nat);
    proof {
        lemma_block_comment_end(cs@, i as nat, line as nat, col as nat);
    }
    let mut j = i;
    let mut l = line;
    let mut k = col;
    while j + 1 < n
        invariant_except_break
            i <= j <= n,
            n == cs.len(),
            n + 4 <= usize::MAX,
            1 <= l <= j,
            1 <= k <= j + 1,
            block_comment_end(cs@, j as nat, l as nat, k as nat) == target,
        ensures
            i <= j <= n,
            1 <= l <= j + 1,
            1 <= k <= j + 1,
            (j as nat, l as nat, k as nat) == target,
        decreases n - j,
    {
        if cs[j] == '*' && cs[j + 1] == '/' {
            j += 2;
            k += 2;
            break;
        }
        if cs[j] == '\n' {
            l += 1;
            k = 1;
        } else {
            k += 1;
        }
        j += 1;
    }
    (j, l, k)
}

/// The position of the first quote or line break at or after `i` (or the end of the text).
fn scan_string(cs: &Vec<char>, i: usize) -> (j: usize)
    requires
        i <= cs.len(),
    ensures
        j == string_end(cs@, i as nat),
        i <= j <= cs.len(),
{
    let mut j = i;
    while j < cs.len() && cs[j] != '"' && cs[j] != '\n'
        invariant
            i <= j <= cs.len(),
            string_end(cs@, i as nat) == string_end(cs@, j as nat),
        decreases cs.len() - j,
    {
        j += 1;
    }
    j
}

/// The model of an optional token.
pub open spec fn opt_token_view(t: Option<Token>) -> Option<SpecToken> {
    match t {
        Some(t) => Some(t@),
        None => None,
    }
}

/// The lexer's position in the text: index, line and column.
pub open spec fn lex_state_ok(n: nat, i: nat, line: nat, col: nat) -> bool {
    &&& i <= n + 1
    &&& 1 <= line <= i + 1
    &&& 1 <= col <= i + 1
    &&& n + 4 <= usize::MAX
}

/// One step of the lexer at position `i`: skips a line break, a space or a
/// comment, or reads one token. Returns the token read, if any, and the new
/// position, line and column.
fn next_token(cs: &Vec<char>, i: usize, line: usize, col: usize) -> (r: Result<
    (Option<Token>, usize, usize, usize),
    LexError,
>)
    requires
        i < cs.len(),
        lex_state_ok(cs.len() as nat, i as nat, line as nat, col as nat),
    ensures
        lex_step(cs@, i as nat, line as nat, col as nat) == match r {
            Ok((t, i2, l2, c2)) => Ok((opt_token_view(t), i2 as nat, l2 as nat, c2 as nat)),
            Err(e) => Err(e@),
        },
        r matches Ok((_, i2, l2, c2)) ==> i < i2 && lex_state_ok(
            cs.len() as nat,
            i2 as nat,
            l2 as nat,
            c2 as nat,
        ),
{
    let n = cs.len();
    let ghost s = cs@;
    let c = cs[i];
    // line breaks and spaces
    if c == '\n' {
        return Ok((None, i + 1, line + 1, 1));
    }
    if char_is_white_space(c) {
        return Ok((None, i + 1, line, col + 1));
    }
    // line comment
    if c == '/' && i + 1 < n && cs[i + 1] == '/' {
        let j = scan_line(cs, i);
        proof {
            assert(line_end(s, i as nat) == line_end(s, (i + 1) as nat));
            assert(line_end(s, (i + 1) as nat) == line_end(s, (i + 2) as nat));
            lemma_line_end(s, (i + 2) as nat);
        }
        return Ok((None, j, line, col));
    }
    // block comment
    if c == '/' && i + 1 < n && cs[i + 1] == '*' {
        let (j, l, k) = skip_block_comment(cs, i + 2, line, col + 2);
        return Ok((None, j, l, k));
    }
    // numbers
    if is_ascii_digit(c) {
        let j = scan_digits(cs, i);
        proof {
            lemma_digits_end(s, i as nat);
        }
        if j < n && cs[j] == '.' {
            let k = scan_digits(cs, j + 1);
            proof {
                lemma_digits_end(s, (j + 1) as nat);
            }
            let text = string_from_chars(&cs.as_slice()[i..k]);
            let tok = Token { kind: TokenKind::FloatLiteral(text), line, col };
            return Ok((Some(tok), k, line, col + (k - i)));
        }
        match decimal_of(cs, i, j) {
            Some(v) => {
                let tok = Token { kind: TokenKind::IntLiteral(v), line, col };
                return Ok((Some(tok), j, line, col + (j - i)));
            },
            None => {
                return Err(LexError::IntegerTooLarge);
            },
        }
    }
    // string literals
    if c == '"' {
        let j = scan_string(cs, i + 1);
        if j < n && cs[j] == '\n' {
            return Err(LexError::UnterminatedString { line });
        }
        let text = string_from_chars(&cs.as_slice()[i + 1..j]);
        let tok = Token { kind: TokenKind::StringLiteral(text), line, col };
        return Ok((Some(tok), j + 1, line, col + (j - i) + 1));
    }
    // identifiers and keywords
    if char_is_alphabetic(c) || c == '_' {
        let j = scan_word(cs, i);
        proof {
            lemma_word_end(s, (i + 1) as nat);
        }
        let w = string_from_chars(&cs.as_slice()[i..j]);
        let tok = Token { kind: word_token(w), line, col };
        return Ok((Some(tok), j, line, col + (j - i)));
    }
    // operators written with two characters
    if i + 1 < n {
        match two_char_token(c, cs[i + 1]) {
            Some(kind) => {
                let tok = Token { kind, line, col };
                return Ok((Some(tok), i + 2, line, col + 2));
            },
            None => {},
        }
    }
    // operators and brackets written with one character
    match one_char_token(c) {
        Some(kind) => {
            let tok = Token { kind, line, col };
            Ok((Some(tok), i + 1, line, col + 1))
        },
        None => Err(LexError::UnexpectedChar { ch: c, line, col }),
    }
}

proof fn lemma_after_nothing(r: Result<Seq<SpecToken>, SpecLexError>)
    ensures
        after(seq![], r) == r,
{
    match r {
        Ok(ts) => {
            assert(seq![] + ts =~= ts);
        },
        Err(_) => {},
    }
}

proof fn lemma_after_after(
    a: Seq<SpecToken>,
    b: Seq<SpecToken>,
    r: Result<Seq<SpecToken>, SpecLexError>,
)
    ensures
        after(a, after(b, r)) == after(a + b, r),
{
    match r {
        Ok(ts) => {
            assert(a + (b + ts) =~= (a + b) + ts);
        },
        Err(_) => {},
    }
}

/// Splits `source` into tokens. The result ends with an `Eof` token placed
/// just after the last character read; the first character that starts no
/// token, a string literal broken by a line end, or an integer literal too
/// large for `i64` is reported as an error instead.
pub fn tokenize(source: &str) -> (r: Result<Vec<Token>, LexError>)
    requires
        source@.len() + 4 <= usize::MAX,
    ensures
        match r {
            Ok(ts) => lex(source@) == Ok::<Seq<SpecToken>, SpecLexError>(tokens_view(ts@)),
            Err(e) => lex(source@) == Err::<Seq<SpecToken>, SpecLexError>(e@),
        },
{
    let cs = chars_of(source);
    let n = cs.len();
    let mut tokens: Vec<Token> = Vec::new();
    let mut i: usize = 0;
    let mut line: usize = 1;
    let mut col: usize = 1;
    proof {
        assert(tokens_view(tokens@) =~= seq![]);
        lemma_after_nothing(lex_from(cs@, 0, 1, 1));
    }
    while i < n
        invariant
            n == cs.len(),
            cs@ == source@,
            lex_state_ok(n as nat, i as nat, line as nat, col as nat),
            lex(cs@) == after(tokens_view(tokens@), lex_from(cs@, i as nat, line as nat, col as nat)),
        decreases n + 1 - i,
    {
        let (t, i2, l2, c2) = next_token(&cs, i, line, col)?;
        proof {
            lemma_after_after(tokens_view(tokens@), opt_seq(opt_token_view(t)), lex_from(cs@, i2 as nat, l2 as nat, c2 as nat));
        }
        let ghost prev = tokens@;
        match t {
            Some(tok) => {
                tokens.push(tok);
                assert(tokens_view(tokens@) =~= tokens_view(prev) + opt_seq(opt_token_view(t)));
            },
            None => {
                assert(tokens_view(tokens@) =~= tokens_view(prev) + opt_seq(opt_token_view(t)));
            },
        }
        i = i2;
        line = l2;
        col = c2;
    }
    let ghost before = tokens@;
    tokens.push(Token { kind: TokenKind::Eof, line, col });
    assert(tokens_view(tokens@) =~= tokens_view(before) + seq![SpecToken { kind: SpecTokenKind::Eof, line: line as nat, col: col as nat }]);
    Ok(tokens)
}

// ---------------------------------------------------------------------------
// Laws of the lexer
// ---------------------------------------------------------------------------

/// Position (`l1`, `c1`) comes strictly before (`l2`, `c2`): on an earlier
/// line, or on the same line at an earlier column.
pub open spec fn before(l1: nat, c1: nat, l2: nat, c2: nat) -> bool {
    l1 < l2 || (l1 == l2 && c1 < c2)
}

/// The tokens end with an `Eof` token, and only the last one is `Eof`.
pub open spec fn ends_with_one_eof(ts: Seq<SpecToken>) -> bool {
    &&& ts.len() > 0
    &&& ts.last().kind is Eof
    &&& forall|k: int| 0 <= k < ts.len() - 1 ==> !(#[trigger] ts[k].kind is Eof)
}

/// Each token starts strictly after the one before it.
pub open spec fn in_source_order(ts: Seq<SpecToken>) -> bool {
    forall|j: int, k: int|
        0 <= j < k < ts.len() ==> before(
            #[trigger] ts[j].line,
            ts[j].col,
            #[trigger] ts[k].line,
            ts[k].col,
        )
}

/// No token starts before (`line`, `col`).
pub open spec fn none_before(ts: Seq<SpecToken>, line: nat, col: nat) -> bool {
    forall|k: int| 0 <= k < ts.len() ==> !before(#[trigger] ts[k].line, ts[k].col, line, col)
}

/// The text of a float literal: digits, a point, digits, with at least one
/// digit before the point.
pub open spec fn is_float_text(s: Seq<char>) -> bool {
    exists|d: int|
        0 < d < s.len() && #[trigger] s[d] == '.' && forall|m: int|
            0 <= m < s.len() && m != d ==> is_digit(#[trigger] s[m])
}

/// The text of an identifier: a character that starts a word followed by
/// characters that continue one, and no keyword.
pub open spec fn is_ident_text(w: Seq<char>) -> bool {
    &&& w.len() > 0
    &&& starts_word(w[0])
    &&& forall|m: int| 1 <= m < w.len() ==> continues_word(#[trigger] w[m])
    &&& word_kind(w) == SpecTokenKind::Ident(w)
}

/// What the lexer guarantees of the payload of each token it reads.
pub open spec fn well_formed_kind(k: SpecTokenKind) -> bool {
    match k {
        SpecTokenKind::IntLiteral(v) => v >= 0,
        SpecTokenKind::FloatLiteral(s) => is_float_text(s),
        SpecTokenKind::StringLiteral(s) => forall|m: int|
            0 <= m < s.len() ==> #[trigger] s[m] != '"' && s[m] != '\n',
        SpecTokenKind::Ident(w) => is_ident_text(w),
        _ => true,
    }
}

/// What one step of the lexer guarantees: it does not move back in the
/// text, and a token it reads is well formed, is not `Eof`, starts where the
/// step starts, and ends before the position after the step.
proof fn lemma_lex_step_facts(cs: Seq<char>, i: nat, line: nat, col: nat)
    requires
        i < cs.len(),
    ensures
        lex_step(cs, i, line, col) matches Ok((t, i2, l2, c2)) ==> {
            &&& !before(l2, c2, line, col)
            &&& (t matches Some(tok) ==> {
                &&& tok.line == line
                &&& tok.col == col
                &&& before(line, col, l2, c2)
                &&& well_formed_kind(tok.kind)
                &&& !(tok.kind is Eof)
            })
        },
{
    let c = cs[i as int];
    if i + 1 < cs.len() {
        lemma_block_comment_end(cs, i + 2, line, col + 2);
    }
    if c == '\n' || is_white_space(c) || (c == '/' && i + 1 < cs.len() && (cs[i + 1int] == '/'
        || cs[i + 1int] == '*')) {
    } else if is_digit(c) {
        lemma_digits_end(cs, i);
        let j = digits_end(cs, i);
        if j < cs.len() && cs[j as int] == '.' {
            lemma_digits_end(cs, j + 1);
            let k = digits_end(cs, j + 1);
            let s = cs.subrange(i as int, k as int);
            let d = j - i;
            assert(s[d] == '.');
            assert forall|m: int| 0 <= m < s.len() && m != d implies is_digit(#[trigger] s[m]) by {
                assert(s[m] == cs[i + m]);
            }
            assert(is_float_text(s));
        } else {
            let ds = cs.subrange(i as int, j as int);
            assert forall|m: int| 0 <= m < ds.len() implies is_digit(#[trigger] ds[m]) by {
                assert(ds[m] == cs[i + m]);
            }
            lemma_decimal_value_nonneg(ds);
        }
    } else if c == '"' {
        lemma_string_end(cs, i + 1);
        let j = string_end(cs, i + 1);
        let s = cs.subrange(i + 1int, j as int);
        assert forall|m: int| 0 <= m < s.len() implies #[trigger] s[m] != '"' && s[m] != '\n' by {
            assert(s[m] == cs[i + 1 + m]);
        }
    } else if starts_word(c) {
        lemma_word_end(cs, i + 1);
        let j = word_end(cs, i + 1);
        let w = cs.subrange(i as int, j as int);
        assert(w[0] == c);
        assert forall|m: int| 1 <= m < w.len() implies continues_word(#[trigger] w[m]) by {
            assert(w[m] == cs[i + m]);
        }
    }
}

/// The three laws at once, from any position of the text on.
proof fn lemma_lex_from_laws(cs: Seq<char>, i: nat, line: nat, col: nat)
    ensures
        lex_from(cs, i, line, col) matches Ok(ts) ==> {
            &&& ends_with_one_eof(ts)
            &&& in_source_order(ts)
            &&& none_before(ts, line, col)
            &&& forall|k: int| 0 <= k < ts.len() ==> well_formed_kind(#[trigger] ts[k].kind)
        },
    decreases cs.len() + 1 - i,
{
    if i < cs.len() {
        lemma_lex_step_progress(cs, i, line, col);
        lemma_lex_step_facts(cs, i, line, col);
        if let Ok((t, i2, l2, c2)) = lex_step(cs, i, line, col) {
            lemma_lex_from_laws(cs, i2, l2, c2);
            if let Ok(rest) = lex_from(cs, i2, l2, c2) {
                let ts = opt_seq(t) + rest;
                assert(lex_from(cs, i, line, col) == Ok::<_, SpecLexError>(ts));
                match t {
                    Some(tok) => {
                        assert(ts[0] == tok);
                        assert forall|k: int| 0 < k < ts.len() implies ts[k] == rest[k - 1] by {}
                        assert(ends_with_one_eof(ts)) by {
                            assert(ts.last() == rest.last());
                            assert forall|k: int| 0 <= k < ts.len() - 1 implies !(
                            #[trigger] ts[k].kind is Eof) by {
                                if k > 0 {
                                    assert(ts[k] == rest[k - 1]);
                                }
                            }
                        }
                        assert forall|j: int, k: int| 0 <= j < k < ts.len() implies before(
                            #[trigger] ts[j].line,
                            ts[j].col,
                            #[trigger] ts[k].line,
                            ts[k].col,
                        ) by {
                            assert(ts[k] == rest[k - 1]);
                            if j > 0 {
                                assert(ts[j] == rest[j - 1]);
                            }
                        }
                        assert forall|k: int| 0 <= k < ts.len() implies !before(
                            #[trigger] ts[k].line,
                            ts[k].col,
                            line,
                            col,
                        ) by {
                            if k > 0 {
                                assert(ts[k] == rest[k - 1]);
                            }
                        }
                        assert forall|k: int| 0 <= k < ts.len() implies well_formed_kind(
                            #[trigger] ts[k].kind,
                        ) by {
                            if k > 0 {
                                assert(ts[k] == rest[k - 1]);
                            }
                        }
                    },
                    None => {
                        assert(ts =~= rest);
                    },
                }
            }
        }
    }
}

/// Law: when the lexer succeeds, its tokens end with an `Eof` token and no
/// other token is `Eof`. So they always meet what `parse` requires.
pub proof fn law_lex_ends_with_eof(cs: Seq<char>)
    ensures
        lex(cs) matches Ok(ts) ==> ends_with_one_eof(ts),
{
    lemma_lex_from_laws(cs, 0, 1, 1);
}

/// Law: when the lexer succeeds, each token starts strictly after the one
/// before it (on a later line, or later on the same line), and none starts
/// before line 1, column 1.
pub proof fn law_lex_source_order(cs: Seq<char>)
    ensures
        lex(cs) matches Ok(ts) ==> in_source_order(ts) && none_before(ts, 1, 1),
{
    lemma_lex_from_laws(cs, 0, 1, 1);
}

/// Law: when the lexer succeeds, every token is well formed: integer values
/// are not negative, float texts are digits with one point, string texts hold
/// no quote and no line break, and identifiers are words that are not keywords.
pub proof fn law_lex_tokens_well_formed(cs: Seq<char>)
    ensures
        lex(cs) matches Ok(ts) ==> forall|k: int|
            0 <= k < ts.len() ==> well_formed_kind(#[trigger] ts[k].kind),
{
    lemma_lex_from_laws(cs, 0, 1, 1);
}

// ---------------------------------------------------------------------------
// A line break separates tokens as a space does
// ---------------------------------------------------------------------------

/// The kinds of the tokens that lexing gives, or `None` for an error.
pub open spec fn kinds_of(r: Result<Seq<SpecToken>, SpecLexError>) -> Option<Seq<SpecTokenKind>> {
    match r {
        Ok(ts) => Some(ts.map_values(|t: SpecToken| t.kind)),
        Err(_) => None,
    }
}

/// What a step of the lexer reads, apart from positions: the kind of the
/// token read, if any, and the index after the step; `None` for an error.
pub open spec fn step_shape(r: Result<(Option<SpecToken>, nat, nat, nat), SpecLexError>) -> Option<
    (Option<SpecTokenKind>, nat),
> {
    match r {
        Ok((t, i2, _, _)) => Some(
            (
                match t {
                    Some(t) => Some(t.kind),
                    None => None,
                },
                i2,
            ),
        ),
        Err(_) => None,
    }
}

proof fn lemma_kinds_after(pre: Seq<SpecToken>, r: Result<Seq<SpecToken>, SpecLexError>)
    ensures
        kinds_of(after(pre, r)) == match kinds_of(r) {
            Some(k) => Some(pre.map_values(|t: SpecToken| t.kind) + k),
            None => None,
        },
{
    if let Ok(ts) = r {
        assert((pre + ts).map_values(|t: SpecToken| t.kind) =~= pre.map_values(
            |t: SpecToken| t.kind,
        ) + ts.map_values(|t: SpecToken| t.kind));
    }
}

proof fn lemma_block_comment_end_index(cs: Seq<char>, i: nat, l1: nat, c1: nat, l2: nat, c2: nat)
    ensures
        block_comment_end(cs, i, l1, c1).0 == block_comment_end(cs, i, l2, c2).0,
    decreases cs.len() - i,
{
    if i + 1 < cs.len() && !(cs[i as int] == '*' && cs[i + 1int] == '/') {
        if cs[i as int] == '\n' {
            lemma_block_comment_end_index(cs, i + 1, l1 + 1, 1, l2 + 1, 1);
        } else {
            lemma_block_comment_end_index(cs, i + 1, l1, c1 + 1, l2, c2 + 1);
        }
    }
}

/// Kinds of tokens and indices do not depend on the line and column at
/// which lexing starts.
proof fn lemma_lex_from_kinds_positionless(cs: Seq<char>, i: nat, l1: nat, c1: nat, l2: nat, c2: nat)
    ensures
        kinds_of(lex_from(cs, i, l1, c1)) == kinds_of(lex_from(cs, i, l2, c2)),
    decreases cs.len() + 1 - i,
{
    if i >= cs.len() {
        assert(seq![SpecToken { kind: SpecTokenKind::Eof, line: l1, col: c1 }].map_values(
            |t: SpecToken| t.kind,
        ) =~= seq![SpecToken { kind: SpecTokenKind::Eof, line: l2, col: c2 }].map_values(
            |t: SpecToken| t.kind,
        ));
    } else {
        lemma_lex_step_progress(cs, i, l1, c1);
        lemma_lex_step_progress(cs, i, l2, c2);
        if i + 1 < cs.len() {
            lemma_block_comment_end_index(cs, i + 2, l1, c1 + 2, l2, c2 + 2);
        }
        assert(step_shape(lex_step(cs, i, l1, c1)) == step_shape(lex_step(cs, i, l2, c2)));
        match (lex_step(cs, i, l1, c1), lex_step(cs, i, l2, c2)) {
            (Ok((t1, i1, m1, d1)), Ok((t2, i2, m2, d2))) => {
                lemma_lex_from_kinds_positionless(cs, i1, m1, d1, m2, d2);
                lemma_kinds_after(opt_seq(t1), lex_from(cs, i1, m1, d1));
                lemma_kinds_after(opt_seq(t2), lex_from(cs, i2, m2, d2));
                assert(opt_seq(t1).map_values(|t: SpecToken| t.kind) =~= opt_seq(t2).map_values(
                    |t: SpecToken| t.kind,
                ));
            },
            _ => {},
        }
    }
}

/// `cs1` and `cs2` have the same length and the same characters from `i` on.
pub open spec fn agree_from(cs1: Seq<char>, cs2: Seq<char>, i: nat) -> bool {
    &&& cs1.len() == cs2.len()
    &&& forall|k: int| i <= k < cs1.len() ==> cs1[k] == cs2[k]
}

proof fn lemma_scans_agree(cs1: Seq<char>, cs2: Seq<char>, i: nat)
    requires
        agree_from(cs1, cs2, i),
    ensures
        digits_end(cs1, i) == digits_end(cs2, i),
        word_end(cs1, i) == word_end(cs2, i),
        line_end(cs1, i) == line_end(cs2, i),
        string_end(cs1, i) == string_end(cs2, i),
        forall|l: nat, c: nat| block_comment_end(cs1, i, l, c) == block_comment_end(cs2, i, l, c),
    decreases cs1.len() - i,
{
    if i < cs1.len() {
        lemma_scans_agree(cs1, cs2, i + 1);
        assert(cs1[i as int] == cs2[i as int]);
        if i + 1 < cs1.len() {
            assert(cs1[i + 1int] == cs2[i + 1int]);
        }
        assert forall|l: nat, c: nat|
            block_comment_end(cs1, i, l, c) == block_comment_end(cs2, i, l, c) by {
            if i + 1 < cs1.len() {
                assert(block_comment_end(cs1, i + 1, l + 1, 1) == block_comment_end(
                    cs2,
                    i + 1,
                    l + 1,
                    1,
                ));
                assert(block_comment_end(cs1, i + 1, l, c + 1) == block_comment_end(
                    cs2,
                    i + 1,
                    l,
                    c + 1,
                ));
            }
        }
    }
}

/// Lexing from `i` on reads only the characters from `i` on.
proof fn lemma_lex_from_agree(cs1: Seq<char>, cs2: Seq<char>, i: nat, l: nat, c: nat)
    requires
        agree_from(cs1, cs2, i),
    ensures
        lex_from(cs1, i, l, c) == lex_from(cs2, i, l, c),
    decreases cs1.len() + 1 - i,
{
    if i < cs1.len() {
        lemma_lex_step_progress(cs1, i, l, c);
        lemma_scans_agree(cs1, cs2, i);
        lemma_scans_agree(cs1, cs2, i + 1);
        if i + 1 < cs1.len() {
            lemma_scans_agree(cs1, cs2, i + 2);
            assert(cs1[i + 1int] == cs2[i + 1int]);
        }
        assert(cs1[i as int] == cs2[i as int]);
        lemma_digits_end(cs1, i);
        let j = digits_end(cs1, i);
        if j < cs1.len() {
            assert(cs1[j as int] == cs2[j as int]);
            lemma_scans_agree(cs1, cs2, j + 1);
            lemma_digits_end(cs1, j + 1);
            assert(cs1.subrange(i as int, digits_end(cs1, j + 1) as int) =~= cs2.subrange(
                i as int,
                digits_end(cs2, j + 1) as int,
            ));
        }
        assert(cs1.subrange(i as int, j as int) =~= cs2.subrange(i as int, j as int));
        lemma_string_end(cs1, i + 1);
        let js = string_end(cs1, i + 1);
        if js < cs1.len() {
            assert(cs1[js as int] == cs2[js as int]);
        }
        assert(cs1.subrange(i + 1int, js as int) =~= cs2.subrange(i + 1int, js as int));
        lemma_word_end(cs1, i + 1);
        let jw = word_end(cs1, i + 1);
        assert(cs1.subrange(i as int, jw as int) =~= cs2.subrange(i as int, jw as int));
        assert(lex_step(cs1, i, l, c) == lex_step(cs2, i, l, c));
        if let Ok((_, i2, l2, c2)) = lex_step(cs1, i, l, c) {
            lemma_lex_from_agree(cs1, cs2, i2, l2, c2);
        }
    }
}

/// A text `a` in which no token or comment can reach past its end: it holds no
/// quote, and no `//` or `/*`.
pub open spec fn closed_text(a: Seq<char>) -> bool {
    &&& forall|k: int| 0 <= k < a.len() ==> #[trigger] a[k] != '"'
    &&& forall|k: int|
        0 <= k < a.len() - 1 ==> !(#[trigger] a[k] == '/' && (a[k + 1] == '/' || a[k + 1] == '*'))
}

/// Within `a`, the step of the lexer is the same whether `a` is followed by a
/// space or by a line break, and it does not go past `a`.
proof fn lemma_step_before_separator(a: Seq<char>, b: Seq<char>, i: nat, l: nat, c: nat)
    requires
        closed_text(a),
        i < a.len(),
    ensures
        lex_step(a + seq![' '] + b, i, l, c) == lex_step(a + seq!['\n'] + b, i, l, c),
        lex_step(a + seq![' '] + b, i, l, c) matches Ok((_, i2, _, _)) ==> i2 <= a.len(),
{
    let cs1 = a + seq![' '] + b;
    let cs2 = a + seq!['\n'] + b;
    let n = a.len();
    assert(cs1.len() == cs2.len());
    assert forall|k: int| 0 <= k < n implies cs1[k] == a[k] && cs2[k] == a[k] by {}
    assert(cs1[n as int] == ' ' && cs2[n as int] == '\n');
    let ch = a[i as int];
    assert(cs1[i as int] == ch && cs2[i as int] == ch);
    if i + 1 < n {
        assert(cs1[i + 1int] == a[i + 1int] && cs2[i + 1int] == a[i + 1int]);
    }
    // the scans stop at the separator, which neither continues a number nor a word
    lemma_scans_below(a, b, i);
    lemma_scans_below(a, b, i + 1);
    lemma_digits_end(cs1, i);
    lemma_word_end(cs1, i + 1);
    let j = digits_end(cs1, i);
    if j < n && a[j as int] == '.' {
        lemma_scans_below(a, b, j + 1);
        lemma_digits_end(cs1, j + 1);
        assert(cs1.subrange(i as int, digits_end(cs1, j + 1) as int) =~= cs2.subrange(
            i as int,
            digits_end(cs2, j + 1) as int,
        ));
    }
    assert(cs1.subrange(i as int, j as int) =~= cs2.subrange(i as int, j as int));
    let jw = word_end(cs1, i + 1);
    assert(cs1.subrange(i as int, jw as int) =~= cs2.subrange(i as int, jw as int));
}

/// The number and word scans that start within `a` (or just after it) end at
/// the same place in both texts, at most at the end of `a`.
proof fn lemma_scans_below(a: Seq<char>, b: Seq<char>, i: nat)
    requires
        i <= a.len(),
    ensures
        digits_end(a + seq![' '] + b, i) == digits_end(a + seq!['\n'] + b, i),
        digits_end(a + seq![' '] + b, i) <= a.len(),
        word_end(a + seq![' '] + b, i) == word_end(a + seq!['\n'] + b, i),
        word_end(a + seq![' '] + b, i) <= a.len(),
    decreases a.len() - i,
{
    let cs1 = a + seq![' '] + b;
    let cs2 = a + seq!['\n'] + b;
    assert(cs1[a.len() as int] == ' ' && cs2[a.len() as int] == '\n');
    if i < a.len() {
        assert(cs1[i as int] == a[i as int] && cs2[i as int] == a[i as int]);
        lemma_scans_below(a, b, i + 1);
    }
}

/// From a position within `a`, lexing the two texts gives tokens of the same kinds.
proof fn lemma_lex_from_separator(a: Seq<char>, b: Seq<char>, i: nat, l: nat, c: nat)
    requires
        closed_text(a),
        i <= a.len(),
    ensures
        kinds_of(lex_from(a + seq![' '] + b, i, l, c)) == kinds_of(
            lex_from(a + seq!['\n'] + b, i, l, c),
        ),
    decreases a.len() - i,
{
    let cs1 = a + seq![' '] + b;
    let cs2 = a + seq!['\n'] + b;
    let n = a.len();
    assert(cs1.len() == cs2.len());
    if i < n {
        lemma_step_before_separator(a, b, i, l, c);
        lemma_lex_step_progress(cs1, i, l, c);
        if let Ok((t, i2, l2, c2)) = lex_step(cs1, i, l, c) {
            lemma_lex_from_separator(a, b, i2, l2, c2);
            lemma_kinds_after(opt_seq(t), lex_from(cs1, i2, l2, c2));
            lemma_kinds_after(opt_seq(t), lex_from(cs2, i2, l2, c2));
        }
    } else {
        assert(cs1[n as int] == ' ' && cs2[n as int] == '\n');
        assert(is_white_space(' '));
        assert(agree_from(cs1, cs2, n + 1)) by {
            assert forall|k: int| n + 1 <= k < cs1.len() implies cs1[k] == cs2[k] by {
                assert(cs1[k] == b[k - n - 1] && cs2[k] == b[k - n - 1]);
            }
        }
        lemma_lex_from_agree(cs1, cs2, n + 1, l, c + 1);
        lemma_lex_from_kinds_positionless(cs2, n + 1, l, c + 1, l + 1, 1);
        lemma_after_nothing(lex_from(cs1, n + 1, l, c + 1));
        lemma_after_nothing(lex_from(cs2, n + 1, l + 1, 1));
    }
}

/// Law: a line break separates tokens as a space does. When the text `a`
/// holds no quote and no `//` or `/*` (so that nothing in it reaches past its
/// end), `a` followed by a space and `b` lexes as `a` followed by a line break
/// and `b`: both fail, or both give tokens of the same kinds (only lines and
/// columns differ).
pub proof fn law_line_break_separates_like_space(a: Seq<char>, b: Seq<char>)
    requires
        closed_text(a),
    ensures
        kinds_of(lex(a + seq![' '] + b)) == kinds_of(lex(a + seq!['\n'] + b)),
{
    lemma_lex_from_separator(a, b, 0, 1, 1);
}

/// The run of word characters from `k` on ends at `j`, where every
/// character from `k` up to `j` is a letter, a digit or `_` and the one at
/// `j`, if any, is none of these.
proof fn lemma_word_end_at(cs: Seq<char>, k: nat, j: nat)
    requires
        k <= j <= cs.len(),
        forall|m: int| k <= m < j ==> is_alphanumeric(#[trigger] cs[m]) || cs[m] == '_',
        j < cs.len() ==> !(is_alphanumeric(cs[j as int]) || cs[j as int] == '_'),
    ensures
        word_end(cs, k) == j,
    decreases j - k,
{
    if k < j {
        lemma_word_end_at(cs, k + 1, j);
    }
}

/// Law: a word is the longest run of letters, digits and `_` that follows its
/// first character, `_` included wherever it stands. Where a letter or `_`
/// at `i` is followed by such characters up to `j`, and the character at `j`
/// (if any) is none of them, one step of the lexer at `i` reads the whole of
/// `i..j` as one word token (an identifier, unless it is a keyword or a
/// boolean literal) at the current line and column, and goes on at `j`.
pub proof fn law_word_is_longest_run(cs: Seq<char>, i: nat, j: nat, line: nat, col: nat)
    requires
        i < j <= cs.len(),
        is_alphabetic(cs[i as int]) || cs[i as int] == '_',
        !is_white_space(cs[i as int]),
        forall|m: int| i < m < j ==> is_alphanumeric(#[trigger] cs[m]) || cs[m] == '_',
        j < cs.len() ==> !(is_alphanumeric(cs[j as int]) || cs[j as int] == '_'),
    ensures
        lex_step(cs, i, line, col) == Ok::<(Option<SpecToken>, nat, nat, nat), SpecLexError>(
            (
                Some(SpecToken { kind: word_kind(cs.subrange(i as int, j as int)), line, col }),
                j,
                line,
                (col + j - i) as nat,
            ),
        ),
{
    lemma_word_end_at(cs, i + 1, j);
}

/// Where the word characters from `i` up to `j` spell `w`, one step of the
/// lexer at `i` reads a token of kind `k` and goes on at `j`.
pub open spec fn reads_word_as(
    cs: Seq<char>,
    i: nat,
    j: nat,
    line: nat,
    col: nat,
    w: Seq<char>,
    k: SpecTokenKind,
) -> bool {
    cs.subrange(i as int, j as int) == w ==> lex_step(cs, i, line, col) == Ok::<
        (Option<SpecToken>, nat, nat, nat),
        SpecLexError,
    >((Some(SpecToken { kind: k, line, col }), j, line, (col + j - i) as nat))
}

/// Law: each keyword is read as its own token (`class`, `void`, `return`,
/// `if`, `else`, `while`, `for`, `new`, `static`, `public`, `private`,
/// `final`, `int`, `float`, `boolean` and `String`), `true` and `false` as
/// the boolean literals, and every other word as an identifier holding the
/// whole word.
pub proof fn law_keywords(cs: Seq<char>, i: nat, j: nat, line: nat, col: nat)
    requires
        i < j <= cs.len(),
        is_alphabetic(cs[i as int]) || cs[i as int] == '_',
        !is_white_space(cs[i as int]),
        forall|m: int| i < m < j ==> is_alphanumeric(#[trigger] cs[m]) || cs[m] == '_',
        j < cs.len() ==> !(is_alphanumeric(cs[j as int]) || cs[j as int] == '_'),
    ensures
        reads_word_as(cs, i, j, line, col, "class"@, SpecTokenKind::Class),
        reads_word_as(cs, i, j, line, col, "void"@, SpecTokenKind::Void),
        reads_word_as(cs, i, j, line, col, "return"@, SpecTokenKind::Return),
        reads_word_as(cs, i, j, line, col, "if"@, SpecTokenKind::If),
        reads_word_as(cs, i, j, line, col, "else"@, SpecTokenKind::Else),
        reads_word_as(cs, i, j, line, col, "while"@, SpecTokenKind::While),
        reads_word_as(cs, i, j, line, col, "for"@, SpecTokenKind::For),
        reads_word_as(cs, i, j, line, col, "new"@, SpecTokenKind::New),
        reads_word_as(cs, i, j, line, col, "static"@, SpecTokenKind::Static),
        reads_word_as(cs, i, j, line, col, "public"@, SpecTokenKind::Public),
        reads_word_as(cs, i, j, line, col, "private"@, SpecTokenKind::Private),
        reads_word_as(cs, i, j, line, col, "final"@, SpecTokenKind::Final),
        reads_word_as(cs, i, j, line, col, "int"@, SpecTokenKind::Int),
        reads_word_as(cs, i, j, line, col, "float"@, SpecTokenKind::Float),
        reads_word_as(cs, i, j, line, col, "boolean"@, SpecTokenKind::Bool),
        reads_word_as(cs, i, j, line, col, "String"@, SpecTokenKind::StringType),
        reads_word_as(cs, i, j, line, col, "true"@, SpecTokenKind::BoolLiteral(true)),
        reads_word_as(cs, i, j, line, col, "false"@, SpecTokenKind::BoolLiteral(false)),
        ({
            let w = cs.subrange(i as int, j as int);
            w != "class"@ && w != "void"@ && w != "return"@ && w != "if"@ && w != "else"@ && w != "while"@ && w != "for"@ && w != "new"@ && w != "static"@ && w != "public"@ && w != "private"@ && w != "final"@ && w != "int"@ && w != "float"@ && w != "boolean"@ && w != "String"@ && w != "true"@ && w != "false"@ ==> reads_word_as(cs, i, j, line, col, w, SpecTokenKind::Ident(w))
        }),
{
    law_word_is_longest_run(cs, i, j, line, col);
    reveal_strlit("class");
    assert("class"@.len() == 5 && "class"@[0] == 'c' && "class"@[1] == 'l');
    reveal_strlit("void");
    assert("void"@.len() == 4 && "void"@[0] == 'v' && "void"@[1] == 'o');
    reveal_strlit("return");
    assert("return"@.len() == 6 && "return"@[0] == 'r' && "return"@[1] == 'e');
    reveal_strlit("if");
    assert("if"@.len() == 2 && "if"@[0] == 'i' && "if"@[1] == 'f');
    reveal_strlit("else");
    assert("else"@.len() == 4 && "else"@[0] == 'e' && "else"@[1] == 'l');
    reveal_strlit("while");
    assert("while"@.len() == 5 && "while"@[0] == 'w' && "while"@[1] == 'h');
    reveal_strlit("for");
    assert("for"@.len() == 3 && "for"@[0] == 'f' && "for"@[1] == 'o');
    reveal_strlit("new");
    assert("new"@.len() == 3 && "new"@[0] == 'n' && "new"@[1] == 'e');
    reveal_strlit("static");
    assert("static"@.len() == 6 && "static"@[0] == 's' && "static"@[1] == 't');
    reveal_strlit("public");
    assert("public"@.len() == 6 && "public"@[0] == 'p' && "public"@[1] == 'u');
    reveal_strlit("private");
    assert("private"@.len() == 7 && "private"@[0] == 'p' && "private"@[1] == 'r');
    reveal_strlit("final");
    assert("final"@.len() == 5 && "final"@[0] == 'f' && "final"@[1] == 'i');
    reveal_strlit("int");
    assert("int"@.len() == 3 && "int"@[0] == 'i' && "int"@[1] == 'n');
    reveal_strlit("float");
    assert("float"@.len() == 5 && "float"@[0] == 'f' && "float"@[1] == 'l');
    reveal_strlit("boolean");
    assert("boolean"@.len() == 7 && "boolean"@[0] == 'b' && "boolean"@[1] == 'o');
    reveal_strlit("String");
    assert("String"@.len() == 6 && "String"@[0] == 'S' && "String"@[1] == 't');
    reveal_strlit("true");
    assert("true"@.len() == 4 && "true"@[0] == 't' && "true"@[1] == 'r');
    reveal_strlit("false");
    assert("false"@.len() == 5 && "false"@[0] == 'f' && "false"@[1] == 'a');
}

/// Where `a` and then `b` stand at `i`, one step of the lexer reads a token of
/// kind `k` two columns wide.
pub open spec fn reads_pair(cs: Seq<char>, i: nat, line: nat, col: nat, a: char, b: char, k: SpecTokenKind) -> bool {
    (i + 1 < cs.len() && cs[i as int] == a && cs[i + 1int] == b) ==> lex_step(cs, i, line, col)
        == Ok::<(Option<SpecToken>, nat, nat, nat), SpecLexError>(
        (Some(SpecToken { kind: k, line, col }), i + 2, line, col + 2),
    )
}

/// Where `c` stands at `i` and neither `=`, `/`, `*`, `&` nor `|` follows it,
/// one step of the lexer reads a token of kind `k` one column wide.
pub open spec fn reads_single(cs: Seq<char>, i: nat, line: nat, col: nat, c: char, k: SpecTokenKind) -> bool {
    (i < cs.len() && cs[i as int] == c && !(i + 1 < cs.len() && (cs[i + 1int] == '=' || cs[i + 1int]
        == '/' || cs[i + 1int] == '*' || cs[i + 1int] == '&' || cs[i + 1int] == '|')))
        ==> lex_step(cs, i, line, col) == Ok::<(Option<SpecToken>, nat, nat, nat), SpecLexError>(
        (Some(SpecToken { kind: k, line, col }), i + 1, line, col + 1),
    )
}

/// Law: each operator and bracket is read as its own token: the two-character
/// operators `==`, `!=`, `<=`, `>=`, `&&` and `||` before any one-character
/// reading, and `+ - * / % = < > ! . , ; : ( ) { } [ ]` each on its own.
pub proof fn law_operator_tokens(cs: Seq<char>, i: nat, line: nat, col: nat)
    ensures
        reads_pair(cs, i, line, col, '=', '=', SpecTokenKind::EqEq),
        reads_pair(cs, i, line, col, '!', '=', SpecTokenKind::NotEq),
        reads_pair(cs, i, line, col, '<', '=', SpecTokenKind::LtEq),
        reads_pair(cs, i, line, col, '>', '=', SpecTokenKind::GtEq),
        reads_pair(cs, i, line, col, '&', '&', SpecTokenKind::And),
        reads_pair(cs, i, line, col, '|', '|', SpecTokenKind::Or),
        reads_single(cs, i, line, col, '+', SpecTokenKind::Plus),
        reads_single(cs, i, line, col, '-', SpecTokenKind::Minus),
        reads_single(cs, i, line, col, '*', SpecTokenKind::Star),
        reads_single(cs, i, line, col, '/', SpecTokenKind::Slash),
        reads_single(cs, i, line, col, '%', SpecTokenKind::Percent),
        reads_single(cs, i, line, col, '=', SpecTokenKind::Eq),
        reads_single(cs, i, line, col, '<', SpecTokenKind::Lt),
        reads_single(cs, i, line, col, '>', SpecTokenKind::Gt),
        reads_single(cs, i, line, col, '!', SpecTokenKind::Not),
        reads_single(cs, i, line, col, '.', SpecTokenKind::Dot),
        reads_single(cs, i, line, col, ',', SpecTokenKind::Comma),
        reads_single(cs, i, line, col, ';', SpecTokenKind::Semicolon),
        reads_single(cs, i, line, col, ':', SpecTokenKind::Colon),
        reads_single(cs, i, line, col, '(', SpecTokenKind::LParen),
        reads_single(cs, i, line, col, ')', SpecTokenKind::RParen),
        reads_single(cs, i, line, col, '{', SpecTokenKind::LBrace),
        reads_single(cs, i, line, col, '}', SpecTokenKind::RBrace),
        reads_single(cs, i, line, col, '[', SpecTokenKind::LBracket),
        reads_single(cs, i, line, col, ']', SpecTokenKind::RBracket),
{
}

/// Law: a line break moves to column 1 of the next line, a space or a tab
/// one column on; neither is a token. A `//` comment is skipped up to the
/// next line break (or the end of the text), with no token and without
/// moving the position of the next token on its line.
pub proof fn law_layout(cs: Seq<char>, i: nat, e: nat, line: nat, col: nat)
    requires
        i < cs.len(),
    ensures
        cs[i as int] == '\n' ==> lex_step(cs, i, line, col) == Ok::<
            (Option<SpecToken>, nat, nat, nat),
            SpecLexError,
        >((None, i + 1, line + 1, 1)),
        (cs[i as int] == ' ' || cs[i as int] == '\t') ==> lex_step(cs, i, line, col) == Ok::<
            (Option<SpecToken>, nat, nat, nat),
            SpecLexError,
        >((None, i + 1, line, col + 1)),
        (i + 1 < cs.len() && cs[i as int] == '/' && cs[i + 1int] == '/' && i + 2 <= e <= cs.len()
            && (forall|m: int| i + 2 <= m < e ==> #[trigger] cs[m] != '\n') && (e < cs.len()
            ==> cs[e as int] == '\n')) ==> lex_step(cs, i, line, col) == Ok::<
            (Option<SpecToken>, nat, nat, nat),
            SpecLexError,
        >((None, e, line, col)),
{
    if i + 1 < cs.len() && cs[i as int] == '/' && cs[i + 1int] == '/' && i + 2 <= e <= cs.len()
        && (forall|m: int| i + 2 <= m < e ==> #[trigger] cs[m] != '\n') && (e < cs.len()
        ==> cs[e as int] == '\n') {
        lemma_line_end_at(cs, i + 2, e);
    }
}

/// The first line break at or after `k` is at `e` (or there is none and `e`
/// is the end of the text).
proof fn lemma_line_end_at(cs: Seq<char>, k: nat, e: nat)
    requires
        k <= e <= cs.len(),
        forall|m: int| k <= m < e ==> #[trigger] cs[m] != '\n',
        e < cs.len() ==> cs[e as int] == '\n',
    ensures
        line_end(cs, k) == e,
    decreases e - k,
{
    if k < e {
        lemma_line_end_at(cs, k + 1, e);
    }
}

/// Law: a string literal holds exactly the characters between its quotes.
/// Where a quote at `i` is followed by characters that are neither quotes nor
/// line breaks up to a quote at `e`, one step of the lexer reads a string
/// literal holding `i + 1..e` and goes on after the closing quote.
pub proof fn law_string_literal(cs: Seq<char>, i: nat, e: nat, line: nat, col: nat)
    requires
        i < e < cs.len(),
        cs[i as int] == '"',
        cs[e as int] == '"',
        forall|m: int| i < m < e ==> #[trigger] cs[m] != '"' && cs[m] != '\n',
    ensures
        lex_step(cs, i, line, col) == Ok::<(Option<SpecToken>, nat, nat, nat), SpecLexError>(
            (
                Some(
                    SpecToken {
                        kind: SpecTokenKind::StringLiteral(cs.subrange(i + 1int, e as int)),
                        line,
                        col,
                    },
                ),
                e + 1,
                line,
                (col + e - i + 1) as nat,
            ),
        ),
{
    lemma_string_end_at(cs, i + 1, e);
}

/// The first quote or line break at or after `k` is at `e`.
proof fn lemma_string_end_at(cs: Seq<char>, k: nat, e: nat)
    requires
        k <= e < cs.len(),
        forall|m: int| k <= m < e ==> #[trigger] cs[m] != '"' && cs[m] != '\n',
        cs[e as int] == '"',
    ensures
        string_end(cs, k) == e,
    decreases e - k,
{
    if k < e {
        lemma_string_end_at(cs, k + 1, e);
    }
}

} // verus!
