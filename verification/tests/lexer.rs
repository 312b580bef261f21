use j2bit::lexer::{tokenize, LexError, Token, TokenKind};
use j2bit::text::char_is_white_space;

fn tok(kind: TokenKind, line: usize, col: usize) -> Token {
    Token { kind, line, col }
}

fn ident(s: &str) -> TokenKind {
    TokenKind::Ident(s.to_string())
}

#[test]
fn declaration_tokens_and_positions() {
    let ts = tokenize("int x = 5;").unwrap();
    assert_eq!(
        ts,
        vec![
            tok(TokenKind::Int, 1, 1),
            tok(ident("x"), 1, 5),
            tok(TokenKind::Eq, 1, 7),
            tok(TokenKind::IntLiteral(5), 1, 9),
            tok(TokenKind::Semicolon, 1, 10),
            tok(TokenKind::Eof, 1, 11),
        ]
    );
}

#[test]
fn empty_source_is_just_eof() {
    assert_eq!(tokenize("").unwrap(), vec![tok(TokenKind::Eof, 1, 1)]);
}

#[test]
fn whitespace_only_source() {
    assert_eq!(tokenize("  \t\n  ").unwrap(), vec![tok(TokenKind::Eof, 2, 3)]);
}

#[test]
fn keywords_and_boolean_literals() {
    let ts = tokenize(
        "class void return if else while for new static public private final int float boolean String true false classy",
    )
    .unwrap();
    let kinds: Vec<TokenKind> = ts.into_iter().map(|t| t.kind).collect();
    assert_eq!(
        kinds,
        vec![
            TokenKind::Class,
            TokenKind::Void,
            TokenKind::Return,
            TokenKind::If,
            TokenKind::Else,
            TokenKind::While,
            TokenKind::For,
            TokenKind::New,
            TokenKind::Static,
            TokenKind::Public,
            TokenKind::Private,
            TokenKind::Final,
            TokenKind::Int,
            TokenKind::Float,
            TokenKind::Bool,
            TokenKind::StringType,
            TokenKind::BoolLiteral(true),
            TokenKind::BoolLiteral(false),
            ident("classy"),
            TokenKind::Eof,
        ]
    );
}

#[test]
fn operators_one_and_two_characters() {
    let ts = tokenize("+ - * / % = == != < <= > >= && || ! . , ; : ( ) { } [ ]").unwrap();
    let kinds: Vec<TokenKind> = ts.into_iter().map(|t| t.kind).collect();
    assert_eq!(
        kinds,
        vec![
            TokenKind::Plus,
            TokenKind::Minus,
            TokenKind::Star,
            TokenKind::Slash,
            TokenKind::Percent,
            TokenKind::Eq,
            TokenKind::EqEq,
            TokenKind::NotEq,
            TokenKind::Lt,
            TokenKind::LtEq,
            TokenKind::Gt,
            TokenKind::GtEq,
            TokenKind::And,
            TokenKind::Or,
            TokenKind::Not,
            TokenKind::Dot,
            TokenKind::Comma,
            TokenKind::Semicolon,
            TokenKind::Colon,
            TokenKind::LParen,
            TokenKind::RParen,
            TokenKind::LBrace,
            TokenKind::RBrace,
            TokenKind::LBracket,
            TokenKind::RBracket,
            TokenKind::Eof,
        ]
    );
}

#[test]
fn two_character_operator_without_spaces() {
    let ts = tokenize("a<=b").unwrap();
    assert_eq!(
        ts,
        vec![
            tok(ident("a"), 1, 1),
            tok(TokenKind::LtEq, 1, 2),
            tok(ident("b"), 1, 4),
            tok(TokenKind::Eof, 1, 5),
        ]
    );
}

#[test]
fn line_comment_is_skipped() {
    let ts = tokenize("a // comment\nb").unwrap();
    assert_eq!(
        ts,
        vec![tok(ident("a"), 1, 1), tok(ident("b"), 2, 1), tok(TokenKind::Eof, 2, 2)]
    );
}

#[test]
fn line_comment_does_not_advance_the_column() {
    // the column stays where the comment starts
    let ts = tokenize("a //x").unwrap();
    assert_eq!(ts, vec![tok(ident("a"), 1, 1), tok(TokenKind::Eof, 1, 3)]);
}

#[test]
fn block_comment_across_lines() {
    let ts = tokenize("a /* one\ntwo */ b").unwrap();
    assert_eq!(
        ts,
        vec![tok(ident("a"), 1, 1), tok(ident("b"), 2, 8), tok(TokenKind::Eof, 2, 9)]
    );
}

#[test]
fn unterminated_block_comment_leaves_its_last_character() {
    let ts = tokenize("/* abc").unwrap();
    assert_eq!(ts, vec![tok(ident("c"), 1, 6), tok(TokenKind::Eof, 1, 7)]);
}

#[test]
fn integer_and_float_literals() {
    let ts = tokenize("42 3.14 5. 007").unwrap();
    assert_eq!(
        ts,
        vec![
            tok(TokenKind::IntLiteral(42), 1, 1),
            tok(TokenKind::FloatLiteral("3.14".to_string()), 1, 4),
            tok(TokenKind::FloatLiteral("5.".to_string()), 1, 9),
            tok(TokenKind::IntLiteral(7), 1, 12),
            tok(TokenKind::Eof, 1, 15),
        ]
    );
}

#[test]
fn largest_integer_literal() {
    let ts = tokenize("9223372036854775807").unwrap();
    assert_eq!(ts[0].kind, TokenKind::IntLiteral(i64::MAX));
}

#[test]
fn integer_literal_too_large() {
    assert_eq!(tokenize("x = 9223372036854775808;").unwrap_err(), LexError::IntegerTooLarge);
}

#[test]
fn string_literal() {
    let ts = tokenize("\"hi there\" x").unwrap();
    assert_eq!(
        ts,
        vec![
            tok(TokenKind::StringLiteral("hi there".to_string()), 1, 1),
            tok(ident("x"), 1, 12),
            tok(TokenKind::Eof, 1, 13),
        ]
    );
}

#[test]
fn string_literal_broken_by_line_end() {
    assert_eq!(
        tokenize("\n\"ab\ncd\"").unwrap_err(),
        LexError::UnterminatedString { line: 2 }
    );
}

#[test]
fn string_literal_open_at_end_of_text() {
    let ts = tokenize("\"ab").unwrap();
    assert_eq!(
        ts,
        vec![tok(TokenKind::StringLiteral("ab".to_string()), 1, 1), tok(TokenKind::Eof, 1, 5)]
    );
}

#[test]
fn unexpected_character() {
    assert_eq!(
        tokenize("a # b").unwrap_err(),
        LexError::UnexpectedChar { ch: '#', line: 1, col: 3 }
    );
}

#[test]
fn lone_ampersand_is_unexpected() {
    assert_eq!(
        tokenize("a & b").unwrap_err(),
        LexError::UnexpectedChar { ch: '&', line: 1, col: 3 }
    );
}

#[test]
fn unicode_identifiers_and_underscores() {
    let ts = tokenize("_x1 переменная").unwrap();
    assert_eq!(
        ts,
        vec![
            tok(ident("_x1"), 1, 1),
            tok(ident("переменная"), 1, 5),
            tok(TokenKind::Eof, 1, 15),
        ]
    );
}

#[test]
fn tokens_come_in_source_order_and_end_with_one_eof() {
    let src = "public class A {\n  int f() { return 1 + 2; } // c\n  /* x */ String s = \"q\";\n}\n";
    let ts = tokenize(src).unwrap();
    let last = ts.len() - 1;
    assert_eq!(ts[last].kind, TokenKind::Eof);
    for (k, t) in ts.iter().enumerate() {
        assert!(t.line >= 1 && t.col >= 1);
        if k < last {
            assert!(t.kind != TokenKind::Eof);
        }
        if k > 0 {
            let p = &ts[k - 1];
            assert!(p.line < t.line || (p.line == t.line && p.col < t.col));
        }
    }
}

#[test]
fn token_clone_and_equality() {
    let t = tok(ident("abc"), 3, 4);
    let u = t.clone();
    assert_eq!(t, u);
    assert!(t != tok(ident("abd"), 3, 4));
    assert!(t != tok(ident("abc"), 3, 5));
    assert!(TokenKind::IntLiteral(1) != TokenKind::IntLiteral(2));
    assert!(TokenKind::Plus.same(&TokenKind::Plus));
    assert!(!TokenKind::Plus.same(&TokenKind::Minus));
}

#[test]
fn white_space_set_is_that_of_std() {
    for u in 0u32..=0x10FFFF {
        if let Some(c) = char::from_u32(u) {
            assert_eq!(char_is_white_space(c), c.is_whitespace(), "U+{:04X}", u);
        }
    }
}

#[test]
fn ascii_letters_and_digits_are_the_ascii_word_characters() {
    for u in 0u32..=0x7F {
        let c = char::from_u32(u).unwrap();
        assert_eq!(c.is_alphabetic(), c.is_ascii_alphabetic());
        assert_eq!(c.is_alphanumeric(), c.is_ascii_alphanumeric());
    }
}

fn kinds(src: &str) -> Option<Vec<TokenKind>> {
    tokenize(src).ok().map(|ts| ts.into_iter().map(|t| t.kind).collect())
}

#[test]
fn line_break_separates_tokens_like_a_space() {
    let pairs = [
        ("int x = 5", "y"),
        ("a+", "+b"),
        ("x.f(1,2", ") 3.5 \"s\" // c"),
        ("", "class"),
        ("x #", "y"),
        ("9223372036854775807", "1"),
    ];
    for (a, b) in pairs {
        assert_eq!(kinds(&format!("{} {}", a, b)), kinds(&format!("{}\n{}", a, b)));
    }
    assert_eq!(kinds("a b"), Some(vec![ident("a"), ident("b"), TokenKind::Eof]));
    let ts = tokenize("a\nb").unwrap();
    assert_eq!((ts[1].line, ts[1].col), (2, 1));
}

#[test]
fn unicode_white_space_separates_tokens() {
    let ts = tokenize("a\u{3000}b\u{a0}c").unwrap();
    let kinds: Vec<TokenKind> = ts.into_iter().map(|t| t.kind).collect();
    assert_eq!(kinds, vec![ident("a"), ident("b"), ident("c"), TokenKind::Eof]);
}
