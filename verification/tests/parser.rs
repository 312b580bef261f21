use j2bit::ast::{
    BinOp, ClassDecl, Expr, FieldDecl, MethodDecl, Param, Program, Stmt, Type, UnaryOp, Visibility,
};
use j2bit::front::{parse_source, SourceError};
use j2bit::lexer::{tokenize, LexError, Token, TokenKind};
use j2bit::parser::{parse, ParseError};

fn program(src: &str) -> Program {
    parse(tokenize(src).unwrap()).unwrap()
}

fn parse_error(src: &str) -> ParseError {
    parse(tokenize(src).unwrap()).unwrap_err()
}

/// The expression of the statement `return <expr>;` in `class C { int m() { ... } }`.
fn expr(src: &str) -> Expr {
    let p = program(&format!("class C {{ int m() {{ return {}; }} }}", src));
    let mut classes = p.classes;
    let mut methods = classes.remove(0).methods;
    let mut body = methods.remove(0).body;
    match body.remove(0) {
        Stmt::Return(Some(e)) => e,
        other => panic!("not a return: {:?}", other),
    }
}

/// The statements of the body of `class C { void m() { ... } }`.
fn stmts(src: &str) -> Vec<Stmt> {
    let p = program(&format!("class C {{ void m() {{ {} }} }}", src));
    let mut classes = p.classes;
    let mut methods = classes.remove(0).methods;
    methods.remove(0).body
}

fn id(s: &str) -> Expr {
    Expr::Ident(s.to_string())
}

fn lit(n: i64) -> Expr {
    Expr::IntLit(n)
}

fn bin(op: BinOp, l: Expr, r: Expr) -> Expr {
    Expr::BinOp { op, lhs: Box::new(l), rhs: Box::new(r) }
}

fn same<T: std::fmt::Debug>(a: &T, b: &T) {
    assert_eq!(format!("{:?}", a), format!("{:?}", b));
}

#[test]
fn class_with_field_and_method() {
    let p = program("public class Main {\n  private static int count = 0;\n  public void run(int a, String b) { return; }\n}");
    let expected = Program {
        classes: vec![ClassDecl {
            name: "Main".to_string(),
            methods: vec![MethodDecl {
                vis: Visibility::Public,
                is_static: false,
                return_ty: Type::Void,
                name: "run".to_string(),
                params: vec![
                    Param { ty: Type::Int, name: "a".to_string() },
                    Param { ty: Type::Str, name: "b".to_string() },
                ],
                body: vec![Stmt::Return(None)],
            }],
            fields: vec![FieldDecl {
                vis: Visibility::Private,
                is_static: true,
                ty: Type::Int,
                name: "count".to_string(),
                init: Some(lit(0)),
            }],
        }],
    };
    same(&p, &expected);
}

#[test]
fn empty_program_is_rejected() {
    // a program is one or more classes
    match parse_error("  // nothing\n") {
        ParseError::Expected { expected, got, line, col } => {
            assert_eq!(expected, TokenKind::Class);
            assert_eq!(got, TokenKind::Eof);
            assert_eq!((line, col), (2, 1));
        },
        other => panic!("{:?}", other),
    }
}

#[test]
fn several_classes_and_member_order() {
    let p = program("class A { int x; void f() {} int y; } class B {}");
    assert_eq!(p.classes.len(), 2);
    assert_eq!(p.classes[0].name, "A");
    assert_eq!(p.classes[1].name, "B");
    let names: Vec<&str> = p.classes[0].fields.iter().map(|f| f.name.as_str()).collect();
    assert_eq!(names, vec!["x", "y"]);
    assert_eq!(p.classes[0].methods[0].name, "f");
    assert_eq!(p.classes[0].fields[0].vis, Visibility::Public);
    assert!(p.classes[0].fields[0].init.is_none());
}

#[test]
fn array_and_class_types() {
    let p = program("class A { int[] xs; Point p; String[] names(Point[] ps) { return null; } }");
    let c = &p.classes[0];
    assert!(c.fields[0].ty == Type::Array(Box::new(Type::Int)));
    assert!(c.fields[1].ty == Type::Named("Point".to_string()));
    assert!(c.methods[0].return_ty == Type::Array(Box::new(Type::Str)));
    assert!(c.methods[0].params[0].ty == Type::Array(Box::new(Type::Named("Point".to_string()))));
    assert!(Type::Int != Type::Float);
}

#[test]
fn multiplication_binds_tighter_than_addition() {
    same(&expr("a + b * c"), &bin(BinOp::Add, id("a"), bin(BinOp::Mul, id("b"), id("c"))));
}

#[test]
fn subtraction_is_left_associative() {
    same(&expr("a - b - c"), &bin(BinOp::Sub, bin(BinOp::Sub, id("a"), id("b")), id("c")));
}

#[test]
fn division_and_modulo_are_left_associative() {
    same(&expr("a / b % c"), &bin(BinOp::Mod, bin(BinOp::Div, id("a"), id("b")), id("c")));
}

#[test]
fn logical_operators_and_comparisons() {
    same(
        &expr("a < 1 || b >= 2 && c != d"),
        &bin(
            BinOp::Or,
            bin(BinOp::Lt, id("a"), lit(1)),
            bin(BinOp::And, bin(BinOp::GtEq, id("b"), lit(2)), bin(BinOp::NotEq, id("c"), id("d"))),
        ),
    );
}

#[test]
fn comparison_does_not_chain() {
    // after `a < b` the parser expects `;`
    match parse_error("class C { int m() { return a < b < c; } }") {
        ParseError::Expected { expected, got, line, col } => {
            assert_eq!(expected, TokenKind::Semicolon);
            assert_eq!(got, TokenKind::Lt);
            assert_eq!((line, col), (1, 34));
        },
        other => panic!("{:?}", other),
    }
}

#[test]
fn assignment_is_right_associative() {
    let s = stmts("a = b = 1;");
    same(
        &s[0],
        &Stmt::Expr(Expr::Assign {
            target: Box::new(id("a")),
            value: Box::new(Expr::Assign { target: Box::new(id("b")), value: Box::new(lit(1)) }),
        }),
    );
}

#[test]
fn unary_operators() {
    same(
        &expr("-x + !y"),
        &bin(
            BinOp::Add,
            Expr::UnaryOp { op: UnaryOp::Neg, expr: Box::new(id("x")) },
            Expr::UnaryOp { op: UnaryOp::Not, expr: Box::new(id("y")) },
        ),
    );
}

#[test]
fn literals_and_parentheses() {
    same(
        &expr("(1.5 + 2) * \"s\""),
        &bin(
            BinOp::Mul,
            bin(BinOp::Add, Expr::FloatLit("1.5".to_string()), lit(2)),
            Expr::StrLit("s".to_string()),
        ),
    );
    same(&expr("true"), &Expr::BoolLit(true));
}

#[test]
fn static_call_method_call_and_field_access() {
    same(
        &expr("Math.max(a, 2).value.get()"),
        &Expr::MethodCall {
            object: Box::new(Expr::FieldAccess {
                object: Box::new(Expr::StaticCall {
                    class: "Math".to_string(),
                    method: "max".to_string(),
                    args: vec![id("a"), lit(2)],
                }),
                field: "value".to_string(),
            }),
            method: "get".to_string(),
            args: vec![],
        },
    );
}

#[test]
fn field_access_on_a_name_is_not_a_static_call() {
    same(&expr("p.x"), &Expr::FieldAccess { object: Box::new(id("p")), field: "x".to_string() });
}

#[test]
fn new_object() {
    same(
        &expr("new Point(1, y)"),
        &Expr::New { class: "Point".to_string(), args: vec![lit(1), id("y")] },
    );
}

#[test]
fn statements() {
    let s = stmts(
        "int x = 1; String t; if (x > 0) { x = x - 1; } else { return; } while (x < 10) { x = x + 1; } obj.run();",
    );
    let expected = vec![
        Stmt::VarDecl { ty: Type::Int, name: "x".to_string(), init: Some(lit(1)) },
        Stmt::VarDecl { ty: Type::Str, name: "t".to_string(), init: None },
        Stmt::If {
            cond: bin(BinOp::Gt, id("x"), lit(0)),
            then_body: vec![Stmt::Expr(Expr::Assign {
                target: Box::new(id("x")),
                value: Box::new(bin(BinOp::Sub, id("x"), lit(1))),
            })],
            else_body: Some(vec![Stmt::Return(None)]),
        },
        Stmt::While {
            cond: bin(BinOp::Lt, id("x"), lit(10)),
            body: vec![Stmt::Expr(Expr::Assign {
                target: Box::new(id("x")),
                value: Box::new(bin(BinOp::Add, id("x"), lit(1))),
            })],
        },
        Stmt::Expr(Expr::StaticCall {
            class: "obj".to_string(),
            method: "run".to_string(),
            args: vec![],
        }),
    ];
    same(&s, &expected);
}

#[test]
fn if_without_else_and_return_value() {
    let s = stmts("if (a) { return b; }");
    same(
        &s,
        &vec![Stmt::If {
            cond: id("a"),
            then_body: vec![Stmt::Return(Some(id("b")))],
            else_body: None,
        }],
    );
}

#[test]
fn call_without_object_is_rejected() {
    match parse_error("class C { void m() { foo(); } }") {
        ParseError::Expected { expected, got, line, col } => {
            assert_eq!(expected, TokenKind::Semicolon);
            assert_eq!(got, TokenKind::LParen);
            assert_eq!((line, col), (1, 25));
        },
        other => panic!("{:?}", other),
    }
}

#[test]
fn missing_class_keyword() {
    match parse_error("public int x;") {
        ParseError::Expected { expected, got, line, col } => {
            assert_eq!(expected, TokenKind::Class);
            assert_eq!(got, TokenKind::Int);
            assert_eq!((line, col), (1, 8));
        },
        other => panic!("{:?}", other),
    }
}

#[test]
fn missing_identifier() {
    match parse_error("class 5 {}") {
        ParseError::ExpectedIdent { got, line, col } => {
            assert_eq!(got, TokenKind::IntLiteral(5));
            assert_eq!((line, col), (1, 7));
        },
        other => panic!("{:?}", other),
    }
}

#[test]
fn missing_type() {
    match parse_error("class C {\n  static + x;\n}") {
        ParseError::ExpectedType { got, line } => {
            assert_eq!(got, TokenKind::Plus);
            assert_eq!(line, 2);
        },
        other => panic!("{:?}", other),
    }
}

#[test]
fn unexpected_token_in_expression() {
    match parse_error("class C { int x = ; }") {
        ParseError::UnexpectedToken { got, line, col } => {
            assert_eq!(got, TokenKind::Semicolon);
            assert_eq!((line, col), (1, 19));
        },
        other => panic!("{:?}", other),
    }
}

#[test]
fn unclosed_class_reaches_end() {
    match parse_error("class C { int x;") {
        ParseError::Expected { expected, got, .. } => {
            assert_eq!(expected, TokenKind::RBrace);
            assert_eq!(got, TokenKind::Eof);
        },
        other => panic!("{:?}", other),
    }
}

#[test]
fn for_loop_is_not_a_statement() {
    match parse_error("class C { void m() { for (;;) {} } }") {
        ParseError::UnexpectedToken { got, .. } => assert_eq!(got, TokenKind::For),
        other => panic!("{:?}", other),
    }
}

#[test]
fn parse_takes_any_tokens_ending_with_eof() {
    let tokens = vec![
        Token { kind: TokenKind::Class, line: 7, col: 7 },
        Token { kind: TokenKind::Ident("K".to_string()), line: 7, col: 9 },
        Token { kind: TokenKind::LBrace, line: 7, col: 11 },
        Token { kind: TokenKind::RBrace, line: 7, col: 12 },
        Token { kind: TokenKind::Eof, line: 7, col: 13 },
    ];
    let p = parse(tokens).unwrap();
    assert_eq!(p.classes.len(), 1);
    assert_eq!(p.classes[0].name, "K");
}

#[test]
fn source_to_program() {
    let p = parse_source("class A { int f(int x) { return x * 2; } }").unwrap();
    assert_eq!(p.classes[0].methods[0].params.len(), 1);
    match parse_source("class A { # }") {
        Err(SourceError::Lex(e)) => {
            assert_eq!(e, LexError::UnexpectedChar { ch: '#', line: 1, col: 11 })
        },
        other => panic!("{:?}", other),
    }
    match parse_source("class A {") {
        Err(SourceError::Parse(ParseError::Expected { expected, .. })) => {
            assert_eq!(expected, TokenKind::RBrace)
        },
        other => panic!("{:?}", other),
    }
}

#[test]
fn trailing_tokens_after_classes_are_rejected() {
    match parse_error("class A {} }") {
        ParseError::Expected { expected, got, line, col } => {
            assert_eq!(expected, TokenKind::Class);
            assert_eq!(got, TokenKind::RBrace);
            assert_eq!((line, col), (1, 12));
        },
        other => panic!("{:?}", other),
    }
}

#[test]
fn syntax_trees_clone_to_equal_trees() {
    let p = program(
        "class A { int[] xs = new B(1, \"s\"); void f(C c) { if (a.b(c) == -d) { x = y; } else { while (z) { return; } } } }",
    );
    let q = p.clone();
    same(&p, &q);
    let e = expr("A.f(x.g(1), !y) * 2.5");
    same(&e, &e.clone());
    let t = Type::Array(Box::new(Type::Named("P".to_string())));
    assert!(t.clone() == t);
}
