//! The syntax tree of a program, and its mathematical model (texts become
//! character sequences, vectors become sequences).
use vstd::prelude::*;

verus! {

/// A program: one or more classes.
#[derive(Debug)]
pub struct Program {
    pub classes: Vec<ClassDecl>,
}

#[derive(Debug)]
pub struct ClassDecl {
    pub name: String,
    pub methods: Vec<MethodDecl>,
    pub fields: Vec<FieldDecl>,
}

#[derive(Debug)]
pub struct FieldDecl {
    pub vis: Visibility,
    pub is_static: bool,
    pub ty: Type,
    pub name: String,
    pub init: Option<Expr>,
}

#[derive(Debug)]
pub struct MethodDecl {
    pub vis: Visibility,
    pub is_static: bool,
    pub return_ty: Type,
    pub name: String,
    pub params: Vec<Param>,
    pub body: Vec<Stmt>,
}

#[derive(Debug)]
pub struct Param {
    pub ty: Type,
    pub name: String,
}

#[derive(Debug, Clone, Copy, PartialEq, Eq, Structural)]
pub enum Visibility {
    Public,
    Private,
}

/// The types of the language.
#[derive(Debug)]
pub enum Type {
    Void,
    Int,
    Float,
    Bool,
    Str,
    Array(Box<Type>),
    /// a class of the program
    Named(String),
}

/// Expressions. A float literal keeps the text it was written with.
#[derive(Debug)]
pub enum Expr {
    IntLit(i64),
    FloatLit(String),
    StrLit(String),
    BoolLit(bool),
    Ident(String),
    /// `object.field`
    FieldAccess { object: Box<Expr>, field: String },
    /// `object.method(args)`
    MethodCall { object: Box<Expr>, method: String, args: Vec<Expr> },
    /// `ClassName.method(args)`
    StaticCall { class: String, method: String, args: Vec<Expr> },
    /// `new ClassName(args)`
    New { class: String, args: Vec<Expr> },
    BinOp { op: BinOp, lhs: Box<Expr>, rhs: Box<Expr> },
    UnaryOp { op: UnaryOp, expr: Box<Expr> },
    Assign { target: Box<Expr>, value: Box<Expr> },
}

#[derive(Debug, Clone, Copy, PartialEq, Eq, Structural)]
pub enum BinOp {
    Add,
    Sub,
    Mul,
    Div,
    Mod,
    Eq,
    NotEq,
    Lt,
    LtEq,
    Gt,
    GtEq,
    And,
    Or,
}

#[derive(Debug, Clone, Copy, PartialEq, Eq, Structural)]
pub enum UnaryOp {
    Neg,
    Not,
}

/// Statements.
#[derive(Debug)]
pub enum Stmt {
    /// A local variable declaration: `int x = 5;`
    VarDecl { ty: Type, name: String, init: Option<Expr> },
    Expr(Expr),
    Return(Option<Expr>),
    If { cond: Expr, then_body: Vec<Stmt>, else_body: Option<Vec<Stmt>> },
    While { cond: Expr, body: Vec<Stmt> },
    For {
        init: Option<Box<Stmt>>,
        cond: Option<Expr>,
        update: Option<Expr>,
        body: Vec<Stmt>,
    },
}

// ---------------------------------------------------------------------------
// The model
// ---------------------------------------------------------------------------

pub enum SpecType {
    Void,
    Int,
    Float,
    Bool,
    Str,
    Array(Box<SpecType>),
    Named(Seq<char>),
}

pub enum SpecExpr {
    IntLit(i64),
    FloatLit(Seq<char>),
    StrLit(Seq<char>),
    BoolLit(bool),
    Ident(Seq<char>),
    FieldAccess { object: Box<SpecExpr>, field: Seq<char> },
    MethodCall { object: Box<SpecExpr>, method: Seq<char>, args: Seq<SpecExpr> },
    StaticCall { class: Seq<char>, method: Seq<char>, args: Seq<SpecExpr> },
    New { class: Seq<char>, args: Seq<SpecExpr> },
    BinOp { op: BinOp, lhs: Box<SpecExpr>, rhs: Box<SpecExpr> },
    UnaryOp { op: UnaryOp, expr: Box<SpecExpr> },
    Assign { target: Box<SpecExpr>, value: Box<SpecExpr> },
}

pub enum SpecStmt {
    VarDecl { ty: SpecType, name: Seq<char>, init: Option<SpecExpr> },
    Expr(SpecExpr),
    Return(Option<SpecExpr>),
    If { cond: SpecExpr, then_body: Seq<SpecStmt>, else_body: Option<Seq<SpecStmt>> },
    While { cond: SpecExpr, body: Seq<SpecStmt> },
    For {
        init: Option<Box<SpecStmt>>,
        cond: Option<SpecExpr>,
        update: Option<SpecExpr>,
        body: Seq<SpecStmt>,
    },
}

pub struct SpecParam {
    pub ty: SpecType,
    pub name: Seq<char>,
}

pub struct SpecField {
    pub vis: Visibility,
    pub is_static: bool,
    pub ty: SpecType,
    pub name: Seq<char>,
    pub init: Option<SpecExpr>,
}

pub struct SpecMethod {
    pub vis: Visibility,
    pub is_static: bool,
    pub return_ty: SpecType,
    pub name: Seq<char>,
    pub params: Seq<SpecParam>,
    pub body: Seq<SpecStmt>,
}

pub struct SpecClass {
    pub name: Seq<char>,
    pub methods: Seq<SpecMethod>,
    pub fields: Seq<SpecField>,
}

pub struct SpecProgram {
    pub classes: Seq<SpecClass>,
}

pub open spec fn type_view(t: Type) -> SpecType
    decreases t,
{
    match t {
        Type::Void => SpecType::Void,
        Type::Int => SpecType::Int,
        Type::Float => SpecType::Float,
        Type::Bool => SpecType::Bool,
        Type::Str => SpecType::Str,
        Type::Array(b) => SpecType::Array(Box::new(type_view(*b))),
        Type::Named(n) => SpecType::Named(n@),
    }
}

pub open spec fn expr_view(e: Expr) -> SpecExpr
    decreases e,
{
    match e {
        Expr::IntLit(n) => SpecExpr::IntLit(n),
        Expr::FloatLit(s) => SpecExpr::FloatLit(s@),
        Expr::StrLit(s) => SpecExpr::StrLit(s@),
        Expr::BoolLit(b) => SpecExpr::BoolLit(b),
        Expr::Ident(s) => SpecExpr::Ident(s@),
        Expr::FieldAccess { object, field } => SpecExpr::FieldAccess {
            object: Box::new(expr_view(*object)),
            field: field@,
        },
        Expr::MethodCall { object, method, args } => SpecExpr::MethodCall {
            object: Box::new(expr_view(*object)),
            method: method@,
            args: exprs_view(args@),
        },
        Expr::StaticCall { class, method, args } => SpecExpr::StaticCall {
            class: class@,
            method: method@,
            args: exprs_view(args@),
        },
        Expr::New { class, args } => SpecExpr::New { class: class@, args: exprs_view(args@) },
        Expr::BinOp { op, lhs, rhs } => SpecExpr::BinOp {
            op,
            lhs: Box::new(expr_view(*lhs)),
            rhs: Box::new(expr_view(*rhs)),
        },
        Expr::UnaryOp { op, expr } => SpecExpr::UnaryOp { op, expr: Box::new(expr_view(*expr)) },
        Expr::Assign { target, value } => SpecExpr::Assign {
            target: Box::new(expr_view(*target)),
            value: Box::new(expr_view(*value)),
        },
    }
}

pub open spec fn exprs_view(es: Seq<Expr>) -> Seq<SpecExpr>
    decreases es,
{
    if es.len() == 0 {
        seq![]
    } else {
        exprs_view(es.drop_last()).push(expr_view(es.last()))
    }
}

pub open spec fn opt_expr_view(e: Option<Expr>) -> Option<SpecExpr> {
    match e {
        Some(e) => Some(expr_view(e)),
        None => None,
    }
}

pub open spec fn stmt_view(s: Stmt) -> SpecStmt
    decreases s,
{
    match s {
        Stmt::VarDecl { ty, name, init } => SpecStmt::VarDecl {
            ty: type_view(ty),
            name: name@,
            init: opt_expr_view(init),
        },
        Stmt::Expr(e) => SpecStmt::Expr(expr_view(e)),
        Stmt::Return(e) => SpecStmt::Return(opt_expr_view(e)),
        Stmt::If { cond, then_body, else_body } => SpecStmt::If {
            cond: expr_view(cond),
            then_body: stmts_view(then_body@),
            else_body: match else_body {
                Some(b) => Some(stmts_view(b@)),
                None => None,
            },
        },
        Stmt::While { cond, body } => SpecStmt::While {
            cond: expr_view(cond),
            body: stmts_view(body@),
        },
        Stmt::For { init, cond, update, body } => SpecStmt::For {
            init: match init {
                Some(b) => Some(Box::new(stmt_view(*b))),
                None => None,
            },
            cond: opt_expr_view(cond),
            update: opt_expr_view(update),
            body: stmts_view(body@),
        },
    }
}

pub open spec fn stmts_view(ss: Seq<Stmt>) -> Seq<SpecStmt>
    decreases ss,
{
    if ss.len() == 0 {
        seq![]
    } else {
        stmts_view(ss.drop_last()).push(stmt_view(ss.last()))
    }
}

impl View for Type {
    type V = SpecType;

    open spec fn view(&self) -> SpecType {
        type_view(*self)
    }
}

impl View for Expr {
    type V = SpecExpr;

    open spec fn view(&self) -> SpecExpr {
        expr_view(*self)
    }
}

impl View for Stmt {
    type V = SpecStmt;

    open spec fn view(&self) -> SpecStmt {
        stmt_view(*self)
    }
}

impl View for Param {
    type V = SpecParam;

    open spec fn view(&self) -> SpecParam {
        SpecParam { ty: self.ty@, name: self.name@ }
    }
}

impl View for FieldDecl {
    type V = SpecField;

    open spec fn view(&self) -> SpecField {
        SpecField {
            vis: self.vis,
            is_static: self.is_static,
            ty: self.ty@,
            name: self.name@,
            init: opt_expr_view(self.init),
        }
    }
}

impl View for MethodDecl {
    type V = SpecMethod;

    open spec fn view(&self) -> SpecMethod {
        SpecMethod {
            vis: self.vis,
            is_static: self.is_static,
            return_ty: self.return_ty@,
            name: self.name@,
            params: self.params@.map_values(|p: Param| p@),
            body: stmts_view(self.body@),
        }
    }
}

impl View for ClassDecl {
    type V = SpecClass;

    open spec fn view(&self) -> SpecClass {
        SpecClass {
            name: self.name@,
            methods: self.methods@.map_values(|m: MethodDecl| m@),
            fields: self.fields@.map_values(|f: FieldDecl| f@),
        }
    }
}

impl View for Program {
    type V = SpecProgram;

    open spec fn view(&self) -> SpecProgram {
        SpecProgram { classes: self.classes@.map_values(|c: ClassDecl| c@) }
    }
}

impl Type {
    /// Whether two types are the same type.
    pub fn same(&self, other: &Type) -> (r: bool)
        ensures
            r == (self@ == other@),
        decreases self,
    {
        match (self, other) {
            (Type::Void, Type::Void) => true,
            (Type::Int, Type::Int) => true,
            (Type::Float, Type::Float) => true,
            (Type::Bool, Type::Bool) => true,
            (Type::Str, Type::Str) => true,
            (Type::Array(a), Type::Array(b)) => (**a).same(&**b),
            (Type::Named(a), Type::Named(b)) => a.eq(b),
            _ => false,
        }
    }
}

impl PartialEq for Type {
    fn eq(&self, other: &Self) -> (r: bool) {
        self.same(other)
    }
}

impl vstd::std_specs::cmp::PartialEqSpecImpl for Type {
    open spec fn obeys_eq_spec() -> bool {
        true
    }

    open spec fn eq_spec(&self, other: &Type) -> bool {
        self@ == other@
    }
}

impl Clone for Type {
    fn clone(&self) -> (r: Self)
        ensures
            r@ == self@,
        decreases self,
    {
        match self {
            Type::Void => Type::Void,
            Type::Int => Type::Int,
            Type::Float => Type::Float,
            Type::Bool => Type::Bool,
            Type::Str => Type::Str,
            Type::Array(t) => Type::Array(Box::new((**t).clone())),
            Type::Named(n) => Type::Named(n.clone()),
        }
    }
}

/// Sequences of expressions with the same models have the same model.
pub proof fn lemma_exprs_view_pointwise(a: Seq<Expr>, b: Seq<Expr>)
    requires
        a.len() == b.len(),
        forall|i: int| 0 <= i < a.len() ==> (#[trigger] b[i])@ == a[i]@,
    ensures
        exprs_view(a) == exprs_view(b),
    decreases a.len(),
{
    if a.len() > 0 {
        lemma_exprs_view_pointwise(a.drop_last(), b.drop_last());
    }
}

/// Sequences of statements with the same models have the same model.
pub proof fn lemma_stmts_view_pointwise(a: Seq<Stmt>, b: Seq<Stmt>)
    requires
        a.len() == b.len(),
        forall|i: int| 0 <= i < a.len() ==> (#[trigger] b[i])@ == a[i]@,
    ensures
        stmts_view(a) == stmts_view(b),
    decreases a.len(),
{
    if a.len() > 0 {
        lemma_stmts_view_pointwise(a.drop_last(), b.drop_last());
    }
}

fn clone_exprs(v: &Vec<Expr>) -> (r: Vec<Expr>)
    ensures
        exprs_view(r@) == exprs_view(v@),
    decreases v,
{
    let mut r: Vec<Expr> = Vec::new();
    let mut i: usize = 0;
    while i < v.len()
        invariant
            i <= v.len(),
            r.len() == i,
            forall|k: int| 0 <= k < i ==> (#[trigger] r@[k])@ == v@[k]@,
        decreases v.len() - i,
    {
        proof {
            assert(decreases_to!(v => v@[i as int]));
        }
        r.push(v[i].clone());
        i += 1;
    }
    proof {
        lemma_exprs_view_pointwise(v@, r@);
    }
    r
}

fn clone_stmts(v: &Vec<Stmt>) -> (r: Vec<Stmt>)
    ensures
        stmts_view(r@) == stmts_view(v@),
    decreases v,
{
    let mut r: Vec<Stmt> = Vec::new();
    let mut i: usize = 0;
    while i < v.len()
        invariant
            i <= v.len(),
            r.len() == i,
            forall|k: int| 0 <= k < i ==> (#[trigger] r@[k])@ == v@[k]@,
        decreases v.len() - i,
    {
        proof {
            assert(decreases_to!(v => v@[i as int]));
        }
        r.push(v[i].clone());
        i += 1;
    }
    proof {
        lemma_stmts_view_pointwise(v@, r@);
    }
    r
}

fn clone_opt_expr(e: &Option<Expr>) -> (r: Option<Expr>)
    ensures
        opt_expr_view(r) == opt_expr_view(*e),
{
    match e {
        Some(e) => Some(e.clone()),
        None => None,
    }
}

impl Clone for Expr {
    fn clone(&self) -> (r: Self)
        ensures
            r@ == self@,
        decreases self,
    {
        match self {
            Expr::IntLit(n) => Expr::IntLit(*n),
            Expr::FloatLit(s) => Expr::FloatLit(s.clone()),
            Expr::StrLit(s) => Expr::StrLit(s.clone()),
            Expr::BoolLit(b) => Expr::BoolLit(*b),
            Expr::Ident(s) => Expr::Ident(s.clone()),
            Expr::FieldAccess { object, field } => Expr::FieldAccess {
                object: Box::new((**object).clone()),
                field: field.clone(),
            },
            Expr::MethodCall { object, method, args } => Expr::MethodCall {
                object: Box::new((**object).clone()),
                method: method.clone(),
                args: clone_exprs(args),
            },
            Expr::StaticCall { class, method, args } => Expr::StaticCall {
                class: class.clone(),
                method: method.clone(),
                args: clone_exprs(args),
            },
            Expr::New { class, args } => Expr::New { class: class.clone(), args: clone_exprs(args) },
            Expr::BinOp { op, lhs, rhs } => Expr::BinOp {
                op: *op,
                lhs: Box::new((**lhs).clone()),
                rhs: Box::new((**rhs).clone()),
            },
            Expr::UnaryOp { op, expr } => Expr::UnaryOp {
                op: *op,
                expr: Box::new((**expr).clone()),
            },
            Expr::Assign { target, value } => Expr::Assign {
                target: Box::new((**target).clone()),
                value: Box::new((**value).clone()),
            },
        }
    }
}

impl Clone for Stmt {
    fn clone(&self) -> (r: Self)
        ensures
            r@ == self@,
        decreases self,
    {
        match self {
            Stmt::VarDecl { ty, name, init } => Stmt::VarDecl {
                ty: ty.clone(),
                name: name.clone(),
                init: clone_opt_expr(init),
            },
            Stmt::Expr(e) => Stmt::Expr(e.clone()),
            Stmt::Return(e) => Stmt::Return(clone_opt_expr(e)),
            Stmt::If { cond, then_body, else_body } => Stmt::If {
                cond: cond.clone(),
                then_body: clone_stmts(then_body),
                else_body: match else_body {
                    Some(b) => Some(clone_stmts(b)),
                    None => None,
                },
            },
            Stmt::While { cond, body } => Stmt::While { cond: cond.clone(), body: clone_stmts(body) },
            Stmt::For { init, cond, update, body } => Stmt::For {
                init: match init {
                    Some(s) => Some(Box::new((**s).clone())),
                    None => None,
                },
                cond: clone_opt_expr(cond),
                update: clone_opt_expr(update),
                body: clone_stmts(body),
            },
        }
    }
}

impl Clone for Param {
    fn clone(&self) -> (r: Self)
        ensures
            r@ == self@,
    {
        Param { ty: self.ty.clone(), name: self.name.clone() }
    }
}

impl Clone for FieldDecl {
    fn clone(&self) -> (r: Self)
        ensures
            r@ == self@,
    {
        FieldDecl {
            vis: self.vis,
            is_static: self.is_static,
            ty: self.ty.clone(),
            name: self.name.clone(),
            init: clone_opt_expr(&self.init),
        }
    }
}

impl Clone for MethodDecl {
    fn clone(&self) -> (r: Self)
        ensures
            r@ == self@,
    {
        let params = self.params.clone();
        proof {
            assert(params@.map_values(|p: Param| p@) =~= self.params@.map_values(|p: Param| p@)) by {
                assert forall|i: int| 0 <= i < params@.len() implies params@[i]@ == self.params@[i]@ by {
                    assert(cloned::<Param>(self.params[i], params[i]));
                }
            }
        }
        MethodDecl {
            vis: self.vis,
            is_static: self.is_static,
            return_ty: self.return_ty.clone(),
            name: self.name.clone(),
            params,
            body: clone_stmts(&self.body),
        }
    }
}

impl Clone for ClassDecl {
    fn clone(&self) -> (r: Self)
        ensures
            r@ == self@,
    {
        let methods = self.methods.clone();
        let fields = self.fields.clone();
        proof {
            assert(methods@.map_values(|m: MethodDecl| m@) =~= self.methods@.map_values(|m: MethodDecl| m@)) by {
                assert forall|i: int| 0 <= i < methods@.len() implies methods@[i]@ == self.methods@[i]@ by {
                    assert(cloned::<MethodDecl>(self.methods[i], methods[i]));
                }
            }
            assert(fields@.map_values(|f: FieldDecl| f@) =~= self.fields@.map_values(|f: FieldDecl| f@)) by {
                assert forall|i: int| 0 <= i < fields@.len() implies fields@[i]@ == self.fields@[i]@ by {
                    assert(cloned::<FieldDecl>(self.fields[i], fields[i]));
                }
            }
        }
        ClassDecl { name: self.name.clone(), methods, fields }
    }
}

impl Clone for Program {
    fn clone(&self) -> (r: Self)
        ensures
            r@ == self@,
    {
        let classes = self.classes.clone();
        proof {
            assert(classes@.map_values(|c: ClassDecl| c@) =~= self.classes@.map_values(|c: ClassDecl| c@)) by {
                assert forall|i: int| 0 <= i < classes@.len() implies classes@[i]@ == self.classes@[i]@ by {
                    assert(cloned::<ClassDecl>(self.classes[i], classes[i]));
                }
            }
        }
        Program { classes }
    }
}

} // verus!
