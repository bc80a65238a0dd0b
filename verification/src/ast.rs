//! The syntax tree, and its mathematical view.
//!
//! Every node type has a view in which strings are character sequences and
//! vectors are sequences; contracts of the parser and the later passes speak
//! of these views.

use vstd::prelude::*;
use crate::source::Span;

verus! {

#[derive(Debug, Clone)]
pub struct Module {
    pub body: Vec<Statement>,
    pub span: Span,
}

#[derive(Debug)]
pub enum Statement {
    Let(LetBinding),
    Assign(Assignment),
    FuncDef(FuncDef),
    DataDecl(DataDecl),
    If(IfStmt),
    Return(ReturnStmt),
    Expr(ExprStmt),
    TypeclassDecl(TypeclassDecl),
    Impl(ImplBlock),
    For(ForStmt),
    While(WhileStmt),
    Import(ImportStmt),
}

#[derive(Debug, Clone)]
pub struct LetBinding {
    pub name: String,
    pub type_annotation: Option<TypeExpr>,
    pub value: Expr,
    pub mutable: bool,
    pub span: Span,
}

#[derive(Debug, Clone)]
pub struct Assignment {
    pub target: Expr,
    pub value: Expr,
    pub span: Span,
}

#[derive(Debug, Clone)]
pub struct FuncDef {
    pub name: String,
    pub type_params: Vec<TypeParamDef>,
    pub params: Vec<Param>,
    pub return_type: Option<TypeExpr>,
    pub body: Vec<Statement>,
    pub span: Span,
}

#[derive(Debug, Clone)]
pub struct TypeParamDef {
    pub name: String,
    pub constraints: Vec<String>,
    pub span: Span,
}

#[derive(Debug, Clone)]
pub struct Param {
    pub name: String,
    pub type_annotation: Option<TypeExpr>,
    pub span: Span,
}

#[derive(Debug, Clone)]
pub struct DataDecl {
    pub name: String,
    pub type_params: Vec<String>,
    pub fields: Vec<FieldDecl>,
    pub methods: Vec<FuncDef>,
    pub span: Span,
}

#[derive(Debug, Clone)]
pub struct FieldDecl {
    pub name: String,
    pub type_annotation: TypeExpr,
    pub span: Span,
}

#[derive(Debug, Clone)]
pub struct IfStmt {
    pub condition: Expr,
    pub then_body: Vec<Statement>,
    pub elif_clauses: Vec<(Expr, Vec<Statement>)>,
    pub else_body: Option<Vec<Statement>>,
    pub span: Span,
}

#[derive(Debug, Clone)]
pub struct ReturnStmt {
    pub value: Option<Expr>,
    pub span: Span,
}

#[derive(Debug, Clone)]
pub struct ExprStmt {
    pub expr: Expr,
    pub span: Span,
}

#[derive(Debug, Clone)]
pub struct TypeclassDecl {
    pub name: String,
    pub type_params: Vec<String>,
    pub methods: Vec<MethodSig>,
    pub span: Span,
}

#[derive(Debug, Clone)]
pub struct MethodSig {
    pub name: String,
    pub params: Vec<Param>,
    pub return_type: TypeExpr,
    pub span: Span,
}

#[derive(Debug, Clone)]
pub struct ImplBlock {
    pub kind: ImplKind,
    pub methods: Vec<FuncDef>,
    pub span: Span,
}

#[derive(Debug, Clone)]
pub enum ImplKind {
    Inherent { target_type: String },
    Instance { typeclass_name: String, type_args: Vec<TypeExpr> },
}

#[derive(Debug, Clone)]
pub struct ForStmt {
    pub var_name: String,
    pub iterable: Expr,
    pub body: Vec<Statement>,
    pub span: Span,
}

#[derive(Debug, Clone)]
pub struct WhileStmt {
    pub condition: Expr,
    pub body: Vec<Statement>,
    pub span: Span,
}

#[derive(Debug, Clone)]
pub struct ImportStmt {
    pub kind: ImportKind,
    pub span: Span,
}

#[derive(Debug, Clone)]
pub enum ImportKind {
    Simple { path: Vec<String>, alias: Option<String> },
    From { path: Vec<String>, names: Vec<ImportName> },
}

#[derive(Debug, Clone)]
pub struct ImportName {
    pub name: String,
    pub alias: Option<String>,
}

/// An expression. A float literal keeps the text it was written with.
#[derive(Debug)]
pub enum Expr {
    IntLiteral(i64, Span),
    FloatLiteral(String, Span),
    StringLiteral(String, Span),
    BoolLiteral(bool, Span),
    NoneLiteral(Span),
    Name(String, Span),
    BinOp(Box<BinOpExpr>),
    UnaryOp(Box<UnaryOpExpr>),
    Call(Box<CallExpr>),
    Attr(Box<AttrExpr>),
    ListLiteral(Vec<Expr>, Span),
    Index(Box<IndexExpr>),
}

#[derive(Debug, Clone)]
pub struct IndexExpr {
    pub object: Expr,
    pub index: Expr,
    pub span: Span,
}

#[derive(Debug, Clone)]
pub struct BinOpExpr {
    pub left: Expr,
    pub op: BinOp,
    pub right: Expr,
    pub span: Span,
}

#[derive(Debug, Clone, Copy, PartialEq, Eq, Structural)]
pub enum BinOp {
    Add,
    Sub,
    Mul,
    Div,
    Eq,
    NotEq,
    Lt,
    Gt,
    LtEq,
    GtEq,
    And,
    Or,
}

#[derive(Debug, Clone)]
pub struct UnaryOpExpr {
    pub op: UnaryOp,
    pub operand: Expr,
    pub span: Span,
}

#[derive(Debug, Clone, Copy, PartialEq, Eq, Structural)]
pub enum UnaryOp {
    Neg,
    Not,
}

#[derive(Debug, Clone)]
pub struct CallExpr {
    pub callee: Expr,
    pub args: Vec<Expr>,
    pub span: Span,
}

#[derive(Debug, Clone)]
pub struct AttrExpr {
    pub object: Expr,
    pub attr: String,
    pub span: Span,
}

#[derive(Debug)]
pub enum TypeExpr {
    Named(String, Span),
    Parameterized(String, Vec<TypeExpr>, Span),
    Function(Vec<TypeExpr>, Box<TypeExpr>, Span),
}

// ---------------------------------------------------------------------------
// Views
// ---------------------------------------------------------------------------

pub enum ExprV {
    IntLiteral(i64, Span),
    FloatLiteral(Seq<char>, Span),
    StringLiteral(Seq<char>, Span),
    BoolLiteral(bool, Span),
    NoneLiteral(Span),
    Name(Seq<char>, Span),
    BinOp(Box<ExprV>, BinOp, Box<ExprV>, Span),
    UnaryOp(UnaryOp, Box<ExprV>, Span),
    Call(Box<ExprV>, Seq<ExprV>, Span),
    Attr(Box<ExprV>, Seq<char>, Span),
    ListLiteral(Seq<ExprV>, Span),
    Index(Box<ExprV>, Box<ExprV>, Span),
}

pub enum TypeExprV {
    Named(Seq<char>, Span),
    Parameterized(Seq<char>, Seq<TypeExprV>, Span),
    Function(Seq<TypeExprV>, Box<TypeExprV>, Span),
}

pub struct ParamV {
    pub name: Seq<char>,
    pub type_annotation: Option<TypeExprV>,
    pub span: Span,
}

pub struct TypeParamDefV {
    pub name: Seq<char>,
    pub constraints: Seq<Seq<char>>,
    pub span: Span,
}

pub struct FieldDeclV {
    pub name: Seq<char>,
    pub type_annotation: TypeExprV,
    pub span: Span,
}

pub struct MethodSigV {
    pub name: Seq<char>,
    pub params: Seq<ParamV>,
    pub return_type: TypeExprV,
    pub span: Span,
}

pub struct ImportNameV {
    pub name: Seq<char>,
    pub alias: Option<Seq<char>>,
}

pub enum ImportKindV {
    Simple { path: Seq<Seq<char>>, alias: Option<Seq<char>> },
    From { path: Seq<Seq<char>>, names: Seq<ImportNameV> },
}

pub enum ImplKindV {
    Inherent { target_type: Seq<char> },
    Instance { typeclass_name: Seq<char>, type_args: Seq<TypeExprV> },
}

pub struct FuncDefV {
    pub name: Seq<char>,
    pub type_params: Seq<TypeParamDefV>,
    pub params: Seq<ParamV>,
    pub return_type: Option<TypeExprV>,
    pub body: Seq<StatementV>,
    pub span: Span,
}

pub enum StatementV {
    Let { name: Seq<char>, type_annotation: Option<TypeExprV>, value: ExprV, mutable: bool, span: Span },
    Assign { target: ExprV, value: ExprV, span: Span },
    FuncDef(FuncDefV),
    DataDecl { name: Seq<char>, type_params: Seq<Seq<char>>, fields: Seq<FieldDeclV>, methods: Seq<FuncDefV>, span: Span },
    If { condition: ExprV, then_body: Seq<StatementV>, elif_clauses: Seq<(ExprV, Seq<StatementV>)>, else_body: Option<Seq<StatementV>>, span: Span },
    Return { value: Option<ExprV>, span: Span },
    Expr { expr: ExprV, span: Span },
    TypeclassDecl { name: Seq<char>, type_params: Seq<Seq<char>>, methods: Seq<MethodSigV>, span: Span },
    Impl { kind: ImplKindV, methods: Seq<FuncDefV>, span: Span },
    For { var_name: Seq<char>, iterable: ExprV, body: Seq<StatementV>, span: Span },
    While { condition: ExprV, body: Seq<StatementV>, span: Span },
    Import { kind: ImportKindV, span: Span },
}

pub struct ModuleV {
    pub body: Seq<StatementV>,
    pub span: Span,
}

pub open spec fn strs_v(s: Seq<String>) -> Seq<Seq<char>> {
    Seq::new(s.len(), |i: int| s[i]@)
}

pub open spec fn opt_str_v(o: Option<String>) -> Option<Seq<char>> {
    match o {
        Some(s) => Some(s@),
        None => None,
    }
}

pub open spec fn expr_v(e: Expr) -> ExprV
    decreases e,
{
    match e {
        Expr::IntLiteral(v, s) => ExprV::IntLiteral(v, s),
        Expr::FloatLiteral(t, s) => ExprV::FloatLiteral(t@, s),
        Expr::StringLiteral(t, s) => ExprV::StringLiteral(t@, s),
        Expr::BoolLiteral(b, s) => ExprV::BoolLiteral(b, s),
        Expr::NoneLiteral(s) => ExprV::NoneLiteral(s),
        Expr::Name(n, s) => ExprV::Name(n@, s),
        Expr::BinOp(b) => ExprV::BinOp(Box::new(expr_v(b.left)), b.op, Box::new(expr_v(b.right)), b.span),
        Expr::UnaryOp(u) => ExprV::UnaryOp(u.op, Box::new(expr_v(u.operand)), u.span),
        Expr::Call(c) => ExprV::Call(Box::new(expr_v(c.callee)), exprs_v(c.args@), c.span),
        Expr::Attr(a) => ExprV::Attr(Box::new(expr_v(a.object)), a.attr@, a.span),
        Expr::ListLiteral(es, s) => ExprV::ListLiteral(exprs_v(es@), s),
        Expr::Index(x) => ExprV::Index(Box::new(expr_v(x.object)), Box::new(expr_v(x.index)), x.span),
    }
}

pub open spec fn exprs_v(s: Seq<Expr>) -> Seq<ExprV>
    decreases s,
{
    Seq::new(s.len(), |i: int| if 0 <= i < s.len() { expr_v(s[i]) } else { ExprV::NoneLiteral(Span::spec_dummy()) })
}

pub open spec fn type_v(t: TypeExpr) -> TypeExprV
    decreases t,
{
    match t {
        TypeExpr::Named(n, s) => TypeExprV::Named(n@, s),
        TypeExpr::Parameterized(n, args, s) => TypeExprV::Parameterized(n@, types_v(args@), s),
        TypeExpr::Function(args, r, s) => TypeExprV::Function(types_v(args@), Box::new(type_v(*r)), s),
    }
}

pub open spec fn types_v(s: Seq<TypeExpr>) -> Seq<TypeExprV>
    decreases s,
{
    Seq::new(s.len(), |i: int| if 0 <= i < s.len() { type_v(s[i]) } else { TypeExprV::Named(Seq::empty(), Span::spec_dummy()) })
}

pub open spec fn opt_type_v(o: Option<TypeExpr>) -> Option<TypeExprV> {
    match o {
        Some(t) => Some(type_v(t)),
        None => None,
    }
}

pub open spec fn opt_expr_v(o: Option<Expr>) -> Option<ExprV> {
    match o {
        Some(e) => Some(expr_v(e)),
        None => None,
    }
}

pub open spec fn param_v(p: Param) -> ParamV {
    ParamV { name: p.name@, type_annotation: opt_type_v(p.type_annotation), span: p.span }
}

pub open spec fn params_v(s: Seq<Param>) -> Seq<ParamV> {
    Seq::new(s.len(), |i: int| param_v(s[i]))
}

pub open spec fn type_param_v(p: TypeParamDef) -> TypeParamDefV {
    TypeParamDefV { name: p.name@, constraints: strs_v(p.constraints@), span: p.span }
}

pub open spec fn type_params_v(s: Seq<TypeParamDef>) -> Seq<TypeParamDefV> {
    Seq::new(s.len(), |i: int| type_param_v(s[i]))
}

pub open spec fn field_v(f: FieldDecl) -> FieldDeclV {
    FieldDeclV { name: f.name@, type_annotation: type_v(f.type_annotation), span: f.span }
}

pub open spec fn fields_v(s: Seq<FieldDecl>) -> Seq<FieldDeclV> {
    Seq::new(s.len(), |i: int| field_v(s[i]))
}

pub open spec fn method_sig_v(m: MethodSig) -> MethodSigV {
    MethodSigV { name: m.name@, params: params_v(m.params@), return_type: type_v(m.return_type), span: m.span }
}

pub open spec fn method_sigs_v(s: Seq<MethodSig>) -> Seq<MethodSigV> {
    Seq::new(s.len(), |i: int| method_sig_v(s[i]))
}

pub open spec fn import_name_v(n: ImportName) -> ImportNameV {
    ImportNameV { name: n.name@, alias: opt_str_v(n.alias) }
}

pub open spec fn import_names_v(s: Seq<ImportName>) -> Seq<ImportNameV> {
    Seq::new(s.len(), |i: int| import_name_v(s[i]))
}

pub open spec fn import_kind_v(k: ImportKind) -> ImportKindV {
    match k {
        ImportKind::Simple { path, alias } => ImportKindV::Simple { path: strs_v(path@), alias: opt_str_v(alias) },
        ImportKind::From { path, names } => ImportKindV::From { path: strs_v(path@), names: import_names_v(names@) },
    }
}

pub open spec fn impl_kind_v(k: ImplKind) -> ImplKindV {
    match k {
        ImplKind::Inherent { target_type } => ImplKindV::Inherent { target_type: target_type@ },
        ImplKind::Instance { typeclass_name, type_args } => ImplKindV::Instance { typeclass_name: typeclass_name@, type_args: types_v(type_args@) },
    }
}

pub open spec fn stmt_v(s: Statement) -> StatementV
    decreases s,
{
    match s {
        Statement::Let(b) => StatementV::Let {
            name: b.name@, type_annotation: opt_type_v(b.type_annotation), value: expr_v(b.value), mutable: b.mutable, span: b.span,
        },
        Statement::Assign(a) => StatementV::Assign { target: expr_v(a.target), value: expr_v(a.value), span: a.span },
        Statement::FuncDef(f) => StatementV::FuncDef(func_v(f)),
        Statement::DataDecl(d) => StatementV::DataDecl {
            name: d.name@, type_params: strs_v(d.type_params@), fields: fields_v(d.fields@), methods: funcs_v(d.methods@), span: d.span,
        },
        Statement::If(i) => StatementV::If {
            condition: expr_v(i.condition),
            then_body: stmts_v(i.then_body@),
            elif_clauses: elifs_v(i.elif_clauses@),
            else_body: match i.else_body {
                Some(b) => Some(stmts_v(b@)),
                None => None,
            },
            span: i.span,
        },
        Statement::Return(r) => StatementV::Return { value: opt_expr_v(r.value), span: r.span },
        Statement::Expr(e) => StatementV::Expr { expr: expr_v(e.expr), span: e.span },
        Statement::TypeclassDecl(t) => StatementV::TypeclassDecl {
            name: t.name@, type_params: strs_v(t.type_params@), methods: method_sigs_v(t.methods@), span: t.span,
        },
        Statement::Impl(b) => StatementV::Impl { kind: impl_kind_v(b.kind), methods: funcs_v(b.methods@), span: b.span },
        Statement::For(f) => StatementV::For { var_name: f.var_name@, iterable: expr_v(f.iterable), body: stmts_v(f.body@), span: f.span },
        Statement::While(w) => StatementV::While { condition: expr_v(w.condition), body: stmts_v(w.body@), span: w.span },
        Statement::Import(i) => StatementV::Import { kind: import_kind_v(i.kind), span: i.span },
    }
}

pub open spec fn stmts_v(s: Seq<Statement>) -> Seq<StatementV>
    decreases s,
{
    Seq::new(s.len(), |i: int| if 0 <= i < s.len() { stmt_v(s[i]) } else { StatementV::Return { value: None, span: Span::spec_dummy() } })
}

pub open spec fn elifs_v(s: Seq<(Expr, Vec<Statement>)>) -> Seq<(ExprV, Seq<StatementV>)>
    decreases s,
{
    Seq::new(s.len(), |i: int| if 0 <= i < s.len() { (expr_v(s[i].0), stmts_v(s[i].1@)) } else { (ExprV::NoneLiteral(Span::spec_dummy()), Seq::empty()) })
}

pub open spec fn func_v(f: FuncDef) -> FuncDefV
    decreases f,
{
    FuncDefV {
        name: f.name@,
        type_params: type_params_v(f.type_params@),
        params: params_v(f.params@),
        return_type: opt_type_v(f.return_type),
        body: stmts_v(f.body@),
        span: f.span,
    }
}

pub open spec fn funcs_v(s: Seq<FuncDef>) -> Seq<FuncDefV>
    decreases s,
{
    Seq::new(s.len(), |i: int| if 0 <= i < s.len() { func_v(s[i]) } else {
        FuncDefV { name: Seq::empty(), type_params: Seq::empty(), params: Seq::empty(), return_type: None, body: Seq::empty(), span: Span::spec_dummy() }
    })
}

pub open spec fn module_v(m: Module) -> ModuleV {
    ModuleV { body: stmts_v(m.body@), span: m.span }
}

impl Expr {
    pub open spec fn spec_span(self) -> Span {
        match self {
            Expr::IntLiteral(_, s) => s,
            Expr::FloatLiteral(_, s) => s,
            Expr::StringLiteral(_, s) => s,
            Expr::BoolLiteral(_, s) => s,
            Expr::NoneLiteral(s) => s,
            Expr::Name(_, s) => s,
            Expr::ListLiteral(_, s) => s,
            Expr::BinOp(e) => e.span,
            Expr::UnaryOp(e) => e.span,
            Expr::Call(e) => e.span,
            Expr::Attr(e) => e.span,
            Expr::Index(e) => e.span,
        }
    }

    /// The span of the expression.
    pub fn span(&self) -> (s: Span)
        ensures
            s == self.spec_span(),
            s == expr_span(expr_v(*self)),
    {
        match self {
            Expr::IntLiteral(_, s) => *s,
            Expr::FloatLiteral(_, s) => *s,
            Expr::StringLiteral(_, s) => *s,
            Expr::BoolLiteral(_, s) => *s,
            Expr::NoneLiteral(s) => *s,
            Expr::Name(_, s) => *s,
            Expr::ListLiteral(_, s) => *s,
            Expr::BinOp(e) => e.span,
            Expr::UnaryOp(e) => e.span,
            Expr::Call(e) => e.span,
            Expr::Attr(e) => e.span,
            Expr::Index(e) => e.span,
        }
    }
}

/// The span of an expression view.
pub open spec fn expr_span(e: ExprV) -> Span {
    match e {
        ExprV::IntLiteral(_, s) => s,
        ExprV::FloatLiteral(_, s) => s,
        ExprV::StringLiteral(_, s) => s,
        ExprV::BoolLiteral(_, s) => s,
        ExprV::NoneLiteral(s) => s,
        ExprV::Name(_, s) => s,
        ExprV::BinOp(_, _, _, s) => s,
        ExprV::UnaryOp(_, _, s) => s,
        ExprV::Call(_, _, s) => s,
        ExprV::Attr(_, _, s) => s,
        ExprV::ListLiteral(_, s) => s,
        ExprV::Index(_, _, s) => s,
    }
}

/// The span of a type expression view.
pub open spec fn type_span(t: TypeExprV) -> Span {
    match t {
        TypeExprV::Named(_, s) => s,
        TypeExprV::Parameterized(_, _, s) => s,
        TypeExprV::Function(_, _, s) => s,
    }
}

impl TypeExpr {
    /// The span of the type expression.
    pub fn span(&self) -> (s: Span)
        ensures
            s == type_span(type_v(*self)),
    {
        match self {
            TypeExpr::Named(_, s) => *s,
            TypeExpr::Parameterized(_, _, s) => *s,
            TypeExpr::Function(_, _, s) => *s,
        }
    }
}

} // verus!
