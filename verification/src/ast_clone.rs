//! Copies of syntax trees. The recursive node types get `Clone` through
//! these functions, which copy a tree node by node.

use vstd::prelude::*;
use crate::ast::{
    Assignment, AttrExpr, BinOpExpr, CallExpr, DataDecl, Expr, ExprStmt, FieldDecl, ForStmt, FuncDef, IfStmt,
    ImplBlock, ImplKind, ImportKind, ImportName, ImportStmt, IndexExpr, LetBinding, MethodSig, Param, ReturnStmt,
    Statement, TypeExpr, TypeParamDef, TypeclassDecl, UnaryOpExpr, WhileStmt, elifs_v, expr_v, exprs_v, field_v,
    fields_v, func_v, funcs_v, impl_kind_v, import_kind_v, import_name_v, import_names_v, method_sig_v,
    method_sigs_v, opt_expr_v, opt_str_v, opt_type_v, param_v, params_v, stmt_v, stmts_v, strs_v, type_param_v,
    type_params_v, type_v, types_v,
};

verus! {

/// A copy of a type annotation.
fn copy_type_expr(t: &TypeExpr) -> (r: TypeExpr)
    ensures
        type_v(r) == type_v(*t),
    decreases t, 1int,
{
    match t {
        TypeExpr::Named(n, sp) => TypeExpr::Named(n.clone(), *sp),
        TypeExpr::Parameterized(n, args, sp) => TypeExpr::Parameterized(n.clone(), copy_type_exprs(args), *sp),
        TypeExpr::Function(ps, ret, sp) => TypeExpr::Function(copy_type_exprs(ps), Box::new(copy_type_expr(ret)), *sp),
    }
}

fn copy_type_exprs(ts: &Vec<TypeExpr>) -> (r: Vec<TypeExpr>)
    ensures
        types_v(r@) == types_v(ts@),
    decreases ts, 0int,
{
    let mut out: Vec<TypeExpr> = Vec::new();
    let mut k: usize = 0;
    while k < ts.len()
        invariant
            k <= ts.len(),
            out@.len() == k,
            types_v(out@) == types_v(ts@.take(k as int)),
        decreases ts.len() - k,
    {
        proof {
            assert(decreases_to!(ts => ts@));
            assert(decreases_to!(ts@ => ts@[k as int]));
        }
        let ghost before = out@;
        out.push(copy_type_expr(&ts[k]));
        proof {
            assert forall|j: int| 0 <= j < k + 1 implies types_v(out@)[j] == types_v(ts@.take(k + 1))[j] by {
                if j < k {
                    assert(out@[j] == before[j]);
                    assert(types_v(before)[j] == types_v(ts@.take(k as int))[j]);
                }
            }
            assert(types_v(out@) =~= types_v(ts@.take(k + 1)));
        }
        k = k + 1;
    }
    proof {
        assert(ts@.take(k as int) =~= ts@);
    }
    out
}

/// A copy of an expression.
fn copy_expr(e: &Expr) -> (r: Expr)
    ensures
        expr_v(r) == expr_v(*e),
    decreases e, 1int,
{
    match e {
        Expr::IntLiteral(v, sp) => Expr::IntLiteral(*v, *sp),
        Expr::FloatLiteral(t, sp) => Expr::FloatLiteral(t.clone(), *sp),
        Expr::StringLiteral(t, sp) => Expr::StringLiteral(t.clone(), *sp),
        Expr::BoolLiteral(b, sp) => Expr::BoolLiteral(*b, *sp),
        Expr::NoneLiteral(sp) => Expr::NoneLiteral(*sp),
        Expr::Name(n, sp) => Expr::Name(n.clone(), *sp),
        Expr::BinOp(b) => Expr::BinOp(
            Box::new(BinOpExpr { left: copy_expr(&b.left), op: b.op, right: copy_expr(&b.right), span: b.span }),
        ),
        Expr::UnaryOp(u) => Expr::UnaryOp(Box::new(UnaryOpExpr { op: u.op, operand: copy_expr(&u.operand), span: u.span })),
        Expr::Call(c) => Expr::Call(Box::new(CallExpr { callee: copy_expr(&c.callee), args: copy_exprs(&c.args), span: c.span })),
        Expr::Attr(a) => Expr::Attr(Box::new(AttrExpr { object: copy_expr(&a.object), attr: a.attr.clone(), span: a.span })),
        Expr::ListLiteral(items, sp) => Expr::ListLiteral(copy_exprs(items), *sp),
        Expr::Index(i) => Expr::Index(Box::new(IndexExpr { object: copy_expr(&i.object), index: copy_expr(&i.index), span: i.span })),
    }
}

fn copy_exprs(es: &Vec<Expr>) -> (r: Vec<Expr>)
    ensures
        exprs_v(r@) == exprs_v(es@),
    decreases es, 0int,
{
    let mut out: Vec<Expr> = Vec::new();
    let mut k: usize = 0;
    while k < es.len()
        invariant
            k <= es.len(),
            out@.len() == k,
            exprs_v(out@) == exprs_v(es@.take(k as int)),
        decreases es.len() - k,
    {
        proof {
            assert(decreases_to!(es => es@));
            assert(decreases_to!(es@ => es@[k as int]));
        }
        let ghost before = out@;
        out.push(copy_expr(&es[k]));
        proof {
            assert forall|j: int| 0 <= j < k + 1 implies exprs_v(out@)[j] == exprs_v(es@.take(k + 1))[j] by {
                if j < k {
                    assert(out@[j] == before[j]);
                    assert(exprs_v(before)[j] == exprs_v(es@.take(k as int))[j]);
                }
            }
            assert(exprs_v(out@) =~= exprs_v(es@.take(k + 1)));
        }
        k = k + 1;
    }
    proof {
        assert(es@.take(k as int) =~= es@);
    }
    out
}

fn copy_opt_str(o: &Option<String>) -> (r: Option<String>)
    ensures
        opt_str_v(r) == opt_str_v(*o),
{
    match o {
        Some(s) => Some(s.clone()),
        None => None,
    }
}

fn copy_opt_type(o: &Option<TypeExpr>) -> (r: Option<TypeExpr>)
    ensures
        opt_type_v(r) == opt_type_v(*o),
{
    match o {
        Some(t) => Some(copy_type_expr(t)),
        None => None,
    }
}

fn copy_opt_expr(o: &Option<Expr>) -> (r: Option<Expr>)
    ensures
        opt_expr_v(r) == opt_expr_v(*o),
{
    match o {
        Some(e) => Some(copy_expr(e)),
        None => None,
    }
}

spec fn str_view(s: String) -> Seq<char> {
    s@
}

/// A copy of a list of names.
fn copy_strs(v: &Vec<String>) -> (r: Vec<String>)
    ensures
        strs_v(r@) == strs_v(v@),
{
    let mut out: Vec<String> = Vec::new();
    let mut k: usize = 0;
    while k < v.len()
        invariant
            k <= v.len(),
            out@.len() == k,
            forall|j: int| 0 <= j < k ==> str_view(#[trigger] out@[j]) == str_view(v@[j]),
        decreases v.len() - k,
    {
        out.push(v[k].clone());
        k = k + 1;
    }
    assert(strs_v(out@) =~= strs_v(v@));
    out
}

/// A copy of a parameter list.
fn copy_params(v: &Vec<Param>) -> (r: Vec<Param>)
    ensures
        params_v(r@) == params_v(v@),
{
    let mut out: Vec<Param> = Vec::new();
    let mut k: usize = 0;
    while k < v.len()
        invariant
            k <= v.len(),
            out@.len() == k,
            forall|j: int| 0 <= j < k ==> param_v(#[trigger] out@[j]) == param_v(v@[j]),
        decreases v.len() - k,
    {
        out.push(Param { name: v[k].name.clone(), type_annotation: copy_opt_type(&v[k].type_annotation), span: v[k].span });
        k = k + 1;
    }
    assert(params_v(out@) =~= params_v(v@));
    out
}

/// A copy of a list of type parameters.
fn copy_tparams(v: &Vec<TypeParamDef>) -> (r: Vec<TypeParamDef>)
    ensures
        type_params_v(r@) == type_params_v(v@),
{
    let mut out: Vec<TypeParamDef> = Vec::new();
    let mut k: usize = 0;
    while k < v.len()
        invariant
            k <= v.len(),
            out@.len() == k,
            forall|j: int| 0 <= j < k ==> type_param_v(#[trigger] out@[j]) == type_param_v(v@[j]),
        decreases v.len() - k,
    {
        out.push(TypeParamDef { name: v[k].name.clone(), constraints: copy_strs(&v[k].constraints), span: v[k].span });
        k = k + 1;
    }
    assert(type_params_v(out@) =~= type_params_v(v@));
    out
}

/// A copy of a list of fields.
fn copy_fields(v: &Vec<FieldDecl>) -> (r: Vec<FieldDecl>)
    ensures
        fields_v(r@) == fields_v(v@),
{
    let mut out: Vec<FieldDecl> = Vec::new();
    let mut k: usize = 0;
    while k < v.len()
        invariant
            k <= v.len(),
            out@.len() == k,
            forall|j: int| 0 <= j < k ==> field_v(#[trigger] out@[j]) == field_v(v@[j]),
        decreases v.len() - k,
    {
        out.push(FieldDecl { name: v[k].name.clone(), type_annotation: copy_type_expr(&v[k].type_annotation), span: v[k].span });
        k = k + 1;
    }
    assert(fields_v(out@) =~= fields_v(v@));
    out
}

/// A copy of a list of method signatures.
fn copy_sigs(v: &Vec<MethodSig>) -> (r: Vec<MethodSig>)
    ensures
        method_sigs_v(r@) == method_sigs_v(v@),
{
    let mut out: Vec<MethodSig> = Vec::new();
    let mut k: usize = 0;
    while k < v.len()
        invariant
            k <= v.len(),
            out@.len() == k,
            forall|j: int| 0 <= j < k ==> method_sig_v(#[trigger] out@[j]) == method_sig_v(v@[j]),
        decreases v.len() - k,
    {
        out.push(MethodSig { name: v[k].name.clone(), params: copy_params(&v[k].params), return_type: copy_type_expr(&v[k].return_type), span: v[k].span });
        k = k + 1;
    }
    assert(method_sigs_v(out@) =~= method_sigs_v(v@));
    out
}

/// A copy of the names of a `from` import.
fn copy_import_names(v: &Vec<ImportName>) -> (r: Vec<ImportName>)
    ensures
        import_names_v(r@) == import_names_v(v@),
{
    let mut out: Vec<ImportName> = Vec::new();
    let mut k: usize = 0;
    while k < v.len()
        invariant
            k <= v.len(),
            out@.len() == k,
            forall|j: int| 0 <= j < k ==> import_name_v(#[trigger] out@[j]) == import_name_v(v@[j]),
        decreases v.len() - k,
    {
        out.push(ImportName { name: v[k].name.clone(), alias: copy_opt_str(&v[k].alias) });
        k = k + 1;
    }
    assert(import_names_v(out@) =~= import_names_v(v@));
    out
}

fn copy_import_kind(k: &ImportKind) -> (r: ImportKind)
    ensures
        import_kind_v(r) == import_kind_v(*k),
{
    match k {
        ImportKind::Simple { path, alias } => ImportKind::Simple { path: copy_strs(path), alias: copy_opt_str(alias) },
        ImportKind::From { path, names } => ImportKind::From { path: copy_strs(path), names: copy_import_names(names) },
    }
}

fn copy_impl_kind(k: &ImplKind) -> (r: ImplKind)
    ensures
        impl_kind_v(r) == impl_kind_v(*k),
{
    match k {
        ImplKind::Inherent { target_type } => ImplKind::Inherent { target_type: target_type.clone() },
        ImplKind::Instance { typeclass_name, type_args } => ImplKind::Instance {
            typeclass_name: typeclass_name.clone(),
            type_args: copy_type_exprs(type_args),
        },
    }
}

/// A copy of a function definition.
fn copy_func(f: &FuncDef) -> (r: FuncDef)
    ensures
        func_v(r) == func_v(*f),
    decreases f, 1int,
{
    FuncDef {
        name: f.name.clone(),
        type_params: copy_tparams(&f.type_params),
        params: copy_params(&f.params),
        return_type: copy_opt_type(&f.return_type),
        body: copy_stmts(&f.body),
        span: f.span,
    }
}

/// A copy of a list of function definitions.
fn copy_funcs(v: &Vec<FuncDef>) -> (r: Vec<FuncDef>)
    ensures
        funcs_v(r@) == funcs_v(v@),
    decreases v, 0int,
{
    let mut out: Vec<FuncDef> = Vec::new();
    let mut k: usize = 0;
    while k < v.len()
        invariant
            k <= v.len(),
            out@.len() == k,
            forall|j: int| 0 <= j < k ==> func_v(#[trigger] out@[j]) == func_v(v@[j]),
        decreases v.len() - k,
    {
        proof {
            assert(decreases_to!(v => v@));
            assert(decreases_to!(v@ => v@[k as int]));
        }
        out.push(copy_func(&v[k]));
        k = k + 1;
    }
    assert(funcs_v(out@) =~= funcs_v(v@));
    out
}

fn copy_elifs(v: &Vec<(Expr, Vec<Statement>)>) -> (r: Vec<(Expr, Vec<Statement>)>)
    ensures
        elifs_v(r@) == elifs_v(v@),
    decreases v, 0int,
{
    let mut out: Vec<(Expr, Vec<Statement>)> = Vec::new();
    let mut k: usize = 0;
    while k < v.len()
        invariant
            k <= v.len(),
            out@.len() == k,
            forall|j: int| 0 <= j < k ==> expr_v((#[trigger] out@[j]).0) == expr_v(v@[j].0) && stmts_v(out@[j].1@)
                == stmts_v(v@[j].1@),
        decreases v.len() - k,
    {
        proof {
            assert(decreases_to!(v => v@));
            assert(decreases_to!(v@ => v@[k as int]));
            assert(decreases_to!(v@[k as int] => v@[k as int].1));
        }
        out.push((copy_expr(&v[k].0), copy_stmts(&v[k].1)));
        k = k + 1;
    }
    assert(elifs_v(out@) =~= elifs_v(v@));
    out
}

/// A copy of a statement.
fn copy_stmt(s: &Statement) -> (r: Statement)
    ensures
        stmt_v(r) == stmt_v(*s),
    decreases s, 2int,
{
    match s {
        Statement::Let(b) => Statement::Let(LetBinding {
            name: b.name.clone(),
            type_annotation: copy_opt_type(&b.type_annotation),
            value: copy_expr(&b.value),
            mutable: b.mutable,
            span: b.span,
        }),
        Statement::Assign(a) => Statement::Assign(Assignment { target: copy_expr(&a.target), value: copy_expr(&a.value), span: a.span }),
        Statement::FuncDef(f) => Statement::FuncDef(copy_func(f)),
        Statement::DataDecl(d) => Statement::DataDecl(DataDecl {
            name: d.name.clone(),
            type_params: copy_strs(&d.type_params),
            fields: copy_fields(&d.fields),
            methods: copy_funcs(&d.methods),
            span: d.span,
        }),
        Statement::If(i) => {
            let else_body = match &i.else_body {
                Some(b) => Some(copy_stmts(b)),
                None => None,
            };
            Statement::If(IfStmt {
                condition: copy_expr(&i.condition),
                then_body: copy_stmts(&i.then_body),
                elif_clauses: copy_elifs(&i.elif_clauses),
                else_body,
                span: i.span,
            })
        },
        Statement::Return(r) => Statement::Return(ReturnStmt { value: copy_opt_expr(&r.value), span: r.span }),
        Statement::Expr(x) => Statement::Expr(ExprStmt { expr: copy_expr(&x.expr), span: x.span }),
        Statement::TypeclassDecl(t) => Statement::TypeclassDecl(TypeclassDecl {
            name: t.name.clone(),
            type_params: copy_strs(&t.type_params),
            methods: copy_sigs(&t.methods),
            span: t.span,
        }),
        Statement::Impl(b) => Statement::Impl(ImplBlock { kind: copy_impl_kind(&b.kind), methods: copy_funcs(&b.methods), span: b.span }),
        Statement::For(f) => Statement::For(ForStmt {
            var_name: f.var_name.clone(),
            iterable: copy_expr(&f.iterable),
            body: copy_stmts(&f.body),
            span: f.span,
        }),
        Statement::While(w) => Statement::While(WhileStmt { condition: copy_expr(&w.condition), body: copy_stmts(&w.body), span: w.span }),
        Statement::Import(i) => Statement::Import(ImportStmt { kind: copy_import_kind(&i.kind), span: i.span }),
    }
}

/// A copy of a list of statements.
fn copy_stmts(v: &Vec<Statement>) -> (r: Vec<Statement>)
    ensures
        stmts_v(r@) == stmts_v(v@),
    decreases v, 0int,
{
    let mut out: Vec<Statement> = Vec::new();
    let mut k: usize = 0;
    while k < v.len()
        invariant
            k <= v.len(),
            out@.len() == k,
            forall|j: int| 0 <= j < k ==> stmt_v(#[trigger] out@[j]) == stmt_v(v@[j]),
        decreases v.len() - k,
    {
        proof {
            assert(decreases_to!(v => v@));
            assert(decreases_to!(v@ => v@[k as int]));
        }
        out.push(copy_stmt(&v[k]));
        k = k + 1;
    }
    assert(stmts_v(out@) =~= stmts_v(v@));
    out
}

impl Clone for TypeExpr {
    /// A copy of the annotation, node by node.
    fn clone(&self) -> (r: TypeExpr)
        ensures
            type_v(r) == type_v(*self),
    {
        copy_type_expr(self)
    }
}

impl Clone for Expr {
    /// A copy of the expression, node by node.
    fn clone(&self) -> (r: Expr)
        ensures
            expr_v(r) == expr_v(*self),
    {
        copy_expr(self)
    }
}

impl Clone for Statement {
    /// A copy of the statement, node by node.
    fn clone(&self) -> (r: Statement)
        ensures
            stmt_v(r) == stmt_v(*self),
    {
        copy_stmt(self)
    }
}

} // verus!
