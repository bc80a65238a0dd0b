//! The type checker's handling of expressions and type annotations.

use vstd::prelude::*;
use crate::ast::{
    AttrExpr, BinOp, BinOpExpr, CallExpr, Expr, TypeExpr, TypeParamDef, UnaryOp, UnaryOpExpr, expr_span, expr_v,
    exprs_v, strs_v, type_params_v, type_v, types_v,
};
use crate::check_spec::{
    CR, bind_all, bind_first, bind_step, binop_result, bound_type, call_result, compat, field_type, first_mismatch,
    first_unbound, first_unmet, index_result, op_typeclass, subst_list, copies, unbound_all, call_bindings, s_list_rest, s_resolve, s_resolve_tc, s_resolve_tv,
    s_synth, s_synth_all, short_name, subst, subst_all, tc_arity, unary_result, attr_result,
};
use crate::checker::TypeChecker;
use crate::environment::{Environment, opt_type_v, scope_lookup, scope_lookup_instance, scope_lookup_typeclass};
use crate::errors::{CompileError, error_at, error_str};
use crate::source::Span;
use crate::text::{push_decimal, push_str, push_string, str_eq, string_from};
use crate::types::{FunctionType, Type, TypeV, tparams_v, tys_v, type_text};

verus! {

/// A result read as a type view, or the error's view.
pub open spec fn cr_ty(r: Result<Type, CompileError>) -> CR<TypeV> {
    match r {
        Ok(t) => Ok(t@),
        Err(e) => Err(e@),
    }
}

/// The short name of a type.
pub fn short_type_name(ty: &Type) -> (s: String)
    ensures
        s@ == short_name(ty@),
    decreases ty,
{
    match ty {
        Type::Int => string_from("Int"),
        Type::Float => string_from("Float"),
        Type::Str => string_from("Str"),
        Type::Bool => string_from("Bool"),
        Type::NoneType => string_from("None"),
        Type::Data(d) => d.name.clone(),
        Type::Function(_) => string_from("Function"),
        Type::TypeVar(n) => n.clone(),
        Type::List(inner) => {
            let mut s = string_from("List[");
            let t = short_type_name(&**inner);
            push_string(&mut s, &t);
            push_str(&mut s, "]");
            s
        },
        Type::Module(m) => m.name.clone(),
        Type::Unknown => string_from("Unknown"),
    }
}

/// The typeclass behind an operator, and its method.
pub fn op_to_typeclass(op: BinOp) -> (r: Option<(&'static str, &'static str)>)
    ensures
        match r {
            Some((a, b)) => op_typeclass(op) == Some((a@, b@)),
            None => op_typeclass(op) is None,
        },
{
    match op {
        BinOp::Add => Some(("Add", "add")),
        BinOp::Sub => Some(("Sub", "sub")),
        BinOp::Mul => Some(("Mul", "mul")),
        BinOp::Div => Some(("Div", "div")),
        BinOp::Eq | BinOp::NotEq => Some(("Eq", "eq")),
        BinOp::Lt | BinOp::Gt | BinOp::LtEq | BinOp::GtEq => Some(("Ord", "lt")),
        BinOp::And | BinOp::Or => None,
    }
}

/// Whether two types agree: they are equal, or either is unknown.
pub fn types_compatible(a: &Type, b: &Type) -> (r: bool)
    ensures
        r == compat(a@, b@),
{
    match a {
        Type::Unknown => true,
        _ => match b {
            Type::Unknown => true,
            _ => a.equals(b),
        },
    }
}

/// `a`, then the printed form of `t`.
pub fn msg_type(a: &str, t: &Type) -> (s: String)
    ensures
        s@ == a@ + type_text(t@),
{
    let mut s = string_from(a);
    let x = t.to_string();
    push_string(&mut s, &x);
    s
}

/// `a`, the printed form of `t1`, `b`, the printed form of `t2`.
pub fn msg_types(a: &str, t1: &Type, b: &str, t2: &Type) -> (s: String)
    ensures
        s@ == a@ + type_text(t1@) + b@ + type_text(t2@),
{
    let mut s = msg_type(a, t1);
    push_str(&mut s, b);
    let x = t2.to_string();
    push_string(&mut s, &x);
    s
}

/// `a` followed by `n`.
pub fn msg_name(a: &str, n: &String) -> (s: String)
    ensures
        s@ == a@ + n@,
{
    let mut s = string_from(a);
    push_string(&mut s, n);
    s
}

/// Whether `s` reads exactly `t`.
pub fn text_is(s: &String, t: &str) -> (r: bool)
    ensures
        r == (s@ == t@),
{
    let u = t.to_owned();
    str_eq(s, &u)
}

/// Whether `s` reads exactly `t`.
pub fn slice_is(s: &str, t: &str) -> (r: bool)
    ensures
        r == (s@ == t@),
{
    let a = s.to_owned();
    let b = t.to_owned();
    str_eq(&a, &b)
}

/// `ty` with the type variable `param` replaced by `concrete` (in it and in
/// function types).
pub fn substitute_typevar(ty: &Type, param: &String, concrete: &Type) -> (r: Type)
    ensures
        r@ == subst(ty@, param@, concrete@),
    decreases ty,
{
    match ty {
        Type::TypeVar(n) => {
            if str_eq(n, param) {
                concrete.duplicate()
            } else {
                ty.duplicate()
            }
        },
        Type::Function(f) => {
            let mut ps: Vec<Type> = Vec::new();
            let mut i: usize = 0;
            while i < f.param_types.len()
                invariant
                    i <= f.param_types.len(),
                    ps@.len() == i,
                    *ty == Type::Function(*f),
                    forall|j: int| 0 <= j < i ==> (#[trigger] ps@[j])@ == subst(f.param_types@[j]@, param@, concrete@),
                decreases f.param_types.len() - i,
            {
                proof {
                    assert(decreases_to!(*ty => (*ty)->Function_0));
                    assert(decreases_to!(*f => f.param_types));
                    assert(decreases_to!(f.param_types => f.param_types@));
                    assert(decreases_to!(f.param_types@ => f.param_types@[i as int]));
                }
                let t = substitute_typevar(&f.param_types[i], param, concrete);
                ps.push(t);
                i = i + 1;
            }
            let tps = copy_tparams(&f.type_params);
            let r = substitute_typevar(&*f.return_type, param, concrete);
            let out = Type::Function(FunctionType { type_params: tps, param_types: ps, return_type: Box::new(r) });
            proof {
                let pv = tys_v(f.param_types@);
                assert(tys_v(ps@) =~= subst_list(pv, param@, concrete@));
            }
            out
        },
        _ => ty.duplicate(),
    }
}

/// A copy of a function's type parameters.
fn copy_tparams(tps: &Vec<(String, Vec<String>)>) -> (r: Vec<(String, Vec<String>)>)
    ensures
        tparams_v(r@) == tparams_v(tps@),
{
    let mut r: Vec<(String, Vec<String>)> = Vec::new();
    let mut i: usize = 0;
    while i < tps.len()
        invariant
            i <= tps.len(),
            r@.len() == i,
            forall|j: int| 0 <= j < i ==> (#[trigger] r@[j]).0@ == tps@[j].0@ && crate::types::names_v(r@[j].1@) == crate::types::names_v(tps@[j].1@),
        decreases tps.len() - i,
    {
        let c = crate::types::copy_names(&tps[i].1);
        r.push((tps[i].0.clone(), c));
        i = i + 1;
    }
    assert(tparams_v(r@) =~= tparams_v(tps@));
    r
}

/// Binds the first still-unbound entry named `n` to `arg`.
fn bind_first_exec(bindings: &mut Vec<(String, Type)>, n: &String, arg: &Type)
    ensures
        bview(final(bindings)@) == bind_first(bview(old(bindings)@), n@, arg@, 0),
{
    let ghost b0 = bview(bindings@);
    let mut k: usize = 0;
    while k < bindings.len()
        invariant
            bindings@ == old(bindings)@,
            b0 == bview(bindings@),
            k <= bindings.len(),
            bind_first(b0, n@, arg@, 0) == bind_first(b0, n@, arg@, k as int),
        decreases bindings.len() - k,
    {
        let hit = str_eq(&bindings[k].0, n) && bindings[k].1.equals(&Type::NoneType);
        if hit {
            let a = arg.duplicate();
            let name = bindings[k].0.clone();
            bindings.set(k, (name, a));
            proof {
                assert(bview(bindings@) =~= b0.update(k as int, (n@, arg@)));
            }
            return;
        }
        k = k + 1;
    }
}

pub open spec fn bview(bs: Seq<(String, Type)>) -> Seq<(Seq<char>, TypeV)> {
    Seq::new(bs.len(), |i: int| (bs[i].0@, bs[i].1@))
}

/// One type-variable binding step for a parameter and its argument.
pub fn infer_typevar_binding(param_ty: &Type, arg_ty: &Type, bindings: &mut Vec<(String, Type)>)
    ensures
        bview(final(bindings)@) == bind_step(bview(old(bindings)@), param_ty@, arg_ty@),
{
    match param_ty {
        Type::TypeVar(name) => bind_first_exec(bindings, name, arg_ty),
        _ => {},
    }
}

impl TypeChecker {
    /// A type annotation read in the checker's environment.
    pub(crate) fn resolve_type_expr(&self, type_expr: &TypeExpr) -> (r: Result<Type, CompileError>)
        ensures
            cr_ty(r) == s_resolve(self.env@, type_v(*type_expr)),
        decreases type_expr,
    {
        match type_expr {
            TypeExpr::Named(name, span) => {
                if text_is(name, "Int") {
                    Ok(Type::Int)
                } else if text_is(name, "Float") {
                    Ok(Type::Float)
                } else if text_is(name, "Str") {
                    Ok(Type::Str)
                } else if text_is(name, "Bool") {
                    Ok(Type::Bool)
                } else if text_is(name, "None") {
                    Ok(Type::NoneType)
                } else {
                    match self.env.lookup_type(name.as_str()) {
                        Some(t) => Ok(t.duplicate()),
                        None => Err(error_at(msg_name("unknown type: ", name), *span)),
                    }
                }
            },
            TypeExpr::Parameterized(name, args, span) => {
                if text_is(name, "List") && args.len() == 1 {
                    proof {
                        assert(types_v(args@)[0] == type_v(args@[0]));
                        assert(decreases_to!(*type_expr => (*type_expr)->Parameterized_1));
                        assert(decreases_to!(*args => args@));
                        assert(decreases_to!(args@ => args@[0]));
                    }
                    match self.resolve_type_expr(&args[0]) {
                        Err(e) => Err(e),
                        Ok(inner) => Ok(Type::List(Box::new(inner))),
                    }
                } else {
                    Err(error_at(msg_name("parameterized types not yet supported: ", name), *span))
                }
            },
            TypeExpr::Function(_, _, span) => Err(error_str("function types not yet supported in annotations", *span)),
        }
    }

    /// A type annotation where the function's type parameters stand for type variables.
    pub(crate) fn resolve_type_expr_with_typevars(&self, type_expr: &TypeExpr, type_params: &Vec<TypeParamDef>) -> (r: Result<Type, CompileError>)
        ensures
            cr_ty(r) == s_resolve_tv(self.env@, type_v(*type_expr), type_params_v(type_params@)),
    {
        match type_expr {
            TypeExpr::Named(name, span) => {
                let mut i: usize = 0;
                while i < type_params.len()
                    invariant
                        *type_expr == TypeExpr::Named(*name, *span),
                        i <= type_params.len(),
                        forall|j: int| 0 <= j < i ==> type_params_v(type_params@)[j].name != name@,
                    decreases type_params.len() - i,
                {
                    if str_eq(&type_params[i].name, name) {
                        proof {
                            assert(type_params_v(type_params@)[i as int].name == name@);
                        }
                        return Ok(Type::TypeVar(name.clone()));
                    }
                    i = i + 1;
                }
                self.resolve_type_expr(type_expr)
            },
            _ => self.resolve_type_expr(type_expr),
        }
    }

    /// A type annotation where the typeclass's parameters stand for type variables.
    pub(crate) fn resolve_type_expr_with_tc_params(&self, type_expr: &TypeExpr, tc_params: &Vec<String>) -> (r: Result<Type, CompileError>)
        ensures
            cr_ty(r) == s_resolve_tc(self.env@, type_v(*type_expr), strs_v(tc_params@)),
    {
        match type_expr {
            TypeExpr::Named(name, span) => {
                let mut i: usize = 0;
                while i < tc_params.len()
                    invariant
                        *type_expr == TypeExpr::Named(*name, *span),
                        i <= tc_params.len(),
                        forall|j: int| 0 <= j < i ==> strs_v(tc_params@)[j] != name@,
                    decreases tc_params.len() - i,
                {
                    if str_eq(&tc_params[i], name) {
                        proof {
                            assert(strs_v(tc_params@)[i as int] == name@);
                        }
                        return Ok(Type::TypeVar(name.clone()));
                    }
                    i = i + 1;
                }
                self.resolve_type_expr(type_expr)
            },
            _ => self.resolve_type_expr(type_expr),
        }
    }
}


impl TypeChecker {
    /// The type of an expression.
    pub(crate) fn synth(&self, expr: &Expr) -> (r: Result<Type, CompileError>)
        ensures
            cr_ty(r) == s_synth(self.env@, expr_v(*expr)),
        decreases expr, 1int,
    {
        match expr {
            Expr::IntLiteral(_, _) => Ok(Type::Int),
            Expr::FloatLiteral(_, _) => Ok(Type::Float),
            Expr::StringLiteral(_, _) => Ok(Type::Str),
            Expr::BoolLiteral(_, _) => Ok(Type::Bool),
            Expr::NoneLiteral(_) => Ok(Type::NoneType),
            Expr::Name(name, span) => match self.env.lookup(name.as_str()) {
                Some(b) => Ok(b.ty.duplicate()),
                None => Err(error_at(msg_name("undefined variable: ", name), *span)),
            },
            Expr::BinOp(b) => {
                let lt = match self.synth(&b.left) {
                    Err(e) => return Err(e),
                    Ok(t) => t,
                };
                let rt = match self.synth(&b.right) {
                    Err(e) => return Err(e),
                    Ok(t) => t,
                };
                self.binop_type(b.op, lt, rt, b.span)
            },
            Expr::UnaryOp(u) => {
                let t = match self.synth(&u.operand) {
                    Err(e) => return Err(e),
                    Ok(t) => t,
                };
                unary_type(u.op, t, u.span)
            },
            Expr::Call(c) => self.synth_call(c),
            Expr::Attr(a) => {
                let t = match self.synth(&a.object) {
                    Err(e) => return Err(e),
                    Ok(t) => t,
                };
                self.attr_type(&t, &a.attr, a.span)
            },
            Expr::ListLiteral(elements, span) => {
                if elements.len() == 0 {
                    return Err(error_str("cannot infer type of empty list; use a type annotation", *span));
                }
                proof {
                    assert(decreases_to!(*expr => (*expr)->ListLiteral_0));
                    assert(decreases_to!(*elements => elements@));
                    assert(decreases_to!(elements@ => elements@[0]));
                    assert(exprs_v(elements@)[0] == expr_v(elements@[0]));
                }
                let first = match self.synth(&elements[0]) {
                    Err(e) => return Err(e),
                    Ok(t) => t,
                };
                match self.list_rest(elements, &first) {
                    Err(e) => return Err(e),
                    Ok(()) => {},
                }
                Ok(Type::List(Box::new(first)))
            },
            Expr::Index(x) => {
                let ot = match self.synth(&x.object) {
                    Err(e) => return Err(e),
                    Ok(t) => t,
                };
                let it = match self.synth(&x.index) {
                    Err(e) => return Err(e),
                    Ok(t) => t,
                };
                index_type(&ot, &it, x.index.span(), x.span)
            },
        }
    }

    /// The elements of a list literal after the first, each agreeing with `first`.
    fn list_rest(&self, es: &Vec<Expr>, first: &Type) -> (r: Result<(), CompileError>)
        ensures
            match r {
                Ok(()) => s_list_rest(self.env@, exprs_v(es@), 1, first@) == Ok::<(), crate::errors::DiagView>(()),
                Err(e) => s_list_rest(self.env@, exprs_v(es@), 1, first@) == Err::<(), crate::errors::DiagView>(e@),
            },
        decreases es, 0int,
    {
        let ghost ev = exprs_v(es@);
        let mut k: usize = 1;
        while k < es.len()
            invariant
                ev == exprs_v(es@),
                1 <= k,
                k <= es.len() || es.len() == 0,
                s_list_rest(self.env@, ev, 1, first@) == s_list_rest(self.env@, ev, k as int, first@),
            decreases es.len() - k,
        {
            proof {
                assert(decreases_to!(*es => es@));
                assert(decreases_to!(es@ => es@[k as int]));
                assert(ev[k as int] == expr_v(es@[k as int]));
            }
            let t = match self.synth(&es[k]) {
                Err(e) => return Err(e),
                Ok(t) => t,
            };
            if !types_compatible(&t, first) {
                let sp = es[k].span();
                return Err(error_at(msg_types("list element type mismatch: expected ", first, ", found ", &t), sp));
            }
            k = k + 1;
        }
        Ok(())
    }

    /// The types of `args`, in order.
    fn synth_all(&self, args: &Vec<Expr>) -> (r: Result<Vec<Type>, CompileError>)
        ensures
            match r {
                Ok(v) => s_synth_all(self.env@, exprs_v(args@), 0) == Ok::<Seq<TypeV>, crate::errors::DiagView>(tys_v(v@)),
                Err(e) => s_synth_all(self.env@, exprs_v(args@), 0) == Err::<Seq<TypeV>, crate::errors::DiagView>(e@),
            },
        decreases args, 0int,
    {
        let ghost ev = exprs_v(args@);
        let mut out: Vec<Type> = Vec::new();
        let mut k: usize = 0;
        while k < args.len()
            invariant
                ev == exprs_v(args@),
                k <= args.len(),
                out@.len() == k,
                s_synth_all(self.env@, ev, 0) == (match s_synth_all(self.env@, ev, k as int) {
                    Err(x) => Err(x),
                    Ok(ts) => Ok(tys_v(out@) + ts),
                }),
            decreases args.len() - k,
        {
            proof {
                assert(decreases_to!(*args => args@));
                assert(decreases_to!(args@ => args@[k as int]));
                assert(ev[k as int] == expr_v(args@[k as int]));
            }
            let t = match self.synth(&args[k]) {
                Err(e) => return Err(e),
                Ok(t) => t,
            };
            let ghost before = tys_v(out@);
            out.push(t);
            proof {
                assert(tys_v(out@) =~= before.push(t@));
                assert forall|ts: Seq<TypeV>| #![auto] before + (seq![t@] + ts) == tys_v(out@) + ts by {
                    assert(before + (seq![t@] + ts) =~= tys_v(out@) + ts);
                }
            }
            k = k + 1;
        }
        proof {
            assert(tys_v(out@) + Seq::<TypeV>::empty() =~= tys_v(out@));
        }
        Ok(out)
    }

    fn binop_type(&self, op: BinOp, lt: Type, rt: Type, span: Span) -> (r: Result<Type, CompileError>)
        ensures
            cr_ty(r) == binop_result(self.env@, op, lt@, rt@, span),
    {
        match (&lt, &rt) {
            (Type::Unknown, _) => return Ok(Type::Unknown),
            (_, Type::Unknown) => return Ok(Type::Unknown),
            _ => {},
        }
        if op == BinOp::And || op == BinOp::Or {
            if !lt.equals(&Type::Bool) || !rt.equals(&Type::Bool) {
                return Err(error_at(msg_types("logical operators require Bool, found ", &lt, " and ", &rt), span));
            }
            return Ok(Type::Bool);
        }
        let (tc_name, _method) = match op_to_typeclass(op) {
            Some(p) => p,
            None => {
                return Ok(Type::Unknown);
            },
        };
        let mut prefix: Vec<Type> = Vec::new();
        prefix.push(lt.duplicate());
        prefix.push(rt.duplicate());
        proof {
            assert(tys_v(prefix@) =~= seq![lt@, rt@]);
        }
        match self.env.lookup_instance_by_prefix(tc_name, prefix.as_slice()) {
            Some(inst) => {
                let n = inst.type_args.len();
                if n > 0 {
                    proof {
                        assert(tys_v(inst.type_args@).last() == inst.type_args@[n - 1]@);
                    }
                    Ok(inst.type_args[n - 1].duplicate())
                } else {
                    Ok(Type::NoneType)
                }
            },
            None => {
                let mut s = string_from("no instance of ");
                push_str(&mut s, tc_name);
                push_str(&mut s, " for ");
                let a = lt.to_string();
                push_string(&mut s, &a);
                push_str(&mut s, " and ");
                let b = rt.to_string();
                push_string(&mut s, &b);
                Err(error_at(s, span))
            },
        }
    }

    fn attr_type(&self, t: &Type, a: &String, span: Span) -> (r: Result<Type, CompileError>)
        ensures
            cr_ty(r) == attr_result(self.env@, t@, a@, span),
    {
        match t {
            Type::Data(d) => {
                let ghost fv = crate::types::fields_v(d.fields@);
                let mut k: usize = 0;
                while k < d.fields.len()
                    invariant
                        fv == crate::types::fields_v(d.fields@),
                        *t == Type::Data(*d),
                        k <= d.fields.len(),
                        field_type(fv, a@, 0) == field_type(fv, a@, k as int),
                    decreases d.fields.len() - k,
                {
                    if str_eq(&d.fields[k].0, a) {
                        return Ok(d.fields[k].1.duplicate());
                    }
                    k = k + 1;
                }
                match self.env.lookup_method(d.name.as_str(), a.as_str()) {
                    Some(mt) => Ok(mt.duplicate()),
                    None => {
                        let mut s = msg_name("type ", &d.name);
                        push_str(&mut s, " has no field or method '");
                        push_string(&mut s, a);
                        push_str(&mut s, "'");
                        Err(error_at(s, span))
                    },
                }
            },
            Type::Module(_) => Ok(Type::Unknown),
            Type::Unknown => Ok(Type::Unknown),
            _ => Err(error_at(msg_type("cannot access attribute on ", t), span)),
        }
    }
}

fn unary_type(op: UnaryOp, t: Type, span: Span) -> (r: Result<Type, CompileError>)
    ensures
        cr_ty(r) == unary_result(op, t@, span),
{
    match t {
        Type::Unknown => return Ok(Type::Unknown),
        _ => {},
    }
    match op {
        UnaryOp::Neg => {
            if t.equals(&Type::Int) || t.equals(&Type::Float) {
                Ok(t)
            } else {
                Err(error_at(msg_type("cannot negate ", &t), span))
            }
        },
        UnaryOp::Not => {
            if t.equals(&Type::Bool) {
                Ok(Type::Bool)
            } else {
                Err(error_at(msg_type("'not' requires Bool, found ", &t), span))
            }
        },
    }
}

fn index_type(ot: &Type, it: &Type, index_span: Span, span: Span) -> (r: Result<Type, CompileError>)
    ensures
        cr_ty(r) == index_result(ot@, it@, index_span, span),
{
    match ot {
        Type::List(inner) => {
            if !types_compatible(it, &Type::Int) {
                return Err(error_at(msg_type("list index must be Int, found ", it), index_span));
            }
            Ok((**inner).duplicate())
        },
        Type::Unknown => Ok(Type::Unknown),
        _ => Err(error_at(msg_type("cannot index into ", ot), span)),
    }
}


impl TypeChecker {
    /// The type of a call.
    fn synth_call(&self, call: &CallExpr) -> (r: Result<Type, CompileError>)
        ensures
            cr_ty(r) == s_synth(
                self.env@,
                crate::ast::ExprV::Call(Box::new(expr_v(call.callee)), exprs_v(call.args@), call.span),
            ),
        decreases call, 0int,
    {
        let ct = match self.synth(&call.callee) {
            Err(e) => return Err(e),
            Ok(t) => t,
        };
        match &ct {
            Type::Function(f) => {
                if call.args.len() != f.param_types.len() {
                    let mut s = string_from("expected ");
                    push_decimal(&mut s, f.param_types.len());
                    push_str(&mut s, " arguments, found ");
                    push_decimal(&mut s, call.args.len());
                    proof {
                        assert(tys_v(f.param_types@).len() == f.param_types@.len());
                        assert(exprs_v(call.args@).len() == call.args@.len());
                    }
                    return Err(error_at(s, call.span));
                }
                let ats = match self.synth_all(&call.args) {
                    Err(e) => return Err(e),
                    Ok(v) => v,
                };
                assert(ct@ == TypeV::Function(tparams_v(f.type_params@), tys_v(f.param_types@), Box::new(f.return_type@)));
                let r = self.call_type(f, &ats, call.span);
                assert(cr_ty(r) == call_result(self.env@, tparams_v(f.type_params@), tys_v(f.param_types@), f.return_type@, tys_v(ats@), call.span));
                r
            },
            Type::Unknown => {
                match self.synth_all(&call.args) {
                    Err(e) => return Err(e),
                    Ok(_) => {},
                }
                Ok(Type::Unknown)
            },
            _ => {
                let mut s = ct.to_string();
                push_str(&mut s, " is not callable");
                let sp = call.callee.span();
                assert(!(ct@ is Function) && !(ct@ is Unknown));
                Err(error_at(s, sp))
            },
        }
    }

    /// The result of calling a function of type `f` with arguments of types `ats`.
    #[verifier::rlimit(40)]
    fn call_type(&self, f: &FunctionType, ats: &Vec<Type>, sp: Span) -> (r: Result<Type, CompileError>)
        ensures
            cr_ty(r) == call_result(self.env@, tparams_v(f.type_params@), tys_v(f.param_types@), f.return_type@, tys_v(ats@), sp),
    {
        let ghost tps = tparams_v(f.type_params@);
        let ghost ps = tys_v(f.param_types@);
        let ghost av = tys_v(ats@);
        let mut bindings: Vec<(String, Type)> = Vec::new();
        let mut i: usize = 0;
        while i < f.type_params.len()
            invariant
                tps == tparams_v(f.type_params@),
                i <= f.type_params.len(),
                bview(bindings@) == unbound_all(tps).take(i as int),
            decreases f.type_params.len() - i,
        {
            let ghost b0 = bview(bindings@);
            bindings.push((f.type_params[i].0.clone(), Type::NoneType));
            proof {
                assert(bview(bindings@) =~= b0.push((tps[i as int].0, TypeV::NoneType)));
                assert(unbound_all(tps).take(i + 1) =~= unbound_all(tps).take(i as int).push(unbound_all(tps)[i as int]));
            }
            i = i + 1;
        }
        let ghost init = bview(bindings@);
        assert(init =~= unbound_all(tps));
        let n = if ats.len() < f.param_types.len() { ats.len() } else { f.param_types.len() };
        let mut k: usize = 0;
        while k < n
            invariant
                ps == tys_v(f.param_types@),
                av == tys_v(ats@),
                n <= ats.len(),
                n <= f.param_types.len(),
                k <= n,
                bview(bindings@) == bind_all(init, ps, av, k as int),
            decreases n - k,
        {
            infer_typevar_binding(&f.param_types[k], &ats[k], &mut bindings);
            k = k + 1;
        }
        let ghost bs = bview(bindings@);
        assert(bs == call_bindings(tps, ps, av));
        let mut u: usize = 0;
        while u < bindings.len()
            invariant
                bs == bview(bindings@),
                tps == tparams_v(f.type_params@),
                ps == tys_v(f.param_types@),
                av == tys_v(ats@),
                bs == call_bindings(tps, ps, av),
                u <= bindings.len(),
                first_unbound(bs, 0) == first_unbound(bs, u as int),
            decreases bindings.len() - u,
        {
            if bindings[u].1.equals(&Type::NoneType) {
                let s = msg_name("could not infer type for type parameter ", &bindings[u].0);
                return Err(error_at(s, sp));
            }
            u = u + 1;
        }
        let mut a: usize = 0;
        while a < f.type_params.len()
            invariant
                tps == tparams_v(f.type_params@),
                ps == tys_v(f.param_types@),
                av == tys_v(ats@),
                bs == call_bindings(tps, ps, av),
                bs == bview(bindings@),
                a <= f.type_params.len(),
                first_unbound(bs, 0) is None,
                first_unmet(self.env@, tps, bs, 0, 0) == first_unmet(self.env@, tps, bs, a as int, 0),
            decreases f.type_params.len() - a,
        {
            let concrete = find_bound(&bindings, &f.type_params[a].0);
            let cs = &f.type_params[a].1;
            let mut b: usize = 0;
            while b < cs.len()
                invariant
                    tps == tparams_v(f.type_params@),
                    ps == tys_v(f.param_types@),
                    av == tys_v(ats@),
                    bs == call_bindings(tps, ps, av),
                    first_unbound(bs, 0) is None,
                    bs == bview(bindings@),
                    a < f.type_params.len(),
                    b <= cs.len(),
                    cs == &f.type_params@[a as int].1,
                    concrete@ == bound_type(bs, tps[a as int].0, 0),
                    first_unmet(self.env@, tps, bs, 0, 0) == first_unmet(self.env@, tps, bs, a as int, b as int),
                decreases cs.len() - b,
            {
                let c = &cs[b];
                let arity: usize = match self.env.lookup_typeclass(c.as_str()) {
                    Some(tc) => tc.type_params.len(),
                    None => 3,
                };
                proof {
                    assert(tps[a as int].1[b as int] == c@);
                    assert(arity == tc_arity(self.env@, c@));
                }
                let args = repeat_type(&concrete, arity);
                if self.env.lookup_instance(c.as_str(), args.as_slice()).is_none() {
                    let mut s = msg_type("type ", &concrete);
                    push_str(&mut s, " does not satisfy constraint ");
                    push_string(&mut s, c);
                    return Err(error_at(s, sp));
                }
                b = b + 1;
            }
            a = a + 1;
        }
        let mut result = (*f.return_type).duplicate();
        let mut q: usize = 0;
        while q < bindings.len()
            invariant
                bs == bview(bindings@),
                q <= bindings.len(),
                result@ == subst_all(f.return_type@, bs, q as int),
            decreases bindings.len() - q,
        {
            result = substitute_typevar(&result, &bindings[q].0, &bindings[q].1);
            q = q + 1;
        }
        if f.type_params.len() == 0 {
            let mut m: usize = 0;
            while m < ats.len() && m < f.param_types.len()
                invariant
                    ps == tys_v(f.param_types@),
                    av == tys_v(ats@),
                    tps == tparams_v(f.type_params@),
                    tps.len() == 0,
                    bs == call_bindings(tps, ps, av),
                    first_unbound(bs, 0) is None,
                    first_unmet(self.env@, tps, bs, 0, 0) is None,
                    m <= ats.len(),
                    first_mismatch(av, ps, 0) == first_mismatch(av, ps, m as int),
                decreases ats.len() - m,
            {
                if !types_compatible(&ats[m], &f.param_types[m]) {
                    let s = msg_types("argument type mismatch: expected ", &f.param_types[m], ", found ", &ats[m]);
                    return Err(error_at(s, sp));
                }
                m = m + 1;
            }
        }
        Ok(result)
    }
}

/// The type bound to `name` (the first entry with that name; unknown when there is none).
fn find_bound(bindings: &Vec<(String, Type)>, name: &String) -> (t: Type)
    ensures
        t@ == bound_type(bview(bindings@), name@, 0),
{
    let ghost bs = bview(bindings@);
    let mut k: usize = 0;
    while k < bindings.len()
        invariant
            bs == bview(bindings@),
            k <= bindings.len(),
            bound_type(bs, name@, 0) == bound_type(bs, name@, k as int),
        decreases bindings.len() - k,
    {
        if str_eq(&bindings[k].0, name) {
            return bindings[k].1.duplicate();
        }
        k = k + 1;
    }
    Type::Unknown
}

/// `n` copies of `t`.
pub(crate) fn repeat_type(t: &Type, n: usize) -> (v: Vec<Type>)
    ensures
        tys_v(v@) == copies(n as nat, t@),
{
    let mut v: Vec<Type> = Vec::new();
    let mut i: usize = 0;
    while i < n
        invariant
            i <= n,
            v@.len() == i,
            forall|j: int| 0 <= j < i ==> (#[trigger] v@[j])@ == t@,
        decreases n - i,
    {
        v.push(t.duplicate());
        i = i + 1;
    }
    assert(tys_v(v@) =~= copies(n as nat, t@));
    v
}

} // verus!
