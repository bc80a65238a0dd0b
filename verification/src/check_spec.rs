//! What type checking yields, stated over views: the type of an expression
//! in an environment, and the environment after a statement, or the first
//! error met.

use vstd::prelude::*;
use crate::ast::{
    BinOp, ExprV, FieldDeclV, FuncDefV, ImplKindV, ImportKindV, ImportNameV, MethodSigV, ParamV,
    StatementV, TypeExprV, TypeParamDefV, UnaryOp, expr_span,
};
use crate::environment::{
    BindingV, InstanceV, MethodSigV as SigV, ScopeV, TypeclassV, empty_scope, scope_lookup, scope_lookup_instance,
    scope_lookup_method, scope_lookup_type, scope_lookup_typeclass,
};
use crate::errors::{DiagView, spec_error};
use crate::source::Span;
use crate::text::decimal;
use crate::types::{TypeV, join, type_text};

verus! {

pub type CR<T> = Result<T, DiagView>;

// ---------------------------------------------------------------------------
// Changes to an environment
// ---------------------------------------------------------------------------

pub open spec fn env_define(fs: Seq<ScopeV>, name: Seq<char>, t: TypeV, mutable: bool) -> Seq<ScopeV> {
    fs.update(0, ScopeV { bindings: fs[0].bindings.insert(name, BindingV { ty: t, mutable }), ..fs[0] })
}

pub open spec fn env_define_type(fs: Seq<ScopeV>, name: Seq<char>, t: TypeV) -> Seq<ScopeV> {
    fs.update(0, ScopeV { types: fs[0].types.insert(name, t), ..fs[0] })
}

pub open spec fn env_define_typeclass(fs: Seq<ScopeV>, name: Seq<char>, c: TypeclassV) -> Seq<ScopeV> {
    fs.update(0, ScopeV { typeclasses: fs[0].typeclasses.insert(name, c), ..fs[0] })
}

pub open spec fn env_define_instance(fs: Seq<ScopeV>, tc: Seq<char>, i: InstanceV) -> Seq<ScopeV> {
    fs.update(0, ScopeV { instances: fs[0].instances.push((tc, i)), ..fs[0] })
}

pub open spec fn env_define_method(fs: Seq<ScopeV>, ty: Seq<char>, m: Seq<char>, t: TypeV) -> Seq<ScopeV> {
    fs.update(0, ScopeV { methods: fs[0].methods.insert((ty, m), t), ..fs[0] })
}

pub open spec fn env_child(fs: Seq<ScopeV>) -> Seq<ScopeV> {
    seq![empty_scope()] + fs
}

// ---------------------------------------------------------------------------
// The built-in environment
// ---------------------------------------------------------------------------

pub open spec fn fn_type(ps: Seq<TypeV>, ret: TypeV) -> TypeV {
    TypeV::Function(Seq::empty(), ps, Box::new(ret))
}

pub open spec fn builtin_typeclass(name: Seq<char>, method: Seq<char>) -> TypeclassV {
    TypeclassV {
        name,
        type_params: seq!["L"@, "R"@, "Out"@],
        methods: seq![SigV {
            name: method,
            param_types: seq![TypeV::TypeVar("L"@), TypeV::TypeVar("R"@)],
            return_type: TypeV::TypeVar("Out"@),
        }],
    }
}

pub open spec fn builtin_instance(tc: Seq<char>, l: TypeV, r: TypeV, o: TypeV) -> (Seq<char>, InstanceV) {
    (tc, InstanceV { typeclass_name: tc, type_args: seq![l, r, o], is_builtin: true })
}

/// The instances every program starts with, in the order they are declared.
pub open spec fn builtin_instances() -> Seq<(Seq<char>, InstanceV)> {
    Seq::empty()
        .push(builtin_instance("Add"@, TypeV::Int, TypeV::Int, TypeV::Int))
        .push(builtin_instance("Add"@, TypeV::Float, TypeV::Float, TypeV::Float))
        .push(builtin_instance("Sub"@, TypeV::Int, TypeV::Int, TypeV::Int))
        .push(builtin_instance("Sub"@, TypeV::Float, TypeV::Float, TypeV::Float))
        .push(builtin_instance("Mul"@, TypeV::Int, TypeV::Int, TypeV::Int))
        .push(builtin_instance("Mul"@, TypeV::Float, TypeV::Float, TypeV::Float))
        .push(builtin_instance("Div"@, TypeV::Int, TypeV::Int, TypeV::Int))
        .push(builtin_instance("Div"@, TypeV::Float, TypeV::Float, TypeV::Float))
        .push(builtin_instance("Add"@, TypeV::Str, TypeV::Str, TypeV::Str))
        .push(builtin_instance("Eq"@, TypeV::Int, TypeV::Int, TypeV::Bool))
        .push(builtin_instance("Eq"@, TypeV::Float, TypeV::Float, TypeV::Bool))
        .push(builtin_instance("Eq"@, TypeV::Str, TypeV::Str, TypeV::Bool))
        .push(builtin_instance("Eq"@, TypeV::Bool, TypeV::Bool, TypeV::Bool))
        .push(builtin_instance("Ord"@, TypeV::Int, TypeV::Int, TypeV::Bool))
        .push(builtin_instance("Ord"@, TypeV::Float, TypeV::Float, TypeV::Bool))
}

/// The scope every program starts in: `print`, `len` and `range`, the
/// operator typeclasses and their instances over the built-in types.
pub open spec fn builtin_scope() -> ScopeV {
    ScopeV {
        bindings: Map::empty()
            .insert("print"@, BindingV { ty: fn_type(seq![TypeV::Unknown], TypeV::NoneType), mutable: false })
            .insert("len"@, BindingV { ty: fn_type(seq![TypeV::Unknown], TypeV::Int), mutable: false })
            .insert("range"@, BindingV { ty: fn_type(seq![TypeV::Int], TypeV::List(Box::new(TypeV::Int))), mutable: false }),
        types: Map::empty(),
        typeclasses: Map::empty()
            .insert("Add"@, builtin_typeclass("Add"@, "add"@))
            .insert("Sub"@, builtin_typeclass("Sub"@, "sub"@))
            .insert("Mul"@, builtin_typeclass("Mul"@, "mul"@))
            .insert("Div"@, builtin_typeclass("Div"@, "div"@))
            .insert("Eq"@, builtin_typeclass("Eq"@, "eq"@))
            .insert("Ord"@, builtin_typeclass("Ord"@, "lt"@)),
        instances: builtin_instances(),
        methods: Map::empty(),
    }
}

// ---------------------------------------------------------------------------
// Types
// ---------------------------------------------------------------------------

/// Two types agree when they are equal or either is unknown.
pub open spec fn compat(a: TypeV, b: TypeV) -> bool {
    a is Unknown || b is Unknown || a == b
}

/// The short name of a type.
pub open spec fn short_name(t: TypeV) -> Seq<char>
    decreases t,
{
    match t {
        TypeV::Int => "Int"@,
        TypeV::Float => "Float"@,
        TypeV::Str => "Str"@,
        TypeV::Bool => "Bool"@,
        TypeV::NoneType => "None"@,
        TypeV::Data(n, _) => n,
        TypeV::Function(_, _, _) => "Function"@,
        TypeV::TypeVar(n) => n,
        TypeV::List(inner) => "List["@ + short_name(*inner) + "]"@,
        TypeV::Module(n) => n,
        TypeV::Unknown => "Unknown"@,
    }
}

/// The typeclass behind an operator, and its method.
pub open spec fn op_typeclass(op: BinOp) -> Option<(Seq<char>, Seq<char>)> {
    match op {
        BinOp::Add => Some(("Add"@, "add"@)),
        BinOp::Sub => Some(("Sub"@, "sub"@)),
        BinOp::Mul => Some(("Mul"@, "mul"@)),
        BinOp::Div => Some(("Div"@, "div"@)),
        BinOp::Eq | BinOp::NotEq => Some(("Eq"@, "eq"@)),
        BinOp::Lt | BinOp::Gt | BinOp::LtEq | BinOp::GtEq => Some(("Ord"@, "lt"@)),
        BinOp::And | BinOp::Or => None,
    }
}

/// A type annotation read in an environment.
pub open spec fn s_resolve(env: Seq<ScopeV>, t: TypeExprV) -> CR<TypeV>
    decreases t,
{
    match t {
        TypeExprV::Named(n, sp) => if n == "Int"@ {
            Ok(TypeV::Int)
        } else if n == "Float"@ {
            Ok(TypeV::Float)
        } else if n == "Str"@ {
            Ok(TypeV::Str)
        } else if n == "Bool"@ {
            Ok(TypeV::Bool)
        } else if n == "None"@ {
            Ok(TypeV::NoneType)
        } else {
            match scope_lookup_type(env, n) {
                Some(ty) => Ok(ty),
                None => Err(spec_error("unknown type: "@ + n, sp)),
            }
        },
        TypeExprV::Parameterized(n, args, sp) => if n == "List"@ && args.len() == 1 {
            match s_resolve(env, args[0]) {
                Err(e) => Err(e),
                Ok(inner) => Ok(TypeV::List(Box::new(inner))),
            }
        } else {
            Err(spec_error("parameterized types not yet supported: "@ + n, sp))
        },
        TypeExprV::Function(_, _, sp) => Err(spec_error("function types not yet supported in annotations"@, sp)),
    }
}

/// A type annotation where the function's type parameters stand for type variables.
pub open spec fn s_resolve_tv(env: Seq<ScopeV>, t: TypeExprV, tps: Seq<TypeParamDefV>) -> CR<TypeV> {
    match t {
        TypeExprV::Named(n, _) => if exists|i: int| 0 <= i < tps.len() && tps[i].name == n {
            Ok(TypeV::TypeVar(n))
        } else {
            s_resolve(env, t)
        },
        _ => s_resolve(env, t),
    }
}

/// A type annotation where the typeclass's parameters stand for type variables.
pub open spec fn s_resolve_tc(env: Seq<ScopeV>, t: TypeExprV, names: Seq<Seq<char>>) -> CR<TypeV> {
    match t {
        TypeExprV::Named(n, _) => if names.contains(n) { Ok(TypeV::TypeVar(n)) } else { s_resolve(env, t) },
        _ => s_resolve(env, t),
    }
}

/// `ty` with the type variable `param` replaced by `concrete`, in it and in
/// function types (not inside lists or data types).
pub open spec fn subst(ty: TypeV, param: Seq<char>, concrete: TypeV) -> TypeV
    decreases ty,
{
    match ty {
        TypeV::TypeVar(n) => if n == param { concrete } else { ty },
        TypeV::Function(tps, ps, r) => TypeV::Function(tps, subst_list(ps, param, concrete), Box::new(subst(*r, param, concrete))),
        _ => ty,
    }
}

pub open spec fn subst_list(ps: Seq<TypeV>, param: Seq<char>, concrete: TypeV) -> Seq<TypeV>
    decreases ps,
{
    Seq::new(ps.len(), |i: int| if 0 <= i < ps.len() { subst(ps[i], param, concrete) } else { TypeV::Unknown })
}

/// `n` copies of `t`.
pub open spec fn copies(n: nat, t: TypeV) -> Seq<TypeV> {
    Seq::new(n, |k: int| t)
}

/// Every type parameter, not yet bound.
pub open spec fn unbound_all(tps: Seq<(Seq<char>, Seq<Seq<char>>)>) -> Seq<(Seq<char>, TypeV)> {
    Seq::new(tps.len(), |i: int| (tps[i].0, TypeV::NoneType))
}

// ---------------------------------------------------------------------------
// Calls of generic functions
// ---------------------------------------------------------------------------

/// Binds the first still-unbound entry named `n`, from position `k` on, to `arg`.
pub open spec fn bind_first(bs: Seq<(Seq<char>, TypeV)>, n: Seq<char>, arg: TypeV, k: int) -> Seq<(Seq<char>, TypeV)>
    decreases bs.len() - k,
{
    if k >= bs.len() || k < 0 {
        bs
    } else if bs[k].0 == n && bs[k].1 == TypeV::NoneType {
        bs.update(k, (n, arg))
    } else {
        bind_first(bs, n, arg, k + 1)
    }
}

/// One type-variable binding step: a parameter that is a type variable binds
/// the first still-unbound entry of that name to the argument's type.
pub open spec fn bind_step(bs: Seq<(Seq<char>, TypeV)>, param: TypeV, arg: TypeV) -> Seq<(Seq<char>, TypeV)> {
    match param {
        TypeV::TypeVar(n) => bind_first(bs, n, arg, 0),
        _ => bs,
    }
}

/// The bindings after every (parameter, argument) pair up to `k`.
pub open spec fn bind_all(bs: Seq<(Seq<char>, TypeV)>, ps: Seq<TypeV>, ats: Seq<TypeV>, k: int) -> Seq<(Seq<char>, TypeV)>
    decreases k,
{
    if k <= 0 { bs } else { bind_step(bind_all(bs, ps, ats, k - 1), ps[k - 1], ats[k - 1]) }
}

/// The first type parameter left unbound, if any.
pub open spec fn first_unbound(bs: Seq<(Seq<char>, TypeV)>, k: int) -> Option<Seq<char>>
    decreases bs.len() - k,
{
    if k >= bs.len() || k < 0 {
        None
    } else if bs[k].1 == TypeV::NoneType {
        Some(bs[k].0)
    } else {
        first_unbound(bs, k + 1)
    }
}

/// The type bound to `name` (the first entry with that name).
pub open spec fn bound_type(bs: Seq<(Seq<char>, TypeV)>, name: Seq<char>, k: int) -> TypeV
    decreases bs.len() - k,
{
    if k >= bs.len() || k < 0 {
        TypeV::Unknown
    } else if bs[k].0 == name {
        bs[k].1
    } else {
        bound_type(bs, name, k + 1)
    }
}

/// The number of type arguments of the typeclass named `c` (three when it is unknown).
pub open spec fn tc_arity(env: Seq<ScopeV>, c: Seq<char>) -> nat {
    match scope_lookup_typeclass(env, c) {
        Some(tc) => tc.type_params.len(),
        None => 3,
    }
}

/// The first constraint, in declaration order, that the bound types do not meet.
pub open spec fn first_unmet(
    env: Seq<ScopeV>,
    tps: Seq<(Seq<char>, Seq<Seq<char>>)>,
    bs: Seq<(Seq<char>, TypeV)>,
    i: int,
    j: int,
) -> Option<(TypeV, Seq<char>)>
    decreases tps.len() - i, if 0 <= i < tps.len() { tps[i].1.len() - j } else { 0 },
{
    if i >= tps.len() || i < 0 {
        None
    } else if j >= tps[i].1.len() || j < 0 {
        first_unmet(env, tps, bs, i + 1, 0)
    } else {
        let concrete = bound_type(bs, tps[i].0, 0);
        let c = tps[i].1[j];
        let args = copies(tc_arity(env, c), concrete);
        if scope_lookup_instance(env, c, args, false) is None {
            Some((concrete, c))
        } else {
            first_unmet(env, tps, bs, i, j + 1)
        }
    }
}

/// `ty` with each bound type variable replaced, in binding order.
pub open spec fn subst_all(ty: TypeV, bs: Seq<(Seq<char>, TypeV)>, k: int) -> TypeV
    decreases k,
{
    if k <= 0 { ty } else { subst(subst_all(ty, bs, k - 1), bs[k - 1].0, bs[k - 1].1) }
}

/// The first argument whose type does not agree with its parameter's.
pub open spec fn first_mismatch(ats: Seq<TypeV>, ps: Seq<TypeV>, k: int) -> Option<(TypeV, TypeV)>
    decreases ats.len() - k,
{
    if k >= ats.len() || k >= ps.len() || k < 0 {
        None
    } else if !compat(ats[k], ps[k]) {
        Some((ps[k], ats[k]))
    } else {
        first_mismatch(ats, ps, k + 1)
    }
}

/// The type-variable bindings a call's arguments make.
pub open spec fn call_bindings(tps: Seq<(Seq<char>, Seq<Seq<char>>)>, ps: Seq<TypeV>, ats: Seq<TypeV>) -> Seq<(Seq<char>, TypeV)> {
    let n = if ats.len() < ps.len() { ats.len() as int } else { ps.len() as int };
    bind_all(unbound_all(tps), ps, ats, n)
}

/// The result of calling a function of type `(tps, ps) -> ret` with
/// arguments of types `ats`.
pub open spec fn call_result(
    env: Seq<ScopeV>,
    tps: Seq<(Seq<char>, Seq<Seq<char>>)>,
    ps: Seq<TypeV>,
    ret: TypeV,
    ats: Seq<TypeV>,
    sp: Span,
) -> CR<TypeV> {
    let bs = call_bindings(tps, ps, ats);
    match first_unbound(bs, 0) {
        Some(name) => Err(spec_error("could not infer type for type parameter "@ + name, sp)),
        None => match first_unmet(env, tps, bs, 0, 0) {
            Some((t, c)) => Err(spec_error("type "@ + type_text(t) + " does not satisfy constraint "@ + c, sp)),
            None => if tps.len() == 0 && first_mismatch(ats, ps, 0) is Some {
                let (exp, found) = first_mismatch(ats, ps, 0)->Some_0;
                Err(spec_error("argument type mismatch: expected "@ + type_text(exp) + ", found "@ + type_text(found), sp))
            } else {
                Ok(subst_all(ret, bs, bs.len() as int))
            },
        },
    }
}

// ---------------------------------------------------------------------------
// The type of an expression
// ---------------------------------------------------------------------------

pub open spec fn unary_result(op: UnaryOp, t: TypeV, sp: Span) -> CR<TypeV> {
    if t is Unknown {
        Ok(TypeV::Unknown)
    } else if op == UnaryOp::Neg {
        if t == TypeV::Int || t == TypeV::Float {
            Ok(t)
        } else {
            Err(spec_error("cannot negate "@ + type_text(t), sp))
        }
    } else if t == TypeV::Bool {
        Ok(TypeV::Bool)
    } else {
        Err(spec_error("'not' requires Bool, found "@ + type_text(t), sp))
    }
}

pub open spec fn binop_result(env: Seq<ScopeV>, op: BinOp, lt: TypeV, rt: TypeV, sp: Span) -> CR<TypeV> {
    if lt is Unknown || rt is Unknown {
        Ok(TypeV::Unknown)
    } else if op == BinOp::And || op == BinOp::Or {
        if lt != TypeV::Bool || rt != TypeV::Bool {
            Err(spec_error("logical operators require Bool, found "@ + type_text(lt) + " and "@ + type_text(rt), sp))
        } else {
            Ok(TypeV::Bool)
        }
    } else {
        let tc = op_typeclass(op)->Some_0.0;
        match scope_lookup_instance(env, tc, seq![lt, rt], true) {
            Some(inst) => Ok(if inst.type_args.len() > 0 { inst.type_args.last() } else { TypeV::NoneType }),
            None => Err(spec_error("no instance of "@ + tc + " for "@ + type_text(lt) + " and "@ + type_text(rt), sp)),
        }
    }
}

/// The first field of a data type named `a`.
pub open spec fn field_type(fields: Seq<(Seq<char>, TypeV)>, a: Seq<char>, k: int) -> Option<TypeV>
    decreases fields.len() - k,
{
    if k >= fields.len() || k < 0 {
        None
    } else if fields[k].0 == a {
        Some(fields[k].1)
    } else {
        field_type(fields, a, k + 1)
    }
}

pub open spec fn attr_result(env: Seq<ScopeV>, t: TypeV, a: Seq<char>, sp: Span) -> CR<TypeV> {
    match t {
        TypeV::Data(name, fields) => match field_type(fields, a, 0) {
            Some(ft) => Ok(ft),
            None => match scope_lookup_method(env, name, a) {
                Some(mt) => Ok(mt),
                None => Err(spec_error("type "@ + name + " has no field or method '"@ + a + "'"@, sp)),
            },
        },
        TypeV::Module(_) => Ok(TypeV::Unknown),
        TypeV::Unknown => Ok(TypeV::Unknown),
        _ => Err(spec_error("cannot access attribute on "@ + type_text(t), sp)),
    }
}

pub open spec fn index_result(ot: TypeV, it: TypeV, index_span: Span, sp: Span) -> CR<TypeV> {
    match ot {
        TypeV::List(inner) => if !compat(it, TypeV::Int) {
            Err(spec_error("list index must be Int, found "@ + type_text(it), index_span))
        } else {
            Ok(*inner)
        },
        TypeV::Unknown => Ok(TypeV::Unknown),
        _ => Err(spec_error("cannot index into "@ + type_text(ot), sp)),
    }
}

/// The type of an expression in `env`.
pub open spec fn s_synth(env: Seq<ScopeV>, e: ExprV) -> CR<TypeV>
    decreases e, 1int,
{
    match e {
        ExprV::IntLiteral(_, _) => Ok(TypeV::Int),
        ExprV::FloatLiteral(_, _) => Ok(TypeV::Float),
        ExprV::StringLiteral(_, _) => Ok(TypeV::Str),
        ExprV::BoolLiteral(_, _) => Ok(TypeV::Bool),
        ExprV::NoneLiteral(_) => Ok(TypeV::NoneType),
        ExprV::Name(n, sp) => match scope_lookup(env, n) {
            Some(b) => Ok(b.ty),
            None => Err(spec_error("undefined variable: "@ + n, sp)),
        },
        ExprV::BinOp(l, op, r, sp) => match s_synth(env, *l) {
            Err(x) => Err(x),
            Ok(lt) => match s_synth(env, *r) {
                Err(x) => Err(x),
                Ok(rt) => binop_result(env, op, lt, rt, sp),
            },
        },
        ExprV::UnaryOp(op, o, sp) => match s_synth(env, *o) {
            Err(x) => Err(x),
            Ok(t) => unary_result(op, t, sp),
        },
        ExprV::Call(c, args, sp) => match s_synth(env, *c) {
            Err(x) => Err(x),
            Ok(ct) => match ct {
                TypeV::Function(tps, ps, ret) => if args.len() != ps.len() {
                    Err(spec_error("expected "@ + decimal(ps.len()) + " arguments, found "@ + decimal(args.len()), sp))
                } else {
                    match s_synth_all(env, args, 0) {
                        Err(x) => Err(x),
                        Ok(ats) => call_result(env, tps, ps, *ret, ats, sp),
                    }
                },
                TypeV::Unknown => match s_synth_all(env, args, 0) {
                    Err(x) => Err(x),
                    Ok(_) => Ok(TypeV::Unknown),
                },
                _ => Err(spec_error(type_text(ct) + " is not callable"@, expr_span(*c))),
            },
        },
        ExprV::Attr(o, a, sp) => match s_synth(env, *o) {
            Err(x) => Err(x),
            Ok(t) => attr_result(env, t, a, sp),
        },
        ExprV::ListLiteral(es, sp) => if es.len() == 0 {
            Err(spec_error("cannot infer type of empty list; use a type annotation"@, sp))
        } else {
            match s_synth(env, es[0]) {
                Err(x) => Err(x),
                Ok(first) => match s_list_rest(env, es, 1, first) {
                    Err(x) => Err(x),
                    Ok(_) => Ok(TypeV::List(Box::new(first))),
                },
            }
        },
        ExprV::Index(o, i, sp) => match s_synth(env, *o) {
            Err(x) => Err(x),
            Ok(ot) => match s_synth(env, *i) {
                Err(x) => Err(x),
                Ok(it) => index_result(ot, it, expr_span(*i), sp),
            },
        },
    }
}

/// The types of `es` from position `k` on, or the first error.
pub open spec fn s_synth_all(env: Seq<ScopeV>, es: Seq<ExprV>, k: int) -> CR<Seq<TypeV>>
    decreases es, es.len() - k,
{
    if k >= es.len() || k < 0 {
        Ok(Seq::empty())
    } else {
        match s_synth(env, es[k]) {
            Err(x) => Err(x),
            Ok(t) => match s_synth_all(env, es, k + 1) {
                Err(x) => Err(x),
                Ok(ts) => Ok(seq![t] + ts),
            },
        }
    }
}

/// The elements of a list literal from position `k` on, each of a type that
/// agrees with the first element's.
pub open spec fn s_list_rest(env: Seq<ScopeV>, es: Seq<ExprV>, k: int, first: TypeV) -> CR<()>
    decreases es, es.len() - k,
{
    if k >= es.len() || k < 0 {
        Ok(())
    } else {
        match s_synth(env, es[k]) {
            Err(x) => Err(x),
            Ok(t) => if !compat(t, first) {
                Err(spec_error(
                    "list element type mismatch: expected "@ + type_text(first) + ", found "@ + type_text(t),
                    expr_span(es[k]),
                ))
            } else {
                s_list_rest(env, es, k + 1, first)
            },
        }
    }
}


// ---------------------------------------------------------------------------
// Statements
// ---------------------------------------------------------------------------

pub open spec fn mismatch(expected: TypeV, found: TypeV, sp: Span) -> DiagView {
    spec_error("type mismatch: expected "@ + type_text(expected) + ", found "@ + type_text(found), sp)
}

/// A condition, which must be of type `Bool`.
pub open spec fn s_cond(env: Seq<ScopeV>, c: ExprV) -> CR<()> {
    match s_synth(env, c) {
        Err(x) => Err(x),
        Ok(t) => if t != TypeV::Bool {
            Err(spec_error("condition must be Bool, found "@ + type_text(t), expr_span(c)))
        } else {
            Ok(())
        },
    }
}

/// The fields of a data declaration with their types resolved, from `k` on.
pub open spec fn s_field_types(env: Seq<ScopeV>, fs: Seq<FieldDeclV>, k: int) -> CR<Seq<(Seq<char>, TypeV)>>
    decreases fs.len() - k,
{
    if k >= fs.len() || k < 0 {
        Ok(Seq::empty())
    } else {
        match s_resolve(env, fs[k].type_annotation) {
            Err(x) => Err(x),
            Ok(t) => match s_field_types(env, fs, k + 1) {
                Err(x) => Err(x),
                Ok(rest) => Ok(seq![(fs[k].name, t)] + rest),
            },
        }
    }
}

pub open spec fn snds(fs: Seq<(Seq<char>, TypeV)>) -> Seq<TypeV> {
    Seq::new(fs.len(), |i: int| fs[i].1)
}

/// The parameter types of a typeclass method signature, from `k` on.
pub open spec fn s_sig_params(env: Seq<ScopeV>, ps: Seq<ParamV>, tcp: Seq<Seq<char>>, k: int) -> CR<Seq<TypeV>>
    decreases ps.len() - k,
{
    if k >= ps.len() || k < 0 {
        Ok(Seq::empty())
    } else {
        match ps[k].type_annotation {
            None => Err(spec_error("typeclass method parameters require type annotations"@, ps[k].span)),
            Some(ann) => match s_resolve_tc(env, ann, tcp) {
                Err(x) => Err(x),
                Ok(t) => match s_sig_params(env, ps, tcp, k + 1) {
                    Err(x) => Err(x),
                    Ok(rest) => Ok(seq![t] + rest),
                },
            },
        }
    }
}

/// The signatures of a typeclass's methods, from `k` on.
pub open spec fn s_sigs(env: Seq<ScopeV>, sigs: Seq<MethodSigV>, tcp: Seq<Seq<char>>, k: int) -> CR<Seq<SigV>>
    decreases sigs.len() - k,
{
    if k >= sigs.len() || k < 0 {
        Ok(Seq::empty())
    } else {
        match s_sig_params(env, sigs[k].params, tcp, 0) {
            Err(x) => Err(x),
            Ok(pts) => match s_resolve_tc(env, sigs[k].return_type, tcp) {
                Err(x) => Err(x),
                Ok(rt) => match s_sigs(env, sigs, tcp, k + 1) {
                    Err(x) => Err(x),
                    Ok(rest) => Ok(seq![SigV { name: sigs[k].name, param_types: pts, return_type: rt }] + rest),
                },
            },
        }
    }
}

/// A parameter's annotation, reading the function's type parameters as type variables when it has any.
pub open spec fn s_annot(env: Seq<ScopeV>, t: TypeExprV, tps: Seq<TypeParamDefV>) -> CR<TypeV> {
    if tps.len() > 0 { s_resolve_tv(env, t, tps) } else { s_resolve(env, t) }
}

/// The types of a function's parameters, from `k` on.
pub open spec fn s_param_types(env: Seq<ScopeV>, ps: Seq<ParamV>, tps: Seq<TypeParamDefV>, k: int) -> CR<Seq<TypeV>>
    decreases ps.len() - k,
{
    if k >= ps.len() || k < 0 {
        Ok(Seq::empty())
    } else {
        match ps[k].type_annotation {
            None => Err(spec_error("parameter '"@ + ps[k].name + "' requires a type annotation"@, ps[k].span)),
            Some(ann) => match s_annot(env, ann, tps) {
                Err(x) => Err(x),
                Ok(t) => match s_param_types(env, ps, tps, k + 1) {
                    Err(x) => Err(x),
                    Ok(rest) => Ok(seq![t] + rest),
                },
            },
        }
    }
}

/// A type parameter's constraints, from `j` on: each typeclass must be known,
/// and becomes an instance over the type variable.
pub open spec fn s_constraints_env(env: Seq<ScopeV>, tp: TypeParamDefV, j: int) -> CR<Seq<ScopeV>>
    decreases tp.constraints.len() - j,
{
    if j >= tp.constraints.len() || j < 0 {
        Ok(env)
    } else {
        let c = tp.constraints[j];
        match scope_lookup_typeclass(env, c) {
            None => Err(spec_error("unknown typeclass: "@ + c, tp.span)),
            Some(tc) => s_constraints_env(
                env_define_instance(env, c, InstanceV {
                    typeclass_name: c,
                    type_args: copies(tc.type_params.len(), TypeV::TypeVar(tp.name)),
                    is_builtin: false,
                }),
                tp,
                j + 1,
            ),
        }
    }
}

/// A function's type parameters brought into scope, from `i` on.
pub open spec fn s_tparams_env(env: Seq<ScopeV>, tps: Seq<TypeParamDefV>, i: int) -> CR<Seq<ScopeV>>
    decreases tps.len() - i,
{
    if i >= tps.len() || i < 0 {
        Ok(env)
    } else {
        let env1 = env_define(env, tps[i].name, TypeV::TypeVar(tps[i].name), false);
        match s_constraints_env(env1, tps[i], 0) {
            Err(x) => Err(x),
            Ok(env2) => s_tparams_env(env2, tps, i + 1),
        }
    }
}

/// The parameters bound to their types, from `k` on.
pub open spec fn s_define_params(env: Seq<ScopeV>, ps: Seq<ParamV>, ts: Seq<TypeV>, k: int) -> Seq<ScopeV>
    decreases ps.len() - k,
{
    if k >= ps.len() || k >= ts.len() || k < 0 {
        env
    } else {
        s_define_params(env_define(env, ps[k].name, ts[k], false), ps, ts, k + 1)
    }
}

/// A method's annotated parameters bound in its scope, from `k` on.
pub open spec fn s_method_params(env: Seq<ScopeV>, ps: Seq<ParamV>, k: int) -> CR<Seq<ScopeV>>
    decreases ps.len() - k,
{
    if k >= ps.len() || k < 0 {
        Ok(env)
    } else {
        match ps[k].type_annotation {
            None => s_method_params(env, ps, k + 1),
            Some(ann) => match s_resolve(env, ann) {
                Err(x) => Err(x),
                Ok(t) => s_method_params(env_define(env, ps[k].name, t, false), ps, k + 1),
            },
        }
    }
}

/// The types of a method's annotated parameters, from `k` on.
pub open spec fn s_method_param_types(env: Seq<ScopeV>, ps: Seq<ParamV>, k: int) -> CR<Seq<TypeV>>
    decreases ps.len() - k,
{
    if k >= ps.len() || k < 0 {
        Ok(Seq::empty())
    } else {
        match ps[k].type_annotation {
            None => s_method_param_types(env, ps, k + 1),
            Some(ann) => match s_resolve(env, ann) {
                Err(x) => Err(x),
                Ok(t) => match s_method_param_types(env, ps, k + 1) {
                    Err(x) => Err(x),
                    Ok(rest) => Ok(seq![t] + rest),
                },
            },
        }
    }
}

pub open spec fn s_resolve_all(env: Seq<ScopeV>, ts: Seq<TypeExprV>, k: int) -> CR<Seq<TypeV>>
    decreases ts.len() - k,
{
    if k >= ts.len() || k < 0 {
        Ok(Seq::empty())
    } else {
        match s_resolve(env, ts[k]) {
            Err(x) => Err(x),
            Ok(t) => match s_resolve_all(env, ts, k + 1) {
                Err(x) => Err(x),
                Ok(rest) => Ok(seq![t] + rest),
            },
        }
    }
}

pub open spec fn s_opt_type(env: Seq<ScopeV>, t: Option<TypeExprV>, tps: Seq<TypeParamDefV>) -> CR<TypeV> {
    match t {
        Some(ann) => s_annot(env, ann, tps),
        None => Ok(TypeV::NoneType),
    }
}

pub open spec fn tp_info(tps: Seq<TypeParamDefV>) -> Seq<(Seq<char>, Seq<Seq<char>>)> {
    Seq::new(tps.len(), |i: int| (tps[i].name, tps[i].constraints))
}

/// The bindings an import makes.
pub open spec fn s_import_names(env: Seq<ScopeV>, ns: Seq<ImportNameV>, k: int) -> Seq<ScopeV>
    decreases ns.len() - k,
{
    if k >= ns.len() || k < 0 {
        env
    } else {
        let n = match ns[k].alias {
            Some(a) => a,
            None => ns[k].name,
        };
        s_import_names(env_define(env, n, TypeV::Unknown, false), ns, k + 1)
    }
}

pub open spec fn s_import(env: Seq<ScopeV>, k: ImportKindV) -> Seq<ScopeV> {
    match k {
        ImportKindV::Simple { path, alias } => env_define(
            env,
            match alias {
                Some(a) => a,
                None => path[0],
            },
            TypeV::Module(join(path, "."@)),
            false,
        ),
        ImportKindV::From { names, .. } => s_import_names(env, names, 0),
    }
}

/// Every simple import of `ss` (and of the bodies within) names a module.
pub open spec fn imports_named(ss: Seq<StatementV>) -> bool
    decreases ss, 1int, ss.len(),
{
    if ss.len() == 0 {
        true
    } else {
        stmt_imports_named(ss[0]) && imports_named(ss.subrange(1, ss.len() as int))
    }
}

/// Each statement of a list whose imports all name a module names one itself.
pub proof fn lemma_imports_named(ss: Seq<StatementV>)
    requires
        imports_named(ss),
    ensures
        forall|i: int| 0 <= i < ss.len() ==> #[trigger] stmt_imports_named(ss[i]),
    decreases ss.len(),
{
    if ss.len() > 0 {
        let t = ss.subrange(1, ss.len() as int);
        lemma_imports_named(t);
        assert forall|i: int| 0 <= i < ss.len() implies #[trigger] stmt_imports_named(ss[i]) by {
            if i > 0 {
                assert(ss[i] == t[i - 1]);
            }
        }
    }
}

/// A list all of whose statements name their imports satisfies `imports_named`.
pub proof fn lemma_imports_named_intro(ss: Seq<StatementV>)
    requires
        forall|i: int| 0 <= i < ss.len() ==> #[trigger] stmt_imports_named(ss[i]),
    ensures
        imports_named(ss),
    decreases ss.len(),
{
    if ss.len() > 0 {
        let t = ss.subrange(1, ss.len() as int);
        assert forall|i: int| 0 <= i < t.len() implies #[trigger] stmt_imports_named(t[i]) by {
            assert(t[i] == ss[i + 1]);
        }
        lemma_imports_named_intro(t);
        assert(stmt_imports_named(ss[0]));
    }
}

pub open spec fn stmt_imports_named(s: StatementV) -> bool
    decreases s, 0int, 0int,
{
    match s {
        StatementV::Import { kind: ImportKindV::Simple { path, .. }, .. } => path.len() > 0,
        StatementV::FuncDef(f) => imports_named(f.body),
        StatementV::DataDecl { .. } => true,
        StatementV::If { then_body, elif_clauses, else_body, .. } => imports_named(then_body)
            && (forall|i: int| 0 <= i < elif_clauses.len() ==> imports_named(#[trigger] elif_clauses[i].1))
            && match else_body {
                Some(b) => imports_named(b),
                None => true,
            },
        StatementV::Impl { methods, .. } => forall|i: int| 0 <= i < methods.len() ==> imports_named(#[trigger] methods[i].body),
        StatementV::For { body, .. } => imports_named(body),
        StatementV::While { body, .. } => imports_named(body),
        _ => true,
    }
}

/// The environment after the statements of `ss` from `k` on.
pub open spec fn s_check_stmts(env: Seq<ScopeV>, ss: Seq<StatementV>, k: int) -> CR<Seq<ScopeV>>
    decreases ss, ss.len() - k,
{
    if k >= ss.len() || k < 0 {
        Ok(env)
    } else {
        match s_check_stmt(env, ss[k]) {
            Err(x) => Err(x),
            Ok(env2) => s_check_stmts(env2, ss, k + 1),
        }
    }
}

/// A block in a scope of its own, which is left afterwards.
pub open spec fn s_scoped(env: Seq<ScopeV>, ss: Seq<StatementV>) -> CR<Seq<ScopeV>>
    decreases ss, ss.len() + 1,
{
    match s_check_stmts(env, ss, 0) {
        Err(x) => Err(x),
        Ok(e) => Ok(e.drop_first()),
    }
}

/// The `elif` branches from `k` on.
pub open spec fn s_check_elifs(env: Seq<ScopeV>, es: Seq<(ExprV, Seq<StatementV>)>, k: int) -> CR<Seq<ScopeV>>
    decreases es, es.len() - k,
{
    if k >= es.len() || k < 0 {
        Ok(env)
    } else {
        match s_cond(env, es[k].0) {
            Err(x) => Err(x),
            Ok(_) => match s_check_stmts(env, es[k].1, 0) {
                Err(x) => Err(x),
                Ok(env2) => s_check_elifs(env2, es, k + 1),
            },
        }
    }
}

/// A function definition: it is bound in `env`, and its body is checked in
/// a scope of its own with its type parameters and parameters.
pub open spec fn s_check_func(env: Seq<ScopeV>, f: FuncDefV) -> CR<Seq<ScopeV>>
    decreases f, 0int,
{
    match s_param_types(env, f.params, f.type_params, 0) {
        Err(x) => Err(x),
        Ok(pts) => match s_opt_type(env, f.return_type, f.type_params) {
            Err(x) => Err(x),
            Ok(rt) => {
                let env1 = env_define(env, f.name, TypeV::Function(tp_info(f.type_params), pts, Box::new(rt)), false);
                match s_tparams_env(env_child(env1), f.type_params, 0) {
                    Err(x) => Err(x),
                    Ok(env3) => s_scoped(s_define_params(env3, f.params, pts, 0), f.body),
                }
            },
        }
    }
}

/// A method body checked in a scope of its own; the environment is unchanged.
pub open spec fn s_check_method(env: Seq<ScopeV>, m: FuncDefV) -> CR<()>
    decreases m, 0int,
{
    match s_method_params(env_child(env), m.params, 0) {
        Err(x) => Err(x),
        Ok(env2) => match s_check_stmts(env2, m.body, 0) {
            Err(x) => Err(x),
            Ok(_) => Ok(()),
        },
    }
}

pub open spec fn s_check_methods(env: Seq<ScopeV>, ms: Seq<FuncDefV>, k: int) -> CR<()>
    decreases ms, ms.len() - k,
{
    if k >= ms.len() || k < 0 {
        Ok(())
    } else {
        match s_check_method(env, ms[k]) {
            Err(x) => Err(x),
            Ok(_) => s_check_methods(env, ms, k + 1),
        }
    }
}

/// One method of an inherent `impl`: it is checked, and if its first
/// parameter is `self` it becomes a method of the type `tt`.
pub open spec fn s_inherent_one(env: Seq<ScopeV>, tt: Seq<char>, m: FuncDefV) -> CR<Seq<ScopeV>>
    decreases m, 1int,
{
    match s_check_method(env, m) {
        Err(x) => Err(x),
        Ok(_) => if m.params.len() > 0 && m.params[0].name == "self"@ {
            match s_method_param_types(env, m.params, 1) {
                Err(x) => Err(x),
                Ok(pts) => match s_opt_type(env, m.return_type, Seq::empty()) {
                    Err(x) => Err(x),
                    Ok(rt) => Ok(env_define_method(env, tt, m.name, fn_type(pts, rt))),
                },
            }
        } else {
            Ok(env)
        },
    }
}

/// The methods of an inherent `impl` from `k` on.
pub open spec fn s_inherent(env: Seq<ScopeV>, tt: Seq<char>, ms: Seq<FuncDefV>, k: int) -> CR<Seq<ScopeV>>
    decreases ms, ms.len() - k,
{
    if k >= ms.len() || k < 0 {
        Ok(env)
    } else {
        match s_inherent_one(env, tt, ms[k]) {
            Err(x) => Err(x),
            Ok(e) => s_inherent(e, tt, ms, k + 1),
        }
    }
}

pub open spec fn s_check_impl(env: Seq<ScopeV>, kind: ImplKindV, ms: Seq<FuncDefV>, sp: Span) -> CR<Seq<ScopeV>>
    decreases ms, ms.len() + 1,
{
    match kind {
        ImplKindV::Instance { typeclass_name: tc, type_args } => match scope_lookup_typeclass(env, tc) {
            None => Err(spec_error("unknown typeclass: "@ + tc, sp)),
            Some(tcd) => match s_resolve_all(env, type_args, 0) {
                Err(x) => Err(x),
                Ok(rs) => if rs.len() != tcd.type_params.len() {
                    Err(spec_error(
                        "typeclass "@ + tc + " expects "@ + decimal(tcd.type_params.len()) + " type arguments, found "@
                            + decimal(rs.len()),
                        sp,
                    ))
                } else {
                    match s_check_methods(env, ms, 0) {
                        Err(x) => Err(x),
                        Ok(_) => Ok(env_define_instance(env, tc, InstanceV { typeclass_name: tc, type_args: rs, is_builtin: false })),
                    }
                },
            },
        },
        ImplKindV::Inherent { target_type: tt } => if scope_lookup_type(env, tt) is None {
            Err(spec_error("unknown type: "@ + tt, sp))
        } else {
            s_inherent(env, tt, ms, 0)
        },
    }
}

/// The environment after one statement.
pub open spec fn s_check_stmt(env: Seq<ScopeV>, s: StatementV) -> CR<Seq<ScopeV>>
    decreases s, 0int,
{
    match s {
        StatementV::Let { name, type_annotation, value, mutable, .. } => match s_synth(env, value) {
            Err(x) => Err(x),
            Ok(vt) => match type_annotation {
                Some(ann) => match s_resolve(env, ann) {
                    Err(x) => Err(x),
                    Ok(t) => if !compat(vt, t) {
                        Err(mismatch(t, vt, expr_span(value)))
                    } else {
                        Ok(env_define(env, name, t, mutable))
                    },
                },
                None => Ok(env_define(env, name, vt, mutable)),
            },
        },
        StatementV::Assign { target, value, .. } => match target {
            ExprV::Name(n, _) => match scope_lookup(env, n) {
                None => Err(spec_error("undefined variable: "@ + n, expr_span(target))),
                Some(b) => if !b.mutable {
                    Err(spec_error("cannot assign to immutable variable '"@ + n + "'"@, expr_span(target)))
                } else {
                    match s_synth(env, value) {
                        Err(x) => Err(x),
                        Ok(vt) => if vt != b.ty { Err(mismatch(b.ty, vt, expr_span(value))) } else { Ok(env) },
                    }
                },
            },
            _ => Err(spec_error("can only assign to variables"@, expr_span(target))),
        },
        StatementV::FuncDef(f) => s_check_func(env, f),
        StatementV::DataDecl { name, fields, .. } => match s_field_types(env, fields, 0) {
            Err(x) => Err(x),
            Ok(fts) => {
                let dt = TypeV::Data(name, fts);
                Ok(env_define(env_define_type(env, name, dt), name, fn_type(snds(fts), dt), false))
            },
        },
        StatementV::If { condition, then_body, elif_clauses, else_body, .. } => match s_cond(env, condition) {
            Err(x) => Err(x),
            Ok(_) => match s_check_stmts(env, then_body, 0) {
                Err(x) => Err(x),
                Ok(env1) => match s_check_elifs(env1, elif_clauses, 0) {
                    Err(x) => Err(x),
                    Ok(env2) => match else_body {
                        Some(b) => s_check_stmts(env2, b, 0),
                        None => Ok(env2),
                    },
                },
            },
        },
        StatementV::Return { value, .. } => match value {
            Some(v) => match s_synth(env, v) {
                Err(x) => Err(x),
                Ok(_) => Ok(env),
            },
            None => Ok(env),
        },
        StatementV::Expr { expr, .. } => match s_synth(env, expr) {
            Err(x) => Err(x),
            Ok(_) => Ok(env),
        },
        StatementV::TypeclassDecl { name, type_params, methods, .. } => match s_sigs(env, methods, type_params, 0) {
            Err(x) => Err(x),
            Ok(ms) => Ok(env_define_typeclass(env, name, TypeclassV { name, type_params, methods: ms })),
        },
        StatementV::Impl { kind, methods, span } => s_check_impl(env, kind, methods, span),
        StatementV::For { var_name, iterable, body, .. } => match s_synth(env, iterable) {
            Err(x) => Err(x),
            Ok(t) => match t {
                TypeV::List(inner) => s_scoped(env_define(env_child(env), var_name, *inner, false), body),
                TypeV::Unknown => s_scoped(env_define(env_child(env), var_name, TypeV::Unknown, false), body),
                _ => Err(spec_error("cannot iterate over "@ + type_text(t), expr_span(iterable))),
            },
        },
        StatementV::While { condition, body, .. } => match s_cond(env, condition) {
            Err(x) => Err(x),
            Ok(_) => s_check_stmts(env, body, 0),
        },
        StatementV::Import { kind, .. } => Ok(s_import(env, kind)),
    }
}

// ---------------------------------------------------------------------------
// The environment a check reaches, whether it succeeds or fails
// ---------------------------------------------------------------------------

/// The environment after bringing in the constraints of `tp` from `j` on,
/// up to the first unknown typeclass.
pub open spec fn s_reached_constraints(env: Seq<ScopeV>, tp: TypeParamDefV, j: int) -> Seq<ScopeV>
    decreases tp.constraints.len() - j,
{
    if j >= tp.constraints.len() || j < 0 {
        env
    } else {
        let c = tp.constraints[j];
        match scope_lookup_typeclass(env, c) {
            None => env,
            Some(tc) => s_reached_constraints(
                env_define_instance(env, c, InstanceV {
                    typeclass_name: c,
                    type_args: copies(tc.type_params.len(), TypeV::TypeVar(tp.name)),
                    is_builtin: false,
                }),
                tp,
                j + 1,
            ),
        }
    }
}

/// The environment after bringing in type parameters from `i` on, up to the
/// first failure.
pub open spec fn s_reached_tparams(env: Seq<ScopeV>, tps: Seq<TypeParamDefV>, i: int) -> Seq<ScopeV>
    decreases tps.len() - i,
{
    if i >= tps.len() || i < 0 {
        env
    } else {
        let env1 = env_define(env, tps[i].name, TypeV::TypeVar(tps[i].name), false);
        match s_constraints_env(env1, tps[i], 0) {
            Err(_) => s_reached_constraints(env1, tps[i], 0),
            Ok(env2) => s_reached_tparams(env2, tps, i + 1),
        }
    }
}

/// The environment after binding a method's annotated parameters from `k`
/// on, up to the first that does not resolve.
pub open spec fn s_reached_method_params(env: Seq<ScopeV>, ps: Seq<ParamV>, k: int) -> Seq<ScopeV>
    decreases ps.len() - k,
{
    if k >= ps.len() || k < 0 {
        env
    } else {
        match ps[k].type_annotation {
            None => s_reached_method_params(env, ps, k + 1),
            Some(ann) => match s_resolve(env, ann) {
                Err(_) => env,
                Ok(t) => s_reached_method_params(env_define(env, ps[k].name, t, false), ps, k + 1),
            },
        }
    }
}

/// The environment reached by checking the statements of `ss` from `k` on:
/// the one after them all, or the one the first failing statement left.
pub open spec fn s_reached_stmts(env: Seq<ScopeV>, ss: Seq<StatementV>, k: int) -> Seq<ScopeV>
    decreases ss, ss.len() - k,
{
    if k >= ss.len() || k < 0 {
        env
    } else {
        match s_check_stmt(env, ss[k]) {
            Err(_) => s_reached_stmt(env, ss[k]),
            Ok(env2) => s_reached_stmts(env2, ss, k + 1),
        }
    }
}

/// The environment reached by a block in a scope of its own: the enclosing
/// scopes when it checks, the inner scope as the failure left it otherwise.
pub open spec fn s_reached_scoped(env: Seq<ScopeV>, ss: Seq<StatementV>) -> Seq<ScopeV>
    decreases ss, ss.len() + 1,
{
    match s_check_stmts(env, ss, 0) {
        Err(_) => s_reached_stmts(env, ss, 0),
        Ok(e) => e.drop_first(),
    }
}

/// The environment reached by the `elif` branches from `k` on.
pub open spec fn s_reached_elifs(env: Seq<ScopeV>, es: Seq<(ExprV, Seq<StatementV>)>, k: int) -> Seq<ScopeV>
    decreases es, es.len() - k,
{
    if k >= es.len() || k < 0 {
        env
    } else {
        match s_cond(env, es[k].0) {
            Err(_) => env,
            Ok(_) => match s_check_stmts(env, es[k].1, 0) {
                Err(_) => s_reached_stmts(env, es[k].1, 0),
                Ok(env2) => s_reached_elifs(env2, es, k + 1),
            },
        }
    }
}

/// The environment reached by a function definition.
pub open spec fn s_reached_func(env: Seq<ScopeV>, f: FuncDefV) -> Seq<ScopeV>
    decreases f, 0int,
{
    match s_param_types(env, f.params, f.type_params, 0) {
        Err(_) => env,
        Ok(pts) => match s_opt_type(env, f.return_type, f.type_params) {
            Err(_) => env,
            Ok(rt) => {
                let env1 = env_define(env, f.name, TypeV::Function(tp_info(f.type_params), pts, Box::new(rt)), false);
                match s_tparams_env(env_child(env1), f.type_params, 0) {
                    Err(_) => s_reached_tparams(env_child(env1), f.type_params, 0),
                    Ok(env3) => s_reached_scoped(s_define_params(env3, f.params, pts, 0), f.body),
                }
            },
        }
    }
}

/// The environment reached by checking one method body: unchanged when it
/// checks, the method's scope as the failure left it otherwise.
pub open spec fn s_reached_method(env: Seq<ScopeV>, m: FuncDefV) -> Seq<ScopeV>
    decreases m, 0int,
{
    match s_method_params(env_child(env), m.params, 0) {
        Err(_) => s_reached_method_params(env_child(env), m.params, 0),
        Ok(env2) => match s_check_stmts(env2, m.body, 0) {
            Err(_) => s_reached_stmts(env2, m.body, 0),
            Ok(_) => env,
        },
    }
}

pub open spec fn s_reached_methods(env: Seq<ScopeV>, ms: Seq<FuncDefV>, k: int) -> Seq<ScopeV>
    decreases ms, ms.len() - k,
{
    if k >= ms.len() || k < 0 {
        env
    } else {
        match s_check_method(env, ms[k]) {
            Err(_) => s_reached_method(env, ms[k]),
            Ok(_) => s_reached_methods(env, ms, k + 1),
        }
    }
}

pub open spec fn s_reached_inherent_one(env: Seq<ScopeV>, tt: Seq<char>, m: FuncDefV) -> Seq<ScopeV>
    decreases m, 1int,
{
    match s_check_method(env, m) {
        Err(_) => s_reached_method(env, m),
        Ok(_) => match s_inherent_one(env, tt, m) {
            Err(_) => env,
            Ok(e) => e,
        },
    }
}

pub open spec fn s_reached_inherent(env: Seq<ScopeV>, tt: Seq<char>, ms: Seq<FuncDefV>, k: int) -> Seq<ScopeV>
    decreases ms, ms.len() - k,
{
    if k >= ms.len() || k < 0 {
        env
    } else {
        match s_inherent_one(env, tt, ms[k]) {
            Err(_) => s_reached_inherent_one(env, tt, ms[k]),
            Ok(e) => s_reached_inherent(e, tt, ms, k + 1),
        }
    }
}

pub open spec fn s_reached_impl(env: Seq<ScopeV>, kind: ImplKindV, ms: Seq<FuncDefV>, sp: Span) -> Seq<ScopeV>
    decreases ms, ms.len() + 1,
{
    match kind {
        ImplKindV::Instance { .. } => if s_impl_reaches_methods(env, kind) && s_check_methods(env, ms, 0) is Err {
            s_reached_methods(env, ms, 0)
        } else {
            match s_check_impl(env, kind, ms, sp) {
                Ok(e) => e,
                Err(_) => env,
            }
        },
        ImplKindV::Inherent { target_type: tt } => if scope_lookup_type(env, tt) is None {
            env
        } else {
            s_reached_inherent(env, tt, ms, 0)
        },
    }
}

/// Whether an instance `impl` gets as far as checking its method bodies: its
/// typeclass is known and gets as many type arguments as it has parameters.
pub open spec fn s_impl_reaches_methods(env: Seq<ScopeV>, kind: ImplKindV) -> bool {
    match kind {
        ImplKindV::Instance { typeclass_name: tc, type_args } => match scope_lookup_typeclass(env, tc) {
            None => false,
            Some(tcd) => match s_resolve_all(env, type_args, 0) {
                Err(_) => false,
                Ok(rs) => rs.len() == tcd.type_params.len(),
            },
        },
        _ => false,
    }
}

/// The environment reached by checking one statement: the one it leaves on
/// success, and on failure whatever definitions and inner scope it had made.
pub open spec fn s_reached_stmt(env: Seq<ScopeV>, s: StatementV) -> Seq<ScopeV>
    decreases s, 0int,
{
    match s {
        StatementV::FuncDef(f) => s_reached_func(env, f),
        StatementV::If { condition, then_body, elif_clauses, else_body, .. } => match s_cond(env, condition) {
            Err(_) => env,
            Ok(_) => match s_check_stmts(env, then_body, 0) {
                Err(_) => s_reached_stmts(env, then_body, 0),
                Ok(env1) => match s_check_elifs(env1, elif_clauses, 0) {
                    Err(_) => s_reached_elifs(env1, elif_clauses, 0),
                    Ok(env2) => match else_body {
                        Some(b) => s_reached_stmts(env2, b, 0),
                        None => env2,
                    },
                },
            },
        },
        StatementV::Impl { kind, methods, span } => s_reached_impl(env, kind, methods, span),
        StatementV::For { var_name, iterable, body, .. } => match s_synth(env, iterable) {
            Err(_) => env,
            Ok(t) => match t {
                TypeV::List(inner) => s_reached_scoped(env_define(env_child(env), var_name, *inner, false), body),
                TypeV::Unknown => s_reached_scoped(env_define(env_child(env), var_name, TypeV::Unknown, false), body),
                _ => env,
            },
        },
        StatementV::While { condition, body, .. } => match s_cond(env, condition) {
            Err(_) => env,
            Ok(_) => s_reached_stmts(env, body, 0),
        },
        _ => match s_check_stmt(env, s) {
            Ok(e) => e,
            Err(_) => env,
        },
    }
}



// ---------------------------------------------------------------------------
// Checking changes only the innermost scope
// ---------------------------------------------------------------------------

/// `a` and `b` have the same scopes but for the innermost one.
pub open spec fn same_outer(a: Seq<ScopeV>, b: Seq<ScopeV>) -> bool {
    a.len() == b.len() && a.drop_first() == b.drop_first()
}

pub proof fn lemma_outer_ops(env: Seq<ScopeV>)
    requires
        env.len() >= 1,
    ensures
        forall|n: Seq<char>, t: TypeV, m: bool| #[trigger] same_outer(env_define(env, n, t, m), env),
        forall|n: Seq<char>, t: TypeV| #[trigger] same_outer(env_define_type(env, n, t), env),
        forall|n: Seq<char>, c: TypeclassV| #[trigger] same_outer(env_define_typeclass(env, n, c), env),
        forall|n: Seq<char>, x: InstanceV| #[trigger] same_outer(env_define_instance(env, n, x), env),
        forall|a: Seq<char>, b: Seq<char>, t: TypeV| #[trigger] same_outer(env_define_method(env, a, b, t), env),
        env_child(env).drop_first() == env,
        env_child(env).len() == env.len() + 1,
{
    assert forall|n: Seq<char>, t: TypeV, m: bool| #[trigger] same_outer(env_define(env, n, t, m), env) by {
        assert(env_define(env, n, t, m).drop_first() =~= env.drop_first());
    }
    assert forall|n: Seq<char>, t: TypeV| #[trigger] same_outer(env_define_type(env, n, t), env) by {
        assert(env_define_type(env, n, t).drop_first() =~= env.drop_first());
    }
    assert forall|n: Seq<char>, c: TypeclassV| #[trigger] same_outer(env_define_typeclass(env, n, c), env) by {
        assert(env_define_typeclass(env, n, c).drop_first() =~= env.drop_first());
    }
    assert forall|n: Seq<char>, x: InstanceV| #[trigger] same_outer(env_define_instance(env, n, x), env) by {
        assert(env_define_instance(env, n, x).drop_first() =~= env.drop_first());
    }
    assert forall|a: Seq<char>, b: Seq<char>, t: TypeV| #[trigger] same_outer(env_define_method(env, a, b, t), env) by {
        assert(env_define_method(env, a, b, t).drop_first() =~= env.drop_first());
    }
    assert(env_child(env).drop_first() =~= env);
}

pub proof fn lemma_import_names_outer(env: Seq<ScopeV>, ns: Seq<ImportNameV>, k: int)
    requires
        env.len() >= 1,
    ensures
        same_outer(s_import_names(env, ns, k), env),
    decreases ns.len() - k,
{
    if !(k >= ns.len() || k < 0) {
        let n = match ns[k].alias {
            Some(a) => a,
            None => ns[k].name,
        };
        lemma_outer_ops(env);
        assert(same_outer(env_define(env, n, TypeV::Unknown, false), env));
        lemma_import_names_outer(env_define(env, n, TypeV::Unknown, false), ns, k + 1);
    }
}

pub proof fn lemma_define_params_outer(env: Seq<ScopeV>, ps: Seq<ParamV>, ts: Seq<TypeV>, k: int)
    requires
        env.len() >= 1,
    ensures
        same_outer(s_define_params(env, ps, ts, k), env),
    decreases ps.len() - k,
{
    if !(k >= ps.len() || k >= ts.len() || k < 0) {
        lemma_outer_ops(env);
        assert(same_outer(env_define(env, ps[k].name, ts[k], false), env));
        lemma_define_params_outer(env_define(env, ps[k].name, ts[k], false), ps, ts, k + 1);
    }
}

pub proof fn lemma_method_params_outer(env: Seq<ScopeV>, ps: Seq<ParamV>, k: int)
    requires
        env.len() >= 1,
    ensures
        s_method_params(env, ps, k) is Ok ==> same_outer(s_method_params(env, ps, k)->Ok_0, env),
    decreases ps.len() - k,
{
    if !(k >= ps.len() || k < 0) {
        match ps[k].type_annotation {
            None => lemma_method_params_outer(env, ps, k + 1),
            Some(ann) => match s_resolve(env, ann) {
                Err(_) => {},
                Ok(t) => {
                    lemma_outer_ops(env);
                    assert(same_outer(env_define(env, ps[k].name, t, false), env));
                    lemma_method_params_outer(env_define(env, ps[k].name, t, false), ps, k + 1);
                },
            },
        }
    }
}

pub proof fn lemma_constraints_outer(env: Seq<ScopeV>, tp: TypeParamDefV, j: int)
    requires
        env.len() >= 1,
    ensures
        s_constraints_env(env, tp, j) is Ok ==> same_outer(s_constraints_env(env, tp, j)->Ok_0, env),
    decreases tp.constraints.len() - j,
{
    if !(j >= tp.constraints.len() || j < 0) {
        let c = tp.constraints[j];
        match scope_lookup_typeclass(env, c) {
            None => {},
            Some(tc) => {
                let x = InstanceV {
                    typeclass_name: c,
                    type_args: copies(tc.type_params.len(), TypeV::TypeVar(tp.name)),
                    is_builtin: false,
                };
                lemma_outer_ops(env);
                assert(same_outer(env_define_instance(env, c, x), env));
                lemma_constraints_outer(env_define_instance(env, c, x), tp, j + 1);
            },
        }
    }
}

pub proof fn lemma_tparams_outer(env: Seq<ScopeV>, tps: Seq<TypeParamDefV>, i: int)
    requires
        env.len() >= 1,
    ensures
        s_tparams_env(env, tps, i) is Ok ==> same_outer(s_tparams_env(env, tps, i)->Ok_0, env),
    decreases tps.len() - i,
{
    if !(i >= tps.len() || i < 0) {
        let env1 = env_define(env, tps[i].name, TypeV::TypeVar(tps[i].name), false);
        lemma_outer_ops(env);
        assert(same_outer(env1, env));
        lemma_constraints_outer(env1, tps[i], 0);
        match s_constraints_env(env1, tps[i], 0) {
            Err(_) => {},
            Ok(env2) => lemma_tparams_outer(env2, tps, i + 1),
        }
    }
}

/// Checking a statement changes only the innermost scope.
pub proof fn lemma_stmt_outer(env: Seq<ScopeV>, s: StatementV)
    requires
        env.len() >= 1,
    ensures
        s_check_stmt(env, s) is Ok ==> same_outer(s_check_stmt(env, s)->Ok_0, env),
    decreases s, 0int,
{
    lemma_outer_ops(env);
    match s {
        StatementV::Let { name, type_annotation, value, mutable, .. } => {},
        StatementV::FuncDef(f) => lemma_func_outer(env, f),
        StatementV::DataDecl { name, fields, .. } => match s_field_types(env, fields, 0) {
            Err(_) => {},
            Ok(fts) => {
                let dt = TypeV::Data(name, fts);
                let e1 = env_define_type(env, name, dt);
                assert(same_outer(e1, env));
                lemma_outer_ops(e1);
                assert(same_outer(env_define(e1, name, fn_type(snds(fts), dt), false), e1));
            },
        },
        StatementV::If { condition, then_body, elif_clauses, else_body, .. } => {
            lemma_stmts_outer(env, then_body, 0);
            match s_check_stmts(env, then_body, 0) {
                Err(_) => {},
                Ok(env1) => {
                    lemma_elifs_outer(env1, elif_clauses, 0);
                    match s_check_elifs(env1, elif_clauses, 0) {
                        Err(_) => {},
                        Ok(env2) => match else_body {
                            Some(b) => lemma_stmts_outer(env2, b, 0),
                            None => {},
                        },
                    }
                },
            }
        },
        StatementV::Impl { kind, methods, span } => lemma_impl_outer(env, kind, methods, span),
        StatementV::For { var_name, iterable, body, .. } => match s_synth(env, iterable) {
            Err(_) => {},
            Ok(t) => {
                let c = env_child(env);
                lemma_outer_ops(c);
                match t {
                    TypeV::List(inner) => {
                        assert(same_outer(env_define(c, var_name, *inner, false), c));
                        lemma_scoped_outer(env_define(c, var_name, *inner, false), body);
                    },
                    TypeV::Unknown => {
                        assert(same_outer(env_define(c, var_name, TypeV::Unknown, false), c));
                        lemma_scoped_outer(env_define(c, var_name, TypeV::Unknown, false), body);
                    },
                    _ => {},
                }
            },
        },
        StatementV::While { body, .. } => lemma_stmts_outer(env, body, 0),
        StatementV::Import { kind, .. } => match kind {
            ImportKindV::From { names, .. } => lemma_import_names_outer(env, names, 0),
            ImportKindV::Simple { path, alias } => {},
        },
        _ => {},
    }
}

pub proof fn lemma_stmts_outer(env: Seq<ScopeV>, ss: Seq<StatementV>, k: int)
    requires
        env.len() >= 1,
    ensures
        s_check_stmts(env, ss, k) is Ok ==> same_outer(s_check_stmts(env, ss, k)->Ok_0, env),
    decreases ss, ss.len() - k,
{
    if !(k >= ss.len() || k < 0) {
        lemma_stmt_outer(env, ss[k]);
        match s_check_stmt(env, ss[k]) {
            Err(_) => {},
            Ok(env2) => lemma_stmts_outer(env2, ss, k + 1),
        }
    }
}

/// A scope entered and left again: what is left is the enclosing scopes, unchanged.
pub proof fn lemma_scoped_outer(env: Seq<ScopeV>, ss: Seq<StatementV>)
    requires
        env.len() >= 1,
    ensures
        s_scoped(env, ss) is Ok ==> s_scoped(env, ss)->Ok_0 == env.drop_first(),
    decreases ss, ss.len() + 1,
{
    lemma_stmts_outer(env, ss, 0);
}

pub proof fn lemma_elifs_outer(env: Seq<ScopeV>, es: Seq<(ExprV, Seq<StatementV>)>, k: int)
    requires
        env.len() >= 1,
    ensures
        s_check_elifs(env, es, k) is Ok ==> same_outer(s_check_elifs(env, es, k)->Ok_0, env),
    decreases es, es.len() - k,
{
    if !(k >= es.len() || k < 0) {
        match s_cond(env, es[k].0) {
            Err(_) => {},
            Ok(_) => {
                lemma_stmts_outer(env, es[k].1, 0);
                match s_check_stmts(env, es[k].1, 0) {
                    Err(_) => {},
                    Ok(env2) => lemma_elifs_outer(env2, es, k + 1),
                }
            },
        }
    }
}

pub proof fn lemma_func_outer(env: Seq<ScopeV>, f: FuncDefV)
    requires
        env.len() >= 1,
    ensures
        s_check_func(env, f) is Ok ==> same_outer(s_check_func(env, f)->Ok_0, env),
    decreases f, 0int,
{
    match s_param_types(env, f.params, f.type_params, 0) {
        Err(_) => {},
        Ok(pts) => match s_opt_type(env, f.return_type, f.type_params) {
            Err(_) => {},
            Ok(rt) => {
                let env1 = env_define(env, f.name, TypeV::Function(tp_info(f.type_params), pts, Box::new(rt)), false);
                lemma_outer_ops(env);
                assert(same_outer(env1, env));
                lemma_outer_ops(env1);
                let c = env_child(env1);
                lemma_tparams_outer(c, f.type_params, 0);
                match s_tparams_env(c, f.type_params, 0) {
                    Err(_) => {},
                    Ok(env3) => {
                        lemma_define_params_outer(env3, f.params, pts, 0);
                        lemma_scoped_outer(s_define_params(env3, f.params, pts, 0), f.body);
                    },
                }
            },
        },
    }
}

#[verifier::rlimit(50)]
pub proof fn lemma_inherent_outer(env: Seq<ScopeV>, tt: Seq<char>, ms: Seq<FuncDefV>, k: int)
    requires
        env.len() >= 1,
    ensures
        s_inherent(env, tt, ms, k) is Ok ==> same_outer(s_inherent(env, tt, ms, k)->Ok_0, env),
    decreases ms, ms.len() - k,
{
    if !(k >= ms.len() || k < 0) {
        let m = ms[k];
        lemma_outer_ops(env);
        match s_inherent_one(env, tt, m) {
            Err(_) => {},
            Ok(e1) => {
                if m.params.len() > 0 && m.params[0].name == "self"@ {
                    match s_method_param_types(env, m.params, 1) {
                        Err(_) => {},
                        Ok(pts) => match s_opt_type(env, m.return_type, Seq::empty()) {
                            Err(_) => {},
                            Ok(rt) => {
                                assert(same_outer(env_define_method(env, tt, m.name, fn_type(pts, rt)), env));
                            },
                        },
                    }
                }
                assert(same_outer(e1, env));
                lemma_inherent_outer(e1, tt, ms, k + 1);
            },
        }
    }
}

pub proof fn lemma_impl_outer(env: Seq<ScopeV>, kind: ImplKindV, ms: Seq<FuncDefV>, sp: Span)
    requires
        env.len() >= 1,
    ensures
        s_check_impl(env, kind, ms, sp) is Ok ==> same_outer(s_check_impl(env, kind, ms, sp)->Ok_0, env),
    decreases ms, ms.len() + 1,
{
    lemma_outer_ops(env);
    match kind {
        ImplKindV::Inherent { target_type: tt } => lemma_inherent_outer(env, tt, ms, 0),
        _ => {},
    }
}

/// Checking statements changes only the innermost scope: the enclosing
/// scopes, and their number, stay as they were.
pub proof fn law_check_keeps_outer_scopes(env: Seq<ScopeV>, ss: Seq<StatementV>)
    requires
        env.len() >= 1,
    ensures
        s_check_stmts(env, ss, 0) is Ok ==> same_outer(s_check_stmts(env, ss, 0)->Ok_0, env),
{
    lemma_stmts_outer(env, ss, 0);
}

} // verus!
