//! The Python text that each part of the syntax tree is emitted as.

use vstd::prelude::*;
use crate::ast::{
    BinOp, ExprV, FieldDeclV, FuncDefV, ImplKindV, ImportKindV, ImportNameV, ParamV, StatementV,
    TypeExprV, UnaryOp,
};
use crate::text::decimal;
use crate::types::join;

verus! {

/// `n` levels of indentation, four spaces each.
pub open spec fn ind_text(n: nat) -> Seq<char>
    decreases n,
{
    if n == 0 { Seq::empty() } else { ind_text((n - 1) as nat) + "    "@ }
}

/// The next indentation level (levels stop growing at `usize::MAX`).
pub open spec fn nl(ind: nat) -> nat {
    if ind < usize::MAX { ind + 1 } else { ind }
}

/// The elements of `s` one after another.
pub open spec fn concat(s: Seq<Seq<char>>) -> Seq<char> {
    join(s, Seq::empty())
}

/// Decimal notation of an integer, with a leading `-` when negative.
pub open spec fn int_text(v: i64) -> Seq<char> {
    if v < 0 { "-"@ + decimal((-(v as int)) as nat) } else { decimal(v as nat) }
}

pub open spec fn strip_leading_zeros(s: Seq<char>) -> Seq<char>
    decreases s.len(),
{
    if s.len() > 1 && s[0] == '0' { strip_leading_zeros(s.drop_first()) } else { s }
}

pub open spec fn strip_trailing_zeros(s: Seq<char>) -> Seq<char>
    decreases s.len(),
{
    if s.len() > 0 && s.last() == '0' { strip_trailing_zeros(s.drop_last()) } else { s }
}

/// The position of the first `.` in `t`, or its length.
pub open spec fn dot_index(t: Seq<char>) -> int
    decreases t.len(),
{
    if t.len() == 0 {
        0
    } else if t[0] == '.' {
        0
    } else {
        1 + dot_index(t.drop_first())
    }
}

/// A float literal as Python reads it back: the integer digits without
/// leading zeros, a point, and the fraction digits without trailing zeros
/// (`0` when none are left). The digits are kept as written: a literal with
/// more significant digits than an `f64` holds, such as
/// `0.1000000000000000000001`, keeps them all here, where printing the
/// parsed `f64` gives the shortest text for the nearest double (`0.1`).
/// Python reads both texts as the same value.
pub open spec fn float_text(t: Seq<char>) -> Seq<char> {
    let d = dot_index(t);
    let ip = strip_leading_zeros(t.take(d));
    let fp = if d < t.len() { strip_trailing_zeros(t.skip(d + 1)) } else { Seq::empty() };
    ip + "."@ + if fp.len() == 0 { "0"@ } else { fp }
}

/// One character inside a Python string literal.
pub open spec fn esc_char(c: char) -> Seq<char> {
    if c == '"' {
        "\\\""@
    } else if c == '\\' {
        "\\\\"@
    } else if c == '\n' {
        "\\n"@
    } else if c == '\t' {
        "\\t"@
    } else {
        seq![c]
    }
}

pub open spec fn escape(s: Seq<char>) -> Seq<char>
    decreases s.len(),
{
    if s.len() == 0 { Seq::empty() } else { escape(s.drop_last()) + esc_char(s.last()) }
}

pub open spec fn op_text(op: BinOp) -> Seq<char> {
    match op {
        BinOp::Add => " + "@,
        BinOp::Sub => " - "@,
        BinOp::Mul => " * "@,
        BinOp::Div => " / "@,
        BinOp::Eq => " == "@,
        BinOp::NotEq => " != "@,
        BinOp::Lt => " < "@,
        BinOp::Gt => " > "@,
        BinOp::LtEq => " <= "@,
        BinOp::GtEq => " >= "@,
        BinOp::And => " and "@,
        BinOp::Or => " or "@,
    }
}

/// An expression as Python source.
pub open spec fn e_expr(e: ExprV) -> Seq<char>
    decreases e,
{
    match e {
        ExprV::IntLiteral(v, _) => int_text(v),
        ExprV::FloatLiteral(t, _) => float_text(t),
        ExprV::StringLiteral(s, _) => "\""@ + escape(s) + "\""@,
        ExprV::BoolLiteral(b, _) => if b { "True"@ } else { "False"@ },
        ExprV::NoneLiteral(_) => "None"@,
        ExprV::Name(n, _) => n,
        ExprV::BinOp(l, op, r, _) => "("@ + e_expr(*l) + op_text(op) + e_expr(*r) + ")"@,
        ExprV::UnaryOp(op, o, _) => (if op == UnaryOp::Neg { "(-"@ } else { "(not "@ }) + e_expr(*o) + ")"@,
        ExprV::Call(c, args, _) => e_expr(*c) + "("@ + join(e_exprs(args), ", "@) + ")"@,
        ExprV::Attr(o, a, _) => e_expr(*o) + "."@ + a,
        ExprV::ListLiteral(es, _) => "["@ + join(e_exprs(es), ", "@) + "]"@,
        ExprV::Index(o, i, _) => e_expr(*o) + "["@ + e_expr(*i) + "]"@,
    }
}

pub open spec fn e_exprs(es: Seq<ExprV>) -> Seq<Seq<char>>
    decreases es,
{
    Seq::new(es.len(), |i: int| if 0 <= i < es.len() { e_expr(es[i]) } else { Seq::empty() })
}

pub open spec fn param_names(ps: Seq<ParamV>) -> Seq<Seq<char>> {
    Seq::new(ps.len(), |i: int| ps[i].name)
}

pub open spec fn path_text(path: Seq<Seq<char>>) -> Seq<char> {
    join(path, "."@)
}

pub open spec fn alias_text(a: Option<Seq<char>>) -> Seq<char> {
    match a {
        Some(x) => " as "@ + x,
        None => Seq::empty(),
    }
}

pub open spec fn import_name_texts(ns: Seq<ImportNameV>) -> Seq<Seq<char>> {
    Seq::new(ns.len(), |i: int| ns[i].name + alias_text(ns[i].alias))
}

pub open spec fn import_text(k: ImportKindV) -> Seq<char> {
    match k {
        ImportKindV::Simple { path, alias } => "import "@ + path_text(path) + alias_text(alias),
        ImportKindV::From { path, names } => "from "@ + path_text(path) + " import "@ + join(import_name_texts(names), ", "@),
    }
}

/// The `__init__` assignments of a class, one per field.
pub open spec fn init_lines(fs: Seq<FieldDeclV>, ind: nat) -> Seq<Seq<char>> {
    Seq::new(fs.len(), |i: int| ind_text(ind) + "self."@ + fs[i].name + " = "@ + fs[i].name + "\n"@)
}

pub open spec fn eq_terms(fs: Seq<FieldDeclV>) -> Seq<Seq<char>> {
    Seq::new(fs.len(), |i: int| "self."@ + fs[i].name + " == other."@ + fs[i].name)
}

pub open spec fn repr_terms(fs: Seq<FieldDeclV>) -> Seq<Seq<char>> {
    Seq::new(fs.len(), |i: int| fs[i].name + "={self."@ + fs[i].name + "!r}"@)
}

pub open spec fn init_params(fs: Seq<FieldDeclV>) -> Seq<Seq<char>> {
    Seq::new(fs.len(), |i: int| ", "@ + fs[i].name)
}

/// The Python name of an operator method in an instance.
pub open spec fn dunder(name: Seq<char>) -> Seq<char> {
    if name == "add"@ {
        "__add__"@
    } else if name == "sub"@ {
        "__sub__"@
    } else if name == "mul"@ {
        "__mul__"@
    } else if name == "div"@ {
        "__truediv__"@
    } else if name == "eq"@ {
        "__eq__"@
    } else if name == "lt"@ {
        "__lt__"@
    } else {
        name
    }
}

pub open spec fn is_builtin_type_name(n: Seq<char>) -> bool {
    n == "Int"@ || n == "Float"@ || n == "Str"@ || n == "Bool"@ || n == "None"@
}

/// The type name under which an `impl` block's methods are attached, if
/// the block is emitted at all.
pub open spec fn impl_target(k: ImplKindV) -> Option<Seq<char>> {
    match k {
        ImplKindV::Instance { type_args, .. } => if type_args.len() > 0 {
            match type_args[0] {
                TypeExprV::Named(n, _) => if is_builtin_type_name(n) { None } else { Some(n) },
                _ => None,
            }
        } else {
            None
        },
        ImplKindV::Inherent { target_type } => Some(target_type),
    }
}

/// A body of statements, or `pass` when it is empty.
pub open spec fn e_body(ss: Seq<StatementV>, ind: nat) -> Seq<char>
    decreases ss, 2int,
{
    if ss.len() == 0 { ind_text(ind) + "pass\n"@ } else { e_stmts(ss, ind) }
}

pub open spec fn e_stmts(ss: Seq<StatementV>, ind: nat) -> Seq<char>
    decreases ss, 1int,
{
    concat(e_stmt_texts(ss, ind))
}

pub open spec fn e_stmt_texts(ss: Seq<StatementV>, ind: nat) -> Seq<Seq<char>>
    decreases ss, 0int,
{
    Seq::new(ss.len(), |i: int| if 0 <= i < ss.len() { e_stmt(ss[i], ind) } else { Seq::empty() })
}

/// A function definition.
pub open spec fn e_func(f: FuncDefV, ind: nat) -> Seq<char>
    decreases f, 0int,
{
    ind_text(ind) + "def "@ + f.name + "("@ + join(param_names(f.params), ", "@) + "):\n"@
        + e_body(f.body, nl(ind)) + "\n"@
}

pub open spec fn e_funcs(fs: Seq<FuncDefV>, ind: nat) -> Seq<Seq<char>>
    decreases fs, 0int,
{
    Seq::new(fs.len(), |i: int| if 0 <= i < fs.len() { "\n"@ + e_func(fs[i], ind) } else { Seq::empty() })
}

/// One method of an `impl` block, attached to the type named `tn`.
pub open spec fn e_impl_method(m: FuncDefV, tn: Seq<char>, instance: bool, ind: nat) -> Seq<char>
    decreases m, 0int,
{
    let fname = "__"@ + tn + "_"@ + m.name;
    let pyname = if instance { dunder(m.name) } else { m.name };
    ind_text(ind) + "def "@ + fname + "("@ + join(param_names(m.params), ", "@) + "):\n"@
        + e_body(m.body, nl(ind)) + "\n"@
        + ind_text(ind) + tn + "."@ + pyname + " = "@ + fname + "\n"@
}

/// The methods of an `impl` block, attached to the type named `tn`.
pub open spec fn e_impl_methods(fs: Seq<FuncDefV>, tn: Seq<char>, instance: bool, ind: nat) -> Seq<Seq<char>>
    decreases fs, 0int,
{
    Seq::new(fs.len(), |i: int| if 0 <= i < fs.len() { e_impl_method(fs[i], tn, instance, ind) } else { Seq::empty() })
}

/// The `__init__` method of a data class.
pub open spec fn data_init(fs: Seq<FieldDeclV>, ind: nat) -> Seq<char> {
    ind_text(nl(ind)) + "def __init__(self"@ + concat(init_params(fs)) + "):\n"@
        + (if fs.len() == 0 { ind_text(nl(nl(ind))) + "pass\n"@ } else { concat(init_lines(fs, nl(nl(ind)))) })
        + "\n"@
}

/// The `__eq__` method of a data class.
pub open spec fn data_eq(name: Seq<char>, fs: Seq<FieldDeclV>, ind: nat) -> Seq<char> {
    ind_text(nl(ind)) + "def __eq__(self, other):\n"@
        + ind_text(nl(nl(ind))) + "if not isinstance(other, "@ + name + "):\n"@
        + ind_text(nl(nl(nl(ind)))) + "return NotImplemented\n"@
        + ind_text(nl(nl(ind))) + "return "@ + (if fs.len() == 0 { "True"@ } else { join(eq_terms(fs), " and "@) }) + "\n"@
        + "\n"@
}

/// The `__repr__` method of a data class.
pub open spec fn data_repr(name: Seq<char>, fs: Seq<FieldDeclV>, ind: nat) -> Seq<char> {
    ind_text(nl(ind)) + "def __repr__(self):\n"@
        + ind_text(nl(nl(ind))) + "return f\""@ + name + "("@ + join(repr_terms(fs), ", "@) + ")\"\n"@
}

/// A data declaration: a class with `__init__`, `__eq__`, `__repr__` and its methods.
pub open spec fn e_data(name: Seq<char>, fs: Seq<FieldDeclV>, ms: Seq<FuncDefV>, ind: nat) -> Seq<char>
    decreases ms, 1int,
{
    ind_text(ind) + "class "@ + name + ":\n"@
        + data_init(fs, ind)
        + data_eq(name, fs, ind)
        + data_repr(name, fs, ind)
        + concat(e_funcs(ms, nl(ind)))
        + "\n"@
}

pub open spec fn e_elifs(es: Seq<(ExprV, Seq<StatementV>)>, ind: nat) -> Seq<Seq<char>>
    decreases es, 0int,
{
    Seq::new(es.len(), |i: int| if 0 <= i < es.len() {
        ind_text(ind) + "elif "@ + e_expr(es[i].0) + ":\n"@ + e_stmts(es[i].1, nl(ind))
    } else {
        Seq::empty()
    })
}

/// An `if` statement with its `elif` and `else` branches.
pub open spec fn e_if(s: StatementV, ind: nat) -> Seq<char>
    decreases s, 1int,
{
    match s {
        StatementV::If { condition, then_body, elif_clauses, else_body, .. } =>
            ind_text(ind) + "if "@ + e_expr(condition) + ":\n"@ + e_stmts(then_body, nl(ind))
                + concat(e_elifs(elif_clauses, ind))
                + match else_body {
                    Some(b) => ind_text(ind) + "else:\n"@ + e_stmts(b, nl(ind)),
                    None => Seq::empty(),
                },
        _ => Seq::empty(),
    }
}

/// An `impl` block: its methods attached to the target type, or nothing for
/// an instance over a built-in type.
pub open spec fn e_impl(s: StatementV, ind: nat) -> Seq<char>
    decreases s, 1int,
{
    match s {
        StatementV::Impl { kind, methods, .. } => match impl_target(kind) {
            Some(tn) => concat(e_impl_methods(methods, tn, kind is Instance, ind)),
            None => Seq::empty(),
        },
        _ => Seq::empty(),
    }
}

/// A statement, at indentation level `ind`.
#[verifier::opaque]
pub open spec fn e_stmt(s: StatementV, ind: nat) -> Seq<char>
    decreases s, 2int,
{
    match s {
        StatementV::Let { name, value, .. } => ind_text(ind) + name + " = "@ + e_expr(value) + "\n"@,
        StatementV::Assign { target, value, .. } => ind_text(ind) + e_expr(target) + " = "@ + e_expr(value) + "\n"@,
        StatementV::FuncDef(f) => e_func(f, ind),
        StatementV::DataDecl { name, fields, methods, .. } => e_data(name, fields, methods, ind),
        StatementV::If { .. } => e_if(s, ind),
        StatementV::Return { value, .. } => ind_text(ind) + match value {
            Some(v) => "return "@ + e_expr(v),
            None => "return"@,
        } + "\n"@,
        StatementV::Expr { expr, .. } => ind_text(ind) + e_expr(expr) + "\n"@,
        StatementV::TypeclassDecl { .. } => Seq::empty(),
        StatementV::Impl { .. } => e_impl(s, ind),
        StatementV::For { var_name, iterable, body, .. } =>
            ind_text(ind) + "for "@ + var_name + " in "@ + e_expr(iterable) + ":\n"@ + e_stmts(body, nl(ind)),
        StatementV::While { condition, body, .. } =>
            ind_text(ind) + "while "@ + e_expr(condition) + ":\n"@ + e_stmts(body, nl(ind)),
        StatementV::Import { kind, .. } => ind_text(ind) + import_text(kind) + "\n"@,
    }
}

} // verus!
