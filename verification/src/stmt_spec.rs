//! What parsing statements and modules yields, stated over token views.
//!
//! Each function takes the tokens and a position and gives the syntax tree
//! (as its view) and the position after it, or the first error. Loops of the
//! parser are recursive functions here; a recursive step is taken only from a
//! later position (or, within one position, from a lower level), which is
//! what the parser's own progress guarantees.

use vstd::prelude::*;
use crate::ast::{
    ExprV, FieldDeclV, FuncDefV, ImplKindV, ImportKindV, ImportNameV, MethodSigV, ModuleV, ParamV,
    StatementV, TypeExprV, TypeParamDefV, expr_span, type_span,
};
use crate::errors::{DiagView, spec_error};
use crate::parser::{
    PR, ahead, fwd, nxt, sp_expect, sp_expect_ident, sp_expect_newline, sp_expect_newline_or_eof, sp_expr,
    sp_skip_newlines, sp_type, sp_type_args, tk, tspan,
};
use crate::source::Span;
use crate::token::{TokenKind, TokenView};

verus! {

/// The value of a branch that the parser's progress rules out (every
/// statement form consumes its first token); any value would do.
pub open spec fn no_progress(ts: Seq<TokenView>, p: int) -> DiagView {
    spec_error(Seq::empty(), tspan(ts, p))
}

pub open spec fn join_span(a: Span, b: Span) -> Span {
    Span { start: a.start, end: b.end }
}

/// A comma before every item but the first.
pub open spec fn sp_sep(ts: Seq<TokenView>, p: int, first: bool) -> Result<int, DiagView> {
    if first { Ok(p) } else { sp_expect(ts, p, TokenKind::Comma) }
}

/// Identifiers each preceded by a `k` token, for as long as one follows.
pub open spec fn sp_more_idents(ts: Seq<TokenView>, p: int, acc: Seq<Seq<char>>, k: TokenKind) -> PR<Seq<Seq<char>>>
    decreases ts.len() - p,
{
    if tk(ts, p) == k {
        match sp_expect_ident(ts, nxt(ts, p)) {
            Err(e) => Err(e),
            Ok((n, p2)) => if ahead(ts, p, p2) {
                sp_more_idents(ts, p2, acc.push(n), k)
            } else {
                Ok((acc.push(n), p2))
            },
        }
    } else {
        Ok((acc, p))
    }
}

/// An identifier after a `k` token, if that token comes next.
pub open spec fn sp_opt_ident_after(ts: Seq<TokenView>, p: int, k: TokenKind) -> PR<Option<Seq<char>>> {
    if tk(ts, p) == k {
        match sp_expect_ident(ts, nxt(ts, p)) {
            Err(e) => Err(e),
            Ok((n, p2)) => Ok((Some(n), p2)),
        }
    } else {
        Ok((None, p))
    }
}

/// A type expression after a `k` token, if that token comes next.
pub open spec fn sp_opt_type_after(ts: Seq<TokenView>, p: int, k: TokenKind) -> PR<Option<TypeExprV>> {
    if tk(ts, p) == k {
        match sp_type(ts, nxt(ts, p)) {
            Err(e) => Err(e),
            Ok((t, p2)) => Ok((Some(t), p2)),
        }
    } else {
        Ok((None, p))
    }
}

/// Comma-separated identifiers up to (not over) `]`.
pub open spec fn sp_ident_list(ts: Seq<TokenView>, p: int, acc: Seq<Seq<char>>) -> PR<Seq<Seq<char>>>
    decreases ts.len() - p,
{
    if tk(ts, p) == TokenKind::RBracket {
        Ok((acc, p))
    } else {
        match sp_sep(ts, p, acc.len() == 0) {
            Err(e) => Err(e),
            Ok(p1) => match sp_expect_ident(ts, p1) {
                Err(e) => Err(e),
                Ok((n, p2)) => if ahead(ts, p, p2) {
                    sp_ident_list(ts, p2, acc.push(n))
                } else {
                    Ok((acc.push(n), p2))
                },
            },
        }
    }
}

/// The constraints of a type parameter: `: A + B + ...`, or none.
pub open spec fn sp_constraints(ts: Seq<TokenView>, p: int) -> PR<Seq<Seq<char>>> {
    if tk(ts, p) == TokenKind::Colon {
        match sp_expect_ident(ts, nxt(ts, p)) {
            Err(e) => Err(e),
            Ok((n, p2)) => sp_more_idents(ts, p2, seq![n], TokenKind::Plus),
        }
    } else {
        Ok((Seq::empty(), p))
    }
}

/// The type parameters of a function, up to (not over) `]`.
pub open spec fn sp_tparams(ts: Seq<TokenView>, p: int, acc: Seq<TypeParamDefV>) -> PR<Seq<TypeParamDefV>>
    decreases ts.len() - p,
{
    if tk(ts, p) == TokenKind::RBracket {
        Ok((acc, p))
    } else {
        match sp_sep(ts, p, acc.len() == 0) {
            Err(e) => Err(e),
            Ok(p1) => match sp_expect_ident(ts, p1) {
                Err(e) => Err(e),
                Ok((n, p2)) => match sp_constraints(ts, p2) {
                    Err(e) => Err(e),
                    Ok((cs, p3)) => {
                        let tp = TypeParamDefV { name: n, constraints: cs, span: join_span(tspan(ts, p1), tspan(ts, p3)) };
                        if ahead(ts, p, p3) {
                            sp_tparams(ts, p3, acc.push(tp))
                        } else {
                            Ok((acc.push(tp), p3))
                        }
                    },
                },
            },
        }
    }
}

/// One parameter: a name and an optional `: type`.
pub open spec fn sp_param(ts: Seq<TokenView>, p: int) -> PR<ParamV> {
    match sp_expect_ident(ts, p) {
        Err(e) => Err(e),
        Ok((n, p1)) => match sp_opt_type_after(ts, p1, TokenKind::Colon) {
            Err(e) => Err(e),
            Ok((t, p2)) => Ok((ParamV { name: n, type_annotation: t, span: join_span(tspan(ts, p), tspan(ts, p2)) }, p2)),
        },
    }
}

/// Comma-separated parameters up to (not over) `)`.
pub open spec fn sp_params(ts: Seq<TokenView>, p: int, acc: Seq<ParamV>) -> PR<Seq<ParamV>>
    decreases ts.len() - p,
{
    if tk(ts, p) == TokenKind::RParen {
        Ok((acc, p))
    } else {
        match sp_sep(ts, p, acc.len() == 0) {
            Err(e) => Err(e),
            Ok(p1) => match sp_param(ts, p1) {
                Err(e) => Err(e),
                Ok((x, p2)) => if ahead(ts, p, p2) {
                    sp_params(ts, p2, acc.push(x))
                } else {
                    Ok((acc.push(x), p2))
                },
            },
        }
    }
}

/// A dotted module path.
pub open spec fn sp_path(ts: Seq<TokenView>, p: int) -> PR<Seq<Seq<char>>> {
    match sp_expect_ident(ts, p) {
        Err(e) => Err(e),
        Ok((n, p1)) => sp_more_idents(ts, p1, seq![n], TokenKind::Dot),
    }
}

/// The names of a `from` import: `a as b, c, ...`.
pub open spec fn sp_import_names(ts: Seq<TokenView>, p: int, acc: Seq<ImportNameV>) -> PR<Seq<ImportNameV>>
    decreases ts.len() - p,
{
    match sp_expect_ident(ts, p) {
        Err(e) => Err(e),
        Ok((n, p1)) => match sp_opt_ident_after(ts, p1, TokenKind::KwAs) {
            Err(e) => Err(e),
            Ok((a, p2)) => {
                let acc2 = acc.push(ImportNameV { name: n, alias: a });
                if tk(ts, p2) == TokenKind::Comma {
                    if ahead(ts, p, nxt(ts, p2)) {
                        sp_import_names(ts, nxt(ts, p2), acc2)
                    } else {
                        Ok((acc2, nxt(ts, p2)))
                    }
                } else {
                    Ok((acc2, p2))
                }
            },
        },
    }
}

/// `let` or `mut` binding.
pub open spec fn sp_let(ts: Seq<TokenView>, p: int) -> PR<StatementV> {
    let start = tspan(ts, p);
    let mutable = tk(ts, p) == TokenKind::KwMut;
    match sp_expect_ident(ts, nxt(ts, p)) {
        Err(e) => Err(e),
        Ok((name, p2)) => match sp_opt_type_after(ts, p2, TokenKind::Colon) {
            Err(e) => Err(e),
            Ok((ta, p3)) => match sp_expect(ts, p3, TokenKind::Eq) {
                Err(e) => Err(e),
                Ok(p4) => match sp_expr(ts, p4) {
                    Err(e) => Err(e),
                    Ok((value, p5)) => match sp_expect_newline_or_eof(ts, p5) {
                        Err(e) => Err(e),
                        Ok(p6) => Ok((
                            StatementV::Let {
                                name,
                                type_annotation: ta,
                                value,
                                mutable,
                                span: join_span(start, expr_span(value)),
                            },
                            p6,
                        )),
                    },
                },
            },
        },
    }
}

/// `import a.b.c [as d]`.
pub open spec fn sp_import(ts: Seq<TokenView>, p: int) -> PR<StatementV> {
    let start = tspan(ts, p);
    match sp_path(ts, nxt(ts, p)) {
        Err(e) => Err(e),
        Ok((path, p2)) => match sp_opt_ident_after(ts, p2, TokenKind::KwAs) {
            Err(e) => Err(e),
            Ok((alias, p3)) => match sp_expect_newline_or_eof(ts, p3) {
                Err(e) => Err(e),
                Ok(p4) => Ok((
                    StatementV::Import {
                        kind: ImportKindV::Simple { path, alias },
                        span: join_span(start, tspan(ts, p3)),
                    },
                    p4,
                )),
            },
        },
    }
}

/// `from a.b import c [as d], ...`.
pub open spec fn sp_from_import(ts: Seq<TokenView>, p: int) -> PR<StatementV> {
    let start = tspan(ts, p);
    match sp_path(ts, nxt(ts, p)) {
        Err(e) => Err(e),
        Ok((path, p2)) => match sp_expect(ts, p2, TokenKind::KwImport) {
            Err(e) => Err(e),
            Ok(p3) => match sp_import_names(ts, p3, Seq::empty()) {
                Err(e) => Err(e),
                Ok((names, p4)) => match sp_expect_newline_or_eof(ts, p4) {
                    Err(e) => Err(e),
                    Ok(p5) => Ok((
                        StatementV::Import {
                            kind: ImportKindV::From { path, names },
                            span: join_span(start, tspan(ts, p4)),
                        },
                        p5,
                    )),
                },
            },
        },
    }
}

/// The method signatures of a typeclass, up to a dedent or the end.
pub open spec fn sp_sigs(ts: Seq<TokenView>, p: int, acc: Seq<MethodSigV>) -> PR<Seq<MethodSigV>>
    decreases ts.len() - p,
{
    if tk(ts, p) == TokenKind::Dedent || tk(ts, p) == TokenKind::Eof {
        Ok((acc, p))
    } else {
        match sp_expect(ts, p, TokenKind::KwDef) {
            Err(e) => Err(e),
            Ok(q1) => match sp_expect_ident(ts, q1) {
                Err(e) => Err(e),
                Ok((name, q2)) => match sp_expect(ts, q2, TokenKind::LParen) {
                    Err(e) => Err(e),
                    Ok(q3) => match sp_params(ts, q3, Seq::empty()) {
                        Err(e) => Err(e),
                        Ok((params, q4)) => match sp_expect(ts, q4, TokenKind::RParen) {
                            Err(e) => Err(e),
                            Ok(q5) => match sp_expect(ts, q5, TokenKind::Arrow) {
                                Err(e) => Err(e),
                                Ok(q6) => match sp_type(ts, q6) {
                                    Err(e) => Err(e),
                                    Ok((rt, q7)) => match sp_expect_newline_or_eof(ts, q7) {
                                        Err(e) => Err(e),
                                        Ok(q8) => {
                                            let q9 = sp_skip_newlines(ts, q8);
                                            let sig = MethodSigV {
                                                name,
                                                params,
                                                return_type: rt,
                                                span: join_span(tspan(ts, p), type_span(rt)),
                                            };
                                            if ahead(ts, p, q9) {
                                                sp_sigs(ts, q9, acc.push(sig))
                                            } else {
                                                Ok((acc.push(sig), q9))
                                            }
                                        },
                                    },
                                },
                            },
                        },
                    },
                },
            },
        }
    }
}

/// The position after an optional closing dedent.
pub open spec fn skip_dedent(ts: Seq<TokenView>, p: int) -> int {
    if tk(ts, p) == TokenKind::Dedent { nxt(ts, p) } else { p }
}

/// `typeclass Name[T, ...]:` and an indented block of signatures.
pub open spec fn sp_typeclass(ts: Seq<TokenView>, p: int) -> PR<StatementV> {
    let start = tspan(ts, p);
    match sp_expect_ident(ts, nxt(ts, p)) {
        Err(e) => Err(e),
        Ok((name, p2)) => match sp_expect(ts, p2, TokenKind::LBracket) {
            Err(e) => Err(e),
            Ok(p3) => match sp_ident_list(ts, p3, Seq::empty()) {
                Err(e) => Err(e),
                Ok((tps, p4)) => match sp_expect(ts, p4, TokenKind::RBracket) {
                    Err(e) => Err(e),
                    Ok(p5) => match sp_expect(ts, p5, TokenKind::Colon) {
                        Err(e) => Err(e),
                        Ok(p6) => match sp_expect_newline(ts, p6) {
                            Err(e) => Err(e),
                            Ok(p7) => match sp_expect(ts, p7, TokenKind::Indent) {
                                Err(e) => Err(e),
                                Ok(p8) => match sp_sigs(ts, sp_skip_newlines(ts, p8), Seq::empty()) {
                                    Err(e) => Err(e),
                                    Ok((methods, p10)) => {
                                        let p11 = skip_dedent(ts, p10);
                                        Ok((
                                            StatementV::TypeclassDecl {
                                                name,
                                                type_params: tps,
                                                methods,
                                                span: join_span(start, tspan(ts, p11)),
                                            },
                                            p11,
                                        ))
                                    },
                                },
                            },
                        },
                    },
                },
            },
        },
    }
}

/// A field of a data declaration: `name: type`.
pub open spec fn sp_field(ts: Seq<TokenView>, p: int) -> PR<FieldDeclV> {
    match sp_expect_ident(ts, p) {
        Err(e) => Err(e),
        Ok((name, p1)) => match sp_expect(ts, p1, TokenKind::Colon) {
            Err(e) => Err(e),
            Ok(p2) => match sp_type(ts, p2) {
                Err(e) => Err(e),
                Ok((t, p3)) => match sp_expect_newline_or_eof(ts, p3) {
                    Err(e) => Err(e),
                    Ok(p4) => Ok((FieldDeclV { name, type_annotation: t, span: join_span(tspan(ts, p), type_span(t)) }, p4)),
                },
            },
        },
    }
}

/// `return [expr]`.
pub open spec fn sp_return(ts: Seq<TokenView>, p: int) -> PR<StatementV> {
    let start = tspan(ts, p);
    let p1 = nxt(ts, p);
    let v: PR<Option<ExprV>> = if tk(ts, p1) != TokenKind::Newline && tk(ts, p1) != TokenKind::Eof {
        match sp_expr(ts, p1) {
            Err(e) => Err(e),
            Ok((x, p2)) => Ok((Some(x), p2)),
        }
    } else {
        Ok((None, p1))
    };
    match v {
        Err(e) => Err(e),
        Ok((value, p2)) => match sp_expect_newline_or_eof(ts, p2) {
            Err(e) => Err(e),
            Ok(p3) => Ok((StatementV::Return { value, span: join_span(start, tspan(ts, p2)) }, p3)),
        },
    }
}

/// An expression statement, or an assignment `target = value`.
pub open spec fn sp_expr_or_assign(ts: Seq<TokenView>, p: int) -> PR<StatementV> {
    match sp_expr(ts, p) {
        Err(e) => Err(e),
        Ok((x, p1)) => if tk(ts, p1) == TokenKind::Eq {
            match sp_expr(ts, nxt(ts, p1)) {
                Err(e) => Err(e),
                Ok((v, p2)) => match sp_expect_newline_or_eof(ts, p2) {
                    Err(e) => Err(e),
                    Ok(p3) => Ok((
                        StatementV::Assign { target: x, value: v, span: join_span(expr_span(x), expr_span(v)) },
                        p3,
                    )),
                },
            }
        } else {
            match sp_expect_newline_or_eof(ts, p1) {
                Err(e) => Err(e),
                Ok(p2) => Ok((StatementV::Expr { expr: x, span: expr_span(x) }, p2)),
            }
        },
    }
}

// ---------------------------------------------------------------------------
// Statements that hold blocks
// ---------------------------------------------------------------------------

/// An indented block: a newline, an indent, statements, and the dedent.
#[verifier::opaque]
pub open spec fn sp_block(ts: Seq<TokenView>, p: int) -> PR<Seq<StatementV>>
    decreases ts.len() - p, 30int,
{
    match sp_expect_newline(ts, p) {
        Err(e) => Err(e),
        Ok(p1) => match sp_expect(ts, p1, TokenKind::Indent) {
            Err(e) => Err(e),
            Ok(p2) => {
                let p3 = sp_skip_newlines(ts, p2);
                if ahead(ts, p, p3) {
                    match sp_stmts(ts, p3, Seq::empty()) {
                        Err(e) => Err(e),
                        Ok((ss, q)) => Ok((ss, skip_dedent(ts, q))),
                    }
                } else {
                    Ok((Seq::empty(), p3))
                }
            },
        },
    }
}

/// Statements up to a dedent or the end.
#[verifier::opaque]
pub open spec fn sp_stmts(ts: Seq<TokenView>, p: int, acc: Seq<StatementV>) -> PR<Seq<StatementV>>
    decreases ts.len() - p, 29int,
{
    if tk(ts, p) == TokenKind::Dedent || tk(ts, p) == TokenKind::Eof {
        Ok((acc, p))
    } else {
        match sp_stmt(ts, p) {
            Err(e) => Err(e),
            Ok((s, p1)) => {
                let p2 = sp_skip_newlines(ts, p1);
                if ahead(ts, p, p2) {
                    sp_stmts(ts, p2, acc.push(s))
                } else {
                    Ok((acc.push(s), p2))
                }
            },
        }
    }
}

/// One statement, chosen by its first token.
#[verifier::opaque]
pub open spec fn sp_stmt(ts: Seq<TokenView>, p: int) -> PR<StatementV>
    decreases ts.len() - p, 28int,
{
    let k = tk(ts, p);
    if k == TokenKind::KwLet || k == TokenKind::KwMut {
        sp_let(ts, p)
    } else if k == TokenKind::KwDef {
        match sp_funcdef(ts, p) {
            Err(e) => Err(e),
            Ok((f, p1)) => Ok((StatementV::FuncDef(f), p1)),
        }
    } else if k == TokenKind::KwData {
        sp_data(ts, p)
    } else if k == TokenKind::KwIf {
        sp_if(ts, p)
    } else if k == TokenKind::KwReturn {
        sp_return(ts, p)
    } else if k == TokenKind::KwTypeclass {
        sp_typeclass(ts, p)
    } else if k == TokenKind::KwImpl {
        sp_impl(ts, p)
    } else if k == TokenKind::KwFor {
        sp_for(ts, p)
    } else if k == TokenKind::KwWhile {
        sp_while(ts, p)
    } else if k == TokenKind::KwImport {
        sp_import(ts, p)
    } else if k == TokenKind::KwFrom {
        sp_from_import(ts, p)
    } else {
        sp_expr_or_assign(ts, p)
    }
}

/// The type parameters of a function in brackets, if it has any.
pub open spec fn sp_opt_tparams(ts: Seq<TokenView>, p: int) -> PR<Seq<TypeParamDefV>> {
    if tk(ts, p) == TokenKind::LBracket {
        match sp_tparams(ts, nxt(ts, p), Seq::empty()) {
            Err(e) => Err(e),
            Ok((tps, q)) => match sp_expect(ts, q, TokenKind::RBracket) {
                Err(e) => Err(e),
                Ok(q1) => Ok((tps, q1)),
            },
        }
    } else {
        Ok((Seq::empty(), p))
    }
}

/// `def name[T: C, ...](params) -> type:` and its body.
#[verifier::opaque]
pub open spec fn sp_funcdef(ts: Seq<TokenView>, p: int) -> PR<FuncDefV>
    decreases ts.len() - p, 27int,
{
    let start = tspan(ts, p);
    match sp_expect_ident(ts, nxt(ts, p)) {
        Err(e) => Err(e),
        Ok((name, p2)) => match sp_opt_tparams(ts, p2) {
            Err(e) => Err(e),
            Ok((tps, p3)) => match sp_expect(ts, p3, TokenKind::LParen) {
                Err(e) => Err(e),
                Ok(p4) => match sp_params(ts, p4, Seq::empty()) {
                    Err(e) => Err(e),
                    Ok((params, p5)) => match sp_expect(ts, p5, TokenKind::RParen) {
                        Err(e) => Err(e),
                        Ok(p6) => match sp_opt_type_after(ts, p6, TokenKind::Arrow) {
                            Err(e) => Err(e),
                            Ok((rt, p7)) => match sp_expect(ts, p7, TokenKind::Colon) {
                                Err(e) => Err(e),
                                Ok(p8) => if ahead(ts, p, p8) {
                                    match sp_block(ts, p8) {
                                        Err(e) => Err(e),
                                        Ok((body, p9)) => Ok((
                                            FuncDefV {
                                                name,
                                                type_params: tps,
                                                params,
                                                return_type: rt,
                                                body,
                                                span: join_span(start, tspan(ts, p9)),
                                            },
                                            p9,
                                        )),
                                    }
                                } else {
                                    Err(no_progress(ts, p8))
                                },
                            },
                        },
                    },
                },
            },
        },
    }
}

/// The type parameters of a data declaration in brackets, if it has any.
pub open spec fn sp_opt_names(ts: Seq<TokenView>, p: int) -> PR<Seq<Seq<char>>> {
    if tk(ts, p) == TokenKind::LBracket {
        match sp_ident_list(ts, nxt(ts, p), Seq::empty()) {
            Err(e) => Err(e),
            Ok((tps, q)) => match sp_expect(ts, q, TokenKind::RBracket) {
                Err(e) => Err(e),
                Ok(q1) => Ok((tps, q1)),
            },
        }
    } else {
        Ok((Seq::empty(), p))
    }
}

/// `data Name[T, ...]:` and an indented block of fields and methods.
#[verifier::opaque]
pub open spec fn sp_data(ts: Seq<TokenView>, p: int) -> PR<StatementV>
    decreases ts.len() - p, 27int,
{
    let start = tspan(ts, p);
    match sp_expect_ident(ts, nxt(ts, p)) {
        Err(e) => Err(e),
        Ok((name, p2)) => match sp_opt_names(ts, p2) {
            Err(e) => Err(e),
            Ok((tps, p3)) => match sp_expect(ts, p3, TokenKind::Colon) {
                Err(e) => Err(e),
                Ok(p4) => match sp_expect_newline(ts, p4) {
                    Err(e) => Err(e),
                    Ok(p5) => match sp_expect(ts, p5, TokenKind::Indent) {
                        Err(e) => Err(e),
                        Ok(p6) => if ahead(ts, p, p6) {
                            match sp_members(ts, p6, Seq::empty(), Seq::empty()) {
                                Err(e) => Err(e),
                                Ok(((fields, methods), p7)) => {
                                    let p8 = skip_dedent(ts, p7);
                                    Ok((
                                        StatementV::DataDecl {
                                            name,
                                            type_params: tps,
                                            fields,
                                            methods,
                                            span: join_span(start, tspan(ts, p8)),
                                        },
                                        p8,
                                    ))
                                },
                            }
                        } else {
                            Err(no_progress(ts, p6))
                        },
                    },
                },
            },
        },
    }
}

/// The fields and methods of a data declaration, up to a dedent or the end.
#[verifier::opaque]
pub open spec fn sp_members(ts: Seq<TokenView>, p: int, fs: Seq<FieldDeclV>, ms: Seq<FuncDefV>) -> PR<(Seq<FieldDeclV>, Seq<FuncDefV>)>
    decreases ts.len() - p, 29int,
{
    if tk(ts, p) == TokenKind::Dedent || tk(ts, p) == TokenKind::Eof {
        Ok(((fs, ms), p))
    } else {
        let q = sp_skip_newlines(ts, p);
        if tk(ts, q) == TokenKind::Dedent || tk(ts, q) == TokenKind::Eof {
            Ok(((fs, ms), q))
        } else if !fwd(ts, p, q) {
            Ok(((fs, ms), q))
        } else if tk(ts, q) == TokenKind::KwDef {
            match sp_funcdef(ts, q) {
                Err(e) => Err(e),
                Ok((f, q1)) => {
                    let q2 = sp_skip_newlines(ts, q1);
                    if ahead(ts, p, q2) {
                        sp_members(ts, q2, fs, ms.push(f))
                    } else {
                        Ok(((fs, ms.push(f)), q2))
                    }
                },
            }
        } else {
            match sp_field(ts, q) {
                Err(e) => Err(e),
                Ok((fd, q1)) => {
                    let q2 = sp_skip_newlines(ts, q1);
                    if ahead(ts, p, q2) {
                        sp_members(ts, q2, fs.push(fd), ms)
                    } else {
                        Ok(((fs.push(fd), ms), q2))
                    }
                },
            }
        }
    }
}

/// The kind of an `impl`: an instance `Name[types]` or inherent `Name`.
pub open spec fn sp_impl_kind(ts: Seq<TokenView>, name: Seq<char>, p: int) -> PR<ImplKindV> {
    if tk(ts, p) == TokenKind::LBracket {
        match sp_type_args(ts, nxt(ts, p), Seq::empty()) {
            Err(e) => Err(e),
            Ok((args, q)) => match sp_expect(ts, q, TokenKind::RBracket) {
                Err(e) => Err(e),
                Ok(q1) => Ok((ImplKindV::Instance { typeclass_name: name, type_args: args }, q1)),
            },
        }
    } else {
        Ok((ImplKindV::Inherent { target_type: name }, p))
    }
}

/// `impl ...:` and an indented block of methods.
#[verifier::opaque]
pub open spec fn sp_impl(ts: Seq<TokenView>, p: int) -> PR<StatementV>
    decreases ts.len() - p, 27int,
{
    let start = tspan(ts, p);
    match sp_expect_ident(ts, nxt(ts, p)) {
        Err(e) => Err(e),
        Ok((name, p2)) => match sp_impl_kind(ts, name, p2) {
            Err(e) => Err(e),
            Ok((kind, p4)) => match sp_expect(ts, p4, TokenKind::Colon) {
                Err(e) => Err(e),
                Ok(p5) => match sp_expect_newline(ts, p5) {
                    Err(e) => Err(e),
                    Ok(p6) => match sp_expect(ts, p6, TokenKind::Indent) {
                        Err(e) => Err(e),
                        Ok(p7) => {
                            let p8 = sp_skip_newlines(ts, p7);
                            if ahead(ts, p, p8) {
                                match sp_impl_methods(ts, p8, Seq::empty()) {
                                    Err(e) => Err(e),
                                    Ok((methods, p9)) => {
                                        let p10 = skip_dedent(ts, p9);
                                        Ok((StatementV::Impl { kind, methods, span: join_span(start, tspan(ts, p10)) }, p10))
                                    },
                                }
                            } else {
                                Err(no_progress(ts, p8))
                            }
                        },
                    },
                },
            },
        },
    }
}

/// The methods of an `impl`, up to a dedent or the end.
#[verifier::opaque]
pub open spec fn sp_impl_methods(ts: Seq<TokenView>, p: int, acc: Seq<FuncDefV>) -> PR<Seq<FuncDefV>>
    decreases ts.len() - p, 29int,
{
    if tk(ts, p) == TokenKind::Dedent || tk(ts, p) == TokenKind::Eof {
        Ok((acc, p))
    } else {
        match sp_funcdef(ts, p) {
            Err(e) => Err(e),
            Ok((f, q1)) => {
                let q2 = sp_skip_newlines(ts, q1);
                if ahead(ts, p, q2) {
                    sp_impl_methods(ts, q2, acc.push(f))
                } else {
                    Ok((acc.push(f), q2))
                }
            },
        }
    }
}

/// `if cond:` with its block, `elif` clauses, and an optional `else`.
#[verifier::opaque]
pub open spec fn sp_if(ts: Seq<TokenView>, p: int) -> PR<StatementV>
    decreases ts.len() - p, 27int,
{
    let start = tspan(ts, p);
    match sp_expr(ts, nxt(ts, p)) {
        Err(e) => Err(e),
        Ok((c, p2)) => match sp_expect(ts, p2, TokenKind::Colon) {
            Err(e) => Err(e),
            Ok(p3) => if !ahead(ts, p, p3) {
                Err(no_progress(ts, p3))
            } else {
                match sp_block(ts, p3) {
                    Err(e) => Err(e),
                    Ok((then_body, p4)) => if !ahead(ts, p, p4) {
                        Err(no_progress(ts, p4))
                    } else {
                        match sp_elifs(ts, p4, Seq::empty()) {
                            Err(e) => Err(e),
                            Ok((elifs, p5)) => if !ahead(ts, p, p5) {
                                Err(no_progress(ts, p5))
                            } else {
                                match sp_else(ts, p5) {
                                    Err(e) => Err(e),
                                    Ok((else_body, p7)) => Ok((
                                        StatementV::If {
                                            condition: c,
                                            then_body,
                                            elif_clauses: elifs,
                                            else_body,
                                            span: join_span(start, tspan(ts, p7)),
                                        },
                                        p7,
                                    )),
                                }
                            },
                        }
                    },
                }
            },
        },
    }
}

/// `elif cond:` clauses with their blocks.
#[verifier::opaque]
pub open spec fn sp_elifs(ts: Seq<TokenView>, p: int, acc: Seq<(ExprV, Seq<StatementV>)>) -> PR<Seq<(ExprV, Seq<StatementV>)>>
    decreases ts.len() - p, 29int,
{
    if tk(ts, p) == TokenKind::KwElif {
        match sp_expr(ts, nxt(ts, p)) {
            Err(e) => Err(e),
            Ok((c, p2)) => match sp_expect(ts, p2, TokenKind::Colon) {
                Err(e) => Err(e),
                Ok(p3) => if !ahead(ts, p, p3) {
                    Err(no_progress(ts, p3))
                } else {
                    match sp_block(ts, p3) {
                        Err(e) => Err(e),
                        Ok((b, p4)) => if ahead(ts, p, p4) {
                            sp_elifs(ts, p4, acc.push((c, b)))
                        } else {
                            Ok((acc.push((c, b)), p4))
                        },
                    }
                },
            },
        }
    } else {
        Ok((acc, p))
    }
}

/// An optional `else:` block.
#[verifier::opaque]
pub open spec fn sp_else(ts: Seq<TokenView>, p: int) -> PR<Option<Seq<StatementV>>>
    decreases ts.len() - p, 29int,
{
    if tk(ts, p) == TokenKind::KwElse {
        match sp_expect(ts, nxt(ts, p), TokenKind::Colon) {
            Err(e) => Err(e),
            Ok(p1) => if ahead(ts, p, p1) {
                match sp_block(ts, p1) {
                    Err(e) => Err(e),
                    Ok((b, p2)) => Ok((Some(b), p2)),
                }
            } else {
                Err(no_progress(ts, p1))
            },
        }
    } else {
        Ok((None, p))
    }
}

/// `for name in expr:` and its block.
#[verifier::opaque]
pub open spec fn sp_for(ts: Seq<TokenView>, p: int) -> PR<StatementV>
    decreases ts.len() - p, 27int,
{
    let start = tspan(ts, p);
    match sp_expect_ident(ts, nxt(ts, p)) {
        Err(e) => Err(e),
        Ok((v, p2)) => match sp_expect(ts, p2, TokenKind::KwIn) {
            Err(e) => Err(e),
            Ok(p3) => match sp_expr(ts, p3) {
                Err(e) => Err(e),
                Ok((it, p4)) => match sp_expect(ts, p4, TokenKind::Colon) {
                    Err(e) => Err(e),
                    Ok(p5) => if ahead(ts, p, p5) {
                        match sp_block(ts, p5) {
                            Err(e) => Err(e),
                            Ok((body, p6)) => Ok((
                                StatementV::For { var_name: v, iterable: it, body, span: join_span(start, tspan(ts, p6)) },
                                p6,
                            )),
                        }
                    } else {
                        Err(no_progress(ts, p5))
                    },
                },
            },
        },
    }
}

/// `while cond:` and its block.
#[verifier::opaque]
pub open spec fn sp_while(ts: Seq<TokenView>, p: int) -> PR<StatementV>
    decreases ts.len() - p, 27int,
{
    let start = tspan(ts, p);
    match sp_expr(ts, nxt(ts, p)) {
        Err(e) => Err(e),
        Ok((c, p2)) => match sp_expect(ts, p2, TokenKind::Colon) {
            Err(e) => Err(e),
            Ok(p3) => if ahead(ts, p, p3) {
                match sp_block(ts, p3) {
                    Err(e) => Err(e),
                    Ok((body, p4)) => Ok((
                        StatementV::While { condition: c, body, span: join_span(start, tspan(ts, p4)) },
                        p4,
                    )),
                }
            } else {
                Err(no_progress(ts, p3))
            },
        },
    }
}

/// Top-level statements up to the end.
pub open spec fn sp_module_body(ts: Seq<TokenView>, p: int, acc: Seq<StatementV>) -> PR<Seq<StatementV>>
    decreases ts.len() - p,
{
    if tk(ts, p) == TokenKind::Eof {
        Ok((acc, p))
    } else {
        match sp_stmt(ts, p) {
            Err(e) => Err(e),
            Ok((s, p1)) => {
                let p2 = sp_skip_newlines(ts, p1);
                if ahead(ts, p, p2) {
                    sp_module_body(ts, p2, acc.push(s))
                } else {
                    Ok((acc.push(s), p2))
                }
            },
        }
    }
}

/// A whole module read from `p`: its statements, spanning from the token at
/// `p` to the end.
pub open spec fn sp_module(ts: Seq<TokenView>, p: int) -> Result<ModuleV, DiagView> {
    match sp_module_body(ts, sp_skip_newlines(ts, p), Seq::empty()) {
        Err(e) => Err(e),
        Ok((body, q)) => Ok(ModuleV { body, span: join_span(tspan(ts, p), tspan(ts, q)) }),
    }
}

} // verus!
