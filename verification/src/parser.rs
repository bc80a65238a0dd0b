//! The parser: tokens to a syntax tree, by recursive descent.
//!
//! Each parsing function has a spec function of the same shape over the token
//! views (`sp_*`), giving the tree it builds and the position it stops at, or
//! the error it stops with. Where a parse is followed by more parsing, the spec
//! continues only from a position that does not go back; the parser always
//! moves forward, so that case never arises.

use vstd::prelude::*;
use crate::ast::{
    Assignment, AttrExpr, BinOp, BinOpExpr, CallExpr, DataDecl, Expr, ExprStmt, ExprV, FieldDecl, FieldDeclV,
    ForStmt, FuncDef, FuncDefV, IfStmt, ImplBlock, ImplKind, ImplKindV, ImportKind, ImportKindV, ImportName,
    ImportNameV, ImportStmt, IndexExpr, LetBinding, MethodSig, MethodSigV, Module, ModuleV, Param, ParamV,
    ReturnStmt, Statement, StatementV, TypeExpr, TypeExprV, TypeParamDef, TypeParamDefV, TypeclassDecl,
    UnaryOp, UnaryOpExpr, WhileStmt, expr_span, expr_v, exprs_v, field_v, fields_v, func_v, funcs_v,
    import_names_v, method_sigs_v, module_v, opt_expr_v, opt_str_v, opt_type_v, param_v, params_v, stmt_v,
    stmts_v, strs_v, type_params_v, type_span, type_v, types_v,
};
use crate::errors::{CompileError, DiagView, error_at, error_str, spec_error};
use crate::source::{SourceFile, Span};
use crate::text::{push_str, string_from};
use crate::token::{Token, TokenKind, TokenView, tokens_view};

verus! {

/// The result of a parse from some position: a value and the next position, or an error.
pub type PR<T> = Result<(T, int), DiagView>;

// ---------------------------------------------------------------------------
// Reading tokens
// ---------------------------------------------------------------------------

/// The kind of the token at `p` (`Eof` past the end).
pub open spec fn tk(ts: Seq<TokenView>, p: int) -> TokenKind {
    if 0 <= p < ts.len() { ts[p].kind } else { TokenKind::Eof }
}

/// The span of the token at `p` (the dummy span past the end).
pub open spec fn tspan(ts: Seq<TokenView>, p: int) -> Span {
    if 0 <= p < ts.len() { ts[p].span } else { Span::spec_dummy() }
}

/// The text of the token at `p` (empty past the end).
pub open spec fn ttext(ts: Seq<TokenView>, p: int) -> Seq<char> {
    if 0 <= p < ts.len() { ts[p].text } else { Seq::empty() }
}

/// The position after the token at `p` (which stays at the end).
pub open spec fn nxt(ts: Seq<TokenView>, p: int) -> int {
    if p < ts.len() { p + 1 } else { p }
}

/// `q` does not lie before `p`, nor past the end.
pub open spec fn fwd(ts: Seq<TokenView>, p: int, q: int) -> bool {
    p <= q <= ts.len()
}

/// `q` lies after `p`, and not past the end.
pub open spec fn ahead(ts: Seq<TokenView>, p: int, q: int) -> bool {
    p < q <= ts.len()
}

/// The error for finding something other than `what` at `p`.
pub open spec fn err_expected(what: Seq<char>, ts: Seq<TokenView>, p: int) -> DiagView {
    spec_error("expected "@ + what + ", found "@ + tk(ts, p).spec_name(), tspan(ts, p))
}

pub open spec fn sp_expect(ts: Seq<TokenView>, p: int, k: TokenKind) -> Result<int, DiagView> {
    if tk(ts, p) == k { Ok(nxt(ts, p)) } else { Err(err_expected(k.spec_name(), ts, p)) }
}

pub open spec fn sp_expect_ident(ts: Seq<TokenView>, p: int) -> PR<Seq<char>> {
    if tk(ts, p) == TokenKind::Ident {
        Ok((ttext(ts, p), nxt(ts, p)))
    } else {
        Err(err_expected("identifier"@, ts, p))
    }
}

pub open spec fn sp_skip_newlines(ts: Seq<TokenView>, p: int) -> int
    decreases ts.len() - p,
{
    if 0 <= p < ts.len() && ts[p].kind == TokenKind::Newline {
        sp_skip_newlines(ts, p + 1)
    } else {
        p
    }
}

pub proof fn lemma_skip_newlines(ts: Seq<TokenView>, p: int)
    requires
        0 <= p <= ts.len(),
    ensures
        p <= sp_skip_newlines(ts, p) <= ts.len(),
        tk(ts, sp_skip_newlines(ts, p)) != TokenKind::Newline,
    decreases ts.len() - p,
{
    if p < ts.len() && ts[p].kind == TokenKind::Newline {
        lemma_skip_newlines(ts, p + 1);
    }
}

pub open spec fn sp_expect_newline(ts: Seq<TokenView>, p: int) -> Result<int, DiagView> {
    if tk(ts, p) == TokenKind::Newline {
        Ok(sp_skip_newlines(ts, p + 1))
    } else {
        Err(err_expected("newline"@, ts, p))
    }
}

pub open spec fn sp_expect_newline_or_eof(ts: Seq<TokenView>, p: int) -> Result<int, DiagView> {
    let k = tk(ts, p);
    if k == TokenKind::Newline {
        Ok(p + 1)
    } else if k == TokenKind::Eof || k == TokenKind::Dedent {
        Ok(p)
    } else {
        Err(err_expected("newline"@, ts, p))
    }
}

// ---------------------------------------------------------------------------
// Integer literals
// ---------------------------------------------------------------------------

pub open spec fn digit_value(c: char) -> int {
    (c as int) - ('0' as int)
}

pub open spec fn all_digits(t: Seq<char>) -> bool {
    forall|i: int| 0 <= i < t.len() ==> '0' <= #[trigger] t[i] && t[i] <= '9'
}

/// The value of a string of decimal digits.
pub open spec fn digits_value(t: Seq<char>) -> int
    decreases t.len(),
{
    if t.len() == 0 {
        0
    } else {
        digits_value(t.drop_last()) * 10 + digit_value(t.last())
    }
}

/// The length of the sign that starts `t` (0 or 1).
pub open spec fn sign_len(t: Seq<char>) -> int {
    if t.len() > 0 && (t[0] == '-' || t[0] == '+') { 1 } else { 0 }
}

/// What `i64::from_str` gives for `t`: an optional sign, then one or more
/// decimal digits, with a value in range.
pub open spec fn parse_i64(t: Seq<char>) -> Option<i64> {
    let ds = t.skip(sign_len(t));
    if ds.len() == 0 || !all_digits(ds) {
        None
    } else {
        let v = if t.len() > 0 && t[0] == '-' { -digits_value(ds) } else { digits_value(ds) };
        if i64::MIN <= v <= i64::MAX { Some(v as i64) } else { None }
    }
}

proof fn lemma_digits_value_grows(t: Seq<char>, k: int)
    requires
        all_digits(t),
        0 <= k <= t.len(),
    ensures
        0 <= digits_value(t.take(k)) <= digits_value(t),
    decreases t.len() - k,
{
    if k < t.len() {
        lemma_digits_value_grows(t, k + 1);
        assert(t.take(k + 1).drop_last() =~= t.take(k));
    } else {
        assert(t.take(k) =~= t);
    }
    lemma_digits_value_nonneg(t.take(k));
}

proof fn lemma_digits_value_nonneg(t: Seq<char>)
    requires
        all_digits(t),
    ensures
        digits_value(t) >= 0,
    decreases t.len(),
{
    if t.len() > 0 {
        lemma_digits_value_nonneg(t.drop_last());
    }
}

/// Reads an integer as `i64::from_str` does.
pub fn parse_int(t: &String) -> (r: Option<i64>)
    ensures
        r == parse_i64(t@),
{
    let s = t.as_str();
    let n = s.unicode_len();
    let ghost tv = t@;
    let mut start: usize = 0;
    let mut neg = false;
    if n > 0 && (s.get_char(0) == '-' || s.get_char(0) == '+') {
        neg = s.get_char(0) == '-';
        start = 1;
    }
    let ghost ds = tv.skip(sign_len(tv));
    assert(start == sign_len(tv));
    if start >= n {
        return None;
    }
    let mut i: usize = start;
    let mut v: u64 = 0;
    let bound: u64 = 9223372036854775808;
    while i < n
        invariant
            n == tv.len(),
            s@ == tv,
            tv == t@,
            start <= i <= n,
            start == sign_len(tv),
            neg <==> (tv.len() > 0 && tv[0] == '-'),
            ds == tv.skip(sign_len(tv)),
            all_digits(ds.take(i - start)),
            v as int == digits_value(ds.take(i - start)),
            v <= bound,
            bound == 9223372036854775808u64,
        decreases n - i,
    {
        let c = s.get_char(i);
        if !('0' <= c && c <= '9') {
            assert(!all_digits(ds)) by {
                assert(ds[i - start] == c);
            }
            return None;
        }
        proof {
            assert(ds.take(i - start + 1).drop_last() =~= ds.take(i - start));
            assert(ds.take(i - start + 1).last() == c);
        }
        let d = (c as u32 - '0' as u32) as u64;
        assert(d as int == digit_value(c));
        if v > (bound - d) / 10 {
            proof {
                assert(v * 10 + d > bound) by (nonlinear_arith)
                    requires v > (bound - d) / 10, d <= 9, bound == 9223372036854775808u64;
                if all_digits(ds) {
                    lemma_digits_value_grows(ds, i - start + 1);
                }
            }
            return None;
        }
        v = v * 10 + d;
        i = i + 1;
    }
    assert(ds.take(i - start) =~= ds);
    if neg {
        if v == bound {
            Some(-9223372036854775807i64 - 1)
        } else {
            Some(-(v as i64))
        }
    } else if v == bound {
        None
    } else {
        Some(v as i64)
    }
}

// ---------------------------------------------------------------------------
// Expressions
// ---------------------------------------------------------------------------

/// A binary operation over two operands, spanning from the left to the right one.
pub open spec fn mk_bin(l: ExprV, op: BinOp, r: ExprV) -> ExprV {
    ExprV::BinOp(Box::new(l), op, Box::new(r), Span { start: expr_span(l).start, end: expr_span(r).end })
}

pub open spec fn cmp_op(k: TokenKind) -> Option<BinOp> {
    match k {
        TokenKind::EqEq => Some(BinOp::Eq),
        TokenKind::BangEq => Some(BinOp::NotEq),
        TokenKind::Lt => Some(BinOp::Lt),
        TokenKind::Gt => Some(BinOp::Gt),
        TokenKind::LtEq => Some(BinOp::LtEq),
        TokenKind::GtEq => Some(BinOp::GtEq),
        _ => None,
    }
}

pub open spec fn add_op(k: TokenKind) -> Option<BinOp> {
    match k {
        TokenKind::Plus => Some(BinOp::Add),
        TokenKind::Minus => Some(BinOp::Sub),
        _ => None,
    }
}

pub open spec fn mul_op(k: TokenKind) -> Option<BinOp> {
    match k {
        TokenKind::Star => Some(BinOp::Mul),
        TokenKind::Slash => Some(BinOp::Div),
        _ => None,
    }
}

/// An expression: the loosest-binding level, `or`.
#[verifier::opaque]
pub open spec fn sp_expr(ts: Seq<TokenView>, p: int) -> PR<ExprV>
    decreases ts.len() - p, 16int,
{
    sp_or(ts, p)
}

#[verifier::opaque]
pub open spec fn sp_or(ts: Seq<TokenView>, p: int) -> PR<ExprV>
    decreases ts.len() - p, 15int,
{
    match sp_and(ts, p) {
        Err(e) => Err(e),
        Ok((l, p1)) => if fwd(ts, p, p1) { sp_or_rest(ts, p1, l) } else { Ok((l, p1)) },
    }
}

/// `or` operands after the first, folded to the left.
#[verifier::opaque]
pub open spec fn sp_or_rest(ts: Seq<TokenView>, p: int, left: ExprV) -> PR<ExprV>
    decreases ts.len() - p, 14int,
{
    if tk(ts, p) == TokenKind::KwOr {
        match sp_and(ts, nxt(ts, p)) {
            Err(e) => Err(e),
            Ok((r, p2)) => if ahead(ts, p, p2) {
                sp_or_rest(ts, p2, mk_bin(left, BinOp::Or, r))
            } else {
                Ok((mk_bin(left, BinOp::Or, r), p2))
            },
        }
    } else {
        Ok((left, p))
    }
}

#[verifier::opaque]
pub open spec fn sp_and(ts: Seq<TokenView>, p: int) -> PR<ExprV>
    decreases ts.len() - p, 13int,
{
    match sp_not(ts, p) {
        Err(e) => Err(e),
        Ok((l, p1)) => if fwd(ts, p, p1) { sp_and_rest(ts, p1, l) } else { Ok((l, p1)) },
    }
}

#[verifier::opaque]
pub open spec fn sp_and_rest(ts: Seq<TokenView>, p: int, left: ExprV) -> PR<ExprV>
    decreases ts.len() - p, 12int,
{
    if tk(ts, p) == TokenKind::KwAnd {
        match sp_not(ts, nxt(ts, p)) {
            Err(e) => Err(e),
            Ok((r, p2)) => if ahead(ts, p, p2) {
                sp_and_rest(ts, p2, mk_bin(left, BinOp::And, r))
            } else {
                Ok((mk_bin(left, BinOp::And, r), p2))
            },
        }
    } else {
        Ok((left, p))
    }
}

#[verifier::opaque]
pub open spec fn sp_not(ts: Seq<TokenView>, p: int) -> PR<ExprV>
    decreases ts.len() - p, 11int,
{
    if tk(ts, p) == TokenKind::KwNot {
        let start = tspan(ts, p);
        match sp_not(ts, nxt(ts, p)) {
            Err(e) => Err(e),
            Ok((o, p2)) => Ok((
                ExprV::UnaryOp(UnaryOp::Not, Box::new(o), Span { start: start.start, end: expr_span(o).end }),
                p2,
            )),
        }
    } else {
        sp_cmp(ts, p)
    }
}

#[verifier::opaque]
pub open spec fn sp_cmp(ts: Seq<TokenView>, p: int) -> PR<ExprV>
    decreases ts.len() - p, 10int,
{
    match sp_add(ts, p) {
        Err(e) => Err(e),
        Ok((l, p1)) => if fwd(ts, p, p1) { sp_cmp_rest(ts, p1, l) } else { Ok((l, p1)) },
    }
}

#[verifier::opaque]
pub open spec fn sp_cmp_rest(ts: Seq<TokenView>, p: int, left: ExprV) -> PR<ExprV>
    decreases ts.len() - p, 9int,
{
    match cmp_op(tk(ts, p)) {
        None => Ok((left, p)),
        Some(op) => match sp_add(ts, nxt(ts, p)) {
            Err(e) => Err(e),
            Ok((r, p2)) => if ahead(ts, p, p2) {
                sp_cmp_rest(ts, p2, mk_bin(left, op, r))
            } else {
                Ok((mk_bin(left, op, r), p2))
            },
        },
    }
}

#[verifier::opaque]
pub open spec fn sp_add(ts: Seq<TokenView>, p: int) -> PR<ExprV>
    decreases ts.len() - p, 8int,
{
    match sp_mul(ts, p) {
        Err(e) => Err(e),
        Ok((l, p1)) => if fwd(ts, p, p1) { sp_add_rest(ts, p1, l) } else { Ok((l, p1)) },
    }
}

#[verifier::opaque]
pub open spec fn sp_add_rest(ts: Seq<TokenView>, p: int, left: ExprV) -> PR<ExprV>
    decreases ts.len() - p, 7int,
{
    match add_op(tk(ts, p)) {
        None => Ok((left, p)),
        Some(op) => match sp_mul(ts, nxt(ts, p)) {
            Err(e) => Err(e),
            Ok((r, p2)) => if ahead(ts, p, p2) {
                sp_add_rest(ts, p2, mk_bin(left, op, r))
            } else {
                Ok((mk_bin(left, op, r), p2))
            },
        },
    }
}

#[verifier::opaque]
pub open spec fn sp_mul(ts: Seq<TokenView>, p: int) -> PR<ExprV>
    decreases ts.len() - p, 6int,
{
    match sp_unary(ts, p) {
        Err(e) => Err(e),
        Ok((l, p1)) => if fwd(ts, p, p1) { sp_mul_rest(ts, p1, l) } else { Ok((l, p1)) },
    }
}

#[verifier::opaque]
pub open spec fn sp_mul_rest(ts: Seq<TokenView>, p: int, left: ExprV) -> PR<ExprV>
    decreases ts.len() - p, 5int,
{
    match mul_op(tk(ts, p)) {
        None => Ok((left, p)),
        Some(op) => match sp_unary(ts, nxt(ts, p)) {
            Err(e) => Err(e),
            Ok((r, p2)) => if ahead(ts, p, p2) {
                sp_mul_rest(ts, p2, mk_bin(left, op, r))
            } else {
                Ok((mk_bin(left, op, r), p2))
            },
        },
    }
}

#[verifier::opaque]
pub open spec fn sp_unary(ts: Seq<TokenView>, p: int) -> PR<ExprV>
    decreases ts.len() - p, 4int,
{
    if tk(ts, p) == TokenKind::Minus {
        let start = tspan(ts, p);
        match sp_unary(ts, nxt(ts, p)) {
            Err(e) => Err(e),
            Ok((o, p2)) => Ok((
                ExprV::UnaryOp(UnaryOp::Neg, Box::new(o), Span { start: start.start, end: expr_span(o).end }),
                p2,
            )),
        }
    } else {
        sp_postfix(ts, p)
    }
}

#[verifier::opaque]
pub open spec fn sp_postfix(ts: Seq<TokenView>, p: int) -> PR<ExprV>
    decreases ts.len() - p, 3int,
{
    match sp_atom(ts, p) {
        Err(e) => Err(e),
        Ok((a, p1)) => if fwd(ts, p, p1) { sp_postfix_rest(ts, p1, a) } else { Ok((a, p1)) },
    }
}

/// Calls, attribute accesses and indexing after an atom, folded to the left.
#[verifier::opaque]
pub open spec fn sp_postfix_rest(ts: Seq<TokenView>, p: int, e: ExprV) -> PR<ExprV>
    decreases ts.len() - p, 2int,
{
    let k = tk(ts, p);
    if k == TokenKind::LParen {
        match sp_items(ts, nxt(ts, p), Seq::empty(), TokenKind::RParen) {
            Err(err) => Err(err),
            Ok((args, p2)) => {
                let end = tspan(ts, p2);
                match sp_expect(ts, p2, TokenKind::RParen) {
                    Err(err) => Err(err),
                    Ok(p3) => {
                        let e2 = ExprV::Call(Box::new(e), args, Span { start: expr_span(e).start, end: end.end });
                        if ahead(ts, p, p3) { sp_postfix_rest(ts, p3, e2) } else { Ok((e2, p3)) }
                    },
                }
            },
        }
    } else if k == TokenKind::Dot {
        match sp_expect_ident(ts, nxt(ts, p)) {
            Err(err) => Err(err),
            Ok((attr, p2)) => {
                let end = tspan(ts, p2);
                let e2 = ExprV::Attr(Box::new(e), attr, Span { start: expr_span(e).start, end: end.end });
                if ahead(ts, p, p2) { sp_postfix_rest(ts, p2, e2) } else { Ok((e2, p2)) }
            },
        }
    } else if k == TokenKind::LBracket {
        match sp_expr(ts, nxt(ts, p)) {
            Err(err) => Err(err),
            Ok((idx, p2)) => {
                let end = tspan(ts, p2);
                match sp_expect(ts, p2, TokenKind::RBracket) {
                    Err(err) => Err(err),
                    Ok(p3) => {
                        let e2 = ExprV::Index(Box::new(e), Box::new(idx), Span { start: expr_span(e).start, end: end.end });
                        if ahead(ts, p, p3) { sp_postfix_rest(ts, p3, e2) } else { Ok((e2, p3)) }
                    },
                }
            },
        }
    } else {
        Ok((e, p))
    }
}

/// Comma-separated expressions up to (not over) the token `close`; `acc` holds those read so far.
#[verifier::opaque]
pub open spec fn sp_items(ts: Seq<TokenView>, p: int, acc: Seq<ExprV>, close: TokenKind) -> PR<Seq<ExprV>>
    decreases ts.len() - p, 17int,
{
    if tk(ts, p) == close {
        Ok((acc, p))
    } else {
        let c = if acc.len() > 0 { sp_expect(ts, p, TokenKind::Comma) } else { Ok(p) };
        match c {
            Err(err) => Err(err),
            Ok(p1) => if fwd(ts, p, p1) {
                match sp_expr(ts, p1) {
                    Err(err) => Err(err),
                    Ok((x, p2)) => if ahead(ts, p, p2) {
                        sp_items(ts, p2, acc.push(x), close)
                    } else {
                        Ok((acc.push(x), p2))
                    },
                }
            } else {
                Ok((acc, p1))
            },
        }
    }
}

#[verifier::opaque]
pub open spec fn sp_atom(ts: Seq<TokenView>, p: int) -> PR<ExprV>
    decreases ts.len() - p, 1int,
{
    let span = tspan(ts, p);
    let k = tk(ts, p);
    if k == TokenKind::IntLit {
        match parse_i64(ttext(ts, p)) {
            Some(v) => Ok((ExprV::IntLiteral(v, span), nxt(ts, p))),
            None => Err(spec_error("invalid integer literal"@, span)),
        }
    } else if k == TokenKind::FloatLit {
        Ok((ExprV::FloatLiteral(ttext(ts, p), span), nxt(ts, p)))
    } else if k == TokenKind::StringLit {
        Ok((ExprV::StringLiteral(ttext(ts, p), span), nxt(ts, p)))
    } else if k == TokenKind::KwTrue {
        Ok((ExprV::BoolLiteral(true, span), nxt(ts, p)))
    } else if k == TokenKind::KwFalse {
        Ok((ExprV::BoolLiteral(false, span), nxt(ts, p)))
    } else if k == TokenKind::KwNone {
        Ok((ExprV::NoneLiteral(span), nxt(ts, p)))
    } else if k == TokenKind::Ident {
        Ok((ExprV::Name(ttext(ts, p), span), nxt(ts, p)))
    } else if k == TokenKind::LParen {
        match sp_expr(ts, nxt(ts, p)) {
            Err(err) => Err(err),
            Ok((e, p2)) => match sp_expect(ts, p2, TokenKind::RParen) {
                Err(err) => Err(err),
                Ok(p3) => Ok((e, p3)),
            },
        }
    } else if k == TokenKind::LBracket {
        match sp_items(ts, nxt(ts, p), Seq::empty(), TokenKind::RBracket) {
            Err(err) => Err(err),
            Ok((els, p2)) => {
                let end = tspan(ts, p2);
                match sp_expect(ts, p2, TokenKind::RBracket) {
                    Err(err) => Err(err),
                    Ok(p3) => Ok((ExprV::ListLiteral(els, Span { start: span.start, end: end.end }), p3)),
                }
            },
        }
    } else {
        Err(spec_error("expected expression, found "@ + k.spec_name(), span))
    }
}

// ---------------------------------------------------------------------------
// Type expressions
// ---------------------------------------------------------------------------

#[verifier::opaque]
pub open spec fn sp_type(ts: Seq<TokenView>, p: int) -> PR<TypeExprV>
    decreases ts.len() - p, 1int,
{
    let span = tspan(ts, p);
    match sp_expect_ident(ts, p) {
        Err(err) => Err(err),
        Ok((name, p1)) => if tk(ts, p1) == TokenKind::LBracket && ahead(ts, p, p1) {
            match sp_type_args(ts, nxt(ts, p1), Seq::empty()) {
                Err(err) => Err(err),
                Ok((args, p2)) => {
                    let end = tspan(ts, p2);
                    match sp_expect(ts, p2, TokenKind::RBracket) {
                        Err(err) => Err(err),
                        Ok(p3) => Ok((TypeExprV::Parameterized(name, args, Span { start: span.start, end: end.end }), p3)),
                    }
                },
            }
        } else {
            Ok((TypeExprV::Named(name, span), p1))
        },
    }
}

/// Comma-separated type expressions up to (not over) `]`.
#[verifier::opaque]
pub open spec fn sp_type_args(ts: Seq<TokenView>, p: int, acc: Seq<TypeExprV>) -> PR<Seq<TypeExprV>>
    decreases ts.len() - p, 2int,
{
    if tk(ts, p) == TokenKind::RBracket {
        Ok((acc, p))
    } else {
        let c = if acc.len() > 0 { sp_expect(ts, p, TokenKind::Comma) } else { Ok(p) };
        match c {
            Err(err) => Err(err),
            Ok(p1) => if fwd(ts, p, p1) {
                match sp_type(ts, p1) {
                    Err(err) => Err(err),
                    Ok((x, p2)) => if ahead(ts, p, p2) {
                        sp_type_args(ts, p2, acc.push(x))
                    } else {
                        Ok((acc.push(x), p2))
                    },
                }
            } else {
                Ok((acc, p1))
            },
        }
    }
}

// ---------------------------------------------------------------------------
// The parser
// ---------------------------------------------------------------------------

pub open spec fn pr_expr(r: Result<Expr, CompileError>, p: int) -> PR<ExprV> {
    match r {
        Ok(e) => Ok((expr_v(e), p)),
        Err(e) => Err(e@),
    }
}

pub open spec fn pr_exprs(r: Result<Vec<Expr>, CompileError>, p: int) -> PR<Seq<ExprV>> {
    match r {
        Ok(v) => Ok((exprs_v(v@), p)),
        Err(e) => Err(e@),
    }
}

pub open spec fn pr_type(r: Result<TypeExpr, CompileError>, p: int) -> PR<TypeExprV> {
    match r {
        Ok(t) => Ok((type_v(t), p)),
        Err(e) => Err(e@),
    }
}

pub open spec fn pr_types(r: Result<Vec<TypeExpr>, CompileError>, p: int) -> PR<Seq<TypeExprV>> {
    match r {
        Ok(v) => Ok((types_v(v@), p)),
        Err(e) => Err(e@),
    }
}

pub open spec fn pr_unit(r: Result<(), CompileError>, p: int) -> Result<int, DiagView> {
    match r {
        Ok(()) => Ok(p),
        Err(e) => Err(e@),
    }
}

pub open spec fn pr_name(r: Result<String, CompileError>, p: int) -> PR<Seq<char>> {
    match r {
        Ok(s) => Ok((s@, p)),
        Err(e) => Err(e@),
    }
}

pub struct Parser {
    tokens: Vec<Token>,
    pos: usize,
}

impl Parser {
    /// The views of the tokens being parsed.
    pub closed spec fn toks(&self) -> Seq<TokenView> {
        tokens_view(self.tokens@)
    }

    /// The position of the next token to read.
    pub closed spec fn at(&self) -> int {
        self.pos as int
    }

    pub closed spec fn pwf(&self) -> bool {
        self.pos <= self.tokens@.len()
    }

    /// A well-formed parser stands within its tokens.
    pub proof fn lemma_bounds(&self)
        requires
            self.pwf(),
        ensures
            0 <= self.at() <= self.toks().len(),
    {
    }

    /// A parser at the first of the tokens (the source is not read).
    pub fn new(tokens: Vec<Token>, source: &SourceFile) -> (p: Parser)
        ensures
            p.toks() == tokens_view(tokens@),
            p.at() == 0,
            p.pwf(),
    {
        Parser { tokens, pos: 0 }
    }

    pub(crate) fn peek(&self) -> (k: TokenKind)
        requires
            self.pwf(),
        ensures
            k == tk(self.toks(), self.at()),
    {
        if self.pos < self.tokens.len() {
            self.tokens[self.pos].kind
        } else {
            TokenKind::Eof
        }
    }

    pub(crate) fn check(&self, kind: TokenKind) -> (r: bool)
        requires
            self.pwf(),
        ensures
            r == (tk(self.toks(), self.at()) == kind),
    {
        self.peek() == kind
    }

    pub(crate) fn advance(&mut self)
        requires
            old(self).pwf(),
        ensures
            final(self).pwf(),
            final(self).toks() == old(self).toks(),
            final(self).at() == nxt(old(self).toks(), old(self).at()),
            fwd(old(self).toks(), old(self).at(), final(self).at()),
    {
        proof { self.lemma_bounds(); }
        if self.pos < self.tokens.len() {
            self.pos = self.pos + 1;
        }
    }

    pub(crate) fn match_token(&mut self, kind: TokenKind) -> (r: bool)
        requires
            old(self).pwf(),
        ensures
            final(self).pwf(),
            final(self).toks() == old(self).toks(),
            r == (tk(old(self).toks(), old(self).at()) == kind),
            final(self).at() == if r { nxt(old(self).toks(), old(self).at()) } else { old(self).at() },
    {
        if self.check(kind) {
            self.advance();
            true
        } else {
            false
        }
    }

    pub(crate) fn current_span(&self) -> (s: Span)
        requires
            self.pwf(),
        ensures
            s == tspan(self.toks(), self.at()),
    {
        if self.pos < self.tokens.len() {
            self.tokens[self.pos].span
        } else {
            Span::dummy()
        }
    }

    pub(crate) fn current_text(&self) -> (s: String)
        requires
            self.pwf(),
        ensures
            s@ == ttext(self.toks(), self.at()),
    {
        if self.pos < self.tokens.len() {
            self.tokens[self.pos].text.clone()
        } else {
            String::new()
        }
    }

    /// The error for finding something other than `what` here.
    pub(crate) fn expected_error(&self, what: &str) -> (e: CompileError)
        requires
            self.pwf(),
        ensures
            e@ == err_expected(what@, self.toks(), self.at()),
    {
        let mut msg = string_from("expected ");
        push_str(&mut msg, what);
        push_str(&mut msg, ", found ");
        push_str(&mut msg, self.peek().name());
        error_at(msg, self.current_span())
    }

    pub(crate) fn expect(&mut self, kind: TokenKind) -> (r: Result<(), CompileError>)
        requires
            old(self).pwf(),
        ensures
            final(self).pwf(),
            final(self).toks() == old(self).toks(),
            pr_unit(r, final(self).at()) == sp_expect(old(self).toks(), old(self).at(), kind),
            r is Err ==> final(self).at() == old(self).at(),
            r is Ok && kind != TokenKind::Eof ==> ahead(old(self).toks(), old(self).at(), final(self).at()),
    {
        proof { self.lemma_bounds(); }
        if self.check(kind) {
            self.advance();
            Ok(())
        } else {
            Err(self.expected_error(kind.name()))
        }
    }

    pub(crate) fn expect_ident(&mut self) -> (r: Result<String, CompileError>)
        requires
            old(self).pwf(),
        ensures
            final(self).pwf(),
            final(self).toks() == old(self).toks(),
            pr_name(r, final(self).at()) == sp_expect_ident(old(self).toks(), old(self).at()),
            r is Ok ==> ahead(old(self).toks(), old(self).at(), final(self).at()),
    {
        proof { self.lemma_bounds(); }
        if self.check(TokenKind::Ident) {
            let name = self.current_text();
            self.advance();
            Ok(name)
        } else {
            Err(self.expected_error("identifier"))
        }
    }

    pub(crate) fn skip_newlines(&mut self)
        requires
            old(self).pwf(),
        ensures
            final(self).pwf(),
            final(self).toks() == old(self).toks(),
            final(self).at() == sp_skip_newlines(old(self).toks(), old(self).at()),
            fwd(old(self).toks(), old(self).at(), final(self).at()),
    {
        let ghost ts = self.toks();
        let ghost p0 = self.at();
        proof {
            self.lemma_bounds();
            lemma_skip_newlines(ts, p0);
        }
        while self.check(TokenKind::Newline)
            invariant
                self.pwf(),
                self.toks() == ts,
                sp_skip_newlines(ts, self.at()) == sp_skip_newlines(ts, p0),
            decreases ts.len() - self.at(),
        {
            self.advance();
        }
    }

    pub(crate) fn expect_newline(&mut self) -> (r: Result<(), CompileError>)
        requires
            old(self).pwf(),
        ensures
            final(self).pwf(),
            final(self).toks() == old(self).toks(),
            pr_unit(r, final(self).at()) == sp_expect_newline(old(self).toks(), old(self).at()),
            r is Ok ==> ahead(old(self).toks(), old(self).at(), final(self).at()),
    {
        proof { self.lemma_bounds(); }
        if self.check(TokenKind::Newline) {
            self.advance();
            self.skip_newlines();
            Ok(())
        } else {
            Err(self.expected_error("newline"))
        }
    }

    pub(crate) fn expect_newline_or_eof(&mut self) -> (r: Result<(), CompileError>)
        requires
            old(self).pwf(),
        ensures
            final(self).pwf(),
            final(self).toks() == old(self).toks(),
            pr_unit(r, final(self).at()) == sp_expect_newline_or_eof(old(self).toks(), old(self).at()),
            r is Ok ==> fwd(old(self).toks(), old(self).at(), final(self).at()),
    {
        proof { self.lemma_bounds(); }
        if self.check(TokenKind::Newline) || self.check(TokenKind::Eof) || self.check(TokenKind::Dedent) {
            if self.check(TokenKind::Newline) {
                self.advance();
            }
            Ok(())
        } else {
            Err(self.expected_error("newline"))
        }
    }
}


} // verus!
