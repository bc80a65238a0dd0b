//! Parsing of expressions and type expressions.

use vstd::prelude::*;
use crate::ast::{
    AttrExpr, BinOp, BinOpExpr, CallExpr, Expr, ExprV, IndexExpr, TypeExpr, TypeExprV, UnaryOp, UnaryOpExpr,
    expr_v, exprs_v, type_v, types_v,
};
use crate::errors::{CompileError, DiagView, error_at, error_str};
use crate::parser::{
    Parser, ahead, fwd, parse_int, pr_expr, pr_exprs, pr_type, pr_types, sp_add, sp_add_rest, sp_and,
    sp_and_rest, sp_atom, sp_cmp, sp_cmp_rest, sp_expr, sp_items, sp_mul, sp_mul_rest, sp_not, sp_or,
    sp_or_rest, sp_postfix, sp_postfix_rest, sp_type, sp_type_args, sp_unary,
};
use crate::source::Span;
use crate::text::{push_str, string_from};
use crate::token::TokenKind;

verus! {

pub proof fn lemma_exprs_v_push(s: Seq<Expr>, x: Expr)
    ensures
        exprs_v(s.push(x)) == exprs_v(s).push(expr_v(x)),
{
    assert(exprs_v(s.push(x)) =~= exprs_v(s).push(expr_v(x)));
}

pub proof fn lemma_types_v_push(s: Seq<TypeExpr>, x: TypeExpr)
    ensures
        types_v(s.push(x)) == types_v(s).push(type_v(x)),
{
    assert(types_v(s.push(x)) =~= types_v(s).push(type_v(x)));
}

impl Parser {
    pub(crate) fn parse_expr(&mut self) -> (r: Result<Expr, CompileError>)
        requires
            old(self).pwf(),
        ensures
            final(self).pwf(),
            final(self).toks() == old(self).toks(),
            pr_expr(r, final(self).at()) == sp_expr(old(self).toks(), old(self).at()),
            r is Ok ==> ahead(old(self).toks(), old(self).at(), final(self).at()),
        decreases old(self).toks().len() - old(self).at(), 16int,
    {
        proof {
            reveal(sp_expr);
            reveal(sp_or);
        }
        self.parse_or()
    }

    pub(crate) fn parse_or(&mut self) -> (r: Result<Expr, CompileError>)
        requires
            old(self).pwf(),
        ensures
            final(self).pwf(),
            final(self).toks() == old(self).toks(),
            pr_expr(r, final(self).at()) == sp_or(old(self).toks(), old(self).at()),
            r is Ok ==> ahead(old(self).toks(), old(self).at(), final(self).at()),
        decreases old(self).toks().len() - old(self).at(), 15int,
    {
        proof {
            reveal(sp_or);
            reveal(sp_or_rest);
            reveal(sp_and);
        }
        let ghost ts = self.toks();
        let ghost p0 = self.at();
        let mut left = match self.parse_and() {
            Err(e) => return Err(e),
            Ok(l) => l,
        };
        loop
            invariant_except_break
                self.pwf(),
                self.toks() == ts,
                ts == old(self).toks(),
                p0 == old(self).at(),
                ahead(ts, p0, self.at()),
                sp_or_rest(ts, self.at(), expr_v(left)) == sp_or(ts, p0),
            ensures
                self.pwf(),
                self.toks() == ts,
                ahead(ts, p0, self.at()),
                Ok::<(ExprV, int), DiagView>((expr_v(left), self.at())) == sp_or(ts, p0),
            decreases ts.len() - self.at(),
        {
            proof {
                reveal(sp_or_rest);
                reveal(sp_and);
                self.lemma_bounds();
            }
            let k = self.peek();
            if k != TokenKind::KwOr {
                break;
            }
            self.advance();
            let right = match self.parse_and() {
                Err(e) => return Err(e),
                Ok(r) => r,
            };
            let span = Span::new(left.span().start, right.span().end);
            left = Expr::BinOp(Box::new(BinOpExpr { left, op: BinOp::Or, right, span }));
        }
        Ok(left)
    }

    pub(crate) fn parse_and(&mut self) -> (r: Result<Expr, CompileError>)
        requires
            old(self).pwf(),
        ensures
            final(self).pwf(),
            final(self).toks() == old(self).toks(),
            pr_expr(r, final(self).at()) == sp_and(old(self).toks(), old(self).at()),
            r is Ok ==> ahead(old(self).toks(), old(self).at(), final(self).at()),
        decreases old(self).toks().len() - old(self).at(), 13int,
    {
        proof {
            reveal(sp_and);
            reveal(sp_and_rest);
            reveal(sp_not);
        }
        let ghost ts = self.toks();
        let ghost p0 = self.at();
        let mut left = match self.parse_not() {
            Err(e) => return Err(e),
            Ok(l) => l,
        };
        loop
            invariant_except_break
                self.pwf(),
                self.toks() == ts,
                ts == old(self).toks(),
                p0 == old(self).at(),
                ahead(ts, p0, self.at()),
                sp_and_rest(ts, self.at(), expr_v(left)) == sp_and(ts, p0),
            ensures
                self.pwf(),
                self.toks() == ts,
                ahead(ts, p0, self.at()),
                Ok::<(ExprV, int), DiagView>((expr_v(left), self.at())) == sp_and(ts, p0),
            decreases ts.len() - self.at(),
        {
            proof {
                reveal(sp_and_rest);
                reveal(sp_not);
                self.lemma_bounds();
            }
            let k = self.peek();
            if k != TokenKind::KwAnd {
                break;
            }
            self.advance();
            let right = match self.parse_not() {
                Err(e) => return Err(e),
                Ok(r) => r,
            };
            let span = Span::new(left.span().start, right.span().end);
            left = Expr::BinOp(Box::new(BinOpExpr { left, op: BinOp::And, right, span }));
        }
        Ok(left)
    }

    pub(crate) fn parse_cmp(&mut self) -> (r: Result<Expr, CompileError>)
        requires
            old(self).pwf(),
        ensures
            final(self).pwf(),
            final(self).toks() == old(self).toks(),
            pr_expr(r, final(self).at()) == sp_cmp(old(self).toks(), old(self).at()),
            r is Ok ==> ahead(old(self).toks(), old(self).at(), final(self).at()),
        decreases old(self).toks().len() - old(self).at(), 10int,
    {
        proof {
            reveal(sp_cmp);
            reveal(sp_cmp_rest);
            reveal(sp_add);
        }
        let ghost ts = self.toks();
        let ghost p0 = self.at();
        let mut left = match self.parse_add() {
            Err(e) => return Err(e),
            Ok(l) => l,
        };
        loop
            invariant_except_break
                self.pwf(),
                self.toks() == ts,
                ts == old(self).toks(),
                p0 == old(self).at(),
                ahead(ts, p0, self.at()),
                sp_cmp_rest(ts, self.at(), expr_v(left)) == sp_cmp(ts, p0),
            ensures
                self.pwf(),
                self.toks() == ts,
                ahead(ts, p0, self.at()),
                Ok::<(ExprV, int), DiagView>((expr_v(left), self.at())) == sp_cmp(ts, p0),
            decreases ts.len() - self.at(),
        {
            proof {
                reveal(sp_cmp_rest);
                reveal(sp_add);
                self.lemma_bounds();
            }
            let k = self.peek();
            let op = match k {
                TokenKind::EqEq => BinOp::Eq,
                TokenKind::BangEq => BinOp::NotEq,
                TokenKind::Lt => BinOp::Lt,
                TokenKind::Gt => BinOp::Gt,
                TokenKind::LtEq => BinOp::LtEq,
                TokenKind::GtEq => BinOp::GtEq,
                _ => break,
            };
            self.advance();
            let right = match self.parse_add() {
                Err(e) => return Err(e),
                Ok(r) => r,
            };
            let span = Span::new(left.span().start, right.span().end);
            left = Expr::BinOp(Box::new(BinOpExpr { left, op: op, right, span }));
        }
        Ok(left)
    }

    pub(crate) fn parse_add(&mut self) -> (r: Result<Expr, CompileError>)
        requires
            old(self).pwf(),
        ensures
            final(self).pwf(),
            final(self).toks() == old(self).toks(),
            pr_expr(r, final(self).at()) == sp_add(old(self).toks(), old(self).at()),
            r is Ok ==> ahead(old(self).toks(), old(self).at(), final(self).at()),
        decreases old(self).toks().len() - old(self).at(), 8int,
    {
        proof {
            reveal(sp_add);
            reveal(sp_add_rest);
            reveal(sp_mul);
        }
        let ghost ts = self.toks();
        let ghost p0 = self.at();
        let mut left = match self.parse_mul() {
            Err(e) => return Err(e),
            Ok(l) => l,
        };
        loop
            invariant_except_break
                self.pwf(),
                self.toks() == ts,
                ts == old(self).toks(),
                p0 == old(self).at(),
                ahead(ts, p0, self.at()),
                sp_add_rest(ts, self.at(), expr_v(left)) == sp_add(ts, p0),
            ensures
                self.pwf(),
                self.toks() == ts,
                ahead(ts, p0, self.at()),
                Ok::<(ExprV, int), DiagView>((expr_v(left), self.at())) == sp_add(ts, p0),
            decreases ts.len() - self.at(),
        {
            proof {
                reveal(sp_add_rest);
                reveal(sp_mul);
                self.lemma_bounds();
            }
            let k = self.peek();
            let op = match k {
                TokenKind::Plus => BinOp::Add,
                TokenKind::Minus => BinOp::Sub,
                _ => break,
            };
            self.advance();
            let right = match self.parse_mul() {
                Err(e) => return Err(e),
                Ok(r) => r,
            };
            let span = Span::new(left.span().start, right.span().end);
            left = Expr::BinOp(Box::new(BinOpExpr { left, op: op, right, span }));
        }
        Ok(left)
    }

    pub(crate) fn parse_mul(&mut self) -> (r: Result<Expr, CompileError>)
        requires
            old(self).pwf(),
        ensures
            final(self).pwf(),
            final(self).toks() == old(self).toks(),
            pr_expr(r, final(self).at()) == sp_mul(old(self).toks(), old(self).at()),
            r is Ok ==> ahead(old(self).toks(), old(self).at(), final(self).at()),
        decreases old(self).toks().len() - old(self).at(), 6int,
    {
        proof {
            reveal(sp_mul);
            reveal(sp_mul_rest);
            reveal(sp_unary);
        }
        let ghost ts = self.toks();
        let ghost p0 = self.at();
        let mut left = match self.parse_unary() {
            Err(e) => return Err(e),
            Ok(l) => l,
        };
        loop
            invariant_except_break
                self.pwf(),
                self.toks() == ts,
                ts == old(self).toks(),
                p0 == old(self).at(),
                ahead(ts, p0, self.at()),
                sp_mul_rest(ts, self.at(), expr_v(left)) == sp_mul(ts, p0),
            ensures
                self.pwf(),
                self.toks() == ts,
                ahead(ts, p0, self.at()),
                Ok::<(ExprV, int), DiagView>((expr_v(left), self.at())) == sp_mul(ts, p0),
            decreases ts.len() - self.at(),
        {
            proof {
                reveal(sp_mul_rest);
                reveal(sp_unary);
                self.lemma_bounds();
            }
            let k = self.peek();
            let op = match k {
                TokenKind::Star => BinOp::Mul,
                TokenKind::Slash => BinOp::Div,
                _ => break,
            };
            self.advance();
            let right = match self.parse_unary() {
                Err(e) => return Err(e),
                Ok(r) => r,
            };
            let span = Span::new(left.span().start, right.span().end);
            left = Expr::BinOp(Box::new(BinOpExpr { left, op: op, right, span }));
        }
        Ok(left)
    }

    pub(crate) fn parse_not(&mut self) -> (r: Result<Expr, CompileError>)
        requires
            old(self).pwf(),
        ensures
            final(self).pwf(),
            final(self).toks() == old(self).toks(),
            pr_expr(r, final(self).at()) == sp_not(old(self).toks(), old(self).at()),
            r is Ok ==> ahead(old(self).toks(), old(self).at(), final(self).at()),
        decreases old(self).toks().len() - old(self).at(), 11int,
    {
        proof {
            reveal(sp_not);
            reveal(sp_cmp);
        }
        if self.check(TokenKind::KwNot) {
            let start = self.current_span();
            self.advance();
            let operand = match self.parse_not() {
                Err(e) => return Err(e),
                Ok(o) => o,
            };
            let span = Span::new(start.start, operand.span().end);
            Ok(Expr::UnaryOp(Box::new(UnaryOpExpr { op: UnaryOp::Not, operand, span })))
        } else {
            self.parse_cmp()
        }
    }

    pub(crate) fn parse_unary(&mut self) -> (r: Result<Expr, CompileError>)
        requires
            old(self).pwf(),
        ensures
            final(self).pwf(),
            final(self).toks() == old(self).toks(),
            pr_expr(r, final(self).at()) == sp_unary(old(self).toks(), old(self).at()),
            r is Ok ==> ahead(old(self).toks(), old(self).at(), final(self).at()),
        decreases old(self).toks().len() - old(self).at(), 4int,
    {
        proof {
            reveal(sp_unary);
            reveal(sp_postfix);
        }
        if self.check(TokenKind::Minus) {
            let start = self.current_span();
            self.advance();
            let operand = match self.parse_unary() {
                Err(e) => return Err(e),
                Ok(o) => o,
            };
            let span = Span::new(start.start, operand.span().end);
            Ok(Expr::UnaryOp(Box::new(UnaryOpExpr { op: UnaryOp::Neg, operand, span })))
        } else {
            self.parse_postfix()
        }
    }

    #[verifier::rlimit(40)]
    pub(crate) fn parse_postfix(&mut self) -> (r: Result<Expr, CompileError>)
        requires
            old(self).pwf(),
        ensures
            final(self).pwf(),
            final(self).toks() == old(self).toks(),
            pr_expr(r, final(self).at()) == sp_postfix(old(self).toks(), old(self).at()),
            r is Ok ==> ahead(old(self).toks(), old(self).at(), final(self).at()),
        decreases old(self).toks().len() - old(self).at(), 3int,
    {
        proof {
            reveal(sp_postfix);
            reveal(sp_postfix_rest);
            reveal(sp_atom);
            reveal(sp_items);
            reveal(sp_expr);
        }
        let ghost ts = self.toks();
        let ghost p0 = self.at();
        let mut expr = match self.parse_atom() {
            Err(e) => return Err(e),
            Ok(a) => a,
        };
        loop
            invariant_except_break
                self.pwf(),
                self.toks() == ts,
                ts == old(self).toks(),
                p0 == old(self).at(),
                ahead(ts, p0, self.at()),
                sp_postfix_rest(ts, self.at(), expr_v(expr)) == sp_postfix(ts, p0),
            ensures
                self.pwf(),
                self.toks() == ts,
                ahead(ts, p0, self.at()),
                Ok::<(ExprV, int), DiagView>((expr_v(expr), self.at())) == sp_postfix(ts, p0),
            decreases ts.len() - self.at(),
        {
            proof {
                reveal(sp_postfix_rest);
                reveal(sp_items);
                reveal(sp_expr);
            }
            let k = self.peek();
            if k == TokenKind::LParen {
                self.advance();
                let args = match self.parse_items(TokenKind::RParen) {
                    Err(e) => return Err(e),
                    Ok(a) => a,
                };
                let end = self.current_span();
                match self.expect(TokenKind::RParen) {
                    Err(e) => return Err(e),
                    Ok(()) => {},
                }
                let span = Span::new(expr.span().start, end.end);
                expr = Expr::Call(Box::new(CallExpr { callee: expr, args, span }));
            } else if k == TokenKind::Dot {
                self.advance();
                let attr = match self.expect_ident() {
                    Err(e) => return Err(e),
                    Ok(a) => a,
                };
                let end = self.current_span();
                let span = Span::new(expr.span().start, end.end);
                expr = Expr::Attr(Box::new(AttrExpr { object: expr, attr, span }));
            } else if k == TokenKind::LBracket {
                self.advance();
                let index = match self.parse_expr() {
                    Err(e) => return Err(e),
                    Ok(i) => i,
                };
                let end = self.current_span();
                match self.expect(TokenKind::RBracket) {
                    Err(e) => return Err(e),
                    Ok(()) => {},
                }
                let span = Span::new(expr.span().start, end.end);
                expr = Expr::Index(Box::new(IndexExpr { object: expr, index, span }));
            } else {
                break;
            }
        }
        Ok(expr)
    }

    /// Comma-separated expressions up to (not over) `close`.
    #[verifier::rlimit(40)]
    pub(crate) fn parse_items(&mut self, close: TokenKind) -> (r: Result<Vec<Expr>, CompileError>)
        requires
            old(self).pwf(),
        ensures
            final(self).pwf(),
            final(self).toks() == old(self).toks(),
            pr_exprs(r, final(self).at()) == sp_items(old(self).toks(), old(self).at(), Seq::empty(), close),
            r is Ok ==> fwd(old(self).toks(), old(self).at(), final(self).at()),
        decreases old(self).toks().len() - old(self).at(), 17int,
    {
        proof {
            reveal(sp_items);
            reveal(sp_expr);
        }
        let ghost ts = self.toks();
        let ghost p0 = self.at();
        proof { self.lemma_bounds(); }
        let mut items: Vec<Expr> = Vec::new();
        assert(exprs_v(items@) =~= Seq::<ExprV>::empty());
        while !self.check(close)
            invariant
                self.pwf(),
                self.toks() == ts,
                ts == old(self).toks(),
                p0 == old(self).at(),
                fwd(ts, p0, self.at()),
                sp_items(ts, self.at(), exprs_v(items@), close) == sp_items(ts, p0, Seq::empty(), close),
            decreases ts.len() - self.at(),
        {
            proof {
                reveal(sp_items);
                reveal(sp_expr);
            }
            if items.len() > 0 {
                match self.expect(TokenKind::Comma) {
                    Err(e) => return Err(e),
                    Ok(()) => {},
                }
            }
            let x = match self.parse_expr() {
                Err(e) => return Err(e),
                Ok(x) => x,
            };
            proof {
                lemma_exprs_v_push(items@, x);
            }
            items.push(x);
        }
        Ok(items)
    }

    #[verifier::rlimit(40)]
    pub(crate) fn parse_atom(&mut self) -> (r: Result<Expr, CompileError>)
        requires
            old(self).pwf(),
        ensures
            final(self).pwf(),
            final(self).toks() == old(self).toks(),
            pr_expr(r, final(self).at()) == sp_atom(old(self).toks(), old(self).at()),
            r is Ok ==> ahead(old(self).toks(), old(self).at(), final(self).at()),
        decreases old(self).toks().len() - old(self).at(), 1int,
    {
        proof {
            reveal(sp_atom);
            reveal(sp_expr);
            reveal(sp_items);
        }
        let span = self.current_span();
        let k = self.peek();
        if k == TokenKind::IntLit {
            let text = self.current_text();
            self.advance();
            match parse_int(&text) {
                Some(v) => Ok(Expr::IntLiteral(v, span)),
                None => Err(error_str("invalid integer literal", span)),
            }
        } else if k == TokenKind::FloatLit {
            let text = self.current_text();
            self.advance();
            Ok(Expr::FloatLiteral(text, span))
        } else if k == TokenKind::StringLit {
            let text = self.current_text();
            self.advance();
            Ok(Expr::StringLiteral(text, span))
        } else if k == TokenKind::KwTrue {
            self.advance();
            Ok(Expr::BoolLiteral(true, span))
        } else if k == TokenKind::KwFalse {
            self.advance();
            Ok(Expr::BoolLiteral(false, span))
        } else if k == TokenKind::KwNone {
            self.advance();
            Ok(Expr::NoneLiteral(span))
        } else if k == TokenKind::Ident {
            let name = self.current_text();
            self.advance();
            Ok(Expr::Name(name, span))
        } else if k == TokenKind::LParen {
            self.advance();
            let expr = match self.parse_expr() {
                Err(e) => return Err(e),
                Ok(e) => e,
            };
            match self.expect(TokenKind::RParen) {
                Err(e) => return Err(e),
                Ok(()) => {},
            }
            Ok(expr)
        } else if k == TokenKind::LBracket {
            self.advance();
            let elements = match self.parse_items(TokenKind::RBracket) {
                Err(e) => return Err(e),
                Ok(els) => els,
            };
            let end = self.current_span();
            match self.expect(TokenKind::RBracket) {
                Err(e) => return Err(e),
                Ok(()) => {},
            }
            Ok(Expr::ListLiteral(elements, Span::new(span.start, end.end)))
        } else {
            let mut msg = string_from("expected expression, found ");
            push_str(&mut msg, k.name());
            Err(error_at(msg, span))
        }
    }

    pub(crate) fn parse_type_expr(&mut self) -> (r: Result<TypeExpr, CompileError>)
        requires
            old(self).pwf(),
        ensures
            final(self).pwf(),
            final(self).toks() == old(self).toks(),
            pr_type(r, final(self).at()) == sp_type(old(self).toks(), old(self).at()),
            r is Ok ==> ahead(old(self).toks(), old(self).at(), final(self).at()),
        decreases old(self).toks().len() - old(self).at(), 1int,
    {
        proof {
            reveal(sp_type);
            reveal(sp_type_args);
        }
        let span = self.current_span();
        let name = match self.expect_ident() {
            Err(e) => return Err(e),
            Ok(n) => n,
        };
        if self.match_token(TokenKind::LBracket) {
            let args = match self.parse_type_args() {
                Err(e) => return Err(e),
                Ok(a) => a,
            };
            let end = self.current_span();
            match self.expect(TokenKind::RBracket) {
                Err(e) => return Err(e),
                Ok(()) => {},
            }
            Ok(TypeExpr::Parameterized(name, args, Span::new(span.start, end.end)))
        } else {
            Ok(TypeExpr::Named(name, span))
        }
    }

    pub(crate) fn parse_type_args(&mut self) -> (r: Result<Vec<TypeExpr>, CompileError>)
        requires
            old(self).pwf(),
        ensures
            final(self).pwf(),
            final(self).toks() == old(self).toks(),
            pr_types(r, final(self).at()) == sp_type_args(old(self).toks(), old(self).at(), Seq::empty()),
            r is Ok ==> fwd(old(self).toks(), old(self).at(), final(self).at()),
        decreases old(self).toks().len() - old(self).at(), 2int,
    {
        proof {
            reveal(sp_type_args);
            reveal(sp_type);
        }
        let ghost ts = self.toks();
        let ghost p0 = self.at();
        proof { self.lemma_bounds(); }
        let mut args: Vec<TypeExpr> = Vec::new();
        assert(types_v(args@) =~= Seq::<TypeExprV>::empty());
        while !self.check(TokenKind::RBracket)
            invariant
                self.pwf(),
                self.toks() == ts,
                ts == old(self).toks(),
                p0 == old(self).at(),
                fwd(ts, p0, self.at()),
                sp_type_args(ts, self.at(), types_v(args@)) == sp_type_args(ts, p0, Seq::empty()),
            decreases ts.len() - self.at(),
        {
            proof {
                reveal(sp_type_args);
                reveal(sp_type);
            }
            if args.len() > 0 {
                match self.expect(TokenKind::Comma) {
                    Err(e) => return Err(e),
                    Ok(()) => {},
                }
            }
            let x = match self.parse_type_expr() {
                Err(e) => return Err(e),
                Ok(x) => x,
            };
            proof {
                lemma_types_v_push(args@, x);
            }
            args.push(x);
        }
        Ok(args)
    }
}


} // verus!
