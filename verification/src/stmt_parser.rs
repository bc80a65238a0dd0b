//! Parsing of the statements that hold no blocks, and of their parts.

use vstd::prelude::*;
use crate::ast::{
    Assignment, DataDecl, Expr, ExprStmt, FieldDecl, ForStmt, FuncDef, IfStmt, ImplBlock, ImplKind, ImportKind,
    ImportName, ImportStmt, LetBinding, MethodSig, Module, ModuleV, Param, ReturnStmt, Statement, StatementV,
    TypeExpr, TypeParamDef, TypeclassDecl, WhileStmt, elifs_v, expr_v, field_v, fields_v, func_v, funcs_v,
    import_name_v, import_names_v, method_sig_v, method_sigs_v, module_v, opt_str_v, opt_type_v, param_v,
    params_v, stmt_v, stmts_v, strs_v, type_param_v, type_params_v, type_v, types_v,
};
use crate::errors::{CompileError, DiagView};
use crate::parser::{
    PR, Parser, ahead, fwd, lemma_skip_newlines, nxt, pr_unit, sp_skip_newlines, tk, tspan,
};
use crate::source::Span;
use crate::stmt_spec::{no_progress, join_span, sp_sep, sp_more_idents, sp_opt_ident_after, sp_opt_type_after, sp_ident_list, sp_constraints, sp_tparams, sp_param, sp_params, sp_path, sp_import_names, sp_let, sp_import, sp_from_import, sp_sigs, skip_dedent, sp_typeclass, sp_field, sp_return, sp_expr_or_assign, sp_block, sp_stmts, sp_stmt, sp_opt_tparams, sp_funcdef, sp_opt_names, sp_data, sp_members, sp_impl_kind, sp_impl, sp_impl_methods, sp_if, sp_elifs, sp_else, sp_for, sp_while, sp_module_body, sp_module};
use crate::token::TokenKind;

verus! {

/// A parse result read as a view and the position after it.
pub open spec fn pr_v<T, V>(r: Result<T, CompileError>, p: int, f: spec_fn(T) -> V) -> PR<V> {
    match r {
        Ok(x) => Ok((f(x), p)),
        Err(e) => Err(e@),
    }
}

pub open spec fn module_result_v(r: Result<Module, CompileError>) -> Result<ModuleV, DiagView> {
    match r {
        Ok(m) => Ok(module_v(m)),
        Err(e) => Err(e@),
    }
}

impl Parser {
    pub(crate) fn parse_opt_ident_after(&mut self, k: TokenKind) -> (r: Result<Option<String>, CompileError>)
        requires
            old(self).pwf(),
        ensures
            final(self).pwf(),
            final(self).toks() == old(self).toks(),
            pr_v(r, final(self).at(), |o: Option<String>| opt_str_v(o)) == sp_opt_ident_after(old(self).toks(), old(self).at(), k),
            r is Ok ==> fwd(old(self).toks(), old(self).at(), final(self).at()),
    {
        proof { self.lemma_bounds(); }
        if self.match_token(k) {
            match self.expect_ident() {
                Err(e) => Err(e),
                Ok(n) => Ok(Some(n)),
            }
        } else {
            Ok(None)
        }
    }

    pub(crate) fn parse_opt_type_after(&mut self, k: TokenKind) -> (r: Result<Option<TypeExpr>, CompileError>)
        requires
            old(self).pwf(),
        ensures
            final(self).pwf(),
            final(self).toks() == old(self).toks(),
            pr_v(r, final(self).at(), |o: Option<TypeExpr>| opt_type_v(o)) == sp_opt_type_after(old(self).toks(), old(self).at(), k),
            r is Ok ==> fwd(old(self).toks(), old(self).at(), final(self).at()),
    {
        proof { self.lemma_bounds(); }
        if self.match_token(k) {
            match self.parse_type_expr() {
                Err(e) => Err(e),
                Ok(t) => Ok(Some(t)),
            }
        } else {
            Ok(None)
        }
    }

    /// Identifiers each after a `k` token, appended to `acc`.
    pub(crate) fn parse_more_idents(&mut self, init: Vec<String>, k: TokenKind) -> (r: Result<Vec<String>, CompileError>)
        requires
            old(self).pwf(),
        ensures
            final(self).pwf(),
            final(self).toks() == old(self).toks(),
            pr_v(r, final(self).at(), |v: Vec<String>| strs_v(v@)) == sp_more_idents(old(self).toks(), old(self).at(), strs_v(init@), k),
            r is Ok ==> fwd(old(self).toks(), old(self).at(), final(self).at()),
    {
        let ghost ts = self.toks();
        let ghost p0 = self.at();
        let ghost a0 = strs_v(init@);
        proof { self.lemma_bounds(); }
        let mut acc = init;
        while self.check(k)
            invariant
                self.pwf(),
                self.toks() == ts,
                ts == old(self).toks(),
                p0 == old(self).at(),
                fwd(ts, p0, self.at()),
                a0 == strs_v(init@),
                sp_more_idents(ts, self.at(), strs_v(acc@), k) == sp_more_idents(ts, p0, a0, k),
            decreases ts.len() - self.at(),
        {
            self.advance();
            let n = match self.expect_ident() {
                Err(e) => return Err(e),
                Ok(n) => n,
            };
            let ghost before = strs_v(acc@);
            acc.push(n);
            proof {
                assert(strs_v(acc@) =~= before.push(n@));
            }
        }
        Ok(acc)
    }

    /// Comma-separated identifiers up to (not over) `]`.
    pub(crate) fn parse_ident_list(&mut self) -> (r: Result<Vec<String>, CompileError>)
        requires
            old(self).pwf(),
        ensures
            final(self).pwf(),
            final(self).toks() == old(self).toks(),
            pr_v(r, final(self).at(), |v: Vec<String>| strs_v(v@)) == sp_ident_list(old(self).toks(), old(self).at(), Seq::empty()),
            r is Ok ==> fwd(old(self).toks(), old(self).at(), final(self).at()),
    {
        let ghost ts = self.toks();
        let ghost p0 = self.at();
        proof { self.lemma_bounds(); }
        let mut acc: Vec<String> = Vec::new();
        assert(strs_v(acc@) =~= Seq::<Seq<char>>::empty());
        while !self.check(TokenKind::RBracket)
            invariant
                self.pwf(),
                self.toks() == ts,
                ts == old(self).toks(),
                p0 == old(self).at(),
                fwd(ts, p0, self.at()),
                sp_ident_list(ts, self.at(), strs_v(acc@)) == sp_ident_list(ts, p0, Seq::empty()),
            decreases ts.len() - self.at(),
        {
            if acc.len() > 0 {
                match self.expect(TokenKind::Comma) {
                    Err(e) => return Err(e),
                    Ok(()) => {},
                }
            }
            let n = match self.expect_ident() {
                Err(e) => return Err(e),
                Ok(n) => n,
            };
            let ghost before = strs_v(acc@);
            acc.push(n);
            proof {
                assert(strs_v(acc@) =~= before.push(n@));
            }
        }
        Ok(acc)
    }

    pub(crate) fn parse_constraints(&mut self) -> (r: Result<Vec<String>, CompileError>)
        requires
            old(self).pwf(),
        ensures
            final(self).pwf(),
            final(self).toks() == old(self).toks(),
            pr_v(r, final(self).at(), |v: Vec<String>| strs_v(v@)) == sp_constraints(old(self).toks(), old(self).at()),
            r is Ok ==> fwd(old(self).toks(), old(self).at(), final(self).at()),
    {
        proof { self.lemma_bounds(); }
        if self.match_token(TokenKind::Colon) {
            let first = match self.expect_ident() {
                Err(e) => return Err(e),
                Ok(n) => n,
            };
            let mut acc: Vec<String> = Vec::new();
            acc.push(first);
            proof {
                assert(strs_v(acc@) =~= seq![first@]);
            }
            self.parse_more_idents(acc, TokenKind::Plus)
        } else {
            let acc: Vec<String> = Vec::new();
            assert(strs_v(acc@) =~= Seq::<Seq<char>>::empty());
            Ok(acc)
        }
    }

    /// The type parameters of a function, up to (not over) `]`.
    pub(crate) fn parse_type_params(&mut self) -> (r: Result<Vec<TypeParamDef>, CompileError>)
        requires
            old(self).pwf(),
        ensures
            final(self).pwf(),
            final(self).toks() == old(self).toks(),
            pr_v(r, final(self).at(), |v: Vec<TypeParamDef>| type_params_v(v@)) == sp_tparams(old(self).toks(), old(self).at(), Seq::empty()),
            r is Ok ==> fwd(old(self).toks(), old(self).at(), final(self).at()),
    {
        let ghost ts = self.toks();
        let ghost p0 = self.at();
        proof { self.lemma_bounds(); }
        let mut acc: Vec<TypeParamDef> = Vec::new();
        assert(type_params_v(acc@) =~= Seq::<crate::ast::TypeParamDefV>::empty());
        while !self.check(TokenKind::RBracket)
            invariant
                self.pwf(),
                self.toks() == ts,
                ts == old(self).toks(),
                p0 == old(self).at(),
                fwd(ts, p0, self.at()),
                sp_tparams(ts, self.at(), type_params_v(acc@)) == sp_tparams(ts, p0, Seq::empty()),
            decreases ts.len() - self.at(),
        {
            if acc.len() > 0 {
                match self.expect(TokenKind::Comma) {
                    Err(e) => return Err(e),
                    Ok(()) => {},
                }
            }
            let tp_start = self.current_span();
            let tp_name = match self.expect_ident() {
                Err(e) => return Err(e),
                Ok(n) => n,
            };
            let constraints = match self.parse_constraints() {
                Err(e) => return Err(e),
                Ok(c) => c,
            };
            let tp_end = self.current_span();
            let tp = TypeParamDef { name: tp_name, constraints, span: Span::new(tp_start.start, tp_end.end) };
            let ghost before = type_params_v(acc@);
            acc.push(tp);
            proof {
                assert(type_params_v(acc@) =~= before.push(type_param_v(tp)));
            }
        }
        Ok(acc)
    }

    pub(crate) fn parse_param(&mut self) -> (r: Result<Param, CompileError>)
        requires
            old(self).pwf(),
        ensures
            final(self).pwf(),
            final(self).toks() == old(self).toks(),
            pr_v(r, final(self).at(), |x: Param| param_v(x)) == sp_param(old(self).toks(), old(self).at()),
            r is Ok ==> ahead(old(self).toks(), old(self).at(), final(self).at()),
    {
        proof { self.lemma_bounds(); }
        let start = self.current_span();
        let name = match self.expect_ident() {
            Err(e) => return Err(e),
            Ok(n) => n,
        };
        let type_annotation = match self.parse_opt_type_after(TokenKind::Colon) {
            Err(e) => return Err(e),
            Ok(t) => t,
        };
        let end = self.current_span();
        Ok(Param { name, type_annotation, span: Span::new(start.start, end.end) })
    }

    /// Comma-separated parameters up to (not over) `)`.
    pub(crate) fn parse_params(&mut self) -> (r: Result<Vec<Param>, CompileError>)
        requires
            old(self).pwf(),
        ensures
            final(self).pwf(),
            final(self).toks() == old(self).toks(),
            pr_v(r, final(self).at(), |v: Vec<Param>| params_v(v@)) == sp_params(old(self).toks(), old(self).at(), Seq::empty()),
            r is Ok ==> fwd(old(self).toks(), old(self).at(), final(self).at()),
    {
        let ghost ts = self.toks();
        let ghost p0 = self.at();
        proof { self.lemma_bounds(); }
        let mut acc: Vec<Param> = Vec::new();
        assert(params_v(acc@) =~= Seq::<crate::ast::ParamV>::empty());
        while !self.check(TokenKind::RParen)
            invariant
                self.pwf(),
                self.toks() == ts,
                ts == old(self).toks(),
                p0 == old(self).at(),
                fwd(ts, p0, self.at()),
                sp_params(ts, self.at(), params_v(acc@)) == sp_params(ts, p0, Seq::empty()),
            decreases ts.len() - self.at(),
        {
            if acc.len() > 0 {
                match self.expect(TokenKind::Comma) {
                    Err(e) => return Err(e),
                    Ok(()) => {},
                }
            }
            let x = match self.parse_param() {
                Err(e) => return Err(e),
                Ok(x) => x,
            };
            let ghost before = params_v(acc@);
            acc.push(x);
            proof {
                assert(params_v(acc@) =~= before.push(param_v(x)));
            }
        }
        Ok(acc)
    }

    pub(crate) fn parse_path(&mut self) -> (r: Result<Vec<String>, CompileError>)
        requires
            old(self).pwf(),
        ensures
            final(self).pwf(),
            final(self).toks() == old(self).toks(),
            pr_v(r, final(self).at(), |v: Vec<String>| strs_v(v@)) == sp_path(old(self).toks(), old(self).at()),
            r is Ok ==> ahead(old(self).toks(), old(self).at(), final(self).at()),
    {
        proof { self.lemma_bounds(); }
        let first = match self.expect_ident() {
            Err(e) => return Err(e),
            Ok(n) => n,
        };
        let mut acc: Vec<String> = Vec::new();
        acc.push(first);
        proof {
            assert(strs_v(acc@) =~= seq![first@]);
        }
        self.parse_more_idents(acc, TokenKind::Dot)
    }

    pub(crate) fn parse_let_binding(&mut self) -> (r: Result<Statement, CompileError>)
        requires
            old(self).pwf(),
        ensures
            final(self).pwf(),
            final(self).toks() == old(self).toks(),
            pr_v(r, final(self).at(), |s: Statement| stmt_v(s)) == sp_let(old(self).toks(), old(self).at()),
            r is Ok ==> ahead(old(self).toks(), old(self).at(), final(self).at()),
    {
        proof { self.lemma_bounds(); }
        let start = self.current_span();
        let mutable = self.check(TokenKind::KwMut);
        self.advance();
        let name = match self.expect_ident() {
            Err(e) => return Err(e),
            Ok(n) => n,
        };
        let type_annotation = match self.parse_opt_type_after(TokenKind::Colon) {
            Err(e) => return Err(e),
            Ok(t) => t,
        };
        match self.expect(TokenKind::Eq) {
            Err(e) => return Err(e),
            Ok(()) => {},
        }
        let value = match self.parse_expr() {
            Err(e) => return Err(e),
            Ok(v) => v,
        };
        let end = value.span();
        match self.expect_newline_or_eof() {
            Err(e) => return Err(e),
            Ok(()) => {},
        }
        Ok(Statement::Let(LetBinding { name, type_annotation, value, mutable, span: Span::new(start.start, end.end) }))
    }

    pub(crate) fn parse_import_stmt(&mut self) -> (r: Result<Statement, CompileError>)
        requires
            old(self).pwf(),
        ensures
            final(self).pwf(),
            final(self).toks() == old(self).toks(),
            pr_v(r, final(self).at(), |s: Statement| stmt_v(s)) == sp_import(old(self).toks(), old(self).at()),
            r is Ok ==> ahead(old(self).toks(), old(self).at(), final(self).at()),
    {
        proof { self.lemma_bounds(); }
        let start = self.current_span();
        self.advance();
        let path = match self.parse_path() {
            Err(e) => return Err(e),
            Ok(p) => p,
        };
        let alias = match self.parse_opt_ident_after(TokenKind::KwAs) {
            Err(e) => return Err(e),
            Ok(a) => a,
        };
        let end = self.current_span();
        match self.expect_newline_or_eof() {
            Err(e) => return Err(e),
            Ok(()) => {},
        }
        Ok(Statement::Import(ImportStmt { kind: ImportKind::Simple { path, alias }, span: Span::new(start.start, end.end) }))
    }

    pub(crate) fn parse_import_names(&mut self) -> (r: Result<Vec<ImportName>, CompileError>)
        requires
            old(self).pwf(),
        ensures
            final(self).pwf(),
            final(self).toks() == old(self).toks(),
            pr_v(r, final(self).at(), |v: Vec<ImportName>| import_names_v(v@)) == sp_import_names(old(self).toks(), old(self).at(), Seq::empty()),
            r is Ok ==> fwd(old(self).toks(), old(self).at(), final(self).at()),
    {
        let ghost ts = self.toks();
        let ghost p0 = self.at();
        proof { self.lemma_bounds(); }
        let mut names: Vec<ImportName> = Vec::new();
        assert(import_names_v(names@) =~= Seq::<crate::ast::ImportNameV>::empty());
        loop
            invariant_except_break
                self.pwf(),
                self.toks() == ts,
                ts == old(self).toks(),
                p0 == old(self).at(),
                fwd(ts, p0, self.at()),
                sp_import_names(ts, self.at(), import_names_v(names@)) == sp_import_names(ts, p0, Seq::empty()),
            ensures
                self.pwf(),
                self.toks() == ts,
                ts == old(self).toks(),
                p0 == old(self).at(),
                fwd(ts, p0, self.at()),
                Ok::<(Seq<crate::ast::ImportNameV>, int), DiagView>((import_names_v(names@), self.at()))
                    == sp_import_names(ts, p0, Seq::empty()),
            decreases ts.len() - self.at(),
        {
            let ghost p = self.at();
            let name = match self.expect_ident() {
                Err(e) => return Err(e),
                Ok(n) => n,
            };
            let alias = match self.parse_opt_ident_after(TokenKind::KwAs) {
                Err(e) => return Err(e),
                Ok(a) => a,
            };
            let x = ImportName { name, alias };
            let ghost before = import_names_v(names@);
            names.push(x);
            proof {
                assert(import_names_v(names@) =~= before.push(import_name_v(x)));
                self.lemma_bounds();
            }
            if !self.match_token(TokenKind::Comma) {
                break;
            }
        }
        Ok(names)
    }

    pub(crate) fn parse_from_import_stmt(&mut self) -> (r: Result<Statement, CompileError>)
        requires
            old(self).pwf(),
        ensures
            final(self).pwf(),
            final(self).toks() == old(self).toks(),
            pr_v(r, final(self).at(), |s: Statement| stmt_v(s)) == sp_from_import(old(self).toks(), old(self).at()),
            r is Ok ==> ahead(old(self).toks(), old(self).at(), final(self).at()),
    {
        proof { self.lemma_bounds(); }
        let start = self.current_span();
        self.advance();
        let path = match self.parse_path() {
            Err(e) => return Err(e),
            Ok(p) => p,
        };
        match self.expect(TokenKind::KwImport) {
            Err(e) => return Err(e),
            Ok(()) => {},
        }
        let names = match self.parse_import_names() {
            Err(e) => return Err(e),
            Ok(n) => n,
        };
        let end = self.current_span();
        match self.expect_newline_or_eof() {
            Err(e) => return Err(e),
            Ok(()) => {},
        }
        Ok(Statement::Import(ImportStmt { kind: ImportKind::From { path, names }, span: Span::new(start.start, end.end) }))
    }

    /// The method signatures of a typeclass, up to a dedent or the end.
    pub(crate) fn parse_method_sigs(&mut self) -> (r: Result<Vec<MethodSig>, CompileError>)
        requires
            old(self).pwf(),
        ensures
            final(self).pwf(),
            final(self).toks() == old(self).toks(),
            pr_v(r, final(self).at(), |v: Vec<MethodSig>| method_sigs_v(v@)) == sp_sigs(old(self).toks(), old(self).at(), Seq::empty()),
            r is Ok ==> fwd(old(self).toks(), old(self).at(), final(self).at()),
    {
        let ghost ts = self.toks();
        let ghost p0 = self.at();
        proof { self.lemma_bounds(); }
        let mut methods: Vec<MethodSig> = Vec::new();
        assert(method_sigs_v(methods@) =~= Seq::<crate::ast::MethodSigV>::empty());
        while !self.check(TokenKind::Dedent) && !self.check(TokenKind::Eof)
            invariant
                self.pwf(),
                self.toks() == ts,
                ts == old(self).toks(),
                p0 == old(self).at(),
                fwd(ts, p0, self.at()),
                sp_sigs(ts, self.at(), method_sigs_v(methods@)) == sp_sigs(ts, p0, Seq::empty()),
            decreases ts.len() - self.at(),
        {
            let sig_start = self.current_span();
            match self.expect(TokenKind::KwDef) {
                Err(e) => return Err(e),
                Ok(()) => {},
            }
            let name = match self.expect_ident() {
                Err(e) => return Err(e),
                Ok(n) => n,
            };
            match self.expect(TokenKind::LParen) {
                Err(e) => return Err(e),
                Ok(()) => {},
            }
            let params = match self.parse_params() {
                Err(e) => return Err(e),
                Ok(p) => p,
            };
            match self.expect(TokenKind::RParen) {
                Err(e) => return Err(e),
                Ok(()) => {},
            }
            match self.expect(TokenKind::Arrow) {
                Err(e) => return Err(e),
                Ok(()) => {},
            }
            let return_type = match self.parse_type_expr() {
                Err(e) => return Err(e),
                Ok(t) => t,
            };
            let sig_end = return_type.span();
            match self.expect_newline_or_eof() {
                Err(e) => return Err(e),
                Ok(()) => {},
            }
            let sig = MethodSig { name, params, return_type, span: Span::new(sig_start.start, sig_end.end) };
            let ghost before = method_sigs_v(methods@);
            methods.push(sig);
            proof {
                assert(method_sigs_v(methods@) =~= before.push(method_sig_v(sig)));
                self.lemma_bounds();
                lemma_skip_newlines(ts, self.at());
            }
            self.skip_newlines();
        }
        Ok(methods)
    }

    pub(crate) fn parse_typeclass_decl(&mut self) -> (r: Result<Statement, CompileError>)
        requires
            old(self).pwf(),
        ensures
            final(self).pwf(),
            final(self).toks() == old(self).toks(),
            pr_v(r, final(self).at(), |s: Statement| stmt_v(s)) == sp_typeclass(old(self).toks(), old(self).at()),
            r is Ok ==> ahead(old(self).toks(), old(self).at(), final(self).at()),
    {
        proof { self.lemma_bounds(); }
        let start = self.current_span();
        self.advance();
        let name = match self.expect_ident() {
            Err(e) => return Err(e),
            Ok(n) => n,
        };
        match self.expect(TokenKind::LBracket) {
            Err(e) => return Err(e),
            Ok(()) => {},
        }
        let type_params = match self.parse_ident_list() {
            Err(e) => return Err(e),
            Ok(t) => t,
        };
        match self.expect(TokenKind::RBracket) {
            Err(e) => return Err(e),
            Ok(()) => {},
        }
        match self.expect(TokenKind::Colon) {
            Err(e) => return Err(e),
            Ok(()) => {},
        }
        match self.expect_newline() {
            Err(e) => return Err(e),
            Ok(()) => {},
        }
        match self.expect(TokenKind::Indent) {
            Err(e) => return Err(e),
            Ok(()) => {},
        }
        proof {
            self.lemma_bounds();
            lemma_skip_newlines(self.toks(), self.at());
        }
        self.skip_newlines();
        let methods = match self.parse_method_sigs() {
            Err(e) => return Err(e),
            Ok(m) => m,
        };
        if self.check(TokenKind::Dedent) {
            self.advance();
        }
        let end = self.current_span();
        Ok(Statement::TypeclassDecl(TypeclassDecl { name, type_params, methods, span: Span::new(start.start, end.end) }))
    }

    pub(crate) fn parse_field_decl(&mut self) -> (r: Result<FieldDecl, CompileError>)
        requires
            old(self).pwf(),
        ensures
            final(self).pwf(),
            final(self).toks() == old(self).toks(),
            pr_v(r, final(self).at(), |f: FieldDecl| field_v(f)) == sp_field(old(self).toks(), old(self).at()),
            r is Ok ==> ahead(old(self).toks(), old(self).at(), final(self).at()),
    {
        proof { self.lemma_bounds(); }
        let start = self.current_span();
        let name = match self.expect_ident() {
            Err(e) => return Err(e),
            Ok(n) => n,
        };
        match self.expect(TokenKind::Colon) {
            Err(e) => return Err(e),
            Ok(()) => {},
        }
        let type_annotation = match self.parse_type_expr() {
            Err(e) => return Err(e),
            Ok(t) => t,
        };
        let end = type_annotation.span();
        match self.expect_newline_or_eof() {
            Err(e) => return Err(e),
            Ok(()) => {},
        }
        Ok(FieldDecl { name, type_annotation, span: Span::new(start.start, end.end) })
    }

    pub(crate) fn parse_return_stmt(&mut self) -> (r: Result<Statement, CompileError>)
        requires
            old(self).pwf(),
        ensures
            final(self).pwf(),
            final(self).toks() == old(self).toks(),
            pr_v(r, final(self).at(), |s: Statement| stmt_v(s)) == sp_return(old(self).toks(), old(self).at()),
            r is Ok ==> fwd(old(self).toks(), old(self).at(), final(self).at()),
            r is Ok && old(self).at() < old(self).toks().len() ==> old(self).at() < final(self).at(),
    {
        proof { self.lemma_bounds(); }
        let start = self.current_span();
        self.advance();
        let ghost p1 = self.at();
        assert(old(self).at() < old(self).toks().len() ==> old(self).at() < p1);
        let value = if !self.check(TokenKind::Newline) && !self.check(TokenKind::Eof) {
            match self.parse_expr() {
                Err(e) => return Err(e),
                Ok(v) => Some(v),
            }
        } else {
            None
        };
        assert(self.at() >= p1);
        let end = self.current_span();
        match self.expect_newline_or_eof() {
            Err(e) => return Err(e),
            Ok(()) => {},
        }
        assert(self.at() >= p1);
        Ok(Statement::Return(ReturnStmt { value, span: Span::new(start.start, end.end) }))
    }

    pub(crate) fn parse_expr_or_assign(&mut self) -> (r: Result<Statement, CompileError>)
        requires
            old(self).pwf(),
        ensures
            final(self).pwf(),
            final(self).toks() == old(self).toks(),
            pr_v(r, final(self).at(), |s: Statement| stmt_v(s)) == sp_expr_or_assign(old(self).toks(), old(self).at()),
            r is Ok ==> ahead(old(self).toks(), old(self).at(), final(self).at()),
    {
        proof { self.lemma_bounds(); }
        let expr = match self.parse_expr() {
            Err(e) => return Err(e),
            Ok(x) => x,
        };
        if self.match_token(TokenKind::Eq) {
            let value = match self.parse_expr() {
                Err(e) => return Err(e),
                Ok(v) => v,
            };
            let span = Span::new(expr.span().start, value.span().end);
            match self.expect_newline_or_eof() {
                Err(e) => return Err(e),
                Ok(()) => {},
            }
            Ok(Statement::Assign(Assignment { target: expr, value, span }))
        } else {
            let span = expr.span();
            match self.expect_newline_or_eof() {
                Err(e) => return Err(e),
                Ok(()) => {},
            }
            Ok(Statement::Expr(ExprStmt { expr, span }))
        }
    }
}


} // verus!
