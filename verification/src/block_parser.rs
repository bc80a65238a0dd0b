//! Parsing of the statements that hold blocks, and of whole modules.

use vstd::prelude::*;
use crate::ast::{
    Assignment, DataDecl, Expr, ExprStmt, FieldDecl, ForStmt, FuncDef, IfStmt, ImplBlock, ImplKind, ImportKind,
    ImportName, ImportStmt, LetBinding, MethodSig, Module, ModuleV, Param, ReturnStmt, Statement, StatementV,
    TypeExpr, TypeParamDef, TypeclassDecl, WhileStmt, elifs_v, expr_v, field_v, fields_v, func_v, funcs_v,
    import_name_v, import_names_v, method_sig_v, method_sigs_v, module_v, opt_str_v, opt_type_v, param_v,
    params_v, stmt_v, stmts_v, strs_v, type_param_v, type_params_v, type_v, types_v,
};
use crate::errors::{CompileError, DiagView};
use crate::parser::{
    PR, Parser, ahead, fwd, lemma_skip_newlines, nxt, pr_unit, sp_skip_newlines, tk, tspan,
};
use crate::source::Span;
use crate::stmt_spec::{no_progress, join_span, sp_sep, sp_more_idents, sp_opt_ident_after, sp_opt_type_after, sp_ident_list, sp_constraints, sp_tparams, sp_param, sp_params, sp_path, sp_import_names, sp_let, sp_import, sp_from_import, sp_sigs, skip_dedent, sp_typeclass, sp_field, sp_return, sp_expr_or_assign, sp_block, sp_stmts, sp_stmt, sp_opt_tparams, sp_funcdef, sp_opt_names, sp_data, sp_members, sp_impl_kind, sp_impl, sp_impl_methods, sp_if, sp_elifs, sp_else, sp_for, sp_while, sp_module_body, sp_module};
use crate::token::TokenKind;

use crate::stmt_parser::{module_result_v, pr_v};

verus! {

impl Parser {
    fn parse_opt_type_params(&mut self) -> (r: Result<Vec<TypeParamDef>, CompileError>)
        requires
            old(self).pwf(),
        ensures
            final(self).pwf(),
            final(self).toks() == old(self).toks(),
            pr_v(r, final(self).at(), |v: Vec<TypeParamDef>| type_params_v(v@)) == sp_opt_tparams(old(self).toks(), old(self).at()),
            r is Ok ==> fwd(old(self).toks(), old(self).at(), final(self).at()),
    {
        proof { self.lemma_bounds(); }
        if self.match_token(TokenKind::LBracket) {
            let tps = match self.parse_type_params() {
                Err(e) => return Err(e),
                Ok(t) => t,
            };
            match self.expect(TokenKind::RBracket) {
                Err(e) => return Err(e),
                Ok(()) => {},
            }
            Ok(tps)
        } else {
            let tps: Vec<TypeParamDef> = Vec::new();
            assert(type_params_v(tps@) =~= Seq::<crate::ast::TypeParamDefV>::empty());
            Ok(tps)
        }
    }

    fn parse_opt_names(&mut self) -> (r: Result<Vec<String>, CompileError>)
        requires
            old(self).pwf(),
        ensures
            final(self).pwf(),
            final(self).toks() == old(self).toks(),
            pr_v(r, final(self).at(), |v: Vec<String>| strs_v(v@)) == sp_opt_names(old(self).toks(), old(self).at()),
            r is Ok ==> fwd(old(self).toks(), old(self).at(), final(self).at()),
    {
        proof { self.lemma_bounds(); }
        if self.match_token(TokenKind::LBracket) {
            let tps = match self.parse_ident_list() {
                Err(e) => return Err(e),
                Ok(t) => t,
            };
            match self.expect(TokenKind::RBracket) {
                Err(e) => return Err(e),
                Ok(()) => {},
            }
            Ok(tps)
        } else {
            let tps: Vec<String> = Vec::new();
            assert(strs_v(tps@) =~= Seq::<Seq<char>>::empty());
            Ok(tps)
        }
    }

    fn parse_impl_kind(&mut self, name: String) -> (r: Result<ImplKind, CompileError>)
        requires
            old(self).pwf(),
        ensures
            final(self).pwf(),
            final(self).toks() == old(self).toks(),
            pr_v(r, final(self).at(), |k: ImplKind| crate::ast::impl_kind_v(k)) == sp_impl_kind(old(self).toks(), name@, old(self).at()),
            r is Ok ==> fwd(old(self).toks(), old(self).at(), final(self).at()),
    {
        proof { self.lemma_bounds(); }
        if self.check(TokenKind::LBracket) {
            match self.expect(TokenKind::LBracket) {
                Err(e) => return Err(e),
                Ok(()) => {},
            }
            let type_args = match self.parse_type_args() {
                Err(e) => return Err(e),
                Ok(a) => a,
            };
            match self.expect(TokenKind::RBracket) {
                Err(e) => return Err(e),
                Ok(()) => {},
            }
            Ok(ImplKind::Instance { typeclass_name: name, type_args })
        } else {
            Ok(ImplKind::Inherent { target_type: name })
        }
    }

    /// An indented block of statements.
    fn parse_block(&mut self) -> (r: Result<Vec<Statement>, CompileError>)
        requires
            old(self).pwf(),
        ensures
            final(self).pwf(),
            final(self).toks() == old(self).toks(),
            pr_v(r, final(self).at(), |v: Vec<Statement>| stmts_v(v@)) == sp_block(old(self).toks(), old(self).at()),
            r is Ok ==> ahead(old(self).toks(), old(self).at(), final(self).at()),
        decreases old(self).toks().len() - old(self).at(), 30int,
    {
        proof {
            reveal(sp_block);
            reveal(sp_stmts);
        }
        let ghost ts = self.toks();
        let ghost p0 = self.at();
        match self.expect_newline() {
            Err(e) => return Err(e),
            Ok(()) => {},
        }
        match self.expect(TokenKind::Indent) {
            Err(e) => return Err(e),
            Ok(()) => {},
        }
        self.skip_newlines();
        let ghost p3 = self.at();
        let mut stmts: Vec<Statement> = Vec::new();
        assert(stmts_v(stmts@) =~= Seq::<StatementV>::empty());
        while !self.check(TokenKind::Dedent) && !self.check(TokenKind::Eof)
            invariant
                self.pwf(),
                self.toks() == ts,
                ts == old(self).toks(),
                p0 == old(self).at(),
                ahead(ts, p0, p3),
                fwd(ts, p3, self.at()),
                sp_block(ts, p0) == (match sp_stmts(ts, p3, Seq::empty()) {
                    Err(e) => Err(e),
                    Ok((ss, q)) => Ok((ss, skip_dedent(ts, q))),
                }),
                sp_stmts(ts, self.at(), stmts_v(stmts@)) == sp_stmts(ts, p3, Seq::empty()),
            decreases ts.len() - self.at(),
        {
            proof {
                reveal(sp_stmts);
                reveal(sp_stmt);
                reveal(sp_block);
            }
            let st = match self.parse_statement() {
                Err(e) => return Err(e),
                Ok(st) => st,
            };
            let ghost before = stmts_v(stmts@);
            stmts.push(st);
            proof {
                assert(stmts_v(stmts@) =~= before.push(stmt_v(st)));
            }
            self.skip_newlines();
        }
        proof {
            reveal(sp_stmts);
            reveal(sp_stmt);
            reveal(sp_block);
        }
        if self.check(TokenKind::Dedent) {
            self.advance();
        }
        Ok(stmts)
    }

    /// One statement, chosen by its first token.
    fn parse_statement(&mut self) -> (r: Result<Statement, CompileError>)
        requires
            old(self).pwf(),
        ensures
            final(self).pwf(),
            final(self).toks() == old(self).toks(),
            pr_v(r, final(self).at(), |s: Statement| stmt_v(s)) == sp_stmt(old(self).toks(), old(self).at()),
            r is Ok ==> ahead(old(self).toks(), old(self).at(), final(self).at()),
        decreases old(self).toks().len() - old(self).at(), 28int,
    {
        proof {
            reveal(sp_stmt);
            reveal(sp_funcdef);
            reveal(sp_data);
            reveal(sp_if);
            reveal(sp_impl);
            reveal(sp_for);
            reveal(sp_while);
        }
        let k = self.peek();
        if k == TokenKind::KwLet || k == TokenKind::KwMut {
            self.parse_let_binding()
        } else if k == TokenKind::KwDef {
            match self.parse_func_def() {
                Err(e) => Err(e),
                Ok(f) => Ok(Statement::FuncDef(f)),
            }
        } else if k == TokenKind::KwData {
            self.parse_data_decl()
        } else if k == TokenKind::KwIf {
            self.parse_if_stmt()
        } else if k == TokenKind::KwReturn {
            self.parse_return_stmt()
        } else if k == TokenKind::KwTypeclass {
            self.parse_typeclass_decl()
        } else if k == TokenKind::KwImpl {
            self.parse_impl_block()
        } else if k == TokenKind::KwFor {
            self.parse_for_stmt()
        } else if k == TokenKind::KwWhile {
            self.parse_while_stmt()
        } else if k == TokenKind::KwImport {
            self.parse_import_stmt()
        } else if k == TokenKind::KwFrom {
            self.parse_from_import_stmt()
        } else {
            self.parse_expr_or_assign()
        }
    }

    /// `def name[T: C, ...](params) -> type:` and its body.
    fn parse_func_def(&mut self) -> (r: Result<FuncDef, CompileError>)
        requires
            old(self).pwf(),
        ensures
            final(self).pwf(),
            final(self).toks() == old(self).toks(),
            pr_v(r, final(self).at(), |f: FuncDef| func_v(f)) == sp_funcdef(old(self).toks(), old(self).at()),
            r is Ok ==> ahead(old(self).toks(), old(self).at(), final(self).at()),
        decreases old(self).toks().len() - old(self).at(), 27int,
    {
        proof {
            reveal(sp_funcdef);
            reveal(sp_block);
            self.lemma_bounds();
        }
        let start = self.current_span();
        self.advance();
        let name = match self.expect_ident() {
            Err(e) => return Err(e),
            Ok(n) => n,
        };
        let type_params = match self.parse_opt_type_params() {
            Err(e) => return Err(e),
            Ok(t) => t,
        };
        match self.expect(TokenKind::LParen) {
            Err(e) => return Err(e),
            Ok(()) => {},
        }
        let params = match self.parse_params() {
            Err(e) => return Err(e),
            Ok(p) => p,
        };
        match self.expect(TokenKind::RParen) {
            Err(e) => return Err(e),
            Ok(()) => {},
        }
        let return_type = match self.parse_opt_type_after(TokenKind::Arrow) {
            Err(e) => return Err(e),
            Ok(t) => t,
        };
        match self.expect(TokenKind::Colon) {
            Err(e) => return Err(e),
            Ok(()) => {},
        }
        let body = match self.parse_block() {
            Err(e) => return Err(e),
            Ok(b) => b,
        };
        let end = self.current_span();
        Ok(FuncDef { name, type_params, params, return_type, body, span: Span::new(start.start, end.end) })
    }

    /// `data Name[T, ...]:` and an indented block of fields and methods.
    #[verifier::rlimit(40)]
    fn parse_data_decl(&mut self) -> (r: Result<Statement, CompileError>)
        requires
            old(self).pwf(),
        ensures
            final(self).pwf(),
            final(self).toks() == old(self).toks(),
            pr_v(r, final(self).at(), |s: Statement| stmt_v(s)) == sp_data(old(self).toks(), old(self).at()),
            r is Ok ==> ahead(old(self).toks(), old(self).at(), final(self).at()),
        decreases old(self).toks().len() - old(self).at(), 27int,
    {
        proof {
            reveal(sp_data);
            reveal(sp_members);
            self.lemma_bounds();
        }
        let ghost ts = self.toks();
        let ghost p0 = self.at();
        let start = self.current_span();
        self.advance();
        let name = match self.expect_ident() {
            Err(e) => return Err(e),
            Ok(n) => n,
        };
        let type_params = match self.parse_opt_names() {
            Err(e) => return Err(e),
            Ok(t) => t,
        };
        match self.expect(TokenKind::Colon) {
            Err(e) => return Err(e),
            Ok(()) => {},
        }
        match self.expect_newline() {
            Err(e) => return Err(e),
            Ok(()) => {},
        }
        match self.expect(TokenKind::Indent) {
            Err(e) => return Err(e),
            Ok(()) => {},
        }
        let ghost p6 = self.at();
        let mut fields: Vec<FieldDecl> = Vec::new();
        let mut methods: Vec<FuncDef> = Vec::new();
        assert(fields_v(fields@) =~= Seq::<crate::ast::FieldDeclV>::empty());
        assert(funcs_v(methods@) =~= Seq::<crate::ast::FuncDefV>::empty());
        loop
            invariant_except_break
                self.pwf(),
                self.toks() == ts,
                ts == old(self).toks(),
                p0 == old(self).at(),
                ahead(ts, p0, p6),
                fwd(ts, p6, self.at()),
                sp_members(ts, self.at(), fields_v(fields@), funcs_v(methods@))
                    == sp_members(ts, p6, Seq::empty(), Seq::empty()),
                sp_members(ts, p6, Seq::empty(), Seq::empty()) is Err ==> sp_data(ts, p0)
                    == Err::<(StatementV, int), DiagView>(sp_members(ts, p6, Seq::empty(), Seq::empty())->Err_0),
            ensures
                self.pwf(),
                self.toks() == ts,
                fwd(ts, p6, self.at()),
                Ok::<((Seq<crate::ast::FieldDeclV>, Seq<crate::ast::FuncDefV>), int), DiagView>(
                    ((fields_v(fields@), funcs_v(methods@)), self.at()),
                ) == sp_members(ts, p6, Seq::empty(), Seq::empty()),
            decreases ts.len() - self.at(),
        {
            proof {
                reveal(sp_members);
                reveal(sp_funcdef);
            }
            if self.check(TokenKind::Dedent) || self.check(TokenKind::Eof) {
                break;
            }
            self.skip_newlines();
            if self.check(TokenKind::Dedent) || self.check(TokenKind::Eof) {
                break;
            }
            if self.check(TokenKind::KwDef) {
                let f = match self.parse_func_def() {
                    Err(e) => return Err(e),
                    Ok(f) => f,
                };
                let ghost before = funcs_v(methods@);
                methods.push(f);
                proof {
                    assert(funcs_v(methods@) =~= before.push(func_v(f)));
                }
            } else {
                let fd = match self.parse_field_decl() {
                    Err(e) => return Err(e),
                    Ok(f) => f,
                };
                let ghost before = fields_v(fields@);
                fields.push(fd);
                proof {
                    assert(fields_v(fields@) =~= before.push(field_v(fd)));
                }
            }
            self.skip_newlines();
        }
        proof {
            reveal(sp_members);
            reveal(sp_funcdef);
            reveal(sp_data);
        }
        if self.check(TokenKind::Dedent) {
            self.advance();
        }
        let end = self.current_span();
        Ok(Statement::DataDecl(DataDecl { name, type_params, fields, methods, span: Span::new(start.start, end.end) }))
    }

    /// `impl ...:` and an indented block of methods.
    fn parse_impl_block(&mut self) -> (r: Result<Statement, CompileError>)
        requires
            old(self).pwf(),
        ensures
            final(self).pwf(),
            final(self).toks() == old(self).toks(),
            pr_v(r, final(self).at(), |s: Statement| stmt_v(s)) == sp_impl(old(self).toks(), old(self).at()),
            r is Ok ==> ahead(old(self).toks(), old(self).at(), final(self).at()),
        decreases old(self).toks().len() - old(self).at(), 27int,
    {
        proof {
            reveal(sp_impl);
            reveal(sp_impl_methods);
            self.lemma_bounds();
        }
        let ghost ts = self.toks();
        let ghost p0 = self.at();
        let start = self.current_span();
        self.advance();
        let name = match self.expect_ident() {
            Err(e) => return Err(e),
            Ok(n) => n,
        };
        let kind = match self.parse_impl_kind(name) {
            Err(e) => return Err(e),
            Ok(k) => k,
        };
        match self.expect(TokenKind::Colon) {
            Err(e) => return Err(e),
            Ok(()) => {},
        }
        match self.expect_newline() {
            Err(e) => return Err(e),
            Ok(()) => {},
        }
        match self.expect(TokenKind::Indent) {
            Err(e) => return Err(e),
            Ok(()) => {},
        }
        self.skip_newlines();
        let ghost p8 = self.at();
        assert(ahead(ts, p0, p8));
        let mut methods: Vec<FuncDef> = Vec::new();
        assert(funcs_v(methods@) =~= Seq::<crate::ast::FuncDefV>::empty());
        while !self.check(TokenKind::Dedent) && !self.check(TokenKind::Eof)
            invariant
                self.pwf(),
                self.toks() == ts,
                ts == old(self).toks(),
                p0 == old(self).at(),
                ahead(ts, p0, p8),
                fwd(ts, p8, self.at()),
                sp_impl_methods(ts, self.at(), funcs_v(methods@)) == sp_impl_methods(ts, p8, Seq::empty()),
                sp_impl_methods(ts, p8, Seq::empty()) is Err ==> sp_impl(ts, p0)
                    == Err::<(StatementV, int), DiagView>(sp_impl_methods(ts, p8, Seq::empty())->Err_0),
            decreases ts.len() - self.at(),
        {
            proof {
                reveal(sp_impl_methods);
                reveal(sp_funcdef);
                reveal(sp_impl);
            }
            let f = match self.parse_func_def() {
                Err(e) => return Err(e),
                Ok(f) => f,
            };
            let ghost before = funcs_v(methods@);
            methods.push(f);
            proof {
                assert(funcs_v(methods@) =~= before.push(func_v(f)));
            }
            self.skip_newlines();
        }
        proof {
            reveal(sp_impl_methods);
            reveal(sp_funcdef);
            reveal(sp_impl);
        }
        assert(sp_impl_methods(ts, p8, Seq::empty()) == Ok::<(Seq<crate::ast::FuncDefV>, int), DiagView>((funcs_v(methods@), self.at())));
        if self.check(TokenKind::Dedent) {
            self.advance();
        }
        let end = self.current_span();
        assert(start == tspan(ts, p0));
        assert(ahead(ts, p0, self.at()));
        assert(sp_impl(ts, p0) == Ok::<(StatementV, int), DiagView>((StatementV::Impl { kind: crate::ast::impl_kind_v(kind), methods: funcs_v(methods@), span: join_span(start, end) }, self.at())));
        Ok(Statement::Impl(ImplBlock { kind, methods, span: Span::new(start.start, end.end) }))
    }

    /// `if cond:` with its block, `elif` clauses, and an optional `else`.
    #[verifier::rlimit(40)]
    fn parse_if_stmt(&mut self) -> (r: Result<Statement, CompileError>)
        requires
            old(self).pwf(),
        ensures
            final(self).pwf(),
            final(self).toks() == old(self).toks(),
            pr_v(r, final(self).at(), |s: Statement| stmt_v(s)) == sp_if(old(self).toks(), old(self).at()),
            r is Ok ==> ahead(old(self).toks(), old(self).at(), final(self).at()),
        decreases old(self).toks().len() - old(self).at(), 27int,
    {
        proof {
            reveal(sp_if);
            reveal(sp_block);
            reveal(sp_elifs);
            reveal(sp_else);
            self.lemma_bounds();
        }
        let ghost ts = self.toks();
        let ghost p0 = self.at();
        let start = self.current_span();
        self.advance();
        let condition = match self.parse_expr() {
            Err(e) => return Err(e),
            Ok(c) => c,
        };
        match self.expect(TokenKind::Colon) {
            Err(e) => return Err(e),
            Ok(()) => {},
        }
        let then_body = match self.parse_block() {
            Err(e) => return Err(e),
            Ok(b) => b,
        };
        let ghost p4 = self.at();
        let mut elif_clauses: Vec<(Expr, Vec<Statement>)> = Vec::new();
        assert(elifs_v(elif_clauses@) =~= Seq::<(crate::ast::ExprV, Seq<StatementV>)>::empty());
        while self.check(TokenKind::KwElif)
            invariant
                self.pwf(),
                self.toks() == ts,
                ts == old(self).toks(),
                p0 == old(self).at(),
                ahead(ts, p0, p4),
                fwd(ts, p4, self.at()),
                sp_elifs(ts, self.at(), elifs_v(elif_clauses@)) == sp_elifs(ts, p4, Seq::empty()),
                sp_elifs(ts, p4, Seq::empty()) is Err ==> sp_if(ts, p0)
                    == Err::<(StatementV, int), DiagView>(sp_elifs(ts, p4, Seq::empty())->Err_0),
            decreases ts.len() - self.at(),
        {
            proof {
                reveal(sp_elifs);
                reveal(sp_block);
                reveal(sp_if);
                reveal(sp_else);
            }
            self.advance();
            let c = match self.parse_expr() {
                Err(e) => return Err(e),
                Ok(c) => c,
            };
            match self.expect(TokenKind::Colon) {
                Err(e) => return Err(e),
                Ok(()) => {},
            }
            let b = match self.parse_block() {
                Err(e) => return Err(e),
                Ok(b) => b,
            };
            let ghost before = elifs_v(elif_clauses@);
            let ghost item = (expr_v(c), stmts_v(b@));
            elif_clauses.push((c, b));
            proof {
                assert(elifs_v(elif_clauses@) =~= before.push(item));
            }
        }
        proof {
            reveal(sp_elifs);
            reveal(sp_else);
            reveal(sp_block);
            reveal(sp_if);
        }
        let ghost p5 = self.at();
        assert(sp_elifs(ts, p4, Seq::empty()) == Ok::<(Seq<(crate::ast::ExprV, Seq<StatementV>)>, int), DiagView>((elifs_v(elif_clauses@), p5)));
        assert(ahead(ts, p0, p5));
        let else_body = if self.match_token(TokenKind::KwElse) {
            match self.expect(TokenKind::Colon) {
                Err(e) => return Err(e),
                Ok(()) => {},
            }
            match self.parse_block() {
                Err(e) => return Err(e),
                Ok(b) => Some(b),
            }
        } else {
            None
        };
        assert(sp_else(ts, p5) == Ok::<(Option<Seq<StatementV>>, int), DiagView>((match else_body {
            Some(b) => Some(stmts_v(b@)),
            None => None,
        }, self.at())));
        let end = self.current_span();
        Ok(Statement::If(IfStmt { condition, then_body, elif_clauses, else_body, span: Span::new(start.start, end.end) }))
    }

    /// `for name in expr:` and its block.
    fn parse_for_stmt(&mut self) -> (r: Result<Statement, CompileError>)
        requires
            old(self).pwf(),
        ensures
            final(self).pwf(),
            final(self).toks() == old(self).toks(),
            pr_v(r, final(self).at(), |s: Statement| stmt_v(s)) == sp_for(old(self).toks(), old(self).at()),
            r is Ok ==> ahead(old(self).toks(), old(self).at(), final(self).at()),
        decreases old(self).toks().len() - old(self).at(), 27int,
    {
        proof {
            reveal(sp_for);
            reveal(sp_block);
            self.lemma_bounds();
        }
        let start = self.current_span();
        self.advance();
        let var_name = match self.expect_ident() {
            Err(e) => return Err(e),
            Ok(n) => n,
        };
        match self.expect(TokenKind::KwIn) {
            Err(e) => return Err(e),
            Ok(()) => {},
        }
        let iterable = match self.parse_expr() {
            Err(e) => return Err(e),
            Ok(x) => x,
        };
        match self.expect(TokenKind::Colon) {
            Err(e) => return Err(e),
            Ok(()) => {},
        }
        let body = match self.parse_block() {
            Err(e) => return Err(e),
            Ok(b) => b,
        };
        let end = self.current_span();
        Ok(Statement::For(ForStmt { var_name, iterable, body, span: Span::new(start.start, end.end) }))
    }

    /// `while cond:` and its block.
    fn parse_while_stmt(&mut self) -> (r: Result<Statement, CompileError>)
        requires
            old(self).pwf(),
        ensures
            final(self).pwf(),
            final(self).toks() == old(self).toks(),
            pr_v(r, final(self).at(), |s: Statement| stmt_v(s)) == sp_while(old(self).toks(), old(self).at()),
            r is Ok ==> ahead(old(self).toks(), old(self).at(), final(self).at()),
        decreases old(self).toks().len() - old(self).at(), 27int,
    {
        proof {
            reveal(sp_while);
            reveal(sp_block);
            self.lemma_bounds();
        }
        let start = self.current_span();
        self.advance();
        let condition = match self.parse_expr() {
            Err(e) => return Err(e),
            Ok(c) => c,
        };
        match self.expect(TokenKind::Colon) {
            Err(e) => return Err(e),
            Ok(()) => {},
        }
        let body = match self.parse_block() {
            Err(e) => return Err(e),
            Ok(b) => b,
        };
        let end = self.current_span();
        Ok(Statement::While(WhileStmt { condition, body, span: Span::new(start.start, end.end) }))
    }

    /// Parses a whole module from the current position: every statement up
    /// to the end of the tokens.
    pub fn parse_module(&mut self) -> (r: Result<Module, CompileError>)
        requires
            old(self).pwf(),
        ensures
            final(self).pwf(),
            module_result_v(r) == sp_module(old(self).toks(), old(self).at()),
    {
        let ghost ts = self.toks();
        let ghost p0 = self.at();
        let start = self.current_span();
        let mut body: Vec<Statement> = Vec::new();
        self.skip_newlines();
        let ghost p1 = self.at();
        assert(stmts_v(body@) =~= Seq::<StatementV>::empty());
        while !self.check(TokenKind::Eof)
            invariant
                self.pwf(),
                self.toks() == ts,
                ts == old(self).toks(),
                p0 == old(self).at(),
                p1 == sp_skip_newlines(ts, p0),
                start == tspan(ts, p0),
                sp_module_body(ts, self.at(), stmts_v(body@)) == sp_module_body(ts, p1, Seq::empty()),
            decreases ts.len() - self.at(),
        {
            proof { self.lemma_bounds(); }
            let st = match self.parse_statement() {
                Err(e) => return Err(e),
                Ok(st) => st,
            };
            let ghost before = stmts_v(body@);
            body.push(st);
            proof {
                assert(stmts_v(body@) =~= before.push(stmt_v(st)));
            }
            self.skip_newlines();
        }
        let end = self.current_span();
        Ok(Module { body, span: Span::new(start.start, end.end) })
    }
}


} // verus!
