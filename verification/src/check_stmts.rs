//! The type checker's handling of statements.

use vstd::prelude::*;
use crate::ast::{
    Assignment, DataDecl, Expr, ExprV, ForStmt, FuncDef, IfStmt, ImplBlock, ImplKind, ImportKind, ImportStmt,
    LetBinding, Param, ReturnStmt, Statement, StatementV, TypeParamDef, TypeclassDecl, WhileStmt, elifs_v,
    expr_span, expr_v, fields_v, func_v, funcs_v, import_names_v, method_sigs_v, opt_type_v, params_v, stmt_v,
    stmts_v, strs_v, type_params_v, type_v, types_v,
};
use crate::check_spec::{
    CR, copies, env_child, env_define, env_define_instance, env_define_method, env_define_type,
    env_define_typeclass, fn_type, imports_named, lemma_define_params_outer, lemma_method_params_outer,
    lemma_outer_ops, lemma_stmts_outer, lemma_tparams_outer, s_annot, s_check_elifs, s_check_func,
    s_check_method, s_check_methods, s_check_stmt, s_check_stmts, s_cond, s_constraints_env, s_define_params,
    s_field_types, s_import, s_import_names, s_inherent, s_method_param_types, s_method_params, s_opt_type,
    s_param_types, s_resolve_all, s_scoped, s_sig_params, s_sigs, s_tparams_env, same_outer, snds,
    stmt_imports_named, tp_info, lemma_imports_named, s_reached_stmts, s_reached_stmt, s_reached_elifs,
};
use crate::checker::{TypeChecker, cr_env};
use crate::emitter::push_joined;
use crate::environment::{Environment, InstanceV, ScopeV, TypeclassV, lemma_scopes_nonempty};
use crate::errors::{CompileError, DiagView, error_at, error_str};
use crate::synth::{cr_ty, msg_name, msg_type, msg_types, repeat_type, text_is, types_compatible};
use crate::text::{push_decimal, push_str, push_string, string_from};
use crate::types::{
    DataType, FunctionType, InstanceDef, ModuleType, Type, TypeV, TypeclassDef, TypeclassMethodSig, copy_names,
    fields_v as tfields_v, names_v, tparams_v, tys_v,
};

verus! {

/// A copy of a list of types.
pub fn dup_types(v: &Vec<Type>) -> (r: Vec<Type>)
    ensures
        tys_v(r@) == tys_v(v@),
{
    let mut r: Vec<Type> = Vec::new();
    let mut i: usize = 0;
    while i < v.len()
        invariant
            i <= v.len(),
            r@.len() == i,
            forall|j: int| 0 <= j < i ==> (#[trigger] r@[j])@ == v@[j]@,
        decreases v.len() - i,
    {
        r.push(v[i].duplicate());
        i = i + 1;
    }
    assert(tys_v(r@) =~= tys_v(v@));
    r
}

impl TypeChecker {
    pub(crate) fn push_scope(&mut self)
        ensures
            final(self).env@ == env_child(old(self).env@),
    {
        let mut tmp = Environment::new();
        std::mem::swap(&mut tmp, &mut self.env);
        self.env = Environment::child(tmp);
    }

    pub(crate) fn pop_scope(&mut self)
        requires
            old(self).env@.len() > 1,
        ensures
            final(self).env@ == old(self).env@.drop_first(),
    {
        let mut tmp = Environment::new();
        std::mem::swap(&mut tmp, &mut self.env);
        match tmp.into_parent() {
            Some(p) => {
                self.env = p;
            },
            None => {},
        }
    }

    /// Checks statements in order, stopping at the first error.
    pub(crate) fn check_stmts(&mut self, ss: &Vec<Statement>) -> (r: Result<(), CompileError>)
        requires
            imports_named(stmts_v(ss@)),
        ensures
            cr_env(r, final(self).env@) == s_check_stmts(old(self).env@, stmts_v(ss@), 0),
            final(self).env@ == s_reached_stmts(old(self).env@, stmts_v(ss@), 0),
        decreases ss, 0int,
    {
        let ghost sv = stmts_v(ss@);
        proof {
            lemma_imports_named(sv);
        }
        let mut k: usize = 0;
        while k < ss.len()
            invariant
                sv == stmts_v(ss@),
                forall|i: int| 0 <= i < sv.len() ==> #[trigger] stmt_imports_named(sv[i]),
                k <= ss.len(),
                s_check_stmts(old(self).env@, sv, 0) == s_check_stmts(self.env@, sv, k as int),
                s_reached_stmts(old(self).env@, sv, 0) == s_reached_stmts(self.env@, sv, k as int),
            decreases ss.len() - k,
        {
            proof {
                assert(decreases_to!(ss => ss@));
                assert(decreases_to!(ss@ => ss@[k as int]));
                assert(sv[k as int] == stmt_v(ss@[k as int]));
                assert(stmt_imports_named(sv[k as int]));
            }
            match self.check_statement(&ss[k]) {
                Err(e) => return Err(e),
                Ok(()) => {},
            }
            k = k + 1;
        }
        Ok(())
    }

    fn check_statement(&mut self, stmt: &Statement) -> (r: Result<(), CompileError>)
        requires
            stmt_imports_named(stmt_v(*stmt)),
        ensures
            cr_env(r, final(self).env@) == s_check_stmt(old(self).env@, stmt_v(*stmt)),
            final(self).env@ == s_reached_stmt(old(self).env@, stmt_v(*stmt)),
        decreases stmt, 2int,
    {
        match stmt {
            Statement::Let(b) => self.check_let_binding(b),
            Statement::Assign(a) => self.check_assignment(a),
            Statement::FuncDef(f) => self.check_func_def(f),
            Statement::DataDecl(d) => self.check_data_decl(d),
            Statement::If(i) => self.check_if_stmt(i),
            Statement::Return(r) => match &r.value {
                Some(v) => match self.synth(v) {
                    Err(e) => Err(e),
                    Ok(_) => Ok(()),
                },
                None => Ok(()),
            },
            Statement::Expr(e) => match self.synth(&e.expr) {
                Err(x) => Err(x),
                Ok(_) => Ok(()),
            },
            Statement::TypeclassDecl(tc) => self.check_typeclass_decl(tc),
            Statement::Impl(b) => self.check_impl_block(b),
            Statement::For(f) => self.check_for_stmt(f),
            Statement::While(w) => self.check_while_stmt(w),
            Statement::Import(i) => {
                self.check_import(i);
                Ok(())
            },
        }
    }

    fn check_let_binding(&mut self, binding: &LetBinding) -> (r: Result<(), CompileError>)
        ensures
            cr_env(r, final(self).env@) == s_check_stmt(old(self).env@, stmt_v(Statement::Let(*binding))),
            r is Err ==> final(self).env@ == old(self).env@,
    {
        let vt = match self.synth(&binding.value) {
            Err(e) => return Err(e),
            Ok(t) => t,
        };
        match &binding.type_annotation {
            Some(ann) => {
                let expected = match self.resolve_type_expr(ann) {
                    Err(e) => return Err(e),
                    Ok(t) => t,
                };
                if !types_compatible(&vt, &expected) {
                    let s = msg_types("type mismatch: expected ", &expected, ", found ", &vt);
                    return Err(error_at(s, binding.value.span()));
                }
                let ty = match self.resolve_type_expr(ann) {
                    Err(e) => return Err(e),
                    Ok(t) => t,
                };
                self.env.define(binding.name.clone(), ty, binding.mutable);
            },
            None => {
                self.env.define(binding.name.clone(), vt, binding.mutable);
            },
        }
        Ok(())
    }

    fn check_assignment(&mut self, assign: &Assignment) -> (r: Result<(), CompileError>)
        ensures
            cr_env(r, final(self).env@) == s_check_stmt(old(self).env@, stmt_v(Statement::Assign(*assign))),
            r is Err ==> final(self).env@ == old(self).env@,
    {
        let target_name = match &assign.target {
            Expr::Name(name, _) => name,
            _ => {
                return Err(error_str("can only assign to variables", assign.target.span()));
            },
        };
        let expected = match self.env.lookup(target_name.as_str()) {
            None => {
                return Err(error_at(msg_name("undefined variable: ", target_name), assign.target.span()));
            },
            Some(b) => {
                if !b.mutable {
                    let mut s = msg_name("cannot assign to immutable variable '", target_name);
                    push_str(&mut s, "'");
                    return Err(error_at(s, assign.target.span()));
                }
                b.ty.duplicate()
            },
        };
        let vt = match self.synth(&assign.value) {
            Err(e) => return Err(e),
            Ok(t) => t,
        };
        if !vt.equals(&expected) {
            let s = msg_types("type mismatch: expected ", &expected, ", found ", &vt);
            return Err(error_at(s, assign.value.span()));
        }
        Ok(())
    }

    /// A condition, which must be of type `Bool`.
    fn check_cond(&self, c: &Expr) -> (r: Result<(), CompileError>)
        ensures
            match r {
                Ok(()) => s_cond(self.env@, expr_v(*c)) == Ok::<(), DiagView>(()),
                Err(e) => s_cond(self.env@, expr_v(*c)) == Err::<(), DiagView>(e@),
            },
    {
        let t = match self.synth(c) {
            Err(e) => return Err(e),
            Ok(t) => t,
        };
        if !t.equals(&Type::Bool) {
            return Err(error_at(msg_type("condition must be Bool, found ", &t), c.span()));
        }
        Ok(())
    }

    fn check_import(&mut self, import: &ImportStmt)
        requires
            stmt_imports_named(stmt_v(Statement::Import(*import))),
        ensures
            final(self).env@ == s_import(old(self).env@, crate::ast::import_kind_v(import.kind)),
    {
        match &import.kind {
            ImportKind::Simple { path, alias } => {
                let name = match alias {
                    Some(a) => a.clone(),
                    None => path[0].clone(),
                };
                let mut full = String::new();
                push_joined(&mut full, path, ".");
                proof {
                    assert(strs_v(path@)[0] == path@[0]@);
                }
                self.env.define(name, Type::Module(ModuleType { name: full }), false);
            },
            ImportKind::From { names, .. } => {
                let ghost nv = import_names_v(names@);
                let mut k: usize = 0;
                while k < names.len()
                    invariant
                        nv == import_names_v(names@),
                        k <= names.len(),
                        s_import_names(old(self).env@, nv, 0) == s_import_names(self.env@, nv, k as int),
                    decreases names.len() - k,
                {
                    let n = match &names[k].alias {
                        Some(a) => a.clone(),
                        None => names[k].name.clone(),
                    };
                    self.env.define(n, Type::Unknown, false);
                    k = k + 1;
                }
            },
        }
    }

    fn check_while_stmt(&mut self, w: &WhileStmt) -> (r: Result<(), CompileError>)
        requires
            stmt_imports_named(stmt_v(Statement::While(*w))),
        ensures
            cr_env(r, final(self).env@) == s_check_stmt(old(self).env@, stmt_v(Statement::While(*w))),
            final(self).env@ == s_reached_stmt(old(self).env@, stmt_v(Statement::While(*w))),
        decreases w, 1int,
    {
        match self.check_cond(&w.condition) {
            Err(e) => return Err(e),
            Ok(()) => {},
        }
        self.check_stmts(&w.body)
    }

    fn check_for_stmt(&mut self, f: &ForStmt) -> (r: Result<(), CompileError>)
        requires
            stmt_imports_named(stmt_v(Statement::For(*f))),
        ensures
            cr_env(r, final(self).env@) == s_check_stmt(old(self).env@, stmt_v(Statement::For(*f))),
            final(self).env@ == s_reached_stmt(old(self).env@, stmt_v(Statement::For(*f))),
        decreases f, 1int,
    {
        let ghost env0 = self.env@;
        let it = match self.synth(&f.iterable) {
            Err(e) => return Err(e),
            Ok(t) => t,
        };
        let elem = match &it {
            Type::List(inner) => (**inner).duplicate(),
            Type::Unknown => Type::Unknown,
            _ => {
                return Err(error_at(msg_type("cannot iterate over ", &it), f.iterable.span()));
            },
        };
        proof {
            lemma_scopes_nonempty(self.env);
            lemma_outer_ops(env_child(env0));
        }
        self.push_scope();
        self.env.define(f.var_name.clone(), elem, false);
        let ghost env1 = self.env@;
        match self.check_stmts(&f.body) {
            Err(e) => return Err(e),
            Ok(()) => {},
        }
        proof {
            lemma_stmts_outer(env1, stmts_v(f.body@), 0);
        }
        self.pop_scope();
        Ok(())
    }

    fn check_if_stmt(&mut self, if_stmt: &IfStmt) -> (r: Result<(), CompileError>)
        requires
            stmt_imports_named(stmt_v(Statement::If(*if_stmt))),
        ensures
            cr_env(r, final(self).env@) == s_check_stmt(old(self).env@, stmt_v(Statement::If(*if_stmt))),
            final(self).env@ == s_reached_stmt(old(self).env@, stmt_v(Statement::If(*if_stmt))),
        decreases if_stmt, 1int,
    {
        match self.check_cond(&if_stmt.condition) {
            Err(e) => return Err(e),
            Ok(()) => {},
        }
        match self.check_stmts(&if_stmt.then_body) {
            Err(e) => return Err(e),
            Ok(()) => {},
        }
        match self.check_elifs(&if_stmt.elif_clauses) {
            Err(e) => return Err(e),
            Ok(()) => {},
        }
        match &if_stmt.else_body {
            Some(b) => self.check_stmts(b),
            None => Ok(()),
        }
    }
    /// The `elif` branches, in order.
    fn check_elifs(&mut self, elifs: &Vec<(Expr, Vec<Statement>)>) -> (r: Result<(), CompileError>)
        requires
            forall|i: int| 0 <= i < elifs@.len() ==> imports_named(#[trigger] elifs_v(elifs@)[i].1),
        ensures
            cr_env(r, final(self).env@) == s_check_elifs(old(self).env@, elifs_v(elifs@), 0),
            final(self).env@ == s_reached_elifs(old(self).env@, elifs_v(elifs@), 0),
        decreases elifs, 0int,
    {
        let ghost ev = elifs_v(elifs@);
        let mut k: usize = 0;
        while k < elifs.len()
            invariant
                ev == elifs_v(elifs@),
                k <= elifs.len(),
                forall|i: int| 0 <= i < elifs@.len() ==> imports_named(#[trigger] ev[i].1),
                s_check_elifs(old(self).env@, ev, 0) == s_check_elifs(self.env@, ev, k as int),
                s_reached_elifs(old(self).env@, ev, 0) == s_reached_elifs(self.env@, ev, k as int),
            decreases elifs.len() - k,
        {
            proof {
                assert(decreases_to!(elifs => elifs@));
                assert(decreases_to!(elifs@ => elifs@[k as int]));
                assert(decreases_to!(elifs@[k as int] => elifs@[k as int].1));
                assert(ev[k as int].1 == stmts_v(elifs@[k as int].1@));
                assert(ev[k as int].0 == expr_v(elifs@[k as int].0));
                assert(imports_named(ev[k as int].1));
            }
            match self.check_cond(&elifs[k].0) {
                Err(e) => return Err(e),
                Ok(()) => {},
            }
            match self.check_stmts(&elifs[k].1) {
                Err(e) => return Err(e),
                Ok(()) => {},
            }
            k = k + 1;
        }
        Ok(())
    }
}

} // verus!
