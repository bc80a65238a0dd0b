//! The type checker's handling of definitions: functions, data types,
//! typeclasses and their instances.

use vstd::prelude::*;
use crate::ast::{
    DataDecl, FieldDecl, FuncDef, ImplBlock, ImplKind, MethodSig, Param, Statement, TypeParamDef, TypeclassDecl,
    fields_v, func_v, funcs_v, method_sigs_v, opt_type_v, params_v, stmt_v, stmts_v, strs_v, type_params_v,
    type_v, types_v,
};
use crate::check_spec::{
    copies, env_child, env_define, env_define_instance, env_define_method, env_define_type, env_define_typeclass,
    fn_type, imports_named, lemma_define_params_outer, lemma_method_params_outer, lemma_outer_ops,
    lemma_stmts_outer, lemma_tparams_outer, s_annot, s_check_func, s_check_method, s_check_methods, s_check_stmt,
    s_check_stmts, s_constraints_env, s_inherent_one, s_check_impl, s_define_params, s_field_types, s_inherent, s_method_param_types,
    s_method_params, s_opt_type, s_param_types, s_resolve_all, s_sig_params, s_sigs, s_tparams_env, same_outer,
    snds, stmt_imports_named, tp_info, s_reached_tparams, s_reached_constraints, s_reached_func, s_reached_method_params,
    s_reached_method, s_reached_methods, s_reached_stmt, s_reached_impl, s_reached_inherent_one, s_reached_inherent,
};
use crate::checker::{TypeChecker, cr_env};
use crate::check_stmts::dup_types;
use crate::environment::{InstanceV, MethodSigV, ScopeV, TypeclassV, lemma_scopes_nonempty};
use crate::errors::{CompileError, DiagView, error_at, error_str};
use crate::synth::{cr_ty, msg_name, repeat_type, text_is};
use crate::text::{push_decimal, push_str, push_string, string_from};
use crate::types::{
    DataType, FunctionType, InstanceDef, Type, TypeV, TypeclassDef, TypeclassMethodSig, copy_names,
    fields_v as tfields_v, names_v, tparams_v, tys_v,
};

verus! {

impl TypeChecker {
    /// The types of a function's parameters.
    fn param_types(&self, func: &FuncDef) -> (r: Result<Vec<Type>, CompileError>)
        ensures
            match r {
                Ok(v) => s_param_types(self.env@, params_v(func.params@), type_params_v(func.type_params@), 0)
                    == Ok::<Seq<TypeV>, DiagView>(tys_v(v@)),
                Err(e) => s_param_types(self.env@, params_v(func.params@), type_params_v(func.type_params@), 0)
                    == Err::<Seq<TypeV>, DiagView>(e@),
            },
    {
        let ghost pv = params_v(func.params@);
        let ghost tv = type_params_v(func.type_params@);
        let has_type_params = func.type_params.len() > 0;
        let mut out: Vec<Type> = Vec::new();
        let mut k: usize = 0;
        while k < func.params.len()
            invariant
                pv == params_v(func.params@),
                tv == type_params_v(func.type_params@),
                has_type_params == (tv.len() > 0),
                k <= func.params.len(),
                out@.len() == k,
                s_param_types(self.env@, pv, tv, 0) == (match s_param_types(self.env@, pv, tv, k as int) {
                    Err(x) => Err(x),
                    Ok(ts) => Ok(tys_v(out@) + ts),
                }),
            decreases func.params.len() - k,
        {
            let p = &func.params[k];
            let ty = match &p.type_annotation {
                Some(ann) => {
                    let t = if has_type_params {
                        self.resolve_type_expr_with_typevars(ann, &func.type_params)
                    } else {
                        self.resolve_type_expr(ann)
                    };
                    match t {
                        Err(e) => return Err(e),
                        Ok(t) => t,
                    }
                },
                None => {
                    let mut s = msg_name("parameter '", &p.name);
                    push_str(&mut s, "' requires a type annotation");
                    return Err(error_at(s, p.span));
                },
            };
            let ghost before = tys_v(out@);
            out.push(ty);
            proof {
                assert(tys_v(out@) =~= before.push(ty@));
                assert forall|ts: Seq<TypeV>| #![auto] before + (seq![ty@] + ts) == tys_v(out@) + ts by {
                    assert(before + (seq![ty@] + ts) =~= tys_v(out@) + ts);
                }
            }
            k = k + 1;
        }
        proof {
            assert(tys_v(out@) + Seq::<TypeV>::empty() =~= tys_v(out@));
        }
        Ok(out)
    }

    /// A function's type parameters and constraints brought into the current scope.
    fn bring_type_params(&mut self, tps: &Vec<TypeParamDef>) -> (r: Result<(), CompileError>)
        ensures
            cr_env(r, final(self).env@) == s_tparams_env(old(self).env@, type_params_v(tps@), 0),
            final(self).env@ == s_reached_tparams(old(self).env@, type_params_v(tps@), 0),
    {
        let ghost tv = type_params_v(tps@);
        let mut i: usize = 0;
        while i < tps.len()
            invariant
                tv == type_params_v(tps@),
                i <= tps.len(),
                s_tparams_env(old(self).env@, tv, 0) == s_tparams_env(self.env@, tv, i as int),
                s_reached_tparams(old(self).env@, tv, 0) == s_reached_tparams(self.env@, tv, i as int),
            decreases tps.len() - i,
        {
            let tp = &tps[i];
            self.env.define(tp.name.clone(), Type::TypeVar(tp.name.clone()), false);
            let ghost env1 = self.env@;
            let mut j: usize = 0;
            while j < tp.constraints.len()
                invariant
                    tv == type_params_v(tps@),
                    i < tps.len(),
                    tp == &tps@[i as int],
                    j <= tp.constraints.len(),
                    s_tparams_env(old(self).env@, tv, 0) == (match s_constraints_env(env1, tv[i as int], 0) {
                        Err(x) => Err(x),
                        Ok(env2) => s_tparams_env(env2, tv, i + 1),
                    }),
                    s_constraints_env(env1, tv[i as int], 0) == s_constraints_env(self.env@, tv[i as int], j as int),
                    s_reached_tparams(old(self).env@, tv, 0) == (match s_constraints_env(env1, tv[i as int], 0) {
                        Err(_) => s_reached_constraints(env1, tv[i as int], 0),
                        Ok(env2) => s_reached_tparams(env2, tv, i + 1),
                    }),
                    s_reached_constraints(env1, tv[i as int], 0) == s_reached_constraints(self.env@, tv[i as int], j as int),
                decreases tp.constraints.len() - j,
            {
                let c = &tp.constraints[j];
                proof {
                    assert(tv[i as int].constraints[j as int] == c@);
                }
                let n = match self.env.lookup_typeclass(c.as_str()) {
                    None => {
                        return Err(error_at(msg_name("unknown typeclass: ", c), tp.span));
                    },
                    Some(tc) => tc.type_params.len(),
                };
                let args = repeat_type(&Type::TypeVar(tp.name.clone()), n);
                self.env.define_instance(c.clone(), InstanceDef { typeclass_name: c.clone(), type_args: args, is_builtin: false });
                j = j + 1;
            }
            i = i + 1;
        }
        Ok(())
    }

    /// A function definition: it is bound, and its body is checked in a scope
    /// of its own with its type parameters and parameters.
    pub(crate) fn check_func_def(&mut self, func: &FuncDef) -> (r: Result<(), CompileError>)
        requires
            imports_named(stmts_v(func.body@)),
        ensures
            cr_env(r, final(self).env@) == s_check_func(old(self).env@, func_v(*func)),
            final(self).env@ == s_reached_func(old(self).env@, func_v(*func)),
        decreases func, 1int,
    {
        let ghost env0 = self.env@;
        let ghost tv = type_params_v(func.type_params@);
        let pts = match self.param_types(func) {
            Err(e) => return Err(e),
            Ok(p) => p,
        };
        let ret = match &func.return_type {
            Some(ann) => {
                let t = if func.type_params.len() > 0 {
                    self.resolve_type_expr_with_typevars(ann, &func.type_params)
                } else {
                    self.resolve_type_expr(ann)
                };
                match t {
                    Err(e) => return Err(e),
                    Ok(t) => t,
                }
            },
            None => Type::NoneType,
        };
        let mut info: Vec<(String, Vec<String>)> = Vec::new();
        let mut i: usize = 0;
        while i < func.type_params.len()
            invariant
                tv == type_params_v(func.type_params@),
                i <= func.type_params.len(),
                tparams_v(info@) == tp_info(tv).take(i as int),
            decreases func.type_params.len() - i,
        {
            let ghost before = tparams_v(info@);
            let cs = copy_names(&func.type_params[i].constraints);
            info.push((func.type_params[i].name.clone(), cs));
            proof {
                lemma_names_strs_local(func.type_params@[i as int].constraints@);
                assert(tparams_v(info@) =~= before.push(tp_info(tv)[i as int]));
                assert(tp_info(tv).take(i + 1) =~= tp_info(tv).take(i as int).push(tp_info(tv)[i as int]));
            }
            i = i + 1;
        }
        proof {
            assert(tp_info(tv).take(func.type_params.len() as int) =~= tp_info(tv));
        }
        let func_type = Type::Function(FunctionType { type_params: info, param_types: dup_types(&pts), return_type: Box::new(ret.duplicate()) });
        self.env.define(func.name.clone(), func_type, false);
        let ghost env1 = self.env@;
        proof {
            lemma_scopes_nonempty(self.env);
            lemma_outer_ops(env1);
        }
        self.push_scope();
        match self.bring_type_params(&func.type_params) {
            Err(e) => return Err(e),
            Ok(()) => {},
        }
        let ghost env3 = self.env@;
        proof {
            lemma_tparams_outer(env_child(env1), tv, 0);
        }
        let ghost pv = params_v(func.params@);
        let mut k: usize = 0;
        while k < func.params.len() && k < pts.len()
            invariant
                pv == params_v(func.params@),
                k <= func.params.len(),
                s_define_params(env3, pv, tys_v(pts@), 0) == s_define_params(self.env@, pv, tys_v(pts@), k as int),
            decreases func.params.len() - k,
        {
            self.env.define(func.params[k].name.clone(), pts[k].duplicate(), false);
            k = k + 1;
        }
        let ghost env4 = self.env@;
        proof {
            lemma_define_params_outer(env3, pv, tys_v(pts@), 0);
        }
        match self.check_stmts(&func.body) {
            Err(e) => return Err(e),
            Ok(()) => {},
        }
        proof {
            lemma_stmts_outer(env4, stmts_v(func.body@), 0);
        }
        self.pop_scope();
        Ok(())
    }

    /// A data declaration: its type and its constructor.
    pub(crate) fn check_data_decl(&mut self, data: &DataDecl) -> (r: Result<(), CompileError>)
        ensures
            cr_env(r, final(self).env@) == s_check_stmt(old(self).env@, stmt_v(Statement::DataDecl(*data))),
            r is Err ==> final(self).env@ == old(self).env@,
    {
        let ghost fv = fields_v(data.fields@);
        let mut fields: Vec<(String, Type)> = Vec::new();
        let mut k: usize = 0;
        while k < data.fields.len()
            invariant
                fv == fields_v(data.fields@),
                k <= data.fields.len(),
                s_field_types(self.env@, fv, 0) == (match s_field_types(self.env@, fv, k as int) {
                    Err(x) => Err(x),
                    Ok(rest) => Ok(tfields_v(fields@) + rest),
                }),
            decreases data.fields.len() - k,
        {
            let t = match self.resolve_type_expr(&data.fields[k].type_annotation) {
                Err(e) => return Err(e),
                Ok(t) => t,
            };
            let ghost before = tfields_v(fields@);
            let ghost item = (data.fields@[k as int].name@, t@);
            fields.push((data.fields[k].name.clone(), t));
            proof {
                assert(tfields_v(fields@) =~= before.push(item));
                assert forall|rest: Seq<(Seq<char>, TypeV)>| #![auto] before + (seq![item] + rest) == tfields_v(fields@) + rest by {
                    assert(before + (seq![item] + rest) =~= tfields_v(fields@) + rest);
                }
            }
            k = k + 1;
        }
        proof {
            assert(tfields_v(fields@) + Seq::<(Seq<char>, TypeV)>::empty() =~= tfields_v(fields@));
        }
        let mut field_types: Vec<Type> = Vec::new();
        let mut j: usize = 0;
        while j < fields.len()
            invariant
                j <= fields.len(),
                field_types@.len() == j,
                forall|q: int| 0 <= q < j ==> (#[trigger] field_types@[q])@ == fields@[q].1@,
            decreases fields.len() - j,
        {
            field_types.push(fields[j].1.duplicate());
            j = j + 1;
        }
        proof {
            assert(tys_v(field_types@) =~= snds(tfields_v(fields@)));
        }
        let data_type = Type::Data(DataType { name: data.name.clone(), fields });
        self.env.define_type(data.name.clone(), data_type.duplicate());
        let constructor = Type::Function(FunctionType {
            type_params: Vec::new(),
            param_types: field_types,
            return_type: Box::new(data_type),
        });
        proof {
            assert(tparams_v(Seq::<(String, Vec<String>)>::empty()) =~= Seq::empty());
        }
        self.env.define(data.name.clone(), constructor, false);
        Ok(())
    }

    /// The parameter types of a typeclass method signature.
    fn sig_param_types(&self, sig: &MethodSig, tc_params: &Vec<String>) -> (r: Result<Vec<Type>, CompileError>)
        ensures
            match r {
                Ok(v) => s_sig_params(self.env@, params_v(sig.params@), strs_v(tc_params@), 0)
                    == Ok::<Seq<TypeV>, DiagView>(tys_v(v@)),
                Err(e) => s_sig_params(self.env@, params_v(sig.params@), strs_v(tc_params@), 0)
                    == Err::<Seq<TypeV>, DiagView>(e@),
            },
    {
        let ghost pv = params_v(sig.params@);
        let ghost tcp = strs_v(tc_params@);
        let mut out: Vec<Type> = Vec::new();
        let mut k: usize = 0;
        while k < sig.params.len()
            invariant
                pv == params_v(sig.params@),
                tcp == strs_v(tc_params@),
                k <= sig.params.len(),
                s_sig_params(self.env@, pv, tcp, 0) == (match s_sig_params(self.env@, pv, tcp, k as int) {
                    Err(x) => Err(x),
                    Ok(ts) => Ok(tys_v(out@) + ts),
                }),
            decreases sig.params.len() - k,
        {
            let p = &sig.params[k];
            let ty = match &p.type_annotation {
                Some(ann) => match self.resolve_type_expr_with_tc_params(ann, tc_params) {
                    Err(e) => return Err(e),
                    Ok(t) => t,
                },
                None => {
                    return Err(error_str("typeclass method parameters require type annotations", p.span));
                },
            };
            let ghost before = tys_v(out@);
            out.push(ty);
            proof {
                assert(tys_v(out@) =~= before.push(ty@));
                assert forall|ts: Seq<TypeV>| #![auto] before + (seq![ty@] + ts) == tys_v(out@) + ts by {
                    assert(before + (seq![ty@] + ts) =~= tys_v(out@) + ts);
                }
            }
            k = k + 1;
        }
        proof {
            assert(tys_v(out@) + Seq::<TypeV>::empty() =~= tys_v(out@));
        }
        Ok(out)
    }

    /// A typeclass declaration: its method signatures with their types resolved.
    pub(crate) fn check_typeclass_decl(&mut self, tc: &TypeclassDecl) -> (r: Result<(), CompileError>)
        ensures
            cr_env(r, final(self).env@) == s_check_stmt(old(self).env@, stmt_v(Statement::TypeclassDecl(*tc))),
            r is Err ==> final(self).env@ == old(self).env@,
    {
        let ghost sv = method_sigs_v(tc.methods@);
        let ghost tcp = strs_v(tc.type_params@);
        let mut methods: Vec<TypeclassMethodSig> = Vec::new();
        let mut k: usize = 0;
        while k < tc.methods.len()
            invariant
                sv == method_sigs_v(tc.methods@),
                tcp == strs_v(tc.type_params@),
                k <= tc.methods.len(),
                s_sigs(self.env@, sv, tcp, 0) == (match s_sigs(self.env@, sv, tcp, k as int) {
                    Err(x) => Err(x),
                    Ok(rest) => Ok(sigs_view(methods@) + rest),
                }),
            decreases tc.methods.len() - k,
        {
            let sig = &tc.methods[k];
            let pts = match self.sig_param_types(sig, &tc.type_params) {
                Err(e) => return Err(e),
                Ok(p) => p,
            };
            let rt = match self.resolve_type_expr_with_tc_params(&sig.return_type, &tc.type_params) {
                Err(e) => return Err(e),
                Ok(t) => t,
            };
            let m = TypeclassMethodSig { name: sig.name.clone(), param_types: pts, return_type: rt };
            let ghost before = sigs_view(methods@);
            let ghost item = MethodSigV { name: m.name@, param_types: tys_v(m.param_types@), return_type: m.return_type@ };
            methods.push(m);
            proof {
                assert(sigs_view(methods@) =~= before.push(item));
                assert forall|rest: Seq<MethodSigV>| #![auto] before + (seq![item] + rest) == sigs_view(methods@) + rest by {
                    assert(before + (seq![item] + rest) =~= sigs_view(methods@) + rest);
                }
            }
            k = k + 1;
        }
        proof {
            assert(sigs_view(methods@) + Seq::<MethodSigV>::empty() =~= sigs_view(methods@));
        }
        let def = TypeclassDef { name: tc.name.clone(), type_params: copy_names(&tc.type_params), methods };
        proof {
            lemma_names_strs_local(tc.type_params@);
            assert(def@.methods =~= sigs_view(def.methods@));
        }
        self.env.define_typeclass(tc.name.clone(), def);
        Ok(())
    }

    /// A method's annotated parameters bound in the current scope.
    fn bind_method_params(&mut self, params: &Vec<Param>) -> (r: Result<(), CompileError>)
        ensures
            cr_env(r, final(self).env@) == s_method_params(old(self).env@, params_v(params@), 0),
            final(self).env@ == s_reached_method_params(old(self).env@, params_v(params@), 0),
    {
        let ghost pv = params_v(params@);
        let mut k: usize = 0;
        while k < params.len()
            invariant
                pv == params_v(params@),
                k <= params.len(),
                s_method_params(old(self).env@, pv, 0) == s_method_params(self.env@, pv, k as int),
                s_reached_method_params(old(self).env@, pv, 0) == s_reached_method_params(self.env@, pv, k as int),
            decreases params.len() - k,
        {
            match &params[k].type_annotation {
                Some(ann) => {
                    let t = match self.resolve_type_expr(ann) {
                        Err(e) => return Err(e),
                        Ok(t) => t,
                    };
                    self.env.define(params[k].name.clone(), t, false);
                },
                None => {},
            }
            k = k + 1;
        }
        Ok(())
    }

    /// A method body checked in a scope of its own; the environment is left as it was.
    fn check_impl_method(&mut self, m: &FuncDef) -> (r: Result<(), CompileError>)
        requires
            imports_named(stmts_v(m.body@)),
        ensures
            match r {
                Ok(()) => s_check_method(old(self).env@, func_v(*m)) == Ok::<(), DiagView>(())
                    && final(self).env@ == old(self).env@,
                Err(e) => s_check_method(old(self).env@, func_v(*m)) == Err::<(), DiagView>(e@),
            },
            final(self).env@ == s_reached_method(old(self).env@, func_v(*m)),
        decreases m, 1int,
    {
        let ghost env0 = self.env@;
        proof {
            lemma_scopes_nonempty(self.env);
            lemma_outer_ops(env0);
        }
        self.push_scope();
        let ghost envc = self.env@;
        let ghost pv = params_v(m.params@);
        match self.bind_method_params(&m.params) {
            Err(e) => return Err(e),
            Ok(()) => {},
        }
        let ghost env2 = self.env@;
        proof {
            lemma_method_params_outer(envc, pv, 0);
        }
        match self.check_stmts(&m.body) {
            Err(e) => return Err(e),
            Ok(()) => {},
        }
        proof {
            lemma_stmts_outer(env2, stmts_v(m.body@), 0);
        }
        self.pop_scope();
        Ok(())
    }

    /// The types of a method's annotated parameters after the first.
    fn method_param_types(&self, m: &FuncDef) -> (r: Result<Vec<Type>, CompileError>)
        ensures
            match r {
                Ok(v) => s_method_param_types(self.env@, params_v(m.params@), 1) == Ok::<Seq<TypeV>, DiagView>(tys_v(v@)),
                Err(e) => s_method_param_types(self.env@, params_v(m.params@), 1) == Err::<Seq<TypeV>, DiagView>(e@),
            },
    {
        let ghost pv = params_v(m.params@);
        let mut out: Vec<Type> = Vec::new();
        let mut k: usize = 1;
        while k < m.params.len()
            invariant
                pv == params_v(m.params@),
                1 <= k,
                s_method_param_types(self.env@, pv, 1) == (match s_method_param_types(self.env@, pv, k as int) {
                    Err(x) => Err(x),
                    Ok(ts) => Ok(tys_v(out@) + ts),
                }),
            decreases m.params.len() - k,
        {
            match &m.params[k].type_annotation {
                Some(ann) => {
                    let t = match self.resolve_type_expr(ann) {
                        Err(e) => return Err(e),
                        Ok(t) => t,
                    };
                    let ghost before = tys_v(out@);
                    out.push(t);
                    proof {
                        assert(tys_v(out@) =~= before.push(t@));
                        assert forall|ts: Seq<TypeV>| #![auto] before + (seq![t@] + ts) == tys_v(out@) + ts by {
                            assert(before + (seq![t@] + ts) =~= tys_v(out@) + ts);
                        }
                    }
                },
                None => {},
            }
            k = k + 1;
        }
        proof {
            assert(tys_v(out@) + Seq::<TypeV>::empty() =~= tys_v(out@));
        }
        Ok(out)
    }

    /// Checks each method body of an instance.
    fn check_impl_methods(&mut self, methods: &Vec<FuncDef>) -> (r: Result<(), CompileError>)
        requires
            forall|i: int| 0 <= i < methods@.len() ==> imports_named(#[trigger] funcs_v(methods@)[i].body),
        ensures
            match r {
                Ok(()) => s_check_methods(old(self).env@, funcs_v(methods@), 0) == Ok::<(), DiagView>(())
                    && final(self).env@ == old(self).env@,
                Err(e) => s_check_methods(old(self).env@, funcs_v(methods@), 0) == Err::<(), DiagView>(e@),
            },
            final(self).env@ == s_reached_methods(old(self).env@, funcs_v(methods@), 0),
        decreases methods, 0int,
    {
        let ghost mv = funcs_v(methods@);
        let mut k: usize = 0;
        while k < methods.len()
            invariant
                mv == funcs_v(methods@),
                k <= methods.len(),
                self.env@ == old(self).env@,
                forall|i: int| 0 <= i < methods@.len() ==> imports_named(#[trigger] mv[i].body),
                s_check_methods(old(self).env@, mv, 0) == s_check_methods(old(self).env@, mv, k as int),
                s_reached_methods(old(self).env@, mv, 0) == s_reached_methods(old(self).env@, mv, k as int),
            decreases methods.len() - k,
        {
            proof {
                assert(decreases_to!(methods => methods@));
                assert(decreases_to!(methods@ => methods@[k as int]));
                assert(mv[k as int] == func_v(methods@[k as int]));
                assert(imports_named(mv[k as int].body));
            }
            match self.check_impl_method(&methods[k]) {
                Err(e) => return Err(e),
                Ok(()) => {},
            }
            k = k + 1;
        }
        Ok(())
    }

    /// An `impl` block: an instance of a typeclass, or methods of a data type.
    pub(crate) fn check_impl_block(&mut self, block: &ImplBlock) -> (r: Result<(), CompileError>)
        requires
            stmt_imports_named(stmt_v(Statement::Impl(*block))),
        ensures
            cr_env(r, final(self).env@) == s_check_stmt(old(self).env@, stmt_v(Statement::Impl(*block))),
            final(self).env@ == s_reached_stmt(old(self).env@, stmt_v(Statement::Impl(*block))),
        decreases block, 1int,
    {
        let ghost mv = funcs_v(block.methods@);
        match &block.kind {
            ImplKind::Instance { typeclass_name, type_args } => self.check_instance(typeclass_name, type_args, &block.methods, block.span),
            ImplKind::Inherent { target_type } => {
                if self.env.lookup_type(target_type.as_str()).is_none() {
                    return Err(error_at(msg_name("unknown type: ", target_type), block.span));
                }
                self.check_inherent(target_type, &block.methods)
            },
        }
    }
    /// Type annotations resolved in order.
    fn resolve_all(&self, type_args: &Vec<crate::ast::TypeExpr>) -> (r: Result<Vec<Type>, CompileError>)
        ensures
            match r {
                Ok(v) => s_resolve_all(self.env@, types_v(type_args@), 0) == Ok::<Seq<TypeV>, DiagView>(tys_v(v@)),
                Err(e) => s_resolve_all(self.env@, types_v(type_args@), 0) == Err::<Seq<TypeV>, DiagView>(e@),
            },
    {
        let ghost av = types_v(type_args@);
        let mut resolved: Vec<Type> = Vec::new();
        let mut k: usize = 0;
        while k < type_args.len()
            invariant
                av == types_v(type_args@),
                k <= type_args.len(),
                s_resolve_all(self.env@, av, 0) == (match s_resolve_all(self.env@, av, k as int) {
                    Err(x) => Err(x),
                    Ok(ts) => Ok(tys_v(resolved@) + ts),
                }),
            decreases type_args.len() - k,
        {
            let t = match self.resolve_type_expr(&type_args[k]) {
                Err(e) => return Err(e),
                Ok(t) => t,
            };
            let ghost before = tys_v(resolved@);
            resolved.push(t);
            proof {
                assert(tys_v(resolved@) =~= before.push(t@));
                assert forall|ts: Seq<TypeV>| #![auto] before + (seq![t@] + ts) == tys_v(resolved@) + ts by {
                    assert(before + (seq![t@] + ts) =~= tys_v(resolved@) + ts);
                }
            }
            k = k + 1;
        }
        proof {
            assert(tys_v(resolved@) + Seq::<TypeV>::empty() =~= tys_v(resolved@));
        }
        Ok(resolved)
    }

    /// The type an inherent method is recorded with: its annotated parameters
    /// after `self`, and its return type.
    fn method_type(&self, m: &FuncDef) -> (r: Result<Type, CompileError>)
        ensures
            cr_ty(r) == (match s_method_param_types(self.env@, params_v(m.params@), 1) {
                Err(x) => Err(x),
                Ok(pts) => match s_opt_type(self.env@, opt_type_v(m.return_type), Seq::empty()) {
                    Err(x) => Err(x),
                    Ok(rt) => Ok(fn_type(pts, rt)),
                },
            }),
    {
        let pts = match self.method_param_types(m) {
            Err(e) => return Err(e),
            Ok(p) => p,
        };
        let rt = match &m.return_type {
            Some(ann) => match self.resolve_type_expr(ann) {
                Err(e) => return Err(e),
                Ok(t) => t,
            },
            None => Type::NoneType,
        };
        let ghost pv = tys_v(pts@);
        let ghost rv = rt@;
        let tps: Vec<(String, Vec<String>)> = Vec::new();
        proof {
            assert(tparams_v(tps@) =~= Seq::empty());
        }
        let out = Type::Function(FunctionType { type_params: tps, param_types: pts, return_type: Box::new(rt) });
        assert(out@ == fn_type(pv, rv));
        Ok(out)
    }

    /// An instance of a typeclass: the typeclass must be known and get as
    /// many type arguments as it has parameters, and the method bodies must check.
    fn check_instance(
        &mut self,
        typeclass_name: &String,
        type_args: &Vec<crate::ast::TypeExpr>,
        methods: &Vec<FuncDef>,
        span: crate::source::Span,
    ) -> (r: Result<(), CompileError>)
        requires
            forall|i: int| 0 <= i < methods@.len() ==> imports_named(#[trigger] funcs_v(methods@)[i].body),
        ensures
            cr_env(r, final(self).env@) == s_check_impl(
                old(self).env@,
                crate::ast::ImplKindV::Instance { typeclass_name: typeclass_name@, type_args: types_v(type_args@) },
                funcs_v(methods@),
                span,
            ),
            final(self).env@ == s_reached_impl(
                old(self).env@,
                crate::ast::ImplKindV::Instance { typeclass_name: typeclass_name@, type_args: types_v(type_args@) },
                funcs_v(methods@),
                span,
            ),
        decreases methods, 1int,
    {
        let n = match self.env.lookup_typeclass(typeclass_name.as_str()) {
            None => {
                return Err(error_at(msg_name("unknown typeclass: ", typeclass_name), span));
            },
            Some(tc) => tc.type_params.len(),
        };
        let resolved = match self.resolve_all(type_args) {
            Err(e) => return Err(e),
            Ok(v) => v,
        };
        if resolved.len() != n {
            let mut s = msg_name("typeclass ", typeclass_name);
            push_str(&mut s, " expects ");
            push_decimal(&mut s, n);
            push_str(&mut s, " type arguments, found ");
            push_decimal(&mut s, resolved.len());
            return Err(error_at(s, span));
        }
        match self.check_impl_methods(methods) {
            Err(e) => return Err(e),
            Ok(()) => {},
        }
        self.env.define_instance(
            typeclass_name.clone(),
            InstanceDef { typeclass_name: typeclass_name.clone(), type_args: resolved, is_builtin: false },
        );
        Ok(())
    }

    /// One method of an inherent `impl`: it is checked, and if its first
    /// parameter is `self` it becomes a method of the type named `target_type`.
    fn check_inherent_one(&mut self, target_type: &String, m: &FuncDef) -> (r: Result<(), CompileError>)
        requires
            imports_named(stmts_v(m.body@)),
        ensures
            cr_env(r, final(self).env@) == s_inherent_one(old(self).env@, target_type@, func_v(*m)),
            final(self).env@ == s_reached_inherent_one(old(self).env@, target_type@, func_v(*m)),
        decreases m, 2int,
    {
        match self.check_impl_method(m) {
            Err(e) => return Err(e),
            Ok(()) => {},
        }
        proof {
            if m.params.len() > 0 {
                assert(params_v(m.params@)[0].name == m.params@[0].name@);
            }
        }
        if m.params.len() > 0 && text_is(&m.params[0].name, "self") {
            let ty = match self.method_type(m) {
                Err(e) => return Err(e),
                Ok(t) => t,
            };
            self.env.define_method(target_type.clone(), m.name.clone(), ty);
        }
        Ok(())
    }

    /// The methods of an inherent `impl`, in order.
    fn check_inherent(&mut self, target_type: &String, methods: &Vec<FuncDef>) -> (r: Result<(), CompileError>)
        requires
            forall|i: int| 0 <= i < methods@.len() ==> imports_named(#[trigger] funcs_v(methods@)[i].body),
        ensures
            cr_env(r, final(self).env@) == s_inherent(old(self).env@, target_type@, funcs_v(methods@), 0),
            final(self).env@ == s_reached_inherent(old(self).env@, target_type@, funcs_v(methods@), 0),
        decreases methods, 0int,
    {
        let ghost mv = funcs_v(methods@);
        let mut k: usize = 0;
        while k < methods.len()
            invariant
                mv == funcs_v(methods@),
                k <= methods.len(),
                forall|i: int| 0 <= i < methods@.len() ==> imports_named(#[trigger] mv[i].body),
                s_inherent(old(self).env@, target_type@, mv, 0) == s_inherent(self.env@, target_type@, mv, k as int),
                s_reached_inherent(old(self).env@, target_type@, mv, 0) == s_reached_inherent(self.env@, target_type@, mv, k as int),
            decreases methods.len() - k,
        {
            proof {
                assert(decreases_to!(methods => methods@));
                assert(decreases_to!(methods@ => methods@[k as int]));
                assert(mv[k as int] == func_v(methods@[k as int]));
                assert(imports_named(mv[k as int].body));
            }
            match self.check_inherent_one(target_type, &methods[k]) {
                Err(e) => return Err(e),
                Ok(()) => {},
            }
            k = k + 1;
        }
        Ok(())
    }
}

pub open spec fn sigs_view(ms: Seq<TypeclassMethodSig>) -> Seq<MethodSigV> {
    Seq::new(ms.len(), |i: int| MethodSigV { name: ms[i].name@, param_types: tys_v(ms[i].param_types@), return_type: ms[i].return_type@ })
}

proof fn lemma_names_strs_local(v: Seq<String>)
    ensures
        names_v(v) == strs_v(v),
{
    assert(names_v(v) =~= strs_v(v));
}

} // verus!
