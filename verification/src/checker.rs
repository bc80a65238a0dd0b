//! The type checker: statements, and the environment they build.

use vstd::prelude::*;
use crate::ast::{
    Assignment, DataDecl, Expr, FieldDecl, ForStmt, FuncDef, IfStmt, ImplBlock, ImplKind, ImportKind, ImportStmt,
    LetBinding, MethodSig, Module, Param, Statement, StatementV, TypeParamDef, TypeclassDecl, WhileStmt, elifs_v,
    expr_span, expr_v, fields_v, func_v, funcs_v, import_names_v, method_sigs_v, module_v, params_v, stmt_v, stmts_v,
    strs_v, type_params_v, type_v, types_v,
};
use crate::check_spec::{
    CR, builtin_instance, builtin_instances, builtin_scope, builtin_typeclass, copies, env_child, env_define,
    env_define_instance, env_define_method, env_define_type, env_define_typeclass, fn_type, imports_named,
    lemma_method_params_outer, lemma_outer_ops, lemma_scoped_outer, lemma_stmts_outer, s_annot, s_check_elifs,
    s_check_func, s_check_impl, s_check_method, s_check_methods, s_check_stmt, s_check_stmts, s_cond,
    s_constraints_env, s_define_params, s_field_types, s_import, s_import_names, s_inherent, s_method_param_types,
    s_method_params, s_opt_type, s_param_types, s_resolve_all, s_scoped, s_sig_params, s_sigs, s_tparams_env,
    same_outer, snds, stmt_imports_named, tp_info, s_reached_stmts,
};
use crate::environment::{
    Binding, Environment, InstanceV, ScopeV, TypeclassV, empty_scope, lemma_scopes_nonempty, scope_lookup,
};
use crate::errors::{CompileError, DiagView, error_at, error_str};
use crate::synth::{cr_ty, msg_name, msg_type, msg_types, text_is, types_compatible};
use crate::text::{push_decimal, push_str, push_string, str_eq, string_from};
use crate::types::{
    DataType, FunctionType, InstanceDef, ModuleType, Type, TypeV, TypeclassDef, TypeclassMethodSig, copy_names,
    fields_v as tfields_v, names_v, tparams_v, tys_v, type_text,
};

verus! {

/// Checks a module's statements against an environment that starts with the
/// built-in names.
pub struct TypeChecker {
    pub(crate) env: Environment,
}

/// A check's outcome read as the environment it leaves, or the error's view.
pub open spec fn cr_env(r: Result<(), CompileError>, env: Seq<ScopeV>) -> CR<Seq<ScopeV>> {
    match r {
        Ok(()) => Ok(env),
        Err(e) => Err(e@),
    }
}

/// Declares a built-in operator typeclass `name[L, R, Out]` with one method.
pub fn register_builtin_typeclass(env: &mut Environment, name: &str, method_name: &str)
    ensures
        final(env)@ == env_define_typeclass(old(env)@, name@, builtin_typeclass(name@, method_name@)),
{
    let mut tps: Vec<String> = Vec::new();
    tps.push(string_from("L"));
    tps.push(string_from("R"));
    tps.push(string_from("Out"));
    let mut ps: Vec<Type> = Vec::new();
    ps.push(Type::TypeVar(string_from("L")));
    ps.push(Type::TypeVar(string_from("R")));
    let sig = TypeclassMethodSig { name: string_from(method_name), param_types: ps, return_type: Type::TypeVar(string_from("Out")) };
    let mut methods: Vec<TypeclassMethodSig> = Vec::new();
    methods.push(sig);
    let def = TypeclassDef { name: string_from(name), type_params: tps, methods };
    proof {
        assert(names_v(def.type_params@) =~= seq!["L"@, "R"@, "Out"@]);
        assert(tys_v(sig.param_types@) =~= seq![TypeV::TypeVar("L"@), TypeV::TypeVar("R"@)]);
        assert(def@ == builtin_typeclass(name@, method_name@)) by {
            assert(def@.methods =~= builtin_typeclass(name@, method_name@).methods);
        }
    }
    env.define_typeclass(string_from(name), def);
}

/// Adds a built-in instance `typeclass[left, right, out]`.
pub fn register_builtin_instance(env: &mut Environment, typeclass: &str, left: Type, right: Type, out: Type)
    ensures
        final(env)@ == env_define_instance(old(env)@, typeclass@, builtin_instance(typeclass@, left@, right@, out@).1),
{
    let ghost lv = left@;
    let ghost rv = right@;
    let ghost ov = out@;
    let mut args: Vec<Type> = Vec::new();
    args.push(left);
    args.push(right);
    args.push(out);
    proof {
        assert(tys_v(args@) =~= seq![lv, rv, ov]);
    }
    env.define_instance(
        string_from(typeclass),
        InstanceDef { typeclass_name: string_from(typeclass), type_args: args, is_builtin: true },
    );
}

impl TypeChecker {
    /// The scopes of the checker's environment, innermost first.
    pub closed spec fn scopes(&self) -> Seq<ScopeV> {
        self.env@
    }

    /// A checker whose one scope holds the built-in functions, the operator
    /// typeclasses and their instances over the built-in types.
    #[verifier::rlimit(100)]
    pub fn new() -> (tc: TypeChecker)
        ensures
            tc.scopes() == seq![builtin_scope()],
    {
        let mut env = Environment::new();
        let mut p1: Vec<Type> = Vec::new();
        p1.push(Type::Unknown);
        let t1 = Type::Function(FunctionType { type_params: Vec::new(), param_types: p1, return_type: Box::new(Type::NoneType) });
        proof {
            assert(tparams_v(Seq::<(String, Vec<String>)>::empty()) =~= Seq::empty());
            assert(tys_v(p1@) =~= seq![TypeV::Unknown]);
            reveal_with_fuel(crate::types::ty_v, 3);
            assert(t1@ == fn_type(seq![TypeV::Unknown], TypeV::NoneType));
        }
        env.define(string_from("print"), t1, false);
        let mut p2: Vec<Type> = Vec::new();
        p2.push(Type::Unknown);
        let t2 = Type::Function(FunctionType { type_params: Vec::new(), param_types: p2, return_type: Box::new(Type::Int) });
        proof {
            assert(tys_v(p2@) =~= seq![TypeV::Unknown]);
            reveal_with_fuel(crate::types::ty_v, 3);
            assert(t2@ == fn_type(seq![TypeV::Unknown], TypeV::Int));
        }
        env.define(string_from("len"), t2, false);
        let mut p3: Vec<Type> = Vec::new();
        p3.push(Type::Int);
        let t3 = Type::Function(FunctionType {
            type_params: Vec::new(),
            param_types: p3,
            return_type: Box::new(Type::List(Box::new(Type::Int))),
        });
        proof {
            assert(tys_v(p3@) =~= seq![TypeV::Int]);
            reveal_with_fuel(crate::types::ty_v, 3);
            assert(t3@ == fn_type(seq![TypeV::Int], TypeV::List(Box::new(TypeV::Int))));
        }
        env.define(string_from("range"), t3, false);
        assert(env@.len() == 1);
        let ghost s1 = env@[0];
        proof {
            assert(s1.bindings =~= builtin_scope().bindings);
            assert(s1.types =~= builtin_scope().types);
            assert(s1.typeclasses =~= Map::empty());
            assert(s1.instances =~= Seq::empty());
            assert(s1.methods =~= builtin_scope().methods);
        }
        register_builtin_typeclass(&mut env, "Add", "add");
        register_builtin_typeclass(&mut env, "Sub", "sub");
        register_builtin_typeclass(&mut env, "Mul", "mul");
        register_builtin_typeclass(&mut env, "Div", "div");
        register_builtin_typeclass(&mut env, "Eq", "eq");
        register_builtin_typeclass(&mut env, "Ord", "lt");
        let ghost s2 = env@[0];
        proof {
            assert(env@.len() == 1);
            assert(s2.bindings == s1.bindings);
            assert(s2.types == s1.types);
            assert(s2.methods == s1.methods);
            assert(s2.instances == s1.instances);
            assert(s2.typeclasses =~= builtin_scope().typeclasses);
        }
        register_builtin_instance(&mut env, "Add", Type::Int, Type::Int, Type::Int);
        assert(env@.len() == 1);
        register_builtin_instance(&mut env, "Add", Type::Float, Type::Float, Type::Float);
        assert(env@.len() == 1);
        register_builtin_instance(&mut env, "Sub", Type::Int, Type::Int, Type::Int);
        assert(env@.len() == 1);
        register_builtin_instance(&mut env, "Sub", Type::Float, Type::Float, Type::Float);
        assert(env@.len() == 1);
        register_builtin_instance(&mut env, "Mul", Type::Int, Type::Int, Type::Int);
        assert(env@.len() == 1);
        register_builtin_instance(&mut env, "Mul", Type::Float, Type::Float, Type::Float);
        assert(env@.len() == 1);
        register_builtin_instance(&mut env, "Div", Type::Int, Type::Int, Type::Int);
        assert(env@.len() == 1);
        register_builtin_instance(&mut env, "Div", Type::Float, Type::Float, Type::Float);
        assert(env@.len() == 1);
        register_builtin_instance(&mut env, "Add", Type::Str, Type::Str, Type::Str);
        assert(env@.len() == 1);
        register_builtin_instance(&mut env, "Eq", Type::Int, Type::Int, Type::Bool);
        assert(env@.len() == 1);
        register_builtin_instance(&mut env, "Eq", Type::Float, Type::Float, Type::Bool);
        assert(env@.len() == 1);
        register_builtin_instance(&mut env, "Eq", Type::Str, Type::Str, Type::Bool);
        assert(env@.len() == 1);
        register_builtin_instance(&mut env, "Eq", Type::Bool, Type::Bool, Type::Bool);
        assert(env@.len() == 1);
        register_builtin_instance(&mut env, "Ord", Type::Int, Type::Int, Type::Bool);
        assert(env@.len() == 1);
        register_builtin_instance(&mut env, "Ord", Type::Float, Type::Float, Type::Bool);
        assert(env@.len() == 1);
        proof {
            assert(env@[0].instances =~= builtin_instances());
            assert(env@[0].bindings == s2.bindings);
            assert(env@[0].types == s2.types);
            assert(env@[0].methods == s2.methods);
            assert(env@[0].typeclasses == s2.typeclasses);
            assert(env@[0] == builtin_scope());
            assert(env@ =~= seq![builtin_scope()]);
        }
        TypeChecker { env }
    }

    /// The printed type of the binding of `name`, if there is one.
    pub fn lookup_type(&self, name: &str) -> (r: Option<String>)
        ensures
            match r {
                Some(s) => scope_lookup(self.scopes(), name@) is Some && s@ == type_text(scope_lookup(self.scopes(), name@)->Some_0.ty),
                None => scope_lookup(self.scopes(), name@) is None,
            },
    {
        match self.env.lookup(name) {
            Some(b) => Some(b.ty.to_string()),
            None => None,
        }
    }

    /// Checks every statement of `module` in order, stopping at the first error.
    pub fn check_module(&mut self, module: &Module) -> (r: Result<(), CompileError>)
        requires
            imports_named(module_v(*module).body),
        ensures
            cr_env(r, final(self).scopes()) == s_check_stmts(old(self).scopes(), module_v(*module).body, 0),
            final(self).scopes() == s_reached_stmts(old(self).scopes(), module_v(*module).body, 0),
    {
        self.check_stmts(&module.body)
    }
}

} // verus!
