//! Lexically scoped environments of the type checker.
//!
//! An environment is a chain of scopes, innermost first. Each scope maps
//! names to bindings, type names to types, typeclass names to typeclasses and
//! (type, method) pairs to method types, and keeps the instances declared in
//! it in declaration order. Within a scope a later definition of a name
//! replaces an earlier one; a lookup takes the innermost scope that has the
//! name.

use vstd::prelude::*;
use crate::text::str_eq;
use crate::types::{InstanceDef, Type, TypeV, TypeclassDef, TypeclassMethodSig, copy_names, names_v, tys_v};

verus! {

#[derive(Debug, Clone)]
pub struct Binding {
    pub ty: Type,
    pub mutable: bool,
}

pub struct BindingV {
    pub ty: TypeV,
    pub mutable: bool,
}

impl View for Binding {
    type V = BindingV;

    open spec fn view(&self) -> BindingV {
        BindingV { ty: self.ty@, mutable: self.mutable }
    }
}

pub struct MethodSigV {
    pub name: Seq<char>,
    pub param_types: Seq<TypeV>,
    pub return_type: TypeV,
}

pub struct TypeclassV {
    pub name: Seq<char>,
    pub type_params: Seq<Seq<char>>,
    pub methods: Seq<MethodSigV>,
}

pub struct InstanceV {
    pub typeclass_name: Seq<char>,
    pub type_args: Seq<TypeV>,
    pub is_builtin: bool,
}

pub open spec fn method_sig_v(m: TypeclassMethodSig) -> MethodSigV {
    MethodSigV { name: m.name@, param_types: tys_v(m.param_types@), return_type: m.return_type@ }
}

impl View for TypeclassDef {
    type V = TypeclassV;

    open spec fn view(&self) -> TypeclassV {
        TypeclassV {
            name: self.name@,
            type_params: names_v(self.type_params@),
            methods: Seq::new(self.methods@.len(), |i: int| method_sig_v(self.methods@[i])),
        }
    }
}

impl View for InstanceDef {
    type V = InstanceV;

    open spec fn view(&self) -> InstanceV {
        InstanceV {
            typeclass_name: self.typeclass_name@,
            type_args: tys_v(self.type_args@),
            is_builtin: self.is_builtin,
        }
    }
}

/// One scope, as a mathematical value.
pub struct ScopeV {
    pub bindings: Map<Seq<char>, BindingV>,
    pub types: Map<Seq<char>, TypeV>,
    pub typeclasses: Map<Seq<char>, TypeclassV>,
    pub instances: Seq<(Seq<char>, InstanceV)>,
    pub methods: Map<(Seq<char>, Seq<char>), TypeV>,
}

pub open spec fn empty_scope() -> ScopeV {
    ScopeV {
        bindings: Map::empty(),
        types: Map::empty(),
        typeclasses: Map::empty(),
        instances: Seq::empty(),
        methods: Map::empty(),
    }
}

// ---------------------------------------------------------------------------
// Association lists: a later entry for a key replaces an earlier one
// ---------------------------------------------------------------------------

pub open spec fn assoc<V: View>(s: Seq<(String, V)>) -> Map<Seq<char>, V::V>
    decreases s.len(),
{
    if s.len() == 0 {
        Map::empty()
    } else {
        assoc(s.drop_last()).insert(s.last().0@, s.last().1@)
    }
}

pub open spec fn assoc2(s: Seq<(String, String, Type)>) -> Map<(Seq<char>, Seq<char>), TypeV>
    decreases s.len(),
{
    if s.len() == 0 {
        Map::empty()
    } else {
        assoc2(s.drop_last()).insert((s.last().0@, s.last().1@), s.last().2@)
    }
}

pub open spec fn pairs_v(s: Seq<(String, InstanceDef)>) -> Seq<(Seq<char>, InstanceV)> {
    Seq::new(s.len(), |i: int| (s[i].0@, s[i].1@))
}

proof fn lemma_assoc_last<V: View>(s: Seq<(String, V)>, i: int, k: Seq<char>)
    requires
        0 <= i < s.len(),
        s[i].0@ == k,
        forall|j: int| i < j < s.len() ==> s[j].0@ != k,
    ensures
        assoc(s).contains_key(k),
        assoc(s)[k] == s[i].1@,
    decreases s.len(),
{
    if i < s.len() - 1 {
        lemma_assoc_last(s.drop_last(), i, k);
    }
}

proof fn lemma_assoc_absent<V: View>(s: Seq<(String, V)>, k: Seq<char>)
    requires
        forall|j: int| 0 <= j < s.len() ==> s[j].0@ != k,
    ensures
        !assoc(s).contains_key(k),
    decreases s.len(),
{
    if s.len() > 0 {
        lemma_assoc_absent(s.drop_last(), k);
    }
}

proof fn lemma_assoc2_last(s: Seq<(String, String, Type)>, i: int, k: (Seq<char>, Seq<char>))
    requires
        0 <= i < s.len(),
        (s[i].0@, s[i].1@) == k,
        forall|j: int| i < j < s.len() ==> (s[j].0@, s[j].1@) != k,
    ensures
        assoc2(s).contains_key(k),
        assoc2(s)[k] == s[i].2@,
    decreases s.len(),
{
    if i < s.len() - 1 {
        lemma_assoc2_last(s.drop_last(), i, k);
    }
}

proof fn lemma_assoc2_absent(s: Seq<(String, String, Type)>, k: (Seq<char>, Seq<char>))
    requires
        forall|j: int| 0 <= j < s.len() ==> (s[j].0@, s[j].1@) != k,
    ensures
        !assoc2(s).contains_key(k),
    decreases s.len(),
{
    if s.len() > 0 {
        lemma_assoc2_absent(s.drop_last(), k);
    }
}

/// The position of the entry that holds `key`'s current value, if any.
fn assoc_find<V: View>(s: &Vec<(String, V)>, key: &String) -> (r: Option<usize>)
    ensures
        match r {
            Some(i) => i < s@.len() && assoc(s@).contains_key(key@) && assoc(s@)[key@] == s@[i as int].1@,
            None => !assoc(s@).contains_key(key@),
        },
{
    let mut i = s.len();
    while i > 0
        invariant
            i <= s@.len(),
            forall|j: int| i <= j < s@.len() ==> s@[j].0@ != key@,
        decreases i,
    {
        i = i - 1;
        if str_eq(&s[i].0, key) {
            proof {
                lemma_assoc_last(s@, i as int, key@);
            }
            return Some(i);
        }
    }
    proof {
        lemma_assoc_absent(s@, key@);
    }
    None
}

/// The position of the entry that holds the current type of method `m` of `t`.
fn method_find(s: &Vec<(String, String, Type)>, t: &String, m: &String) -> (r: Option<usize>)
    ensures
        match r {
            Some(i) => i < s@.len() && assoc2(s@).contains_key((t@, m@)) && assoc2(s@)[(t@, m@)] == s@[i as int].2@,
            None => !assoc2(s@).contains_key((t@, m@)),
        },
{
    let mut i = s.len();
    while i > 0
        invariant
            i <= s@.len(),
            forall|j: int| i <= j < s@.len() ==> (s@[j].0@, s@[j].1@) != (t@, m@),
        decreases i,
    {
        i = i - 1;
        if str_eq(&s[i].0, t) && str_eq(&s[i].1, m) {
            proof {
                lemma_assoc2_last(s@, i as int, (t@, m@));
            }
            return Some(i);
        }
    }
    proof {
        lemma_assoc2_absent(s@, (t@, m@));
    }
    None
}

// ---------------------------------------------------------------------------
// Lookups through the chain of scopes
// ---------------------------------------------------------------------------

pub open spec fn scope_lookup(fs: Seq<ScopeV>, name: Seq<char>) -> Option<BindingV>
    decreases fs.len(),
{
    if fs.len() == 0 {
        None
    } else if fs[0].bindings.contains_key(name) {
        Some(fs[0].bindings[name])
    } else {
        scope_lookup(fs.drop_first(), name)
    }
}

pub open spec fn scope_lookup_type(fs: Seq<ScopeV>, name: Seq<char>) -> Option<TypeV>
    decreases fs.len(),
{
    if fs.len() == 0 {
        None
    } else if fs[0].types.contains_key(name) {
        Some(fs[0].types[name])
    } else {
        scope_lookup_type(fs.drop_first(), name)
    }
}

pub open spec fn scope_lookup_typeclass(fs: Seq<ScopeV>, name: Seq<char>) -> Option<TypeclassV>
    decreases fs.len(),
{
    if fs.len() == 0 {
        None
    } else if fs[0].typeclasses.contains_key(name) {
        Some(fs[0].typeclasses[name])
    } else {
        scope_lookup_typeclass(fs.drop_first(), name)
    }
}

pub open spec fn scope_lookup_method(fs: Seq<ScopeV>, ty: Seq<char>, m: Seq<char>) -> Option<TypeV>
    decreases fs.len(),
{
    if fs.len() == 0 {
        None
    } else if fs[0].methods.contains_key((ty, m)) {
        Some(fs[0].methods[(ty, m)])
    } else {
        scope_lookup_method(fs.drop_first(), ty, m)
    }
}

/// An instance of `tc` whose type arguments are exactly `args`.
pub open spec fn inst_matches(e: (Seq<char>, InstanceV), tc: Seq<char>, args: Seq<TypeV>) -> bool {
    e.0 == tc && e.1.type_args == args
}

/// An instance of `tc` whose type arguments begin with `prefix`.
pub open spec fn inst_matches_prefix(e: (Seq<char>, InstanceV), tc: Seq<char>, prefix: Seq<TypeV>) -> bool {
    e.0 == tc && e.1.type_args.len() >= prefix.len() && e.1.type_args.take(prefix.len() as int) == prefix
}

/// The first of `insts` that `matches` accepts, in declaration order.
pub open spec fn first_inst(insts: Seq<(Seq<char>, InstanceV)>, tc: Seq<char>, args: Seq<TypeV>, by_prefix: bool) -> Option<InstanceV>
    decreases insts.len(),
{
    if insts.len() == 0 {
        None
    } else if (if by_prefix { inst_matches_prefix(insts[0], tc, args) } else { inst_matches(insts[0], tc, args) }) {
        Some(insts[0].1)
    } else {
        first_inst(insts.drop_first(), tc, args, by_prefix)
    }
}

pub open spec fn scope_lookup_instance(fs: Seq<ScopeV>, tc: Seq<char>, args: Seq<TypeV>, by_prefix: bool) -> Option<InstanceV>
    decreases fs.len(),
{
    if fs.len() == 0 {
        None
    } else if first_inst(fs[0].instances, tc, args, by_prefix) is Some {
        first_inst(fs[0].instances, tc, args, by_prefix)
    } else {
        scope_lookup_instance(fs.drop_first(), tc, args, by_prefix)
    }
}

proof fn lemma_first_inst_split(
    insts: Seq<(Seq<char>, InstanceV)>,
    i: int,
    tc: Seq<char>,
    args: Seq<TypeV>,
    by_prefix: bool,
)
    requires
        0 <= i <= insts.len(),
        first_inst(insts.take(i), tc, args, by_prefix) is None,
    ensures
        first_inst(insts, tc, args, by_prefix) == first_inst(insts.skip(i), tc, args, by_prefix),
    decreases i,
{
    if i > 0 {
        assert(insts.take(i)[0] == insts[0]);
        assert(insts.take(i).drop_first() =~= insts.drop_first().take(i - 1));
        lemma_first_inst_split(insts.drop_first(), i - 1, tc, args, by_prefix);
        assert(insts.drop_first().skip(i - 1) =~= insts.skip(i));
    } else {
        assert(insts.skip(0) =~= insts);
    }
}

pub open spec fn opt_binding_v(r: Option<&Binding>) -> Option<BindingV> {
    match r {
        Some(b) => Some(b@),
        None => None,
    }
}

pub open spec fn opt_type_v(r: Option<&Type>) -> Option<TypeV> {
    match r {
        Some(t) => Some(t@),
        None => None,
    }
}

pub open spec fn opt_typeclass_v(r: Option<&TypeclassDef>) -> Option<TypeclassV> {
    match r {
        Some(t) => Some(t@),
        None => None,
    }
}

pub open spec fn opt_instance_v(r: Option<&InstanceDef>) -> Option<InstanceV> {
    match r {
        Some(t) => Some(t@),
        None => None,
    }
}

// ---------------------------------------------------------------------------
// The environment
// ---------------------------------------------------------------------------

#[derive(Debug)]
pub struct Environment {
    bindings: Vec<(String, Binding)>,
    type_defs: Vec<(String, Type)>,
    typeclasses: Vec<(String, TypeclassDef)>,
    instances: Vec<(String, InstanceDef)>,
    methods: Vec<(String, String, Type)>,
    parent: Option<Box<Environment>>,
}

proof fn lemma_assoc_eq<V: View>(a: Seq<(String, V)>, b: Seq<(String, V)>)
    requires
        a.len() == b.len(),
        forall|i: int| 0 <= i < a.len() ==> (#[trigger] a[i]).0@ == b[i].0@ && a[i].1@ == b[i].1@,
    ensures
        assoc(a) == assoc(b),
    decreases a.len(),
{
    if a.len() > 0 {
        assert forall|i: int| 0 <= i < a.drop_last().len() implies (#[trigger] a.drop_last()[i]).0@ == b.drop_last()[i].0@
            && a.drop_last()[i].1@ == b.drop_last()[i].1@ by {
            assert(a.drop_last()[i] == a[i] && b.drop_last()[i] == b[i]);
        }
        lemma_assoc_eq(a.drop_last(), b.drop_last());
        assert(a.last() == a[a.len() - 1]);
    }
}

proof fn lemma_assoc2_eq(a: Seq<(String, String, Type)>, b: Seq<(String, String, Type)>)
    requires
        a.len() == b.len(),
        forall|i: int| 0 <= i < a.len() ==> (#[trigger] a[i]).0@ == b[i].0@ && a[i].1@ == b[i].1@ && a[i].2@ == b[i].2@,
    ensures
        assoc2(a) == assoc2(b),
    decreases a.len(),
{
    if a.len() > 0 {
        assert forall|i: int| 0 <= i < a.drop_last().len() implies (#[trigger] a.drop_last()[i]).0@ == b.drop_last()[i].0@
            && a.drop_last()[i].1@ == b.drop_last()[i].1@ && a.drop_last()[i].2@ == b.drop_last()[i].2@ by {
            assert(a.drop_last()[i] == a[i] && b.drop_last()[i] == b[i]);
        }
        lemma_assoc2_eq(a.drop_last(), b.drop_last());
        assert(a.last() == a[a.len() - 1]);
    }
}

fn copy_types(v: &Vec<Type>) -> (r: Vec<Type>)
    ensures
        tys_v(r@) == tys_v(v@),
{
    let mut out: Vec<Type> = Vec::new();
    let mut k: usize = 0;
    while k < v.len()
        invariant
            k <= v.len(),
            out@.len() == k,
            forall|j: int| 0 <= j < k ==> (#[trigger] out@[j])@ == v@[j]@,
        decreases v.len() - k,
    {
        out.push(v[k].clone());
        k = k + 1;
    }
    assert(tys_v(out@) =~= tys_v(v@));
    out
}

fn copy_typeclass(d: &TypeclassDef) -> (r: TypeclassDef)
    ensures
        r@ == d@,
{
    let mut methods: Vec<TypeclassMethodSig> = Vec::new();
    let mut k: usize = 0;
    while k < d.methods.len()
        invariant
            k <= d.methods.len(),
            methods@.len() == k,
            forall|j: int| 0 <= j < k ==> method_sig_v(#[trigger] methods@[j]) == method_sig_v(d.methods@[j]),
        decreases d.methods.len() - k,
    {
        let m = &d.methods[k];
        methods.push(TypeclassMethodSig { name: m.name.clone(), param_types: copy_types(&m.param_types), return_type: m.return_type.clone() });
        k = k + 1;
    }
    let r = TypeclassDef { name: d.name.clone(), type_params: copy_names(&d.type_params), methods };
    assert(r@.methods =~= d@.methods);
    r
}

/// A copy of an environment, scope by scope.
fn copy_env(e: &Environment) -> (r: Environment)
    ensures
        scopes(r) == scopes(*e),
    decreases e,
{
    let parent = match &e.parent {
        Some(p) => Some(Box::new(copy_env(p))),
        None => None,
    };
    let mut bindings: Vec<(String, Binding)> = Vec::new();
    let mut k: usize = 0;
    while k < e.bindings.len()
        invariant
            k <= e.bindings.len(),
            bindings@.len() == k,
            forall|j: int| 0 <= j < k ==> (#[trigger] bindings@[j]).0@ == e.bindings@[j].0@ && bindings@[j].1@ == e.bindings@[j].1@,
        decreases e.bindings.len() - k,
    {
        let b = &e.bindings[k];
        bindings.push((b.0.clone(), Binding { ty: b.1.ty.clone(), mutable: b.1.mutable }));
        k = k + 1;
    }
    let mut type_defs: Vec<(String, Type)> = Vec::new();
    let mut k: usize = 0;
    while k < e.type_defs.len()
        invariant
            k <= e.type_defs.len(),
            type_defs@.len() == k,
            forall|j: int| 0 <= j < k ==> (#[trigger] type_defs@[j]).0@ == e.type_defs@[j].0@ && type_defs@[j].1@ == e.type_defs@[j].1@,
        decreases e.type_defs.len() - k,
    {
        let t = &e.type_defs[k];
        type_defs.push((t.0.clone(), t.1.clone()));
        k = k + 1;
    }
    let mut typeclasses: Vec<(String, TypeclassDef)> = Vec::new();
    let mut k: usize = 0;
    while k < e.typeclasses.len()
        invariant
            k <= e.typeclasses.len(),
            typeclasses@.len() == k,
            forall|j: int| 0 <= j < k ==> (#[trigger] typeclasses@[j]).0@ == e.typeclasses@[j].0@ && typeclasses@[j].1@ == e.typeclasses@[j].1@,
        decreases e.typeclasses.len() - k,
    {
        let t = &e.typeclasses[k];
        typeclasses.push((t.0.clone(), copy_typeclass(&t.1)));
        k = k + 1;
    }
    let mut instances: Vec<(String, InstanceDef)> = Vec::new();
    let mut k: usize = 0;
    while k < e.instances.len()
        invariant
            k <= e.instances.len(),
            instances@.len() == k,
            forall|j: int| 0 <= j < k ==> (#[trigger] instances@[j]).0@ == e.instances@[j].0@ && instances@[j].1@ == e.instances@[j].1@,
        decreases e.instances.len() - k,
    {
        let t = &e.instances[k];
        instances.push((t.0.clone(), InstanceDef {
            typeclass_name: t.1.typeclass_name.clone(),
            type_args: copy_types(&t.1.type_args),
            is_builtin: t.1.is_builtin,
        }));
        k = k + 1;
    }
    let mut methods: Vec<(String, String, Type)> = Vec::new();
    let mut k: usize = 0;
    while k < e.methods.len()
        invariant
            k <= e.methods.len(),
            methods@.len() == k,
            forall|j: int| 0 <= j < k ==> (#[trigger] methods@[j]).0@ == e.methods@[j].0@ && methods@[j].1@ == e.methods@[j].1@
                && methods@[j].2@ == e.methods@[j].2@,
        decreases e.methods.len() - k,
    {
        let t = &e.methods[k];
        methods.push((t.0.clone(), t.1.clone(), t.2.clone()));
        k = k + 1;
    }
    let r = Environment { bindings, type_defs, typeclasses, instances, methods, parent };
    proof {
        lemma_assoc_eq(r.bindings@, e.bindings@);
        lemma_assoc_eq(r.type_defs@, e.type_defs@);
        lemma_assoc_eq(r.typeclasses@, e.typeclasses@);
        lemma_assoc2_eq(r.methods@, e.methods@);
        assert(pairs_v(r.instances@) =~= pairs_v(e.instances@));
        assert(own_scope(r) == own_scope(*e));
    }
    r
}

impl Clone for Environment {
    /// A copy of the environment, scope by scope, with the same view.
    fn clone(&self) -> (r: Environment)
        ensures
            r@ == self@,
    {
        copy_env(self)
    }
}

pub closed spec fn own_scope(e: Environment) -> ScopeV {
    ScopeV {
        bindings: assoc(e.bindings@),
        types: assoc(e.type_defs@),
        typeclasses: assoc(e.typeclasses@),
        instances: pairs_v(e.instances@),
        methods: assoc2(e.methods@),
    }
}

pub closed spec fn scopes(e: Environment) -> Seq<ScopeV>
    decreases e,
{
    match e.parent {
        Some(p) => seq![own_scope(e)] + scopes(*p),
        None => seq![own_scope(e)],
    }
}

impl View for Environment {
    type V = Seq<ScopeV>;

    open spec fn view(&self) -> Seq<ScopeV> {
        scopes(*self)
    }
}

pub proof fn lemma_scopes_nonempty(e: Environment)
    ensures
        scopes(e).len() >= 1,
        scopes(e)[0] == own_scope(e),
{
}

impl Environment {
    /// An environment of one empty scope.
    pub fn new() -> (env: Environment)
        ensures
            env@ == seq![empty_scope()],
    {
        let env = Environment {
            bindings: Vec::new(),
            type_defs: Vec::new(),
            typeclasses: Vec::new(),
            instances: Vec::new(),
            methods: Vec::new(),
            parent: None,
        };
        proof {
            assert(pairs_v(env.instances@) =~= Seq::empty());
            assert(own_scope(env) == empty_scope());
        }
        env
    }

    /// A new empty scope inside `parent`.
    pub fn child(parent: Environment) -> (env: Environment)
        ensures
            env@ == seq![empty_scope()] + parent@,
    {
        let env = Environment {
            bindings: Vec::new(),
            type_defs: Vec::new(),
            typeclasses: Vec::new(),
            instances: Vec::new(),
            methods: Vec::new(),
            parent: Some(Box::new(parent)),
        };
        proof {
            assert(pairs_v(env.instances@) =~= Seq::empty());
            assert(own_scope(env) == empty_scope());
        }
        env
    }

    /// Binds `name` in the innermost scope.
    pub fn define(&mut self, name: String, ty: Type, mutable: bool)
        ensures
            final(self)@ == old(self)@.update(0, ScopeV {
                bindings: old(self)@[0].bindings.insert(name@, BindingV { ty: ty@, mutable }),
                ..old(self)@[0]
            }),
    {
        self.bindings.push((name, Binding { ty, mutable }));
        proof {
            assert(self.bindings@.drop_last() =~= old(self).bindings@);
            assert(scopes(*self) =~= scopes(*old(self)).update(0, own_scope(*self)));
        }
    }

    /// The binding of `name` in the innermost scope that has one.
    pub fn lookup(&self, name: &str) -> (r: Option<&Binding>)
        ensures
            opt_binding_v(r) == scope_lookup(self@, name@),
        decreases self,
    {
        proof {
            lemma_scopes_nonempty(*self);
            reveal_with_fuel(scope_lookup, 2);
        }
        let key = name.to_owned();
        match assoc_find(&self.bindings, &key) {
            Some(i) => {
                Some(&self.bindings[i].1)
            },
            None => match &self.parent {
                Some(p) => {
                    proof {
                        assert(scopes(*self).drop_first() =~= scopes(**p));
                    }
                    (**p).lookup(name)
                },
                None => None,
            },
        }
    }

    /// Names the type `name` in the innermost scope.
    pub fn define_type(&mut self, name: String, ty: Type)
        ensures
            final(self)@ == old(self)@.update(0, ScopeV {
                types: old(self)@[0].types.insert(name@, ty@),
                ..old(self)@[0]
            }),
    {
        self.type_defs.push((name, ty));
        proof {
            assert(self.type_defs@.drop_last() =~= old(self).type_defs@);
            assert(scopes(*self) =~= scopes(*old(self)).update(0, own_scope(*self)));
        }
    }

    /// The type named `name` in the innermost scope that has one.
    pub fn lookup_type(&self, name: &str) -> (r: Option<&Type>)
        ensures
            opt_type_v(r) == scope_lookup_type(self@, name@),
        decreases self,
    {
        proof {
            lemma_scopes_nonempty(*self);
            reveal_with_fuel(scope_lookup_type, 2);
        }
        let key = name.to_owned();
        match assoc_find(&self.type_defs, &key) {
            Some(i) => Some(&self.type_defs[i].1),
            None => match &self.parent {
                Some(p) => {
                    proof {
                        assert(scopes(*self).drop_first() =~= scopes(**p));
                    }
                    (**p).lookup_type(name)
                },
                None => None,
            },
        }
    }

    /// Declares the typeclass `name` in the innermost scope.
    pub fn define_typeclass(&mut self, name: String, def: TypeclassDef)
        ensures
            final(self)@ == old(self)@.update(0, ScopeV {
                typeclasses: old(self)@[0].typeclasses.insert(name@, def@),
                ..old(self)@[0]
            }),
    {
        self.typeclasses.push((name, def));
        proof {
            assert(self.typeclasses@.drop_last() =~= old(self).typeclasses@);
            assert(scopes(*self) =~= scopes(*old(self)).update(0, own_scope(*self)));
        }
    }

    /// The typeclass named `name` in the innermost scope that has one.
    pub fn lookup_typeclass(&self, name: &str) -> (r: Option<&TypeclassDef>)
        ensures
            opt_typeclass_v(r) == scope_lookup_typeclass(self@, name@),
        decreases self,
    {
        proof {
            lemma_scopes_nonempty(*self);
            reveal_with_fuel(scope_lookup_typeclass, 2);
        }
        let key = name.to_owned();
        match assoc_find(&self.typeclasses, &key) {
            Some(i) => Some(&self.typeclasses[i].1),
            None => match &self.parent {
                Some(p) => {
                    proof {
                        assert(scopes(*self).drop_first() =~= scopes(**p));
                    }
                    (**p).lookup_typeclass(name)
                },
                None => None,
            },
        }
    }

    /// Adds an instance of `typeclass` to the innermost scope, after those
    /// declared there before.
    pub fn define_instance(&mut self, typeclass: String, def: InstanceDef)
        ensures
            final(self)@ == old(self)@.update(0, ScopeV {
                instances: old(self)@[0].instances.push((typeclass@, def@)),
                ..old(self)@[0]
            }),
    {
        self.instances.push((typeclass, def));
        proof {
            assert(pairs_v(self.instances@) =~= pairs_v(old(self).instances@).push(
                (self.instances@.last().0@, self.instances@.last().1@),
            ));
            assert(scopes(*self) =~= scopes(*old(self)).update(0, own_scope(*self)));
        }
    }

    /// The first instance in the innermost scope's declaration order whose
    /// typeclass is `tc` and whose type arguments pass `by_prefix`'s test.
    fn find_instance(&self, tc: &String, args: &[Type], by_prefix: bool) -> (r: Option<usize>)
        ensures
            match r {
                Some(i) => i < self.instances@.len()
                    && first_inst(pairs_v(self.instances@), tc@, tys_v(args@), by_prefix)
                        == Some(self.instances@[i as int].1@),
                None => first_inst(pairs_v(self.instances@), tc@, tys_v(args@), by_prefix) is None,
            },
    {
        let ghost insts = pairs_v(self.instances@);
        let mut i: usize = 0;
        while i < self.instances.len()
            invariant
                i <= self.instances@.len(),
                insts == pairs_v(self.instances@),
                first_inst(insts.take(i as int), tc@, tys_v(args@), by_prefix) is None,
            decreases self.instances@.len() - i,
        {
            let inst = &self.instances[i];
            let mut ok = str_eq(&inst.0, tc);
            if ok {
                ok = args_match(&inst.1.type_args, args, by_prefix);
            }
            proof {
                let e = insts[i as int];
                assert(e == (inst.0@, inst.1@));
                assert(ok == (if by_prefix { inst_matches_prefix(e, tc@, tys_v(args@)) } else {
                    inst_matches(e, tc@, tys_v(args@))
                }));
                lemma_first_inst_split(insts, i as int, tc@, tys_v(args@), by_prefix);
                assert(insts.skip(i as int)[0] == e);
                assert(insts.take(i as int + 1) =~= insts.take(i as int).push(e));
                lemma_first_inst_push_none(insts.take(i as int), e, tc@, tys_v(args@), by_prefix);
                reveal_with_fuel(first_inst, 2);
            }
            if ok {
                return Some(i);
            }
            i = i + 1;
        }
        proof {
            assert(insts.take(i as int) =~= insts);
        }
        None
    }

    /// The first instance of `typeclass` with exactly these type arguments,
    /// in the innermost scope that has one.
    pub fn lookup_instance(&self, typeclass: &str, type_args: &[Type]) -> (r: Option<&InstanceDef>)
        ensures
            opt_instance_v(r) == scope_lookup_instance(self@, typeclass@, tys_v(type_args@), false),
        decreases self,
    {
        proof {
            lemma_scopes_nonempty(*self);
            reveal_with_fuel(scope_lookup_instance, 2);
        }
        let key = typeclass.to_owned();
        match self.find_instance(&key, type_args, false) {
            Some(i) => Some(&self.instances[i].1),
            None => match &self.parent {
                Some(p) => {
                    proof {
                        assert(scopes(*self).drop_first() =~= scopes(**p));
                    }
                    (**p).lookup_instance(typeclass, type_args)
                },
                None => None,
            },
        }
    }

    /// The first instance of `typeclass` whose type arguments begin with
    /// `prefix`, in the innermost scope that has one.
    pub fn lookup_instance_by_prefix(&self, typeclass: &str, prefix: &[Type]) -> (r: Option<&InstanceDef>)
        ensures
            opt_instance_v(r) == scope_lookup_instance(self@, typeclass@, tys_v(prefix@), true),
        decreases self,
    {
        proof {
            lemma_scopes_nonempty(*self);
            reveal_with_fuel(scope_lookup_instance, 2);
        }
        let key = typeclass.to_owned();
        match self.find_instance(&key, prefix, true) {
            Some(i) => Some(&self.instances[i].1),
            None => match &self.parent {
                Some(p) => {
                    proof {
                        assert(scopes(*self).drop_first() =~= scopes(**p));
                    }
                    (**p).lookup_instance_by_prefix(typeclass, prefix)
                },
                None => None,
            },
        }
    }

    /// Records the type of method `method_name` of type `ty_name` in the
    /// innermost scope.
    pub fn define_method(&mut self, ty_name: String, method_name: String, ty: Type)
        ensures
            final(self)@ == old(self)@.update(0, ScopeV {
                methods: old(self)@[0].methods.insert((ty_name@, method_name@), ty@),
                ..old(self)@[0]
            }),
    {
        self.methods.push((ty_name, method_name, ty));
        proof {
            assert(self.methods@.drop_last() =~= old(self).methods@);
            assert(scopes(*self) =~= scopes(*old(self)).update(0, own_scope(*self)));
        }
    }

    /// The type of method `method_name` of `ty_name`, in the innermost
    /// scope that has one.
    pub fn lookup_method(&self, ty_name: &str, method_name: &str) -> (r: Option<&Type>)
        ensures
            opt_type_v(r) == scope_lookup_method(self@, ty_name@, method_name@),
        decreases self,
    {
        proof {
            lemma_scopes_nonempty(*self);
            reveal_with_fuel(scope_lookup_method, 2);
        }
        let tn = ty_name.to_owned();
        let mn = method_name.to_owned();
        match method_find(&self.methods, &tn, &mn) {
            Some(i) => {
                return Some(&self.methods[i].2);
            },
            None => {},
        }
        match &self.parent {
            Some(p) => {
                proof {
                    assert(scopes(*self).drop_first() =~= scopes(**p));
                }
                (**p).lookup_method(ty_name, method_name)
            },
            None => None,
        }
    }

    /// The enclosing environment, leaving the innermost scope.
    pub fn into_parent(self) -> (r: Option<Environment>)
        ensures
            match r {
                Some(p) => self@.len() > 1 && p@ == self@.drop_first(),
                None => self@.len() == 1,
            },
    {
        match self.parent {
            Some(p) => {
                proof {
                    assert(scopes(self).drop_first() =~= scopes(*p));
                }
                Some(*p)
            },
            None => None,
        }
    }
}

proof fn lemma_first_inst_push_none(
    s: Seq<(Seq<char>, InstanceV)>,
    e: (Seq<char>, InstanceV),
    tc: Seq<char>,
    args: Seq<TypeV>,
    by_prefix: bool,
)
    requires
        first_inst(s, tc, args, by_prefix) is None,
    ensures
        first_inst(s.push(e), tc, args, by_prefix) == first_inst(seq![e], tc, args, by_prefix),
    decreases s.len(),
{
    if s.len() > 0 {
        assert(s.push(e).drop_first() =~= s.drop_first().push(e));
        lemma_first_inst_push_none(s.drop_first(), e, tc, args, by_prefix);
    } else {
        assert(s.push(e) =~= seq![e]);
    }
}

/// Whether the type arguments `have` equal `want` (`by_prefix`: begin with
/// `want`).
fn args_match(have: &Vec<Type>, want: &[Type], by_prefix: bool) -> (r: bool)
    ensures
        r == if by_prefix {
            tys_v(have@).len() >= tys_v(want@).len() && tys_v(have@).take(want@.len() as int) == tys_v(want@)
        } else {
            tys_v(have@) == tys_v(want@)
        },
{
    if by_prefix {
        if have.len() < want.len() {
            return false;
        }
    } else if have.len() != want.len() {
        proof {
            assert(tys_v(have@).len() != tys_v(want@).len());
        }
        return false;
    }
    let mut i: usize = 0;
    while i < want.len()
        invariant
            i <= want@.len(),
            want@.len() <= have@.len(),
            !by_prefix ==> want@.len() == have@.len(),
            forall|j: int| 0 <= j < i ==> (#[trigger] have@[j])@ == want@[j]@,
        decreases want@.len() - i,
    {
        if !have[i].equals(&want[i]) {
            proof {
                assert(tys_v(have@)[i as int] != tys_v(want@)[i as int]);
                assert(tys_v(have@).take(want@.len() as int)[i as int] == tys_v(have@)[i as int]);
            }
            return false;
        }
        i = i + 1;
    }
    assert(tys_v(have@).take(want@.len() as int) =~= tys_v(want@));
    proof {
        if !by_prefix {
            assert(tys_v(have@) =~= tys_v(want@));
        }
    }
    true
}

// ---------------------------------------------------------------------------
// Laws
// ---------------------------------------------------------------------------

/// The innermost scope of `fs` with `name` bound to `b`: what `define` makes.
pub open spec fn with_binding(fs: Seq<ScopeV>, name: Seq<char>, b: BindingV) -> Seq<ScopeV> {
    fs.update(0, ScopeV { bindings: fs[0].bindings.insert(name, b), ..fs[0] })
}

/// After `define`, looking the name up gives the binding just made, whatever
/// the enclosing scopes hold.
pub proof fn law_lookup_after_define(fs: Seq<ScopeV>, name: Seq<char>, b: BindingV)
    requires
        fs.len() >= 1,
    ensures
        scope_lookup(with_binding(fs, name, b), name) == Some(b),
{
}

/// `define` leaves the lookup of every other name as it was.
pub proof fn law_define_keeps_others(fs: Seq<ScopeV>, name: Seq<char>, b: BindingV, other: Seq<char>)
    requires
        fs.len() >= 1,
        other != name,
    ensures
        scope_lookup(with_binding(fs, name, b), other) == scope_lookup(fs, other),
{
    assert(with_binding(fs, name, b).drop_first() =~= fs.drop_first());
}

/// A new child scope sees exactly what its parent sees.
pub proof fn law_child_sees_parent(fs: Seq<ScopeV>, name: Seq<char>)
    ensures
        scope_lookup(seq![empty_scope()] + fs, name) == scope_lookup(fs, name),
        scope_lookup_type(seq![empty_scope()] + fs, name) == scope_lookup_type(fs, name),
        scope_lookup_typeclass(seq![empty_scope()] + fs, name) == scope_lookup_typeclass(fs, name),
{
    assert((seq![empty_scope()] + fs).drop_first() =~= fs);
}

/// A definition in a child scope shadows the parent's, and leaving the child
/// gives the parent back unchanged.
pub proof fn law_child_shadows_and_leaves(fs: Seq<ScopeV>, name: Seq<char>, b: BindingV)
    ensures
        scope_lookup(with_binding(seq![empty_scope()] + fs, name, b), name) == Some(b),
        with_binding(seq![empty_scope()] + fs, name, b).drop_first() == fs,
{
    assert(with_binding(seq![empty_scope()] + fs, name, b).drop_first() =~= fs);
}

/// After `define_type`, looking the type name up gives the type just named.
pub proof fn law_lookup_type_after_define(fs: Seq<ScopeV>, name: Seq<char>, t: TypeV)
    requires
        fs.len() >= 1,
    ensures
        scope_lookup_type(fs.update(0, ScopeV { types: fs[0].types.insert(name, t), ..fs[0] }), name) == Some(t),
{
}

/// After `define_typeclass`, looking the typeclass up gives it.
pub proof fn law_lookup_typeclass_after_define(fs: Seq<ScopeV>, name: Seq<char>, c: TypeclassV)
    requires
        fs.len() >= 1,
    ensures
        scope_lookup_typeclass(
            fs.update(0, ScopeV { typeclasses: fs[0].typeclasses.insert(name, c), ..fs[0] }),
            name,
        ) == Some(c),
{
}

/// After `define_method`, looking the method up gives its type.
pub proof fn law_lookup_method_after_define(fs: Seq<ScopeV>, ty: Seq<char>, m: Seq<char>, t: TypeV)
    requires
        fs.len() >= 1,
    ensures
        scope_lookup_method(fs.update(0, ScopeV { methods: fs[0].methods.insert((ty, m), t), ..fs[0] }), ty, m)
            == Some(t),
{
}

/// After `define_instance`, an instance with those type arguments is found,
/// and it is the new one when no instance of the innermost scope matched
/// before.
pub proof fn law_lookup_instance_after_define(fs: Seq<ScopeV>, tc: Seq<char>, inst: InstanceV)
    requires
        fs.len() >= 1,
    ensures
        ({
            let after = fs.update(0, ScopeV { instances: fs[0].instances.push((tc, inst)), ..fs[0] });
            &&& scope_lookup_instance(after, tc, inst.type_args, false) is Some
            &&& first_inst(fs[0].instances, tc, inst.type_args, false) is None
                ==> scope_lookup_instance(after, tc, inst.type_args, false) == Some(inst)
        }),
{
    let after = fs.update(0, ScopeV { instances: fs[0].instances.push((tc, inst)), ..fs[0] });
    lemma_first_inst_found(fs[0].instances.push((tc, inst)), fs[0].instances.len() as int, tc, inst.type_args);
    if first_inst(fs[0].instances, tc, inst.type_args, false) is None {
        lemma_first_inst_push_none(fs[0].instances, (tc, inst), tc, inst.type_args, false);
        reveal_with_fuel(first_inst, 2);
    }
}

proof fn lemma_first_inst_found(s: Seq<(Seq<char>, InstanceV)>, i: int, tc: Seq<char>, args: Seq<TypeV>)
    requires
        0 <= i < s.len(),
        inst_matches(s[i], tc, args),
    ensures
        first_inst(s, tc, args, false) is Some,
    decreases i,
{
    if i > 0 && !inst_matches(s[0], tc, args) {
        lemma_first_inst_found(s.drop_first(), i - 1, tc, args);
    }
}


/// One definition made in the innermost scope: what `define`, `define_type`,
/// `define_typeclass`, `define_instance` and `define_method` do.
pub enum ScopeDef {
    Bind(Seq<char>, BindingV),
    TypeName(Seq<char>, TypeV),
    Typeclass(Seq<char>, TypeclassV),
    Instance(Seq<char>, InstanceV),
    Method(Seq<char>, Seq<char>, TypeV),
}

/// The scopes after definition `d`.
pub open spec fn apply_def(fs: Seq<ScopeV>, d: ScopeDef) -> Seq<ScopeV> {
    match d {
        ScopeDef::Bind(n, b) => fs.update(0, ScopeV { bindings: fs[0].bindings.insert(n, b), ..fs[0] }),
        ScopeDef::TypeName(n, t) => fs.update(0, ScopeV { types: fs[0].types.insert(n, t), ..fs[0] }),
        ScopeDef::Typeclass(n, c) => fs.update(0, ScopeV { typeclasses: fs[0].typeclasses.insert(n, c), ..fs[0] }),
        ScopeDef::Instance(tc, i) => fs.update(0, ScopeV { instances: fs[0].instances.push((tc, i)), ..fs[0] }),
        ScopeDef::Method(ty, m, t) => fs.update(0, ScopeV { methods: fs[0].methods.insert((ty, m), t), ..fs[0] }),
    }
}

/// The scopes after the definitions `ds`, in order.
pub open spec fn apply_defs(fs: Seq<ScopeV>, ds: Seq<ScopeDef>) -> Seq<ScopeV>
    decreases ds.len(),
{
    if ds.len() == 0 {
        fs
    } else {
        apply_def(apply_defs(fs, ds.drop_last()), ds.last())
    }
}

/// Entering a child scope, making any definitions in it and leaving it gives
/// back the parent's scopes unchanged; there is a parent to go back to
/// exactly when the scopes entered from were not empty.
pub proof fn law_leave_child_after_defs(fs: Seq<ScopeV>, ds: Seq<ScopeDef>)
    ensures
        apply_defs(seq![empty_scope()] + fs, ds).len() == fs.len() + 1,
        apply_defs(seq![empty_scope()] + fs, ds).drop_first() == fs,
    decreases ds.len(),
{
    if ds.len() == 0 {
        assert((seq![empty_scope()] + fs).drop_first() =~= fs);
    } else {
        law_leave_child_after_defs(fs, ds.drop_last());
        let before = apply_defs(seq![empty_scope()] + fs, ds.drop_last());
        assert(apply_def(before, ds.last()).drop_first() =~= before.drop_first());
    }
}

/// Whether the instance at `(i, j)` (scope `i`, `j`-th of that scope) matches.
pub open spec fn inst_at_matches(fs: Seq<ScopeV>, i: int, j: int, tc: Seq<char>, args: Seq<TypeV>) -> bool {
    0 <= i < fs.len() && 0 <= j < fs[i].instances.len() && inst_matches(fs[i].instances[j], tc, args)
}

proof fn lemma_first_inst_exact(s: Seq<(Seq<char>, InstanceV)>, tc: Seq<char>, args: Seq<TypeV>)
    ensures
        first_inst(s, tc, args, false) is Some <==> exists|j: int| 0 <= j < s.len() && inst_matches(#[trigger] s[j], tc, args),
        first_inst(s, tc, args, false) matches Some(x) ==> exists|j: int|
            0 <= j < s.len() && #[trigger] s[j].1 == x && inst_matches(s[j], tc, args) && forall|k: int|
                0 <= k < j ==> !inst_matches(#[trigger] s[k], tc, args),
    decreases s.len(),
{
    if s.len() > 0 {
        lemma_first_inst_exact(s.drop_first(), tc, args);
        let t = s.drop_first();
        if inst_matches(s[0], tc, args) {
            assert(s[0].1 == s[0].1);
        } else {
            if exists|j: int| 0 <= j < s.len() && inst_matches(#[trigger] s[j], tc, args) {
                let j = choose|j: int| 0 <= j < s.len() && inst_matches(#[trigger] s[j], tc, args);
                assert(t[j - 1] == s[j]);
            }
            if exists|j: int| 0 <= j < t.len() && inst_matches(#[trigger] t[j], tc, args) {
                let j = choose|j: int| 0 <= j < t.len() && inst_matches(#[trigger] t[j], tc, args);
                assert(s[j + 1] == t[j]);
            }
            if first_inst(t, tc, args, false) is Some {
                let x = first_inst(t, tc, args, false)->Some_0;
                let j = choose|j: int|
                    0 <= j < t.len() && #[trigger] t[j].1 == x && inst_matches(t[j], tc, args) && forall|k: int|
                        0 <= k < j ==> !inst_matches(#[trigger] t[k], tc, args);
                assert(s[j + 1] == t[j]);
                assert forall|k: int| 0 <= k < j + 1 implies !inst_matches(#[trigger] s[k], tc, args) by {
                    if k > 0 {
                        assert(s[k] == t[k - 1]);
                    }
                }
            }
        }
    }
}

/// `lookup_instance` finds an instance exactly when some scope holds one of
/// that typeclass with those type arguments; what it finds is then the first
/// such instance, in declaration order, of the innermost scope holding one.
pub proof fn law_lookup_instance_exact(fs: Seq<ScopeV>, tc: Seq<char>, args: Seq<TypeV>)
    ensures
        scope_lookup_instance(fs, tc, args, false) is Some <==> exists|i: int, j: int| #[trigger] inst_at_matches(fs, i, j, tc, args),
        scope_lookup_instance(fs, tc, args, false) matches Some(x) ==> exists|i: int, j: int|
            #[trigger] inst_at_matches(fs, i, j, tc, args) && fs[i].instances[j].1 == x && x.type_args == args
            && (forall|i2: int, j2: int| 0 <= i2 < i ==> !#[trigger] inst_at_matches(fs, i2, j2, tc, args))
            && (forall|j2: int| 0 <= j2 < j ==> !#[trigger] inst_at_matches(fs, i, j2, tc, args)),
    decreases fs.len(),
{
    if fs.len() > 0 {
        let t = fs.drop_first();
        law_lookup_instance_exact(t, tc, args);
        lemma_first_inst_exact(fs[0].instances, tc, args);
        assert forall|i: int, j: int| 0 <= i < t.len() implies inst_at_matches(t, i, j, tc, args) == inst_at_matches(
            fs,
            i + 1,
            j,
            tc,
            args,
        ) by {
            assert(t[i] == fs[i + 1]);
        }
        if first_inst(fs[0].instances, tc, args, false) is Some {
            let x = first_inst(fs[0].instances, tc, args, false)->Some_0;
            let s = fs[0].instances;
            let j = choose|j: int|
                0 <= j < s.len() && #[trigger] s[j].1 == x && inst_matches(s[j], tc, args) && forall|k: int|
                    0 <= k < j ==> !inst_matches(#[trigger] s[k], tc, args);
            assert(inst_at_matches(fs, 0, j, tc, args));
            assert forall|j2: int| 0 <= j2 < j implies !#[trigger] inst_at_matches(fs, 0, j2, tc, args) by {
                assert(!inst_matches(s[j2], tc, args));
            }
        } else {
            assert forall|j: int| !#[trigger] inst_at_matches(fs, 0, j, tc, args) by {
                if inst_at_matches(fs, 0, j, tc, args) {
                    assert(inst_matches(fs[0].instances[j], tc, args));
                }
            }
            if exists|i: int, j: int| #[trigger] inst_at_matches(fs, i, j, tc, args) {
                let (i, j) = choose|i: int, j: int| #[trigger] inst_at_matches(fs, i, j, tc, args);
                assert(i > 0);
                assert(inst_at_matches(t, i - 1, j, tc, args));
            }
            if exists|i: int, j: int| #[trigger] inst_at_matches(t, i, j, tc, args) {
                let (i, j) = choose|i: int, j: int| #[trigger] inst_at_matches(t, i, j, tc, args);
                assert(inst_at_matches(fs, i + 1, j, tc, args));
            }
            if scope_lookup_instance(t, tc, args, false) is Some {
                let x = scope_lookup_instance(t, tc, args, false)->Some_0;
                let (i, j) = choose|i: int, j: int|
                    #[trigger] inst_at_matches(t, i, j, tc, args) && t[i].instances[j].1 == x && x.type_args == args
                        && (forall|i2: int, j2: int| 0 <= i2 < i ==> !#[trigger] inst_at_matches(t, i2, j2, tc, args))
                        && (forall|j2: int| 0 <= j2 < j ==> !#[trigger] inst_at_matches(t, i, j2, tc, args));
                assert(inst_at_matches(fs, i + 1, j, tc, args));
                assert(fs[i + 1] == t[i]);
                assert forall|i2: int, j2: int| 0 <= i2 < i + 1 implies !#[trigger] inst_at_matches(fs, i2, j2, tc, args) by {
                    if i2 > 0 {
                        assert(inst_at_matches(fs, i2, j2, tc, args) == inst_at_matches(t, i2 - 1, j2, tc, args));
                    }
                }
                assert forall|j2: int| 0 <= j2 < j implies !#[trigger] inst_at_matches(fs, i + 1, j2, tc, args) by {
                    assert(inst_at_matches(fs, i + 1, j2, tc, args) == inst_at_matches(t, i, j2, tc, args));
                }
            }
        }
    }
}

} // verus!
