//! The types of the type checker, with their view and their printed form.

use vstd::prelude::*;
use crate::text::{push_str, push_string, str_eq, string_from};

verus! {

#[derive(Debug)]
pub enum Type {
    Int,
    Float,
    Str,
    Bool,
    NoneType,
    Function(FunctionType),
    Data(DataType),
    TypeVar(String),
    List(Box<Type>),
    Module(ModuleType),
    Unknown,
}

#[derive(Debug, Clone)]
pub struct ModuleType {
    pub name: String,
}

#[derive(Debug, Clone)]
pub struct FunctionType {
    pub type_params: Vec<(String, Vec<String>)>,
    pub param_types: Vec<Type>,
    pub return_type: Box<Type>,
}

#[derive(Debug, Clone)]
pub struct DataType {
    pub name: String,
    pub fields: Vec<(String, Type)>,
}

#[derive(Debug, Clone)]
pub struct TypeclassDef {
    pub name: String,
    pub type_params: Vec<String>,
    pub methods: Vec<TypeclassMethodSig>,
}

#[derive(Debug, Clone)]
pub struct TypeclassMethodSig {
    pub name: String,
    pub param_types: Vec<Type>,
    pub return_type: Type,
}

#[derive(Debug, Clone)]
pub struct InstanceDef {
    pub typeclass_name: String,
    pub type_args: Vec<Type>,
    pub is_builtin: bool,
}

/// A type as a mathematical value: names are character sequences.
pub enum TypeV {
    Int,
    Float,
    Str,
    Bool,
    NoneType,
    Function(Seq<(Seq<char>, Seq<Seq<char>>)>, Seq<TypeV>, Box<TypeV>),
    Data(Seq<char>, Seq<(Seq<char>, TypeV)>),
    TypeVar(Seq<char>),
    List(Box<TypeV>),
    Module(Seq<char>),
    Unknown,
}

pub open spec fn names_v(s: Seq<String>) -> Seq<Seq<char>> {
    Seq::new(s.len(), |i: int| s[i]@)
}

pub open spec fn tparams_v(s: Seq<(String, Vec<String>)>) -> Seq<(Seq<char>, Seq<Seq<char>>)> {
    Seq::new(s.len(), |i: int| (s[i].0@, names_v(s[i].1@)))
}

pub open spec fn ty_v(t: Type) -> TypeV
    decreases t,
{
    match t {
        Type::Int => TypeV::Int,
        Type::Float => TypeV::Float,
        Type::Str => TypeV::Str,
        Type::Bool => TypeV::Bool,
        Type::NoneType => TypeV::NoneType,
        Type::Function(f) => TypeV::Function(
            tparams_v(f.type_params@),
            tys_v(f.param_types@),
            Box::new(ty_v(*f.return_type)),
        ),
        Type::Data(d) => TypeV::Data(d.name@, fields_v(d.fields@)),
        Type::TypeVar(n) => TypeV::TypeVar(n@),
        Type::List(inner) => TypeV::List(Box::new(ty_v(*inner))),
        Type::Module(m) => TypeV::Module(m.name@),
        Type::Unknown => TypeV::Unknown,
    }
}

pub open spec fn tys_v(s: Seq<Type>) -> Seq<TypeV>
    decreases s,
{
    Seq::new(s.len(), |i: int| if 0 <= i < s.len() { ty_v(s[i]) } else { TypeV::Unknown })
}

pub open spec fn fields_v(s: Seq<(String, Type)>) -> Seq<(Seq<char>, TypeV)>
    decreases s,
{
    Seq::new(
        s.len(),
        |i: int| if 0 <= i < s.len() { (s[i].0@, ty_v(s[i].1)) } else { (Seq::empty(), TypeV::Unknown) },
    )
}

impl View for Type {
    type V = TypeV;

    open spec fn view(&self) -> TypeV {
        ty_v(*self)
    }
}

/// The elements of `s`, separated by `sep`.
pub open spec fn join(s: Seq<Seq<char>>, sep: Seq<char>) -> Seq<char>
    decreases s.len(),
{
    if s.len() == 0 {
        Seq::empty()
    } else if s.len() == 1 {
        s[0]
    } else {
        join(s.drop_last(), sep) + sep + s.last()
    }
}

/// How a type is printed in messages.
pub open spec fn type_text(t: TypeV) -> Seq<char>
    decreases t,
{
    match t {
        TypeV::Int => "Int"@,
        TypeV::Float => "Float"@,
        TypeV::Str => "Str"@,
        TypeV::Bool => "Bool"@,
        TypeV::NoneType => "None"@,
        TypeV::Function(_, ps, r) => "("@ + join(type_texts(ps), ", "@) + ") -> "@ + type_text(*r),
        TypeV::Data(n, _) => n,
        TypeV::TypeVar(n) => n,
        TypeV::List(inner) => "List["@ + type_text(*inner) + "]"@,
        TypeV::Module(n) => "module '"@ + n + "'"@,
        TypeV::Unknown => "Unknown"@,
    }
}

/// The printed forms of a sequence of types.
pub open spec fn type_texts(ps: Seq<TypeV>) -> Seq<Seq<char>>
    decreases ps,
{
    Seq::new(ps.len(), |i: int| if 0 <= i < ps.len() { type_text(ps[i]) } else { Seq::empty() })
}

pub proof fn lemma_join_push(s: Seq<Seq<char>>, x: Seq<char>, sep: Seq<char>)
    ensures
        join(s.push(x), sep) == if s.len() == 0 { x } else { join(s, sep) + sep + x },
{
    assert(s.push(x).drop_last() =~= s);
}

/// Character-wise equality of two lists of names.
pub fn names_eq(a: &Vec<String>, b: &Vec<String>) -> (r: bool)
    ensures
        r == (names_v(a@) == names_v(b@)),
{
    if a.len() != b.len() {
        proof {
            assert(names_v(a@).len() != names_v(b@).len());
        }
        return false;
    }
    let mut i: usize = 0;
    while i < a.len()
        invariant
            a.len() == b.len(),
            i <= a.len(),
            forall|j: int| 0 <= j < i ==> a@[j]@ == b@[j]@,
        decreases a.len() - i,
    {
        if !str_eq(&a[i], &b[i]) {
            proof {
                assert(names_v(a@)[i as int] != names_v(b@)[i as int]);
            }
            return false;
        }
        i = i + 1;
    }
    assert(names_v(a@) =~= names_v(b@));
    true
}

/// A copy of a list of names.
pub fn copy_names(a: &Vec<String>) -> (r: Vec<String>)
    ensures
        names_v(r@) == names_v(a@),
{
    let mut r: Vec<String> = Vec::new();
    let mut i: usize = 0;
    while i < a.len()
        invariant
            i <= a.len(),
            r@.len() == i,
            forall|j: int| 0 <= j < i ==> r@[j]@ == a@[j]@,
        decreases a.len() - i,
    {
        r.push(a[i].clone());
        i = i + 1;
    }
    assert(names_v(r@) =~= names_v(a@));
    r
}

impl Type {
    /// Structural equality of two types.
    pub fn equals(&self, other: &Type) -> (r: bool)
        ensures
            r == (self@ == other@),
        decreases self,
    {
        match (self, other) {
            (Type::Int, Type::Int) => true,
            (Type::Float, Type::Float) => true,
            (Type::Str, Type::Str) => true,
            (Type::Bool, Type::Bool) => true,
            (Type::NoneType, Type::NoneType) => true,
            (Type::Unknown, Type::Unknown) => true,
            (Type::TypeVar(a), Type::TypeVar(b)) => str_eq(a, b),
            (Type::Module(a), Type::Module(b)) => str_eq(&a.name, &b.name),
            (Type::List(a), Type::List(b)) => {
                let r = (**a).equals(&**b);
                r
            },
            (Type::Data(a), Type::Data(b)) => {
                if !str_eq(&a.name, &b.name) {
                    return false;
                }
                if a.fields.len() != b.fields.len() {
                    proof {
                        assert(fields_v(a.fields@).len() != fields_v(b.fields@).len());
                    }
                    return false;
                }
                let mut i: usize = 0;
                while i < a.fields.len()
                    invariant
                        a.fields.len() == b.fields.len(),
                        i <= a.fields.len(),
                        *self == Type::Data(*a),
                        *other == Type::Data(*b),
                        forall|j: int| 0 <= j < i ==> #[trigger] fields_v(a.fields@)[j] == fields_v(b.fields@)[j],
                    decreases a.fields.len() - i,
                {
                    let same_name = str_eq(&a.fields[i].0, &b.fields[i].0);
                    if !same_name {
                        proof {
                            assert(fields_v(a.fields@)[i as int] != fields_v(b.fields@)[i as int]);
                        }
                        return false;
                    }
                    proof {
                        assert(decreases_to!(*self => (*self)->Data_0));
                        assert(decreases_to!(*a => a.fields));
                        assert(decreases_to!(a.fields => a.fields@));
                        assert(decreases_to!(a.fields@ => a.fields@[i as int]));
                        assert(decreases_to!(a.fields@[i as int] => a.fields@[i as int].1));
                    }
                    let same_ty = a.fields[i].1.equals(&b.fields[i].1);
                    if !same_ty {
                        proof {
                            assert(fields_v(a.fields@)[i as int] != fields_v(b.fields@)[i as int]);
                        }
                        return false;
                    }
                    i = i + 1;
                }
                assert(fields_v(a.fields@) =~= fields_v(b.fields@));
                true
            },
            (Type::Function(a), Type::Function(b)) => {
                if a.type_params.len() != b.type_params.len() || a.param_types.len() != b.param_types.len() {
                    proof {
                        assert(tparams_v(a.type_params@).len() == a.type_params.len());
                        assert(tys_v(a.param_types@).len() == a.param_types.len());
                        assert(tparams_v(b.type_params@).len() == b.type_params.len());
                        assert(tys_v(b.param_types@).len() == b.param_types.len());
                    }
                    return false;
                }
                let mut i: usize = 0;
                while i < a.type_params.len()
                    invariant
                        a.type_params.len() == b.type_params.len(),
                        i <= a.type_params.len(),
                        *self == Type::Function(*a),
                        *other == Type::Function(*b),
                        forall|j: int| 0 <= j < i ==> #[trigger] tparams_v(a.type_params@)[j] == tparams_v(b.type_params@)[j],
                    decreases a.type_params.len() - i,
                {
                    let same = str_eq(&a.type_params[i].0, &b.type_params[i].0)
                        && names_eq(&a.type_params[i].1, &b.type_params[i].1);
                    if !same {
                        proof {
                            assert(tparams_v(a.type_params@)[i as int] != tparams_v(b.type_params@)[i as int]);
                        }
                        return false;
                    }
                    i = i + 1;
                }
                assert(tparams_v(a.type_params@) =~= tparams_v(b.type_params@));
                let mut k: usize = 0;
                while k < a.param_types.len()
                    invariant
                        a.param_types.len() == b.param_types.len(),
                        k <= a.param_types.len(),
                        *self == Type::Function(*a),
                        *other == Type::Function(*b),
                        tparams_v(a.type_params@) == tparams_v(b.type_params@),
                        forall|j: int| 0 <= j < k ==> #[trigger] tys_v(a.param_types@)[j] == tys_v(b.param_types@)[j],
                    decreases a.param_types.len() - k,
                {
                    proof {
                        assert(decreases_to!(*self => (*self)->Function_0));
                        assert(decreases_to!(*a => a.param_types));
                        assert(decreases_to!(a.param_types => a.param_types@));
                        assert(decreases_to!(a.param_types@ => a.param_types@[k as int]));
                    }
                    let same = a.param_types[k].equals(&b.param_types[k]);
                    if !same {
                        proof {
                            assert(tys_v(a.param_types@)[k as int] != tys_v(b.param_types@)[k as int]);
                        }
                        return false;
                    }
                    k = k + 1;
                }
                assert(tys_v(a.param_types@) =~= tys_v(b.param_types@));
                let r = (*a.return_type).equals(&*b.return_type);
                r
            },
            _ => false,
        }
    }

    /// A copy of the type.
    pub fn duplicate(&self) -> (r: Type)
        ensures
            r@ == self@,
        decreases self,
    {
        match self {
            Type::Int => Type::Int,
            Type::Float => Type::Float,
            Type::Str => Type::Str,
            Type::Bool => Type::Bool,
            Type::NoneType => Type::NoneType,
            Type::Unknown => Type::Unknown,
            Type::TypeVar(n) => Type::TypeVar(n.clone()),
            Type::Module(m) => Type::Module(ModuleType { name: m.name.clone() }),
            Type::List(inner) => Type::List(Box::new((**inner).duplicate())),
            Type::Data(d) => {
                let mut fields: Vec<(String, Type)> = Vec::new();
                let mut i: usize = 0;
                while i < d.fields.len()
                    invariant
                        i <= d.fields.len(),
                        fields@.len() == i,
                        *self == Type::Data(*d),
                        forall|j: int| 0 <= j < i ==> (#[trigger] fields@[j]).0@ == d.fields@[j].0@ && fields@[j].1@ == d.fields@[j].1@,
                    decreases d.fields.len() - i,
                {
                    proof {
                        assert(decreases_to!(*self => (*self)->Data_0));
                        assert(decreases_to!(*d => d.fields));
                        assert(decreases_to!(d.fields => d.fields@));
                        assert(decreases_to!(d.fields@ => d.fields@[i as int]));
                        assert(decreases_to!(d.fields@[i as int] => d.fields@[i as int].1));
                    }
                    let t = d.fields[i].1.duplicate();
                    fields.push((d.fields[i].0.clone(), t));
                    i = i + 1;
                }
                assert(fields_v(fields@) =~= fields_v(d.fields@));
                Type::Data(DataType { name: d.name.clone(), fields })
            },
            Type::Function(f) => {
                let mut tps: Vec<(String, Vec<String>)> = Vec::new();
                let mut i: usize = 0;
                while i < f.type_params.len()
                    invariant
                        i <= f.type_params.len(),
                        tps@.len() == i,
                        *self == Type::Function(*f),
                        forall|j: int| 0 <= j < i ==> (#[trigger] tps@[j]).0@ == f.type_params@[j].0@ && names_v(tps@[j].1@) == names_v(f.type_params@[j].1@),
                    decreases f.type_params.len() - i,
                {
                    let bounds = copy_names(&f.type_params[i].1);
                    tps.push((f.type_params[i].0.clone(), bounds));
                    i = i + 1;
                }
                assert(tparams_v(tps@) =~= tparams_v(f.type_params@));
                let mut ps: Vec<Type> = Vec::new();
                let mut k: usize = 0;
                while k < f.param_types.len()
                    invariant
                        k <= f.param_types.len(),
                        ps@.len() == k,
                        *self == Type::Function(*f),
                        tparams_v(tps@) == tparams_v(f.type_params@),
                        forall|j: int| 0 <= j < k ==> (#[trigger] ps@[j])@ == f.param_types@[j]@,
                    decreases f.param_types.len() - k,
                {
                    proof {
                        assert(decreases_to!(*self => (*self)->Function_0));
                        assert(decreases_to!(*f => f.param_types));
                        assert(decreases_to!(f.param_types => f.param_types@));
                        assert(decreases_to!(f.param_types@ => f.param_types@[k as int]));
                    }
                    let t = f.param_types[k].duplicate();
                    ps.push(t);
                    k = k + 1;
                }
                assert(tys_v(ps@) =~= tys_v(f.param_types@));
                let r = (*f.return_type).duplicate();
                Type::Function(FunctionType { type_params: tps, param_types: ps, return_type: Box::new(r) })
            },
        }
    }

    /// The printed form of the type.
    pub fn to_string(&self) -> (s: String)
        ensures
            s@ == type_text(self@),
        decreases self,
    {
        match self {
            Type::Int => string_from("Int"),
            Type::Float => string_from("Float"),
            Type::Str => string_from("Str"),
            Type::Bool => string_from("Bool"),
            Type::NoneType => string_from("None"),
            Type::Unknown => string_from("Unknown"),
            Type::TypeVar(n) => n.clone(),
            Type::Data(d) => d.name.clone(),
            Type::Module(m) => {
                let mut s = string_from("module '");
                push_string(&mut s, &m.name);
                push_str(&mut s, "'");
                s
            },
            Type::List(inner) => {
                let mut s = string_from("List[");
                let t = (**inner).to_string();
                push_string(&mut s, &t);
                push_str(&mut s, "]");
                s
            },
            Type::Function(f) => {
                let ghost ps = tys_v(f.param_types@);
                let ghost texts = type_texts(ps);
                let mut body = String::new();
                let mut i: usize = 0;
                while i < f.param_types.len()
                    invariant
                        i <= f.param_types.len(),
                        *self == Type::Function(*f),
                        ps == tys_v(f.param_types@),
                        texts.len() == ps.len(),
                        ps.len() == f.param_types.len(),
                        forall|j: int| 0 <= j < ps.len() ==> #[trigger] texts[j] == type_text(ps[j]),
                        body@ == join(texts.take(i as int), ", "@),
                    decreases f.param_types.len() - i,
                {
                    proof {
                        assert(decreases_to!(*self => (*self)->Function_0));
                        assert(decreases_to!(*f => f.param_types));
                        assert(decreases_to!(f.param_types => f.param_types@));
                        assert(decreases_to!(f.param_types@ => f.param_types@[i as int]));
                        lemma_join_push(texts.take(i as int), texts[i as int], ", "@);
                        assert(texts.take(i as int).push(texts[i as int]) =~= texts.take(i + 1));
                    }
                    if i > 0 {
                        push_str(&mut body, ", ");
                    }
                    let t = f.param_types[i].to_string();
                    push_string(&mut body, &t);
                    i = i + 1;
                }
                assert(texts.take(ps.len() as int) =~= texts);
                assert(self@ == TypeV::Function(tparams_v(f.type_params@), ps, Box::new(ty_v(*f.return_type))));
                let mut s = string_from("(");
                push_string(&mut s, &body);
                push_str(&mut s, ") -> ");
                let r = (*f.return_type).to_string();
                push_string(&mut s, &r);
                s
            },
        }
    }
}

impl Clone for Type {
    /// A copy of the type, equal to it in view.
    fn clone(&self) -> (r: Type)
        ensures
            r@ == self@,
    {
        self.duplicate()
    }
}

} // verus!
