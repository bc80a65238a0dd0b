//! Whether every `import` of a statement tree names a module.

use vstd::prelude::*;
use crate::ast::{Expr, FuncDef, ImportKind, Statement, elifs_v, func_v, funcs_v, stmt_v, stmts_v, strs_v, import_kind_v, expr_v, StatementV};
use crate::check_spec::{imports_named, stmt_imports_named};

verus! {

/// Whether every simple `import` in `ss`, at any depth, has a module path.
pub fn imports_name_modules(ss: &Vec<Statement>) -> (r: bool)
    ensures
        r == imports_named(stmts_v(ss@)),
    decreases ss, 0int,
{
    let ghost sv = stmts_v(ss@);
    proof {
        assert(sv.subrange(0, sv.len() as int) =~= sv);
    }
    let mut k: usize = 0;
    while k < ss.len()
        invariant
            sv == stmts_v(ss@),
            k <= ss.len(),
            imports_named(sv) == imports_named(sv.subrange(k as int, sv.len() as int)),
        decreases ss.len() - k,
    {
        let ghost t = sv.subrange(k as int, sv.len() as int);
        proof {
            assert(decreases_to!(ss => ss@));
            assert(decreases_to!(ss@ => ss@[k as int]));
            assert(sv[k as int] == stmt_v(ss@[k as int]));
            assert(t[0] == sv[k as int]);
            assert(t.subrange(1, t.len() as int) =~= sv.subrange(k + 1, sv.len() as int));
        }
        if !stmt_names_modules(&ss[k]) {
            return false;
        }
        k = k + 1;
    }
    proof {
        assert(sv.subrange(k as int, sv.len() as int) =~= Seq::<StatementV>::empty());
    }
    true
}

/// Whether every simple `import` within `s` has a module path.
fn stmt_names_modules(s: &Statement) -> (r: bool)
    ensures
        r == stmt_imports_named(stmt_v(*s)),
    decreases s, 1int,
{
    match s {
        Statement::Import(i) => {
            proof {
                assert(stmt_v(*s) == StatementV::Import { kind: import_kind_v(i.kind), span: i.span });
            }
            match &i.kind {
            ImportKind::Simple { path, .. } => {
                proof {
                    assert(strs_v(path@).len() == path@.len());
                    assert(import_kind_v(i.kind) is Simple);
                    assert(stmt_imports_named(stmt_v(*s)) == (strs_v(path@).len() > 0));
                }
                path.len() > 0
            },
            ImportKind::From { .. } => {
                assert(import_kind_v(i.kind) is From);
                assert(stmt_imports_named(stmt_v(*s)));
                true
            },
        }
        },
        Statement::FuncDef(f) => {
            proof {
                assert(func_v(*f).body == stmts_v(f.body@));
            }
            let r = imports_name_modules(&f.body);
            assert(r == stmt_imports_named(stmt_v(*s)));
            r
        },
        Statement::If(i) => {
            if !imports_name_modules(&i.then_body) {
                return false;
            }
            if !elifs_name_modules(&i.elif_clauses) {
                let ghost ev = elifs_v(i.elif_clauses@);
                assert(!(forall|j: int| 0 <= j < ev.len() ==> imports_named(#[trigger] ev[j].1)));
                assert(stmt_v(*s) matches StatementV::If { elif_clauses, .. } && elif_clauses == ev);
                return false;
            }
            let ghost ev = elifs_v(i.elif_clauses@);
            assert(forall|j: int| 0 <= j < ev.len() ==> imports_named(#[trigger] ev[j].1));
            let ghost eb = match &i.else_body {
                Some(b) => Some(stmts_v(b@)),
                None => None,
            };
            assert(stmt_v(*s) == StatementV::If {
                condition: expr_v(i.condition),
                then_body: stmts_v(i.then_body@),
                elif_clauses: ev,
                else_body: eb,
                span: i.span,
            });
            let r = match &i.else_body {
                Some(b) => imports_name_modules(b),
                None => true,
            };
            assert(r == stmt_imports_named(stmt_v(*s)));
            r
        },
        Statement::Impl(b) => {
            let r = methods_name_modules(&b.methods);
            assert(r == stmt_imports_named(stmt_v(*s)));
            r
        },
        Statement::For(f) => {
            let r = imports_name_modules(&f.body);
            assert(r == stmt_imports_named(stmt_v(*s)));
            r
        },
        Statement::While(w) => {
            let r = imports_name_modules(&w.body);
            assert(r == stmt_imports_named(stmt_v(*s)));
            r
        },
        Statement::Let(_) | Statement::Assign(_) | Statement::Return(_) | Statement::Expr(_) => true,
        Statement::DataDecl(_) => true,
        Statement::TypeclassDecl(_) => true,
    }
}

/// Whether the bodies of all `elif` branches name their imports.
fn elifs_name_modules(elifs: &Vec<(Expr, Vec<Statement>)>) -> (r: bool)
    ensures
        r == (forall|j: int| 0 <= j < elifs@.len() ==> imports_named(#[trigger] elifs_v(elifs@)[j].1)),
    decreases elifs, 0int,
{
    let ghost ev = elifs_v(elifs@);
    let mut k: usize = 0;
    while k < elifs.len()
        invariant
            ev == elifs_v(elifs@),
            k <= elifs.len(),
            forall|j: int| 0 <= j < k ==> imports_named(#[trigger] ev[j].1),
        decreases elifs.len() - k,
    {
        proof {
            assert(decreases_to!(elifs => elifs@));
            assert(decreases_to!(elifs@ => elifs@[k as int]));
            assert(decreases_to!(elifs@[k as int] => elifs@[k as int].1));
            assert(ev[k as int].1 == stmts_v(elifs@[k as int].1@));
        }
        if !imports_name_modules(&elifs[k].1) {
            assert(!imports_named(ev[k as int].1));
            return false;
        }
        k = k + 1;
    }
    true
}

/// Whether the bodies of all methods name their imports.
fn methods_name_modules(ms: &Vec<FuncDef>) -> (r: bool)
    ensures
        r == (forall|j: int| 0 <= j < ms@.len() ==> imports_named(#[trigger] funcs_v(ms@)[j].body)),
    decreases ms, 0int,
{
    let ghost mv = funcs_v(ms@);
    let mut k: usize = 0;
    while k < ms.len()
        invariant
            mv == funcs_v(ms@),
            k <= ms.len(),
            forall|j: int| 0 <= j < k ==> imports_named(#[trigger] mv[j].body),
        decreases ms.len() - k,
    {
        proof {
            assert(decreases_to!(ms => ms@));
            assert(decreases_to!(ms@ => ms@[k as int]));
            assert(decreases_to!(ms@[k as int] => ms@[k as int].body));
            assert(mv[k as int].body == stmts_v(ms@[k as int].body@));
        }
        if !imports_name_modules(&ms[k].body) {
            assert(!imports_named(mv[k as int].body));
            return false;
        }
        k = k + 1;
    }
    true
}

} // verus!
