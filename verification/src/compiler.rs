//! Compiling a program of several module files.
//!
//! The decisions live here: whether a module is compiled already or part of
//! an import cycle, which files a module depends on, compiling one source
//! text, and recording its output. Reading files and resolving paths on disk
//! is left to the caller, which hands the results back.

use vstd::prelude::*;
use crate::ast::{ImportKind, ImportKindV, Module, Statement, StatementV, module_v, stmt_v, stmts_v, strs_v};
use crate::check_spec::{builtin_scope, imports_named, s_check_stmts};
use crate::checker::TypeChecker;
use crate::emit_spec::e_stmts;
use crate::emitter::PythonEmitter;
use crate::errors::{CompileError, DiagView, error_at, spec_error};
use crate::parsed_imports::law_parsed_imports_name_modules;
use crate::token::tokens_view;
use crate::lexer::{Lexer, max_chars, spec_tokenize, tokens_result_view};
use crate::parser::Parser;
use crate::paths::{py_path, py_path_of, sibling_source, sibling_source_path};
use crate::source::{SourceFile, Span};
use crate::stmt_parser::module_result_v;
use crate::stmt_spec::sp_module;
use crate::text::{push_str, str_eq, string_from};

verus! {

/// What compiling one source text gives: the Python text, or the first error
/// of the lexer, the parser or the type checker, in that order.
pub open spec fn compile_spec(cs: Seq<char>) -> Result<Seq<char>, DiagView> {
    match spec_tokenize(cs) {
        Err(e) => Err(e),
        Ok(ts) => match sp_module(ts, 0) {
            Err(e) => Err(e),
            Ok(m) => match s_check_stmts(seq![builtin_scope()], m.body, 0) {
                Err(e) => Err(e),
                Ok(_) => Ok(e_stmts(m.body, 0)),
            },
        },
    }
}

/// The view of a compile result.
pub open spec fn text_result_view(r: Result<String, CompileError>) -> Result<Seq<char>, DiagView> {
    match r {
        Ok(s) => Ok(s@),
        Err(e) => Err(e@),
    }
}

/// Lexes, parses, type-checks and emits one source file.
pub fn compile_source(source: &SourceFile) -> (r: Result<String, CompileError>)
    requires
        source.content@.len() <= max_chars(),
    ensures
        text_result_view(r) == compile_spec(source.content@),
{
    let lexer = Lexer::new(source);
    let tokens = match lexer.tokenize() {
        Err(e) => return Err(e),
        Ok(t) => t,
    };
    let ghost toks = tokens_view(tokens@);
    let mut parser = Parser::new(tokens, source);
    let module = match parser.parse_module() {
        Err(e) => return Err(e),
        Ok(m) => m,
    };
    proof {
        law_parsed_imports_name_modules(toks, 0);
    }
    let mut checker = TypeChecker::new();
    match checker.check_module(&module) {
        Err(e) => return Err(e),
        Ok(()) => {},
    }
    let out = PythonEmitter::new().emit_module(&module);
    proof {
        assert(Seq::<char>::empty() + e_stmts(module_v(module).body, 0) =~= e_stmts(module_v(module).body, 0));
    }
    Ok(out)
}

/// The path of the module an import statement names, where it is one.
pub open spec fn import_path(s: StatementV) -> Option<Seq<Seq<char>>> {
    match s {
        StatementV::Import { kind: ImportKindV::Simple { path, .. }, .. } => Some(path),
        StatementV::Import { kind: ImportKindV::From { path, .. }, .. } => Some(path),
        _ => None,
    }
}

/// The modules that the top-level imports of `ss` name by a single name, in
/// order: those that may be files next to the importing one.
pub open spec fn dependency_modules(ss: Seq<StatementV>) -> Seq<Seq<char>>
    decreases ss.len(),
{
    if ss.len() == 0 {
        Seq::empty()
    } else {
        let r = dependency_modules(ss.drop_last());
        match import_path(ss.last()) {
            Some(p) => if p.len() == 1 {
                r.push(p[0])
            } else {
                r
            },
            None => r,
        }
    }
}

/// The source files that a module in `file` may depend on: for each
/// top-level import of a single name, that name's `.sbz` file next to `file`.
pub open spec fn dependency_files(file: Seq<char>, ss: Seq<StatementV>) -> Seq<Seq<char>> {
    dependency_modules(ss).map_values(|n: Seq<char>| sibling_source(file, n))
}

/// The candidate source files of the modules that `module`, read from
/// `file`, imports; the caller compiles those that exist.
pub fn dependency_paths(file: &str, module: &Module) -> (r: Vec<String>)
    ensures
        strs_v(r@) == dependency_files(file@, module_v(*module).body),
{
    let ghost sv = module_v(*module).body;
    let mut out: Vec<String> = Vec::new();
    let mut k: usize = 0;
    proof {
        assert(sv.take(0) =~= Seq::<StatementV>::empty());
        assert(strs_v(out@) =~= dependency_files(file@, sv.take(0)));
    }
    while k < module.body.len()
        invariant
            sv == stmts_v(module.body@),
            k <= module.body.len(),
            strs_v(out@) == dependency_files(file@, sv.take(k as int)),
        decreases module.body.len() - k,
    {
        let ghost before = out@;
        proof {
            assert(sv.take(k + 1).drop_last() =~= sv.take(k as int));
            assert(sv.take(k + 1).last() == stmt_v(module.body@[k as int]));
        }
        match &module.body[k] {
            Statement::Import(i) => {
                let path = match &i.kind {
                    ImportKind::Simple { path, .. } => path,
                    ImportKind::From { path, .. } => path,
                };
                proof {
                    assert(import_path(stmt_v(module.body@[k as int])) == Some(strs_v(path@)));
                }
                if path.len() == 1 {
                    let p = sibling_source_path(file, path[0].as_str());
                    out.push(p);
                    proof {
                        assert(strs_v(out@) =~= strs_v(before).push(p@));
                    }
                }
            },
            _ => {
                proof {
                    assert(import_path(stmt_v(module.body@[k as int])) is None);
                }
            },
        }
        k = k + 1;
        proof {
            assert(strs_v(out@) =~= dependency_files(file@, sv.take(k as int)));
        }
    }
    proof {
        assert(sv.take(k as int) =~= sv);
    }
    out
}

/// Whether a module has begun compiling or was compiled already.
pub enum ModuleStart {
    AlreadyCompiled,
    Begun,
}

/// The compiled modules (source path and Python text) and the modules whose
/// compilation has begun and not ended.
pub struct Compiler {
    compiled: Vec<(String, String)>,
    in_progress: Vec<String>,
}

pub open spec fn entries_v(s: Seq<(String, String)>) -> Seq<(Seq<char>, Seq<char>)> {
    Seq::new(s.len(), |i: int| (s[i].0@, s[i].1@))
}

/// Whether some entry of `s` has key `k`.
pub open spec fn has_key(s: Seq<(Seq<char>, Seq<char>)>, k: Seq<char>) -> bool {
    exists|i: int| 0 <= i < s.len() && (#[trigger] s[i]).0 == k
}

/// No two entries of `s` share a key.
pub open spec fn keys_unique(s: Seq<(Seq<char>, Seq<char>)>) -> bool {
    forall|i: int, j: int| 0 <= i < j < s.len() ==> (#[trigger] s[i]).0 != (#[trigger] s[j]).0
}

/// No path occurs twice in `s`.
pub open spec fn paths_unique(s: Seq<Seq<char>>) -> bool {
    forall|i: int, j: int| 0 <= i < j < s.len() ==> #[trigger] s[i] != #[trigger] s[j]
}

/// `s` with the entry for `k` set to `v`: replaced where there is one,
/// added at the end where there is none.
pub open spec fn insert_entry(s: Seq<(Seq<char>, Seq<char>)>, k: Seq<char>, v: Seq<char>) -> Seq<(Seq<char>, Seq<char>)> {
    if has_key(s, k) {
        Seq::new(s.len(), |i: int| if s[i].0 == k { (k, v) } else { s[i] })
    } else {
        s.push((k, v))
    }
}

/// `s` without `x`.
pub open spec fn remove_path(s: Seq<Seq<char>>, x: Seq<char>) -> Seq<Seq<char>>
    decreases s.len(),
{
    if s.len() == 0 {
        s
    } else {
        let r = remove_path(s.drop_last(), x);
        if s.last() == x {
            r
        } else {
            r.push(s.last())
        }
    }
}

pub proof fn lemma_contains_push(s: Seq<Seq<char>>, a: Seq<char>, y: Seq<char>)
    ensures
        s.push(a).contains(y) <==> (s.contains(y) || a == y),
{
    if s.push(a).contains(y) {
        let i = choose|i: int| 0 <= i < s.push(a).len() && s.push(a)[i] == y;
        if i < s.len() {
            assert(s[i] == y);
        }
    }
    if s.contains(y) {
        let i = choose|i: int| 0 <= i < s.len() && s[i] == y;
        assert(s.push(a)[i] == y);
    }
    if a == y {
        assert(s.push(a)[s.len() as int] == y);
    }
}

/// Ending a module's compilation leaves it no longer pending, keeps every
/// other pending module, and keeps each one pending once.
pub proof fn law_ended_module_not_pending(s: Seq<Seq<char>>, x: Seq<char>)
    requires
        paths_unique(s),
    ensures
        paths_unique(remove_path(s, x)),
        !remove_path(s, x).contains(x),
        forall|y: Seq<char>| y != x ==> (remove_path(s, x).contains(y) <==> s.contains(y)),
    decreases s.len(),
{
    if s.len() > 0 {
        let t = s.drop_last();
        let l = s.last();
        assert(s =~= t.push(l));
        assert(paths_unique(t)) by {
            assert forall|i: int, j: int| 0 <= i < j < t.len() implies #[trigger] t[i] != #[trigger] t[j] by {
                assert(t[i] == s[i] && t[j] == s[j]);
            }
        }
        law_ended_module_not_pending(t, x);
        let r = remove_path(t, x);
        assert forall|y: Seq<char>| true implies (s.contains(y) <==> (t.contains(y) || l == y)) by {
            lemma_contains_push(t, l, y);
        }
        if l != x {
            assert(!t.contains(l)) by {
                if t.contains(l) {
                    let i = choose|i: int| 0 <= i < t.len() && t[i] == l;
                    assert(s[i] == s[s.len() - 1]);
                }
            }
            assert(!r.contains(l));
            assert forall|y: Seq<char>| true implies (r.push(l).contains(y) <==> (r.contains(y) || l == y)) by {
                lemma_contains_push(r, l, y);
            }
            assert forall|i: int, j: int| 0 <= i < j < r.push(l).len() implies #[trigger] r.push(l)[i]
                != #[trigger] r.push(l)[j] by {
                if j == r.len() {
                    assert(r.push(l)[i] == r[i]);
                    assert(r.contains(r[i]));
                } else {
                    assert(r.push(l)[i] == r[i] && r.push(l)[j] == r[j]);
                }
            }
        }
    }
}

/// Recording a module's output makes it compiled, with that output, and keeps
/// each module recorded once.
pub proof fn law_recorded_module_is_compiled(s: Seq<(Seq<char>, Seq<char>)>, k: Seq<char>, v: Seq<char>)
    requires
        keys_unique(s),
    ensures
        has_key(insert_entry(s, k, v), k),
        exists|i: int| 0 <= i < insert_entry(s, k, v).len() && #[trigger] insert_entry(s, k, v)[i] == (k, v),
        keys_unique(insert_entry(s, k, v)),
        forall|j: int| 0 <= j < s.len() && s[j].0 != k ==> insert_entry(s, k, v).contains(#[trigger] s[j]),
{
    let t = insert_entry(s, k, v);
    if has_key(s, k) {
        let i = choose|i: int| 0 <= i < s.len() && (#[trigger] s[i]).0 == k;
        assert(t[i] == (k, v));
        assert forall|a: int, b: int| 0 <= a < b < t.len() implies (#[trigger] t[a]).0 != (#[trigger] t[b]).0 by {
            assert(s[a].0 != s[b].0);
        }
        assert forall|j: int| 0 <= j < s.len() && s[j].0 != k implies t.contains(#[trigger] s[j]) by {
            assert(t[j] == s[j]);
        }
    } else {
        assert(t[s.len() as int] == (k, v));
        assert forall|a: int, b: int| 0 <= a < b < t.len() implies (#[trigger] t[a]).0 != (#[trigger] t[b]).0 by {
            if b == s.len() {
                assert(t[a] == s[a]);
            } else {
                assert(t[a] == s[a] && t[b] == s[b]);
            }
        }
        assert forall|j: int| 0 <= j < s.len() && s[j].0 != k implies t.contains(#[trigger] s[j]) by {
            assert(t[j] == s[j]);
        }
    }
}

/// A module that has begun and not finished is reported as an import cycle
/// when it is begun again: it is pending and not compiled.
pub proof fn law_begun_module_is_pending(c1: Compiler, c2: Compiler, p: Seq<char>)
    requires
        !has_key(c1.entries(), p),
        c2.entries() == c1.entries(),
        c2.pending() == c1.pending().push(p),
    ensures
        !has_key(c2.entries(), p),
        c2.pending().contains(p),
{
    assert(c2.pending()[c1.pending().len() as int] == p);
}

impl Compiler {
    /// The compiled modules in the order they were recorded: source path and
    /// Python text.
    pub closed spec fn entries(&self) -> Seq<(Seq<char>, Seq<char>)> {
        entries_v(self.compiled@)
    }

    /// The modules whose compilation has begun and not ended.
    pub closed spec fn pending(&self) -> Seq<Seq<char>> {
        strs_v(self.in_progress@)
    }

    /// Each module is recorded once, and begun at most once.
    pub open spec fn wf(&self) -> bool {
        keys_unique(self.entries()) && paths_unique(self.pending())
    }

    /// A compiler that has compiled nothing.
    pub fn new() -> (c: Compiler)
        ensures
            c.wf(),
            c.entries() == Seq::<(Seq<char>, Seq<char>)>::empty(),
            c.pending() == Seq::<Seq<char>>::empty(),
    {
        let c = Compiler { compiled: Vec::new(), in_progress: Vec::new() };
        proof {
            assert(c.entries() =~= Seq::<(Seq<char>, Seq<char>)>::empty());
            assert(c.pending() =~= Seq::<Seq<char>>::empty());
        }
        c
    }

    /// Starts compiling the module in `path` (a canonical path): nothing to do
    /// where it was compiled already, an import cycle where it is being
    /// compiled, and otherwise the module is marked as begun.
    pub fn begin_module(&mut self, path: String) -> (r: Result<ModuleStart, CompileError>)
        requires
            old(self).wf(),
        ensures
            final(self).wf(),
            final(self).entries() == old(self).entries(),
            has_key(old(self).entries(), path@) ==> (r matches Ok(ModuleStart::AlreadyCompiled))
                && final(self).pending() == old(self).pending(),
            !has_key(old(self).entries(), path@) && old(self).pending().contains(path@) ==> (r matches Err(e) && e@
                == spec_error("circular import: "@ + path@, Span::spec_dummy())) && final(self).pending()
                == old(self).pending(),
            !has_key(old(self).entries(), path@) && !old(self).pending().contains(path@) ==> (r matches Ok(
                ModuleStart::Begun,
            )) && final(self).pending() == old(self).pending().push(path@),
    {
        let mut i: usize = 0;
        while i < self.compiled.len()
            invariant
                *self == *old(self),
                self.wf(),
                i <= self.compiled.len(),
                forall|j: int| 0 <= j < i ==> (#[trigger] self.entries()[j]).0 != path@,
            decreases self.compiled.len() - i,
        {
            if str_eq(&self.compiled[i].0, &path) {
                proof {
                    assert(self.entries()[i as int].0 == path@);
                }
                return Ok(ModuleStart::AlreadyCompiled);
            }
            i = i + 1;
        }
        let mut j: usize = 0;
        while j < self.in_progress.len()
            invariant
                *self == *old(self),
                self.wf(),
                !has_key(self.entries(), path@),
                j <= self.in_progress.len(),
                forall|m: int| 0 <= m < j ==> #[trigger] self.pending()[m] != path@,
            decreases self.in_progress.len() - j,
        {
            if str_eq(&self.in_progress[j], &path) {
                proof {
                    assert(self.pending()[j as int] == path@);
                }
                let mut msg = string_from("circular import: ");
                push_str(&mut msg, path.as_str());
                return Err(error_at(msg, Span::dummy()));
            }
            j = j + 1;
        }
        let ghost old_pending = self.pending();
        self.in_progress.push(path);
        proof {
            assert(self.pending() =~= old_pending.push(path@));
            assert(!old_pending.contains(path@));
            assert forall|a: int, b: int| 0 <= a < b < self.pending().len() implies #[trigger] self.pending()[a]
                != #[trigger] self.pending()[b] by {
                if b == old_pending.len() {
                    assert(old_pending[a] == self.pending()[a]);
                }
            }
        }
        Ok(ModuleStart::Begun)
    }

    /// Finishes the module in `path`, parsed as `module`: type-checks it and,
    /// where that succeeds, records its Python text and ends its compilation.
    pub fn finish_module(&mut self, path: String, module: &Module) -> (r: Result<(), CompileError>)
        requires
            old(self).wf(),
            imports_named(module_v(*module).body),
        ensures
            final(self).wf(),
            match s_check_stmts(seq![builtin_scope()], module_v(*module).body, 0) {
                Err(e) => (r matches Err(x) && x@ == e) && final(self).entries() == old(self).entries()
                    && final(self).pending() == old(self).pending(),
                Ok(_) => r is Ok && final(self).entries() == insert_entry(
                    old(self).entries(),
                    path@,
                    e_stmts(module_v(*module).body, 0),
                ) && final(self).pending() == remove_path(old(self).pending(), path@),
            },
    {
        let mut checker = TypeChecker::new();
        match checker.check_module(module) {
            Err(e) => return Err(e),
            Ok(()) => {},
        }
        let python = PythonEmitter::new().emit_module(module);
        proof {
            assert(Seq::<char>::empty() + e_stmts(module_v(*module).body, 0) =~= e_stmts(module_v(*module).body, 0));
        }
        self.record(path, python);
        Ok(())
    }

    /// Records `python` as the output of `path` and ends its compilation.
    fn record(&mut self, path: String, python: String)
        requires
            old(self).wf(),
        ensures
            final(self).wf(),
            final(self).entries() == insert_entry(old(self).entries(), path@, python@),
            final(self).pending() == remove_path(old(self).pending(), path@),
    {
        let ghost es = self.entries();
        let ghost ps = self.pending();
        let mut entries: Vec<(String, String)> = Vec::new();
        let mut found = false;
        let mut i: usize = 0;
        while i < self.compiled.len()
            invariant
                es == entries_v(self.compiled@),
                keys_unique(es),
                i <= self.compiled.len(),
                entries@.len() == i,
                found == (exists|j: int| 0 <= j < i && (#[trigger] es[j]).0 == path@),
                forall|j: int| 0 <= j < i ==> #[trigger] entries_v(entries@)[j] == (if es[j].0 == path@ {
                    (path@, python@)
                } else {
                    es[j]
                }),
            decreases self.compiled.len() - i,
        {
            let ghost before = entries@;
            if str_eq(&self.compiled[i].0, &path) {
                entries.push((path.clone(), python.clone()));
                found = true;
            } else {
                entries.push((self.compiled[i].0.clone(), self.compiled[i].1.clone()));
            }
            proof {
                assert(entries_v(entries@)[i as int] == (if es[i as int].0 == path@ {
                    (path@, python@)
                } else {
                    es[i as int]
                }));
                assert forall|j: int| 0 <= j < i + 1 implies #[trigger] entries_v(entries@)[j] == (if es[j].0 == path@ {
                    (path@, python@)
                } else {
                    es[j]
                }) by {
                    if j < i {
                        assert(entries@[j] == before[j]);
                        assert(entries_v(entries@)[j] == entries_v(before)[j]);
                    }
                }
            }
            i = i + 1;
        }
        if !found {
            proof {
                assert(!has_key(es, path@));
            }
            let ghost pre = entries@;
            entries.push((path.clone(), python));
            proof {
                assert forall|j: int| 0 <= j < es.len() implies entries_v(entries@)[j] == es[j] by {
                    assert(entries@[j] == pre[j]);
                    assert(entries_v(pre)[j] == es[j]);
                }
                assert(entries_v(entries@) =~= es.push((path@, python@)));
                assert forall|a: int, b: int| 0 <= a < b < entries_v(entries@).len() implies (#[trigger] entries_v(
                    entries@,
                )[a]).0 != (#[trigger] entries_v(entries@)[b]).0 by {
                    if b == es.len() {
                        assert(es[a] == entries_v(entries@)[a]);
                    }
                }
            }
        } else {
            proof {
                assert(has_key(es, path@));
                assert(entries_v(entries@) =~= insert_entry(es, path@, python@));
            }
        }
        self.compiled = entries;
        let mut rest: Vec<String> = Vec::new();
        let mut k: usize = 0;
        proof {
            assert(ps.take(0) =~= Seq::<Seq<char>>::empty());
            assert(strs_v(rest@) =~= remove_path(ps.take(0), path@));
        }
        while k < self.in_progress.len()
            invariant
                ps == strs_v(self.in_progress@),
                k <= self.in_progress.len(),
                strs_v(rest@) == remove_path(ps.take(k as int), path@),
            decreases self.in_progress.len() - k,
        {
            let ghost before = rest@;
            proof {
                assert(ps.take(k + 1).drop_last() =~= ps.take(k as int));
                assert(ps.take(k + 1).last() == ps[k as int]);
            }
            if !str_eq(&self.in_progress[k], &path) {
                rest.push(self.in_progress[k].clone());
                proof {
                    assert(strs_v(rest@) =~= strs_v(before).push(ps[k as int]));
                }
            }
            k = k + 1;
        }
        proof {
            assert(ps.take(k as int) =~= ps);
            law_ended_module_not_pending(ps, path@);
        }
        self.in_progress = rest;
    }

    /// The outputs: for each compiled module, its `.py` path and its Python
    /// text, in the order they were recorded.
    pub fn outputs(&self) -> (r: Vec<(String, String)>)
        ensures
            entries_v(r@) == self.entries().map_values(|e: (Seq<char>, Seq<char>)| (py_path(e.0), e.1)),
    {
        let mut out: Vec<(String, String)> = Vec::new();
        let mut i: usize = 0;
        while i < self.compiled.len()
            invariant
                i <= self.compiled.len(),
                entries_v(out@) == self.entries().take(i as int).map_values(
                    |e: (Seq<char>, Seq<char>)| (py_path(e.0), e.1),
                ),
            decreases self.compiled.len() - i,
        {
            let p = py_path_of(self.compiled[i].0.as_str());
            let t = self.compiled[i].1.clone();
            let ghost before = out@;
            out.push((p, t));
            proof {
                assert(entries_v(out@) =~= entries_v(before).push((p@, t@)));
                assert(self.entries()[i as int] == (self.compiled@[i as int].0@, self.compiled@[i as int].1@));
                assert(self.entries().take(i + 1) =~= self.entries().take(i as int).push(self.entries()[i as int]));
                assert(entries_v(out@) =~= self.entries().take(i + 1).map_values(
                    |e: (Seq<char>, Seq<char>)| (py_path(e.0), e.1),
                ));
            }
            i = i + 1;
        }
        proof {
            assert(self.entries().take(i as int) =~= self.entries());
        }
        out
    }

    /// The error for a file that could not be read or resolved.
    pub fn io_error(&self, path: &str, msg: &str) -> (e: CompileError)
        ensures
            e@ == spec_error("error reading "@ + path@ + ": "@ + msg@, Span::spec_dummy()),
    {
        let mut s = string_from("error reading ");
        push_str(&mut s, path);
        push_str(&mut s, ": ");
        push_str(&mut s, msg);
        error_at(s, Span::dummy())
    }
}

} // verus!
