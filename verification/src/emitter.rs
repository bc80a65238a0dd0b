//! The Python emitter: a module's syntax tree to Python source text.

use vstd::prelude::*;
use crate::ast::{
    BinOp, DataDecl, Expr, ExprV, FieldDecl, ForStmt, FuncDef, IfStmt, ImplBlock, ImplKind, ImportKind,
    ImportStmt, Module, Param, ReturnStmt, Statement, StatementV, TypeExpr, UnaryOp, WhileStmt, elifs_v,
    expr_v, exprs_v, fields_v, func_v, funcs_v, import_kind_v, import_names_v, impl_kind_v, module_v,
    params_v, stmt_v, stmts_v, strs_v, type_v, types_v,
};
use crate::emit_spec::{
    alias_text, concat, dot_index, dunder, e_body, e_data, e_elifs, e_expr, e_exprs, e_func, e_funcs,
    e_impl_method, e_impl_methods, e_if, data_init, data_eq, data_repr, e_impl, e_stmt, e_stmt_texts, e_stmts, eq_terms, esc_char, escape, float_text, nl,
    impl_target, import_name_texts, import_text, ind_text, init_lines, init_params, int_text,
    is_builtin_type_name, op_text, param_names, path_text, repr_terms, strip_leading_zeros,
    strip_trailing_zeros,
};
use crate::text::{chars_of, push_char, push_decimal_u64, push_str, push_string, str_eq};
use crate::types::{join, lemma_join_push};

verus! {

pub struct PythonEmitter {
    output: String,
    indent: usize,
}

proof fn lemma_ind_text_succ(n: nat)
    ensures
        ind_text(n + 1) == ind_text(n) + "    "@,
{
}

proof fn lemma_concat_push(s: Seq<Seq<char>>, x: Seq<char>)
    ensures
        concat(s.push(x)) == concat(s) + x,
{
    lemma_join_push(s, x, Seq::empty());
    if s.len() > 0 {
        assert(concat(s) + Seq::<char>::empty() + x =~= concat(s) + x);
    } else {
        assert(s.push(x).len() == 1);
        assert(concat(s) =~= Seq::<char>::empty());
        assert(concat(s) + x =~= x);
    }
}

proof fn lemma_join_step(s: Seq<Seq<char>>, i: int, sep: Seq<char>)
    requires
        0 <= i < s.len(),
    ensures
        join(s.take(i + 1), sep) == if i == 0 { s[0] } else { join(s.take(i), sep) + sep + s[i] },
{
    lemma_join_push(s.take(i), s[i], sep);
    assert(s.take(i).push(s[i]) =~= s.take(i + 1));
}

proof fn lemma_concat_step(s: Seq<Seq<char>>, i: int)
    requires
        0 <= i < s.len(),
    ensures
        concat(s.take(i + 1)) == concat(s.take(i)) + s[i],
{
    lemma_concat_push(s.take(i), s[i]);
    assert(s.take(i).push(s[i]) =~= s.take(i + 1));
}

proof fn lemma_escape_step(s: Seq<char>, i: int)
    requires
        0 <= i < s.len(),
    ensures
        escape(s.take(i + 1)) == escape(s.take(i)) + esc_char(s[i]),
{
    assert(s.take(i + 1).drop_last() =~= s.take(i));
}

proof fn lemma_dot_index(t: Seq<char>, i: int)
    requires
        0 <= i <= t.len(),
        forall|j: int| 0 <= j < i ==> t[j] != '.',
    ensures
        dot_index(t) == i + dot_index(t.skip(i)),
    decreases i,
{
    if i > 0 {
        lemma_dot_index(t.drop_first(), i - 1);
        assert(t.drop_first().skip(i - 1) =~= t.skip(i));
    } else {
        assert(t.skip(0) =~= t);
    }
}

proof fn lemma_strip_leading(s: Seq<char>, a: int)
    requires
        0 <= a < s.len(),
        forall|j: int| 0 <= j < a ==> s[j] == '0',
    ensures
        strip_leading_zeros(s) == strip_leading_zeros(s.skip(a)),
    decreases a,
{
    if a > 0 {
        lemma_strip_leading(s.drop_first(), a - 1);
        assert(s.drop_first().skip(a - 1) =~= s.skip(a));
    } else {
        assert(s.skip(0) =~= s);
    }
}

proof fn lemma_strip_trailing(s: Seq<char>, b: int)
    requires
        0 <= b <= s.len(),
        forall|j: int| b <= j < s.len() ==> s[j] == '0',
    ensures
        strip_trailing_zeros(s) == strip_trailing_zeros(s.take(b)),
    decreases s.len() - b,
{
    if b < s.len() {
        lemma_strip_trailing(s.drop_last(), b);
        assert(s.drop_last().take(b) =~= s.take(b));
    } else {
        assert(s.take(b) =~= s);
    }
}

/// Appends the decimal notation of `v`.
fn push_int(out: &mut String, v: i64)
    ensures
        final(out)@ == old(out)@ + int_text(v),
{
    if v < 0 {
        push_str(out, "-");
        let m: u64 = ((-(v + 1)) as u64) + 1;
        assert(m == -(v as int));
        push_decimal_u64(out, m);
        assert(final(out)@ =~= old(out)@ + int_text(v));
    } else {
        push_decimal_u64(out, v as u64);
    }
}

/// Appends a float literal's text in the form Python reads back.
fn push_float(out: &mut String, t: &String)
    ensures
        final(out)@ == old(out)@ + float_text(t@),
{
    let cs = chars_of(t.as_str());
    let ghost ts = t@;
    let n = cs.len();
    let mut d: usize = 0;
    while d < n && cs[d] != '.'
        invariant
            cs@ == ts,
            n == ts.len(),
            d <= n,
            forall|j: int| 0 <= j < d ==> ts[j] != '.',
        decreases n - d,
    {
        d = d + 1;
    }
    proof {
        lemma_dot_index(ts, d as int);
        if d < n {
            assert(dot_index(ts.skip(d as int)) == 0);
        } else {
            assert(ts.skip(d as int).len() == 0);
        }
    }
    let ghost ip = ts.take(d as int);
    let mut a: usize = 0;
    while a + 1 < d && cs[a] == '0'
        invariant
            cs@ == ts,
            d <= n,
            n == ts.len(),
            ip == ts.take(d as int),
            a < d || (a == 0 && d == 0),
            forall|j: int| 0 <= j < a ==> ip[j] == '0',
        decreases d - a,
    {
        a = a + 1;
    }
    proof {
        if d > 0 {
            lemma_strip_leading(ip, a as int);
            assert(ip.skip(a as int).len() == 1 || ip.skip(a as int)[0] != '0');
        } else {
            assert(ip.len() == 0);
        }
    }
    let mut i = a;
    while i < d
        invariant
            cs@ == ts,
            a <= i <= d,
            d <= n,
            n == ts.len(),
            out@ == old(out)@ + ts.subrange(a as int, i as int),
        decreases d - i,
    {
        push_char(out, cs[i]);
        i = i + 1;
        assert(out@ =~= old(out)@ + ts.subrange(a as int, i as int));
    }
    proof {
        assert(ts.subrange(a as int, d as int) =~= ip.skip(a as int));
        assert(strip_leading_zeros(ip) == ip.skip(a as int));
    }
    push_str(out, ".");
    let ghost mid = out@;
    let ghost fp0: Seq<char> = if d < n { ts.skip(d as int + 1) } else { Seq::<char>::empty() };
    let start = if d < n { d + 1 } else { n };
    let mut b = n;
    while b > start && cs[b - 1] == '0'
        invariant
            cs@ == ts,
            n == ts.len(),
            start <= b <= n,
            start == (if d < n { d + 1 } else { n as int }),
            forall|j: int| b <= j < n ==> ts[j] == '0',
        decreases b,
    {
        b = b - 1;
    }
    proof {
        if d < n {
            assert(fp0 =~= ts.subrange(start as int, n as int));
            lemma_strip_trailing(fp0, b - start);
            assert(fp0.take(b - start) =~= ts.subrange(start as int, b as int));
        } else {
            assert(fp0.len() == 0);
        }
    }
    if b == start {
        push_str(out, "0");
    } else {
        let mut k = start;
        while k < b
            invariant
                cs@ == ts,
                start <= k <= b,
                b <= n,
                n == ts.len(),
                out@ == mid + ts.subrange(start as int, k as int),
            decreases b - k,
        {
            push_char(out, cs[k]);
            k = k + 1;
            assert(out@ =~= mid + ts.subrange(start as int, k as int));
        }
    }
    proof {
        let fp = strip_trailing_zeros(fp0);
        if d < n {
            assert(fp == ts.subrange(start as int, b as int));
        } else {
            assert(fp == fp0);
        }
        assert(out@ =~= old(out)@ + float_text(ts));
    }
}

/// Appends a string literal's contents, escaped for a Python string literal.
fn push_escaped(out: &mut String, s: &String)
    ensures
        final(out)@ == old(out)@ + escape(s@),
{
    let cs = chars_of(s.as_str());
    let mut i: usize = 0;
    while i < cs.len()
        invariant
            cs@ == s@,
            i <= cs.len(),
            out@ == old(out)@ + escape(s@.take(i as int)),
        decreases cs.len() - i,
    {
        proof {
            lemma_escape_step(s@, i as int);
        }
        let c = cs[i];
        if c == '"' {
            push_str(out, "\\\"");
        } else if c == '\\' {
            push_str(out, "\\\\");
        } else if c == '\n' {
            push_str(out, "\\n");
        } else if c == '\t' {
            push_str(out, "\\t");
        } else {
            push_char(out, c);
        }
        i = i + 1;
        assert(out@ =~= old(out)@ + escape(s@.take(i as int)));
    }
    assert(s@.take(cs.len() as int) =~= s@);
}

/// Appends names separated by `sep`.
pub(crate) fn push_joined(out: &mut String, names: &Vec<String>, sep: &str)
    ensures
        final(out)@ == old(out)@ + join(strs_v(names@), sep@),
{
    let ghost ns = strs_v(names@);
    let mut i: usize = 0;
    while i < names.len()
        invariant
            ns == strs_v(names@),
            i <= names.len(),
            out@ == old(out)@ + join(ns.take(i as int), sep@),
        decreases names.len() - i,
    {
        proof {
            lemma_join_step(ns, i as int, sep@);
        }
        if i > 0 {
            push_str(out, sep);
        }
        push_string(out, &names[i]);
        i = i + 1;
        assert(out@ =~= old(out)@ + join(ns.take(i as int), sep@));
    }
    assert(ns.take(names.len() as int) =~= ns);
}

/// Appends parameter names separated by `, `.
fn push_param_names(out: &mut String, params: &Vec<Param>)
    ensures
        final(out)@ == old(out)@ + join(param_names(params_v(params@)), ", "@),
{
    let ghost ns = param_names(params_v(params@));
    let mut i: usize = 0;
    while i < params.len()
        invariant
            ns == param_names(params_v(params@)),
            i <= params.len(),
            out@ == old(out)@ + join(ns.take(i as int), ", "@),
        decreases params.len() - i,
    {
        proof {
            lemma_join_step(ns, i as int, ", "@);
        }
        if i > 0 {
            push_str(out, ", ");
        }
        push_string(out, &params[i].name);
        i = i + 1;
        assert(out@ =~= old(out)@ + join(ns.take(i as int), ", "@));
    }
    assert(ns.take(params.len() as int) =~= ns);
}

fn push_alias(out: &mut String, alias: &Option<String>)
    ensures
        final(out)@ == old(out)@ + alias_text(crate::ast::opt_str_v(*alias)),
{
    match alias {
        Some(a) => {
            push_str(out, " as ");
            push_string(out, a);
        },
        None => {},
    }
}

fn op_str(op: BinOp) -> (s: &'static str)
    ensures
        s@ == op_text(op),
{
    match op {
        BinOp::Add => " + ",
        BinOp::Sub => " - ",
        BinOp::Mul => " * ",
        BinOp::Div => " / ",
        BinOp::Eq => " == ",
        BinOp::NotEq => " != ",
        BinOp::Lt => " < ",
        BinOp::Gt => " > ",
        BinOp::LtEq => " <= ",
        BinOp::GtEq => " >= ",
        BinOp::And => " and ",
        BinOp::Or => " or ",
    }
}

impl PythonEmitter {
    /// The emitted text so far.
    pub closed spec fn text(&self) -> Seq<char> {
        self.output@
    }

    /// The current indentation level.
    pub closed spec fn level(&self) -> usize {
        self.indent
    }

    /// An emitter with no output, at the outermost level.
    pub fn new() -> (e: PythonEmitter)
        ensures
            e.text() == Seq::<char>::empty(),
            e.level() == 0,
    {
        PythonEmitter { output: String::new(), indent: 0 }
    }

    /// The Python source for `module`: the text emitted so far, followed by
    /// each statement of the module in order.
    pub fn emit_module(self, module: &Module) -> (out: String)
        ensures
            out@ == self.text() + e_stmts(module_v(*module).body, self.level() as nat),
    {
        let mut em = self;
        em.emit_stmts(&module.body);
        em.output
    }

    fn write_indent(&mut self)
        ensures
            final(self).output@ == old(self).output@ + ind_text(old(self).indent as nat),
            final(self).indent == old(self).indent,
    {
        let mut i: usize = 0;
        while i < self.indent
            invariant
                i <= self.indent,
                self.indent == old(self).indent,
                self.output@ == old(self).output@ + ind_text(i as nat),
            decreases self.indent - i,
        {
            push_str(&mut self.output, "    ");
            i = i + 1;
            proof {
                lemma_ind_text_succ((i - 1) as nat);
            }
            assert(self.output@ =~= old(self).output@ + ind_text(i as nat));
        }
    }

    fn emit_expr(&mut self, expr: &Expr)
        ensures
            final(self).output@ == old(self).output@ + e_expr(expr_v(*expr)),
            final(self).indent == old(self).indent,
        decreases expr, 0int,
    {
        match expr {
            Expr::IntLiteral(v, _) => push_int(&mut self.output, *v),
            Expr::FloatLiteral(t, _) => push_float(&mut self.output, t),
            Expr::StringLiteral(s, _) => {
                push_str(&mut self.output, "\"");
                push_escaped(&mut self.output, s);
                push_str(&mut self.output, "\"");
            },
            Expr::BoolLiteral(b, _) => {
                if *b {
                    push_str(&mut self.output, "True");
                } else {
                    push_str(&mut self.output, "False");
                }
            },
            Expr::NoneLiteral(_) => push_str(&mut self.output, "None"),
            Expr::Name(n, _) => push_string(&mut self.output, n),
            Expr::BinOp(b) => {
                push_str(&mut self.output, "(");
                self.emit_expr(&b.left);
                push_str(&mut self.output, op_str(b.op));
                self.emit_expr(&b.right);
                push_str(&mut self.output, ")");
            },
            Expr::UnaryOp(u) => {
                match u.op {
                    UnaryOp::Neg => push_str(&mut self.output, "(-"),
                    UnaryOp::Not => push_str(&mut self.output, "(not "),
                }
                self.emit_expr(&u.operand);
                push_str(&mut self.output, ")");
            },
            Expr::Call(c) => {
                self.emit_expr(&c.callee);
                push_str(&mut self.output, "(");
                self.emit_list(&c.args);
                push_str(&mut self.output, ")");
            },
            Expr::Attr(a) => {
                self.emit_expr(&a.object);
                push_str(&mut self.output, ".");
                push_string(&mut self.output, &a.attr);
            },
            Expr::ListLiteral(es, _) => {
                push_str(&mut self.output, "[");
                self.emit_list(es);
                push_str(&mut self.output, "]");
            },
            Expr::Index(x) => {
                self.emit_expr(&x.object);
                push_str(&mut self.output, "[");
                self.emit_expr(&x.index);
                push_str(&mut self.output, "]");
            },
        }
    }

    /// Expressions separated by `, `.
    fn emit_list(&mut self, es: &Vec<Expr>)
        ensures
            final(self).output@ == old(self).output@ + join(e_exprs(exprs_v(es@)), ", "@),
            final(self).indent == old(self).indent,
        decreases es, 0int,
    {
        let ghost texts = e_exprs(exprs_v(es@));
        let mut i: usize = 0;
        while i < es.len()
            invariant
                texts == e_exprs(exprs_v(es@)),
                i <= es.len(),
                self.indent == old(self).indent,
                self.output@ == old(self).output@ + join(texts.take(i as int), ", "@),
            decreases es.len() - i,
        {
            proof {
                lemma_join_step(texts, i as int, ", "@);
                assert(decreases_to!(es => es@));
                assert(decreases_to!(es@ => es@[i as int]));
            }
            if i > 0 {
                push_str(&mut self.output, ", ");
            }
            self.emit_expr(&es[i]);
            i = i + 1;
            assert(self.output@ =~= old(self).output@ + join(texts.take(i as int), ", "@));
        }
        assert(texts.take(es.len() as int) =~= texts);
    }
}


impl PythonEmitter {
    /// Each statement of `stmts` in order, at the current level.
    fn emit_stmts(&mut self, stmts: &Vec<Statement>)
        ensures
            final(self).output@ == old(self).output@ + e_stmts(stmts_v(stmts@), old(self).indent as nat),
            final(self).indent == old(self).indent,
        decreases stmts, 0int,
    {
        let ghost texts = e_stmt_texts(stmts_v(stmts@), self.indent as nat);
        let mut i: usize = 0;
        while i < stmts.len()
            invariant
                texts == e_stmt_texts(stmts_v(stmts@), old(self).indent as nat),
                i <= stmts.len(),
                self.indent == old(self).indent,
                self.output@ == old(self).output@ + concat(texts.take(i as int)),
            decreases stmts.len() - i,
        {
            proof {
                lemma_concat_step(texts, i as int);
                reveal(e_stmt);
                assert(stmts_v(stmts@)[i as int] == stmt_v(stmts@[i as int]));
                assert(texts[i as int] == e_stmt(stmt_v(stmts@[i as int]), old(self).indent as nat));
                assert(decreases_to!(stmts => stmts@));
                assert(decreases_to!(stmts@ => stmts@[i as int]));
            }
            self.emit_statement(&stmts[i]);
            i = i + 1;
        }
        assert(texts.take(stmts.len() as int) =~= texts);
    }

    /// A body of statements one level deeper, or `pass` when it is empty.
    fn emit_body(&mut self, stmts: &Vec<Statement>)
        ensures
            final(self).output@ == old(self).output@ + e_body(stmts_v(stmts@), nl(old(self).indent as nat)),
            final(self).indent == old(self).indent,
        decreases stmts, 1int,
    {
        let saved = self.indent;
        self.indent = next_level(saved);
        if stmts.len() == 0 {
            self.write_indent();
            push_str(&mut self.output, "pass\n");
        } else {
            self.emit_stmts(stmts);
        }
        self.indent = saved;
    }

    /// A body of statements one level deeper.
    fn emit_nested(&mut self, stmts: &Vec<Statement>)
        ensures
            final(self).output@ == old(self).output@ + e_stmts(stmts_v(stmts@), nl(old(self).indent as nat)),
            final(self).indent == old(self).indent,
        decreases stmts, 1int,
    {
        let saved = self.indent;
        self.indent = next_level(saved);
        self.emit_stmts(stmts);
        self.indent = saved;
    }

    fn emit_statement(&mut self, stmt: &Statement)
        ensures
            final(self).output@ == old(self).output@ + e_stmt(stmt_v(*stmt), old(self).indent as nat),
            final(self).indent == old(self).indent,
        decreases stmt, 2int,
    {
        proof { reveal(e_stmt); }
        match stmt {
            Statement::Let(b) => {
                self.write_indent();
                push_string(&mut self.output, &b.name);
                push_str(&mut self.output, " = ");
                self.emit_expr(&b.value);
                push_str(&mut self.output, "\n");
            },
            Statement::Assign(a) => {
                self.write_indent();
                self.emit_expr(&a.target);
                push_str(&mut self.output, " = ");
                self.emit_expr(&a.value);
                push_str(&mut self.output, "\n");
            },
            Statement::FuncDef(f) => self.emit_func_def(f),
            Statement::DataDecl(d) => self.emit_data_decl(d),
            Statement::If(i) => self.emit_if(i),
            Statement::Return(r) => {
                self.write_indent();
                match &r.value {
                    Some(v) => {
                        push_str(&mut self.output, "return ");
                        self.emit_expr(v);
                    },
                    None => push_str(&mut self.output, "return"),
                }
                push_str(&mut self.output, "\n");
            },
            Statement::Expr(e) => {
                self.write_indent();
                self.emit_expr(&e.expr);
                push_str(&mut self.output, "\n");
            },
            Statement::TypeclassDecl(_) => {},
            Statement::Impl(b) => self.emit_impl_block(b),
            Statement::For(f) => {
                self.write_indent();
                push_str(&mut self.output, "for ");
                push_string(&mut self.output, &f.var_name);
                push_str(&mut self.output, " in ");
                self.emit_expr(&f.iterable);
                push_str(&mut self.output, ":\n");
                self.emit_nested(&f.body);
            },
            Statement::While(w) => {
                self.write_indent();
                push_str(&mut self.output, "while ");
                self.emit_expr(&w.condition);
                push_str(&mut self.output, ":\n");
                self.emit_nested(&w.body);
            },
            Statement::Import(i) => {
                self.write_indent();
                self.emit_import(i);
                push_str(&mut self.output, "\n");
            },
        }
    }

    fn emit_import(&mut self, import: &ImportStmt)
        ensures
            final(self).output@ == old(self).output@ + import_text(import_kind_v(import.kind)),
            final(self).indent == old(self).indent,
    {
        match &import.kind {
            ImportKind::Simple { path, alias } => {
                push_str(&mut self.output, "import ");
                push_joined(&mut self.output, path, ".");
                push_alias(&mut self.output, alias);
            },
            ImportKind::From { path, names } => {
                push_str(&mut self.output, "from ");
                push_joined(&mut self.output, path, ".");
                push_str(&mut self.output, " import ");
                let ghost texts = import_name_texts(import_names_v(names@));
                let ghost mid = self.output@;
                let mut i: usize = 0;
                while i < names.len()
                    invariant
                        texts == import_name_texts(import_names_v(names@)),
                        i <= names.len(),
                        self.indent == old(self).indent,
                        self.output@ == mid + join(texts.take(i as int), ", "@),
                    decreases names.len() - i,
                {
                    proof {
                        lemma_join_step(texts, i as int, ", "@);
                    }
                    if i > 0 {
                        push_str(&mut self.output, ", ");
                    }
                    push_string(&mut self.output, &names[i].name);
                    push_alias(&mut self.output, &names[i].alias);
                    i = i + 1;
                    assert(self.output@ =~= mid + join(texts.take(i as int), ", "@));
                }
                assert(texts.take(names.len() as int) =~= texts);
            },
        }
    }

    fn emit_func_def(&mut self, func: &FuncDef)
        ensures
            final(self).output@ == old(self).output@ + e_func(func_v(*func), old(self).indent as nat),
            final(self).indent == old(self).indent,
        decreases func, 0int,
    {
        self.write_indent();
        push_str(&mut self.output, "def ");
        push_string(&mut self.output, &func.name);
        push_str(&mut self.output, "(");
        push_param_names(&mut self.output, &func.params);
        push_str(&mut self.output, "):\n");
        self.emit_body(&func.body);
        push_str(&mut self.output, "\n");
    }

    fn emit_data_init(&mut self, fields: &Vec<FieldDecl>)
        ensures
            final(self).output@ == old(self).output@ + data_init(fields_v(fields@), old(self).indent as nat),
            final(self).indent == old(self).indent,
    {
        let ghost fs = fields_v(fields@);
        let ind0 = self.indent;
        let lv1 = next_level(ind0);
        let lv2 = next_level(lv1);
        self.indent = lv1;
        self.write_indent();
        push_str(&mut self.output, "def __init__(self");
        let ghost ps = init_params(fs);
        let ghost m0 = self.output@;
        let mut i: usize = 0;
        while i < fields.len()
            invariant
                ps == init_params(fs),
                fs == fields_v(fields@),
                i <= fields.len(),
                self.output@ == m0 + concat(ps.take(i as int)),
            decreases fields.len() - i,
        {
            proof { lemma_concat_step(ps, i as int); }
            push_str(&mut self.output, ", ");
            push_string(&mut self.output, &fields[i].name);
            i = i + 1;
            assert(self.output@ =~= m0 + concat(ps.take(i as int)));
        }
        assert(ps.take(fields.len() as int) =~= ps);
        push_str(&mut self.output, "):\n");
        self.indent = lv2;
        if fields.len() == 0 {
            self.write_indent();
            push_str(&mut self.output, "pass\n");
        } else {
            let ghost ls = init_lines(fs, lv2 as nat);
            let ghost m1 = self.output@;
            let mut k: usize = 0;
            while k < fields.len()
                invariant
                    ls == init_lines(fs, lv2 as nat),
                    fs == fields_v(fields@),
                    k <= fields.len(),
                    self.indent == lv2,
                    self.output@ == m1 + concat(ls.take(k as int)),
                decreases fields.len() - k,
            {
                proof { lemma_concat_step(ls, k as int); }
                self.write_indent();
                push_str(&mut self.output, "self.");
                push_string(&mut self.output, &fields[k].name);
                push_str(&mut self.output, " = ");
                push_string(&mut self.output, &fields[k].name);
                push_str(&mut self.output, "\n");
                k = k + 1;
                assert(self.output@ =~= m1 + concat(ls.take(k as int)));
            }
            assert(ls.take(fields.len() as int) =~= ls);
        }
        self.indent = lv1;
        push_str(&mut self.output, "\n");
        self.indent = ind0;
    }

    fn emit_data_eq(&mut self, name: &String, fields: &Vec<FieldDecl>)
        ensures
            final(self).output@ == old(self).output@ + data_eq(name@, fields_v(fields@), old(self).indent as nat),
            final(self).indent == old(self).indent,
    {
        let ghost fs = fields_v(fields@);
        let ind0 = self.indent;
        let lv1 = next_level(ind0);
        let lv2 = next_level(lv1);
        let lv3 = next_level(lv2);
        self.indent = lv1;
        self.write_indent();
        push_str(&mut self.output, "def __eq__(self, other):\n");
        self.indent = lv2;
        self.write_indent();
        push_str(&mut self.output, "if not isinstance(other, ");
        push_string(&mut self.output, name);
        push_str(&mut self.output, "):\n");
        self.indent = lv3;
        self.write_indent();
        push_str(&mut self.output, "return NotImplemented\n");
        self.indent = lv2;
        self.write_indent();
        push_str(&mut self.output, "return ");
        if fields.len() == 0 {
            push_str(&mut self.output, "True");
        } else {
            let ghost ts = eq_terms(fs);
            let ghost m2 = self.output@;
            let mut k: usize = 0;
            while k < fields.len()
                invariant
                    ts == eq_terms(fs),
                    fs == fields_v(fields@),
                    k <= fields.len(),
                    self.output@ == m2 + join(ts.take(k as int), " and "@),
                decreases fields.len() - k,
            {
                proof { lemma_join_step(ts, k as int, " and "@); }
                if k > 0 {
                    push_str(&mut self.output, " and ");
                }
                push_str(&mut self.output, "self.");
                push_string(&mut self.output, &fields[k].name);
                push_str(&mut self.output, " == other.");
                push_string(&mut self.output, &fields[k].name);
                k = k + 1;
                assert(self.output@ =~= m2 + join(ts.take(k as int), " and "@));
            }
            assert(ts.take(fields.len() as int) =~= ts);
        }
        push_str(&mut self.output, "\n");
        self.indent = lv1;
        push_str(&mut self.output, "\n");
        self.indent = ind0;
    }

    fn emit_data_repr(&mut self, name: &String, fields: &Vec<FieldDecl>)
        ensures
            final(self).output@ == old(self).output@ + data_repr(name@, fields_v(fields@), old(self).indent as nat),
            final(self).indent == old(self).indent,
    {
        let ghost fs = fields_v(fields@);
        let ind0 = self.indent;
        let lv1 = next_level(ind0);
        let lv2 = next_level(lv1);
        self.indent = lv1;
        self.write_indent();
        push_str(&mut self.output, "def __repr__(self):\n");
        self.indent = lv2;
        self.write_indent();
        push_str(&mut self.output, "return f\"");
        push_string(&mut self.output, name);
        push_str(&mut self.output, "(");
        let ghost rs = repr_terms(fs);
        let ghost m3 = self.output@;
        let mut k: usize = 0;
        while k < fields.len()
            invariant
                rs == repr_terms(fs),
                fs == fields_v(fields@),
                k <= fields.len(),
                self.output@ == m3 + join(rs.take(k as int), ", "@),
            decreases fields.len() - k,
        {
            proof { lemma_join_step(rs, k as int, ", "@); }
            if k > 0 {
                push_str(&mut self.output, ", ");
            }
            push_string(&mut self.output, &fields[k].name);
            push_str(&mut self.output, "={self.");
            push_string(&mut self.output, &fields[k].name);
            push_str(&mut self.output, "!r}");
            k = k + 1;
            assert(self.output@ =~= m3 + join(rs.take(k as int), ", "@));
        }
        assert(rs.take(fields.len() as int) =~= rs);
        push_str(&mut self.output, ")\"\n");
        self.indent = ind0;
    }

    #[verifier::rlimit(100)]
    fn emit_data_decl(&mut self, data: &DataDecl)
        ensures
            final(self).output@ == old(self).output@ + e_data(
                data.name@,
                fields_v(data.fields@),
                funcs_v(data.methods@),
                old(self).indent as nat,
            ),
            final(self).indent == old(self).indent,
        decreases data, 0int,
    {
        let ind0 = self.indent;
        let lv1 = next_level(ind0);
        self.write_indent();
        push_str(&mut self.output, "class ");
        push_string(&mut self.output, &data.name);
        push_str(&mut self.output, ":\n");
        self.emit_data_init(&data.fields);
        self.emit_data_eq(&data.name, &data.fields);
        self.emit_data_repr(&data.name, &data.fields);
        self.indent = lv1;
        let ghost ms = e_funcs(funcs_v(data.methods@), lv1 as nat);
        let ghost m4 = self.output@;
        let mut j: usize = 0;
        while j < data.methods.len()
            invariant
                ms == e_funcs(funcs_v(data.methods@), lv1 as nat),
                j <= data.methods.len(),
                self.indent == lv1,
                self.output@ == m4 + concat(ms.take(j as int)),
            decreases data.methods.len() - j,
        {
            proof {
                lemma_concat_step(ms, j as int);
                assert(decreases_to!(data => data.methods));
                assert(decreases_to!(data.methods => data.methods@));
                assert(decreases_to!(data.methods@ => data.methods@[j as int]));
                assert(funcs_v(data.methods@)[j as int] == func_v(data.methods@[j as int]));
            }
            push_str(&mut self.output, "\n");
            self.emit_func_def(&data.methods[j]);
            j = j + 1;
            assert(self.output@ =~= m4 + concat(ms.take(j as int)));
        }
        assert(ms.take(data.methods.len() as int) =~= ms);
        self.indent = ind0;
        push_str(&mut self.output, "\n");
    }

    #[verifier::rlimit(100)]
    fn emit_if(&mut self, if_stmt: &IfStmt)
        ensures
            final(self).output@ == old(self).output@ + e_if(stmt_v(Statement::If(*if_stmt)), old(self).indent as nat),
            final(self).indent == old(self).indent,
        decreases if_stmt, 1int,
    {
        self.write_indent();
        push_str(&mut self.output, "if ");
        self.emit_expr(&if_stmt.condition);
        push_str(&mut self.output, ":\n");
        self.emit_nested(&if_stmt.then_body);
        self.emit_elifs(&if_stmt.elif_clauses);
        match &if_stmt.else_body {
            Some(b) => {
                self.write_indent();
                push_str(&mut self.output, "else:\n");
                self.emit_nested(b);
            },
            None => {},
        }
    }

    fn emit_elifs(&mut self, elifs: &Vec<(Expr, Vec<Statement>)>)
        ensures
            final(self).output@ == old(self).output@ + concat(e_elifs(elifs_v(elifs@), old(self).indent as nat)),
            final(self).indent == old(self).indent,
        decreases elifs, 0int,
    {
        let ghost ind = self.indent as nat;
        let ghost es = e_elifs(elifs_v(elifs@), ind);
        let ghost m0 = self.output@;
        let mut i: usize = 0;
        while i < elifs.len()
            invariant
                es == e_elifs(elifs_v(elifs@), ind),
                ind == old(self).indent as nat,
                m0 == old(self).output@,
                i <= elifs.len(),
                self.indent == old(self).indent,
                self.output@ == m0 + concat(es.take(i as int)),
            decreases elifs.len() - i,
        {
            proof {
                lemma_concat_step(es, i as int);
                assert(decreases_to!(elifs => elifs@));
                assert(decreases_to!(elifs@ => elifs@[i as int]));
                assert(decreases_to!(elifs@[i as int] => elifs@[i as int].1));
                assert(elifs_v(elifs@)[i as int].1 == stmts_v(elifs@[i as int].1@));
                assert(elifs_v(elifs@)[i as int].0 == expr_v(elifs@[i as int].0));
            }
            self.write_indent();
            push_str(&mut self.output, "elif ");
            self.emit_expr(&elifs[i].0);
            push_str(&mut self.output, ":\n");
            self.emit_nested(&elifs[i].1);
            i = i + 1;
            assert(self.output@ =~= m0 + concat(es.take(i as int)));
        }
        assert(es.take(elifs.len() as int) =~= es);
    }

    fn emit_impl_block(&mut self, block: &ImplBlock)
        ensures
            final(self).output@ == old(self).output@ + e_impl(stmt_v(Statement::Impl(*block)), old(self).indent as nat),
            final(self).indent == old(self).indent,
        decreases block, 1int,
    {
        let ghost ind = self.indent as nat;
        let ghost kv = impl_kind_v(block.kind);
        let instance = match &block.kind {
            ImplKind::Instance { .. } => true,
            ImplKind::Inherent { .. } => false,
        };
        let tn: &String = match &block.kind {
            ImplKind::Instance { type_args, .. } => {
                if type_args.len() == 0 {
                    return;
                }
                match &type_args[0] {
                    TypeExpr::Named(name, _) => name,
                    _ => {
                        return;
                    },
                }
            },
            ImplKind::Inherent { target_type } => target_type,
        };
        if instance && is_builtin_name(tn) {
            return;
        }
        assert(impl_target(kv) == Some(tn@));
        self.emit_impl_methods(&block.methods, tn, instance);
    }

    fn emit_impl_methods(&mut self, methods: &Vec<FuncDef>, tn: &String, instance: bool)
        ensures
            final(self).output@ == old(self).output@ + concat(
                e_impl_methods(funcs_v(methods@), tn@, instance, old(self).indent as nat),
            ),
            final(self).indent == old(self).indent,
        decreases methods, 0int,
    {
        let ghost ind = self.indent as nat;
        let ghost ms = e_impl_methods(funcs_v(methods@), tn@, instance, ind);
        let ghost m0 = self.output@;
        let mut j: usize = 0;
        while j < methods.len()
            invariant
                ms == e_impl_methods(funcs_v(methods@), tn@, instance, ind),
                ind == old(self).indent as nat,
                m0 == old(self).output@,
                j <= methods.len(),
                self.indent == old(self).indent,
                self.output@ == m0 + concat(ms.take(j as int)),
            decreases methods.len() - j,
        {
            proof {
                lemma_concat_step(ms, j as int);
                assert(decreases_to!(methods => methods@));
                assert(decreases_to!(methods@ => methods@[j as int]));
                assert(funcs_v(methods@)[j as int] == func_v(methods@[j as int]));
            }
            self.emit_impl_method(&methods[j], tn, instance);
            j = j + 1;
            assert(self.output@ =~= m0 + concat(ms.take(j as int)));
        }
        assert(ms.take(methods.len() as int) =~= ms);
    }

    #[verifier::rlimit(100)]
    fn emit_impl_method(&mut self, m: &FuncDef, tn: &String, instance: bool)
        ensures
            final(self).output@ == old(self).output@ + e_impl_method(func_v(*m), tn@, instance, old(self).indent as nat),
            final(self).indent == old(self).indent,
        decreases m, 1int,
    {
        self.write_indent();
        push_str(&mut self.output, "def ");
        let mut fname = String::new();
        push_str(&mut fname, "__");
        push_string(&mut fname, tn);
        push_str(&mut fname, "_");
        push_string(&mut fname, &m.name);
        push_string(&mut self.output, &fname);
        push_str(&mut self.output, "(");
        push_param_names(&mut self.output, &m.params);
        push_str(&mut self.output, "):\n");
        self.emit_body(&m.body);
        push_str(&mut self.output, "\n");
        self.write_indent();
        push_string(&mut self.output, tn);
        push_str(&mut self.output, ".");
        if instance {
            push_dunder(&mut self.output, &m.name);
        } else {
            push_string(&mut self.output, &m.name);
        }
        push_str(&mut self.output, " = ");
        push_string(&mut self.output, &fname);
        push_str(&mut self.output, "\n");
    }
}

/// The indentation level one deeper than `n`.
fn next_level(n: usize) -> (r: usize)
    ensures
        r as nat == nl(n as nat),
{
    if n < usize::MAX { n + 1 } else { n }
}

/// Whether `n` names one of the built-in types.
fn is_builtin_name(n: &String) -> (r: bool)
    ensures
        r == is_builtin_type_name(n@),
{
    text_is(n, "Int") || text_is(n, "Float") || text_is(n, "Str") || text_is(n, "Bool") || text_is(n, "None")
}

/// Whether `s` reads exactly `t`.
fn text_is(s: &String, t: &str) -> (r: bool)
    ensures
        r == (s@ == t@),
{
    let u = t.to_owned();
    str_eq(s, &u)
}

/// Appends the Python name of the method `name` in an instance.
fn push_dunder(out: &mut String, name: &String)
    ensures
        final(out)@ == old(out)@ + dunder(name@),
{
    if text_is(name, "add") {
        push_str(out, "__add__");
    } else if text_is(name, "sub") {
        push_str(out, "__sub__");
    } else if text_is(name, "mul") {
        push_str(out, "__mul__");
    } else if text_is(name, "div") {
        push_str(out, "__truediv__");
    } else if text_is(name, "eq") {
        push_str(out, "__eq__");
    } else if text_is(name, "lt") {
        push_str(out, "__lt__");
    } else {
        push_string(out, name);
    }
}

} // verus!
