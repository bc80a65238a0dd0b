//! Every `import` the parser produces names a module: its path has at least
//! one name, at every depth of the statements it reads.

use vstd::prelude::*;
use crate::ast::{FuncDefV, ExprV, StatementV};
use crate::check_spec::{imports_named, lemma_imports_named, lemma_imports_named_intro, stmt_imports_named};
use crate::parser::{ahead, nxt, sp_expr, sp_expect, sp_expect_ident, sp_expect_newline, sp_skip_newlines, tk};
use crate::stmt_spec::{
    skip_dedent, sp_block, sp_elifs, sp_else, sp_for, sp_funcdef, sp_if, sp_impl, sp_impl_kind, sp_impl_methods,
    sp_import, sp_module, sp_module_body, sp_more_idents, sp_opt_ident_after, sp_opt_tparams, sp_opt_type_after,
    sp_params, sp_path, sp_stmt, sp_stmts, sp_while, sp_data,
};
use crate::token::{TokenKind, TokenView};

verus! {

proof fn lemma_push_named(acc: Seq<StatementV>, s: StatementV)
    requires
        imports_named(acc),
        stmt_imports_named(s),
    ensures
        imports_named(acc.push(s)),
{
    lemma_imports_named(acc);
    assert forall|i: int| 0 <= i < acc.push(s).len() implies #[trigger] stmt_imports_named(acc.push(s)[i]) by {
        if i < acc.len() {
            assert(acc.push(s)[i] == acc[i]);
        }
    }
    lemma_imports_named_intro(acc.push(s));
}

proof fn lemma_empty_named()
    ensures
        imports_named(Seq::<StatementV>::empty()),
{
}

proof fn lemma_more_idents_len(ts: Seq<TokenView>, p: int, acc: Seq<Seq<char>>, k: TokenKind)
    ensures
        sp_more_idents(ts, p, acc, k) matches Ok((r, _)) ==> r.len() >= acc.len(),
    decreases ts.len() - p,
{
    if tk(ts, p) == k {
        match sp_expect_ident(ts, nxt(ts, p)) {
            Err(_) => {},
            Ok((n, p2)) => if ahead(ts, p, p2) {
                lemma_more_idents_len(ts, p2, acc.push(n), k);
            },
        }
    }
}

proof fn lemma_import_named(ts: Seq<TokenView>, p: int)
    ensures
        sp_import(ts, p) matches Ok((s, _)) ==> stmt_imports_named(s),
{
    match sp_expect_ident(ts, nxt(ts, p)) {
        Err(_) => {},
        Ok((n, p1)) => {
            lemma_more_idents_len(ts, p1, seq![n], TokenKind::Dot);
        },
    }
}

proof fn lemma_block_named(ts: Seq<TokenView>, p: int)
    ensures
        sp_block(ts, p) matches Ok((ss, _)) ==> imports_named(ss),
    decreases ts.len() - p, 30int,
{
    reveal(sp_block);
    reveal(sp_stmts);
    match sp_expect_newline(ts, p) {
        Err(_) => {},
        Ok(p1) => match sp_expect(ts, p1, TokenKind::Indent) {
            Err(_) => {},
            Ok(p2) => {
                let p3 = sp_skip_newlines(ts, p2);
                if ahead(ts, p, p3) {
                    lemma_empty_named();
                    lemma_stmts_named(ts, p3, Seq::empty());
                } else {
                    lemma_empty_named();
                }
            },
        },
    }
}

proof fn lemma_stmts_named(ts: Seq<TokenView>, p: int, acc: Seq<StatementV>)
    requires
        imports_named(acc),
    ensures
        sp_stmts(ts, p, acc) matches Ok((ss, _)) ==> imports_named(ss),
    decreases ts.len() - p, 29int,
{
    reveal(sp_stmts);
    reveal(sp_stmt);
    if !(tk(ts, p) == TokenKind::Dedent || tk(ts, p) == TokenKind::Eof) {
        lemma_stmt_named(ts, p);
        match sp_stmt(ts, p) {
            Err(_) => {},
            Ok((s, p1)) => {
                let p2 = sp_skip_newlines(ts, p1);
                lemma_push_named(acc, s);
                if ahead(ts, p, p2) {
                    lemma_stmts_named(ts, p2, acc.push(s));
                }
            },
        }
    }
}

proof fn lemma_stmt_named(ts: Seq<TokenView>, p: int)
    ensures
        sp_stmt(ts, p) matches Ok((s, _)) ==> stmt_imports_named(s),
    decreases ts.len() - p, 28int,
{
    reveal(sp_stmt);
    reveal(sp_funcdef);
    reveal(sp_data);
    reveal(sp_if);
    reveal(sp_impl);
    reveal(sp_for);
    reveal(sp_while);
    let k = tk(ts, p);
    if k == TokenKind::KwLet || k == TokenKind::KwMut {
    } else if k == TokenKind::KwDef {
        lemma_funcdef_named(ts, p);
    } else if k == TokenKind::KwData {
        reveal(sp_data);
    } else if k == TokenKind::KwIf {
        lemma_if_named(ts, p);
    } else if k == TokenKind::KwReturn {
    } else if k == TokenKind::KwTypeclass {
    } else if k == TokenKind::KwImpl {
        lemma_impl_named(ts, p);
    } else if k == TokenKind::KwFor {
        lemma_for_named(ts, p);
    } else if k == TokenKind::KwWhile {
        lemma_while_named(ts, p);
    } else if k == TokenKind::KwImport {
        lemma_import_named(ts, p);
    }
}

proof fn lemma_funcdef_named(ts: Seq<TokenView>, p: int)
    ensures
        sp_funcdef(ts, p) matches Ok((f, _)) ==> imports_named(f.body),
    decreases ts.len() - p, 27int,
{
    reveal(sp_funcdef);
    reveal(sp_block);
    match sp_expect_ident(ts, nxt(ts, p)) {
        Err(_) => {},
        Ok((_, p2)) => match sp_opt_tparams(ts, p2) {
            Err(_) => {},
            Ok((_, p3)) => match sp_expect(ts, p3, TokenKind::LParen) {
                Err(_) => {},
                Ok(p4) => match sp_params(ts, p4, Seq::empty()) {
                    Err(_) => {},
                    Ok((_, p5)) => match sp_expect(ts, p5, TokenKind::RParen) {
                        Err(_) => {},
                        Ok(p6) => match sp_opt_type_after(ts, p6, TokenKind::Arrow) {
                            Err(_) => {},
                            Ok((_, p7)) => match sp_expect(ts, p7, TokenKind::Colon) {
                                Err(_) => {},
                                Ok(p8) => if ahead(ts, p, p8) {
                                    lemma_block_named(ts, p8);
                                },
                            },
                        },
                    },
                },
            },
        },
    }
}

proof fn lemma_impl_named(ts: Seq<TokenView>, p: int)
    ensures
        sp_impl(ts, p) matches Ok((s, _)) ==> stmt_imports_named(s),
    decreases ts.len() - p, 27int,
{
    reveal(sp_impl);
    reveal(sp_impl_methods);
    match sp_expect_ident(ts, nxt(ts, p)) {
        Err(_) => {},
        Ok((name, p2)) => match sp_impl_kind(ts, name, p2) {
            Err(_) => {},
            Ok((_, p4)) => match sp_expect(ts, p4, TokenKind::Colon) {
                Err(_) => {},
                Ok(p5) => match sp_expect_newline(ts, p5) {
                    Err(_) => {},
                    Ok(p6) => match sp_expect(ts, p6, TokenKind::Indent) {
                        Err(_) => {},
                        Ok(p7) => {
                            let p8 = sp_skip_newlines(ts, p7);
                            if ahead(ts, p, p8) {
                                lemma_impl_methods_named(ts, p8, Seq::empty());
                            }
                        },
                    },
                },
            },
        },
    }
}

proof fn lemma_impl_methods_named(ts: Seq<TokenView>, p: int, acc: Seq<FuncDefV>)
    requires
        forall|i: int| 0 <= i < acc.len() ==> imports_named(#[trigger] acc[i].body),
    ensures
        sp_impl_methods(ts, p, acc) matches Ok((ms, _)) ==> forall|i: int| 0 <= i < ms.len() ==> imports_named(
            #[trigger] ms[i].body,
        ),
    decreases ts.len() - p, 29int,
{
    reveal(sp_impl_methods);
    reveal(sp_funcdef);
    if !(tk(ts, p) == TokenKind::Dedent || tk(ts, p) == TokenKind::Eof) {
        lemma_funcdef_named(ts, p);
        match sp_funcdef(ts, p) {
            Err(_) => {},
            Ok((f, q1)) => {
                let q2 = sp_skip_newlines(ts, q1);
                assert forall|i: int| 0 <= i < acc.push(f).len() implies imports_named(#[trigger] acc.push(f)[i].body) by {
                    if i < acc.len() {
                        assert(acc.push(f)[i] == acc[i]);
                    }
                }
                if ahead(ts, p, q2) {
                    lemma_impl_methods_named(ts, q2, acc.push(f));
                }
            },
        }
    }
}

proof fn lemma_if_named(ts: Seq<TokenView>, p: int)
    ensures
        sp_if(ts, p) matches Ok((s, _)) ==> stmt_imports_named(s),
    decreases ts.len() - p, 27int,
{
    reveal(sp_if);
    reveal(sp_block);
    reveal(sp_elifs);
    reveal(sp_else);
    match sp_expr(ts, nxt(ts, p)) {
        Err(_) => {},
        Ok((_, p2)) => match sp_expect(ts, p2, TokenKind::Colon) {
            Err(_) => {},
            Ok(p3) => if ahead(ts, p, p3) {
                lemma_block_named(ts, p3);
                match sp_block(ts, p3) {
                    Err(_) => {},
                    Ok((_, p4)) => if ahead(ts, p, p4) {
                        lemma_elifs_named(ts, p4, Seq::empty());
                        match sp_elifs(ts, p4, Seq::empty()) {
                            Err(_) => {},
                            Ok((_, p5)) => if ahead(ts, p, p5) {
                                lemma_else_named(ts, p5);
                            },
                        }
                    },
                }
            },
        },
    }
}

proof fn lemma_elifs_named(ts: Seq<TokenView>, p: int, acc: Seq<(ExprV, Seq<StatementV>)>)
    requires
        forall|i: int| 0 <= i < acc.len() ==> imports_named(#[trigger] acc[i].1),
    ensures
        sp_elifs(ts, p, acc) matches Ok((es, _)) ==> forall|i: int| 0 <= i < es.len() ==> imports_named(#[trigger] es[i].1),
    decreases ts.len() - p, 29int,
{
    reveal(sp_elifs);
    reveal(sp_block);
    if tk(ts, p) == TokenKind::KwElif {
        match sp_expr(ts, nxt(ts, p)) {
            Err(_) => {},
            Ok((c, p2)) => match sp_expect(ts, p2, TokenKind::Colon) {
                Err(_) => {},
                Ok(p3) => if ahead(ts, p, p3) {
                    lemma_block_named(ts, p3);
                    match sp_block(ts, p3) {
                        Err(_) => {},
                        Ok((b, p4)) => {
                            assert forall|i: int| 0 <= i < acc.push((c, b)).len() implies imports_named(
                                #[trigger] acc.push((c, b))[i].1,
                            ) by {
                                if i < acc.len() {
                                    assert(acc.push((c, b))[i] == acc[i]);
                                }
                            }
                            if ahead(ts, p, p4) {
                                lemma_elifs_named(ts, p4, acc.push((c, b)));
                            }
                        },
                    }
                },
            },
        }
    }
}

proof fn lemma_else_named(ts: Seq<TokenView>, p: int)
    ensures
        sp_else(ts, p) matches Ok((Some(b), _)) ==> imports_named(b),
    decreases ts.len() - p, 29int,
{
    reveal(sp_else);
    reveal(sp_block);
    if tk(ts, p) == TokenKind::KwElse {
        match sp_expect(ts, nxt(ts, p), TokenKind::Colon) {
            Err(_) => {},
            Ok(p1) => if ahead(ts, p, p1) {
                lemma_block_named(ts, p1);
            },
        }
    }
}

proof fn lemma_for_named(ts: Seq<TokenView>, p: int)
    ensures
        sp_for(ts, p) matches Ok((s, _)) ==> stmt_imports_named(s),
    decreases ts.len() - p, 27int,
{
    reveal(sp_for);
    reveal(sp_block);
    match sp_expect_ident(ts, nxt(ts, p)) {
        Err(_) => {},
        Ok((_, p2)) => match sp_expect(ts, p2, TokenKind::KwIn) {
            Err(_) => {},
            Ok(p3) => match sp_expr(ts, p3) {
                Err(_) => {},
                Ok((_, p4)) => match sp_expect(ts, p4, TokenKind::Colon) {
                    Err(_) => {},
                    Ok(p5) => if ahead(ts, p, p5) {
                        lemma_block_named(ts, p5);
                    },
                },
            },
        },
    }
}

proof fn lemma_while_named(ts: Seq<TokenView>, p: int)
    ensures
        sp_while(ts, p) matches Ok((s, _)) ==> stmt_imports_named(s),
    decreases ts.len() - p, 27int,
{
    reveal(sp_while);
    reveal(sp_block);
    match sp_expr(ts, nxt(ts, p)) {
        Err(_) => {},
        Ok((_, p2)) => match sp_expect(ts, p2, TokenKind::Colon) {
            Err(_) => {},
            Ok(p3) => if ahead(ts, p, p3) {
                lemma_block_named(ts, p3);
            },
        },
    }
}

proof fn lemma_module_body_named(ts: Seq<TokenView>, p: int, acc: Seq<StatementV>)
    requires
        imports_named(acc),
    ensures
        sp_module_body(ts, p, acc) matches Ok((ss, _)) ==> imports_named(ss),
    decreases ts.len() - p,
{
    reveal(sp_stmt);
    if tk(ts, p) != TokenKind::Eof {
        lemma_stmt_named(ts, p);
        match sp_stmt(ts, p) {
            Err(_) => {},
            Ok((s, p1)) => {
                let p2 = sp_skip_newlines(ts, p1);
                lemma_push_named(acc, s);
                if ahead(ts, p, p2) {
                    lemma_module_body_named(ts, p2, acc.push(s));
                }
            },
        }
    }
}

/// Every simple `import` that the parser reads, at any depth, names a module:
/// its path holds at least one name.
pub proof fn law_parsed_imports_name_modules(ts: Seq<TokenView>, p: int)
    ensures
        sp_module(ts, p) matches Ok(m) ==> imports_named(m.body),
{
    lemma_empty_named();
    lemma_module_body_named(ts, sp_skip_newlines(ts, p), Seq::empty());
}

} // verus!
