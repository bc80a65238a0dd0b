//! What the passes mean, stated against the source text: each operator keeps
//! the symbol it was written with from the lexer through the parser to the
//! emitted Python, negation keeps a number's type, and the word under the
//! cursor is the whole name there.

use vstd::prelude::*;
use vstd::utf8::encode_utf8;
use crate::ast::{BinOp, ExprV, UnaryOp};
use crate::check_spec::s_synth;
use crate::emit_spec::e_expr;
use crate::environment::ScopeV;
use crate::ide::word_bounds;
use crate::lexer::{LexState, at_end, lex_wf, spec_lex_punct, unicode_alphanumeric};
use crate::parser::{add_op, ahead, cmp_op, mk_bin, mul_op, nxt, sp_add, sp_add_rest, sp_cmp_rest, sp_mul, sp_mul_rest, sp_unary, tk};
use crate::token::{TokenKind, TokenView};
use crate::types::TypeV;

verus! {

/// How a binary operator is written, in the source language and in Python
/// alike.
pub open spec fn op_symbol(op: BinOp) -> Seq<char> {
    match op {
        BinOp::Add => "+"@,
        BinOp::Sub => "-"@,
        BinOp::Mul => "*"@,
        BinOp::Div => "/"@,
        BinOp::Eq => "=="@,
        BinOp::NotEq => "!="@,
        BinOp::Lt => "<"@,
        BinOp::Gt => ">"@,
        BinOp::LtEq => "<="@,
        BinOp::GtEq => ">="@,
        BinOp::And => "and"@,
        BinOp::Or => "or"@,
    }
}

/// A text in single quotes, as token kinds are named.
pub open spec fn quoted(s: Seq<char>) -> Seq<char> {
    "'"@ + s + "'"@
}


/// The length and first character of how an operator is written.
pub open spec fn symbol_shape(op: BinOp) -> (nat, char) {
    match op {
        BinOp::Add => (1, '+'),
        BinOp::Sub => (1, '-'),
        BinOp::Mul => (1, '*'),
        BinOp::Div => (1, '/'),
        BinOp::Eq => (2, '='),
        BinOp::NotEq => (2, '!'),
        BinOp::Lt => (1, '<'),
        BinOp::Gt => (1, '>'),
        BinOp::LtEq => (2, '<'),
        BinOp::GtEq => (2, '>'),
        BinOp::And => (3, 'a'),
        BinOp::Or => (2, 'o'),
    }
}

/// Distinct operators are written differently.
pub proof fn law_operator_symbols_distinct(a: BinOp, b: BinOp)
    ensures
        a != b ==> op_symbol(a) != op_symbol(b),
{
    lemma_symbol_shape(a);
    lemma_symbol_shape(b);
    if op_symbol(a) == op_symbol(b) {
        assert(symbol_shape(a) == symbol_shape(b));
    }
}

proof fn lemma_symbol_shape(a: BinOp)
    ensures
        op_symbol(a).len() == symbol_shape(a).0,
        op_symbol(a).len() > 0,
        op_symbol(a)[0] == symbol_shape(a).1,
{
    match a {
        BinOp::Add => {
            reveal_strlit("+");
            assert(op_symbol(a) =~= seq!['+']);
        },
        BinOp::Sub => {
            reveal_strlit("-");
            assert(op_symbol(a) =~= seq!['-']);
        },
        BinOp::Mul => {
            reveal_strlit("*");
            assert(op_symbol(a) =~= seq!['*']);
        },
        BinOp::Div => {
            reveal_strlit("/");
            assert(op_symbol(a) =~= seq!['/']);
        },
        BinOp::Eq => {
            reveal_strlit("==");
            assert(op_symbol(a) =~= seq!['=', '=']);
        },
        BinOp::NotEq => {
            reveal_strlit("!=");
            assert(op_symbol(a) =~= seq!['!', '=']);
        },
        BinOp::Lt => {
            reveal_strlit("<");
            assert(op_symbol(a) =~= seq!['<']);
        },
        BinOp::Gt => {
            reveal_strlit(">");
            assert(op_symbol(a) =~= seq!['>']);
        },
        BinOp::LtEq => {
            reveal_strlit("<=");
            assert(op_symbol(a) =~= seq!['<', '=']);
        },
        BinOp::GtEq => {
            reveal_strlit(">=");
            assert(op_symbol(a) =~= seq!['>', '=']);
        },
        BinOp::And => {
            reveal_strlit("and");
            assert(op_symbol(a) =~= seq!['a', 'n', 'd']);
        },
        BinOp::Or => {
            reveal_strlit("or");
            assert(op_symbol(a) =~= seq!['o', 'r']);
        },
    }
}

// ---------------------------------------------------------------------------
// The lexer
// ---------------------------------------------------------------------------

/// The operators and punctuation written with two characters.
pub open spec fn two_char_punct(a: char, b: char) -> bool {
    (a == '-' && b == '>') || (a == '=' && b == '=') || (a == '!' && b == '=') || (a == '<' && b == '=') || (a
        == '>' && b == '=')
}

/// A punctuation token spells out the characters it was read from, its kind
/// is the one named by that spelling, and it takes two characters exactly
/// where they form a two-character operator.
pub proof fn law_punct_token_spells_source(s: LexState)
    requires
        lex_wf(s),
        !at_end(s),
    ensures
        spec_lex_punct(s) matches Ok(s2) ==> {
            let t = s2.tokens.last();
            &&& s2.tokens.len() == s.tokens.len() + 1
            &&& s2.tokens.drop_last() == s.tokens
            &&& s.pos < s2.pos <= s.chars.len()
            &&& t.text == s.chars.subrange(s.pos, s2.pos)
            &&& t.kind.spec_name() == quoted(t.text)
            &&& (s2.pos == s.pos + 2 <==> (s.pos + 1 < s.chars.len() && two_char_punct(
                s.chars[s.pos],
                s.chars[s.pos + 1],
            )))
        },
{
    reveal_strlit("'");
    reveal_strlit("+");
    reveal_strlit("-");
    reveal_strlit("*");
    reveal_strlit("/");
    reveal_strlit("(");
    reveal_strlit(")");
    reveal_strlit("[");
    reveal_strlit("]");
    reveal_strlit(":");
    reveal_strlit(",");
    reveal_strlit(".");
    reveal_strlit("->");
    reveal_strlit("==");
    reveal_strlit("=");
    reveal_strlit("!=");
    reveal_strlit("<=");
    reveal_strlit("<");
    reveal_strlit(">=");
    reveal_strlit(">");
    reveal_strlit("'+'");
    reveal_strlit("'-'");
    reveal_strlit("'*'");
    reveal_strlit("'/'");
    reveal_strlit("'('");
    reveal_strlit("')'");
    reveal_strlit("'['");
    reveal_strlit("']'");
    reveal_strlit("':'");
    reveal_strlit("','");
    reveal_strlit("'.'");
    reveal_strlit("'->'");
    reveal_strlit("'=='");
    reveal_strlit("'='");
    reveal_strlit("'!='");
    reveal_strlit("'<='");
    reveal_strlit("'<'");
    reveal_strlit("'>='");
    reveal_strlit("'>'");
    if spec_lex_punct(s) is Ok {
        let s2 = spec_lex_punct(s)->Ok_0;
        let t = s2.tokens.last();
        assert(s2.tokens.drop_last() =~= s.tokens);
        assert(t.text =~= s.chars.subrange(s.pos, s2.pos));
        assert(t.kind.spec_name() =~= quoted(t.text));
    }
}

// ---------------------------------------------------------------------------
// The parser
// ---------------------------------------------------------------------------

/// Each operator token gives the operator written as that token: a token's
/// name is its spelling in quotes, and so is the operator's.
pub proof fn law_operator_token_is_its_operator(k: TokenKind)
    ensures
        cmp_op(k) matches Some(op) ==> quoted(op_symbol(op)) == k.spec_name(),
        add_op(k) matches Some(op) ==> quoted(op_symbol(op)) == k.spec_name(),
        mul_op(k) matches Some(op) ==> quoted(op_symbol(op)) == k.spec_name(),
{
    lemma_token_names_operator(k);
}

/// Distinct operator tokens give distinct operators.
pub proof fn law_operator_tokens_distinct(j: TokenKind, k: TokenKind)
    requires
        j != k,
    ensures
        cmp_op(j) is Some && cmp_op(k) is Some ==> cmp_op(j) != cmp_op(k),
        add_op(j) is Some && add_op(k) is Some ==> add_op(j) != add_op(k),
        mul_op(j) is Some && mul_op(k) is Some ==> mul_op(j) != mul_op(k),
{
    match j {
        TokenKind::EqEq => {
            match k {
                TokenKind::EqEq => {},
                TokenKind::BangEq => {},
                TokenKind::Lt => {},
                TokenKind::Gt => {},
                TokenKind::LtEq => {},
                TokenKind::GtEq => {},
                TokenKind::Plus => {},
                TokenKind::Minus => {},
                TokenKind::Star => {},
                TokenKind::Slash => {},
                _ => {},
            }
        },
        TokenKind::BangEq => {
            match k {
                TokenKind::EqEq => {},
                TokenKind::BangEq => {},
                TokenKind::Lt => {},
                TokenKind::Gt => {},
                TokenKind::LtEq => {},
                TokenKind::GtEq => {},
                TokenKind::Plus => {},
                TokenKind::Minus => {},
                TokenKind::Star => {},
                TokenKind::Slash => {},
                _ => {},
            }
        },
        TokenKind::Lt => {
            match k {
                TokenKind::EqEq => {},
                TokenKind::BangEq => {},
                TokenKind::Lt => {},
                TokenKind::Gt => {},
                TokenKind::LtEq => {},
                TokenKind::GtEq => {},
                TokenKind::Plus => {},
                TokenKind::Minus => {},
                TokenKind::Star => {},
                TokenKind::Slash => {},
                _ => {},
            }
        },
        TokenKind::Gt => {
            match k {
                TokenKind::EqEq => {},
                TokenKind::BangEq => {},
                TokenKind::Lt => {},
                TokenKind::Gt => {},
                TokenKind::LtEq => {},
                TokenKind::GtEq => {},
                TokenKind::Plus => {},
                TokenKind::Minus => {},
                TokenKind::Star => {},
                TokenKind::Slash => {},
                _ => {},
            }
        },
        TokenKind::LtEq => {
            match k {
                TokenKind::EqEq => {},
                TokenKind::BangEq => {},
                TokenKind::Lt => {},
                TokenKind::Gt => {},
                TokenKind::LtEq => {},
                TokenKind::GtEq => {},
                TokenKind::Plus => {},
                TokenKind::Minus => {},
                TokenKind::Star => {},
                TokenKind::Slash => {},
                _ => {},
            }
        },
        TokenKind::GtEq => {
            match k {
                TokenKind::EqEq => {},
                TokenKind::BangEq => {},
                TokenKind::Lt => {},
                TokenKind::Gt => {},
                TokenKind::LtEq => {},
                TokenKind::GtEq => {},
                TokenKind::Plus => {},
                TokenKind::Minus => {},
                TokenKind::Star => {},
                TokenKind::Slash => {},
                _ => {},
            }
        },
        TokenKind::Plus => {
            match k {
                TokenKind::EqEq => {},
                TokenKind::BangEq => {},
                TokenKind::Lt => {},
                TokenKind::Gt => {},
                TokenKind::LtEq => {},
                TokenKind::GtEq => {},
                TokenKind::Plus => {},
                TokenKind::Minus => {},
                TokenKind::Star => {},
                TokenKind::Slash => {},
                _ => {},
            }
        },
        TokenKind::Minus => {
            match k {
                TokenKind::EqEq => {},
                TokenKind::BangEq => {},
                TokenKind::Lt => {},
                TokenKind::Gt => {},
                TokenKind::LtEq => {},
                TokenKind::GtEq => {},
                TokenKind::Plus => {},
                TokenKind::Minus => {},
                TokenKind::Star => {},
                TokenKind::Slash => {},
                _ => {},
            }
        },
        TokenKind::Star => {
            match k {
                TokenKind::EqEq => {},
                TokenKind::BangEq => {},
                TokenKind::Lt => {},
                TokenKind::Gt => {},
                TokenKind::LtEq => {},
                TokenKind::GtEq => {},
                TokenKind::Plus => {},
                TokenKind::Minus => {},
                TokenKind::Star => {},
                TokenKind::Slash => {},
                _ => {},
            }
        },
        TokenKind::Slash => {
            match k {
                TokenKind::EqEq => {},
                TokenKind::BangEq => {},
                TokenKind::Lt => {},
                TokenKind::Gt => {},
                TokenKind::LtEq => {},
                TokenKind::GtEq => {},
                TokenKind::Plus => {},
                TokenKind::Minus => {},
                TokenKind::Star => {},
                TokenKind::Slash => {},
                _ => {},
            }
        },
        _ => {},
    }
}

proof fn lemma_token_names_operator(k: TokenKind)
    ensures
        cmp_op(k) matches Some(op) ==> quoted(op_symbol(op)) == k.spec_name(),
        add_op(k) matches Some(op) ==> quoted(op_symbol(op)) == k.spec_name(),
        mul_op(k) matches Some(op) ==> quoted(op_symbol(op)) == k.spec_name(),
{
    reveal_strlit("'");
    reveal_strlit("'=='");
    reveal_strlit("'!='");
    reveal_strlit("'<'");
    reveal_strlit("'>'");
    reveal_strlit("'<='");
    reveal_strlit("'>='");
    reveal_strlit("'+'");
    reveal_strlit("'-'");
    reveal_strlit("'*'");
    reveal_strlit("'/'");
    match k {
        TokenKind::EqEq => {
            reveal_strlit("==");
            reveal_strlit("'");
            reveal_strlit("'=='");
            assert(quoted(op_symbol(BinOp::Eq)) =~= "'=='"@);
        },
        TokenKind::BangEq => {
            reveal_strlit("!=");
            reveal_strlit("'");
            reveal_strlit("'!='");
            assert(quoted(op_symbol(BinOp::NotEq)) =~= "'!='"@);
        },
        TokenKind::Lt => {
            reveal_strlit("<");
            reveal_strlit("'");
            reveal_strlit("'<'");
            assert(quoted(op_symbol(BinOp::Lt)) =~= "'<'"@);
        },
        TokenKind::Gt => {
            reveal_strlit(">");
            reveal_strlit("'");
            reveal_strlit("'>'");
            assert(quoted(op_symbol(BinOp::Gt)) =~= "'>'"@);
        },
        TokenKind::LtEq => {
            reveal_strlit("<=");
            reveal_strlit("'");
            reveal_strlit("'<='");
            assert(quoted(op_symbol(BinOp::LtEq)) =~= "'<='"@);
        },
        TokenKind::GtEq => {
            reveal_strlit(">=");
            reveal_strlit("'");
            reveal_strlit("'>='");
            assert(quoted(op_symbol(BinOp::GtEq)) =~= "'>='"@);
        },
        TokenKind::Plus => {
            reveal_strlit("+");
            reveal_strlit("'");
            reveal_strlit("'+'");
            assert(quoted(op_symbol(BinOp::Add)) =~= "'+'"@);
        },
        TokenKind::Minus => {
            reveal_strlit("-");
            reveal_strlit("'");
            reveal_strlit("'-'");
            assert(quoted(op_symbol(BinOp::Sub)) =~= "'-'"@);
        },
        TokenKind::Star => {
            reveal_strlit("*");
            reveal_strlit("'");
            reveal_strlit("'*'");
            assert(quoted(op_symbol(BinOp::Mul)) =~= "'*'"@);
        },
        TokenKind::Slash => {
            reveal_strlit("/");
            reveal_strlit("'");
            reveal_strlit("'/'");
            assert(quoted(op_symbol(BinOp::Div)) =~= "'/'"@);
        },
        _ => {},
    }
}

/// A comparison token between two operands makes a comparison whose
/// operator is written as that token: parsing on from it is parsing on with
/// that comparison as the new left operand.
pub proof fn law_comparison_operator_is_token(ts: Seq<TokenView>, p: int, left: ExprV)
    requires
        sp_add(ts, nxt(ts, p)) matches Ok((_, p2)) && ahead(ts, p, p2),
        cmp_op(tk(ts, p)) is Some,
    ensures
        exists|op: BinOp|
            #![trigger op_symbol(op)]
            quoted(op_symbol(op)) == tk(ts, p).spec_name() && sp_cmp_rest(ts, p, left) == sp_cmp_rest(
                ts,
                sp_add(ts, nxt(ts, p))->Ok_0.1,
                mk_bin(left, op, sp_add(ts, nxt(ts, p))->Ok_0.0),
            ),
{
    reveal(crate::parser::sp_cmp_rest);
    reveal_strlit("'");
    reveal_strlit("'=='");
    reveal_strlit("'!='");
    reveal_strlit("'<'");
    reveal_strlit("'>'");
    reveal_strlit("'<='");
    reveal_strlit("'>='");
    lemma_token_names_operator(tk(ts, p));
    let op = cmp_op(tk(ts, p))->Some_0;
}

/// The same for `+` and `-`.
pub proof fn law_additive_operator_is_token(ts: Seq<TokenView>, p: int, left: ExprV)
    requires
        sp_mul(ts, nxt(ts, p)) matches Ok((_, p2)) && ahead(ts, p, p2),
        add_op(tk(ts, p)) is Some,
    ensures
        exists|op: BinOp|
            #![trigger op_symbol(op)]
            quoted(op_symbol(op)) == tk(ts, p).spec_name() && sp_add_rest(ts, p, left) == sp_add_rest(
                ts,
                sp_mul(ts, nxt(ts, p))->Ok_0.1,
                mk_bin(left, op, sp_mul(ts, nxt(ts, p))->Ok_0.0),
            ),
{
    reveal(crate::parser::sp_add_rest);
    reveal_strlit("'");
    reveal_strlit("'+'");
    reveal_strlit("'-'");
    lemma_token_names_operator(tk(ts, p));
    let op = add_op(tk(ts, p))->Some_0;
}

/// The same for `*` and `/`.
pub proof fn law_multiplicative_operator_is_token(ts: Seq<TokenView>, p: int, left: ExprV)
    requires
        sp_unary(ts, nxt(ts, p)) matches Ok((_, p2)) && ahead(ts, p, p2),
        mul_op(tk(ts, p)) is Some,
    ensures
        exists|op: BinOp|
            #![trigger op_symbol(op)]
            quoted(op_symbol(op)) == tk(ts, p).spec_name() && sp_mul_rest(ts, p, left) == sp_mul_rest(
                ts,
                sp_unary(ts, nxt(ts, p))->Ok_0.1,
                mk_bin(left, op, sp_unary(ts, nxt(ts, p))->Ok_0.0),
            ),
{
    reveal(crate::parser::sp_mul_rest);
    reveal_strlit("'");
    reveal_strlit("'*'");
    reveal_strlit("'/'");
    lemma_token_names_operator(tk(ts, p));
    let op = mul_op(tk(ts, p))->Some_0;
}

// ---------------------------------------------------------------------------
// The emitter
// ---------------------------------------------------------------------------

/// A binary operation is emitted in parentheses with its operator written as
/// it is in the source, between spaces.
pub proof fn law_emitted_operator_is_source_symbol(l: ExprV, op: BinOp, r: ExprV, sp: crate::source::Span)
    ensures
        e_expr(ExprV::BinOp(Box::new(l), op, Box::new(r), sp)) == "("@ + e_expr(l) + " "@ + op_symbol(op) + " "@
            + e_expr(r) + ")"@,
{
    reveal_strlit(" ");
    reveal_strlit(" + ");
    reveal_strlit(" - ");
    reveal_strlit(" * ");
    reveal_strlit(" / ");
    reveal_strlit(" == ");
    reveal_strlit(" != ");
    reveal_strlit(" < ");
    reveal_strlit(" > ");
    reveal_strlit(" <= ");
    reveal_strlit(" >= ");
    reveal_strlit(" and ");
    reveal_strlit(" or ");
    match op {
        BinOp::Add => {
            reveal_strlit("+");
            reveal_strlit(" ");
            reveal_strlit(" + ");
            assert(crate::emit_spec::op_text(op) =~= " + "@);
            assert(" + "@ =~= " "@ + "+"@ + " "@);
        },
        BinOp::Sub => {
            reveal_strlit("-");
            reveal_strlit(" ");
            reveal_strlit(" - ");
            assert(crate::emit_spec::op_text(op) =~= " - "@);
            assert(" - "@ =~= " "@ + "-"@ + " "@);
        },
        BinOp::Mul => {
            reveal_strlit("*");
            reveal_strlit(" ");
            reveal_strlit(" * ");
            assert(crate::emit_spec::op_text(op) =~= " * "@);
            assert(" * "@ =~= " "@ + "*"@ + " "@);
        },
        BinOp::Div => {
            reveal_strlit("/");
            reveal_strlit(" ");
            reveal_strlit(" / ");
            assert(crate::emit_spec::op_text(op) =~= " / "@);
            assert(" / "@ =~= " "@ + "/"@ + " "@);
        },
        BinOp::Eq => {
            reveal_strlit("==");
            reveal_strlit(" ");
            reveal_strlit(" == ");
            assert(crate::emit_spec::op_text(op) =~= " == "@);
            assert(" == "@ =~= " "@ + "=="@ + " "@);
        },
        BinOp::NotEq => {
            reveal_strlit("!=");
            reveal_strlit(" ");
            reveal_strlit(" != ");
            assert(crate::emit_spec::op_text(op) =~= " != "@);
            assert(" != "@ =~= " "@ + "!="@ + " "@);
        },
        BinOp::Lt => {
            reveal_strlit("<");
            reveal_strlit(" ");
            reveal_strlit(" < ");
            assert(crate::emit_spec::op_text(op) =~= " < "@);
            assert(" < "@ =~= " "@ + "<"@ + " "@);
        },
        BinOp::Gt => {
            reveal_strlit(">");
            reveal_strlit(" ");
            reveal_strlit(" > ");
            assert(crate::emit_spec::op_text(op) =~= " > "@);
            assert(" > "@ =~= " "@ + ">"@ + " "@);
        },
        BinOp::LtEq => {
            reveal_strlit("<=");
            reveal_strlit(" ");
            reveal_strlit(" <= ");
            assert(crate::emit_spec::op_text(op) =~= " <= "@);
            assert(" <= "@ =~= " "@ + "<="@ + " "@);
        },
        BinOp::GtEq => {
            reveal_strlit(">=");
            reveal_strlit(" ");
            reveal_strlit(" >= ");
            assert(crate::emit_spec::op_text(op) =~= " >= "@);
            assert(" >= "@ =~= " "@ + ">="@ + " "@);
        },
        BinOp::And => {
            reveal_strlit("and");
            reveal_strlit(" ");
            reveal_strlit(" and ");
            assert(crate::emit_spec::op_text(op) =~= " and "@);
            assert(" and "@ =~= " "@ + "and"@ + " "@);
        },
        BinOp::Or => {
            reveal_strlit("or");
            reveal_strlit(" ");
            reveal_strlit(" or ");
            assert(crate::emit_spec::op_text(op) =~= " or "@);
            assert(" or "@ =~= " "@ + "or"@ + " "@);
        },
    }

    assert(e_expr(ExprV::BinOp(Box::new(l), op, Box::new(r), sp)) =~= "("@ + e_expr(l) + " "@ + op_symbol(op) + " "@
        + e_expr(r) + ")"@);
}

/// Two binary operations on the same operands but with different operators
/// are emitted as different texts.
pub proof fn law_distinct_operators_emit_differently(
    l: ExprV,
    a: BinOp,
    b: BinOp,
    r: ExprV,
    sp: crate::source::Span,
)
    requires
        a != b,
    ensures
        e_expr(ExprV::BinOp(Box::new(l), a, Box::new(r), sp)) != e_expr(
            ExprV::BinOp(Box::new(l), b, Box::new(r), sp),
        ),
{
    law_emitted_operator_is_source_symbol(l, a, r, sp);
    law_emitted_operator_is_source_symbol(l, b, r, sp);
    lemma_symbol_shape(a);
    lemma_symbol_shape(b);
    reveal_strlit("(");
    reveal_strlit(" ");
    let x = e_expr(ExprV::BinOp(Box::new(l), a, Box::new(r), sp));
    let y = e_expr(ExprV::BinOp(Box::new(l), b, Box::new(r), sp));
    assert(symbol_shape(a) != symbol_shape(b));
    if op_symbol(a).len() == op_symbol(b).len() {
        let k: int = e_expr(l).len() as int + 2;
        assert(x[k] == op_symbol(a)[0]);
        assert(y[k] == op_symbol(b)[0]);
    } else {
        assert(x.len() != y.len());
    }
}

// ---------------------------------------------------------------------------
// The type checker
// ---------------------------------------------------------------------------

/// Negating a number keeps its type, `not` of a Bool is a Bool, and
/// negating or applying `not` to a known type of another kind is an error.
pub proof fn law_unary_types(env: Seq<ScopeV>, e: ExprV, sp: crate::source::Span)
    ensures
        s_synth(env, e) == Ok::<TypeV, crate::errors::DiagView>(TypeV::Int) ==> s_synth(
            env,
            ExprV::UnaryOp(UnaryOp::Neg, Box::new(e), sp),
        ) == Ok::<TypeV, crate::errors::DiagView>(TypeV::Int),
        s_synth(env, e) == Ok::<TypeV, crate::errors::DiagView>(TypeV::Float) ==> s_synth(
            env,
            ExprV::UnaryOp(UnaryOp::Neg, Box::new(e), sp),
        ) == Ok::<TypeV, crate::errors::DiagView>(TypeV::Float),
        s_synth(env, e) == Ok::<TypeV, crate::errors::DiagView>(TypeV::Bool) ==> s_synth(
            env,
            ExprV::UnaryOp(UnaryOp::Not, Box::new(e), sp),
        ) == Ok::<TypeV, crate::errors::DiagView>(TypeV::Bool),
        (s_synth(env, e) is Ok && s_synth(env, e)->Ok_0 != TypeV::Int && s_synth(env, e)->Ok_0 != TypeV::Float
            && s_synth(env, e)->Ok_0 !is Unknown) ==> s_synth(
            env,
            ExprV::UnaryOp(UnaryOp::Neg, Box::new(e), sp),
        ) is Err,
        (s_synth(env, e) is Ok && s_synth(env, e)->Ok_0 != TypeV::Bool && s_synth(env, e)->Ok_0 !is Unknown)
            ==> s_synth(
            env,
            ExprV::UnaryOp(UnaryOp::Not, Box::new(e), sp),
        ) is Err,
{
}

// ---------------------------------------------------------------------------
// The word under the cursor
// ---------------------------------------------------------------------------

/// A character that may stand in a name: alphanumeric (digits included) or
/// an underscore.
pub open spec fn name_char(c: char) -> bool {
    unicode_alphanumeric(c) || c == '_'
}

proof fn lemma_start_run(line: Seq<char>, col: int)
    requires
        0 <= col <= line.len(),
    ensures
        0 <= crate::ide::word_start(line, col) <= col,
        forall|j: int| crate::ide::word_start(line, col) <= j < col ==> name_char(#[trigger] line[j]),
        crate::ide::word_start(line, col) > 0 ==> !name_char(line[crate::ide::word_start(line, col) - 1]),
    decreases col,
{
    if 0 < col && crate::ide::word_char(line[col - 1]) {
        lemma_start_run(line, col - 1);
    }
}

proof fn lemma_end_run(line: Seq<char>, col: int)
    requires
        0 <= col <= line.len(),
    ensures
        col <= crate::ide::word_end(line, col) <= line.len(),
        forall|j: int| col <= j < crate::ide::word_end(line, col) ==> name_char(#[trigger] line[j]),
        crate::ide::word_end(line, col) < line.len() ==> !name_char(line[crate::ide::word_end(line, col)]),
    decreases line.len() - col,
{
    if col < line.len() && crate::ide::word_char(line[col]) {
        lemma_end_run(line, col + 1);
    }
}

/// The word found at a cursor is the whole run of name characters around
/// it: every character in it may stand in a name, and those just before and
/// just after it may not; there is none exactly when the cursor is past the
/// line or on a character that may not stand in a name.
pub proof fn law_word_is_whole_name(line: Seq<char>, col: int)
    requires
        col >= 0,
    ensures
        word_bounds(line, col) matches Some((s, e)) ==> {
            &&& 0 <= s <= col < e <= line.len()
            &&& forall|j: int| s <= j < e ==> name_char(#[trigger] line[j])
            &&& s > 0 ==> !name_char(line[s - 1])
            &&& e < line.len() ==> !name_char(line[e])
        },
        word_bounds(line, col) is None <==> (col >= (encode_utf8(line).len() as usize) as int || col >= line.len()
            || !name_char(line[col])),
{
    if col < line.len() && name_char(line[col]) {
        lemma_start_run(line, col);
        lemma_end_run(line, col + 1);
        assert(crate::ide::word_end(line, col) == crate::ide::word_end(line, col + 1));
    }
}

} // verus!
