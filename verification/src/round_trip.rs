//! A string literal written by the emitter reads back, through the lexer, as
//! the string it was written from.

use vstd::prelude::*;
use crate::emit_spec::{esc_char, escape};
use crate::lexer::{LexState, StrScan, escape_of, scan_string, spec_lex_string};
use crate::token::TokenKind;

verus! {

proof fn lemma_escape_front(s: Seq<char>)
    requires
        s.len() > 0,
    ensures
        escape(s) == esc_char(s[0]) + escape(s.drop_first()),
    decreases s.len(),
{
    if s.len() == 1 {
        assert(s.drop_last() =~= Seq::<char>::empty());
        assert(s.drop_first() =~= Seq::<char>::empty());
        assert(escape(s) =~= esc_char(s[0]) + escape(s.drop_first()));
    } else {
        lemma_escape_front(s.drop_last());
        assert(s.drop_last().drop_first() =~= s.drop_first().drop_last());
        assert(s.drop_first().last() == s.last());
        assert(s.drop_last()[0] == s[0]);
        assert(escape(s) =~= esc_char(s[0]) + escape(s.drop_first()));
    }
}

proof fn lemma_scan_escaped(cs: Seq<char>, i: int, acc: Seq<char>, s: Seq<char>)
    requires
        0 <= i,
        i + escape(s).len() < cs.len(),
        cs.subrange(i, i + escape(s).len()) == escape(s),
        cs[i + escape(s).len()] == '"',
    ensures
        scan_string(cs, i, acc) == (StrScan::Closed { end: i + escape(s).len(), text: acc + s }),
    decreases s.len(),
{
    reveal_strlit("\\\"");
    reveal_strlit("\\\\");
    reveal_strlit("\\n");
    reveal_strlit("\\t");
    if s.len() == 0 {
        assert(acc + s =~= acc);
    } else {
        let c = s[0];
        let r = s.drop_first();
        lemma_escape_front(s);
        let e = esc_char(c);
        assert(cs[i] == escape(s)[0]);
        assert(escape(s)[0] == e[0]);
        if c == '"' || c == '\\' || c == '\n' || c == '\t' {
            assert(e.len() == 2);
            assert(cs[i + 1] == escape(s)[1]);
            assert(escape_of(cs[i + 1]) == Some(c));
            assert(cs.subrange(i + 2, i + 2 + escape(r).len()) =~= escape(r)) by {
                assert forall|k: int| 0 <= k < escape(r).len() implies cs[i + 2 + k] == escape(r)[k] by {
                    assert(cs[i + 2 + k] == escape(s)[2 + k]);
                }
            }
            lemma_scan_escaped(cs, i + 2, acc.push(c), r);
            assert(acc.push(c) + r =~= acc + s);
        } else {
            assert(e == seq![c]);
            assert(cs.subrange(i + 1, i + 1 + escape(r).len()) =~= escape(r)) by {
                assert forall|k: int| 0 <= k < escape(r).len() implies cs[i + 1 + k] == escape(r)[k] by {
                    assert(cs[i + 1 + k] == escape(s)[1 + k]);
                }
            }
            lemma_scan_escaped(cs, i + 1, acc.push(c), r);
            assert(acc.push(c) + r =~= acc + s);
        }
    }
}

/// Lexing a string literal as the emitter writes it (`"`, the escaped text,
/// `"`) gives back one string token holding exactly the original text, and
/// moves past the closing quote.
pub proof fn law_emitted_string_lexes_back(st: LexState, s: Seq<char>)
    requires
        0 <= st.pos,
        st.pos + escape(s).len() + 2 <= st.chars.len(),
        st.chars.subrange(st.pos, st.pos + escape(s).len() + 2) == seq!['"'] + escape(s) + seq!['"'],
    ensures
        spec_lex_string(st) matches Ok(st2) && st2.pos == st.pos + escape(s).len() + 2 && st2.tokens.len()
            == st.tokens.len() + 1 && st2.tokens.drop_last() == st.tokens && st2.tokens.last().kind
            == TokenKind::StringLit && st2.tokens.last().text == s,
{
    let cs = st.chars;
    let n: int = escape(s).len() as int;
    let lit = seq!['"'] + escape(s) + seq!['"'];
    assert(cs.subrange(st.pos + 1, st.pos + 1 + n) =~= escape(s)) by {
        assert forall|k: int| 0 <= k < n implies cs[st.pos + 1 + k] == escape(s)[k] by {
            assert(cs[st.pos + 1 + k] == lit[1 + k]);
        }
    }
    assert(cs[st.pos + 1 + n] == lit[n + 1]);
    lemma_scan_escaped(cs, st.pos + 1, Seq::empty(), s);
    assert(Seq::<char>::empty() + s =~= s);
    let st2 = spec_lex_string(st)->Ok_0;
    assert(st2.tokens.drop_last() =~= st.tokens);
}

} // verus!
