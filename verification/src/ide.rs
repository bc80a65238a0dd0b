//! What the editor server computes: the diagnostic for a document, the word
//! under the cursor, and the type shown on hover. The server itself, which
//! talks to the editor, stays outside the library.

use vstd::prelude::*;
use vstd::utf8::encode_utf8;
use crate::check_spec::{builtin_scope, s_check_stmts, s_reached_stmts};
use crate::checker::TypeChecker;
use crate::compiler::compile_spec;
use crate::environment::{ScopeV, scope_lookup};
use crate::errors::{CompileError, DiagView};
use crate::parsed_imports::law_parsed_imports_name_modules;
use crate::token::tokens_view;
use crate::lexer::{Lexer, is_alphanumeric, max_chars, spec_tokenize, unicode_alphanumeric};
use crate::parser::Parser;
use crate::source::{SourceFile, Span, strings_view};
use crate::stmt_spec::sp_module;
use crate::text::{chars_of, push_str, push_string, string_from, string_from_chars};
use crate::types::type_text;

verus! {

/// The view of a check result.
pub open spec fn unit_result_view(r: Result<(), CompileError>) -> Result<(), DiagView> {
    match r {
        Ok(()) => Ok(()),
        Err(e) => Err(e@),
    }
}

/// What checking a document gives: no error, or the first one that compiling
/// it would report.
pub open spec fn check_doc_spec(cs: Seq<char>) -> Result<(), DiagView> {
    match compile_spec(cs) {
        Ok(_) => Ok(()),
        Err(e) => Err(e),
    }
}

/// Lexes, parses and type-checks a document.
pub fn check_document(source: &SourceFile) -> (r: Result<(), CompileError>)
    requires
        source.content@.len() <= max_chars(),
    ensures
        unit_result_view(r) == check_doc_spec(source.content@),
{
    let tokens = match Lexer::new(source).tokenize() {
        Err(e) => return Err(e),
        Ok(t) => t,
    };
    let ghost toks = tokens_view(tokens@);
    let mut parser = Parser::new(tokens, source);
    let module = match parser.parse_module() {
        Err(e) => return Err(e),
        Ok(m) => m,
    };
    proof {
        law_parsed_imports_name_modules(toks, 0);
    }
    let mut checker = TypeChecker::new();
    checker.check_module(&module)
}

/// A range of an editor document: 0-based lines and characters.
pub struct DocRange {
    pub start_line: u32,
    pub start_character: u32,
    pub end_line: u32,
    pub end_character: u32,
}

/// A 1-based line as a 0-based one (line 0 stays 0).
pub open spec fn zero_based(line: usize) -> usize {
    if line >= 1 {
        (line - 1) as usize
    } else {
        0
    }
}

fn to_u32(n: usize) -> (r: u32)
    ensures
        r == n as u32,
{
    #[verifier::truncate]
    (n as u32)
}

/// The editor range of a span: lines made 0-based, each number cut to 32 bits.
pub fn span_range(span: Span) -> (r: DocRange)
    ensures
        r.start_line == zero_based(span.start.line) as u32,
        r.start_character == span.start.column as u32,
        r.end_line == zero_based(span.end.line) as u32,
        r.end_character == span.end.column as u32,
{
    let sl = if span.start.line >= 1 { span.start.line - 1 } else { 0 };
    let el = if span.end.line >= 1 { span.end.line - 1 } else { 0 };
    DocRange {
        start_line: to_u32(sl),
        start_character: to_u32(span.start.column),
        end_line: to_u32(el),
        end_character: to_u32(span.end.column),
    }
}

/// Characters that belong to a word.
pub open spec fn word_char(c: char) -> bool {
    unicode_alphanumeric(c) || c == '_'
}

/// Where the run of word characters that ends just before `col` begins.
pub open spec fn word_start(cs: Seq<char>, col: int) -> int
    decreases col,
{
    if 0 < col <= cs.len() && word_char(cs[col - 1]) {
        word_start(cs, col - 1)
    } else {
        col
    }
}

/// Where the run of word characters from `col` on ends.
pub open spec fn word_end(cs: Seq<char>, col: int) -> int
    decreases cs.len() - col,
{
    if 0 <= col < cs.len() && word_char(cs[col]) {
        word_end(cs, col + 1)
    } else {
        col
    }
}

/// The character range of the word at column `col` of `line`, where there
/// is one: `col` must fall within the line's UTF-8 length (as a `usize`) and its character
/// must be a word character.
pub open spec fn word_bounds(line: Seq<char>, col: int) -> Option<(int, int)> {
    if col >= (encode_utf8(line).len() as usize) as int || col >= line.len() || !word_char(line[col]) {
        None
    } else {
        Some((word_start(line, col), word_end(line, col)))
    }
}

proof fn lemma_word_start_bounds(cs: Seq<char>, col: int)
    requires
        0 <= col <= cs.len(),
    ensures
        0 <= word_start(cs, col) <= col,
    decreases col,
{
    if 0 < col && word_char(cs[col - 1]) {
        lemma_word_start_bounds(cs, col - 1);
    }
}

proof fn lemma_word_end_bounds(cs: Seq<char>, col: int)
    requires
        0 <= col <= cs.len(),
    ensures
        col <= word_end(cs, col) <= cs.len(),
    decreases cs.len() - col,
{
    if col < cs.len() && word_char(cs[col]) {
        lemma_word_end_bounds(cs, col + 1);
    }
}

/// The word found at a cursor holds the cursor: it starts at or before the
/// cursor's column and ends after it, within the line.
pub proof fn law_word_holds_cursor(line: Seq<char>, col: int)
    requires
        col >= 0,
    ensures
        word_bounds(line, col) matches Some((s, e)) ==> 0 <= s <= col < e <= line.len(),
{
    if word_bounds(line, col) is Some {
        lemma_word_start_bounds(line, col);
        lemma_word_end_bounds(line, col + 1);
        assert(word_end(line, col) == word_end(line, col + 1));
    }
}

/// The characters of the word at column `col` of `line`, with its range.
pub fn word_at(line: &str, col: usize) -> (r: Option<(usize, usize)>)
    ensures
        match word_bounds(line@, col as int) {
            None => r is None,
            Some((s, e)) => r matches Some((a, b)) && a == s && b == e,
        },
{
    if col >= line.len() {
        return None;
    }
    let cs = chars_of(line);
    if col >= cs.len() {
        return None;
    }
    if !(is_alphanumeric(cs[col]) || cs[col] == '_') {
        return None;
    }
    let mut start: usize = col;
    while start > 0 && (is_alphanumeric(cs[start - 1]) || cs[start - 1] == '_')
        invariant
            start <= col < cs.len(),
            word_start(cs@, start as int) == word_start(cs@, col as int),
        decreases start,
    {
        start = start - 1;
    }
    let mut end: usize = col;
    while end < cs.len() && (is_alphanumeric(cs[end]) || cs[end] == '_')
        invariant
            col <= end <= cs.len(),
            word_end(cs@, end as int) == word_end(cs@, col as int),
        decreases cs.len() - end,
    {
        end = end + 1;
    }
    Some((start, end))
}

/// The view of an optional string.
pub open spec fn opt_text_v(r: Option<String>) -> Option<Seq<char>> {
    match r {
        Some(s) => Some(s@),
        None => None,
    }
}

/// The printed type of `name` in `env`, if it is bound there.
pub open spec fn lookup_text(env: Seq<ScopeV>, name: Seq<char>) -> Option<Seq<char>> {
    match scope_lookup(env, name) {
        Some(b) => Some(type_text(b.ty)),
        None => None,
    }
}

/// The printed type of `name` after checking a document as far as it goes:
/// looked up in the environment the checker reached, whether the check
/// succeeded or stopped at an error; none where lexing or parsing fails.
pub open spec fn type_info_spec(cs: Seq<char>, name: Seq<char>) -> Option<Seq<char>> {
    match spec_tokenize(cs) {
        Err(_) => None,
        Ok(ts) => match sp_module(ts, 0) {
            Err(_) => None,
            Ok(m) => lookup_text(s_reached_stmts(seq![builtin_scope()], m.body, 0), name),
        },
    }
}

/// The printed type of `name` in a document: the document is checked as far
/// as it goes, and `name` is looked up in what the checker then holds.
pub fn type_info(source: &SourceFile, name: &str) -> (r: Option<String>)
    requires
        source.content@.len() <= max_chars(),
    ensures
        opt_text_v(r) == type_info_spec(source.content@, name@),
{
    let tokens = match Lexer::new(source).tokenize() {
        Err(_) => return None,
        Ok(t) => t,
    };
    let ghost toks = tokens_view(tokens@);
    let mut parser = Parser::new(tokens, source);
    let module = match parser.parse_module() {
        Err(_) => return None,
        Ok(m) => m,
    };
    proof {
        law_parsed_imports_name_modules(toks, 0);
    }
    let mut checker = TypeChecker::new();
    let _ = checker.check_module(&module);
    checker.lookup_type(name)
}

/// The hover text for `word` of type `ty`: a fenced code block holding
/// `word: ty`.
pub open spec fn hover_text(word: Seq<char>, ty: Seq<char>) -> Seq<char> {
    "```senbonzakura\n"@ + word + ": "@ + ty + "\n```"@
}

/// What hovering shows: the text and the character range of the word.
pub struct HoverInfo {
    pub markdown: String,
    pub start: usize,
    pub end: usize,
}

/// The hover for position (`line`, `character`) of a document: the word
/// there and its type, where there is a word with a known type.
pub fn hover_at(source: &SourceFile, line: usize, character: usize) -> (r: Option<HoverInfo>)
    requires
        source.content@.len() <= max_chars(),
    ensures
        line >= source.lines@.len() ==> r is None,
        line < source.lines@.len() && word_bounds(strings_view(source.lines@)[line as int], character as int) is None
            ==> r is None,
        r matches Some(h) ==> line < source.lines@.len() && word_bounds(
            strings_view(source.lines@)[line as int],
            character as int,
        ) == Some((h.start as int, h.end as int)) && (exists|t: Seq<char>|
            #![auto]
            h.markdown@ == hover_text(
                strings_view(source.lines@)[line as int].subrange(h.start as int, h.end as int),
                t,
            )),
        line < source.lines@.len() ==> match word_bounds(
            strings_view(source.lines@)[line as int],
            character as int,
        ) {
            None => r is None,
            Some((s, e)) => {
                let w = strings_view(source.lines@)[line as int].subrange(s, e);
                match type_info_spec(source.content@, w) {
                    None => r is None,
                    Some(t) => r matches Some(h) && h.markdown@ == hover_text(w, t) && h.start == s && h.end == e,
                }
            },
        },
{
    if line >= source.lines.len() {
        return None;
    }
    let text = &source.lines[line];
    let (start, end) = match word_at(text.as_str(), character) {
        None => return None,
        Some(b) => b,
    };
    let cs = chars_of(text.as_str());
    proof {
        lemma_word_start_bounds(cs@, character as int);
        lemma_word_end_bounds(cs@, character as int);
    }
    let mut wv: Vec<char> = Vec::new();
    let mut i: usize = start;
    while i < end
        invariant
            start <= i <= end <= cs@.len(),
            wv@ == cs@.subrange(start as int, i as int),
        decreases end - i,
    {
        wv.push(cs[i]);
        i = i + 1;
        assert(wv@ =~= cs@.subrange(start as int, i as int));
    }
    let word = string_from_chars(&wv);
    let ty = match type_info(source, word.as_str()) {
        None => return None,
        Some(t) => t,
    };
    let mut md = string_from("```senbonzakura\n");
    push_string(&mut md, &word);
    push_str(&mut md, ": ");
    push_string(&mut md, &ty);
    push_str(&mut md, "\n```");
    proof {
        assert(strings_view(source.lines@)[line as int] == text@);
        assert(word@ == text@.subrange(start as int, end as int));
        assert(md@ =~= hover_text(word@, ty@));
        assert(md@ == hover_text(strings_view(source.lines@)[line as int].subrange(start as int, end as int), ty@));
        assert(exists|t: Seq<char>|
            #![auto]
            md@ == hover_text(strings_view(source.lines@)[line as int].subrange(start as int, end as int), t));
    }
    Some(HoverInfo { markdown: md, start, end })
}

} // verus!
