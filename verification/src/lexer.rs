//! The lexer: characters to tokens, with indentation turned into
//! `Indent` / `Dedent` tokens.

use vstd::prelude::*;
use vstd::utf8::{encode_scalar, encode_utf8};
use crate::errors::{CompileError, DiagView, error_at, error_str, spec_error};
use crate::source::{Position, SourceFile, Span};
use crate::token::{Token, TokenKind, TokenView, keyword_of, lookup_keyword, tokens_view};
use crate::text::{chars_of, push_char, push_str, string_from};
use crate::paths::last_index_of;

verus! {

// ---------------------------------------------------------------------------
// Characters
// ---------------------------------------------------------------------------

/// Whether `char::is_alphabetic` holds of `c` (the Unicode Alphabetic property).
pub uninterp spec fn unicode_alphabetic(c: char) -> bool;

/// Whether `char::is_alphanumeric` holds of `c`.
pub uninterp spec fn unicode_alphanumeric(c: char) -> bool;

/// `char::is_alphabetic`.
/// Claimed: the result is the fixed Unicode property named `unicode_alphabetic`,
/// which holds of the ASCII letters.
#[verifier::external_body]
fn is_alphabetic(c: char) -> (r: bool)
    ensures
        r == unicode_alphabetic(c),
        ('a' <= c <= 'z' || 'A' <= c <= 'Z') ==> r,
{
    c.is_alphabetic()
}

/// `char::is_alphanumeric`.
/// Claimed: the result is the fixed property named `unicode_alphanumeric`, and,
/// as its documentation says (alphabetic or numeric), it holds of every alphabetic character,
/// and so of the ASCII letters and digits.
#[verifier::external_body]
pub(crate) fn is_alphanumeric(c: char) -> (r: bool)
    ensures
        r == unicode_alphanumeric(c),
        unicode_alphabetic(c) ==> r,
        ('a' <= c <= 'z' || 'A' <= c <= 'Z' || '0' <= c <= '9') ==> r,
{
    c.is_alphanumeric()
}

pub open spec fn is_digit(c: char) -> bool {
    '0' <= c && c <= '9'
}

fn is_ascii_digit(c: char) -> (r: bool)
    ensures
        r == is_digit(c),
{
    '0' <= c && c <= '9'
}

/// Characters that may continue an identifier.
pub open spec fn is_ident_char(c: char) -> bool {
    unicode_alphanumeric(c) || c == '_'
}

/// The classes of characters the lexer reads in runs.
pub enum CharClass {
    Space,
    Digit,
    IdentChar,
    NotNewline,
}

pub open spec fn in_class(k: CharClass, c: char) -> bool {
    match k {
        CharClass::Space => c == ' ',
        CharClass::Digit => is_digit(c),
        CharClass::IdentChar => is_ident_char(c),
        CharClass::NotNewline => c != '\n',
    }
}

/// The end of the run of characters of class `k` that starts at `i`.
pub open spec fn run_end(cs: Seq<char>, i: int, k: CharClass) -> int
    decreases cs.len() - i,
{
    if 0 <= i < cs.len() && in_class(k, cs[i]) {
        run_end(cs, i + 1, k)
    } else {
        i
    }
}

pub proof fn lemma_run_end(cs: Seq<char>, i: int, k: CharClass)
    requires
        0 <= i <= cs.len(),
    ensures
        i <= run_end(cs, i, k) <= cs.len(),
        forall|j: int| i <= j < run_end(cs, i, k) ==> in_class(k, #[trigger] cs[j]),
        run_end(cs, i, k) < cs.len() ==> !in_class(k, cs[run_end(cs, i, k)]),
    decreases cs.len() - i,
{
    if i < cs.len() && in_class(k, cs[i]) {
        lemma_run_end(cs, i + 1, k);
    }
}

/// The end of the run of tabs starting at `i`, and the indentation width
/// reached from `indent`: each tab moves to the next multiple of four.
pub open spec fn tabs_run(cs: Seq<char>, i: int, indent: int) -> (int, int)
    decreases cs.len() - i,
{
    if 0 <= i < cs.len() && cs[i] == '\t' {
        tabs_run(cs, i + 1, (indent / 4 + 1) * 4)
    } else {
        (i, indent)
    }
}

pub proof fn lemma_tabs_run(cs: Seq<char>, i: int, indent: int)
    requires
        0 <= i <= cs.len(),
        0 <= indent <= 4 * i,
    ensures
        i <= tabs_run(cs, i, indent).0 <= cs.len(),
        0 <= tabs_run(cs, i, indent).1 <= 4 * tabs_run(cs, i, indent).0,
        forall|j: int| i <= j < tabs_run(cs, i, indent).0 ==> #[trigger] cs[j] == '\t',
    decreases cs.len() - i,
{
    if i < cs.len() && cs[i] == '\t' {
        assert((indent / 4 + 1) * 4 <= indent + 4);
        lemma_tabs_run(cs, i + 1, (indent / 4 + 1) * 4);
    }
}

// ---------------------------------------------------------------------------
// Lexer state
// ---------------------------------------------------------------------------

/// The longest source the lexer takes (a machine limit: a `Vec<char>` of more
/// characters cannot be allocated, and indentation widths stay within `usize`).
pub open spec fn max_chars() -> int {
    usize::MAX as int / 8
}

/// The largest number of characters a source text may have for the lexer.
pub fn max_source_chars() -> (n: usize)
    ensures
        n == max_chars(),
{
    usize::MAX / 8
}

/// What the lexer knows at a point of its run.
pub struct LexState {
    pub chars: Seq<char>,
    pub pos: int,
    pub offset: int,
    pub line: int,
    pub column: int,
    pub tokens: Seq<TokenView>,
    pub indents: Seq<usize>,
    pub at_line_start: bool,
}

/// The number of tokens of kind `k`.
pub open spec fn count_kind(ts: Seq<TokenView>, k: TokenKind) -> int
    decreases ts.len(),
{
    if ts.len() == 0 {
        0
    } else {
        count_kind(ts.drop_last(), k) + if ts.last().kind == k { 1int } else { 0int }
    }
}

pub proof fn lemma_count_push(ts: Seq<TokenView>, t: TokenView, k: TokenKind)
    ensures
        count_kind(ts.push(t), k) == count_kind(ts, k) + if t.kind == k { 1int } else { 0int },
        no_double_newline(ts) && (t.kind != TokenKind::Newline || !(ts.len() > 0 && ts.last().kind
            == TokenKind::Newline)) ==> no_double_newline(ts.push(t)),
{
    assert(ts.push(t).drop_last() =~= ts);
    if no_double_newline(ts) && (t.kind != TokenKind::Newline || !(ts.len() > 0 && ts.last().kind
        == TokenKind::Newline)) {
        let u = ts.push(t);
        assert forall|i: int, j: int| 0 <= i && j == i + 1 && j < u.len() implies !(#[trigger] u[i].kind == TokenKind::Newline
            && #[trigger] u[j].kind == TokenKind::Newline) by {
            if j < ts.len() {
                assert(u[i] == ts[i] && u[j] == ts[j]);
            } else {
                assert(u[j] == t);
                assert(u[i] == ts.last());
            }
        }
    }
}

/// No `Newline` token directly follows another.
pub open spec fn no_double_newline(ts: Seq<TokenView>) -> bool {
    forall|i: int, j: int| 0 <= i && j == i + 1 && j < ts.len() ==> !(#[trigger] ts[i].kind == TokenKind::Newline
        && #[trigger] ts[j].kind == TokenKind::Newline)
}

/// The open indentation widths rise strictly from the outermost level.
pub open spec fn indents_increasing(ind: Seq<usize>) -> bool {
    forall|i: int, j: int| 0 <= i < j < ind.len() ==> #[trigger] ind[i] < #[trigger] ind[j]
}

/// Every `Indent` so far is matched by a `Dedent` or by an open indentation level.
pub open spec fn balanced_so_far(s: LexState) -> bool {
    count_kind(s.tokens, TokenKind::Indent) - count_kind(s.tokens, TokenKind::Dedent) == s.indents.len() - 1
}

pub open spec fn lex_wf(s: LexState) -> bool {
    &&& s.chars.len() <= max_chars()
    &&& 0 <= s.pos <= s.chars.len()
    &&& s.offset == byte_offset(s.chars, s.pos)
    &&& 1 <= s.line <= s.pos + 1
    &&& 0 <= s.column <= s.pos
    &&& s.line == 1 + newline_count(s.chars.take(s.pos))
    &&& s.column == s.pos - 1 - last_index_of(s.chars.take(s.pos), '\n')
    &&& s.indents.len() >= 1
    &&& s.indents[0] == 0
    &&& indents_increasing(s.indents)
    &&& balanced_so_far(s)
    &&& no_double_newline(s.tokens)
}

/// The state in which lexing of `cs` starts.
pub open spec fn initial_state(cs: Seq<char>) -> LexState {
    LexState {
        chars: cs,
        pos: 0,
        offset: 0,
        line: 1,
        column: 0,
        tokens: Seq::empty(),
        indents: seq![0usize],
        at_line_start: true,
    }
}

/// The number of newline characters in `cs`.
pub open spec fn newline_count(cs: Seq<char>) -> int
    decreases cs.len(),
{
    if cs.len() == 0 {
        0
    } else {
        newline_count(cs.drop_last()) + if cs.last() == '\n' { 1int } else { 0int }
    }
}

/// Moving over one character counts it if it is a newline, and the column
/// restarts after it.
proof fn lemma_line_column_step(cs: Seq<char>, pos: int)
    requires
        0 <= pos < cs.len(),
    ensures
        newline_count(cs.take(pos + 1)) == newline_count(cs.take(pos)) + if cs[pos] == '\n' { 1int } else { 0int },
        last_index_of(cs.take(pos + 1), '\n') == if cs[pos] == '\n' { pos } else { last_index_of(cs.take(pos), '\n') },
{
    assert(cs.take(pos + 1).drop_last() =~= cs.take(pos));
    assert(cs.take(pos + 1).last() == cs[pos]);
}

/// The number of bytes of the UTF-8 encoding of the first `pos` characters:
/// the byte offset of the character at `pos`.
pub open spec fn byte_offset(cs: Seq<char>, pos: int) -> int {
    encode_utf8(cs.take(pos)).len() as int
}

/// The number of bytes of the UTF-8 encoding of `c`.
pub open spec fn utf8_width(c: char) -> int {
    if (c as u32) <= 0x7F {
        1
    } else if (c as u32) <= 0x7FF {
        2
    } else if (c as u32) <= 0xFFFF {
        3
    } else {
        4
    }
}

proof fn lemma_encode_push(s: Seq<char>, c: char)
    ensures
        encode_utf8(s.push(c)) == encode_utf8(s) + encode_scalar(c as u32),
    decreases s.len(),
{
    if s.len() == 0 {
        assert(s.push(c).drop_first() =~= Seq::<char>::empty());
        assert(encode_utf8(Seq::<char>::empty()) =~= Seq::<u8>::empty());
        assert(encode_utf8(s) =~= Seq::<u8>::empty());
        assert(encode_utf8(s.push(c)) =~= encode_scalar(c as u32) + encode_utf8(Seq::<char>::empty()));
        assert(encode_utf8(s.push(c)) =~= encode_utf8(s) + encode_scalar(c as u32));
    } else {
        assert(s.push(c).drop_first() =~= s.drop_first().push(c));
        assert(s.push(c)[0] == s[0]);
        lemma_encode_push(s.drop_first(), c);
        assert(encode_utf8(s.push(c)) =~= encode_utf8(s) + encode_scalar(c as u32));
    }
}

proof fn lemma_scalar_width(c: char)
    ensures
        encode_scalar(c as u32).len() == utf8_width(c),
{
    vstd::utf8::char_is_scalar(c);
}

/// Moving over one character adds its width to the byte offset.
proof fn lemma_byte_offset_step(cs: Seq<char>, pos: int)
    requires
        0 <= pos < cs.len(),
    ensures
        byte_offset(cs, pos + 1) == byte_offset(cs, pos) + utf8_width(cs[pos]),
{
    assert(cs.take(pos + 1) =~= cs.take(pos).push(cs[pos]));
    lemma_encode_push(cs.take(pos), cs[pos]);
    lemma_scalar_width(cs[pos]);
}

/// A character takes at most four bytes.
proof fn lemma_byte_offset_bound(cs: Seq<char>, pos: int)
    requires
        0 <= pos <= cs.len(),
    ensures
        0 <= byte_offset(cs, pos) <= 4 * pos,
    decreases pos,
{
    if pos > 0 {
        lemma_byte_offset_bound(cs, pos - 1);
        lemma_byte_offset_step(cs, pos - 1);
    }
}

/// The number of UTF-8 bytes of `c`.
fn char_width(c: char) -> (w: usize)
    ensures
        w == utf8_width(c),
{
    let u = c as u32;
    if u <= 0x7F {
        1
    } else if u <= 0x7FF {
        2
    } else if u <= 0xFFFF {
        3
    } else {
        4
    }
}

pub open spec fn at_end(s: LexState) -> bool {
    s.pos >= s.chars.len()
}

pub open spec fn cur_pos(s: LexState) -> Position {
    Position { line: s.line as usize, column: s.column as usize, offset: s.offset as usize }
}

/// The state after moving over `n` characters none of which is a newline.
pub open spec fn advance_plain(s: LexState, n: int) -> LexState {
    LexState { pos: s.pos + n, offset: byte_offset(s.chars, s.pos + n), column: s.column + n, ..s }
}

/// The state after moving over one newline character.
pub open spec fn advance_newline(s: LexState) -> LexState {
    LexState { pos: s.pos + 1, offset: byte_offset(s.chars, s.pos + 1), line: s.line + 1, column: 0, ..s }
}

/// The state after moving over one character.
pub open spec fn advance_one(s: LexState) -> LexState {
    if at_end(s) {
        s
    } else if s.chars[s.pos] == '\n' {
        advance_newline(s)
    } else {
        advance_plain(s, 1)
    }
}

/// The state after moving over `n` characters one at a time.
pub open spec fn advance_n(s: LexState, n: nat) -> LexState
    decreases n,
{
    if n == 0 {
        s
    } else {
        advance_one(advance_n(s, (n - 1) as nat))
    }
}

pub proof fn lemma_advance_n(s: LexState, n: nat)
    requires
        lex_wf(s),
        s.pos + n <= s.chars.len(),
    ensures
        advance_n(s, n).pos == s.pos + n,
        advance_n(s, n).chars == s.chars,
        advance_n(s, n).tokens == s.tokens,
        advance_n(s, n).indents == s.indents,
        advance_n(s, n).at_line_start == s.at_line_start,
        lex_wf(advance_n(s, n)),
    decreases n,
{
    if n > 0 {
        lemma_advance_n(s, (n - 1) as nat);
        lemma_advance_one_wf(advance_n(s, (n - 1) as nat));
    }
}

/// Moving over one character keeps the lexer well formed.
pub proof fn lemma_advance_one_wf(s: LexState)
    requires
        lex_wf(s),
    ensures
        lex_wf(advance_one(s)),
{
    if !at_end(s) {
        lemma_line_column_step(s.chars, s.pos);
        lemma_byte_offset_step(s.chars, s.pos);
        lemma_byte_offset_bound(s.chars, s.pos + 1);
    }
}

pub open spec fn with_token(s: LexState, kind: TokenKind, text: Seq<char>, span: Span) -> LexState {
    LexState { tokens: s.tokens.push(TokenView { kind, text, span }), ..s }
}

/// Skips one line ending: an optional `'\r'`, then an optional `'\n'`.
pub open spec fn spec_skip_newline(s: LexState) -> LexState {
    let s1 = if !at_end(s) && s.chars[s.pos] == '\r' { advance_plain(s, 1) } else { s };
    if !at_end(s1) && s1.chars[s1.pos] == '\n' { advance_newline(s1) } else { s1 }
}

/// Adds a `Newline` token at the current position, unless the last token already is one.
pub open spec fn spec_emit_newline(s: LexState) -> LexState {
    if s.tokens.len() > 0 && s.tokens.last().kind == TokenKind::Newline {
        s
    } else {
        with_token(s, TokenKind::Newline, Seq::empty(), Span { start: cur_pos(s), end: cur_pos(s) })
    }
}

/// Pops indentation levels deeper than `indent`, one `Dedent` for each; the
/// level reached must be `indent` itself.
pub open spec fn spec_dedent(s: LexState, indent: int, span: Span) -> Result<LexState, DiagView>
    decreases s.indents.len(),
{
    if s.indents.len() > 0 && s.indents.last() > indent {
        spec_dedent(
            LexState { indents: s.indents.drop_last(), ..with_token(s, TokenKind::Dedent, Seq::empty(), span) },
            indent,
            span,
        )
    } else if s.indents.len() > 0 && s.indents.last() != indent {
        Err(spec_error("inconsistent indentation"@, span))
    } else {
        Ok(s)
    }
}

/// Reads the indentation at the start of a line, skipping blank and comment
/// lines, and emits `Indent` / `Dedent` tokens for the change of level.
pub open spec fn spec_indentation(s: LexState) -> Result<LexState, DiagView>
    decreases s.chars.len() - s.pos,
{
    let cs = s.chars;
    let sp_end = run_end(cs, s.pos, CharClass::Space);
    let (tab_end, indent) = tabs_run(cs, sp_end, sp_end - s.pos);
    let s1 = advance_plain(s, tab_end - s.pos);
    if at_end(s1) {
        Ok(s1)
    } else if cs[s1.pos] == '\n' || cs[s1.pos] == '\r' {
        let s2 = spec_skip_newline(s1);
        if s.pos < s2.pos <= cs.len() && s2.chars == cs {
            spec_indentation(s2)
        } else {
            Ok(s2)
        }
    } else if cs[s1.pos] == '#' {
        let s2 = advance_plain(s1, run_end(cs, s1.pos, CharClass::NotNewline) - s1.pos);
        let s3 = if at_end(s2) { s2 } else { spec_skip_newline(s2) };
        if s.pos < s3.pos <= cs.len() && s3.chars == cs {
            spec_indentation(s3)
        } else {
            Ok(s3)
        }
    } else {
        let span = Span {
            start: cur_pos(s),
            end: cur_pos(s1),
        };
        let top = s1.indents.last();
        if indent > top {
            Ok(LexState { indents: s1.indents.push(indent as usize), ..with_token(s1, TokenKind::Indent, Seq::empty(), span) })
        } else if indent < top {
            spec_dedent(s1, indent, span)
        } else {
            Ok(s1)
        }
    }
}

/// Reads a number: digits, then a fractional part if a `.` is followed by a digit.
pub open spec fn spec_lex_number(s: LexState) -> LexState {
    let cs = s.chars;
    let e1 = run_end(cs, s.pos, CharClass::Digit);
    let frac = e1 + 1 < cs.len() && cs[e1] == '.' && is_digit(cs[e1 + 1]);
    let e2 = if frac { run_end(cs, e1 + 1, CharClass::Digit) } else { e1 };
    let s2 = advance_plain(s, e2 - s.pos);
    with_token(
        s2,
        if frac { TokenKind::FloatLit } else { TokenKind::IntLit },
        cs.subrange(s.pos, e2),
        Span { start: cur_pos(s), end: cur_pos(s2) },
    )
}

/// Reads an identifier or keyword.
pub open spec fn spec_lex_identifier(s: LexState) -> LexState {
    let cs = s.chars;
    let e = run_end(cs, s.pos, CharClass::IdentChar);
    let text = cs.subrange(s.pos, e);
    let s2 = advance_n(s, (e - s.pos) as nat);
    let kind = match keyword_of(text) {
        Some(k) => k,
        None => TokenKind::Ident,
    };
    with_token(s2, kind, text, Span { start: cur_pos(s), end: cur_pos(s2) })
}

/// The character an escape sequence `\c` stands for.
pub open spec fn escape_of(c: char) -> Option<char> {
    if c == 'n' { Some('\n') }
    else if c == 't' { Some('\t') }
    else if c == '\\' { Some('\\') }
    else if c == '"' { Some('"') }
    else { None }
}

/// How reading the body of a string literal ends.
pub enum StrScan {
    /// The closing quote is at `end`; `text` is the decoded contents.
    Closed { end: int, text: Seq<char> },
    /// The literal is cut off at `at` (a line end or the end of the input).
    Unterminated { at: int },
    /// An unknown escape character `c` stands at `at`.
    BadEscape { at: int, c: char },
}

/// Reads the body of a string literal from `i`, `acc` holding what is decoded so far.
pub open spec fn scan_string(cs: Seq<char>, i: int, acc: Seq<char>) -> StrScan
    decreases cs.len() - i,
{
    if i < 0 || i >= cs.len() {
        StrScan::Unterminated { at: i }
    } else if cs[i] == '"' {
        StrScan::Closed { end: i, text: acc }
    } else if cs[i] == '\n' {
        StrScan::Unterminated { at: i }
    } else if cs[i] == '\\' {
        if i + 1 >= cs.len() {
            StrScan::Unterminated { at: i + 1 }
        } else {
            match escape_of(cs[i + 1]) {
                Some(e) => scan_string(cs, i + 2, acc.push(e)),
                None => StrScan::BadEscape { at: i + 1, c: cs[i + 1] },
            }
        }
    } else {
        scan_string(cs, i + 1, acc.push(cs[i]))
    }
}

pub proof fn lemma_scan_string(cs: Seq<char>, i: int, acc: Seq<char>)
    requires
        0 <= i <= cs.len(),
    ensures
        match scan_string(cs, i, acc) {
            StrScan::Closed { end, text } => i <= end < cs.len() && cs[end] == '"'
                && forall|j: int| i <= j < end ==> #[trigger] cs[j] != '\n',
            StrScan::Unterminated { at } => i <= at <= cs.len()
                && forall|j: int| i <= j < at && j < cs.len() ==> #[trigger] cs[j] != '\n',
            StrScan::BadEscape { at, c } => i < at < cs.len()
                && forall|j: int| i <= j < at ==> #[trigger] cs[j] != '\n',
        },
    decreases cs.len() - i,
{
    if i < cs.len() && cs[i] != '"' && cs[i] != '\n' {
        if cs[i] == '\\' {
            if i + 1 < cs.len() {
                if let Some(e) = escape_of(cs[i + 1]) {
                    lemma_scan_string(cs, i + 2, acc.push(e));
                }
            }
        } else {
            lemma_scan_string(cs, i + 1, acc.push(cs[i]));
        }
    }
}

/// The position `n` non-newline characters further on.
pub open spec fn pos_after(s: LexState, n: int) -> Position {
    cur_pos(advance_plain(s, n))
}

/// Reads a string literal starting at its opening quote.
pub open spec fn spec_lex_string(s: LexState) -> Result<LexState, DiagView> {
    let start = cur_pos(s);
    match scan_string(s.chars, s.pos + 1, Seq::empty()) {
        StrScan::Closed { end, text } => {
            let s2 = advance_plain(s, end + 1 - s.pos);
            Ok(with_token(s2, TokenKind::StringLit, text, Span { start, end: cur_pos(s2) }))
        },
        StrScan::Unterminated { at } => Err(spec_error(
            "unterminated string literal"@,
            Span { start, end: pos_after(s, at - s.pos) },
        )),
        StrScan::BadEscape { at, c } => Err(spec_error(
            "unknown escape sequence: \\"@.push(c),
            Span { start, end: pos_after(s, at - s.pos) },
        )),
    }
}

/// The punctuation token starting with `c`, given whether the next character
/// exists and what it is: its kind and its width, or `None` if there is none.
pub open spec fn punct_of(c: char, next: Option<char>) -> Option<(TokenKind, int)> {
    if c == '+' { Some((TokenKind::Plus, 1)) }
    else if c == '*' { Some((TokenKind::Star, 1)) }
    else if c == '/' { Some((TokenKind::Slash, 1)) }
    else if c == '(' { Some((TokenKind::LParen, 1)) }
    else if c == ')' { Some((TokenKind::RParen, 1)) }
    else if c == '[' { Some((TokenKind::LBracket, 1)) }
    else if c == ']' { Some((TokenKind::RBracket, 1)) }
    else if c == ':' { Some((TokenKind::Colon, 1)) }
    else if c == ',' { Some((TokenKind::Comma, 1)) }
    else if c == '.' { Some((TokenKind::Dot, 1)) }
    else if c == '-' { if next == Some('>') { Some((TokenKind::Arrow, 2)) } else { Some((TokenKind::Minus, 1)) } }
    else if c == '=' { if next == Some('=') { Some((TokenKind::EqEq, 2)) } else { Some((TokenKind::Eq, 1)) } }
    else if c == '!' { if next == Some('=') { Some((TokenKind::BangEq, 2)) } else { None } }
    else if c == '<' { if next == Some('=') { Some((TokenKind::LtEq, 2)) } else { Some((TokenKind::Lt, 1)) } }
    else if c == '>' { if next == Some('=') { Some((TokenKind::GtEq, 2)) } else { Some((TokenKind::Gt, 1)) } }
    else { None }
}

/// The text of a punctuation token of the given kind.
pub open spec fn punct_text(k: TokenKind) -> Seq<char> {
    match k {
        TokenKind::Plus => "+"@,
        TokenKind::Star => "*"@,
        TokenKind::Slash => "/"@,
        TokenKind::LParen => "("@,
        TokenKind::RParen => ")"@,
        TokenKind::LBracket => "["@,
        TokenKind::RBracket => "]"@,
        TokenKind::Colon => ":"@,
        TokenKind::Comma => ","@,
        TokenKind::Dot => "."@,
        TokenKind::Arrow => "->"@,
        TokenKind::Minus => "-"@,
        TokenKind::EqEq => "=="@,
        TokenKind::Eq => "="@,
        TokenKind::BangEq => "!="@,
        TokenKind::LtEq => "<="@,
        TokenKind::Lt => "<"@,
        TokenKind::GtEq => ">="@,
        TokenKind::Gt => ">"@,
        _ => Seq::empty(),
    }
}

pub open spec fn next_char(s: LexState) -> Option<char> {
    if s.pos + 1 < s.chars.len() { Some(s.chars[s.pos + 1]) } else { None }
}

/// Reads an operator or punctuation token.
pub open spec fn spec_lex_punct(s: LexState) -> Result<LexState, DiagView> {
    let c = s.chars[s.pos];
    match punct_of(c, next_char(s)) {
        Some((k, w)) => {
            let s2 = advance_plain(s, w);
            Ok(with_token(s2, k, punct_text(k), Span { start: cur_pos(s), end: cur_pos(s2) }))
        },
        None => Err(spec_error(
            "unexpected character: '"@.push(c).push('\''),
            Span { start: cur_pos(s), end: cur_pos(advance_one(s)) },
        )),
    }
}

/// One step of the main loop, at a character that is not the start of a line.
pub open spec fn spec_dispatch(s: LexState) -> Result<LexState, DiagView> {
    let c = s.chars[s.pos];
    if c == ' ' || c == '\t' {
        Ok(advance_plain(s, 1))
    } else if c == '\n' || c == '\r' {
        Ok(LexState { at_line_start: true, ..spec_skip_newline(spec_emit_newline(s)) })
    } else if c == '#' {
        Ok(advance_plain(s, run_end(s.chars, s.pos, CharClass::NotNewline) - s.pos))
    } else if c == '"' {
        spec_lex_string(s)
    } else if is_digit(c) {
        Ok(spec_lex_number(s))
    } else if unicode_alphabetic(c) || c == '_' {
        Ok(spec_lex_identifier(s))
    } else {
        spec_lex_punct(s)
    }
}

/// `n` `Dedent` tokens with the given span.
pub open spec fn dedents(n: nat, span: Span) -> Seq<TokenView> {
    Seq::new(n, |i: int| TokenView { kind: TokenKind::Dedent, text: Seq::empty(), span })
}

pub proof fn lemma_dedents_push(n: nat, span: Span)
    ensures
        dedents(n + 1, span) == dedents(n, span).push(TokenView { kind: TokenKind::Dedent, text: Seq::empty(), span }),
{
    assert(dedents(n + 1, span) =~= dedents(n, span).push(TokenView { kind: TokenKind::Dedent, text: Seq::empty(), span }));
}

/// The tokens that close the input: a `Dedent` for each open level, then `Eof`.
pub open spec fn spec_finish(s: LexState) -> Seq<TokenView> {
    let p = cur_pos(s);
    let span = Span { start: p, end: p };
    s.tokens + dedents((s.indents.len() - 1) as nat, span)
        + seq![TokenView { kind: TokenKind::Eof, text: Seq::empty(), span }]
}

/// The main loop of the lexer from state `s`.
pub open spec fn spec_lex_loop(s: LexState) -> Result<Seq<TokenView>, DiagView>
    decreases s.chars.len() - s.pos,
{
    if at_end(s) {
        Ok(spec_finish(s))
    } else {
        let r1 = if s.at_line_start { spec_indentation(s) } else { Ok(s) };
        match r1 {
            Err(e) => Err(e),
            Ok(s1) => {
                let s1 = LexState { at_line_start: false, ..s1 };
                if at_end(s1) {
                    Ok(spec_finish(s1))
                } else {
                    match spec_dispatch(s1) {
                        Err(e) => Err(e),
                        Ok(s2) => if s.pos < s2.pos <= s.chars.len() && s2.chars == s.chars {
                            spec_lex_loop(s2)
                        } else {
                            Ok(spec_finish(s2))
                        },
                    }
                }
            },
        }
    }
}

/// The tokens of a text, or the error that stops the lexer.
pub open spec fn spec_tokenize(cs: Seq<char>) -> Result<Seq<TokenView>, DiagView> {
    spec_lex_loop(initial_state(cs))
}

/// The view of a lexing result.
pub open spec fn tokens_result_view(r: Result<Vec<Token>, CompileError>) -> Result<Seq<TokenView>, DiagView> {
    match r {
        Ok(v) => Ok(tokens_view(v@)),
        Err(e) => Err(e@),
    }
}

// ---------------------------------------------------------------------------
// The lexer
// ---------------------------------------------------------------------------

pub struct Lexer {
    chars: Vec<char>,
    pos: usize,
    offset: usize,
    line: usize,
    column: usize,
    tokens: Vec<Token>,
    indent_stack: Vec<usize>,
    at_line_start: bool,
}

impl View for Lexer {
    type V = LexState;

    closed spec fn view(&self) -> LexState {
        LexState {
            chars: self.chars@,
            pos: self.pos as int,
            offset: self.offset as int,
            line: self.line as int,
            column: self.column as int,
            tokens: tokens_view(self.tokens@),
            indents: self.indent_stack@,
            at_line_start: self.at_line_start,
        }
    }
}

impl Lexer {
    /// A lexer at the start of the source's content.
    pub fn new(source: &SourceFile) -> (l: Lexer)
        ensures
            l@ == initial_state(source.content@),
    {
        let l = Lexer {
            chars: chars_of(source.content.as_str()),
            pos: 0,
            offset: 0,
            line: 1,
            column: 0,
            tokens: Vec::new(),
            indent_stack: vec![0],
            at_line_start: true,
        };
        assert(l@.tokens =~= Seq::<TokenView>::empty());
        assert(l@.indents =~= seq![0usize]);
        l
    }

    /// The tokens of the source, ending with `Eof`, or the first lexical error.
    pub fn tokenize(self) -> (r: Result<Vec<Token>, CompileError>)
        requires
            self@.chars.len() <= max_chars(),
            self@ == initial_state(self@.chars),
        ensures
            tokens_result_view(r) == spec_tokenize(self@.chars),
            r matches Ok(ts) ==> ts@.len() > 0 && ts@.last().kind == TokenKind::Eof,
            r matches Ok(ts) ==> count_kind(tokens_view(ts@), TokenKind::Indent) == count_kind(tokens_view(ts@), TokenKind::Dedent),
            r matches Ok(ts) ==> no_double_newline(tokens_view(ts@)),
    {
        let mut lx = self;
        proof {
            assert(count_kind(lx@.tokens, TokenKind::Indent) == 0);
            assert(count_kind(lx@.tokens, TokenKind::Dedent) == 0);
        }
        let ghost cs = lx@.chars;
        loop
            invariant_except_break
                lex_wf(lx@),
                lx@.chars == cs,
                cs == self@.chars,
                spec_lex_loop(lx@) == spec_tokenize(cs),
            ensures
                lex_wf(lx@),
                spec_tokenize(cs) == Ok::<Seq<TokenView>, DiagView>(spec_finish(lx@)),
            decreases cs.len() - lx@.pos,
        {
            if lx.is_at_end() {
                break;
            }
            let ghost s0 = lx@;
            if lx.at_line_start {
                match lx.handle_indentation() {
                    Err(e) => return Err(e),
                    Ok(()) => {},
                }
                lx.at_line_start = false;
            }
            if lx.is_at_end() {
                break;
            }
            match lx.dispatch() {
                Err(e) => return Err(e),
                Ok(()) => {},
            }
        }
        lx.finish();
        Ok(lx.tokens)
    }

    /// One step of the main loop at a character that does not start a line.
    fn dispatch(&mut self) -> (r: Result<(), CompileError>)
        requires
            lex_wf(old(self)@),
            !at_end(old(self)@),
        ensures
            match r {
                Ok(()) => spec_dispatch(old(self)@) == Ok::<LexState, DiagView>(final(self)@),
                Err(e) => spec_dispatch(old(self)@) == Err::<LexState, DiagView>(e@),
            },
            r is Ok ==> lex_wf(final(self)@) && final(self)@.pos > old(self)@.pos
                && final(self)@.chars == old(self)@.chars,
    {
        let ghost s = self@;
        let ch = self.peek();
        if ch == ' ' || ch == '\t' {
            self.advance();
            assert(self@.pos > s.pos);
        } else if ch == '\n' || ch == '\r' {
            self.emit_newline();
            self.skip_newline();
            self.at_line_start = true;
            assert(self@.pos > s.pos);
        } else if ch == '#' {
            proof {
                lemma_run_end(s.chars, s.pos + 1, CharClass::NotNewline);
            }
            self.skip_comment();
            assert(self@.pos > s.pos);
        } else if ch == '"' {
            match self.lex_string() {
                Err(e) => return Err(e),
                Ok(()) => {},
            }
        } else if is_ascii_digit(ch) {
            proof {
                lemma_run_end(s.chars, s.pos, CharClass::Digit);
            }
            self.lex_number();
            assert(self@.pos > s.pos);
        } else if is_alphabetic(ch) || ch == '_' {
            self.lex_identifier();
            assert(self@.pos > s.pos);
        } else {
            match self.lex_punctuation() {
                Err(e) => return Err(e),
                Ok(()) => {},
            }
        }
        Ok(())
    }

    /// Closes the open indentation levels and adds `Eof`.
    fn finish(&mut self)
        requires
            lex_wf(old(self)@),
        ensures
            final(self)@.tokens == spec_finish(old(self)@),
            final(self)@.tokens.last().kind == TokenKind::Eof,
            count_kind(final(self)@.tokens, TokenKind::Indent) == count_kind(final(self)@.tokens, TokenKind::Dedent),
    {
        let eof_pos = self.current_position();
        let span = Span::new(eof_pos, eof_pos);
        let ghost s0 = self@;
        let ghost dedent = TokenView { kind: TokenKind::Dedent, text: Seq::empty(), span };
        while self.indent_stack.len() > 1
            invariant
                lex_wf(self@),
                self@.pos == s0.pos && self@.line == s0.line && self@.column == s0.column,
                self@.chars == s0.chars,
                self@.indents.len() <= s0.indents.len(),
                self@.tokens == s0.tokens + dedents((s0.indents.len() - self@.indents.len()) as nat, span),
                span == (Span { start: cur_pos(s0), end: cur_pos(s0) }),
                dedent == (TokenView { kind: TokenKind::Dedent, text: Seq::empty(), span }),
            decreases self.indent_stack.len(),
        {
            let ghost before = self@;
            self.indent_stack.pop();
            self.push_token(TokenKind::Dedent, String::new(), span);
            proof {
                lemma_count_push(before.tokens, dedent, TokenKind::Indent);
                lemma_count_push(before.tokens, dedent, TokenKind::Dedent);
                let n = (s0.indents.len() - before.indents.len()) as nat;
                lemma_dedents_push(n, span);
                assert(self@.tokens =~= s0.tokens + dedents((s0.indents.len() - self@.indents.len()) as nat, span));
            }
        }
        let ghost before = self@;
        self.push_token(TokenKind::Eof, String::new(), span);
        proof {
            let eof = TokenView { kind: TokenKind::Eof, text: Seq::empty(), span };
            lemma_count_push(before.tokens, eof, TokenKind::Indent);
            lemma_count_push(before.tokens, eof, TokenKind::Dedent);
            assert(self@.tokens =~= spec_finish(s0));
        }
    }

    /// Appends a token.
    fn push_token(&mut self, kind: TokenKind, text: String, span: Span)
        ensures
            final(self)@ == with_token(old(self)@, kind, text@, span),
    {
        let ghost old_tokens = self.tokens@;
        self.tokens.push(Token { kind, text, span });
        assert(tokens_view(self.tokens@) =~= tokens_view(old_tokens).push(TokenView { kind, text: text@, span }));
    }

    /// Pushes a token of a kind other than `Indent` and `Dedent`, keeping the lexer well formed.
    fn push_plain_token(&mut self, kind: TokenKind, text: String, span: Span)
        requires
            lex_wf(old(self)@),
            kind != TokenKind::Indent,
            kind != TokenKind::Dedent,
            kind == TokenKind::Newline ==> !(old(self)@.tokens.len() > 0 && old(self)@.tokens.last().kind
                == TokenKind::Newline),
        ensures
            final(self)@ == with_token(old(self)@, kind, text@, span),
            lex_wf(final(self)@),
    {
        let ghost before = self@;
        self.push_token(kind, text, span);
        proof {
            let t = TokenView { kind, text: text@, span };
            lemma_count_push(before.tokens, t, TokenKind::Indent);
            lemma_count_push(before.tokens, t, TokenKind::Dedent);
        }
    }

    #[verifier::rlimit(60)]
    fn handle_indentation(&mut self) -> (r: Result<(), CompileError>)
        requires
            lex_wf(old(self)@),
        ensures
            match r {
                Ok(()) => spec_indentation(old(self)@) == Ok::<LexState, DiagView>(final(self)@),
                Err(e) => spec_indentation(old(self)@) == Err::<LexState, DiagView>(e@),
            },
            r is Ok ==> lex_wf(final(self)@) && final(self)@.chars == old(self)@.chars
                && final(self)@.pos >= old(self)@.pos && final(self)@.at_line_start == old(self)@.at_line_start,
    {
        let ghost s_init = self@;
        loop
            invariant
                lex_wf(self@),
                self@.chars == s_init.chars,
                self@.pos >= s_init.pos,
                self@.at_line_start == s_init.at_line_start,
                spec_indentation(self@) == spec_indentation(s_init),
                s_init == old(self)@,
            decreases self@.chars.len() - self@.pos,
        {
            let ghost s = self@;
            let saved_offset = self.offset;
            let saved_line = self.line;
            let saved_col = self.column;
            let ghost cs = s.chars;
            proof {
                lemma_run_end(cs, s.pos, CharClass::Space);
            }
            let mut indent: usize = 0;
            while !self.is_at_end() && self.peek() == ' '
                invariant
                    lex_wf(self@),
                    s.pos <= self@.pos,
                    self@ == advance_plain(s, self@.pos - s.pos),
                    indent == self@.pos - s.pos,
                    run_end(cs, self@.pos, CharClass::Space) == run_end(cs, s.pos, CharClass::Space),
                    self@.chars == cs,
                    cs == s.chars,
                    lex_wf(s),
                    cs.len() <= max_chars(),
                decreases cs.len() - self@.pos,
            {
                assert(indent < cs.len());
                self.advance();
                indent = indent + 1;
            }
            let ghost sp_end = self@.pos;
            proof {
                lemma_tabs_run(cs, sp_end, sp_end - s.pos);
            }
            while !self.is_at_end() && self.peek() == '\t'
                invariant
                    lex_wf(self@),
                    sp_end <= self@.pos,
                    self@ == advance_plain(s, self@.pos - s.pos),
                    0 <= indent <= 4 * self@.pos,
                    tabs_run(cs, self@.pos, indent as int) == tabs_run(cs, sp_end, sp_end - s.pos),
                    self@.chars == cs,
                    cs == s.chars,
                    lex_wf(s),
                    cs.len() <= max_chars(),
                decreases cs.len() - self@.pos,
            {
                self.advance();
                indent = (indent / 4 + 1) * 4;
            }
            let ghost s1 = self@;
            if self.is_at_end() {
                return Ok(());
            }
            let c = self.peek();
            if c == '\n' || c == '\r' {
                self.skip_newline();
                continue;
            }
            if c == '#' {
                proof {
                    lemma_run_end(cs, self@.pos, CharClass::NotNewline);
                }
                self.skip_comment();
                if !self.is_at_end() {
                    self.skip_newline();
                }
                continue;
            }
            let pos = Position { line: saved_line, column: saved_col, offset: saved_offset };
            let span = Span::new(pos, self.current_position());
            let current_indent = self.indent_stack[self.indent_stack.len() - 1];
            if indent > current_indent {
                self.indent_stack.push(indent);
                let ghost before = self@;
                self.push_token(TokenKind::Indent, String::new(), span);
                proof {
                    let t = TokenView { kind: TokenKind::Indent, text: Seq::empty(), span };
                    lemma_count_push(before.tokens, t, TokenKind::Indent);
                    lemma_count_push(before.tokens, t, TokenKind::Dedent);
                    assert(self@ == LexState { indents: s1.indents.push(indent), ..with_token(s1, TokenKind::Indent, Seq::empty(), span) });
                }
            } else if indent < current_indent {
                return self.dedent(indent, span);
            }
            return Ok(());
        }
    }

    /// Pops levels deeper than `indent`, adding a `Dedent` for each.
    fn dedent(&mut self, indent: usize, span: Span) -> (r: Result<(), CompileError>)
        requires
            lex_wf(old(self)@),
        ensures
            match r {
                Ok(()) => spec_dedent(old(self)@, indent as int, span) == Ok::<LexState, DiagView>(final(self)@),
                Err(e) => spec_dedent(old(self)@, indent as int, span) == Err::<LexState, DiagView>(e@),
            },
            r is Ok ==> lex_wf(final(self)@) && final(self)@.chars == old(self)@.chars
                && final(self)@.pos == old(self)@.pos && final(self)@.at_line_start == old(self)@.at_line_start,
    {
        let ghost s0 = self@;
        while self.indent_stack[self.indent_stack.len() - 1] > indent
            invariant
                lex_wf(self@),
                self@.chars == s0.chars,
                self@.pos == s0.pos && self@.line == s0.line && self@.column == s0.column,
                self@.at_line_start == s0.at_line_start,
                spec_dedent(self@, indent as int, span) == spec_dedent(s0, indent as int, span),
            decreases self.indent_stack.len(),
        {
            let ghost before = self@;
            self.indent_stack.pop();
            self.push_token(TokenKind::Dedent, String::new(), span);
            proof {
                let t = TokenView { kind: TokenKind::Dedent, text: Seq::empty(), span };
                lemma_count_push(before.tokens, t, TokenKind::Indent);
                lemma_count_push(before.tokens, t, TokenKind::Dedent);
                assert(self@ == LexState { indents: before.indents.drop_last(), ..with_token(before, TokenKind::Dedent, Seq::empty(), span) });
            }
        }
        if self.indent_stack[self.indent_stack.len() - 1] != indent {
            return Err(error_str("inconsistent indentation", span));
        }
        Ok(())
    }

    /// Skips the rest of a comment, up to (not over) the line end.
    fn skip_comment(&mut self)
        requires
            lex_wf(old(self)@),
        ensures
            lex_wf(final(self)@),
            final(self)@ == advance_plain(old(self)@, run_end(old(self)@.chars, old(self)@.pos, CharClass::NotNewline) - old(self)@.pos),
    {
        let ghost s = self@;
        proof {
            lemma_run_end(s.chars, s.pos, CharClass::NotNewline);
        }
        while !self.is_at_end() && self.peek() != '\n'
            invariant
                lex_wf(self@),
                s.pos <= self@.pos,
                self@ == advance_plain(s, self@.pos - s.pos),
                run_end(s.chars, self@.pos, CharClass::NotNewline) == run_end(s.chars, s.pos, CharClass::NotNewline),
                lex_wf(s),
            decreases s.chars.len() - self@.pos,
        {
            self.advance();
        }
    }

    fn lex_number(&mut self)
        requires
            lex_wf(old(self)@),
            !at_end(old(self)@),
            is_digit(old(self)@.chars[old(self)@.pos]),
        ensures
            lex_wf(final(self)@),
            final(self)@ == spec_lex_number(old(self)@),
            final(self)@.pos > old(self)@.pos,
    {
        let ghost s = self@;
        let ghost cs = s.chars;
        let start = self.current_position();
        let mut text = String::new();
        let mut is_float = false;
        proof {
            lemma_run_end(cs, s.pos, CharClass::Digit);
        }
        while !self.is_at_end() && is_ascii_digit(self.peek())
            invariant
                lex_wf(self@),
                s.pos <= self@.pos,
                self@ == advance_plain(s, self@.pos - s.pos),
                run_end(cs, self@.pos, CharClass::Digit) == run_end(cs, s.pos, CharClass::Digit),
                text@ == cs.subrange(s.pos, self@.pos),
                cs == s.chars,
                lex_wf(s),
            decreases cs.len() - self@.pos,
        {
            push_char(&mut text, self.peek());
            self.advance();
            assert(text@ =~= cs.subrange(s.pos, self@.pos));
        }
        let ghost e1 = self@.pos;
        if !self.is_at_end() && self.peek() == '.' {
            if self.pos + 1 < self.chars.len() && is_ascii_digit(self.chars[self.pos + 1]) {
                is_float = true;
                push_char(&mut text, self.peek());
                self.advance();
                assert(text@ =~= cs.subrange(s.pos, self@.pos));
                proof {
                    lemma_run_end(cs, e1 + 1, CharClass::Digit);
                }
                while !self.is_at_end() && is_ascii_digit(self.peek())
                    invariant
                        lex_wf(self@),
                        e1 + 1 <= self@.pos,
                        self@ == advance_plain(s, self@.pos - s.pos),
                        run_end(cs, self@.pos, CharClass::Digit) == run_end(cs, e1 + 1, CharClass::Digit),
                        text@ == cs.subrange(s.pos, self@.pos),
                        cs == s.chars,
                        lex_wf(s),
                        e1 == run_end(cs, s.pos, CharClass::Digit),
                        s.pos <= e1,
                    decreases cs.len() - self@.pos,
                {
                    push_char(&mut text, self.peek());
                    self.advance();
                    assert(text@ =~= cs.subrange(s.pos, self@.pos));
                }
            }
        }
        let end = self.current_position();
        let kind = if is_float { TokenKind::FloatLit } else { TokenKind::IntLit };
        self.push_plain_token(kind, text, Span::new(start, end));
    }

    fn lex_string(&mut self) -> (r: Result<(), CompileError>)
        requires
            lex_wf(old(self)@),
            !at_end(old(self)@),
            old(self)@.chars[old(self)@.pos] == '"',
        ensures
            match r {
                Ok(()) => spec_lex_string(old(self)@) == Ok::<LexState, DiagView>(final(self)@),
                Err(e) => spec_lex_string(old(self)@) == Err::<LexState, DiagView>(e@),
            },
            r is Ok ==> lex_wf(final(self)@) && final(self)@.pos > old(self)@.pos && final(self)@.chars == old(self)@.chars,
            r is Err ==> final(self)@.tokens == old(self)@.tokens,
    {
        let ghost s = self@;
        let ghost cs = s.chars;
        let start = self.current_position();
        self.advance();
        let mut text = String::new();
        proof {
            lemma_scan_string(cs, s.pos + 1, Seq::empty());
        }
        while !self.is_at_end() && self.peek() != '"'
            invariant
                lex_wf(self@),
                s.pos + 1 <= self@.pos,
                self@ == advance_plain(s, self@.pos - s.pos),
                cs == self@.chars,
                scan_string(cs, self@.pos, text@) == scan_string(cs, s.pos + 1, Seq::empty()),
                start == cur_pos(s),
                s == old(self)@,
                lex_wf(s),
            decreases cs.len() - self@.pos,
        {
            proof {
                lemma_scan_string(cs, self@.pos, text@);
            }
            if self.peek() == '\n' {
                assert(scan_string(cs, self@.pos, text@) == StrScan::Unterminated { at: self@.pos });
                assert(pos_after(s, self@.pos - s.pos) == cur_pos(self@));
                let e = error_str("unterminated string literal", Span::new(start, self.current_position()));
                assert(e@ == spec_error("unterminated string literal"@, Span { start: cur_pos(s), end: cur_pos(self@) }));
                assert(scan_string(s.chars, s.pos + 1, Seq::empty()) == StrScan::Unterminated { at: self@.pos });
                assert(spec_lex_string(s) == Err::<LexState, DiagView>(e@));
                return Err(e);
            }
            if self.peek() == '\\' {
                self.advance();
                if self.is_at_end() {
                    return Err(error_str("unterminated string literal", Span::new(start, self.current_position())));
                }
                let c = self.peek();
                if c == 'n' {
                    push_char(&mut text, '\n');
                } else if c == 't' {
                    push_char(&mut text, '\t');
                } else if c == '\\' {
                    push_char(&mut text, '\\');
                } else if c == '"' {
                    push_char(&mut text, '"');
                } else {
                    let mut msg = string_from("unknown escape sequence: \\");
                    push_char(&mut msg, c);
                    return Err(error_at(msg, Span::new(start, self.current_position())));
                }
                assert(c != '\n');
                self.advance();
                assert(self@ == advance_plain(s, self@.pos - s.pos));
            } else {
                push_char(&mut text, self.peek());
                self.advance();
                assert(self@ == advance_plain(s, self@.pos - s.pos));
            }
        }
        if self.is_at_end() {
            return Err(error_str("unterminated string literal", Span::new(start, self.current_position())));
        }
        self.advance();
        let end = self.current_position();
        self.push_plain_token(TokenKind::StringLit, text, Span::new(start, end));
        Ok(())
    }

    fn lex_identifier(&mut self)
        requires
            lex_wf(old(self)@),
            !at_end(old(self)@),
            unicode_alphabetic(old(self)@.chars[old(self)@.pos]) || old(self)@.chars[old(self)@.pos] == '_',
        ensures
            lex_wf(final(self)@),
            final(self)@ == spec_lex_identifier(old(self)@),
            final(self)@.pos > old(self)@.pos,
            final(self)@.chars == old(self)@.chars,
    {
        let ghost s = self@;
        let ghost cs = s.chars;
        let start = self.current_position();
        let mut text = String::new();
        proof {
            lemma_run_end(cs, s.pos, CharClass::IdentChar);
        }
        while !self.is_at_end() && (is_alphanumeric(self.peek()) || self.peek() == '_')
            invariant
                lex_wf(self@),
                s.pos <= self@.pos,
                self@ == advance_n(s, (self@.pos - s.pos) as nat),
                self@.chars == cs,
                run_end(cs, self@.pos, CharClass::IdentChar) == run_end(cs, s.pos, CharClass::IdentChar),
                text@ == cs.subrange(s.pos, self@.pos),
                cs == s.chars,
                lex_wf(s),
            decreases cs.len() - self@.pos,
        {
            push_char(&mut text, self.peek());
            self.advance();
            assert(text@ =~= cs.subrange(s.pos, self@.pos));
            assert(self@ == advance_n(s, (self@.pos - s.pos) as nat));
        }
        let end = self.current_position();
        let kind = match lookup_keyword(&text) {
            Some(k) => k,
            None => TokenKind::Ident,
        };
        self.push_keyword_or_ident(kind, text, Span::new(start, end));
    }

    fn push_keyword_or_ident(&mut self, kind: TokenKind, text: String, span: Span)
        requires
            lex_wf(old(self)@),
            kind == TokenKind::Ident || keyword_of(text@) == Some(kind),
        ensures
            lex_wf(final(self)@),
            final(self)@ == with_token(old(self)@, kind, text@, span),
    {
        self.push_plain_token(kind, text, span);
    }

    fn lex_punctuation(&mut self) -> (r: Result<(), CompileError>)
        requires
            lex_wf(old(self)@),
            !at_end(old(self)@),
        ensures
            match r {
                Ok(()) => spec_lex_punct(old(self)@) == Ok::<LexState, DiagView>(final(self)@),
                Err(e) => spec_lex_punct(old(self)@) == Err::<LexState, DiagView>(e@),
            },
            r is Ok ==> lex_wf(final(self)@) && final(self)@.pos > old(self)@.pos && final(self)@.chars == old(self)@.chars,
            r is Err ==> final(self)@.tokens == old(self)@.tokens,
    {
        let ghost s = self@;
        let start = self.current_position();
        let ch = self.peek();
        let has_next = self.pos + 1 < self.chars.len();
        let next = if has_next { self.chars[self.pos + 1] } else { ' ' };
        let (kind, text, width): (TokenKind, &str, usize) =
            if ch == '+' { (TokenKind::Plus, "+", 1) }
            else if ch == '*' { (TokenKind::Star, "*", 1) }
            else if ch == '/' { (TokenKind::Slash, "/", 1) }
            else if ch == '(' { (TokenKind::LParen, "(", 1) }
            else if ch == ')' { (TokenKind::RParen, ")", 1) }
            else if ch == '[' { (TokenKind::LBracket, "[", 1) }
            else if ch == ']' { (TokenKind::RBracket, "]", 1) }
            else if ch == ':' { (TokenKind::Colon, ":", 1) }
            else if ch == ',' { (TokenKind::Comma, ",", 1) }
            else if ch == '.' { (TokenKind::Dot, ".", 1) }
            else if ch == '-' {
                if has_next && next == '>' { (TokenKind::Arrow, "->", 2) } else { (TokenKind::Minus, "-", 1) }
            } else if ch == '=' {
                if has_next && next == '=' { (TokenKind::EqEq, "==", 2) } else { (TokenKind::Eq, "=", 1) }
            } else if ch == '!' && has_next && next == '=' {
                (TokenKind::BangEq, "!=", 2)
            } else if ch == '<' {
                if has_next && next == '=' { (TokenKind::LtEq, "<=", 2) } else { (TokenKind::Lt, "<", 1) }
            } else if ch == '>' {
                if has_next && next == '=' { (TokenKind::GtEq, ">=", 2) } else { (TokenKind::Gt, ">", 1) }
            } else {
                self.advance();
                let mut msg = string_from("unexpected character: '");
                push_char(&mut msg, ch);
                push_char(&mut msg, '\'');
                return Err(error_at(msg, Span::new(start, self.current_position())));
            };
        assert(punct_of(ch, next_char(s)) == Some((kind, width as int)));
        assert(text@ == punct_text(kind));
        self.advance();
        if width == 2 {
            self.advance();
        }
        let end = self.current_position();
        self.push_plain_token(kind, string_from(text), Span::new(start, end));
        Ok(())
    }

    fn emit_newline(&mut self)
        requires
            lex_wf(old(self)@),
        ensures
            lex_wf(final(self)@),
            final(self)@ == spec_emit_newline(old(self)@),
    {
        if self.tokens.len() > 0 {
            if self.tokens[self.tokens.len() - 1].kind == TokenKind::Newline {
                return;
            }
        }
        let pos = self.current_position();
        self.push_plain_token(TokenKind::Newline, String::new(), Span::new(pos, pos));
    }

    fn skip_newline(&mut self)
        requires
            lex_wf(old(self)@),
        ensures
            lex_wf(final(self)@),
            final(self)@ == spec_skip_newline(old(self)@),
    {
        if !self.is_at_end() && self.peek() == '\r' {
            self.advance();
        }
        if !self.is_at_end() && self.peek() == '\n' {
            self.advance();
        }
    }

    fn peek(&self) -> (c: char)
        requires
            !at_end(self@),
            lex_wf(self@),
        ensures
            c == self@.chars[self@.pos],
    {
        self.chars[self.pos]
    }

    fn advance(&mut self)
        requires
            lex_wf(old(self)@),
        ensures
            lex_wf(final(self)@),
            final(self)@ == advance_one(old(self)@),
    {
        if self.pos < self.chars.len() {
            proof {
                lemma_line_column_step(self.chars@, self.pos as int);
                lemma_byte_offset_step(self.chars@, self.pos as int);
                lemma_byte_offset_bound(self.chars@, self.pos + 1);
            }
            self.offset = self.offset + char_width(self.chars[self.pos]);
            if self.chars[self.pos] == '\n' {
                self.line = self.line + 1;
                self.column = 0;
            } else {
                self.column = self.column + 1;
            }
            self.pos = self.pos + 1;
        }
    }

    fn is_at_end(&self) -> (r: bool)
        requires
            lex_wf(self@),
        ensures
            r == at_end(self@),
    {
        self.pos >= self.chars.len()
    }

    fn current_position(&self) -> (p: Position)
        requires
            lex_wf(self@),
        ensures
            p == cur_pos(self@),
    {
        Position { line: self.line, column: self.column, offset: self.offset }
    }
}

/// The guards in `spec_indentation` that keep its recursion finite never
/// stop it early: skipping a blank or comment line always moves forward,
/// within the text, over the same characters.
pub proof fn lemma_indentation_progress(s: LexState)
    requires
        lex_wf(s),
    ensures
        ({
            let cs = s.chars;
            let sp_end = run_end(cs, s.pos, CharClass::Space);
            let tab_end = tabs_run(cs, sp_end, sp_end - s.pos).0;
            let s1 = advance_plain(s, tab_end - s.pos);
            &&& !at_end(s1) && (cs[s1.pos] == '\n' || cs[s1.pos] == '\r') ==> {
                let s2 = spec_skip_newline(s1);
                s.pos < s2.pos <= cs.len() && s2.chars == cs
            }
            &&& !at_end(s1) && cs[s1.pos] == '#' ==> {
                let s2 = advance_plain(s1, run_end(cs, s1.pos, CharClass::NotNewline) - s1.pos);
                let s3 = if at_end(s2) { s2 } else { spec_skip_newline(s2) };
                s.pos < s3.pos <= cs.len() && s3.chars == cs
            }
        }),
{
    let cs = s.chars;
    lemma_run_end(cs, s.pos, CharClass::Space);
    let sp_end = run_end(cs, s.pos, CharClass::Space);
    lemma_tabs_run(cs, sp_end, sp_end - s.pos);
    let tab_end = tabs_run(cs, sp_end, sp_end - s.pos).0;
    let s1 = advance_plain(s, tab_end - s.pos);
    if !at_end(s1) && cs[s1.pos] == '#' {
        lemma_run_end(cs, s1.pos, CharClass::NotNewline);
    }
}

/// The guard in `spec_lex_loop` never stops it early: each step of the main
/// loop consumes at least one character, within the text, given that an
/// alphabetic first character of a name is also alphanumeric, which
/// `char::is_alphanumeric` promises.
pub proof fn lemma_dispatch_progress(s: LexState)
    requires
        lex_wf(s),
        !at_end(s),
        unicode_alphabetic(s.chars[s.pos]) ==> unicode_alphanumeric(s.chars[s.pos]),
    ensures
        spec_dispatch(s) matches Ok(s2) ==> s.pos < s2.pos <= s.chars.len() && s2.chars == s.chars,
{
    let cs = s.chars;
    let c = cs[s.pos];
    if c == '#' {
        lemma_run_end(cs, s.pos, CharClass::NotNewline);
    } else if c == '"' {
        lemma_scan_string(cs, s.pos + 1, Seq::empty());
    } else if is_digit(c) {
        lemma_run_end(cs, s.pos, CharClass::Digit);
        let e1 = run_end(cs, s.pos, CharClass::Digit);
        if e1 + 1 < cs.len() {
            lemma_run_end(cs, e1 + 1, CharClass::Digit);
        }
    } else if unicode_alphabetic(c) || c == '_' {
        lemma_run_end(cs, s.pos, CharClass::IdentChar);
        let e = run_end(cs, s.pos, CharClass::IdentChar);
        lemma_advance_n(s, (e - s.pos) as nat);
    }
}

/// Emitting a newline adds a `Newline` token only where the last token is
/// not one, so no two `Newline` tokens ever stand side by side.
pub proof fn law_emit_newline_no_double(s: LexState)
    requires
        no_double_newline(s.tokens),
    ensures
        no_double_newline(spec_emit_newline(s).tokens),
        s.tokens.len() > 0 && s.tokens.last().kind == TokenKind::Newline ==> spec_emit_newline(s).tokens == s.tokens,
        !(s.tokens.len() > 0 && s.tokens.last().kind == TokenKind::Newline) ==> spec_emit_newline(s).tokens
            == s.tokens.push(TokenView { kind: TokenKind::Newline, text: Seq::empty(), span: Span { start: cur_pos(s), end: cur_pos(s) } }),
{
    let t = TokenView { kind: TokenKind::Newline, text: Seq::empty(), span: Span { start: cur_pos(s), end: cur_pos(s) } };
    lemma_count_push(s.tokens, t, TokenKind::Newline);
}

proof fn lemma_advance_plain_wf(s: LexState, n: int)
    requires
        lex_wf(s),
        0 <= n,
        s.pos + n <= s.chars.len(),
        forall|j: int| s.pos <= j < s.pos + n ==> #[trigger] s.chars[j] != '\n',
    ensures
        lex_wf(advance_plain(s, n)),
    decreases n,
{
    if n > 0 {
        lemma_advance_plain_wf(s, n - 1);
        let t = advance_plain(s, n - 1);
        lemma_advance_one_wf(t);
        assert(t.chars[t.pos] != '\n');
        assert(advance_one(t) == advance_plain(s, n));
    }
}

proof fn lemma_skip_newline_wf(s: LexState)
    requires
        lex_wf(s),
    ensures
        lex_wf(spec_skip_newline(s)),
        spec_skip_newline(s).chars == s.chars,
        spec_skip_newline(s).pos >= s.pos,
        spec_skip_newline(s).tokens == s.tokens,
        spec_skip_newline(s).indents == s.indents,
{
    let s1 = if !at_end(s) && s.chars[s.pos] == '\r' { advance_plain(s, 1) } else { s };
    if !at_end(s) && s.chars[s.pos] == '\r' {
        lemma_advance_plain_wf(s, 1);
    }
    if !at_end(s1) && s1.chars[s1.pos] == '\n' {
        lemma_advance_one_wf(s1);
    }
}

proof fn lemma_dedent_wf(s: LexState, indent: int, span: Span)
    requires
        lex_wf(s),
        indent >= 0,
    ensures
        spec_dedent(s, indent, span) matches Ok(s2) ==> lex_wf(s2) && s2.chars == s.chars && s2.pos == s.pos,
    decreases s.indents.len(),
{
    if s.indents.len() > 0 && s.indents.last() > indent {
        let d = TokenView { kind: TokenKind::Dedent, text: Seq::empty(), span };
        lemma_count_push(s.tokens, d, TokenKind::Indent);
        lemma_count_push(s.tokens, d, TokenKind::Dedent);
        assert(s.indents.len() >= 2) by {
            if s.indents.len() == 1 {
                assert(s.indents.last() == s.indents[0]);
            }
        }
        let t = LexState { indents: s.indents.drop_last(), ..with_token(s, TokenKind::Dedent, Seq::empty(), span) };
        assert(indents_increasing(t.indents)) by {
            assert forall|a: int, b: int| 0 <= a < b < t.indents.len() implies #[trigger] t.indents[a] < #[trigger] t.indents[b] by {
                assert(t.indents[a] == s.indents[a] && t.indents[b] == s.indents[b]);
            }
        }
        assert(t.indents[0] == s.indents[0]);
        lemma_dedent_wf(t, indent, span);
    }
}

/// Reading the indentation at the start of a line keeps the lexer well
/// formed: the open indentation widths still rise strictly from 0, every
/// `Indent` is still matched by a `Dedent` or an open level, and no two
/// `Newline` tokens stand side by side; the lexer moves forward over the
/// same characters.
pub proof fn law_indentation_keeps_wf(s: LexState)
    requires
        lex_wf(s),
    ensures
        spec_indentation(s) matches Ok(s2) ==> lex_wf(s2) && s2.chars == s.chars && s2.pos >= s.pos,
    decreases s.chars.len() - s.pos,
{
    let cs = s.chars;
    lemma_run_end(cs, s.pos, CharClass::Space);
    let sp_end = run_end(cs, s.pos, CharClass::Space);
    lemma_tabs_run(cs, sp_end, sp_end - s.pos);
    let (tab_end, indent) = tabs_run(cs, sp_end, sp_end - s.pos);
    assert forall|j: int| s.pos <= j < s.pos + (tab_end - s.pos) implies #[trigger] cs[j] != '\n' by {
        if j < sp_end {
            assert(in_class(CharClass::Space, cs[j]));
        } else {
            assert(cs[j] == '\t');
        }
    }
    lemma_advance_plain_wf(s, tab_end - s.pos);
    let s1 = advance_plain(s, tab_end - s.pos);
    if at_end(s1) {
    } else if cs[s1.pos] == '\n' || cs[s1.pos] == '\r' {
        lemma_skip_newline_wf(s1);
        let s2 = spec_skip_newline(s1);
        if s.pos < s2.pos <= cs.len() && s2.chars == cs {
            law_indentation_keeps_wf(s2);
        }
    } else if cs[s1.pos] == '#' {
        lemma_run_end(cs, s1.pos, CharClass::NotNewline);
        let n = run_end(cs, s1.pos, CharClass::NotNewline) - s1.pos;
        assert forall|j: int| s1.pos <= j < s1.pos + n implies #[trigger] cs[j] != '\n' by {
            assert(in_class(CharClass::NotNewline, cs[j]));
        }
        lemma_advance_plain_wf(s1, n);
        let s2 = advance_plain(s1, n);
        if !at_end(s2) {
            lemma_skip_newline_wf(s2);
        }
        let s3 = if at_end(s2) { s2 } else { spec_skip_newline(s2) };
        if s.pos < s3.pos <= cs.len() && s3.chars == cs {
            law_indentation_keeps_wf(s3);
        }
    } else {
        let span = Span { start: cur_pos(s), end: cur_pos(s1) };
        let top = s1.indents.last();
        if indent > top {
            let t = TokenView { kind: TokenKind::Indent, text: Seq::empty(), span };
            lemma_count_push(s1.tokens, t, TokenKind::Indent);
            lemma_count_push(s1.tokens, t, TokenKind::Dedent);
            assert(indent <= 4 * max_chars());
            let w = indent as usize;
            assert(w == indent);
            let ind2 = s1.indents.push(w);
            assert(indents_increasing(ind2)) by {
                assert forall|a: int, b: int| 0 <= a < b < ind2.len() implies #[trigger] ind2[a] < #[trigger] ind2[b] by {
                    if b == s1.indents.len() {
                        if a < s1.indents.len() - 1 {
                            assert(s1.indents[a] < s1.indents[s1.indents.len() - 1]);
                        }
                    } else {
                        assert(ind2[a] == s1.indents[a] && ind2[b] == s1.indents[b]);
                    }
                }
            }
            assert(ind2[0] == s1.indents[0]);
        } else if indent < top {
            lemma_dedent_wf(s1, indent, span);
        }
    }
}

} // verus!
