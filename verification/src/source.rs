//! Source positions, spans and source files.

use vstd::prelude::*;
use vstd::utf8::{decode_utf8, valid_utf8};
use crate::text::{chars_of, decimal, push_char, push_decimal, string_from};

verus! {

/// A place in a source text: 1-based line, 0-based column (in characters),
/// and the byte offset of the place in the UTF-8 text.
#[derive(Debug, Clone, Copy, PartialEq, Eq, Structural)]
pub struct Position {
    pub line: usize,
    pub column: usize,
    pub offset: usize,
}

/// A stretch of source text between two positions.
#[derive(Debug, Clone, Copy, PartialEq, Eq, Structural)]
pub struct Span {
    pub start: Position,
    pub end: Position,
}

/// The position used where no source location applies.
pub open spec fn zero_position() -> Position {
    Position { line: 0, column: 0, offset: 0 }
}

impl Span {
    pub fn new(start: Position, end: Position) -> (s: Span)
        ensures
            s == (Span { start, end }),
    {
        Span { start, end }
    }

    pub open spec fn spec_dummy() -> Span {
        Span { start: zero_position(), end: zero_position() }
    }

    /// The span used where no source location applies.
    pub fn dummy() -> (s: Span)
        ensures
            s == Span::spec_dummy(),
    {
        let pos = Position { line: 0, column: 0, offset: 0 };
        Span { start: pos, end: pos }
    }

    /// The text form of a span: `line:column` of its start.
    pub open spec fn spec_text(self) -> Seq<char> {
        decimal(self.start.line as nat) + seq![':'] + decimal(self.start.column as nat)
    }

    pub fn to_string(&self) -> (s: String)
        ensures
            s@ == self.spec_text(),
    {
        let mut s = String::new();
        push_decimal(&mut s, self.start.line);
        push_char(&mut s, ':');
        push_decimal(&mut s, self.start.column);
        s
    }
}

/// Drops one carriage return at the end of a line, if there is one.
pub open spec fn strip_cr(line: Seq<char>) -> Seq<char> {
    if line.len() > 0 && line.last() == '\r' {
        line.drop_last()
    } else {
        line
    }
}

/// The lines of `s` from index `i` on, where `cur` holds the characters of the
/// line read so far: lines end at `'\n'`, a `'\r'` right before it is dropped,
/// and a final line ending adds no empty line.
pub open spec fn lines_from(s: Seq<char>, i: int, cur: Seq<char>) -> Seq<Seq<char>>
    decreases s.len() - i,
{
    if i >= s.len() {
        if cur.len() == 0 {
            Seq::empty()
        } else {
            seq![cur]
        }
    } else if s[i] == '\n' {
        seq![strip_cr(cur)] + lines_from(s, i + 1, Seq::empty())
    } else {
        lines_from(s, i + 1, cur.push(s[i]))
    }
}

/// The lines of a text, as `str::lines` splits them.
pub open spec fn text_lines(s: Seq<char>) -> Seq<Seq<char>> {
    lines_from(s, 0, Seq::empty())
}

/// The character views of a sequence of strings.
pub open spec fn strings_view(v: Seq<String>) -> Seq<Seq<char>> {
    Seq::new(v.len(), |i: int| v[i]@)
}

/// Why the bytes of a source file were refused.
#[derive(Debug, Clone, Copy, PartialEq, Eq, Structural)]
pub enum SourceError {
    /// The bytes start with a byte order mark.
    HasBom,
    /// The bytes are not valid UTF-8.
    InvalidUtf8,
}

impl SourceError {
    pub open spec fn spec_message(self) -> Seq<char> {
        match self {
            SourceError::HasBom => "Source file has BOM"@,
            SourceError::InvalidUtf8 => "Source file contains invalid UTF8"@,
        }
    }

    /// The message the error is reported with.
    pub fn message(&self) -> (s: String)
        ensures
            s@ == self.spec_message(),
    {
        match self {
            SourceError::HasBom => string_from("Source file has BOM"),
            SourceError::InvalidUtf8 => string_from("Source file contains invalid UTF8"),
        }
    }
}

/// The bytes start with a UTF-8, UTF-16LE or UTF-16BE byte order mark.
pub open spec fn starts_with_bom(b: Seq<u8>) -> bool {
    ||| (b.len() >= 3 && b[0] == 0xEFu8 && b[1] == 0xBBu8 && b[2] == 0xBFu8)
    ||| (b.len() >= 2 && b[0] == 0xFFu8 && b[1] == 0xFEu8)
    ||| (b.len() >= 2 && b[0] == 0xFEu8 && b[1] == 0xFFu8)
}

/// `encoding_rs::Encoding::for_bom`, asked only whether it found a mark.
/// Claimed: it finds one exactly when the buffer starts with EF BB BF, FF FE or FE FF.
#[verifier::external_body]
fn bom_present(bytes: &[u8]) -> (r: bool)
    ensures
        r == starts_with_bom(bytes@),
{
    encoding_rs::Encoding::for_bom(bytes).is_some()
}

/// `String::from_utf8`, with the error dropped.
/// Claimed: it succeeds exactly on valid UTF-8, and then holds the decoded characters.
#[verifier::external_body]
fn string_from_utf8(bytes: Vec<u8>) -> (r: Option<String>)
    ensures
        r is Some <==> valid_utf8(bytes@),
        r matches Some(s) ==> s@ == decode_utf8(bytes@),
{
    String::from_utf8(bytes).ok()
}

/// A source text with a name and its lines.
#[derive(Debug, Clone)]
pub struct SourceFile {
    pub path: String,
    pub content: String,
    pub lines: Vec<String>,
}

impl SourceFile {
    /// The lines of `cs`, as `str::lines` splits them.
    fn split_lines(cs: &Vec<char>) -> (v: Vec<String>)
        ensures
            strings_view(v@) == text_lines(cs@),
    {
        let mut out: Vec<String> = Vec::new();
        let mut cur = String::new();
        let mut i: usize = 0;
        while i < cs.len()
            invariant
                i <= cs.len(),
                strings_view(out@) + lines_from(cs@, i as int, cur@) == text_lines(cs@),
            decreases cs.len() - i,
        {
            let c = cs[i];
            let ghost before = strings_view(out@);
            if c == '\n' {
                let ghost cv = cur@;
                let mut line = cur;
                if line.as_str().is_empty() == false {
                    let ghost l0 = line@;
                    let n = line.as_str().unicode_len();
                    let last = line.as_str().get_char(n - 1);
                    if last == '\r' {
                        line = Self::drop_last_char(&line);
                    }
                }
                assert(line@ == strip_cr(cv));
                out.push(line);
                cur = String::new();
                assert(strings_view(out@) =~= before.push(strip_cr(cv)));
                assert(lines_from(cs@, i as int, cv) == seq![strip_cr(cv)] + lines_from(cs@, i + 1, Seq::<char>::empty()));
                assert(strings_view(out@) + lines_from(cs@, i + 1, cur@) =~= before + (seq![strip_cr(cv)] + lines_from(cs@, i + 1, Seq::<char>::empty())));
            } else {
                push_char(&mut cur, c);
            }
            i = i + 1;
        }
        if !cur.as_str().is_empty() {
            let ghost before = strings_view(out@);
            let ghost cv = cur@;
            out.push(cur);
            assert(strings_view(out@) =~= before + seq![cv]);
        } else {
            assert(strings_view(out@) + Seq::<Seq<char>>::empty() =~= strings_view(out@));
        }
        out
    }

    /// The string without its last character.
    fn drop_last_char(s: &String) -> (r: String)
        requires
            s@.len() > 0,
        ensures
            r@ == s@.drop_last(),
    {
        let n = s.as_str().unicode_len();
        let mut r = String::new();
        let mut i: usize = 0;
        while i + 1 < n
            invariant
                n == s@.len(),
                n > 0,
                i + 1 <= n,
                r@ == s@.take(i as int),
            decreases n - i,
        {
            push_char(&mut r, s.as_str().get_char(i));
            i = i + 1;
            assert(r@ =~= s@.take(i as int));
        }
        assert(s@.take(i as int) =~= s@.drop_last());
        r
    }

    /// A source named `<string>` holding `content`.
    pub fn from_string(content: &str) -> (f: SourceFile)
        ensures
            f.path@ == "<string>"@,
            f.content@ == content@,
            strings_view(f.lines@) == text_lines(content@),
    {
        let cs = chars_of(content);
        let lines = Self::split_lines(&cs);
        SourceFile { path: string_from("<string>"), content: string_from(content), lines }
    }

    /// A source named `path` holding `content`.
    pub fn with_path(path: &str, content: &str) -> (f: SourceFile)
        ensures
            f.path@ == path@,
            f.content@ == content@,
            strings_view(f.lines@) == text_lines(content@),
    {
        let cs = chars_of(content);
        let lines = Self::split_lines(&cs);
        SourceFile { path: string_from(path), content: string_from(content), lines }
    }

    /// Decodes the bytes of a source file: refused if they start with a byte
    /// order mark, or are not valid UTF-8.
    pub fn read_content_from_bytes(bytes: Vec<u8>) -> (r: Result<String, SourceError>)
        ensures
            starts_with_bom(bytes@) ==> r == Err::<String, SourceError>(SourceError::HasBom),
            !starts_with_bom(bytes@) && !valid_utf8(bytes@) ==> r == Err::<String, SourceError>(SourceError::InvalidUtf8),
            !starts_with_bom(bytes@) && valid_utf8(bytes@) ==> (r matches Ok(s) && s@ == decode_utf8(bytes@)),
    {
        let ok = Self::validate_no_bom(&bytes);
        if ok.is_err() {
            return Err(SourceError::HasBom);
        }
        match string_from_utf8(bytes) {
            Some(s) => Ok(s),
            None => Err(SourceError::InvalidUtf8),
        }
    }

    fn validate_no_bom(bytes: &Vec<u8>) -> (r: Result<(), SourceError>)
        ensures
            r is Err <==> starts_with_bom(bytes@),
            r matches Err(e) ==> e == SourceError::HasBom,
    {
        if bom_present(bytes.as_slice()) {
            return Err(SourceError::HasBom);
        }
        Ok(())
    }
}

} // verus!
