//! Diagnostics and compile errors.

use vstd::prelude::*;
use crate::source::{SourceFile, Span, strings_view};
use crate::text::{decimal, push_decimal, push_repeat, push_str, push_string, repeat_char, string_from};
use vstd::utf8::encode_utf8;

verus! {

#[derive(Debug, Clone, Copy, PartialEq, Eq, Structural)]
pub enum Severity {
    Error,
    Warning,
    Note,
}

impl Severity {
    pub open spec fn spec_text(self) -> Seq<char> {
        match self {
            Severity::Error => "error"@,
            Severity::Warning => "warning"@,
            Severity::Note => "note"@,
        }
    }

    /// The lower-case name of the severity.
    pub fn to_string(&self) -> (s: String)
        ensures
            s@ == self.spec_text(),
    {
        match self {
            Severity::Error => string_from("error"),
            Severity::Warning => string_from("warning"),
            Severity::Note => string_from("note"),
        }
    }
}

/// A message about a place in the source.
#[derive(Debug, Clone)]
pub struct Diagnostic {
    pub severity: Severity,
    pub message: String,
    pub span: Span,
}

/// The column where the underline of a diagnostic ends, on source line `line_text`.
pub open spec fn underline_end(d: Diagnostic, line_text: Seq<char>) -> int {
    if d.span.end.line == d.span.start.line {
        d.span.end.column as int
    } else {
        (encode_utf8(line_text).len() as usize) as int
    }
}

/// The diagnostic can be shown against `lines` without its underline running backwards.
pub open spec fn displayable(d: Diagnostic, lines: Seq<Seq<char>>) -> bool {
    let line = d.span.start.line as int;
    (1 <= line <= lines.len()) ==> underline_end(d, lines[line - 1]) >= d.span.start.column
}

/// The text of a diagnostic shown against a source named `path` with the given lines:
/// a header `path:line:col: severity: message`, then, where the line exists,
/// the line itself and a caret underline.
pub open spec fn display_text(d: Diagnostic, path: Seq<char>, lines: Seq<Seq<char>>) -> Seq<char> {
    let line = d.span.start.line as int;
    let col = d.span.start.column as nat;
    let header = path + ":"@ + decimal(line as nat) + ":"@ + decimal(col) + ": "@
        + d.severity.spec_text() + ": "@ + d.message@ + "\n"@;
    if 1 <= line <= lines.len() {
        let src = lines[line - 1];
        let width = underline_end(d, src) - col;
        let carets = if width > 1 { width } else { 1 };
        header + "  "@ + src + "\n"@ + "  "@ + repeat_char(' ', col) + repeat_char('^', carets as nat) + "\n"@
    } else {
        header
    }
}

/// What a diagnostic says: its severity, message and span.
pub struct DiagView {
    pub severity: Severity,
    pub message: Seq<char>,
    pub span: Span,
}

/// The error diagnostic with the given message and span.
pub open spec fn spec_error(message: Seq<char>, span: Span) -> DiagView {
    DiagView { severity: Severity::Error, message, span }
}

impl View for Diagnostic {
    type V = DiagView;

    open spec fn view(&self) -> DiagView {
        DiagView { severity: self.severity, message: self.message@, span: self.span }
    }
}

impl View for CompileError {
    type V = DiagView;

    open spec fn view(&self) -> DiagView {
        self.diagnostic@
    }
}

/// A compile error carrying an error diagnostic with the given message and span.
pub fn error_at(message: String, span: Span) -> (e: CompileError)
    ensures
        e@ == spec_error(message@, span),
{
    CompileError { diagnostic: Diagnostic { severity: Severity::Error, message, span } }
}

/// A compile error whose message is a string slice.
pub fn error_str(message: &str, span: Span) -> (e: CompileError)
    ensures
        e@ == spec_error(message@, span),
{
    error_at(string_from(message), span)
}

impl Diagnostic {
    /// An error with the given message and span.
    pub fn error(message: String, span: Span) -> (d: Diagnostic)
        ensures
            d.severity == Severity::Error,
            d.message@ == message@,
            d.span == span,
    {
        Diagnostic { severity: Severity::Error, message, span }
    }

    /// A copy of the diagnostic.
    pub fn duplicate(&self) -> (d: Diagnostic)
        ensures
            d.severity == self.severity,
            d.message@ == self.message@,
            d.span == self.span,
    {
        Diagnostic { severity: self.severity, message: self.message.clone(), span: self.span }
    }

    /// The diagnostic as shown to a user, against the source it is about.
    pub fn display(&self, source: &SourceFile) -> (s: String)
        requires
            displayable(*self, strings_view(source.lines@)),
        ensures
            s@ == display_text(*self, source.path@, strings_view(source.lines@)),
    {
        let mut out = String::new();
        let line = self.span.start.line;
        let col = self.span.start.column;
        push_string(&mut out, &source.path);
        push_str(&mut out, ":");
        push_decimal(&mut out, line);
        push_str(&mut out, ":");
        push_decimal(&mut out, col);
        push_str(&mut out, ": ");
        let sev = self.severity.to_string();
        push_string(&mut out, &sev);
        push_str(&mut out, ": ");
        push_string(&mut out, &self.message);
        push_str(&mut out, "\n");
        let ghost lines = strings_view(source.lines@);
        assert(out@ =~= source.path@ + ":"@ + decimal(line as nat) + ":"@ + decimal(col as nat) + ": "@
            + self.severity.spec_text() + ": "@ + self.message@ + "\n"@);
        if line >= 1 && line <= source.lines.len() {
            let source_line = &source.lines[line - 1];
            assert(source_line@ == lines[line - 1]);
            let ghost h = out@;
            push_str(&mut out, "  ");
            push_string(&mut out, source_line);
            push_str(&mut out, "\n");
            let end_col = if self.span.end.line == line {
                self.span.end.column
            } else {
                source_line.as_str().len()
            };
            let width = end_col - col;
            let underline_len = if width > 1 { width } else { 1 };
            push_str(&mut out, "  ");
            push_repeat(&mut out, ' ', col);
            push_repeat(&mut out, '^', underline_len);
            push_str(&mut out, "\n");
            assert(out@ =~= h + "  "@ + lines[line - 1] + "\n"@ + "  "@ + repeat_char(' ', col as nat)
                + repeat_char('^', underline_len as nat) + "\n"@);
        }
        out
    }
}

/// An error that stops compilation.
#[derive(Debug)]
pub struct CompileError {
    pub diagnostic: Diagnostic,
}

impl CompileError {
    pub fn new(diagnostic: Diagnostic) -> (e: CompileError)
        ensures
            e.diagnostic == diagnostic,
    {
        CompileError { diagnostic }
    }

    pub open spec fn spec_text(self) -> Seq<char> {
        self.diagnostic.severity.spec_text() + ": "@ + self.diagnostic.message@
    }

    /// The error as one line: `severity: message`.
    pub fn to_string(&self) -> (s: String)
        ensures
            s@ == self.spec_text(),
    {
        let mut s = self.diagnostic.severity.to_string();
        push_str(&mut s, ": ");
        push_string(&mut s, &self.diagnostic.message);
        s
    }
}

} // verus!
