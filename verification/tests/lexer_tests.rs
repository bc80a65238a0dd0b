use senbonzakura::ast::{Expr, ExprStmt, Module, Statement};
use senbonzakura::emitter::PythonEmitter;
use senbonzakura::source::Span;
use senbonzakura::lexer::Lexer;
use senbonzakura::source::SourceFile;
use senbonzakura::token::{Token, TokenKind};

fn tokenize(input: &str) -> Vec<Token> {
    let source = SourceFile::from_string(input);
    Lexer::new(&source).tokenize().unwrap()
}

fn kinds(input: &str) -> Vec<TokenKind> {
    tokenize(input).into_iter().map(|t| t.kind).collect()
}

fn lex_error(input: &str) -> String {
    let source = SourceFile::from_string(input);
    match Lexer::new(&source).tokenize() {
        Ok(_) => panic!("expected a lexical error"),
        Err(e) => e.diagnostic.message,
    }
}

#[test]
fn test_integer_literal() {
    assert_eq!(kinds("42"), vec![TokenKind::IntLit, TokenKind::Eof]);
}

#[test]
fn test_float_literal() {
    assert_eq!(kinds("3.14"), vec![TokenKind::FloatLit, TokenKind::Eof]);
}

#[test]
fn lexer_test_string_literal() {
    let tokens = tokenize("\"hello\"");
    assert_eq!(tokens[0].kind, TokenKind::StringLit);
    assert_eq!(tokens[0].text, "hello");
}

#[test]
fn test_string_escape() {
    let tokens = tokenize("\"hello\\nworld\"");
    assert_eq!(tokens[0].text, "hello\nworld");
}

#[test]
fn test_keywords() {
    assert_eq!(
        kinds("def let data return"),
        vec![
            TokenKind::KwDef,
            TokenKind::KwLet,
            TokenKind::KwData,
            TokenKind::KwReturn,
            TokenKind::Eof,
        ]
    );
}

#[test]
fn test_operators() {
    assert_eq!(
        kinds("+ - * / == != -> <= >="),
        vec![
            TokenKind::Plus,
            TokenKind::Minus,
            TokenKind::Star,
            TokenKind::Slash,
            TokenKind::EqEq,
            TokenKind::BangEq,
            TokenKind::Arrow,
            TokenKind::LtEq,
            TokenKind::GtEq,
            TokenKind::Eof,
        ]
    );
}

#[test]
fn lexer_test_let_binding() {
    assert_eq!(
        kinds("let x: Int = 42"),
        vec![
            TokenKind::KwLet,
            TokenKind::Ident,
            TokenKind::Colon,
            TokenKind::Ident,
            TokenKind::Eq,
            TokenKind::IntLit,
            TokenKind::Eof,
        ]
    );
}

#[test]
fn test_indentation() {
    let input = "def foo():\n    return 42\n";
    assert_eq!(
        kinds(input),
        vec![
            TokenKind::KwDef,
            TokenKind::Ident,
            TokenKind::LParen,
            TokenKind::RParen,
            TokenKind::Colon,
            TokenKind::Newline,
            TokenKind::Indent,
            TokenKind::KwReturn,
            TokenKind::IntLit,
            TokenKind::Newline,
            TokenKind::Dedent,
            TokenKind::Eof,
        ]
    );
}

#[test]
fn test_nested_indentation() {
    let input = "if True:\n    if False:\n        42\n";
    assert_eq!(
        kinds(input),
        vec![
            TokenKind::KwIf,
            TokenKind::KwTrue,
            TokenKind::Colon,
            TokenKind::Newline,
            TokenKind::Indent,
            TokenKind::KwIf,
            TokenKind::KwFalse,
            TokenKind::Colon,
            TokenKind::Newline,
            TokenKind::Indent,
            TokenKind::IntLit,
            TokenKind::Newline,
            TokenKind::Dedent,
            TokenKind::Dedent,
            TokenKind::Eof,
        ]
    );
}

#[test]
fn test_comment_ignored() {
    assert_eq!(
        kinds("42 # this is a comment"),
        vec![TokenKind::IntLit, TokenKind::Eof]
    );
}

#[test]
fn test_blank_lines_ignored() {
    assert_eq!(
        kinds("42\n\n\n43"),
        vec![
            TokenKind::IntLit,
            TokenKind::Newline,
            TokenKind::IntLit,
            TokenKind::Eof,
        ]
    );
}

#[test]
fn lexer_test_while() {
    assert_eq!(
        kinds("while True:\n    42\n"),
        vec![
            TokenKind::KwWhile,
            TokenKind::KwTrue,
            TokenKind::Colon,
            TokenKind::Newline,
            TokenKind::Indent,
            TokenKind::IntLit,
            TokenKind::Newline,
            TokenKind::Dedent,
            TokenKind::Eof,
        ]
    );
}

#[test]
fn lexer_spans_track_lines_and_columns() {
    let tokens = tokenize("let x\n  = 1");
    assert_eq!(tokens[0].span.start.line, 1);
    assert_eq!(tokens[0].span.start.column, 0);
    assert_eq!(tokens[1].span.start.column, 4);
    assert_eq!(tokens[1].span.end.column, 5);
    // The `=` on the second line.
    let eq = tokens.iter().find(|t| t.kind == TokenKind::Eq).unwrap();
    assert_eq!(eq.span.start.line, 2);
    assert_eq!(eq.span.start.column, 2);
    assert_eq!(eq.span.start.offset, 8);
}

#[test]
fn lexer_unterminated_string() {
    assert_eq!(lex_error("\"abc"), "unterminated string literal");
    assert_eq!(lex_error("\"abc\ndef\""), "unterminated string literal");
}

#[test]
fn lexer_unknown_escape() {
    assert_eq!(lex_error("\"a\\qb\""), "unknown escape sequence: \\q");
}

#[test]
fn lexer_unexpected_character() {
    assert_eq!(lex_error("a ! b"), "unexpected character: '!'");
    assert_eq!(lex_error("a $ b"), "unexpected character: '$'");
}

#[test]
fn lexer_inconsistent_indentation() {
    assert_eq!(
        lex_error("if x:\n        a\n    b\n"),
        "inconsistent indentation"
    );
}

#[test]
fn lexer_number_followed_by_dot_name() {
    assert_eq!(
        kinds("1.x"),
        vec![TokenKind::IntLit, TokenKind::Dot, TokenKind::Ident, TokenKind::Eof]
    );
}

#[test]
fn lexer_indents_balance_and_end_with_eof() {
    let tokens = tokenize("a:\n    b:\n        c\n    d\ne\n    f");
    let indents = tokens.iter().filter(|t| t.kind == TokenKind::Indent).count();
    let dedents = tokens.iter().filter(|t| t.kind == TokenKind::Dedent).count();
    assert_eq!(indents, dedents);
    assert_eq!(tokens.last().unwrap().kind, TokenKind::Eof);
}

#[test]
fn lexer_tabs_and_crlf() {
    assert_eq!(
        kinds("if x:\r\n\ty\r\n"),
        vec![
            TokenKind::KwIf,
            TokenKind::Ident,
            TokenKind::Colon,
            TokenKind::Newline,
            TokenKind::Indent,
            TokenKind::Ident,
            TokenKind::Newline,
            TokenKind::Dedent,
            TokenKind::Eof,
        ]
    );
}

#[test]
fn lexer_offsets_count_bytes() {
    let toks = tokenize("\"é\" 1\n");
    assert_eq!(toks[0].kind, TokenKind::StringLit);
    assert_eq!(toks[0].span.start.offset, 0);
    assert_eq!(toks[1].kind, TokenKind::IntLit);
    assert_eq!(toks[1].span.start.offset, 5);
    assert_eq!(toks[1].span.start.column, 4);
}

#[test]
fn lexer_no_adjacent_newlines() {
    let toks = tokenize("x\n\n\n# c\n\ny\n");
    for w in toks.windows(2) {
        assert!(!(w[0].kind == TokenKind::Newline && w[1].kind == TokenKind::Newline));
    }
}

#[test]
fn lexer_reads_back_emitted_string() {
    use_emitted_round_trip("a\"b\\c\nd\te é");
}

fn use_emitted_round_trip(s: &str) {
    let module = Module {
        body: vec![Statement::Expr(ExprStmt { expr: Expr::StringLiteral(s.to_string(), Span::dummy()), span: Span::dummy() })],
        span: Span::dummy(),
    };
    let out = PythonEmitter::new().emit_module(&module);
    let toks = tokenize(&out);
    assert_eq!(toks[0].kind, TokenKind::StringLit);
    assert_eq!(toks[0].text, s);
}
