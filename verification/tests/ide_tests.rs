use senbonzakura::ide::{check_document, hover_at, span_range, type_info, word_at};
use senbonzakura::source::{Position, SourceFile, Span};

#[test]
fn ide_check_document_reports_first_error() {
    let ok = SourceFile::from_string("let x: Int = 1\n");
    assert!(check_document(&ok).is_ok());
    let bad = SourceFile::from_string("let x: Int = y\n");
    let e = check_document(&bad).unwrap_err();
    assert_eq!(e.diagnostic.message, "undefined variable: y");
}

#[test]
fn ide_span_range_is_zero_based() {
    let span = Span {
        start: Position { line: 3, column: 4, offset: 0 },
        end: Position { line: 3, column: 9, offset: 0 },
    };
    let r = span_range(span);
    assert_eq!((r.start_line, r.start_character, r.end_line, r.end_character), (2, 4, 2, 9));
    let r0 = span_range(Span::dummy());
    assert_eq!((r0.start_line, r0.end_line), (0, 0));
}

#[test]
fn ide_word_at_cursor() {
    assert_eq!(word_at("let my_var = 1", 6), Some((4, 10)));
    assert_eq!(word_at("let my_var = 1", 4), Some((4, 10)));
    assert_eq!(word_at("let my_var = 1", 10), None);
    assert_eq!(word_at("abc", 3), None);
}

#[test]
fn ide_type_info_and_hover() {
    let source = SourceFile::from_string("let count: Int = 3\nlet s = \"a\"\n");
    assert_eq!(type_info(&source, "count"), Some("Int".to_string()));
    assert_eq!(type_info(&source, "nothing"), None);
    let h = hover_at(&source, 1, 4).unwrap();
    assert_eq!(h.markdown, "```senbonzakura\ns: Str\n```");
    assert_eq!((h.start, h.end), (4, 5));
    assert!(hover_at(&source, 5, 0).is_none());
    assert!(hover_at(&source, 0, 3).is_none());
}

#[test]
fn ide_type_info_after_failed_check() {
    let source = SourceFile::from_string("let a: Int = 1\nlet b: Int = \"x\"\nlet c = 2\n");
    assert!(check_document(&source).is_err());
    assert_eq!(type_info(&source, "a"), Some("Int".to_string()));
    assert_eq!(type_info(&source, "b"), None);
    assert_eq!(type_info(&source, "c"), None);
}

#[test]
fn ide_type_info_after_failure_in_function_body() {
    let source = SourceFile::from_string("def f(a: Int) -> Int:\n    let q: Str = \"s\"\n    let z: Int = q\nlet after = 1\n");
    assert!(check_document(&source).is_err());
    assert_eq!(type_info(&source, "q"), Some("Str".to_string()));
    assert_eq!(type_info(&source, "a"), Some("Int".to_string()));
    assert_eq!(type_info(&source, "f"), Some("(Int) -> Int".to_string()));
    assert_eq!(type_info(&source, "after"), None);
}
