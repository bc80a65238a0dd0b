use senbonzakura::environment::Environment;
use senbonzakura::errors::{CompileError, Diagnostic, Severity};
use senbonzakura::source::{Position, SourceError, SourceFile, Span};
use senbonzakura::types::{InstanceDef, Type};

fn pos(line: usize, column: usize) -> Position {
    Position { line, column, offset: 0 }
}

#[test]
fn environment_lookup_after_define() {
    let mut env = Environment::new();
    env.define("x".to_string(), Type::Int, false);
    let b = env.lookup("x").unwrap();
    assert!(b.ty.equals(&Type::Int));
    assert!(!b.mutable);
    assert!(env.lookup("y").is_none());
}

#[test]
fn environment_child_shadows_and_parent_returns() {
    let mut env = Environment::new();
    env.define("x".to_string(), Type::Int, false);
    env.define("z".to_string(), Type::Bool, false);
    let mut child = Environment::child(env);
    child.define("x".to_string(), Type::Str, true);
    assert!(child.lookup("x").unwrap().ty.equals(&Type::Str));
    assert!(child.lookup("z").unwrap().ty.equals(&Type::Bool));
    let parent = child.into_parent().unwrap();
    assert!(parent.lookup("x").unwrap().ty.equals(&Type::Int));
    assert!(parent.into_parent().is_none());
}

#[test]
fn environment_types_methods_instances() {
    let mut env = Environment::new();
    env.define_type("Meters".to_string(), Type::Float);
    assert!(env.lookup_type("Meters").unwrap().equals(&Type::Float));
    env.define_method("Point".to_string(), "sum".to_string(), Type::Int);
    assert!(env.lookup_method("Point", "sum").unwrap().equals(&Type::Int));
    assert!(env.lookup_method("Point", "other").is_none());
    env.define_instance(
        "Add".to_string(),
        InstanceDef { typeclass_name: "Add".to_string(), type_args: vec![Type::Int, Type::Int, Type::Int], is_builtin: false },
    );
    assert!(env.lookup_instance("Add", &[Type::Int, Type::Int, Type::Int]).is_some());
    assert!(env.lookup_instance("Add", &[Type::Int, Type::Str, Type::Int]).is_none());
    assert!(env.lookup_instance_by_prefix("Add", &[Type::Int, Type::Int]).is_some());
    assert!(env.lookup_instance_by_prefix("Sub", &[Type::Int]).is_none());
}

#[test]
fn type_display() {
    assert_eq!(Type::Int.to_string(), "Int");
    assert_eq!(Type::List(Box::new(Type::Str)).to_string(), "List[Str]");
    assert_eq!(Type::NoneType.to_string(), "None");
    assert_eq!(Type::Unknown.to_string(), "Unknown");
}

#[test]
fn diagnostic_display_with_underline() {
    let source = SourceFile::with_path("main.sbz", "let x = 1\nlet y = zz\n");
    let d = Diagnostic::error("undefined variable: zz".to_string(), Span { start: pos(2, 8), end: pos(2, 10) });
    assert_eq!(
        d.display(&source),
        "main.sbz:2:8: error: undefined variable: zz\n  let y = zz\n          ^^\n"
    );
    let e = CompileError::new(d);
    assert_eq!(e.diagnostic.severity, Severity::Error);
}

#[test]
fn diagnostic_display_outside_source() {
    let source = SourceFile::from_string("x\n");
    let d = Diagnostic::error("boom".to_string(), Span::dummy());
    assert_eq!(d.display(&source), "<string>:0:0: error: boom\n");
}

#[test]
fn source_lines_and_bytes() {
    let s = SourceFile::from_string("a\r\nb\n\nc");
    assert_eq!(s.lines, vec!["a", "b", "", "c"]);
    assert_eq!(SourceFile::read_content_from_bytes(vec![0xEF, 0xBB, 0xBF, b'a']), Err(SourceError::HasBom));
    assert_eq!(SourceFile::read_content_from_bytes(vec![0xFF, 0xFE]), Err(SourceError::HasBom));
    assert_eq!(SourceFile::read_content_from_bytes(vec![0xC3, 0x28]), Err(SourceError::InvalidUtf8));
    assert_eq!(SourceFile::read_content_from_bytes(b"let x = 1".to_vec()), Ok("let x = 1".to_string()));
    assert_eq!(SourceError::HasBom.message(), "Source file has BOM");
}

#[test]
fn environment_instances_innermost_first() {
    let mut outer = Environment::new();
    outer.define_instance(
        "Show".to_string(),
        InstanceDef { typeclass_name: "Show".to_string(), type_args: vec![Type::Int], is_builtin: true },
    );
    let mut inner = Environment::child(outer);
    assert!(inner.lookup_instance("Show", &[Type::Int]).unwrap().is_builtin);
    inner.define_instance(
        "Show".to_string(),
        InstanceDef { typeclass_name: "Show".to_string(), type_args: vec![Type::Int], is_builtin: false },
    );
    assert!(!inner.lookup_instance("Show", &[Type::Int]).unwrap().is_builtin);
    assert!(inner.lookup_instance("Show", &[Type::Str]).is_none());
    inner.define("z".to_string(), Type::Int, false);
    inner.define_type("T".to_string(), Type::Int);
    let back = inner.into_parent().unwrap();
    assert!(back.lookup_instance("Show", &[Type::Int]).unwrap().is_builtin);
    assert!(back.lookup("z").is_none());
    assert!(back.lookup_type("T").is_none());
    assert!(Environment::new().into_parent().is_none());
}

#[test]
fn type_clone_is_equal() {
    let t = Type::List(Box::new(Type::Str));
    assert!(t.clone().equals(&t));
}

#[test]
fn environment_clone_keeps_lookups() {
    let mut env = Environment::new();
    env.define("x".to_string(), Type::Int, true);
    let child = Environment::child(env);
    let copy = child.clone();
    assert!(copy.lookup("x").unwrap().ty.equals(&Type::Int));
    assert!(copy.lookup("x").unwrap().mutable);
}

#[test]
fn environment_child_of_clone_shadows_and_leaves() {
    let mut p = Environment::new();
    p.define("n".to_string(), Type::Int, false);
    p.define_method("Point".to_string(), "sum".to_string(), Type::Int);
    let mut c = Environment::child(p.clone());
    c.define("n".to_string(), Type::Str, true);
    assert!(c.lookup("n").unwrap().ty.equals(&Type::Str));
    assert!(c.lookup_method("Point", "sum").unwrap().equals(&Type::Int));
    let back = c.into_parent().unwrap();
    assert!(back.lookup("n").unwrap().ty.equals(&Type::Int));
    assert!(!back.lookup("n").unwrap().mutable);
    assert!(p.lookup("n").unwrap().ty.equals(&Type::Int));
}

#[test]
fn lexer_line_and_column_after_newlines() {
    use_lines();
}

fn use_lines() {
    let source = SourceFile::from_string("a\n  bb\ncé");
    let toks = senbonzakura::lexer::Lexer::new(&source).tokenize().unwrap();
    let last_ident = toks.iter().filter(|t| t.text == "cé").next().unwrap();
    assert_eq!(last_ident.span.start.line, 3);
    assert_eq!(last_ident.span.start.column, 0);
    assert_eq!(last_ident.span.end.column, 2);
    assert_eq!(last_ident.span.end.offset, 10);
}
