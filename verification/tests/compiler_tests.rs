use senbonzakura::imports::imports_name_modules;
use senbonzakura::compiler::{compile_source, dependency_paths, Compiler, ModuleStart};
use senbonzakura::lexer::Lexer;
use senbonzakura::parser::Parser;
use senbonzakura::ast::Module;
use senbonzakura::paths::{join, parent_of, py_path_of, sibling_source_path};
use senbonzakura::source::SourceFile;

fn parse(input: &str) -> Module {
    let source = SourceFile::from_string(input);
    let tokens = Lexer::new(&source).tokenize().unwrap();
    Parser::new(tokens, &source).parse_module().unwrap()
}

#[test]
fn compile_source_produces_python() {
    let source = SourceFile::from_string("let x: Int = 1 + 2\nprint(x)\n");
    assert_eq!(compile_source(&source).unwrap(), "x = (1 + 2)\nprint(x)\n");
}

#[test]
fn compile_source_reports_each_stage() {
    let lex = SourceFile::from_string("let x = $\n");
    assert!(compile_source(&lex).is_err());
    let parse_err = SourceFile::from_string("let = 1\n");
    assert!(compile_source(&parse_err).is_err());
    let check_err = SourceFile::from_string("let x: Int = \"s\"\n");
    let e = compile_source(&check_err).unwrap_err();
    assert!(e.diagnostic.message.contains("type mismatch"));
}

#[test]
fn compiler_begin_then_finish_records_output() {
    let mut c = Compiler::new();
    match c.begin_module("/src/main.sbz".to_string()) {
        Ok(ModuleStart::Begun) => {}
        _ => panic!("expected the module to begin"),
    }
    let m = parse("let x = 1\n");
    c.finish_module("/src/main.sbz".to_string(), &m).unwrap();
    match c.begin_module("/src/main.sbz".to_string()) {
        Ok(ModuleStart::AlreadyCompiled) => {}
        _ => panic!("expected the module to be compiled already"),
    }
    let outs = c.outputs();
    assert_eq!(outs.len(), 1);
    assert_eq!(outs[0].0, "/src/main.py");
    assert_eq!(outs[0].1, "x = 1\n");
}

#[test]
fn compiler_detects_circular_import() {
    let mut c = Compiler::new();
    assert!(matches!(c.begin_module("/a.sbz".to_string()), Ok(ModuleStart::Begun)));
    assert!(matches!(c.begin_module("/b.sbz".to_string()), Ok(ModuleStart::Begun)));
    let err = match c.begin_module("/a.sbz".to_string()) {
        Err(e) => e,
        Ok(_) => panic!("expected a circular import"),
    };
    assert_eq!(err.diagnostic.message, "circular import: /a.sbz");
    assert_eq!(err.diagnostic.span.start.line, 0);
}

#[test]
fn compiler_check_error_leaves_module_pending() {
    let mut c = Compiler::new();
    assert!(matches!(c.begin_module("/a.sbz".to_string()), Ok(ModuleStart::Begun)));
    let m = parse("let x: Int = y\n");
    assert!(c.finish_module("/a.sbz".to_string(), &m).is_err());
    assert_eq!(c.outputs().len(), 0);
    assert!(c.begin_module("/a.sbz".to_string()).is_err());
}

#[test]
fn compiler_io_error_message() {
    let c = Compiler::new();
    let e = c.io_error("/x/y.sbz", "No such file or directory (os error 2)");
    assert_eq!(e.diagnostic.message, "error reading /x/y.sbz: No such file or directory (os error 2)");
}

#[test]
fn dependency_paths_take_single_name_imports() {
    let m = parse("import util\nimport os.path\nfrom helpers import f\nlet x = 1\n");
    let deps = dependency_paths("/proj/src/main.sbz", &m);
    assert_eq!(deps, vec!["/proj/src/util.sbz".to_string(), "/proj/src/helpers.sbz".to_string()]);
}

#[test]
fn path_helpers() {
    assert_eq!(parent_of("/a/b/c.sbz"), "/a/b");
    assert_eq!(parent_of("/c.sbz"), "/");
    assert_eq!(parent_of("c.sbz"), "");
    assert_eq!(parent_of("/"), ".");
    assert_eq!(join("/a", "b.sbz"), "/a/b.sbz");
    assert_eq!(join("/", "b.sbz"), "/b.sbz");
    assert_eq!(join("", "b.sbz"), "b.sbz");
    assert_eq!(sibling_source_path("/a/main.sbz", "util"), "/a/util.sbz");
    assert_eq!(py_path_of("/a/main.sbz"), "/a/main.py");
    assert_eq!(py_path_of("/a.b/main"), "/a.b/main.py");
    assert_eq!(py_path_of("/a/.hidden"), "/a/.hidden.py");
    assert_eq!(py_path_of("x.tar.gz"), "x.tar.py");
    assert_eq!(py_path_of(&sibling_source_path("/a/main.sbz", "util")), "/a/util.py");
}

#[test]
fn parsed_imports_all_name_modules() {
    let m = parse("def f() -> Int:\n    import os.path\n    return 1\nif True:\n    from a import b\nimport json as j\n");
    assert!(imports_name_modules(&m.body));
}
