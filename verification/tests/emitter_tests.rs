use senbonzakura::emitter::PythonEmitter;
use senbonzakura::lexer::Lexer;
use senbonzakura::parser::Parser;
use senbonzakura::source::SourceFile;

fn compile(input: &str) -> String {
    let source = SourceFile::from_string(input);
    let tokens = Lexer::new(&source).tokenize().unwrap();
    let module = Parser::new(tokens, &source).parse_module().unwrap();
    PythonEmitter::new().emit_module(&module)
}

#[test]
fn python_test_let_binding() {
    let output = compile("let x: Int = 42\n");
    assert_eq!(output.trim(), "x = 42");
}

#[test]
fn python_test_func_def() {
    let output = compile("def add(a: Int, b: Int) -> Int:\n    return a + b\n");
    assert!(output.contains("def add(a, b):"));
    assert!(output.contains("return (a + b)"));
}

#[test]
fn python_test_data_decl() {
    let output = compile("data Point:\n    x: Int\n    y: Int\n");
    assert!(output.contains("class Point:"));
    assert!(output.contains("def __init__(self, x, y):"));
    assert!(output.contains("self.x = x"));
    assert!(output.contains("self.y = y"));
    assert!(output.contains("def __eq__(self, other):"));
    assert!(output.contains("def __repr__(self):"));
}

#[test]
fn test_if_else() {
    let output = compile("if True:\n    let x: Int = 1\nelse:\n    let x: Int = 2\n");
    assert!(output.contains("if True:"));
    assert!(output.contains("else:"));
}

#[test]
fn python_test_string_literal() {
    let output = compile("let x: Str = \"hello\\nworld\"\n");
    assert!(output.contains(r#"x = "hello\nworld""#));
}

#[test]
fn test_while_loop_translation() {
    let input = "while True:\n    let x: Int = 42\n";
    let output = compile(input);
    assert!(output.contains("while True:"));
    assert!(output.contains("    x = 42"));
}

#[test]
fn python_test_function_call() {
    let output = compile("print(\"hello\")\n");
    assert_eq!(output.trim(), "print(\"hello\")");
}

#[test]
fn python_test_import_simple() {
    let output = compile("import os\n");
    assert_eq!(output.trim(), "import os");
}

#[test]
fn python_test_import_alias() {
    let output = compile("import numpy as np\n");
    assert_eq!(output.trim(), "import numpy as np");
}

#[test]
fn python_test_from_import() {
    let output = compile("from os.path import join, exists\n");
    assert_eq!(output.trim(), "from os.path import join, exists");
}

#[test]
fn python_test_from_import_alias() {
    let output = compile("from os.path import join as j\n");
    assert_eq!(output.trim(), "from os.path import join as j");
}

#[test]
fn emitter_exact_function_text() {
    let output = compile("def add(a: Int, b: Int) -> Int:\n    return a + b\n");
    assert_eq!(output, "def add(a, b):\n    return (a + b)\n\n");
}

#[test]
fn emitter_for_loop_and_elif() {
    let output = compile("for i in [1, 2]:\n    if i == 1:\n        print(i)\n    elif i == 2:\n        print(\"two\")\n");
    assert_eq!(
        output,
        "for i in [1, 2]:\n    if (i == 1):\n        print(i)\n    elif (i == 2):\n        print(\"two\")\n"
    );
}

#[test]
fn emitter_bool_none_and_not() {
    let output = compile("let a = not True\nlet b = None\n");
    assert_eq!(output, "a = (not True)\nb = None\n");
}

#[test]
fn emitter_same_output_for_cloned_module() {
    let source = SourceFile::from_string("def f(a: Int) -> Int:\n    if a > 1:\n        return [a, 2][0]\n    return -a\n");
    let tokens = Lexer::new(&source).tokenize().unwrap();
    let module = Parser::new(tokens, &source).parse_module().unwrap();
    let copy = module.clone();
    assert_eq!(PythonEmitter::new().emit_module(&copy), PythonEmitter::new().emit_module(&module));
}
