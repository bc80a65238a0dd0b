use senbonzakura::checker::TypeChecker;
use senbonzakura::errors::CompileError;
use senbonzakura::lexer::Lexer;
use senbonzakura::parser::Parser;
use senbonzakura::source::SourceFile;

fn check(input: &str) -> Result<(), CompileError> {
    let source = SourceFile::from_string(input);
    let tokens = Lexer::new(&source).tokenize()?;
    let module = Parser::new(tokens, &source).parse_module()?;
    TypeChecker::new().check_module(&module)
}

#[test]
fn test_let_int() {
    assert!(check("let x: Int = 42\n").is_ok());
}

#[test]
fn test_let_type_mismatch() {
    let result = check("let x: Int = \"hello\"\n");
    assert!(result.is_err());
    let err = result.unwrap_err();
    assert!(err.diagnostic.message.contains("type mismatch"));
}

#[test]
fn test_let_inferred() {
    assert!(check("let x = 42\n").is_ok());
}

#[test]
fn test_undefined_variable() {
    let result = check("let x: Int = y\n");
    assert!(result.is_err());
}

#[test]
fn test_func_def_and_call() {
    let input = "def add(a: Int, b: Int) -> Int:\n    return a + b\nlet x: Int = add(1, 2)\n";
    assert!(check(input).is_ok());
}

#[test]
fn test_func_arg_mismatch() {
    let input = "def foo(a: Int) -> Int:\n    return a\nfoo(\"hello\")\n";
    let result = check(input);
    assert!(result.is_err());
}

#[test]
fn test_immutable_assign() {
    let input = "let x: Int = 42\nx = 10\n";
    let result = check(input);
    assert!(result.is_err());
    assert!(result.unwrap_err().diagnostic.message.contains("immutable"));
}

#[test]
fn test_mutable_assign() {
    let input = "mut x: Int = 42\nx = 10\n";
    assert!(check(input).is_ok());
}

#[test]
fn test_data_decl_and_construct() {
    let input = "data Point:\n    x: Int\n    y: Int\nlet p: Point = Point(1, 2)\n";
    assert!(check(input).is_ok());
}

#[test]
fn test_data_field_access() {
    let input = "data Point:\n    x: Int\n    y: Int\nlet p: Point = Point(1, 2)\nlet a: Int = p.x\n";
    assert!(check(input).is_ok());
}

#[test]
fn test_arithmetic_type_checking() {
    assert!(check("let x: Int = 1 + 2\n").is_ok());
    assert!(check("let x: Float = 1.0 + 2.0\n").is_ok());
    assert!(check("let x: Str = \"a\" + \"b\"\n").is_ok());
}

#[test]
fn test_arithmetic_type_mismatch() {
    let result = check("let x: Int = 1 + \"hello\"\n");
    assert!(result.is_err());
}

#[test]
fn test_comparison() {
    assert!(check("let x: Bool = 1 == 2\n").is_ok());
    assert!(check("let x: Bool = 1 < 2\n").is_ok());
}

#[test]
fn test_boolean_logic() {
    assert!(check("let x: Bool = True and False\n").is_ok());
    assert!(check("let x: Bool = not True\n").is_ok());
}

#[test]
fn test_no_instance_error() {
    let input = "data Foo:\n    x: Int\nlet a: Foo = Foo(1)\nlet b: Foo = a + a\n";
    let result = check(input);
    assert!(result.is_err());
    assert!(result.unwrap_err().diagnostic.message.contains("no instance of Add"));
}

#[test]
fn test_user_typeclass_and_instance() {
    let input = "data Vec2:\n    x: Int\n    y: Int\nimpl Add[Vec2, Vec2, Vec2]:\n    def add(self: Vec2, other: Vec2) -> Vec2:\n        return Vec2(self.x + other.x, self.y + other.y)\nlet a: Vec2 = Vec2(1, 2)\nlet b: Vec2 = Vec2(3, 4)\nlet c: Vec2 = a + b\n";
    assert!(check(input).is_ok());
}

#[test]
fn test_typeclass_decl_and_instance() {
    let input = "typeclass Show[T]:\n    def show(self: T, other: T) -> Str\ndata Num:\n    val: Int\nimpl Show[Num]:\n    def show(self: Num, other: Num) -> Str:\n        return \"num\"\n";
    assert!(check(input).is_ok());
}

#[test]
fn test_constrained_generic_function() {
    let input = "def double[T: Add](x: T) -> T:\n    return x + x\nlet a: Int = double(5)\n";
    assert!(check(input).is_ok());
}

#[test]
fn test_constrained_generic_with_float() {
    let input = "def double[T: Add](x: T) -> T:\n    return x + x\nlet a: Float = double(3.14)\n";
    assert!(check(input).is_ok());
}

#[test]
fn test_constrained_generic_missing_instance() {
    let input = "def double[T: Add](x: T) -> T:\n    return x + x\ndouble(True)\n";
    let result = check(input);
    assert!(result.is_err());
    assert!(result.unwrap_err().diagnostic.message.contains("does not satisfy"));
}

#[test]
fn test_unconstrained_generic_rejects_operator() {
    let input = "def double[T](x: T) -> T:\n    return x + x\n";
    let result = check(input);
    assert!(result.is_err());
    assert!(result.unwrap_err().diagnostic.message.contains("no instance of Add"));
}

#[test]
fn test_cross_type_operator() {
    let input = "typeclass Repeat[T, N, Out]:\n    def repeat(self: T, n: N) -> Out\nimpl Repeat[Str, Int, Str]:\n    def repeat(self: Str, n: Int) -> Str:\n        return self\n";
    assert!(check(input).is_ok());
}

#[test]
fn test_constrained_generic_with_user_type() {
    let input = "data Vec2:\n    x: Int\n    y: Int\nimpl Add[Vec2, Vec2, Vec2]:\n    def add(self: Vec2, other: Vec2) -> Vec2:\n        return Vec2(self.x + other.x, self.y + other.y)\ndef double[T: Add](x: T) -> T:\n    return x + x\nlet v: Vec2 = double(Vec2(1, 2))\n";
    assert!(check(input).is_ok());
}

#[test]
fn test_python_import() {
    assert!(check("import os\n").is_ok());
}

#[test]
fn test_python_import_attr_access() {
    let input = "import os\nlet p = os.path\n";
    assert!(check(input).is_ok());
}

#[test]
fn test_python_from_import() {
    let input = "from os.path import join\nlet x = join(\"a\", \"b\")\n";
    assert!(check(input).is_ok());
}

#[test]
fn test_python_import_alias() {
    let input = "import os as operating_system\nlet p = operating_system.getcwd\n";
    assert!(check(input).is_ok());
}

#[test]
fn test_inherent_method() {
    let input = "data Point:\n    x: Int\n    y: Int\nimpl Point:\n    def sum(self: Point) -> Int:\n        return self.x + self.y\nlet p: Point = Point(1, 2)\nlet s: Int = p.sum()\n";
    assert!(check(input).is_ok());
}

#[test]
fn test_inherent_method_unknown_type() {
    let input = "impl Foo:\n    def bar(self: Int) -> Int:\n        return 1\n";
    let result = check(input);
    assert!(result.is_err());
    assert!(result.unwrap_err().diagnostic.message.contains("unknown type"));
}

#[test]
fn checker_condition_must_be_bool() {
    let err = check("if 1:\n    let x = 2\n").unwrap_err();
    assert_eq!(err.diagnostic.message, "condition must be Bool, found Int");
}

#[test]
fn checker_while_condition_must_be_bool() {
    let err = check("while \"a\":\n    let x = 2\n").unwrap_err();
    assert!(err.diagnostic.message.contains("condition must be Bool"));
    assert!(check("mut i: Int = 0\nwhile i < 3:\n    i = i + 1\n").is_ok());
}

#[test]
fn checker_function_scope_does_not_leak() {
    let input = "def f(a: Int) -> Int:\n    let b: Int = a\n    return b\nlet c: Int = b\n";
    assert!(check(input).is_err());
}

#[test]
fn checker_lookup_type_after_check() {
    let source = SourceFile::from_string("let x: Int = 1\nimport os\n");
    let tokens = Lexer::new(&source).tokenize().unwrap();
    let module = Parser::new(tokens, &source).parse_module().unwrap();
    let mut tc = TypeChecker::new();
    tc.check_module(&module).unwrap();
    assert_eq!(tc.lookup_type("x"), Some("Int".to_string()));
    assert_eq!(tc.lookup_type("missing"), None);
    assert!(tc.lookup_type("print").is_some());
}

#[test]
fn checker_for_loop_over_list() {
    assert!(check("for i in [1, 2]:\n    let y: Int = i\n").is_ok());
    assert!(check("for i in 5:\n    let y: Int = i\n").is_err());
}
