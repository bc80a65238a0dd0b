use senbonzakura::ast::{BinOp, Expr, ImportKind, Module, Statement};
use senbonzakura::lexer::Lexer;
use senbonzakura::parser::Parser;
use senbonzakura::source::SourceFile;

fn parse(input: &str) -> Module {
    let source = SourceFile::from_string(input);
    let tokens = Lexer::new(&source).tokenize().unwrap();
    Parser::new(tokens, &source).parse_module().unwrap()
}

fn parse_error(input: &str) -> String {
    let source = SourceFile::from_string(input);
    let tokens = Lexer::new(&source).tokenize().unwrap();
    match Parser::new(tokens, &source).parse_module() {
        Ok(_) => panic!("expected a parse error"),
        Err(e) => e.diagnostic.message,
    }
}

#[test]
fn parser_test_let_binding() {
    let module = parse("let x: Int = 42\n");
    assert_eq!(module.body.len(), 1);
    match &module.body[0] {
        Statement::Let(binding) => {
            assert_eq!(binding.name, "x");
            assert!(!binding.mutable);
            assert!(binding.type_annotation.is_some());
        }
        _ => panic!("expected let binding"),
    }
}

#[test]
fn test_mut_binding() {
    let module = parse("mut x: Int = 42\n");
    match &module.body[0] {
        Statement::Let(binding) => {
            assert!(binding.mutable);
        }
        _ => panic!("expected let binding"),
    }
}

#[test]
fn parser_test_func_def() {
    let module = parse("def add(a: Int, b: Int) -> Int:\n    return a + b\n");
    assert_eq!(module.body.len(), 1);
    match &module.body[0] {
        Statement::FuncDef(f) => {
            assert_eq!(f.name, "add");
            assert_eq!(f.params.len(), 2);
            assert!(f.return_type.is_some());
            assert_eq!(f.body.len(), 1);
        }
        _ => panic!("expected func def"),
    }
}

#[test]
fn parser_test_data_decl() {
    let module = parse("data Point:\n    x: Int\n    y: Int\n");
    match &module.body[0] {
        Statement::DataDecl(d) => {
            assert_eq!(d.name, "Point");
            assert_eq!(d.fields.len(), 2);
            assert_eq!(d.fields[0].name, "x");
            assert_eq!(d.fields[1].name, "y");
        }
        _ => panic!("expected data decl"),
    }
}

#[test]
fn test_data_with_type_params() {
    let module = parse("data Box[T]:\n    value: T\n");
    match &module.body[0] {
        Statement::DataDecl(d) => {
            assert_eq!(d.name, "Box");
            assert_eq!(d.type_params, vec!["T"]);
        }
        _ => panic!("expected data decl"),
    }
}

#[test]
fn test_if_elif_else() {
    let module = parse("if x:\n    1\nelif y:\n    2\nelse:\n    3\n");
    match &module.body[0] {
        Statement::If(stmt) => {
            assert_eq!(stmt.elif_clauses.len(), 1);
            assert!(stmt.else_body.is_some());
        }
        _ => panic!("expected if stmt"),
    }
}

#[test]
fn parser_test_while() {
    let module = parse("while a > 0:\n    42");
    match &module.body[0] {
        Statement::While(stmt) => {
            if let Expr::BinOp(bin_op) = &stmt.condition {
                assert_eq!(bin_op.op, BinOp::Gt);
            } else {
                panic!("Expected binary operation in while condition");
            }
            assert_eq!(stmt.body.len(), 1);
        }
        _ => panic!("expected while stmt"),
    }
}

#[test]
fn test_binary_expr_precedence() {
    let module = parse("let x: Int = 1 + 2 * 3\n");
    match &module.body[0] {
        Statement::Let(binding) => match &binding.value {
            Expr::BinOp(e) => {
                assert_eq!(e.op, BinOp::Add);
                match &e.right {
                    Expr::BinOp(inner) => assert_eq!(inner.op, BinOp::Mul),
                    _ => panic!("expected mul on right"),
                }
            }
            _ => panic!("expected binop"),
        },
        _ => panic!("expected let"),
    }
}

#[test]
fn parser_test_function_call() {
    let module = parse("foo(1, 2)\n");
    match &module.body[0] {
        Statement::Expr(stmt) => match &stmt.expr {
            Expr::Call(call) => {
                assert_eq!(call.args.len(), 2);
            }
            _ => panic!("expected call"),
        },
        _ => panic!("expected expr stmt"),
    }
}

#[test]
fn test_attr_access() {
    let module = parse("obj.field\n");
    match &module.body[0] {
        Statement::Expr(stmt) => match &stmt.expr {
            Expr::Attr(attr) => {
                assert_eq!(attr.attr, "field");
            }
            _ => panic!("expected attr"),
        },
        _ => panic!("expected expr stmt"),
    }
}

#[test]
fn parser_test_import_simple() {
    let module = parse("import math\n");
    match &module.body[0] {
        Statement::Import(imp) => match &imp.kind {
            ImportKind::Simple { path, alias } => {
                assert_eq!(path, &["math"]);
                assert!(alias.is_none());
            }
            _ => panic!("expected simple import"),
        },
        _ => panic!("expected import"),
    }
}

#[test]
fn parser_test_import_alias() {
    let module = parse("import math as m\n");
    match &module.body[0] {
        Statement::Import(imp) => match &imp.kind {
            ImportKind::Simple { path, alias } => {
                assert_eq!(path, &["math"]);
                assert_eq!(alias.as_deref(), Some("m"));
            }
            _ => panic!("expected simple import"),
        },
        _ => panic!("expected import"),
    }
}

#[test]
fn test_import_dotted() {
    let module = parse("import os.path\n");
    match &module.body[0] {
        Statement::Import(imp) => match &imp.kind {
            ImportKind::Simple { path, .. } => {
                assert_eq!(path, &["os", "path"]);
            }
            _ => panic!("expected simple import"),
        },
        _ => panic!("expected import"),
    }
}

#[test]
fn parser_test_from_import() {
    let module = parse("from math import add\n");
    match &module.body[0] {
        Statement::Import(imp) => match &imp.kind {
            ImportKind::From { path, names } => {
                assert_eq!(path, &["math"]);
                assert_eq!(names.len(), 1);
                assert_eq!(names[0].name, "add");
                assert!(names[0].alias.is_none());
            }
            _ => panic!("expected from import"),
        },
        _ => panic!("expected import"),
    }
}

#[test]
fn test_from_import_multiple() {
    let module = parse("from math import add, sub\n");
    match &module.body[0] {
        Statement::Import(imp) => match &imp.kind {
            ImportKind::From { names, .. } => {
                assert_eq!(names.len(), 2);
                assert_eq!(names[0].name, "add");
                assert_eq!(names[1].name, "sub");
            }
            _ => panic!("expected from import"),
        },
        _ => panic!("expected import"),
    }
}

#[test]
fn parser_test_from_import_alias() {
    let module = parse("from os.path import join as j\n");
    match &module.body[0] {
        Statement::Import(imp) => match &imp.kind {
            ImportKind::From { path, names } => {
                assert_eq!(path, &["os", "path"]);
                assert_eq!(names[0].name, "join");
                assert_eq!(names[0].alias.as_deref(), Some("j"));
            }
            _ => panic!("expected from import"),
        },
        _ => panic!("expected import"),
    }
}

#[test]
fn parser_for_loop_and_list() {
    let module = parse("for i in [1, 2, 3]:\n    print(i)\n");
    match &module.body[0] {
        Statement::For(f) => {
            assert_eq!(f.var_name, "i");
            match &f.iterable {
                Expr::ListLiteral(items, _) => assert_eq!(items.len(), 3),
                _ => panic!("expected list literal"),
            }
            assert_eq!(f.body.len(), 1);
        }
        _ => panic!("expected for stmt"),
    }
}

#[test]
fn parser_unary_and_index() {
    let module = parse("let x = -a[0]\n");
    match &module.body[0] {
        Statement::Let(b) => match &b.value {
            Expr::UnaryOp(u) => match &u.operand {
                Expr::Index(_) => {}
                _ => panic!("expected index under the negation"),
            },
            _ => panic!("expected unary op"),
        },
        _ => panic!("expected let"),
    }
}

#[test]
fn parser_missing_colon_is_an_error() {
    let msg = parse_error("def f()\n    return 1\n");
    assert!(msg.starts_with("expected"), "{}", msg);
}

#[test]
fn parser_empty_module() {
    let module = parse("");
    assert_eq!(module.body.len(), 0);
}
