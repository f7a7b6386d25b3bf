use rustjs::ast::{BinaryOp, Expr, FunDecl, Literal, Stmt};
use rustjs::lexer::scan;
use rustjs::number::Number;
use rustjs::parser::{ParseError, Parser};
use std::rc::Rc;

fn parse(source: &str) -> Result<Vec<Stmt>, ParseError> {
    Parser::new(scan(source).unwrap()).parse()
}

fn num(n: i64) -> Expr {
    Expr::Literal(Literal::Number(Number { units: n * 1_000_000 }))
}

fn message(source: &str) -> String {
    parse(source).unwrap_err().message
}

#[test]
fn product_binds_tighter_than_sum() {
    let product = Expr::Binary(Box::new(num(2)), BinaryOp::Multiply, Box::new(num(3)));
    let sum = Expr::Binary(Box::new(num(1)), BinaryOp::Add, Box::new(product));
    assert_eq!(parse("1 + 2 * 3;").unwrap(), vec![Stmt::Expression(sum)]);
}

#[test]
fn calls_blocks_and_functions() {
    let stmts = parse("fun add(a, b) {\n  return a + b;\n}\nadd(1, 2);\n").unwrap();
    let body = vec![Stmt::Return(Some(Expr::Binary(
        Box::new(Expr::Variable("a".to_string())),
        BinaryOp::Add,
        Box::new(Expr::Variable("b".to_string())),
    )))];
    let decl = FunDecl { name: "add".to_string(), params: vec!["a".to_string(), "b".to_string()], body };
    let call = Expr::Call(Box::new(Expr::Variable("add".to_string())), vec![num(1), num(2)]);
    assert_eq!(stmts, vec![Stmt::Function(Rc::new(decl)), Stmt::Expression(call)]);
    assert_eq!(parse("{ print 1; }").unwrap(), vec![Stmt::Block(vec![Stmt::Print(num(1))])]);
}

#[test]
fn grammar_errors() {
    assert_eq!(message("f(1, 2;"), "Expect ')' after arguments.");
    assert_eq!(message("{ print 1;"), "Expect '}' after block.");
    assert_eq!(message("fun (a) {}"), "Expect function name.");
    assert_eq!(message("fun f(a b) {}"), "Expect ')' after parameters.");
    assert_eq!(message("fun f(a) print a;"), "Expect '{' before function body.");
    assert_eq!(message("if 1 print 2;"), "Expect '(' after 'if'.");
    assert_eq!(message("while (1 print 2;"), "Expect ')' after condition.");
    assert_eq!(message("var 1 = 2;"), "Expect variable name.");
    assert_eq!(message("print (1;"), "Expect ')' after expression.");
    assert_eq!(message("print ;"), "Expect expression.");
}

#[test]
fn many_arguments() {
    let args: Vec<String> = (0..256).map(|k| k.to_string()).collect();
    let stmts = parse(&format!("f({});", args.join(", "))).unwrap();
    match &stmts[0] {
        Stmt::Expression(Expr::Call(_, a)) => assert_eq!(a.len(), 256),
        other => panic!("expected a call, got {:?}", other),
    }
}

#[test]
fn deep_nesting_is_rejected() {
    let source = format!("print {}1{};", "(".repeat(600), ")".repeat(600));
    assert_eq!(message(&source), "Too deeply nested.");
}

#[test]
fn line_breaks_inside_parentheses_and_after_operators() {
    assert_eq!(parse("print (1 +\n 2);").unwrap(), parse("print (1 + 2);").unwrap());
    assert_eq!(parse("f(\n1,\n2\n);").unwrap(), parse("f(1, 2);").unwrap());
}

#[test]
fn return_without_value() {
    assert_eq!(parse("return;").unwrap(), vec![Stmt::Return(None)]);
    assert_eq!(parse("return\n").unwrap(), vec![Stmt::Return(None)]);
}

#[test]
fn call_chains_and_dangling_else() {
    let inner = Expr::Call(Box::new(Expr::Variable("f".to_string())), vec![num(1)]);
    let outer = Expr::Call(Box::new(inner), vec![num(2)]);
    assert_eq!(parse("f(1)(2);").unwrap(), vec![Stmt::Expression(outer)]);
    let a = Expr::Variable("a".to_string());
    let b = Expr::Variable("b".to_string());
    let nested = Stmt::If(b, Box::new(Stmt::Print(num(1))), Some(Box::new(Stmt::Print(num(2)))));
    assert_eq!(
        parse("if (a) if (b) print 1; else print 2;").unwrap(),
        vec![Stmt::If(a, Box::new(nested), None)]
    );
}
