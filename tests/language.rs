use rustjs::ast::{BinaryOp, Expr, Literal, Stmt};
use rustjs::interpreter::{Interpreter, NoHost};
use rustjs::lexer::{scan, Lexer};
use rustjs::number::Number;
use rustjs::parser::Parser;
use rustjs::pattern::process_pattern;
use rustjs::session::{execute_source, RunError};
use rustjs::token::TokenType;
use rustjs::value::Value;

fn run(source: &str) -> (Result<(), RunError>, Vec<String>) {
    let mut interpreter = Interpreter::new();
    let r = execute_source(&mut interpreter, &mut NoHost, source);
    (r, interpreter.take_output())
}

fn runtime_error(source: &str) -> String {
    match run(source).0 {
        Err(RunError::Runtime(msg)) => msg,
        other => panic!("expected a runtime error, got {:?}", other),
    }
}

fn parse(source: &str) -> Vec<Stmt> {
    let tokens = scan(source).unwrap();
    Parser::new(tokens).parse().unwrap()
}

#[test]
fn test_process_pattern() {
    assert_eq!(process_pattern("abc"), "abc");
    assert_eq!(process_pattern("\\d+"), "\\d+");
    assert_eq!(process_pattern("\\w+"), "\\w+");
    assert_eq!(process_pattern("\\s+"), "\\s+");
    assert_eq!(process_pattern("\\\\"), "\\\\");
    assert_eq!(process_pattern("\\."), "\\.");
}

#[test]
fn precedence_of_product_over_sum() {
    let (r, out) = run("print 1 + 2 * 3;\nprint (1 + 2) * 3;\n");
    assert_eq!(r, Ok(()));
    assert_eq!(out, vec!["7".to_string(), "9".to_string()]);
}

#[test]
fn division_by_zero_is_an_error() {
    assert_eq!(runtime_error("print 10 / 0;"), "Division by zero.");
    assert_eq!(runtime_error("print 10 / 0.0;"), "Division by zero.");
}

#[test]
fn strings_and_numbers_do_not_mix() {
    assert_eq!(runtime_error("print \"a\" + 1;"), "Operands must be two numbers or two strings.");
    let (r, out) = run("print \"a\" + \"b\";\nprint 1 + 1;\n");
    assert_eq!(r, Ok(()));
    assert_eq!(out, vec!["ab".to_string(), "2".to_string()]);
}

#[test]
fn undefined_variable_is_named() {
    assert_eq!(runtime_error("print y;"), "Undefined variable 'y'.");
    let mut interpreter = Interpreter::new();
    let r = execute_source(&mut interpreter, &mut NoHost, "y = 1;");
    assert_eq!(r, Err(RunError::Runtime("Undefined variable 'y'.".to_string())));
    assert!(interpreter.get(&"y".to_string()).is_none());
}

#[test]
fn zero_is_truthy_and_nil_is_falsy() {
    let (r, out) = run("if (0) print \"a\"; else print \"b\";\nif (nil) print \"w\"; else print \"x\";\n");
    assert_eq!(r, Ok(()));
    assert_eq!(out, vec!["a".to_string(), "x".to_string()]);
}

#[test]
fn inner_scope_shadows_and_restores() {
    let (r, out) = run("{ var x = 1; { var x = 2; print x; } print x; }");
    assert_eq!(r, Ok(()));
    assert_eq!(out, vec!["2".to_string(), "1".to_string()]);
}

#[test]
fn return_unwinds_loops_and_blocks() {
    let source = "fun f() {\n  var i = 0;\n  while (true) {\n    {\n      if (i == 3) { return i; }\n    }\n    i = i + 1;\n  }\n  print \"unreachable\";\n}\nprint f();\nprint \"after\";\n";
    let (r, out) = run(source);
    assert_eq!(r, Ok(()));
    assert_eq!(out, vec!["3".to_string(), "after".to_string()]);
}

#[test]
fn arity_mismatch_reports_counts() {
    assert_eq!(runtime_error("fun add(a, b) { return a + b; }\nadd(1);\n"), "Expected 2 arguments but got 1.");
    assert_eq!(runtime_error("fun add(a, b) { return a + b; }\nadd(1, 2, 3);\n"), "Expected 2 arguments but got 3.");
}

#[test]
fn newline_and_semicolon_terminate_alike() {
    assert_eq!(parse("var x = 1\nprint x\n"), parse("var x = 1; print x;"));
}

#[test]
fn return_at_top_level_is_an_error() {
    assert_eq!(runtime_error("return 1;"), "Return statement outside of function.");
}

#[test]
fn closures_see_their_defining_scope() {
    let source = "fun make() {\n  var n = 0;\n  fun inc() { n = n + 1; return n; }\n  return inc;\n}\nvar c = make();\nc();\nprint c();\n";
    let (r, out) = run(source);
    assert_eq!(r, Ok(()));
    assert_eq!(out, vec!["2".to_string()]);
}

#[test]
fn logical_operators_return_operands() {
    let (r, out) = run("print nil or \"x\";\nprint 1 and 2;\nprint false and 1;\n");
    assert_eq!(r, Ok(()));
    assert_eq!(out, vec!["x".to_string(), "2".to_string(), "false".to_string()]);
}

#[test]
fn equality_across_kinds() {
    let (r, out) = run("print 1 == \"1\";\nprint nil == nil;\nprint \"a\" != \"a\";\n");
    assert_eq!(r, Ok(()));
    assert_eq!(out, vec!["false".to_string(), "true".to_string(), "false".to_string()]);
}

#[test]
fn recursion_computes_fibonacci() {
    let source = "fun fib(n) { if (n < 2) return n; return fib(n - 1) + fib(n - 2); }\nprint fib(15);\n";
    let (r, out) = run(source);
    assert_eq!(r, Ok(()));
    assert_eq!(out, vec!["610".to_string()]);
}

#[test]
fn unbounded_recursion_stops() {
    assert_eq!(runtime_error("fun f() { return f(); }\nf();\n"), "Stack overflow.");
}

#[test]
fn fractions_print_without_trailing_zeros() {
    let (r, out) = run("print 10 / 4;\nprint 1 / 3;\nprint -0.5;\nprint 2.50 * 2;\n");
    assert_eq!(r, Ok(()));
    assert_eq!(out, vec!["2.5".to_string(), "0.333333".to_string(), "-0.5".to_string(), "5".to_string()]);
}

#[test]
fn type_errors_of_operators() {
    assert_eq!(runtime_error("print -\"a\";"), "Operand must be a number.");
    assert_eq!(runtime_error("print \"a\" < 1;"), "Operands must be numbers.");
    assert_eq!(runtime_error("print 1 * nil;"), "Operands must be numbers.");
    assert_eq!(runtime_error("var x = 1; x();"), "Can only call functions and classes.");
}

#[test]
fn numbers_out_of_range_are_errors() {
    assert_eq!(runtime_error("print 9000000000000 * 9000000000000;"), "Number out of range.");
}

#[test]
fn functions_print_by_name() {
    let (r, out) = run("fun f() {}\nprint f;\nprint f();\n");
    assert_eq!(r, Ok(()));
    assert_eq!(out, vec!["<fn f>".to_string(), "nil".to_string()]);
}

#[test]
fn lexer_reports_unknown_character() {
    let e = scan("var x = 1 @ 2;").unwrap_err();
    assert_eq!(e.character, '@');
    assert_eq!(e.position, 10);
    assert_eq!(e.line, 1);
    assert_eq!(e.column, 11);
}

#[test]
fn lexer_reports_unterminated_string() {
    let e = scan("print \"abc").unwrap_err();
    assert_eq!(e.character, '"');
    assert_eq!(e.position, 6);
}

#[test]
fn lexer_reads_keywords_numbers_and_newlines() {
    let lexer = Lexer::new("var x1 = 12.5 // note\nwhile".to_string());
    let tokens = lexer.scan_tokens().unwrap();
    let kinds: Vec<TokenType> = tokens.iter().map(|t| t.token_type.clone()).collect();
    assert_eq!(
        kinds,
        vec![
            TokenType::Var,
            TokenType::Identifier("x1".to_string()),
            TokenType::Equal,
            TokenType::Number(Number { units: 12_500_000 }),
            TokenType::Newline,
            TokenType::While,
            TokenType::EOF,
        ]
    );
    assert_eq!(tokens[5].line, 2);
    assert_eq!(tokens[5].column, 1);
}

#[test]
fn parser_builds_left_associative_trees() {
    let stmts = parse("1 - 2 - 3;");
    let one = Expr::Literal(Literal::Number(Number { units: 1_000_000 }));
    let two = Expr::Literal(Literal::Number(Number { units: 2_000_000 }));
    let three = Expr::Literal(Literal::Number(Number { units: 3_000_000 }));
    let inner = Expr::Binary(Box::new(one), BinaryOp::Subtract, Box::new(two));
    let outer = Expr::Binary(Box::new(inner), BinaryOp::Subtract, Box::new(three));
    assert_eq!(stmts, vec![Stmt::Expression(outer)]);
}

#[test]
fn parser_rejects_missing_terminator_and_bad_target() {
    let tokens = scan("print 1").unwrap();
    let mut parser = Parser::new(tokens);
    let e = parser.parse().unwrap_err();
    assert_eq!(e.message, "Expect ';' or newline after value.");
    assert_eq!(e.token_index, 2);
    let tokens = scan("1 = 2;").unwrap();
    let e = Parser::new(tokens).parse().unwrap_err();
    assert_eq!(e.message, "Invalid assignment target.");
}

#[test]
fn parser_limits_parameters() {
    let mut params = Vec::new();
    for k in 0..256 {
        params.push(format!("p{}", k));
    }
    let source = format!("fun f({}) {{}}", params.join(", "));
    let e = Parser::new(scan(&source).unwrap()).parse().unwrap_err();
    assert_eq!(e.message, "Cannot have more than 255 parameters.");
}

#[test]
fn else_on_the_next_line() {
    let (r, out) = run("if (false) print 1;\nelse print 2;\n");
    assert_eq!(r, Ok(()));
    assert_eq!(out, vec!["2".to_string()]);
}

#[test]
fn values_equal_and_stringify() {
    let a = Value::String("hi".to_string());
    let b = Value::String("hi".to_string());
    assert!(a.is_equal(&b));
    assert!(!a.is_equal(&Value::Nil));
    assert_eq!(Value::Number(Number { units: -1_250_000 }).stringify(), "-1.25");
    assert_eq!(Value::Boolean(true).stringify(), "true");
    assert!(Value::Number(Number { units: 0 }).is_truthy());
    assert!(!Value::Nil.is_truthy());
}

#[test]
fn lexer_tracks_lines_through_strings() {
    let tokens = scan("print \"a\nb\"; x\n  y").unwrap();
    assert_eq!(tokens[1].token_type, TokenType::String("a\nb".to_string()));
    assert_eq!((tokens[1].line, tokens[1].column), (1, 7));
    assert_eq!(tokens[2].token_type, TokenType::Semicolon);
    assert_eq!((tokens[2].line, tokens[2].column), (2, 3));
    assert_eq!((tokens[3].line, tokens[3].column), (2, 5));
    assert_eq!(tokens[4].token_type, TokenType::Newline);
    assert_eq!((tokens[5].line, tokens[5].column), (3, 3));
}

#[test]
fn lexer_rejects_numbers_too_large() {
    let e = scan("print 12345678901234;").unwrap_err();
    assert_eq!(e.character, '1');
    assert_eq!(e.position, 6);
    assert!(scan("print 1234567890123;").is_ok());
}

#[test]
fn lexer_rejects_fractions_finer_than_a_millionth() {
    let e = scan("print 10 / 0.0000001;").unwrap_err();
    assert_eq!(e.character, '0');
    assert_eq!(e.position, 11);
    assert!(scan("print 0.000001;").is_ok());
}
