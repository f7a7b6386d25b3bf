use rustjs::ast::{Expr, Literal, Stmt};
use rustjs::interpreter::{Host, Interpreter, NoHost};
use rustjs::number::Number;
use rustjs::session::{execute_source, RunError};
use rustjs::value::{Arity, NativeFunction, Property, Value};

fn num(n: i64) -> Expr {
    Expr::Literal(Literal::Number(Number { units: n * 1_000_000 }))
}

fn text(s: &str) -> Expr {
    Expr::Literal(Literal::String(s.to_string()))
}

fn run_stmts(interpreter: &mut Interpreter, stmts: Vec<Stmt>) -> (Result<(), String>, Vec<String>) {
    let r = interpreter.interpret(stmts);
    (r, interpreter.take_output())
}

fn object() -> Value {
    let mut o = Value::new_object();
    o.set_property("a".to_string(), Value::Number(Number { units: 1_000_000 })).unwrap();
    o.set_property("f".to_string(), Value::NativeFunction(NativeFunction { name: "twice".to_string(), arity: Arity::Exact(1) })).unwrap();
    o
}

struct Twice;

impl Host for Twice {
    fn call_native(&mut self, name: &String, args: Vec<Value>) -> Result<Value, String> {
        match (name.as_str(), args.as_slice()) {
            ("twice", [Value::Number(n)]) => Ok(Value::Number(Number { units: n.units * 2 })),
            _ => Err("bad call".to_string()),
        }
    }
}

#[test]
fn arrays_print_and_have_length() {
    let mut it = Interpreter::new();
    let arr = Expr::Array(vec![num(1), text("x"), Expr::Array(vec![])]);
    let stmts = vec![
        Stmt::Print(arr),
        Stmt::Print(Expr::Get(Box::new(Expr::Array(vec![num(1), num(2)])), "length".to_string())),
        Stmt::Print(Expr::Get(Box::new(text("hello")), "length".to_string())),
    ];
    let (r, out) = run_stmts(&mut it, stmts);
    assert_eq!(r, Ok(()));
    assert_eq!(out, vec!["[1, x, []]".to_string(), "2".to_string(), "5".to_string()]);
}

#[test]
fn arrays_compare_element_wise() {
    let mut it = Interpreter::new();
    let eq = Expr::Binary(
        Box::new(Expr::Array(vec![num(1), text("a")])),
        rustjs::ast::BinaryOp::Equal,
        Box::new(Expr::Array(vec![num(1), text("a")])),
    );
    let ne = Expr::Binary(
        Box::new(Expr::Array(vec![num(1)])),
        rustjs::ast::BinaryOp::Equal,
        Box::new(Expr::Array(vec![num(2)])),
    );
    let (r, out) = run_stmts(&mut it, vec![Stmt::Print(eq), Stmt::Print(ne)]);
    assert_eq!(r, Ok(()));
    assert_eq!(out, vec!["true".to_string(), "false".to_string()]);
}

#[test]
fn unknown_properties_are_errors() {
    let mut it = Interpreter::new();
    let r = it.interpret(vec![Stmt::Print(Expr::Get(Box::new(num(1)), "x".to_string()))]);
    assert_eq!(r, Err("Cannot access properties of non-object value.".to_string()));
    let r = it.interpret(vec![Stmt::Print(Expr::Get(Box::new(Expr::Array(vec![])), "size".to_string()))]);
    assert_eq!(r, Err("Array has no property 'size'.".to_string()));
}

#[test]
fn objects_give_properties_and_methods() {
    let mut it = Interpreter::new();
    it.define("o".to_string(), object());
    let get = Expr::Get(Box::new(Expr::Variable("o".to_string())), "a".to_string());
    let method = Expr::Method(Box::new(Expr::Variable("o".to_string())), "f".to_string(), vec![num(21)]);
    let stmts = vec![Stmt::Print(get), Stmt::Print(method), Stmt::Print(Expr::Variable("o".to_string()))];
    let r = it.interpret_with(&mut Twice, &stmts);
    assert_eq!(r, Ok(()));
    assert_eq!(it.take_output(), vec!["1".to_string(), "42".to_string(), "{a: 1, f: <native fn twice>}".to_string()]);
    let missing = Expr::Method(Box::new(Expr::Variable("o".to_string())), "g".to_string(), vec![]);
    assert_eq!(it.interpret_with(&mut Twice, &vec![Stmt::Print(missing)]), Err("Method 'g' not found.".to_string()));
    let not_method = Expr::Method(Box::new(Expr::Variable("o".to_string())), "a".to_string(), vec![]);
    assert_eq!(
        it.interpret_with(&mut Twice, &vec![Stmt::Print(not_method)]),
        Err("Property 'a' is not a method.".to_string())
    );
}

#[test]
fn objects_equal_in_any_order() {
    let mut a = Value::new_object();
    a.set_property("x".to_string(), Value::Nil).unwrap();
    a.set_property("y".to_string(), Value::Boolean(true)).unwrap();
    let mut b = Value::new_object();
    b.set_property("y".to_string(), Value::Boolean(true)).unwrap();
    b.set_property("x".to_string(), Value::Nil).unwrap();
    assert!(a.is_equal(&b));
    b.set_property("x".to_string(), Value::Boolean(false)).unwrap();
    assert!(!a.is_equal(&b));
    let mut nil = Value::Nil;
    assert_eq!(
        nil.set_property("x".to_string(), Value::Nil),
        Err("Cannot set property 'x' on non-object value".to_string())
    );
}

#[test]
fn namespaces_print_their_names() {
    let mut ns = Value::new_namespace("Math");
    ns.set_property("pi".to_string(), Value::Number(Number { units: 3_141_593 })).unwrap();
    ns.set_property("e".to_string(), Value::Number(Number { units: 2_718_282 })).unwrap();
    assert_eq!(ns.stringify(), "[Namespace: Math {pi, e}]");
    assert!(ns.get_property(&"pi".to_string()).is_some());
    assert!(ns.get_property(&"tau".to_string()).is_none());
}

#[test]
fn native_arity_is_checked() {
    let mut it = Interpreter::new();
    it.define("twice".to_string(), Value::NativeFunction(NativeFunction { name: "twice".to_string(), arity: Arity::Exact(1) }));
    let r = execute_source(&mut it, &mut Twice, "print twice(2, 3);");
    assert_eq!(r, Err(RunError::Runtime("Expected 1 arguments but got 2.".to_string())));
    let r = execute_source(&mut it, &mut Twice, "print twice(4);");
    assert_eq!(r, Ok(()));
    assert_eq!(it.take_output(), vec!["8".to_string()]);
    let r = execute_source(&mut it, &mut NoHost, "print twice(4);");
    assert_eq!(r, Err(RunError::Runtime("Unknown native function.".to_string())));
}

struct Failing;

impl Host for Failing {
    fn call_native(&mut self, _name: &String, _args: Vec<Value>) -> Result<Value, String> {
        Err("abs: argument must be a number".to_string())
    }
}

#[test]
fn native_errors_reach_the_caller() {
    let mut it = Interpreter::new();
    it.define("abs".to_string(), Value::NativeFunction(NativeFunction { name: "abs".to_string(), arity: Arity::Exact(1) }));
    let r = execute_source(&mut it, &mut Failing, "var err2 = abs(\"not a number\");");
    assert_eq!(r, Err(RunError::Runtime("abs: argument must be a number".to_string())));
}
