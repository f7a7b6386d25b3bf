//! The tree-walking evaluator.
use crate::ast::{BinaryOp, Expr, Literal, LogicalOp, Stmt, UnaryOp};
use crate::environment::Environment;
use crate::number::{nat_text, Number};
use crate::semantics::{
    arity_mismatch, binary, bind_from, call, error, eval, eval_args, exec, exec_block, get_property, literal_val,
    names_of, number_result, run, unary, undefined_variable, while_loop, extends, HostCall, Machine,
};
use crate::value::{lemma_values_view, values_view, Arity, Function, RuntimeError, Signal, Val, Value};
use vstd::prelude::*;

verus! {

broadcast use crate::semantics::lemma_extends_trans;

/// How many calls of functions of the language may be active at once. A
/// deeper recursion is the runtime error "Stack overflow.": the evaluator
/// recurses on the host's own stack, which this bound keeps from running out.
pub const MAX_CALL_DEPTH: u64 = 200;

/// The evaluation budget of one run; large enough never to run out in
/// practice.
pub const FUEL: u64 = 18446744073709551615;

/// What the host offers to programs besides the language itself: the
/// functions behind `NativeFunction` values. The interpreter records each
/// call with its arguments and answer, so that its contracts speak of runs
/// that call the host too.
pub trait Host {
    /// Calls the native function `name`; its arity has already been checked.
    fn call_native(&mut self, name: &String, args: Vec<Value>) -> Result<Value, String>;
}

/// A host without native functions.
pub struct NoHost;

impl Host for NoHost {
    fn call_native(&mut self, name: &String, args: Vec<Value>) -> Result<Value, String> {
        Err(String::from_str("Unknown native function."))
    }
}

pub open spec fn value_result(r: Result<Value, RuntimeError>) -> Result<Val, Signal> {
    match r {
        Ok(v) => Ok(v.view()),
        Err(e) => Err(e.view()),
    }
}

pub open spec fn unit_result(r: Result<(), RuntimeError>) -> Result<(), Signal> {
    match r {
        Ok(_) => Ok(()),
        Err(e) => Err(e.view()),
    }
}

pub open spec fn lines_view(v: Seq<String>) -> Seq<Seq<char>> {
    v.map_values(|s: String| s@)
}

pub open spec fn values_result(r: Result<Vec<Value>, RuntimeError>) -> Result<Seq<Val>, Signal> {
    match r {
        Ok(v) => Ok(values_view(v@)),
        Err(e) => Err(e.view()),
    }
}

fn message(s: &str) -> (r: RuntimeError)
    ensures
        r.view() == Signal::Error(s@),
{
    RuntimeError::Error(String::from_str(s))
}

fn undefined(name: &String) -> (r: RuntimeError)
    ensures
        r.view() == undefined_variable(name@),
{
    let mut s = String::from_str("Undefined variable '");
    s.append(name.as_str());
    s.append("'.");
    RuntimeError::Error(s)
}

fn quoted(prefix: &str, name: &String, suffix: &str) -> (r: RuntimeError)
    ensures
        r.view() == error(prefix@ + name@ + suffix@),
{
    let mut s = String::from_str(prefix);
    s.append(name.as_str());
    s.append(suffix);
    RuntimeError::Error(s)
}

/// Reads a property of a value (see `get_property`).
pub fn property_of(v: &Value, name: &String) -> (r: Result<Value, RuntimeError>)
    ensures
        value_result(r) == get_property(v.view(), name@),
{
    let length = String::from_str("length");
    match v {
        Value::Object(_) | Value::Namespace(_, _) => match v.get_property(name) {
            Some(x) => Ok(x),
            None => Err(quoted("Property '", name, "' not found.")),
        },
        Value::Array(x) => {
            proof {
                lemma_values_view(x@);
            }
            if *name == length {
                number_value(Number::from_count(x.len()))
            } else {
                Err(quoted("Array has no property '", name, "'."))
            }
        },
        Value::String(s) => {
            if *name == length {
                number_value(Number::from_count(s.as_str().unicode_len()))
            } else {
                Err(quoted("String has no property '", name, "'."))
            }
        },
        _ => Err(message("Cannot access properties of non-object value.")),
    }
}

fn arity_error(expected: usize, got: usize) -> (r: RuntimeError)
    ensures
        r.view() == arity_mismatch(expected as nat, got as nat),
{
    let mut s = String::from_str("Expected ");
    let a = nat_text(expected as u64);
    s.append(a.as_str());
    s.append(" arguments but got ");
    let b = nat_text(got as u64);
    s.append(b.as_str());
    s.append(".");
    RuntimeError::Error(s)
}

fn number_value(n: Option<Number>) -> (r: Result<Value, RuntimeError>)
    ensures
        value_result(r) == number_result(n),
{
    match n {
        Some(x) => Ok(Value::Number(x)),
        None => Err(message("Number out of range.")),
    }
}

fn literal_value(l: &Literal) -> (r: Value)
    ensures
        r.view() == literal_val(*l),
{
    match l {
        Literal::Number(n) => Value::Number(*n),
        Literal::String(s) => Value::String(s.clone()),
        Literal::Boolean(b) => Value::Boolean(*b),
        Literal::Nil => Value::Nil,
    }
}

/// Applies a unary operator.
pub fn unary_op(op: UnaryOp, v: Value) -> (r: Result<Value, RuntimeError>)
    ensures
        value_result(r) == unary(op, v.view()),
{
    match op {
        UnaryOp::Negate => match v {
            Value::Number(n) => number_value(n.neg()),
            _ => Err(message("Operand must be a number.")),
        },
        UnaryOp::Not => Ok(Value::Boolean(!v.is_truthy())),
    }
}

/// Applies a binary operator.
pub fn binary_op(op: BinaryOp, a: Value, b: Value) -> (r: Result<Value, RuntimeError>)
    ensures
        value_result(r) == binary(op, a.view(), b.view()),
{
    match op {
        BinaryOp::Equal => Ok(Value::Boolean(a.is_equal(&b))),
        BinaryOp::NotEqual => Ok(Value::Boolean(!a.is_equal(&b))),
        BinaryOp::Add => match (a, b) {
            (Value::Number(x), Value::Number(y)) => number_value(x.add(&y)),
            (Value::String(x), Value::String(y)) => {
                let mut s = x;
                s.append(y.as_str());
                Ok(Value::String(s))
            },
            _ => Err(message("Operands must be two numbers or two strings.")),
        },
        _ => match (a, b) {
            (Value::Number(x), Value::Number(y)) => match op {
                BinaryOp::Subtract => number_value(x.sub(&y)),
                BinaryOp::Multiply => number_value(x.mul(&y)),
                BinaryOp::Divide => if y.is_zero() {
                    Err(message("Division by zero."))
                } else {
                    number_value(x.div(&y))
                },
                BinaryOp::Greater => Ok(Value::Boolean(y.less(&x))),
                BinaryOp::GreaterEqual => Ok(Value::Boolean(!x.less(&y))),
                BinaryOp::Less => Ok(Value::Boolean(x.less(&y))),
                _ => Ok(Value::Boolean(!y.less(&x))),
            },
            _ => Err(message("Operands must be numbers.")),
        },
    }
}

/// An interpreter: the scopes of a running program and the lines it has
/// printed and not yet handed out.
pub struct Interpreter {
    env: Environment,
    output: Vec<String>,
    /// The calls made into the host so far, with their answers.
    calls: Ghost<Seq<HostCall>>,
}

impl Interpreter {
    pub closed spec fn view(&self) -> Machine {
        Machine { env: self.env.view(), output: lines_view(self.output@), calls: self.calls@ }
    }

    pub open spec fn wf(&self) -> bool {
        self.view().wf()
    }

    pub open spec fn frames(&self) -> nat {
        self.view().env.frames.len()
    }

    /// An interpreter with an empty global scope.
    pub fn new() -> (r: Interpreter)
        ensures
            r.wf(),
            r.view().env.frames.len() == 1,
            r.view().env.frames[0].vars.len() == 0,
            r.view().env.current == 0,
            r.view().output.len() == 0,
    {
        Interpreter { env: Environment::new(), output: Vec::new(), calls: Ghost(Seq::empty()) }
    }

    /// Binds `name` in the innermost scope, as `var` does; a host uses this
    /// to offer its native functions.
    pub fn define(&mut self, name: String, value: Value)
        requires
            old(self).wf(),
        ensures
            final(self).wf(),
            final(self).view() == old(self).view().with_env(
                old(self).view().env.define(name@, value.view()),
            ),
    {
        self.env.define(name, value);
    }

    /// The value bound to `name` in the innermost scope's chain.
    pub fn get(&self, name: &String) -> (r: Option<Value>)
        requires
            self.wf(),
        ensures
            match self.view().env.lookup(name@) {
                Some(v) => r matches Some(x) && x.view() == v,
                None => r is None,
            },
    {
        self.env.get(name)
    }

    /// Hands out the printed lines, oldest first, and forgets them.
    pub fn take_output(&mut self) -> (r: Vec<String>)
        ensures
            final(self).view() == (Machine { output: Seq::empty(), ..old(self).view() }),
            lines_view(r@) == old(self).view().output,
    {
        let mut out: Vec<String> = Vec::new();
        std::mem::swap(&mut out, &mut self.output);
        assert(self.view().output =~= Seq::empty());
        out
    }

    /// Runs a program at the top level, calling into `host` for native
    /// functions.
    pub fn interpret_with<H: Host>(&mut self, host: &mut H, statements: &Vec<Stmt>) -> (r: Result<(), String>)
        requires
            old(self).wf(),
        ensures
            final(self).wf(),
            run(statements@, old(self).view(), FUEL as nat, MAX_CALL_DEPTH as nat, final(self).view().calls) matches Some((x, m))
                ==> final(self).view() == m && match r {
                Ok(_) => x is Ok,
                Err(msg) => x == Err::<(), Seq<char>>(msg@),
            },
    {
        let r = self.exec_block(host, statements, FUEL, MAX_CALL_DEPTH);
        assert(extends(self.view().calls, self.view().calls));
        match r {
            Ok(_) => Ok(()),
            Err(RuntimeError::Return(_)) => Err(String::from_str("Return statement outside of function.")),
            Err(RuntimeError::Error(m)) => Err(m),
        }
    }

    /// Runs a program that calls no native function.
    pub fn interpret(&mut self, statements: Vec<Stmt>) -> (r: Result<(), String>)
        requires
            old(self).wf(),
        ensures
            final(self).wf(),
            run(statements@, old(self).view(), FUEL as nat, MAX_CALL_DEPTH as nat, final(self).view().calls) matches Some((x, m))
                ==> final(self).view() == m && match r {
                Ok(_) => x is Ok,
                Err(msg) => x == Err::<(), Seq<char>>(msg@),
            },
    {
        let mut host = NoHost;
        self.interpret_with(&mut host, &statements)
    }

    /// Evaluates an expression.
    pub fn evaluate<H: Host>(&mut self, host: &mut H, e: &Expr, fuel: u64, depth: u64) -> (r: Result<Value, RuntimeError>)
        requires
            old(self).wf(),
        ensures
            final(self).wf(),
            final(self).frames() >= old(self).frames(),
            extends(old(self).view().calls, final(self).view().calls),
            forall|oracle: Seq<HostCall>|
                #[trigger] extends(final(self).view().calls, oracle) ==> (eval(*e, old(self).view(), fuel as nat, depth as nat, oracle) matches Some((x, m))
                    ==> value_result(r) == x && final(self).view() == m),
        decreases fuel,
    {
        if fuel == 0 {
            return Err(message("Execution limit exceeded."));
        }
        let f = fuel - 1;
        match e {
            Expr::Literal(l) => Ok(literal_value(l)),
            Expr::Grouping(inner) => self.evaluate(host, inner, f, depth),
            Expr::Variable(name) => match self.env.get(name) {
                Some(v) => Ok(v),
                None => Err(undefined(name)),
            },
            Expr::Assign(name, rhs) => {
                let v = match self.evaluate(host, rhs, f, depth) {
                    Ok(v) => v,
                    Err(x) => return Err(x),
                };
                let kept = v.duplicate();
                if self.env.assign(name, kept) {
                    Ok(v)
                } else {
                    Err(undefined(name))
                }
            },
            Expr::Unary(op, x) => {
                let v = match self.evaluate(host, x, f, depth) {
                    Ok(v) => v,
                    Err(x) => return Err(x),
                };
                unary_op(*op, v)
            },
            Expr::Binary(l, op, r) => {
                let a = match self.evaluate(host, l, f, depth) {
                    Ok(v) => v,
                    Err(x) => return Err(x),
                };
                let b = match self.evaluate(host, r, f, depth) {
                    Ok(v) => v,
                    Err(x) => return Err(x),
                };
                binary_op(*op, a, b)
            },
            Expr::Logical(l, op, r) => {
                let a = match self.evaluate(host, l, f, depth) {
                    Ok(v) => v,
                    Err(x) => return Err(x),
                };
                if (*op == LogicalOp::Or) == a.is_truthy() {
                    Ok(a)
                } else {
                    self.evaluate(host, r, f, depth)
                }
            },
            Expr::Call(callee, args) => {
                let c = match self.evaluate(host, callee, f, depth) {
                    Ok(v) => v,
                    Err(x) => return Err(x),
                };
                let vals = match self.eval_args(host, args, f, depth) {
                    Ok(v) => v,
                    Err(x) => return Err(x),
                };
                self.call_value(host, c, vals, f, depth)
            },
            Expr::Get(object, name) => {
                let v = match self.evaluate(host, object, f, depth) {
                    Ok(v) => v,
                    Err(x) => return Err(x),
                };
                property_of(&v, name)
            },
            Expr::Method(object, name, args) => {
                let v = match self.evaluate(host, object, f, depth) {
                    Ok(v) => v,
                    Err(x) => return Err(x),
                };
                let vals = match self.eval_args(host, args, f, depth) {
                    Ok(v) => v,
                    Err(x) => return Err(x),
                };
                match &v {
                    Value::Object(_) | Value::Namespace(_, _) => match v.get_property(name) {
                        Some(method) => if method.is_callable() {
                            self.call_value(host, method, vals, f, depth)
                        } else {
                            Err(quoted("Property '", name, "' is not a method."))
                        },
                        None => Err(quoted("Method '", name, "' not found.")),
                    },
                    _ => Err(message("Cannot call methods on non-object value.")),
                }
            },
            Expr::Array(elements) => match self.eval_args(host, elements, f, depth) {
                Ok(vals) => Ok(Value::Array(vals)),
                Err(x) => Err(x),
            },
        }
    }

    fn eval_args<H: Host>(&mut self, host: &mut H, args: &Vec<Expr>, fuel: u64, depth: u64) -> (r: Result<Vec<Value>, RuntimeError>)
        requires
            old(self).wf(),
        ensures
            final(self).wf(),
            final(self).frames() >= old(self).frames(),
            extends(old(self).view().calls, final(self).view().calls),
            forall|oracle: Seq<HostCall>|
                #[trigger] extends(final(self).view().calls, oracle) ==> (eval_args(args@, 0, Seq::empty(), old(self).view(), fuel as nat, depth as nat, oracle) matches Some((x, m))
                    ==> values_result(r) == x && final(self).view() == m),
        decreases fuel,
    {
        let ghost start = self.frames();
        let mut vals: Vec<Value> = Vec::new();
        let mut i: usize = 0;
        let mut fl: u64 = fuel;
        assert(values_view(vals@) =~= Seq::empty());
        loop
            invariant
                self.wf(),
                start == old(self).frames(),
                self.frames() >= start,
                fl <= fuel,
                i <= args.len(),
                extends(old(self).view().calls, self.view().calls),
                forall|oracle: Seq<HostCall>|
                    #[trigger] extends(self.view().calls, oracle) ==> (eval_args(args@, 0, Seq::empty(), old(self).view(), fuel as nat, depth as nat, oracle) is Some
                        ==> eval_args(args@, 0, Seq::empty(), old(self).view(), fuel as nat, depth as nat, oracle) == eval_args(args@, i as int, values_view(vals@), self.view(), fl as nat, depth as nat, oracle)),
            decreases fl,
        {
            if fl == 0 {
                return Err(message("Execution limit exceeded."));
            }
            if i >= args.len() {
                return Ok(vals);
            }
            let v = match self.evaluate(host, &args[i], fl - 1, depth) {
                Ok(v) => v,
                Err(x) => return Err(x),
            };
            let ghost before = vals@;
            vals.push(v);
            assert(vals@.drop_last() =~= before);
            i = i + 1;
            fl = fl - 1;
        }
    }

    fn bind_params(&mut self, params: &Vec<String>, vals: &Vec<Value>)
        requires
            old(self).wf(),
        ensures
            final(self).wf(),
            final(self).view() == old(self).view().with_env(
                bind_from(old(self).view().env, names_of(params@), values_view(vals@), 0),
            ),
            final(self).frames() == old(self).frames(),
            final(self).view().env.current == old(self).view().env.current,
    {
        let ghost names = names_of(params@);
        let ghost vs = values_view(vals@);
        let ghost m0 = self.view();
        proof {
            lemma_values_view(vals@);
        }
        let mut i: usize = 0;
        while i < params.len() && i < vals.len()
            invariant
                self.wf(),
                vs.len() == vals@.len(),
                forall|j: int| 0 <= j < vals@.len() ==> #[trigger] vs[j] == vals@[j].view(),
                i <= params.len(),
                names == names_of(params@),
                vs == values_view(vals@),
                m0.with_env(bind_from(m0.env, names, vs, 0)) == self.view().with_env(
                    bind_from(self.view().env, names, vs, i as int),
                ),
                self.view().output == m0.output,
                self.view().env.frames.len() == m0.env.frames.len(),
                self.view().env.current == m0.env.current,
            decreases params.len() - i,
        {
            self.env.define(params[i].clone(), vals[i].duplicate());
            i = i + 1;
        }
    }

    #[verifier::rlimit(60)]
    fn call_value<H: Host>(&mut self, host: &mut H, c: Value, vals: Vec<Value>, fuel: u64, depth: u64) -> (r: Result<Value, RuntimeError>)
        requires
            old(self).wf(),
        ensures
            final(self).wf(),
            final(self).frames() >= old(self).frames(),
            extends(old(self).view().calls, final(self).view().calls),
            forall|oracle: Seq<HostCall>|
                #[trigger] extends(final(self).view().calls, oracle) ==> (call(c.view(), values_view(vals@), old(self).view(), fuel as nat, depth as nat, oracle) matches Some((x, m))
                    ==> value_result(r) == x && final(self).view() == m),
        decreases fuel,
    {
        if fuel == 0 {
            return Err(message("Execution limit exceeded."));
        }
        proof {
            lemma_values_view(vals@);
        }
        match c {
            Value::Function(func) => {
                let f = fuel - 1;
                let n = func.decl.params.len();
                if vals.len() != n {
                    return Err(arity_error(n, vals.len()));
                }
                if depth == 0 {
                    return Err(message("Stack overflow."));
                }
                if func.closure >= self.env.frame_count() {
                    return Err(message("Invalid function value."));
                }
                let saved = self.env.current();
                let frame = self.env.enter(func.closure);
                self.bind_params(&func.decl.params, &vals);
                let r = self.exec_block(host, &func.decl.body, f, depth - 1);
                self.env.leave(frame, saved);
                match r {
                    Ok(_) => Ok(Value::Nil),
                    Err(RuntimeError::Return(v)) => Ok(v),
                    Err(x) => Err(x),
                }
            },
            Value::NativeFunction(nf) => {
                match nf.arity {
                    Arity::Exact(n) => if n != vals.len() {
                        return Err(arity_error(n, vals.len()));
                    },
                    Arity::Any => {},
                }
                let ghost args = values_view(vals@);
                match host.call_native(&nf.name, vals) {
                    Ok(v) => {
                        self.calls = Ghost(self.calls@.push((nf.name@, args, Ok(v.view()))));
                        Ok(v)
                    },
                    Err(msg) => {
                        self.calls = Ghost(self.calls@.push((nf.name@, args, Err(msg@))));
                        Err(RuntimeError::Error(msg))
                    },
                }
            },
            _ => Err(message("Can only call functions and classes.")),
        }
    }

    /// Executes a statement.
    pub fn execute<H: Host>(&mut self, host: &mut H, s: &Stmt, fuel: u64, depth: u64) -> (r: Result<(), RuntimeError>)
        requires
            old(self).wf(),
        ensures
            final(self).wf(),
            final(self).frames() >= old(self).frames(),
            extends(old(self).view().calls, final(self).view().calls),
            forall|oracle: Seq<HostCall>|
                #[trigger] extends(final(self).view().calls, oracle) ==> (exec(*s, old(self).view(), fuel as nat, depth as nat, oracle) matches Some((x, m))
                    ==> unit_result(r) == x && final(self).view() == m),
        decreases fuel,
    {
        if fuel == 0 {
            return Err(message("Execution limit exceeded."));
        }
        let f = fuel - 1;
        match s {
            Stmt::Expression(e) => match self.evaluate(host, e, f, depth) {
                Ok(_) => Ok(()),
                Err(x) => Err(x),
            },
            Stmt::Print(e) => {
                let v = match self.evaluate(host, e, f, depth) {
                    Ok(v) => v,
                    Err(x) => return Err(x),
                };
                let t = v.stringify();
                let ghost before = self.view().output;
                self.output.push(t);
                assert(self.view().output =~= before.push(t@));
                Ok(())
            },
            Stmt::Var(name, init) => {
                let v = match init {
                    Some(e) => match self.evaluate(host, e, f, depth) {
                        Ok(v) => v,
                        Err(x) => return Err(x),
                    },
                    None => Value::Nil,
                };
                self.env.define(name.clone(), v);
                Ok(())
            },
            Stmt::Block(ss) => {
                let saved = self.env.current();
                let frame = self.env.enter(saved);
                let r = self.exec_block(host, ss, f, depth);
                self.env.leave(frame, saved);
                r
            },
            Stmt::If(c, t, e) => {
                let v = match self.evaluate(host, c, f, depth) {
                    Ok(v) => v,
                    Err(x) => return Err(x),
                };
                if v.is_truthy() {
                    self.execute(host, t, f, depth)
                } else {
                    match e {
                        Some(s2) => self.execute(host, s2, f, depth),
                        None => Ok(()),
                    }
                }
            },
            Stmt::While(c, body) => self.while_loop(host, c, body, f, depth),
            Stmt::Function(decl) => {
                let c = self.env.current();
                let fv = Value::Function(Function { decl: decl.clone(), closure: c });
                self.env.define(decl.name.clone(), fv);
                self.env.capture();
                Ok(())
            },
            Stmt::Return(v) => match v {
                Some(e) => match self.evaluate(host, e, f, depth) {
                    Ok(x) => Err(RuntimeError::Return(x)),
                    Err(x) => Err(x),
                },
                None => Err(RuntimeError::Return(Value::Nil)),
            },
        }
    }

    fn while_loop<H: Host>(&mut self, host: &mut H, c: &Expr, body: &Stmt, fuel: u64, depth: u64) -> (r: Result<(), RuntimeError>)
        requires
            old(self).wf(),
        ensures
            final(self).wf(),
            final(self).frames() >= old(self).frames(),
            extends(old(self).view().calls, final(self).view().calls),
            forall|oracle: Seq<HostCall>|
                #[trigger] extends(final(self).view().calls, oracle) ==> (while_loop(*c, *body, old(self).view(), fuel as nat, depth as nat, oracle) matches Some((x, m))
                    ==> unit_result(r) == x && final(self).view() == m),
        decreases fuel,
    {
        let ghost start = self.frames();
        let mut fl: u64 = fuel;
        loop
            invariant
                self.wf(),
                start == old(self).frames(),
                self.frames() >= start,
                fl <= fuel,
                extends(old(self).view().calls, self.view().calls),
                forall|oracle: Seq<HostCall>|
                    #[trigger] extends(self.view().calls, oracle) ==> (while_loop(*c, *body, old(self).view(), fuel as nat, depth as nat, oracle) is Some
                        ==> while_loop(*c, *body, old(self).view(), fuel as nat, depth as nat, oracle) == while_loop(*c, *body, self.view(), fl as nat, depth as nat, oracle)),
            decreases fl,
        {
            if fl == 0 {
                return Err(message("Execution limit exceeded."));
            }
            let v = match self.evaluate(host, c, fl - 1, depth) {
                Ok(v) => v,
                Err(x) => return Err(x),
            };
            if !v.is_truthy() {
                return Ok(());
            }
            match self.execute(host, body, fl - 1, depth) {
                Ok(_) => {},
                Err(x) => return Err(x),
            }
            fl = fl - 1;
        }
    }

    fn exec_block<H: Host>(&mut self, host: &mut H, ss: &Vec<Stmt>, fuel: u64, depth: u64) -> (r: Result<(), RuntimeError>)
        requires
            old(self).wf(),
        ensures
            final(self).wf(),
            final(self).frames() >= old(self).frames(),
            extends(old(self).view().calls, final(self).view().calls),
            forall|oracle: Seq<HostCall>|
                #[trigger] extends(final(self).view().calls, oracle) ==> (exec_block(ss@, 0, old(self).view(), fuel as nat, depth as nat, oracle) matches Some((x, m))
                    ==> unit_result(r) == x && final(self).view() == m),
        decreases fuel,
    {
        let ghost start = self.frames();
        let mut i: usize = 0;
        let mut fl: u64 = fuel;
        loop
            invariant
                self.wf(),
                start == old(self).frames(),
                self.frames() >= start,
                fl <= fuel,
                i <= ss.len(),
                extends(old(self).view().calls, self.view().calls),
                forall|oracle: Seq<HostCall>|
                    #[trigger] extends(self.view().calls, oracle) ==> (exec_block(ss@, 0, old(self).view(), fuel as nat, depth as nat, oracle) is Some
                        ==> exec_block(ss@, 0, old(self).view(), fuel as nat, depth as nat, oracle) == exec_block(ss@, i as int, self.view(), fl as nat, depth as nat, oracle)),
            decreases fl,
        {
            if fl == 0 {
                return Err(message("Execution limit exceeded."));
            }
            if i >= ss.len() {
                return Ok(());
            }
            match self.execute(host, &ss[i], fl - 1, depth) {
                Ok(_) => {},
                Err(x) => return Err(x),
            }
            i = i + 1;
            fl = fl - 1;
        }
    }
}

} // verus!
