//! The meaning of programs: a big-step semantics over the views of the
//! interpreter's state. Every step consumes one unit of `fuel`; `depth`
//! bounds how many function calls may be active at once. A call into the
//! host takes its answer from `oracle`, the host calls of the run in order,
//! and is recorded in the state; an outcome of `None` means that the run
//! made a host call other than the next one in `oracle`.
use crate::ast::{BinaryOp, Expr, Literal, LogicalOp, Stmt, UnaryOp};
use crate::environment::Env;
use crate::number::{checked, nat_digits, product_units, quotient_units, Number};
use crate::number::SCALE;
use crate::value::{prop_lookup, truthy, text_of, values_equal, Arity, Signal, Val};
use vstd::prelude::*;

verus! {

/// One call into the host: the native function's name, the arguments and
/// the answer.
pub type HostCall = (Seq<char>, Seq<Val>, Result<Val, Seq<char>>);

/// What the interpreter's state is: the scopes, the lines printed so far and
/// the calls made into the host so far.
pub struct Machine {
    pub env: Env,
    pub output: Seq<Seq<char>>,
    pub calls: Seq<HostCall>,
}

/// Whether `later` starts with `log`: the calls that a run has made are
/// the first ones of any answers it is read against.
pub open spec fn extends(log: Seq<HostCall>, later: Seq<HostCall>) -> bool {
    &&& log.len() <= later.len()
    &&& forall|i: int| 0 <= i < log.len() ==> #[trigger] later[i] == log[i]
}

/// A run's calls extend the calls of any earlier state of it.
pub broadcast proof fn lemma_extends_trans(a: Seq<HostCall>, b: Seq<HostCall>, c: Seq<HostCall>)
    requires
        #[trigger] extends(a, b),
        #[trigger] extends(b, c),
    ensures
        extends(a, c),
{
    assert forall|i: int| 0 <= i < a.len() implies #[trigger] c[i] == a[i] by {
        assert(c[i] == b[i]);
    }
}

/// The answer that `oracle` gives to the next host call of `m`, if that
/// call is to `name` with `vals`.
pub open spec fn host_answer(name: Seq<char>, vals: Seq<Val>, m: Machine, oracle: Seq<HostCall>) -> Option<(Result<Val, Signal>, Machine)> {
    let k = m.calls.len() as int;
    if k < oracle.len() && oracle[k].0 == name && oracle[k].1 == vals {
        let m1 = Machine { calls: m.calls.push(oracle[k]), ..m };
        match oracle[k].2 {
            Ok(v) => Some((Ok(v), m1)),
            Err(msg) => Some((Err(Signal::Error(msg)), m1)),
        }
    } else {
        None
    }
}

impl Machine {
    pub open spec fn wf(self) -> bool {
        self.env.wf()
    }

    pub open spec fn with_env(self, env: Env) -> Machine {
        Machine { env, ..self }
    }
}

pub open spec fn error(msg: Seq<char>) -> Signal {
    Signal::Error(msg)
}

pub open spec fn out_of_fuel() -> Signal {
    error("Execution limit exceeded."@)
}

pub open spec fn undefined_variable(name: Seq<char>) -> Signal {
    error("Undefined variable '"@ + name + "'."@)
}

pub open spec fn arity_mismatch(expected: nat, got: nat) -> Signal {
    error("Expected "@ + nat_digits(expected) + " arguments but got "@ + nat_digits(got) + "."@)
}

pub open spec fn number_result(n: Option<Number>) -> Result<Val, Signal> {
    match n {
        Some(x) => Ok(Val::Number(x)),
        None => Err(error("Number out of range."@)),
    }
}

pub open spec fn literal_val(l: Literal) -> Val {
    match l {
        Literal::Number(n) => Val::Number(n),
        Literal::String(s) => Val::Str(s@),
        Literal::Boolean(b) => Val::Bool(b),
        Literal::Nil => Val::Nil,
    }
}

pub open spec fn unary(op: UnaryOp, v: Val) -> Result<Val, Signal> {
    match op {
        UnaryOp::Negate => match v {
            Val::Number(n) => number_result(checked(-n.value())),
            _ => Err(error("Operand must be a number."@)),
        },
        UnaryOp::Not => Ok(Val::Bool(!truthy(v))),
    }
}

pub open spec fn comparison(op: BinaryOp, x: int, y: int) -> bool {
    match op {
        BinaryOp::Greater => x > y,
        BinaryOp::GreaterEqual => x >= y,
        BinaryOp::Less => x < y,
        _ => x <= y,
    }
}

pub open spec fn binary(op: BinaryOp, a: Val, b: Val) -> Result<Val, Signal> {
    match op {
        BinaryOp::Equal => Ok(Val::Bool(values_equal(a, b))),
        BinaryOp::NotEqual => Ok(Val::Bool(!values_equal(a, b))),
        BinaryOp::Add => match (a, b) {
            (Val::Number(x), Val::Number(y)) => number_result(checked(x.value() + y.value())),
            (Val::Str(x), Val::Str(y)) => Ok(Val::Str(x + y)),
            _ => Err(error("Operands must be two numbers or two strings."@)),
        },
        _ => match (a, b) {
            (Val::Number(x), Val::Number(y)) => match op {
                BinaryOp::Subtract => number_result(checked(x.value() - y.value())),
                BinaryOp::Multiply => number_result(checked(product_units(x.value(), y.value()))),
                BinaryOp::Divide => if y.units == 0 {
                    Err(error("Division by zero."@))
                } else {
                    number_result(checked(quotient_units(x.value(), y.value())))
                },
                _ => Ok(Val::Bool(comparison(op, x.value(), y.value()))),
            },
            _ => Err(error("Operands must be numbers."@)),
        },
    }
}

/// Reads the property `name` of `v`: an entry of an object or a
/// namespace, or the `length` of an array or a string.
pub open spec fn get_property(v: Val, name: Seq<char>) -> Result<Val, Signal> {
    match v {
        Val::Obj(ps) | Val::Ns(_, ps) => match prop_lookup(ps, name) {
            Some(x) => Ok(x),
            None => Err(error("Property '"@ + name + "' not found."@)),
        },
        Val::Arr(x) => if name == "length"@ {
            number_result(checked(x.len() * SCALE))
        } else {
            Err(error("Array has no property '"@ + name + "'."@))
        },
        Val::Str(x) => if name == "length"@ {
            number_result(checked(x.len() * SCALE))
        } else {
            Err(error("String has no property '"@ + name + "'."@))
        },
        _ => Err(error("Cannot access properties of non-object value."@)),
    }
}

/// Binds `params[i..]` to `vals[i..]` in the innermost frame, in order.
pub open spec fn bind_from(env: Env, params: Seq<Seq<char>>, vals: Seq<Val>, i: int) -> Env
    decreases params.len() - i,
{
    if i < 0 || i >= params.len() || i >= vals.len() {
        env
    } else {
        bind_from(env.define(params[i], vals[i]), params, vals, i + 1)
    }
}

pub open spec fn names_of(params: Seq<String>) -> Seq<Seq<char>> {
    params.map_values(|p: String| p@)
}

/// Evaluates an expression.
pub open spec fn eval(e: Expr, m: Machine, fuel: nat, depth: nat, oracle: Seq<HostCall>) -> Option<(Result<Val, Signal>, Machine)>
    decreases fuel,
{
    if fuel == 0 {
        Some((Err(out_of_fuel()), m))
    } else {
        let f = (fuel - 1) as nat;
        match e {
            Expr::Literal(l) => Some((Ok(literal_val(l)), m)),
            Expr::Grouping(inner) => eval(*inner, m, f, depth, oracle),
            Expr::Variable(name) => match m.env.lookup(name@) {
                Some(v) => Some((Ok(v), m)),
                None => Some((Err(undefined_variable(name@)), m)),
            },
            Expr::Assign(name, rhs) => match eval(*rhs, m, f, depth, oracle) {
                Some((Ok(v), m1)) => match m1.env.assign(name@, v) {
                    Some(env) => Some((Ok(v), m1.with_env(env))),
                    None => Some((Err(undefined_variable(name@)), m1)),
                },
                other => other,
            },
            Expr::Unary(op, x) => match eval(*x, m, f, depth, oracle) {
                Some((Ok(v), m1)) => Some((unary(op, v), m1)),
                other => other,
            },
            Expr::Binary(l, op, r) => match eval(*l, m, f, depth, oracle) {
                Some((Ok(a), m1)) => match eval(*r, m1, f, depth, oracle) {
                    Some((Ok(b), m2)) => Some((binary(op, a, b), m2)),
                    other => other,
                },
                other => other,
            },
            Expr::Logical(l, op, r) => match eval(*l, m, f, depth, oracle) {
                Some((Ok(a), m1)) => if (op == LogicalOp::Or) == truthy(a) {
                    Some((Ok(a), m1))
                } else {
                    eval(*r, m1, f, depth, oracle)
                },
                other => other,
            },
            Expr::Call(callee, args) => match eval(*callee, m, f, depth, oracle) {
                Some((Ok(c), m1)) => match eval_args(args@, 0, Seq::empty(), m1, f, depth, oracle) {
                    Some((Ok(vals), m2)) => call(c, vals, m2, f, depth, oracle),
                    Some((Err(s), m2)) => Some((Err(s), m2)),
                    None => None,
                },
                other => other,
            },
            Expr::Get(object, name) => match eval(*object, m, f, depth, oracle) {
                Some((Ok(v), m1)) => Some((get_property(v, name@), m1)),
                other => other,
            },
            Expr::Method(object, name, args) => match eval(*object, m, f, depth, oracle) {
                Some((Ok(v), m1)) => match eval_args(args@, 0, Seq::empty(), m1, f, depth, oracle) {
                    Some((Ok(vals), m2)) => match v {
                        Val::Obj(ps) | Val::Ns(_, ps) => match prop_lookup(ps, name@) {
                            Some(method) => if method is Fun || method is Native {
                                call(method, vals, m2, f, depth, oracle)
                            } else {
                                Some((Err(error("Property '"@ + name@ + "' is not a method."@)), m2))
                            },
                            None => Some((Err(error("Method '"@ + name@ + "' not found."@)), m2)),
                        },
                        _ => Some((Err(error("Cannot call methods on non-object value."@)), m2)),
                    },
                    Some((Err(s), m2)) => Some((Err(s), m2)),
                    None => None,
                },
                other => other,
            },
            Expr::Array(elements) => match eval_args(elements@, 0, Seq::empty(), m, f, depth, oracle) {
                Some((Ok(vals), m1)) => Some((Ok(Val::Arr(vals)), m1)),
                Some((Err(s), m1)) => Some((Err(s), m1)),
                None => None,
            },
        }
    }
}

/// Evaluates `args[i..]` from left to right, after the values `done`.
pub open spec fn eval_args(
    args: Seq<Expr>,
    i: int,
    done: Seq<Val>,
    m: Machine,
    fuel: nat,
    depth: nat,
    oracle: Seq<HostCall>,
) -> Option<(Result<Seq<Val>, Signal>, Machine)>
    decreases fuel,
{
    if fuel == 0 {
        Some((Err(out_of_fuel()), m))
    } else if i < 0 || i >= args.len() {
        Some((Ok(done), m))
    } else {
        let f = (fuel - 1) as nat;
        match eval(args[i], m, f, depth, oracle) {
            Some((Ok(v), m1)) => eval_args(args, i + 1, done.push(v), m1, f, depth, oracle),
            Some((Err(s), m1)) => Some((Err(s), m1)),
            None => None,
        }
    }
}

/// Calls the value `c` with the arguments `vals`.
pub open spec fn call(c: Val, vals: Seq<Val>, m: Machine, fuel: nat, depth: nat, oracle: Seq<HostCall>) -> Option<(Result<Val, Signal>, Machine)>
    decreases fuel,
{
    if fuel == 0 {
        Some((Err(out_of_fuel()), m))
    } else {
        let f = (fuel - 1) as nat;
        match c {
            Val::Fun(decl, closure) => {
                let params = names_of(decl.params@);
                if vals.len() != params.len() {
                    Some((Err(arity_mismatch(params.len(), vals.len())), m))
                } else if depth == 0 {
                    Some((Err(error("Stack overflow."@)), m))
                } else if !(0 <= closure < m.env.frames.len()) {
                    Some((Err(error("Invalid function value."@)), m))
                } else {
                    let frame = m.env.frames.len() as int;
                    let env1 = bind_from(m.env.enter(closure), params, vals, 0);
                    match exec_block(decl.body@, 0, m.with_env(env1), f, (depth - 1) as nat, oracle) {
                        Some((r, m2)) => {
                            let m3 = m2.with_env(m2.env.leave(frame, m.env.current));
                            match r {
                                Ok(_) => Some((Ok(Val::Nil), m3)),
                                Err(Signal::Return(v)) => Some((Ok(v), m3)),
                                Err(s) => Some((Err(s), m3)),
                            }
                        },
                        None => None,
                    }
                }
            },
            Val::Native(name, arity) => match arity {
                Arity::Exact(n) => if n != vals.len() {
                    Some((Err(arity_mismatch(n as nat, vals.len())), m))
                } else {
                    host_answer(name, vals, m, oracle)
                },
                Arity::Any => host_answer(name, vals, m, oracle),
            },
            _ => Some((Err(error("Can only call functions and classes."@)), m)),
        }
    }
}

/// Executes a statement.
pub open spec fn exec(s: Stmt, m: Machine, fuel: nat, depth: nat, oracle: Seq<HostCall>) -> Option<(Result<(), Signal>, Machine)>
    decreases fuel,
{
    if fuel == 0 {
        Some((Err(out_of_fuel()), m))
    } else {
        let f = (fuel - 1) as nat;
        match s {
            Stmt::Expression(e) => match eval(e, m, f, depth, oracle) {
                Some((Ok(_), m1)) => Some((Ok(()), m1)),
                Some((Err(x), m1)) => Some((Err(x), m1)),
                None => None,
            },
            Stmt::Print(e) => match eval(e, m, f, depth, oracle) {
                Some((Ok(v), m1)) => Some((Ok(()), Machine { output: m1.output.push(text_of(v)), ..m1 })),
                Some((Err(x), m1)) => Some((Err(x), m1)),
                None => None,
            },
            Stmt::Var(name, init) => match init {
                Some(e) => match eval(e, m, f, depth, oracle) {
                    Some((Ok(v), m1)) => Some((Ok(()), m1.with_env(m1.env.define(name@, v)))),
                    Some((Err(x), m1)) => Some((Err(x), m1)),
                    None => None,
                },
                None => Some((Ok(()), m.with_env(m.env.define(name@, Val::Nil)))),
            },
            Stmt::Block(ss) => {
                let frame = m.env.frames.len() as int;
                match exec_block(ss@, 0, m.with_env(m.env.enter(m.env.current)), f, depth, oracle) {
                    Some((r, m1)) => Some((r, m1.with_env(m1.env.leave(frame, m.env.current)))),
                    None => None,
                }
            },
            Stmt::If(c, t, e) => match eval(c, m, f, depth, oracle) {
                Some((Ok(v), m1)) => if truthy(v) {
                    exec(*t, m1, f, depth, oracle)
                } else {
                    match e {
                        Some(s2) => exec(*s2, m1, f, depth, oracle),
                        None => Some((Ok(()), m1)),
                    }
                },
                Some((Err(x), m1)) => Some((Err(x), m1)),
                None => None,
            },
            Stmt::While(c, body) => while_loop(c, *body, m, f, depth, oracle),
            Stmt::Function(decl) => {
                let env1 = m.env.define(decl.name@, Val::Fun(decl, m.env.current));
                Some((Ok(()), m.with_env(env1.capture())))
            },
            Stmt::Return(v) => match v {
                Some(e) => match eval(e, m, f, depth, oracle) {
                    Some((Ok(x), m1)) => Some((Err(Signal::Return(x)), m1)),
                    Some((Err(x), m1)) => Some((Err(x), m1)),
                    None => None,
                },
                None => Some((Err(Signal::Return(Val::Nil)), m)),
            },
        }
    }
}

/// Runs `while (c) body` from state `m`.
pub open spec fn while_loop(c: Expr, body: Stmt, m: Machine, fuel: nat, depth: nat, oracle: Seq<HostCall>) -> Option<(Result<(), Signal>, Machine)>
    decreases fuel,
{
    if fuel == 0 {
        Some((Err(out_of_fuel()), m))
    } else {
        let f = (fuel - 1) as nat;
        match eval(c, m, f, depth, oracle) {
            Some((Ok(v), m1)) => if !truthy(v) {
                Some((Ok(()), m1))
            } else {
                match exec(body, m1, f, depth, oracle) {
                    Some((Ok(_), m2)) => while_loop(c, body, m2, f, depth, oracle),
                    other => other,
                }
            },
            Some((Err(x), m1)) => Some((Err(x), m1)),
            None => None,
        }
    }
}

/// Executes `ss[i..]` in order, stopping at the first error or `return`.
pub open spec fn exec_block(ss: Seq<Stmt>, i: int, m: Machine, fuel: nat, depth: nat, oracle: Seq<HostCall>) -> Option<(Result<(), Signal>, Machine)>
    decreases fuel,
{
    if fuel == 0 {
        Some((Err(out_of_fuel()), m))
    } else if i < 0 || i >= ss.len() {
        Some((Ok(()), m))
    } else {
        let f = (fuel - 1) as nat;
        match exec(ss[i], m, f, depth, oracle) {
            Some((Ok(_), m1)) => exec_block(ss, i + 1, m1, f, depth, oracle),
            other => other,
        }
    }
}

/// Runs a program at the top level: a `return` there is an error.
pub open spec fn run(ss: Seq<Stmt>, m: Machine, fuel: nat, depth: nat, oracle: Seq<HostCall>) -> Option<(Result<(), Seq<char>>, Machine)> {
    match exec_block(ss, 0, m, fuel, depth, oracle) {
        Some((Ok(_), m1)) => Some((Ok(()), m1)),
        Some((Err(Signal::Return(_)), m1)) => Some((Err("Return statement outside of function."@), m1)),
        Some((Err(Signal::Error(msg)), m1)) => Some((Err(msg), m1)),
        None => None,
    }
}

} // verus!
