//! Laws of the language, proved over its semantics.
use crate::ast::{BinaryOp, Expr, Stmt};
use crate::environment::Env;
use crate::number::{checked, quotient_units, Number};
use crate::semantics::{
    arity_mismatch, binary, call, error, eval, exec, exec_block, names_of, number_result,
    undefined_variable, while_loop, HostCall, Machine,
};
use crate::grammar::terminator;
use crate::token::Token;
use crate::value::{truthy, Signal, Val};
use std::rc::Rc;
use vstd::prelude::*;

verus! {

/// Dividing any number by zero is the error "Division by zero.", never a
/// number.
pub proof fn law_division_by_zero(a: Number, zero: Number)
    requires
        zero.units == 0,
    ensures
        binary(BinaryOp::Divide, Val::Number(a), Val::Number(zero)) == Err::<Val, Signal>(
            error("Division by zero."@),
        ),
{
}

/// `+` takes two numbers or two strings: a string and a number are a type
/// error, two strings are joined.
pub proof fn law_plus_types(s: Seq<char>, t: Seq<char>, n: Number)
    ensures
        binary(BinaryOp::Add, Val::Str(s), Val::Number(n)) == Err::<Val, Signal>(
            error("Operands must be two numbers or two strings."@),
        ),
        binary(BinaryOp::Add, Val::Number(n), Val::Str(s)) == Err::<Val, Signal>(
            error("Operands must be two numbers or two strings."@),
        ),
        binary(BinaryOp::Add, Val::Str(s), Val::Str(t)) == Ok::<Val, Signal>(Val::Str(s + t)),
{
}

/// Only `nil` and `false` are falsy: every number, zero included, and every
/// string is truthy.
pub proof fn law_truthiness(n: Number, s: Seq<char>)
    ensures
        truthy(Val::Number(n)),
        truthy(Val::Str(s)),
        !truthy(Val::Nil),
        !truthy(Val::Bool(false)),
        truthy(Val::Bool(true)),
{
}

/// `if` runs its first branch exactly when the condition's value is truthy.
pub proof fn law_if_follows_truthiness(
    c: Expr,
    t: Box<Stmt>,
    e: Option<Box<Stmt>>,
    m: Machine,
    fuel: nat,
    depth: nat,
    oracle: Seq<HostCall>,
    v: Val,
    m1: Machine,
)
    requires
        fuel > 1,
        eval(c, m, (fuel - 1) as nat, depth, oracle) == Some((Ok::<Val, Signal>(v), m1)),
    ensures
        truthy(v) ==> exec(Stmt::If(c, t, e), m, fuel, depth, oracle) == exec(*t, m1, (fuel - 1) as nat, depth, oracle),
        !truthy(v) && e is None ==> exec(Stmt::If(c, t, e), m, fuel, depth, oracle) == Some((Ok::<(), Signal>(()), m1)),
        !truthy(v) && e is Some ==> exec(Stmt::If(c, t, e), m, fuel, depth, oracle) == exec(*e.unwrap(), m1, (fuel - 1) as nat, depth, oracle),
{
}

/// Reading a name that no scope on the chain binds is an error naming it.
pub proof fn law_undefined_read(name: String, m: Machine, fuel: nat, depth: nat, oracle: Seq<HostCall>)
    requires
        fuel > 0,
        m.env.lookup(name@) is None,
    ensures
        eval(Expr::Variable(name), m, fuel, depth, oracle) == Some((Err::<Val, Signal>(undefined_variable(name@)), m)),
{
}

/// Assigning to a name that no scope binds is an error naming it, and
/// binds nothing: the state is the one the right-hand side left.
pub proof fn law_undefined_assign(
    name: String,
    rhs: Box<Expr>,
    m: Machine,
    fuel: nat,
    depth: nat,
    oracle: Seq<HostCall>,
    v: Val,
    m1: Machine,
)
    requires
        fuel > 0,
        eval(*rhs, m, (fuel - 1) as nat, depth, oracle) == Some((Ok::<Val, Signal>(v), m1)),
        m1.env.lookup(name@) is None,
    ensures
        eval(Expr::Assign(name, rhs), m, fuel, depth, oracle) == Some((Err::<Val, Signal>(undefined_variable(name@)), m1)),
        m1.env.lookup(name@) is None,
{
}

/// A `return` in a list of statements ends the list: the statements after
/// it do not run.
pub proof fn law_return_stops_block(
    ss: Seq<Stmt>,
    i: int,
    m: Machine,
    fuel: nat,
    depth: nat,
    oracle: Seq<HostCall>,
    v: Val,
    m1: Machine,
)
    requires
        fuel > 0,
        0 <= i < ss.len(),
        exec(ss[i], m, (fuel - 1) as nat, depth, oracle) == Some((Err::<(), Signal>(Signal::Return(v)), m1)),
    ensures
        exec_block(ss, i, m, fuel, depth, oracle) == Some((Err::<(), Signal>(Signal::Return(v)), m1)),
{
}

/// A `return` in the body of a loop ends the loop, with the same value.
pub proof fn law_return_stops_loop(
    c: Expr,
    body: Stmt,
    m: Machine,
    fuel: nat,
    depth: nat,
    oracle: Seq<HostCall>,
    cv: Val,
    m1: Machine,
    v: Val,
    m2: Machine,
)
    requires
        fuel > 0,
        eval(c, m, (fuel - 1) as nat, depth, oracle) == Some((Ok::<Val, Signal>(cv), m1)),
        truthy(cv),
        exec(body, m1, (fuel - 1) as nat, depth, oracle) == Some((Err::<(), Signal>(Signal::Return(v)), m2)),
    ensures
        while_loop(c, body, m, fuel, depth, oracle) == Some((Err::<(), Signal>(Signal::Return(v)), m2)),
{
}

/// A `return` that reaches the body of a called function ends the call, and
/// the call's value is the returned value.
pub proof fn law_return_ends_call(
    decl: Rc<crate::ast::FunDecl>,
    closure: int,
    vals: Seq<Val>,
    m: Machine,
    fuel: nat,
    depth: nat,
    oracle: Seq<HostCall>,
)
    requires
        fuel > 0,
        depth > 0,
        vals.len() == decl.params@.len(),
        0 <= closure < m.env.frames.len(),
    ensures
        ({
            let frame = m.env.frames.len() as int;
            let env1 = crate::semantics::bind_from(m.env.enter(closure), names_of(decl.params@), vals, 0);
            match exec_block(decl.body@, 0, m.with_env(env1), (fuel - 1) as nat, (depth - 1) as nat, oracle) {
                Some((Err(Signal::Return(v)), m2)) => call(Val::Fun(decl, closure), vals, m, fuel, depth, oracle)
                    == Some((Ok::<Val, Signal>(v), m2.with_env(m2.env.leave(frame, m.env.current)))),
                _ => true,
            }
        }),
{
}

/// Calling a function with a number of arguments other than its number of
/// parameters is an error citing both counts, and changes nothing.
pub proof fn law_arity(decl: Rc<crate::ast::FunDecl>, closure: int, vals: Seq<Val>, m: Machine, fuel: nat, depth: nat, oracle: Seq<HostCall>)
    requires
        fuel > 0,
        vals.len() != decl.params@.len(),
    ensures
        call(Val::Fun(decl, closure), vals, m, fuel, depth, oracle) == Some(
            (Err::<Val, Signal>(arity_mismatch(decl.params@.len(), vals.len())), m),
        ),
{
    assert(names_of(decl.params@).len() == decl.params@.len());
}

/// A statement ends with `;` or with a line break, alike: at a position
/// where one token sequence has a `;` and another a line break, the end of a
/// statement is read from both in the same way.
pub proof fn law_terminators_alike(toks1: Seq<Token>, toks2: Seq<Token>, pos: int, msg: Seq<char>)
    requires
        0 <= pos < toks1.len(),
        0 <= pos < toks2.len(),
        toks1[pos].token_type is Semicolon,
        toks2[pos].token_type is Newline,
    ensures
        terminator(toks1, pos, msg) == terminator(toks2, pos, msg),
        terminator(toks1, pos, msg) == Some((Ok::<(), Seq<char>>(()), pos + 1)),
{
}

/// A binding made in an inner scope shadows the outer one while the scope
/// lasts, and the outer one is seen again once the scope ends.
pub proof fn law_shadowing(e: Env, name: Seq<char>, v: Val)
    requires
        e.wf(),
    ensures
        ({
            let inner = e.enter(e.current).define(name, v);
            &&& inner.lookup(name) == Some(v)
            &&& inner.leave(e.frames.len() as int, e.current).lookup(name) == e.lookup(name)
            &&& inner.leave(e.frames.len() as int, e.current) == e
        }),
{
    let inner = e.enter(e.current).define(name, v);
    let k = e.frames.len() as int;
    assert(crate::environment::find_var(inner.frames[k].vars, name, 0) == Some(0int));
    assert(inner.leave(k, e.current).frames =~= e.frames);
}

/// A call of a native function with as many arguments as it takes is one
/// call into the host with the evaluated arguments, recorded in order; the
/// host's answer is the call's value, and its error is the call's error.
pub proof fn law_native_call(
    name: Seq<char>,
    arity: crate::value::Arity,
    vals: Seq<Val>,
    m: Machine,
    fuel: nat,
    depth: nat,
    oracle: Seq<HostCall>,
    answer: Result<Val, Seq<char>>,
)
    requires
        fuel > 0,
        arity matches crate::value::Arity::Exact(n) ==> n == vals.len(),
        m.calls.len() < oracle.len(),
        oracle[m.calls.len() as int] == (name, vals, answer),
    ensures
        call(Val::Native(name, arity), vals, m, fuel, depth, oracle) == Some(
            (
                match answer {
                    Ok(v) => Ok::<Val, Signal>(v),
                    Err(msg) => Err(Signal::Error(msg)),
                },
                Machine { calls: m.calls.push((name, vals, answer)), ..m },
            ),
        ),
{
}

/// Evaluating `l op r` evaluates `l`, then `r`, then applies the operator
/// to the two values (see `binary`): numbers for arithmetic and comparison,
/// two numbers or two strings for `+`, any two values for `==` and `!=`.
pub proof fn law_eval_binary(
    l: Box<Expr>,
    op: BinaryOp,
    r: Box<Expr>,
    m: Machine,
    fuel: nat,
    depth: nat,
    oracle: Seq<HostCall>,
    a: Val,
    m1: Machine,
    b: Val,
    m2: Machine,
)
    requires
        fuel > 0,
        eval(*l, m, (fuel - 1) as nat, depth, oracle) == Some((Ok::<Val, Signal>(a), m1)),
        eval(*r, m1, (fuel - 1) as nat, depth, oracle) == Some((Ok::<Val, Signal>(b), m2)),
    ensures
        eval(Expr::Binary(l, op, r), m, fuel, depth, oracle) == Some((binary(op, a, b), m2)),
        op == BinaryOp::Equal || op == BinaryOp::NotEqual ==> binary(op, a, b) is Ok,
        op != BinaryOp::Equal && op != BinaryOp::NotEqual && op != BinaryOp::Add && (!(a is Number)
            || !(b is Number)) ==> binary(op, a, b) == Err::<Val, Signal>(error("Operands must be numbers."@)),
        op == BinaryOp::Add && !(a is Number && b is Number) && !(a is Str && b is Str) ==> binary(op, a, b)
            == Err::<Val, Signal>(error("Operands must be two numbers or two strings."@)),
{
}

/// Dividing by zero is the error "Division by zero.", whatever the dividend;
/// dividing by any other number gives the quotient, or "Number out of
/// range." where it cannot be held.
pub proof fn law_eval_division(
    l: Box<Expr>,
    r: Box<Expr>,
    m: Machine,
    fuel: nat,
    depth: nat,
    oracle: Seq<HostCall>,
    a: Number,
    m1: Machine,
    b: Number,
    m2: Machine,
)
    requires
        fuel > 0,
        eval(*l, m, (fuel - 1) as nat, depth, oracle) == Some((Ok::<Val, Signal>(Val::Number(a)), m1)),
        eval(*r, m1, (fuel - 1) as nat, depth, oracle) == Some((Ok::<Val, Signal>(Val::Number(b)), m2)),
    ensures
        b.units == 0 ==> eval(Expr::Binary(l, BinaryOp::Divide, r), m, fuel, depth, oracle) == Some(
            (Err::<Val, Signal>(error("Division by zero."@)), m2),
        ),
        b.units != 0 ==> eval(Expr::Binary(l, BinaryOp::Divide, r), m, fuel, depth, oracle) == Some(
            (number_result(checked(quotient_units(a.value(), b.value()))), m2),
        ),
{
}

/// A `return` inside a block ends the block with the same signal, after its
/// scope is closed; inside the branch of an `if` it ends the `if`.
pub proof fn law_return_passes_through(
    ss: Vec<Stmt>,
    c: Expr,
    t: Box<Stmt>,
    e: Option<Box<Stmt>>,
    m: Machine,
    fuel: nat,
    depth: nat,
    oracle: Seq<HostCall>,
    v: Val,
)
    requires
        fuel > 1,
    ensures
        ({
            let inner = m.with_env(m.env.enter(m.env.current));
            match exec_block(ss@, 0, inner, (fuel - 1) as nat, depth, oracle) {
                Some((Err(Signal::Return(v)), m1)) => exec(Stmt::Block(ss), m, fuel, depth, oracle) == Some(
                    (
                        Err::<(), Signal>(Signal::Return(v)),
                        m1.with_env(m1.env.leave(m.env.frames.len() as int, m.env.current)),
                    ),
                ),
                _ => true,
            }
        }),
        ({
            match eval(c, m, (fuel - 1) as nat, depth, oracle) {
                Some((Ok(cv), m1)) => truthy(cv) ==> match exec(*t, m1, (fuel - 1) as nat, depth, oracle) {
                    Some((Err(Signal::Return(v)), m2)) => exec(Stmt::If(c, t, e), m, fuel, depth, oracle)
                        == Some((Err::<(), Signal>(Signal::Return(v)), m2)),
                    _ => true,
                },
                _ => true,
            }
        }),
{
}

/// Whatever a block does, the innermost scope afterwards is the one before
/// it: the block's own scope is closed, with the bindings its `var`s made.
pub proof fn law_block_restores_scope(ss: Vec<Stmt>, m: Machine, fuel: nat, depth: nat, oracle: Seq<HostCall>)
    ensures
        exec(Stmt::Block(ss), m, fuel, depth, oracle) matches Some((_, m1)) ==> m1.env.current == m.env.current,
{
}

} // verus!
