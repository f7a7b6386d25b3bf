//! The syntax tree that the parser builds and the evaluator walks.
use crate::number::Number;
use std::rc::Rc;
use vstd::prelude::*;

verus! {

/// A constant written in the source.
#[derive(Clone, Debug, PartialEq)]
pub enum Literal {
    Number(Number),
    String(String),
    Boolean(bool),
    Nil,
}

#[derive(Clone, Copy, Debug, PartialEq, Eq, Structural)]
pub enum UnaryOp {
    /// `-x`
    Negate,
    /// `!x`
    Not,
}

#[derive(Clone, Copy, Debug, PartialEq, Eq, Structural)]
pub enum BinaryOp {
    Add,
    Subtract,
    Multiply,
    Divide,
    Greater,
    GreaterEqual,
    Less,
    LessEqual,
    Equal,
    NotEqual,
}

#[derive(Clone, Copy, Debug, PartialEq, Eq, Structural)]
pub enum LogicalOp {
    And,
    Or,
}

/// An expression; each node owns its children.
#[derive(Debug, PartialEq)]
pub enum Expr {
    Literal(Literal),
    Variable(String),
    Assign(String, Box<Expr>),
    Unary(UnaryOp, Box<Expr>),
    Binary(Box<Expr>, BinaryOp, Box<Expr>),
    Logical(Box<Expr>, LogicalOp, Box<Expr>),
    Grouping(Box<Expr>),
    Call(Box<Expr>, Vec<Expr>),
    /// `object.name`
    Get(Box<Expr>, String),
    /// `object.name(arguments)`
    Method(Box<Expr>, String, Vec<Expr>),
    /// `[elements]`
    Array(Vec<Expr>),
}

/// A function declaration: its name, parameter names and body.
#[derive(Debug, PartialEq)]
pub struct FunDecl {
    pub name: String,
    pub params: Vec<String>,
    pub body: Vec<Stmt>,
}

/// A statement.
#[derive(Debug, PartialEq)]
pub enum Stmt {
    Expression(Expr),
    Print(Expr),
    Var(String, Option<Expr>),
    Block(Vec<Stmt>),
    If(Expr, Box<Stmt>, Option<Box<Stmt>>),
    While(Expr, Box<Stmt>),
    Function(Rc<FunDecl>),
    Return(Option<Expr>),
}

} // verus!

verus! {

/// What an expression is, for contracts: the tree with its lists as
/// sequences.
pub enum ExprV {
    Literal(Literal),
    Variable(String),
    Assign(String, Box<ExprV>),
    Unary(UnaryOp, Box<ExprV>),
    Binary(Box<ExprV>, BinaryOp, Box<ExprV>),
    Logical(Box<ExprV>, LogicalOp, Box<ExprV>),
    Grouping(Box<ExprV>),
    Call(Box<ExprV>, Seq<ExprV>),
    Get(Box<ExprV>, String),
    Method(Box<ExprV>, String, Seq<ExprV>),
    Array(Seq<ExprV>),
}

/// What a statement is, for contracts.
pub enum StmtV {
    Expression(ExprV),
    Print(ExprV),
    Var(String, Option<ExprV>),
    Block(Seq<StmtV>),
    If(ExprV, Box<StmtV>, Option<Box<StmtV>>),
    While(ExprV, Box<StmtV>),
    Function(String, Seq<String>, Seq<StmtV>),
    Return(Option<ExprV>),
}

pub open spec fn exprs_view(s: Seq<Expr>) -> Seq<ExprV>
    decreases s,
{
    if s.len() == 0 {
        Seq::empty()
    } else {
        exprs_view(s.drop_last()).push(s.last().view())
    }
}

pub proof fn lemma_exprs_view_len(s: Seq<Expr>)
    ensures
        exprs_view(s).len() == s.len(),
    decreases s.len(),
{
    if s.len() > 0 {
        lemma_exprs_view_len(s.drop_last());
    }
}

pub open spec fn stmts_view(s: Seq<Stmt>) -> Seq<StmtV>
    decreases s,
{
    if s.len() == 0 {
        Seq::empty()
    } else {
        stmts_view(s.drop_last()).push(s.last().view())
    }
}

impl Expr {
    pub open spec fn view(&self) -> ExprV
        decreases self,
    {
        match self {
            Expr::Literal(l) => ExprV::Literal(*l),
            Expr::Variable(n) => ExprV::Variable(*n),
            Expr::Assign(n, v) => ExprV::Assign(*n, Box::new(v.view())),
            Expr::Unary(op, x) => ExprV::Unary(*op, Box::new(x.view())),
            Expr::Binary(l, op, r) => ExprV::Binary(Box::new(l.view()), *op, Box::new(r.view())),
            Expr::Logical(l, op, r) => ExprV::Logical(Box::new(l.view()), *op, Box::new(r.view())),
            Expr::Grouping(x) => ExprV::Grouping(Box::new(x.view())),
            Expr::Call(c, args) => ExprV::Call(Box::new(c.view()), exprs_view(args@)),
            Expr::Get(o, n) => ExprV::Get(Box::new(o.view()), *n),
            Expr::Method(o, n, args) => ExprV::Method(Box::new(o.view()), *n, exprs_view(args@)),
            Expr::Array(xs) => ExprV::Array(exprs_view(xs@)),
        }
    }
}

impl Stmt {
    pub open spec fn view(&self) -> StmtV
        decreases self,
    {
        match self {
            Stmt::Expression(e) => StmtV::Expression(e.view()),
            Stmt::Print(e) => StmtV::Print(e.view()),
            Stmt::Var(n, init) => StmtV::Var(
                *n,
                match init {
                    Some(e) => Some(e.view()),
                    None => None,
                },
            ),
            Stmt::Block(ss) => StmtV::Block(stmts_view(ss@)),
            Stmt::If(c, t, e) => StmtV::If(
                c.view(),
                Box::new(t.view()),
                match e {
                    Some(s) => Some(Box::new(s.view())),
                    None => None,
                },
            ),
            Stmt::While(c, b) => StmtV::While(c.view(), Box::new(b.view())),
            Stmt::Function(d) => StmtV::Function(d.name, d.params@, stmts_view(d.body@)),
            Stmt::Return(v) => StmtV::Return(
                match v {
                    Some(e) => Some(e.view()),
                    None => None,
                },
            ),
        }
    }
}

} // verus!
