//! The grammar, as spec functions: what each rule reads from a position of
//! a token sequence, where it stops, and the tree or the error it yields.
//! Trees are given by their views, with sequences for lists. An outcome of
//! `None` stands only where a rule would fail to move forward, which the
//! progress of every rule rules out.
use crate::ast::{stmts_view, BinaryOp, Expr, ExprV, Literal, LogicalOp, Stmt, StmtV, UnaryOp};
use crate::parser::{ParseError, MAX_NESTING, MAX_PARAMETERS};
use crate::token::{Token, TokenType};
use vstd::prelude::*;

verus! {

/// What a rule yields, and the position where it stopped.
pub type Parsed<T> = Option<(Result<T, Seq<char>>, int)>;

pub open spec fn code(t: TokenType) -> u8 {
    match t {
        TokenType::LeftParen => 0,
        TokenType::RightParen => 1,
        TokenType::LeftBrace => 2,
        TokenType::RightBrace => 3,
        TokenType::Comma => 4,
        TokenType::Semicolon => 5,
        TokenType::Minus => 6,
        TokenType::Plus => 7,
        TokenType::Slash => 8,
        TokenType::Star => 9,
        TokenType::Bang => 10,
        TokenType::BangEqual => 11,
        TokenType::Equal => 12,
        TokenType::EqualEqual => 13,
        TokenType::Greater => 14,
        TokenType::GreaterEqual => 15,
        TokenType::Less => 16,
        TokenType::LessEqual => 17,
        TokenType::Identifier(_) => 18,
        TokenType::String(_) => 19,
        TokenType::Number(_) => 20,
        TokenType::And => 21,
        TokenType::Else => 22,
        TokenType::False => 23,
        TokenType::Fun => 24,
        TokenType::If => 25,
        TokenType::Nil => 26,
        TokenType::Or => 27,
        TokenType::Print => 28,
        TokenType::Return => 29,
        TokenType::True => 30,
        TokenType::Var => 31,
        TokenType::While => 32,
        TokenType::Newline => 33,
        TokenType::EOF => 34,
    }
}

/// Whether the token at `pos` is of the type of `t` (and not the end).
pub open spec fn at(toks: Seq<Token>, pos: int, t: TokenType) -> bool {
    0 <= pos < toks.len() && !(toks[pos].token_type is EOF) && code(toks[pos].token_type) == code(t)
}

/// The first position at or after `pos` that is not a line break.
pub open spec fn skip(toks: Seq<Token>, pos: int) -> int
    decreases toks.len() - pos,
{
    if 0 <= pos < toks.len() && toks[pos].token_type is Newline {
        skip(toks, pos + 1)
    } else {
        pos
    }
}

pub proof fn lemma_skip(toks: Seq<Token>, pos: int)
    ensures
        skip(toks, pos) >= pos,
    decreases toks.len() - pos,
{
    if 0 <= pos < toks.len() && toks[pos].token_type is Newline {
        lemma_skip(toks, pos + 1);
    }
}

pub open spec fn fail<T>(msg: Seq<char>, pos: int) -> Parsed<T> {
    Some((Err(msg), pos))
}

/// Whether a parser's expression and position agree with what a rule yields.
pub open spec fn agrees(r: Result<Expr, ParseError>, pos: int, spec: Parsed<ExprV>) -> bool {
    match spec {
        Some((res, p)) => pos == p && match (r, res) {
            (Ok(a), Ok(b)) => a.view() == b,
            (Err(e), Err(m)) => e.message@ == m && e.token_index == p,
            _ => false,
        },
        None => true,
    }
}

/// Whether a parser's statement and position agree with what a rule yields.
pub open spec fn agrees_stmt(r: Result<Stmt, ParseError>, pos: int, spec: Parsed<StmtV>) -> bool {
    match spec {
        Some((res, p)) => pos == p && match (r, res) {
            (Ok(a), Ok(b)) => a.view() == b,
            (Err(e), Err(m)) => e.message@ == m && e.token_index == p,
            _ => false,
        },
        None => true,
    }
}

/// Whether a parser's statements and position agree with what a rule yields.
pub open spec fn agrees_stmts(r: Result<Vec<Stmt>, ParseError>, pos: int, spec: Parsed<Seq<StmtV>>) -> bool {
    match spec {
        Some((res, p)) => pos == p && match (r, res) {
            (Ok(a), Ok(b)) => stmts_view(a@) == b,
            (Err(e), Err(m)) => e.message@ == m && e.token_index == p,
            _ => false,
        },
        None => true,
    }
}

/// Whether a parser's list and position agree with what a rule yields.
pub open spec fn agrees_seq<T>(r: Result<Vec<T>, ParseError>, pos: int, spec: Parsed<Seq<T>>) -> bool {
    match spec {
        Some((res, p)) => pos == p && match (r, res) {
            (Ok(a), Ok(b)) => a@ == b,
            (Err(e), Err(m)) => e.message@ == m && e.token_index == p,
            _ => false,
        },
        None => true,
    }
}

pub open spec fn too_deep<T>(pos: int) -> Parsed<T> {
    fail("Too deeply nested."@, pos)
}

/// expression := assignment
pub open spec fn expression(toks: Seq<Token>, pos: int, d: nat) -> Parsed<ExprV>
    decreases d, 3nat, 0int,
{
    if d == 0 {
        too_deep(pos)
    } else {
        assignment(toks, pos, (d - 1) as nat)
    }
}

/// assignment := or ( "=" assignment )?, where the target must be a name.
pub open spec fn assignment(toks: Seq<Token>, pos: int, d: nat) -> Parsed<ExprV>
    decreases d, 3nat, 0int,
{
    if d == 0 {
        too_deep(pos)
    } else {
        let d1 = (d - 1) as nat;
        match logic_or(toks, pos, d1) {
            Some((Ok(e), p1)) => if at(toks, p1, TokenType::Equal) {
                match assignment(toks, skip(toks, p1 + 1), d1) {
                    Some((Ok(v), p3)) => match e {
                        ExprV::Variable(n) => Some((Ok(ExprV::Assign(n, Box::new(v))), p3)),
                        _ => fail("Invalid assignment target."@, p3),
                    },
                    other => other,
                }
            } else {
                Some((Ok(e), p1))
            },
            other => other,
        }
    }
}

/// or := and ( "or" and )*
pub open spec fn logic_or(toks: Seq<Token>, pos: int, d: nat) -> Parsed<ExprV>
    decreases d, 3nat, 0int,
{
    if d == 0 {
        too_deep(pos)
    } else {
        match logic_and(toks, pos, (d - 1) as nat) {
            Some((Ok(e), p1)) => or_rest(toks, e, p1, d),
            other => other,
        }
    }
}

pub open spec fn or_rest(toks: Seq<Token>, left: ExprV, pos: int, d: nat) -> Parsed<ExprV>
    decreases d, 2nat, toks.len() - pos,
{
    if d == 0 {
        None
    } else if at(toks, pos, TokenType::Or) {
        match logic_and(toks, skip(toks, pos + 1), (d - 1) as nat) {
            Some((Ok(r), p3)) => if pos < p3 <= toks.len() {
                or_rest(toks, ExprV::Logical(Box::new(left), LogicalOp::Or, Box::new(r)), p3, d)
            } else {
                None
            },
            other => other,
        }
    } else {
        Some((Ok(left), pos))
    }
}

/// and := equality ( "and" equality )*
pub open spec fn logic_and(toks: Seq<Token>, pos: int, d: nat) -> Parsed<ExprV>
    decreases d, 3nat, 0int,
{
    if d == 0 {
        too_deep(pos)
    } else {
        match binary_rule(0, toks, pos, (d - 1) as nat) {
            Some((Ok(e), p1)) => and_rest(toks, e, p1, d),
            other => other,
        }
    }
}

pub open spec fn and_rest(toks: Seq<Token>, left: ExprV, pos: int, d: nat) -> Parsed<ExprV>
    decreases d, 2nat, toks.len() - pos,
{
    if d == 0 {
        None
    } else if at(toks, pos, TokenType::And) {
        match binary_rule(0, toks, skip(toks, pos + 1), (d - 1) as nat) {
            Some((Ok(r), p3)) => if pos < p3 <= toks.len() {
                and_rest(toks, ExprV::Logical(Box::new(left), LogicalOp::And, Box::new(r)), p3, d)
            } else {
                None
            },
            other => other,
        }
    } else {
        Some((Ok(left), pos))
    }
}

/// The operator of binary level `level` at `pos`: 0 equality, 1
/// comparison, 2 terms, 3 factors.
pub open spec fn op_at(level: nat, toks: Seq<Token>, pos: int) -> Option<BinaryOp> {
    if level == 0 {
        if at(toks, pos, TokenType::EqualEqual) { Some(BinaryOp::Equal) }
        else if at(toks, pos, TokenType::BangEqual) { Some(BinaryOp::NotEqual) }
        else { None }
    } else if level == 1 {
        if at(toks, pos, TokenType::Greater) { Some(BinaryOp::Greater) }
        else if at(toks, pos, TokenType::GreaterEqual) { Some(BinaryOp::GreaterEqual) }
        else if at(toks, pos, TokenType::Less) { Some(BinaryOp::Less) }
        else if at(toks, pos, TokenType::LessEqual) { Some(BinaryOp::LessEqual) }
        else { None }
    } else if level == 2 {
        if at(toks, pos, TokenType::Minus) { Some(BinaryOp::Subtract) }
        else if at(toks, pos, TokenType::Plus) { Some(BinaryOp::Add) }
        else { None }
    } else {
        if at(toks, pos, TokenType::Slash) { Some(BinaryOp::Divide) }
        else if at(toks, pos, TokenType::Star) { Some(BinaryOp::Multiply) }
        else { None }
    }
}

/// The operands of binary level `level`: the next level, or unary.
pub open spec fn operand(level: nat, toks: Seq<Token>, pos: int, d: nat) -> Parsed<ExprV>
    decreases d, 2nat, 0int,
{
    if level < 3 {
        binary_rule(level + 1, toks, pos, d)
    } else {
        unary(toks, pos, d)
    }
}

pub proof fn lemma_operand(level: nat, toks: Seq<Token>)
    ensures
        forall|p: int, d: nat|
            #[trigger] operand(level, toks, p, d) == if level < 3 {
                binary_rule(level + 1, toks, p, d)
            } else {
                unary(toks, p, d)
            },
{
}

/// level := operand ( op operand )*, left-associative.
pub open spec fn binary_rule(level: nat, toks: Seq<Token>, pos: int, d: nat) -> Parsed<ExprV>
    decreases d, 1nat, 3 - level,
{
    if d == 0 {
        too_deep(pos)
    } else {
        match operand(level, toks, pos, (d - 1) as nat) {
            Some((Ok(e), p1)) => binary_rest(level, toks, e, p1, d),
            other => other,
        }
    }
}

pub open spec fn binary_rest(level: nat, toks: Seq<Token>, left: ExprV, pos: int, d: nat) -> Parsed<ExprV>
    decreases d, 0nat, toks.len() - pos,
{
    if d == 0 {
        None
    } else {
        match op_at(level, toks, pos) {
            None => Some((Ok(left), pos)),
            Some(op) => match operand(level, toks, skip(toks, pos + 1), (d - 1) as nat) {
                Some((Ok(r), p3)) => if pos < p3 <= toks.len() {
                    binary_rest(level, toks, ExprV::Binary(Box::new(left), op, Box::new(r)), p3, d)
                } else {
                    None
                },
                other => other,
            },
        }
    }
}

/// unary := ( "!" | "-" ) unary | call
pub open spec fn unary(toks: Seq<Token>, pos: int, d: nat) -> Parsed<ExprV>
    decreases d, 1nat, 0int,
{
    if d == 0 {
        too_deep(pos)
    } else if at(toks, pos, TokenType::Bang) {
        match unary(toks, pos + 1, (d - 1) as nat) {
            Some((Ok(e), p)) => Some((Ok(ExprV::Unary(UnaryOp::Not, Box::new(e))), p)),
            other => other,
        }
    } else if at(toks, pos, TokenType::Minus) {
        match unary(toks, pos + 1, (d - 1) as nat) {
            Some((Ok(e), p)) => Some((Ok(ExprV::Unary(UnaryOp::Negate, Box::new(e))), p)),
            other => other,
        }
    } else {
        call(toks, pos, (d - 1) as nat)
    }
}

/// call := primary ( "(" arguments ")" )*
pub open spec fn call(toks: Seq<Token>, pos: int, d: nat) -> Parsed<ExprV>
    decreases d, 1nat, 0int,
{
    if d == 0 {
        too_deep(pos)
    } else {
        match primary(toks, pos, (d - 1) as nat) {
            Some((Ok(e), p1)) => call_rest(toks, e, p1, d),
            other => other,
        }
    }
}

pub open spec fn call_rest(toks: Seq<Token>, callee: ExprV, pos: int, d: nat) -> Parsed<ExprV>
    decreases d, 0nat, toks.len() - pos,
{
    if d == 0 {
        None
    } else if at(toks, pos, TokenType::LeftParen) {
        match arguments(toks, pos + 1, (d - 1) as nat) {
            Some((Ok(args), p2)) => if pos < p2 <= toks.len() {
                call_rest(toks, ExprV::Call(Box::new(callee), args), p2, d)
            } else {
                None
            },
            Some((Err(m), p2)) => fail(m, p2),
            None => None,
        }
    } else {
        Some((Ok(callee), pos))
    }
}

/// primary := literal | name | "(" expression ")"
pub open spec fn primary(toks: Seq<Token>, pos: int, d: nat) -> Parsed<ExprV>
    decreases d, 1nat, 0int,
{
    if d == 0 {
        too_deep(pos)
    } else if !(0 <= pos < toks.len()) {
        None
    } else {
        match toks[pos].token_type {
            TokenType::False => Some((Ok(ExprV::Literal(Literal::Boolean(false))), pos + 1)),
            TokenType::True => Some((Ok(ExprV::Literal(Literal::Boolean(true))), pos + 1)),
            TokenType::Nil => Some((Ok(ExprV::Literal(Literal::Nil)), pos + 1)),
            TokenType::Number(n) => Some((Ok(ExprV::Literal(Literal::Number(n))), pos + 1)),
            TokenType::String(s) => Some((Ok(ExprV::Literal(Literal::String(s))), pos + 1)),
            TokenType::Identifier(name) => Some((Ok(ExprV::Variable(name)), pos + 1)),
            _ => if at(toks, pos, TokenType::LeftParen) {
                match expression(toks, skip(toks, pos + 1), (d - 1) as nat) {
                    Some((Ok(inner), p2)) => {
                        let p3 = skip(toks, p2);
                        if at(toks, p3, TokenType::RightParen) {
                            Some((Ok(ExprV::Grouping(Box::new(inner))), p3 + 1))
                        } else {
                            fail("Expect ')' after expression."@, p3)
                        }
                    },
                    other => other,
                }
            } else {
                fail("Expect expression."@, pos)
            },
        }
    }
}

/// The `;` or line break that ends a statement.
pub open spec fn terminator(toks: Seq<Token>, pos: int, msg: Seq<char>) -> Parsed<()> {
    if at(toks, pos, TokenType::Semicolon) || at(toks, pos, TokenType::Newline) {
        Some((Ok(()), pos + 1))
    } else {
        fail(msg, pos)
    }
}

/// What follows `var`: a name, optionally `=` and an expression, then the end
/// of the statement.
pub open spec fn var_declaration(toks: Seq<Token>, pos: int) -> Parsed<StmtV> {
    if !(0 <= pos < toks.len()) {
        None
    } else {
        match toks[pos].token_type {
            TokenType::Identifier(name) => {
                let msg = "Expect ';' or newline after variable declaration."@;
                if at(toks, pos + 1, TokenType::Equal) {
                    match expression(toks, skip(toks, pos + 2), MAX_NESTING as nat) {
                        Some((Ok(e), p2)) => match terminator(toks, p2, msg) {
                            Some((Ok(_), p3)) => Some((Ok(StmtV::Var(name, Some(e))), p3)),
                            Some((Err(m), p3)) => fail(m, p3),
                            None => None,
                        },
                        Some((Err(m), p2)) => fail(m, p2),
                        None => None,
                    }
                } else {
                    match terminator(toks, pos + 1, msg) {
                        Some((Ok(_), p3)) => Some((Ok(StmtV::Var(name, None)), p3)),
                        Some((Err(m), p3)) => fail(m, p3),
                        None => None,
                    }
                }
            },
            _ => fail("Expect variable name."@, pos),
        }
    }
}

/// An expression, then the end of the statement.
pub open spec fn expression_then_end(toks: Seq<Token>, pos: int, d: nat, msg: Seq<char>) -> Parsed<ExprV> {
    match expression(toks, pos, d) {
        Some((Ok(e), p2)) => match terminator(toks, p2, msg) {
            Some((Ok(_), p3)) => Some((Ok(e), p3)),
            Some((Err(m), p3)) => fail(m, p3),
            None => None,
        },
        other => other,
    }
}

/// declaration := "var" ... | "fun" ... | statement
#[verifier::opaque]
pub open spec fn declaration(toks: Seq<Token>, pos: int, d: nat) -> Parsed<StmtV>
    decreases d, 1nat, 0int,
{
    if d == 0 {
        too_deep(pos)
    } else {
        let p = skip(toks, pos);
        if at(toks, p, TokenType::Var) {
            var_declaration(toks, p + 1)
        } else if at(toks, p, TokenType::Fun) {
            match function(toks, p + 1, (d - 1) as nat) {
                Some((Ok((n, ps, body)), q)) => Some((Ok(StmtV::Function(n, ps, body)), q)),
                Some((Err(m), q)) => fail(m, q),
                None => None,
            }
        } else {
            statement(toks, p, (d - 1) as nat)
        }
    }
}

/// statement := print | if | while | return | block | expression
/// statement
pub open spec fn statement(toks: Seq<Token>, pos: int, d: nat) -> Parsed<StmtV>
    decreases d, 0nat, 0int,
{
    if d == 0 {
        too_deep(pos)
    } else {
        let d1 = (d - 1) as nat;
        let p = skip(toks, pos);
        if at(toks, p, TokenType::Print) {
            match expression_then_end(toks, p + 1, d1, "Expect ';' or newline after value."@) {
                Some((Ok(e), q)) => Some((Ok(StmtV::Print(e)), q)),
                Some((Err(m), q)) => fail(m, q),
                None => None,
            }
        } else if at(toks, p, TokenType::If) {
            if_statement(toks, p + 1, d1)
        } else if at(toks, p, TokenType::While) {
            while_statement(toks, p + 1, d1)
        } else if at(toks, p, TokenType::Return) {
            return_statement(toks, p + 1, d1)
        } else if at(toks, p, TokenType::LeftBrace) {
            match block(toks, p + 1, d1) {
                Some((Ok(ss), q)) => Some((Ok(StmtV::Block(ss)), q)),
                Some((Err(m), q)) => fail(m, q),
                None => None,
            }
        } else {
            match expression_then_end(toks, p, d1, "Expect ';' or newline after expression."@) {
                Some((Ok(e), q)) => Some((Ok(StmtV::Expression(e)), q)),
                Some((Err(m), q)) => fail(m, q),
                None => None,
            }
        }
    }
}

/// What follows `if`: `(` condition `)` statement, then `else` and a
/// statement if one follows, across line breaks.
pub open spec fn if_statement(toks: Seq<Token>, pos: int, d: nat) -> Parsed<StmtV>
    decreases d, 0nat, 0int,
{
    if d == 0 {
        too_deep(pos)
    } else {
        let d2 = (d - 1) as nat;
        if !at(toks, pos, TokenType::LeftParen) {
            fail("Expect '(' after 'if'."@, pos)
        } else {
            match expression(toks, pos + 1, d2) {
                Some((Ok(c), p2)) => if !at(toks, p2, TokenType::RightParen) {
                    fail("Expect ')' after if condition."@, p2)
                } else {
                    match statement(toks, p2 + 1, d2) {
                        Some((Ok(t), p3)) => {
                            let p4 = skip(toks, p3);
                            if at(toks, p4, TokenType::Else) {
                                match statement(toks, p4 + 1, d2) {
                                    Some((Ok(e), p5)) => Some(
                                        (Ok(StmtV::If(c, Box::new(t), Some(Box::new(e)))), p5),
                                    ),
                                    other => other,
                                }
                            } else {
                                Some((Ok(StmtV::If(c, Box::new(t), None)), p3))
                            }
                        },
                        other => other,
                    }
                },
                Some((Err(m), q)) => fail(m, q),
                None => None,
            }
        }
    }
}

/// What follows `while`: `(` condition `)` statement.
pub open spec fn while_statement(toks: Seq<Token>, pos: int, d: nat) -> Parsed<StmtV>
    decreases d, 0nat, 0int,
{
    if d == 0 {
        too_deep(pos)
    } else {
        let d2 = (d - 1) as nat;
        if !at(toks, pos, TokenType::LeftParen) {
            fail("Expect '(' after 'while'."@, pos)
        } else {
            match expression(toks, pos + 1, d2) {
                Some((Ok(c), p2)) => if !at(toks, p2, TokenType::RightParen) {
                    fail("Expect ')' after condition."@, p2)
                } else {
                    match statement(toks, p2 + 1, d2) {
                        Some((Ok(b), p3)) => Some((Ok(StmtV::While(c, Box::new(b))), p3)),
                        other => other,
                    }
                },
                Some((Err(m), q)) => fail(m, q),
                None => None,
            }
        }
    }
}

/// What follows `return`: an optional expression, then the end of the statement.
pub open spec fn return_statement(toks: Seq<Token>, pos: int, d: nat) -> Parsed<StmtV>
    decreases d, 0nat, 0int,
{
    if d == 0 {
        too_deep(pos)
    } else {
        let msg = "Expect ';' or newline after return value."@;
        if at(toks, pos, TokenType::Semicolon) || at(toks, pos, TokenType::Newline) {
            Some((Ok(StmtV::Return(None)), pos + 1))
        } else {
            match expression_then_end(toks, pos, (d - 1) as nat, msg) {
                Some((Ok(e), q)) => Some((Ok(StmtV::Return(Some(e))), q)),
                Some((Err(m), q)) => fail(m, q),
                None => None,
            }
        }
    }
}

/// program := declaration* EOF, with line breaks between declarations.
pub open spec fn program(toks: Seq<Token>, pos: int, done: Seq<StmtV>) -> Parsed<Seq<StmtV>>
    decreases toks.len() - pos,
{
    let p = skip(toks, pos);
    if !(pos <= p < toks.len()) {
        None
    } else if toks[p].token_type is EOF {
        Some((Ok(done), p))
    } else {
        match declaration(toks, p, MAX_NESTING as nat) {
            Some((Ok(s), p2)) => if p < p2 <= toks.len() {
                program(toks, p2, done.push(s))
            } else {
                None
            },
            Some((Err(m), p2)) => fail(m, p2),
            None => None,
        }
    }
}

/// The arguments of a call, after its `(`, and the `)`.
pub open spec fn arguments(toks: Seq<Token>, pos: int, d: nat) -> Parsed<Seq<ExprV>>
    decreases d, 5nat, 0int,
{
    if d == 0 {
        too_deep(pos)
    } else {
        let p = skip(toks, pos);
        if at(toks, p, TokenType::RightParen) {
            Some((Ok(Seq::empty()), p + 1))
        } else {
            argument_items(toks, p, Seq::empty(), (d - 1) as nat)
        }
    }
}

/// The arguments from `pos` on, after the arguments `done`.
#[verifier::opaque]
pub open spec fn argument_items(toks: Seq<Token>, pos: int, done: Seq<ExprV>, d: nat) -> Parsed<Seq<ExprV>>
    decreases d, 4nat, toks.len() - pos,
{
    let p = skip(toks, pos);
    if !(pos <= p < toks.len()) {
        None
    } else {
        match expression(toks, p, d) {
            Some((Ok(e), p2)) => {
                let p3 = skip(toks, p2);
                if at(toks, p3, TokenType::Comma) {
                    if p < p3 + 1 <= toks.len() {
                        argument_items(toks, p3 + 1, done.push(e), d)
                    } else {
                        None
                    }
                } else if at(toks, p3, TokenType::RightParen) {
                    Some((Ok(done.push(e)), p3 + 1))
                } else {
                    fail("Expect ')' after arguments."@, p3)
                }
            },
            Some((Err(m), p2)) => fail(m, p2),
            None => None,
        }
    }
}

/// The statements of a block, after its `{`, and the `}`.
pub open spec fn block(toks: Seq<Token>, pos: int, d: nat) -> Parsed<Seq<StmtV>>
    decreases d, 0nat, 0int,
{
    if d == 0 {
        too_deep(pos)
    } else {
        block_items(toks, pos, Seq::empty(), (d - 1) as nat)
    }
}

/// The statements of a block from `pos` on, after the statements `done`.
#[verifier::opaque]
pub open spec fn block_items(toks: Seq<Token>, pos: int, done: Seq<StmtV>, d: nat) -> Parsed<Seq<StmtV>>
    decreases d, 2nat, toks.len() - pos,
{
    let p = skip(toks, pos);
    if !(pos <= p < toks.len()) {
        None
    } else if at(toks, p, TokenType::RightBrace) {
        Some((Ok(done), p + 1))
    } else if toks[p].token_type is EOF {
        fail("Expect '}' after block."@, p)
    } else {
        match declaration(toks, p, d) {
            Some((Ok(s), p2)) => if p < p2 <= toks.len() {
                block_items(toks, p2, done.push(s), d)
            } else {
                None
            },
            Some((Err(m), p2)) => fail(m, p2),
            None => None,
        }
    }
}

/// The parameter names of a function, after its `(`, and the `)`.
pub open spec fn parameters(toks: Seq<Token>, pos: int) -> Parsed<Seq<String>> {
    if at(toks, pos, TokenType::RightParen) {
        Some((Ok(Seq::empty()), pos + 1))
    } else {
        parameter_items(toks, pos, Seq::empty())
    }
}

/// The parameter names from `pos` on, after the names `done`.
pub open spec fn parameter_items(toks: Seq<Token>, pos: int, done: Seq<String>) -> Parsed<Seq<String>>
    decreases toks.len() - pos,
{
    if !(0 <= pos < toks.len()) {
        None
    } else if done.len() >= MAX_PARAMETERS {
        fail("Cannot have more than 255 parameters."@, pos)
    } else {
        match toks[pos].token_type {
            TokenType::Identifier(n) => if at(toks, pos + 1, TokenType::Comma) {
                parameter_items(toks, pos + 2, done.push(n))
            } else if at(toks, pos + 1, TokenType::RightParen) {
                Some((Ok(done.push(n)), pos + 2))
            } else {
                fail("Expect ')' after parameters."@, pos + 1)
            },
            _ => fail("Expect parameter name."@, pos),
        }
    }
}

/// What follows `fun`: a name, the parameters and the body, as the name, the
/// parameter names and the body's statements.
pub open spec fn function(toks: Seq<Token>, pos: int, d: nat) -> Parsed<(String, Seq<String>, Seq<StmtV>)>
    decreases d, 0nat, 0int,
{
    if d == 0 {
        too_deep(pos)
    } else if !(0 <= pos < toks.len()) {
        None
    } else {
        match toks[pos].token_type {
            TokenType::Identifier(name) => if !at(toks, pos + 1, TokenType::LeftParen) {
                fail("Expect '(' after function name."@, pos + 1)
            } else {
                match parameters(toks, pos + 2) {
                    Some((Ok(ps), p2)) => if !at(toks, p2, TokenType::LeftBrace) {
                        fail("Expect '{' before function body."@, p2)
                    } else {
                        match block(toks, p2 + 1, (d - 1) as nat) {
                            Some((Ok(body), p3)) => Some((Ok((name, ps, body)), p3)),
                            Some((Err(m), p3)) => fail(m, p3),
                            None => None,
                        }
                    },
                    Some((Err(m), q)) => fail(m, q),
                    None => None,
                }
            },
            _ => fail("Expect function name."@, pos),
        }
    }
}


/// One step of `argument_items`.
pub proof fn lemma_argument_items(toks: Seq<Token>, pos: int, done: Seq<ExprV>, d: nat)
    ensures
        argument_items(toks, pos, done, d) == ({
            let p = skip(toks, pos);
            if !(pos <= p < toks.len()) {
                None
            } else {
                match expression(toks, p, d) {
                    Some((Ok(e), p2)) => {
                        let p3 = skip(toks, p2);
                        if at(toks, p3, TokenType::Comma) {
                            if p < p3 + 1 <= toks.len() {
                                argument_items(toks, p3 + 1, done.push(e), d)
                            } else {
                                None
                            }
                        } else if at(toks, p3, TokenType::RightParen) {
                            Some((Ok(done.push(e)), p3 + 1))
                        } else {
                            fail("Expect ')' after arguments."@, p3)
                        }
                    },
                    Some((Err(m), p2)) => fail(m, p2),
                    None => None,
                }
            }
        }),
{
    reveal(argument_items);
}


/// One step of `block_items`.
pub proof fn lemma_block_items(toks: Seq<Token>, pos: int, done: Seq<StmtV>, d: nat)
    ensures
        block_items(toks, pos, done, d) == ({
            let p = skip(toks, pos);
            if !(pos <= p < toks.len()) {
                None
            } else if at(toks, p, TokenType::RightBrace) {
                Some((Ok(done), p + 1))
            } else if toks[p].token_type is EOF {
                fail("Expect '}' after block."@, p)
            } else {
                match declaration(toks, p, d) {
                    Some((Ok(s), p2)) => if p < p2 <= toks.len() {
                        block_items(toks, p2, done.push(s), d)
                    } else {
                        None
                    },
                    Some((Err(m), p2)) => fail(m, p2),
                    None => None,
                }
            }
        }),
{
    reveal(declaration);
    reveal_with_fuel(block_items, 2);
}

} // verus!
