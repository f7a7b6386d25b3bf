//! The parser: tokens to statements, by recursive descent.
//!
//! Precedence, from low to high: assignment, `or`, `and`, equality,
//! comparison, `+ -`, `* /`, unary `! -`, call, primary. A statement ends
//! with `;` or a line break; line breaks between statements, after an
//! operator and inside parentheses are skipped. Property access, method
//! calls and array literals have no syntax among the tokens; the evaluator
//! still runs such trees when a host builds them.
use crate::ast::{
    exprs_view, lemma_exprs_view_len, stmts_view, BinaryOp, Expr, ExprV, FunDecl, Literal, LogicalOp, Stmt, StmtV, UnaryOp,
};
use crate::grammar::{
    agrees, agrees_seq, agrees_stmt, agrees_stmts, call_rest, lemma_argument_items, lemma_block_items, and_rest, argument_items, arguments, assignment, at, binary_rest,
    binary_rule, block, block_items, call, code, declaration, expression, fail, function,
    if_statement, lemma_operand, lemma_skip, logic_and, logic_or, op_at, operand, or_rest,
    parameter_items, parameters, primary, program, return_statement, skip, statement,
    terminator, unary, var_declaration, while_statement,
};
use crate::token::{Token, TokenType};
use std::rc::Rc;
use vstd::prelude::*;

verus! {

/// How deeply grammar rules may nest before the parser gives up.
pub const MAX_NESTING: usize = 512;

/// The most parameters a function may declare.
pub const MAX_PARAMETERS: usize = 255;

/// The first grammar violation: what was expected, and the index of the
/// token where parsing stopped.
#[derive(Clone, Debug, PartialEq)]
pub struct ParseError {
    pub message: String,
    pub token_index: usize,
}

pub struct Parser {
    /// The tokens being read; they end with `EOF`.
    pub tokens: Vec<Token>,
    /// Index of the next token to read.
    pub current: usize,
}

fn kind_code(t: &TokenType) -> (r: u8)
    ensures
        r == code(*t),
{
    match t {
        TokenType::LeftParen => 0,
        TokenType::RightParen => 1,
        TokenType::LeftBrace => 2,
        TokenType::RightBrace => 3,
        TokenType::Comma => 4,
        TokenType::Semicolon => 5,
        TokenType::Minus => 6,
        TokenType::Plus => 7,
        TokenType::Slash => 8,
        TokenType::Star => 9,
        TokenType::Bang => 10,
        TokenType::BangEqual => 11,
        TokenType::Equal => 12,
        TokenType::EqualEqual => 13,
        TokenType::Greater => 14,
        TokenType::GreaterEqual => 15,
        TokenType::Less => 16,
        TokenType::LessEqual => 17,
        TokenType::Identifier(_) => 18,
        TokenType::String(_) => 19,
        TokenType::Number(_) => 20,
        TokenType::And => 21,
        TokenType::Else => 22,
        TokenType::False => 23,
        TokenType::Fun => 24,
        TokenType::If => 25,
        TokenType::Nil => 26,
        TokenType::Or => 27,
        TokenType::Print => 28,
        TokenType::Return => 29,
        TokenType::True => 30,
        TokenType::Var => 31,
        TokenType::While => 32,
        TokenType::Newline => 33,
        TokenType::EOF => 34,
    }
}

impl Parser {
    pub open spec fn pos(&self) -> int {
        self.current as int
    }

    pub open spec fn toks(&self) -> Seq<Token> {
        self.tokens@
    }

    /// The tokens end with `EOF` and `current` is within them.
    pub open spec fn wf(&self) -> bool {
        &&& self.tokens@.len() >= 1
        &&& self.tokens@.last().token_type is EOF
        &&& self.current < self.tokens@.len()
    }

    /// Whether `next` is a later state of the parser `self`, on the same tokens.
    pub open spec fn moved_on(&self, next: &Parser) -> bool {
        &&& next.wf()
        &&& next.toks() == self.toks()
        &&& next.current >= self.current
    }

    /// A parser at the first of `tokens`, which end with `EOF` as the lexer
    /// leaves them.
    pub fn new(tokens: Vec<Token>) -> (r: Parser)
        requires
            tokens@.len() > 0,
            tokens@.last().token_type is EOF,
        ensures
            r.wf(),
            r.pos() == 0,
            r.toks() == tokens@,
            r.tokens == tokens,
    {
        Parser { tokens, current: 0 }
    }

    fn error(&self, message: &str) -> (r: ParseError)
        requires
            self.wf(),
        ensures
            r.token_index == self.pos(),
            r.message@ == message@,
    {
        ParseError { message: String::from_str(message), token_index: self.current }
    }

    pub fn is_at_end(&self) -> (r: bool)
        requires
            self.wf(),
        ensures
            r == (self.toks()[self.pos()].token_type is EOF),
    {
        matches!(self.tokens[self.current].token_type, TokenType::EOF)
    }

    pub fn peek(&self) -> (r: &Token)
        requires
            self.wf(),
        ensures
            *r == self.toks()[self.pos()],
    {
        &self.tokens[self.current]
    }

    /// The token before the current one.
    pub fn previous(&self) -> (r: &Token)
        requires
            self.wf(),
            self.pos() > 0,
        ensures
            *r == self.toks()[self.pos() - 1],
    {
        &self.tokens[self.current - 1]
    }

    /// Whether the current token is of the same type as `t` (any
    /// identifier matches an identifier); never at the end.
    pub fn check(&self, t: &TokenType) -> (r: bool)
        requires
            self.wf(),
        ensures
            r == at(self.toks(), self.pos(), *t),
    {
        if self.is_at_end() {
            return false;
        }
        kind_code(&self.tokens[self.current].token_type) == kind_code(t)
    }

    /// Moves past the current token unless it is the last.
    pub fn advance(&mut self) -> (r: &Token)
        requires
            old(self).wf(),
        ensures
            old(self).moved_on(final(self)),
            !(old(self).toks()[old(self).pos()].token_type is EOF) ==> final(self).pos() == old(self).pos() + 1,
    {
        let n = self.tokens.len();
        if !self.is_at_end() {
            assert(self.current + 1 < n);
            self.current = self.current + 1;
        }
        &self.tokens[self.current]
    }

    /// Moves past the current token if it is of one of the given types.
    pub fn match_token(&mut self, types: &[TokenType]) -> (r: bool)
        requires
            old(self).wf(),
        ensures
            old(self).moved_on(final(self)),
            r ==> final(self).pos() == old(self).pos() + 1,
            !r ==> final(self).pos() == old(self).pos(),
    {
        let mut k: usize = 0;
        while k < types.len()
            invariant
                self.wf(),
                self.toks() == old(self).toks(),
                self.pos() == old(self).pos(),
            decreases types.len() - k,
        {
            if self.check(&types[k]) {
                self.advance();
                return true;
            }
            k = k + 1;
        }
        false
    }

    fn match_one(&mut self, t: TokenType) -> (r: bool)
        requires
            old(self).wf(),
        ensures
            old(self).moved_on(final(self)),
            r == at(old(self).toks(), old(self).pos(), t),
            r ==> final(self).pos() == old(self).pos() + 1,
            !r ==> final(self).pos() == old(self).pos(),
    {
        if self.check(&t) {
            self.advance();
            true
        } else {
            false
        }
    }

    /// Moves past the current token if it is of type `t`; else the error
    /// `message`.
    pub fn consume(&mut self, t: TokenType, message: &str) -> (r: Result<Token, ParseError>)
        requires
            old(self).wf(),
        ensures
            old(self).moved_on(final(self)),
            (r is Ok) == at(old(self).toks(), old(self).pos(), t),
            r is Ok ==> final(self).pos() == old(self).pos() + 1,
            r matches Ok(tok) ==> tok == old(self).toks()[old(self).pos()],
            r matches Err(e) ==> e.token_index == final(self).pos() && e.message@ == message@
                && final(self).pos() == old(self).pos(),
    {
        if self.check(&t) {
            let tok = self.tokens[self.current].duplicate();
            self.advance();
            Ok(tok)
        } else {
            Err(self.error(message))
        }
    }

    pub fn skip_newlines(&mut self)
        requires
            old(self).wf(),
        ensures
            old(self).moved_on(final(self)),
            !(final(self).toks()[final(self).pos()].token_type is Newline),
            final(self).pos() == skip(old(self).toks(), old(self).pos()),
    {
        while matches!(self.tokens[self.current].token_type, TokenType::Newline)
            invariant
                old(self).moved_on(self),
                skip(old(self).toks(), old(self).pos()) == skip(self.toks(), self.pos()),
            decreases self.tokens.len() - self.current,
        {
            self.advance();
        }
    }

    fn identifier(&mut self, message: &str) -> (r: Result<String, ParseError>)
        requires
            old(self).wf(),
        ensures
            old(self).moved_on(final(self)),
            r is Ok ==> final(self).pos() == old(self).pos() + 1,
            r matches Err(e) ==> e.token_index == final(self).pos() && e.message@ == message@
                && final(self).pos() == old(self).pos(),
            match old(self).toks()[old(self).pos()].token_type {
                TokenType::Identifier(n) => r == Ok::<String, ParseError>(n),
                _ => r is Err,
            },
    {
        match &self.tokens[self.current].token_type {
            TokenType::Identifier(name) => {
                let n = name.clone();
                self.advance();
                Ok(n)
            },
            _ => Err(self.error(message)),
        }
    }

    /// Parses an expression.
    pub fn expression(&mut self, depth: usize) -> (r: Result<Expr, ParseError>)
        requires
            old(self).wf(),
        ensures
            agrees(r, final(self).pos(), expression(old(self).toks(), old(self).pos(), depth as nat)),
            old(self).moved_on(final(self)),
            r is Ok ==> final(self).pos() > old(self).pos(),
            r matches Err(e) ==> e.token_index == final(self).pos(),
        decreases depth,
    {
        if depth == 0 {
            return Err(self.error("Too deeply nested."));
        }
        self.assignment(depth - 1)
    }

    fn assignment(&mut self, depth: usize) -> (r: Result<Expr, ParseError>)
        requires
            old(self).wf(),
        ensures
            agrees(r, final(self).pos(), assignment(old(self).toks(), old(self).pos(), depth as nat)),
            old(self).moved_on(final(self)),
            r is Ok ==> final(self).pos() > old(self).pos(),
            r matches Err(e) ==> e.token_index == final(self).pos(),
        decreases depth,
    {
        if depth == 0 {
            return Err(self.error("Too deeply nested."));
        }
        let expr = match self.or(depth - 1) {
            Ok(v) => v,
            Err(e) => return Err(e),
        };
        if self.match_one(TokenType::Equal) {
            self.skip_newlines();
            let value = match self.assignment(depth - 1) {
                Ok(v) => v,
                Err(e) => return Err(e),
            };
            match expr {
                Expr::Variable(name) => Ok(Expr::Assign(name, Box::new(value))),
                _ => Err(self.error("Invalid assignment target.")),
            }
        } else {
            Ok(expr)
        }
    }

    fn or(&mut self, depth: usize) -> (r: Result<Expr, ParseError>)
        requires
            old(self).wf(),
        ensures
            agrees(r, final(self).pos(), logic_or(old(self).toks(), old(self).pos(), depth as nat)),
            old(self).moved_on(final(self)),
            r is Ok ==> final(self).pos() > old(self).pos(),
            r matches Err(e) ==> e.token_index == final(self).pos(),
        decreases depth,
    {
        if depth == 0 {
            return Err(self.error("Too deeply nested."));
        }
        let first = match self.and(depth - 1) {
            Ok(v) => v,
            Err(e) => return Err(e),
        };
        let ghost total = logic_or(old(self).toks(), old(self).pos(), depth as nat);
        let mut expr = first;
        while self.match_one(TokenType::Or)
            invariant
                total == logic_or(old(self).toks(), old(self).pos(), depth as nat),
                depth > 0,
                old(self).moved_on(self),
                self.pos() > old(self).pos(),
                total is Some ==> total == or_rest(old(self).toks(), expr.view(), self.pos(), depth as nat),
            decreases self.toks().len() - self.pos(),
        {
            self.skip_newlines();
            let right = match self.and(depth - 1) {
                Ok(v) => v,
                Err(e) => return Err(e),
            };
            expr = Expr::Logical(Box::new(expr), LogicalOp::Or, Box::new(right));
        }
        Ok(expr)
    }

    fn and(&mut self, depth: usize) -> (r: Result<Expr, ParseError>)
        requires
            old(self).wf(),
        ensures
            agrees(r, final(self).pos(), logic_and(old(self).toks(), old(self).pos(), depth as nat)),
            old(self).moved_on(final(self)),
            r is Ok ==> final(self).pos() > old(self).pos(),
            r matches Err(e) ==> e.token_index == final(self).pos(),
        decreases depth,
    {
        if depth == 0 {
            return Err(self.error("Too deeply nested."));
        }
        let first = match self.equality(depth - 1) {
            Ok(v) => v,
            Err(e) => return Err(e),
        };
        let ghost total = logic_and(old(self).toks(), old(self).pos(), depth as nat);
        let mut expr = first;
        while self.match_one(TokenType::And)
            invariant
                total == logic_and(old(self).toks(), old(self).pos(), depth as nat),
                depth > 0,
                old(self).moved_on(self),
                self.pos() > old(self).pos(),
                total is Some ==> total == and_rest(old(self).toks(), expr.view(), self.pos(), depth as nat),
            decreases self.toks().len() - self.pos(),
        {
            self.skip_newlines();
            let right = match self.equality(depth - 1) {
                Ok(v) => v,
                Err(e) => return Err(e),
            };
            expr = Expr::Logical(Box::new(expr), LogicalOp::And, Box::new(right));
        }
        Ok(expr)
    }

    fn equality(&mut self, depth: usize) -> (r: Result<Expr, ParseError>)
        requires
            old(self).wf(),
        ensures
            agrees(r, final(self).pos(), binary_rule(0, old(self).toks(), old(self).pos(), depth as nat)),
            old(self).moved_on(final(self)),
            r is Ok ==> final(self).pos() > old(self).pos(),
            r matches Err(e) ==> e.token_index == final(self).pos(),
        decreases depth,
    {
        proof {
            lemma_operand(0, self.toks());
        }
        if depth == 0 {
            return Err(self.error("Too deeply nested."));
        }
        let first = match self.comparison(depth - 1) {
            Ok(v) => v,
            Err(e) => return Err(e),
        };
        let ghost total = binary_rule(0, old(self).toks(), old(self).pos(), depth as nat);
        let mut expr = first;
        loop
            invariant
                forall|p: int, d: nat| #[trigger] operand(0, old(self).toks(), p, d) == binary_rule(1, old(self).toks(), p, d),
                total == binary_rule(0, old(self).toks(), old(self).pos(), depth as nat),
                depth > 0,
                old(self).moved_on(self),
                self.pos() > old(self).pos(),
                total is Some ==> total == binary_rest(0, old(self).toks(), expr.view(), self.pos(), depth as nat),
            decreases self.toks().len() - self.pos(),
        {
            let ghost p0 = self.pos();
            let ghost e0 = expr.view();
            assert(total is Some ==> binary_rest(0, old(self).toks(), e0, p0, depth as nat) is Some);
            let op = if self.match_one(TokenType::EqualEqual) {
                BinaryOp::Equal
            } else if self.match_one(TokenType::BangEqual) {
                BinaryOp::NotEqual
            } else {
                assert(op_at(0, old(self).toks(), p0) is None);
                assert(total is Some ==> total == Some((Ok::<ExprV, Seq<char>>(expr.view()), p0)));
                return Ok(expr);
            };
            assert(op_at(0, old(self).toks(), p0) == Some(op));
            self.skip_newlines();
            let ghost p1 = self.pos();
            assert(p1 == skip(old(self).toks(), p0 + 1));
            assert(total is Some ==> operand(0, old(self).toks(), p1, (depth - 1) as nat) is Some);
            let right = match self.comparison(depth - 1) {
                Ok(v) => v,
                Err(e) => return Err(e),
            };
            assert(total is Some ==> binary_rule(1, old(self).toks(), p1, (depth - 1) as nat) == Some((Ok::<ExprV, Seq<char>>(right.view()), self.pos())));
            expr = Expr::Binary(Box::new(expr), op, Box::new(right));
        }
    }

    fn comparison(&mut self, depth: usize) -> (r: Result<Expr, ParseError>)
        requires
            old(self).wf(),
        ensures
            agrees(r, final(self).pos(), binary_rule(1, old(self).toks(), old(self).pos(), depth as nat)),
            old(self).moved_on(final(self)),
            r is Ok ==> final(self).pos() > old(self).pos(),
            r matches Err(e) ==> e.token_index == final(self).pos(),
        decreases depth,
    {
        proof {
            lemma_operand(1, self.toks());
        }
        if depth == 0 {
            return Err(self.error("Too deeply nested."));
        }
        let first = match self.term(depth - 1) {
            Ok(v) => v,
            Err(e) => return Err(e),
        };
        let ghost total = binary_rule(1, old(self).toks(), old(self).pos(), depth as nat);
        let mut expr = first;
        loop
            invariant
                forall|p: int, d: nat| #[trigger] operand(1, old(self).toks(), p, d) == binary_rule(2, old(self).toks(), p, d),
                total == binary_rule(1, old(self).toks(), old(self).pos(), depth as nat),
                depth > 0,
                old(self).moved_on(self),
                self.pos() > old(self).pos(),
                total is Some ==> total == binary_rest(1, old(self).toks(), expr.view(), self.pos(), depth as nat),
            decreases self.toks().len() - self.pos(),
        {
            let ghost p0 = self.pos();
            let ghost e0 = expr.view();
            assert(total is Some ==> binary_rest(1, old(self).toks(), e0, p0, depth as nat) is Some);
            let op = if self.match_one(TokenType::Greater) {
                BinaryOp::Greater
            } else if self.match_one(TokenType::GreaterEqual) {
                BinaryOp::GreaterEqual
            } else if self.match_one(TokenType::Less) {
                BinaryOp::Less
            } else if self.match_one(TokenType::LessEqual) {
                BinaryOp::LessEqual
            } else {
                assert(op_at(1, old(self).toks(), p0) is None);
                assert(total is Some ==> total == Some((Ok::<ExprV, Seq<char>>(expr.view()), p0)));
                return Ok(expr);
            };
            assert(op_at(1, old(self).toks(), p0) == Some(op));
            self.skip_newlines();
            let ghost p1 = self.pos();
            assert(p1 == skip(old(self).toks(), p0 + 1));
            assert(total is Some ==> operand(1, old(self).toks(), p1, (depth - 1) as nat) is Some);
            let right = match self.term(depth - 1) {
                Ok(v) => v,
                Err(e) => return Err(e),
            };
            assert(total is Some ==> binary_rule(2, old(self).toks(), p1, (depth - 1) as nat) == Some((Ok::<ExprV, Seq<char>>(right.view()), self.pos())));
            expr = Expr::Binary(Box::new(expr), op, Box::new(right));
        }
    }

    fn term(&mut self, depth: usize) -> (r: Result<Expr, ParseError>)
        requires
            old(self).wf(),
        ensures
            agrees(r, final(self).pos(), binary_rule(2, old(self).toks(), old(self).pos(), depth as nat)),
            old(self).moved_on(final(self)),
            r is Ok ==> final(self).pos() > old(self).pos(),
            r matches Err(e) ==> e.token_index == final(self).pos(),
        decreases depth,
    {
        proof {
            lemma_operand(2, self.toks());
        }
        if depth == 0 {
            return Err(self.error("Too deeply nested."));
        }
        let first = match self.factor(depth - 1) {
            Ok(v) => v,
            Err(e) => return Err(e),
        };
        let ghost total = binary_rule(2, old(self).toks(), old(self).pos(), depth as nat);
        let mut expr = first;
        loop
            invariant
                forall|p: int, d: nat| #[trigger] operand(2, old(self).toks(), p, d) == binary_rule(3, old(self).toks(), p, d),
                total == binary_rule(2, old(self).toks(), old(self).pos(), depth as nat),
                depth > 0,
                old(self).moved_on(self),
                self.pos() > old(self).pos(),
                total is Some ==> total == binary_rest(2, old(self).toks(), expr.view(), self.pos(), depth as nat),
            decreases self.toks().len() - self.pos(),
        {
            let ghost p0 = self.pos();
            let ghost e0 = expr.view();
            assert(total is Some ==> binary_rest(2, old(self).toks(), e0, p0, depth as nat) is Some);
            let op = if self.match_one(TokenType::Minus) {
                BinaryOp::Subtract
            } else if self.match_one(TokenType::Plus) {
                BinaryOp::Add
            } else {
                assert(op_at(2, old(self).toks(), p0) is None);
                assert(total is Some ==> total == Some((Ok::<ExprV, Seq<char>>(expr.view()), p0)));
                return Ok(expr);
            };
            assert(op_at(2, old(self).toks(), p0) == Some(op));
            self.skip_newlines();
            let ghost p1 = self.pos();
            assert(p1 == skip(old(self).toks(), p0 + 1));
            assert(total is Some ==> operand(2, old(self).toks(), p1, (depth - 1) as nat) is Some);
            let right = match self.factor(depth - 1) {
                Ok(v) => v,
                Err(e) => return Err(e),
            };
            assert(total is Some ==> binary_rule(3, old(self).toks(), p1, (depth - 1) as nat) == Some((Ok::<ExprV, Seq<char>>(right.view()), self.pos())));
            expr = Expr::Binary(Box::new(expr), op, Box::new(right));
        }
    }

    fn factor(&mut self, depth: usize) -> (r: Result<Expr, ParseError>)
        requires
            old(self).wf(),
        ensures
            agrees(r, final(self).pos(), binary_rule(3, old(self).toks(), old(self).pos(), depth as nat)),
            old(self).moved_on(final(self)),
            r is Ok ==> final(self).pos() > old(self).pos(),
            r matches Err(e) ==> e.token_index == final(self).pos(),
        decreases depth,
    {
        proof {
            lemma_operand(3, self.toks());
        }
        if depth == 0 {
            return Err(self.error("Too deeply nested."));
        }
        let first = match self.unary(depth - 1) {
            Ok(v) => v,
            Err(e) => return Err(e),
        };
        let ghost total = binary_rule(3, old(self).toks(), old(self).pos(), depth as nat);
        let mut expr = first;
        loop
            invariant
                forall|p: int, d: nat| #[trigger] operand(3, old(self).toks(), p, d) == unary(old(self).toks(), p, d),
                total == binary_rule(3, old(self).toks(), old(self).pos(), depth as nat),
                depth > 0,
                old(self).moved_on(self),
                self.pos() > old(self).pos(),
                total is Some ==> total == binary_rest(3, old(self).toks(), expr.view(), self.pos(), depth as nat),
            decreases self.toks().len() - self.pos(),
        {
            let ghost p0 = self.pos();
            let ghost e0 = expr.view();
            assert(total is Some ==> binary_rest(3, old(self).toks(), e0, p0, depth as nat) is Some);
            let op = if self.match_one(TokenType::Slash) {
                BinaryOp::Divide
            } else if self.match_one(TokenType::Star) {
                BinaryOp::Multiply
            } else {
                assert(op_at(3, old(self).toks(), p0) is None);
                assert(total is Some ==> total == Some((Ok::<ExprV, Seq<char>>(expr.view()), p0)));
                return Ok(expr);
            };
            assert(op_at(3, old(self).toks(), p0) == Some(op));
            self.skip_newlines();
            let ghost p1 = self.pos();
            assert(p1 == skip(old(self).toks(), p0 + 1));
            assert(total is Some ==> operand(3, old(self).toks(), p1, (depth - 1) as nat) is Some);
            let right = match self.unary(depth - 1) {
                Ok(v) => v,
                Err(e) => return Err(e),
            };
            assert(total is Some ==> unary(old(self).toks(), p1, (depth - 1) as nat) == Some((Ok::<ExprV, Seq<char>>(right.view()), self.pos())));
            expr = Expr::Binary(Box::new(expr), op, Box::new(right));
        }
    }

    fn unary(&mut self, depth: usize) -> (r: Result<Expr, ParseError>)
        requires
            old(self).wf(),
        ensures
            agrees(r, final(self).pos(), unary(old(self).toks(), old(self).pos(), depth as nat)),
            old(self).moved_on(final(self)),
            r is Ok ==> final(self).pos() > old(self).pos(),
            r matches Err(e) ==> e.token_index == final(self).pos(),
        decreases depth,
    {
        if depth == 0 {
            return Err(self.error("Too deeply nested."));
        }
        if self.match_one(TokenType::Bang) {
            match self.unary(depth - 1) {
                Ok(e) => Ok(Expr::Unary(UnaryOp::Not, Box::new(e))),
                Err(e) => Err(e),
            }
        } else if self.match_one(TokenType::Minus) {
            match self.unary(depth - 1) {
                Ok(e) => Ok(Expr::Unary(UnaryOp::Negate, Box::new(e))),
                Err(e) => Err(e),
            }
        } else {
            self.call(depth - 1)
        }
    }

    fn call(&mut self, depth: usize) -> (r: Result<Expr, ParseError>)
        requires
            old(self).wf(),
        ensures
            agrees(r, final(self).pos(), call(old(self).toks(), old(self).pos(), depth as nat)),
            old(self).moved_on(final(self)),
            r is Ok ==> final(self).pos() > old(self).pos(),
            r matches Err(e) ==> e.token_index == final(self).pos(),
        decreases depth,
    {
        if depth == 0 {
            return Err(self.error("Too deeply nested."));
        }
        let first = match self.primary(depth - 1) {
            Ok(v) => v,
            Err(e) => return Err(e),
        };
        let ghost total = call(old(self).toks(), old(self).pos(), depth as nat);
        let mut expr = first;
        loop
            invariant
                total == call(old(self).toks(), old(self).pos(), depth as nat),
                depth > 0,
                old(self).moved_on(self),
                self.pos() > old(self).pos(),
                total is Some ==> total == call_rest(old(self).toks(), expr.view(), self.pos(), depth as nat),
            decreases self.toks().len() - self.pos(),
        {
            if !self.match_one(TokenType::LeftParen) {
                return Ok(expr);
            }
            expr = match self.finish_call(expr, depth - 1) {
                Ok(v) => v,
                Err(e) => return Err(e),
            };
        }
    }

    fn finish_call(&mut self, callee: Expr, depth: usize) -> (r: Result<Expr, ParseError>)
        requires
            old(self).wf(),
        ensures
            match arguments(old(self).toks(), old(self).pos(), depth as nat) {
                Some((res, p)) => final(self).pos() == p && match (r, res) {
                    (Ok(e), Ok(args)) => e.view() == ExprV::Call(Box::new(callee.view()), args),
                    (Err(e), Err(m)) => e.message@ == m && e.token_index == p,
                    _ => false,
                },
                None => true,
            },
            old(self).moved_on(final(self)),
            r is Ok ==> final(self).pos() > old(self).pos(),
            r matches Err(e) ==> e.token_index == final(self).pos(),
        decreases depth,
    {
        if depth == 0 {
            return Err(self.error("Too deeply nested."));
        }
        let ghost total = arguments(self.toks(), self.pos(), depth as nat);
        let ghost toks = self.toks();
        let mut args: Vec<Expr> = Vec::new();
        self.skip_newlines();
        if self.check(&TokenType::RightParen) {
            self.advance();
            assert(exprs_view(args@) =~= Seq::<ExprV>::empty());
            return Ok(Expr::Call(Box::new(callee), args));
        }
        loop
            invariant
                depth > 0,
                toks == old(self).toks(),
                total == arguments(toks, old(self).pos(), depth as nat),
                old(self).moved_on(self),
                self.pos() > old(self).pos() || args@.len() == 0,
                total is Some ==> total == argument_items(toks, self.pos(), exprs_view(args@), (depth - 1) as nat),
            decreases self.toks().len() - self.pos(),
        {
            let ghost p0 = self.pos();
            proof {
                lemma_skip(toks, p0);
                lemma_argument_items(toks, p0, exprs_view(args@), (depth - 1) as nat);
                lemma_exprs_view_len(args@);
            }
            self.skip_newlines();
            let ghost p = self.pos();
            let arg = match self.expression(depth - 1) {
                Ok(v) => v,
                Err(e) => return Err(e),
            };
            let ghost done = exprs_view(args@);
            let ghost before = args@;
            args.push(arg);
            assert(args@.drop_last() =~= before);
            let ghost p2 = self.pos();
            proof {
                lemma_skip(toks, p2);
            }
            self.skip_newlines();
            if !self.match_one(TokenType::Comma) {
                assert(total is Some ==> total == if at(toks, skip(toks, p2), TokenType::RightParen) {
                    Some((Ok::<Seq<ExprV>, Seq<char>>(done.push(arg.view())), skip(toks, p2) + 1))
                } else {
                    fail("Expect ')' after arguments."@, skip(toks, p2))
                });
                return match self.consume(TokenType::RightParen, "Expect ')' after arguments.") {
                    Ok(_) => Ok(Expr::Call(Box::new(callee), args)),
                    Err(e) => Err(e),
                };
            }
            assert(total is Some ==> total == argument_items(toks, self.pos(), exprs_view(args@), (depth - 1) as nat));
        }
    }

    fn primary(&mut self, depth: usize) -> (r: Result<Expr, ParseError>)
        requires
            old(self).wf(),
        ensures
            agrees(r, final(self).pos(), primary(old(self).toks(), old(self).pos(), depth as nat)),
            old(self).moved_on(final(self)),
            r is Ok ==> final(self).pos() > old(self).pos(),
            r matches Err(e) ==> e.token_index == final(self).pos(),
        decreases depth,
    {
        if depth == 0 {
            return Err(self.error("Too deeply nested."));
        }
        let lit = match &self.tokens[self.current].token_type {
            TokenType::False => Some(Expr::Literal(Literal::Boolean(false))),
            TokenType::True => Some(Expr::Literal(Literal::Boolean(true))),
            TokenType::Nil => Some(Expr::Literal(Literal::Nil)),
            TokenType::Number(n) => Some(Expr::Literal(Literal::Number(*n))),
            TokenType::String(s) => Some(Expr::Literal(Literal::String(s.clone()))),
            TokenType::Identifier(name) => Some(Expr::Variable(name.clone())),
            _ => None,
        };
        match lit {
            Some(e) => {
                self.advance();
                Ok(e)
            },
            None => {
                if self.match_one(TokenType::LeftParen) {
                    self.skip_newlines();
                    let inner = match self.expression(depth - 1) {
                        Ok(v) => v,
                        Err(e) => return Err(e),
                    };
                    self.skip_newlines();
                    match self.consume(TokenType::RightParen, "Expect ')' after expression.") {
                        Ok(_) => Ok(Expr::Grouping(Box::new(inner))),
                        Err(e) => Err(e),
                    }
                } else {
                    Err(self.error("Expect expression."))
                }
            },
        }
    }

    /// Moves past the `;` or line break that ends a statement.
    fn terminator(&mut self, message: &str) -> (r: Result<(), ParseError>)
        requires
            old(self).wf(),
        ensures
            match terminator(old(self).toks(), old(self).pos(), message@) {
                Some((res, p)) => final(self).pos() == p && match (r, res) {
                    (Ok(_), Ok(_)) => true,
                    (Err(e), Err(m)) => e.message@ == m && e.token_index == p,
                    _ => false,
                },
                None => true,
            },
            old(self).moved_on(final(self)),
            r is Ok ==> final(self).pos() == old(self).pos() + 1,
            r matches Err(e) ==> e.token_index == final(self).pos(),
    {
        if self.match_one(TokenType::Semicolon) || self.match_one(TokenType::Newline) {
            Ok(())
        } else {
            Err(self.error(message))
        }
    }

    /// Parses a declaration or a statement.
    pub fn declaration(&mut self, depth: usize) -> (r: Result<Stmt, ParseError>)
        requires
            old(self).wf(),
        ensures
            agrees_stmt(r, final(self).pos(), declaration(old(self).toks(), old(self).pos(), depth as nat)),
            old(self).moved_on(final(self)),
            r is Ok ==> final(self).pos() > old(self).pos(),
            r matches Err(e) ==> e.token_index == final(self).pos(),
        decreases depth,
    {
        proof {
            reveal(declaration);
        }
        if depth == 0 {
            return Err(self.error("Too deeply nested."));
        }
        self.skip_newlines();
        if self.match_one(TokenType::Var) {
            self.var_declaration()
        } else if self.match_one(TokenType::Fun) {
            self.function(depth - 1)
        } else {
            self.statement(depth - 1)
        }
    }

    fn var_declaration(&mut self) -> (r: Result<Stmt, ParseError>)
        requires
            old(self).wf(),
        ensures
            agrees_stmt(r, final(self).pos(), var_declaration(old(self).toks(), old(self).pos())),
            old(self).moved_on(final(self)),
            r is Ok ==> final(self).pos() > old(self).pos(),
            r matches Err(e) ==> e.token_index == final(self).pos(),
    {
        let name = match self.identifier("Expect variable name.") {
            Ok(v) => v,
            Err(e) => return Err(e),
        };
        let init = if self.match_one(TokenType::Equal) {
            self.skip_newlines();
            match self.expression(MAX_NESTING) {
                Ok(v) => Some(v),
                Err(e) => return Err(e),
            }
        } else {
            None
        };
        match self.terminator("Expect ';' or newline after variable declaration.") {
            Ok(_) => Ok(Stmt::Var(name, init)),
            Err(e) => Err(e),
        }
    }

    /// The parameter names of a function, after its `(`, and the `)`.
    fn parameters(&mut self) -> (r: Result<Vec<String>, ParseError>)
        requires
            old(self).wf(),
        ensures
            agrees_seq(r, final(self).pos(), parameters(old(self).toks(), old(self).pos())),
            old(self).moved_on(final(self)),
            r is Ok ==> final(self).pos() > old(self).pos(),
            r matches Err(e) ==> e.token_index == final(self).pos(),
    {
        let ghost total = parameters(self.toks(), self.pos());
        let ghost toks = self.toks();
        let mut params: Vec<String> = Vec::new();
        if self.match_one(TokenType::RightParen) {
            return Ok(params);
        }
        loop
            invariant
                toks == old(self).toks(),
                total == parameters(toks, old(self).pos()),
                old(self).moved_on(self),
                self.pos() > old(self).pos() || params@.len() == 0,
                total is Some ==> total == parameter_items(toks, self.pos(), params@),
            decreases self.toks().len() - self.pos(),
        {
            if params.len() >= MAX_PARAMETERS {
                return Err(self.error("Cannot have more than 255 parameters."));
            }
            let p = match self.identifier("Expect parameter name.") {
                Ok(v) => v,
                Err(e) => return Err(e),
            };
            params.push(p);
            if !self.match_one(TokenType::Comma) {
                return match self.consume(TokenType::RightParen, "Expect ')' after parameters.") {
                    Ok(_) => Ok(params),
                    Err(e) => Err(e),
                };
            }
        }
    }

    /// What follows `fun`.
    fn function(&mut self, depth: usize) -> (r: Result<Stmt, ParseError>)
        requires
            old(self).wf(),
        ensures
            match function(old(self).toks(), old(self).pos(), depth as nat) {
                Some((res, p)) => final(self).pos() == p && match (r, res) {
                    (Ok(st), Ok((n, ps, body))) => st.view() == StmtV::Function(n, ps, body),
                    (Err(e), Err(m)) => e.message@ == m && e.token_index == p,
                    _ => false,
                },
                None => true,
            },
            old(self).moved_on(final(self)),
            r is Ok ==> final(self).pos() > old(self).pos(),
            r matches Err(e) ==> e.token_index == final(self).pos(),
        decreases depth,
    {
        if depth == 0 {
            return Err(self.error("Too deeply nested."));
        }
        let name = match self.identifier("Expect function name.") {
            Ok(v) => v,
            Err(e) => return Err(e),
        };
        match self.consume(TokenType::LeftParen, "Expect '(' after function name.") {
            Ok(_) => {},
            Err(e) => return Err(e),
        }
        let params = match self.parameters() {
            Ok(v) => v,
            Err(e) => return Err(e),
        };
        match self.consume(TokenType::LeftBrace, "Expect '{' before function body.") {
            Ok(_) => {},
            Err(e) => return Err(e),
        }
        let body = match self.block(depth - 1) {
            Ok(v) => v,
            Err(e) => return Err(e),
        };
        Ok(Stmt::Function(Rc::new(FunDecl { name, params, body })))
    }

    /// Parses a statement.
    pub fn statement(&mut self, depth: usize) -> (r: Result<Stmt, ParseError>)
        requires
            old(self).wf(),
        ensures
            agrees_stmt(r, final(self).pos(), statement(old(self).toks(), old(self).pos(), depth as nat)),
            old(self).moved_on(final(self)),
            r is Ok ==> final(self).pos() > old(self).pos(),
            r matches Err(e) ==> e.token_index == final(self).pos(),
        decreases depth,
    {
        if depth == 0 {
            return Err(self.error("Too deeply nested."));
        }
        self.skip_newlines();
        if self.match_one(TokenType::Print) {
            let value = match self.expression(depth - 1) {
                Ok(v) => v,
                Err(e) => return Err(e),
            };
            match self.terminator("Expect ';' or newline after value.") {
                Ok(_) => Ok(Stmt::Print(value)),
                Err(e) => Err(e),
            }
        } else if self.match_one(TokenType::If) {
            self.if_statement(depth - 1)
        } else if self.match_one(TokenType::While) {
            self.while_statement(depth - 1)
        } else if self.match_one(TokenType::Return) {
            self.return_statement(depth - 1)
        } else if self.match_one(TokenType::LeftBrace) {
            match self.block(depth - 1) {
                Ok(ss) => Ok(Stmt::Block(ss)),
                Err(e) => Err(e),
            }
        } else {
            let expr = match self.expression(depth - 1) {
                Ok(v) => v,
                Err(e) => return Err(e),
            };
            match self.terminator("Expect ';' or newline after expression.") {
                Ok(_) => Ok(Stmt::Expression(expr)),
                Err(e) => Err(e),
            }
        }
    }

    fn if_statement(&mut self, depth: usize) -> (r: Result<Stmt, ParseError>)
        requires
            old(self).wf(),
        ensures
            agrees_stmt(r, final(self).pos(), if_statement(old(self).toks(), old(self).pos(), depth as nat)),
            old(self).moved_on(final(self)),
            r is Ok ==> final(self).pos() > old(self).pos(),
            r matches Err(e) ==> e.token_index == final(self).pos(),
        decreases depth,
    {
        if depth == 0 {
            return Err(self.error("Too deeply nested."));
        }
        match self.consume(TokenType::LeftParen, "Expect '(' after 'if'.") {
            Ok(_) => {},
            Err(e) => return Err(e),
        }
        let cond = match self.expression(depth - 1) {
            Ok(v) => v,
            Err(e) => return Err(e),
        };
        match self.consume(TokenType::RightParen, "Expect ')' after if condition.") {
            Ok(_) => {},
            Err(e) => return Err(e),
        }
        let then_branch = match self.statement(depth - 1) {
            Ok(v) => v,
            Err(e) => return Err(e),
        };
        let saved = self.current;
        self.skip_newlines();
        if self.match_one(TokenType::Else) {
            match self.statement(depth - 1) {
                Ok(s) => Ok(Stmt::If(cond, Box::new(then_branch), Some(Box::new(s)))),
                Err(e) => Err(e),
            }
        } else {
            self.current = saved;
            Ok(Stmt::If(cond, Box::new(then_branch), None))
        }
    }

    fn while_statement(&mut self, depth: usize) -> (r: Result<Stmt, ParseError>)
        requires
            old(self).wf(),
        ensures
            agrees_stmt(r, final(self).pos(), while_statement(old(self).toks(), old(self).pos(), depth as nat)),
            old(self).moved_on(final(self)),
            r is Ok ==> final(self).pos() > old(self).pos(),
            r matches Err(e) ==> e.token_index == final(self).pos(),
        decreases depth,
    {
        if depth == 0 {
            return Err(self.error("Too deeply nested."));
        }
        match self.consume(TokenType::LeftParen, "Expect '(' after 'while'.") {
            Ok(_) => {},
            Err(e) => return Err(e),
        }
        let cond = match self.expression(depth - 1) {
            Ok(v) => v,
            Err(e) => return Err(e),
        };
        match self.consume(TokenType::RightParen, "Expect ')' after condition.") {
            Ok(_) => {},
            Err(e) => return Err(e),
        }
        match self.statement(depth - 1) {
            Ok(body) => Ok(Stmt::While(cond, Box::new(body))),
            Err(e) => Err(e),
        }
    }

    fn return_statement(&mut self, depth: usize) -> (r: Result<Stmt, ParseError>)
        requires
            old(self).wf(),
        ensures
            agrees_stmt(r, final(self).pos(), return_statement(old(self).toks(), old(self).pos(), depth as nat)),
            old(self).moved_on(final(self)),
            r is Ok ==> final(self).pos() > old(self).pos(),
            r matches Err(e) ==> e.token_index == final(self).pos(),
        decreases depth,
    {
        if depth == 0 {
            return Err(self.error("Too deeply nested."));
        }
        let value = if self.check(&TokenType::Semicolon) || self.check(&TokenType::Newline) {
            None
        } else {
            match self.expression(depth - 1) {
                Ok(v) => Some(v),
                Err(e) => return Err(e),
            }
        };
        match self.terminator("Expect ';' or newline after return value.") {
            Ok(_) => Ok(Stmt::Return(value)),
            Err(e) => Err(e),
        }
    }

    /// Parses the statements of a block, after its `{`, and the `}`.
    pub fn block(&mut self, depth: usize) -> (r: Result<Vec<Stmt>, ParseError>)
        requires
            old(self).wf(),
        ensures
            agrees_stmts(r, final(self).pos(), block(old(self).toks(), old(self).pos(), depth as nat)),
            old(self).moved_on(final(self)),
            r is Ok ==> final(self).pos() > old(self).pos(),
            r matches Err(e) ==> e.token_index == final(self).pos(),
        decreases depth,
    {
        if depth == 0 {
            return Err(self.error("Too deeply nested."));
        }
        let ghost total = block(self.toks(), self.pos(), depth as nat);
        let ghost toks = self.toks();
        let ghost mut q = self.pos();
        let mut statements: Vec<Stmt> = Vec::new();
        self.skip_newlines();
        proof {
            lemma_skip(toks, q);
        }
        while !self.check(&TokenType::RightBrace) && !self.is_at_end()
            invariant
                depth > 0,
                toks == old(self).toks(),
                total == block(toks, old(self).pos(), depth as nat),
                old(self).moved_on(self),
                old(self).pos() <= q <= self.pos(),
                self.pos() == skip(toks, q),
                total is Some ==> total == block_items(toks, q, stmts_view(statements@), (depth - 1) as nat),
            decreases self.toks().len() - self.pos(),
        {
            proof {
                lemma_block_items(toks, q, stmts_view(statements@), (depth - 1) as nat);
            }
            let ghost p = self.pos();
            let ghost done = stmts_view(statements@);
            let ghost before = statements@;
            assert(total is Some ==> total == match declaration(toks, p, (depth - 1) as nat) {
                Some((Ok(s), p2)) => if p < p2 <= toks.len() {
                    block_items(toks, p2, done.push(s), (depth - 1) as nat)
                } else {
                    None
                },
                Some((Err(m), p2)) => fail(m, p2),
                None => None,
            });
            let s = match self.declaration(depth - 1) {
                Ok(v) => v,
                Err(e) => return Err(e),
            };
            statements.push(s);
            proof {
                q = self.pos();
            }
            assert(statements@.drop_last() =~= before);
            assert(total is Some ==> total == block_items(toks, q, stmts_view(statements@), (depth - 1) as nat));
            self.skip_newlines();
            proof {
                lemma_skip(toks, q);
            }
        }
        proof {
            lemma_block_items(toks, q, stmts_view(statements@), (depth - 1) as nat);
        }
        match self.consume(TokenType::RightBrace, "Expect '}' after block.") {
            Ok(_) => Ok(statements),
            Err(e) => Err(e),
        }
    }

    /// Parses all the tokens up to `EOF`; stops at the first grammar
    /// violation.
    pub fn parse(&mut self) -> (r: Result<Vec<Stmt>, ParseError>)
        requires
            old(self).wf(),
        ensures
            agrees_stmts(r, final(self).pos(), program(old(self).toks(), old(self).pos(), Seq::empty())),
            old(self).moved_on(final(self)),
            r is Ok ==> final(self).toks()[final(self).pos()].token_type is EOF,
            r matches Err(e) ==> e.token_index == final(self).pos(),
    {
        let ghost total = program(self.toks(), self.pos(), Seq::empty());
        let ghost mut q = self.pos();
        let mut statements: Vec<Stmt> = Vec::new();
        self.skip_newlines();
        proof {
            lemma_skip(self.toks(), q);
        }
        while !self.is_at_end()
            invariant
                total == program(old(self).toks(), old(self).pos(), Seq::empty()),
                old(self).moved_on(self),
                old(self).pos() <= q <= self.pos(),
                self.pos() == skip(old(self).toks(), q),
                total is Some ==> total == program(old(self).toks(), q, stmts_view(statements@)),
            decreases self.toks().len() - self.pos(),
        {
            let ghost p = self.pos();
            let ghost done = stmts_view(statements@);
            let ghost before = statements@;
            let ghost toks = old(self).toks();
            assert(total is Some ==> total == match declaration(toks, p, MAX_NESTING as nat) {
                Some((Ok(s), p2)) => if p < p2 <= toks.len() {
                    program(toks, p2, done.push(s))
                } else {
                    None
                },
                Some((Err(m), p2)) => fail(m, p2),
                None => None,
            });
            let s = match self.declaration(MAX_NESTING) {
                Ok(v) => v,
                Err(e) => return Err(e),
            };
            statements.push(s);
            proof {
                q = self.pos();
            }
            assert(statements@.drop_last() =~= before);
            assert(total is Some ==> total == program(toks, q, stmts_view(statements@)));
            self.skip_newlines();
            proof {
                lemma_skip(self.toks(), q);
            }
        }
        Ok(statements)
    }
}

} // verus!
