//! Tokens: the words of the language.
use crate::number::Number;
use vstd::prelude::*;

verus! {

#[derive(Clone, Debug, PartialEq)]
pub enum TokenType {
    LeftParen,
    RightParen,
    LeftBrace,
    RightBrace,
    Comma,
    Semicolon,
    Minus,
    Plus,
    Slash,
    Star,
    Bang,
    BangEqual,
    Equal,
    EqualEqual,
    Greater,
    GreaterEqual,
    Less,
    LessEqual,
    Identifier(String),
    String(String),
    Number(Number),
    And,
    Else,
    False,
    Fun,
    If,
    Nil,
    Or,
    Print,
    Return,
    True,
    Var,
    While,
    /// A line break, which ends a statement as `;` does.
    Newline,
    EOF,
}

/// A token with the text it was read from and where that text starts
/// (lines and columns count from 1).
#[derive(Clone, Debug, PartialEq)]
pub struct Token {
    pub token_type: TokenType,
    pub lexeme: String,
    pub line: usize,
    pub column: usize,
}

/// The fixed text of a keyword or punctuation token; empty for the others.
pub open spec fn fixed_text(t: TokenType) -> Seq<char> {
    match t {
        TokenType::LeftParen => seq!['('],
        TokenType::RightParen => seq![')'],
        TokenType::LeftBrace => seq!['{'],
        TokenType::RightBrace => seq!['}'],
        TokenType::Comma => seq![','],
        TokenType::Semicolon => seq![';'],
        TokenType::Minus => seq!['-'],
        TokenType::Plus => seq!['+'],
        TokenType::Slash => seq!['/'],
        TokenType::Star => seq!['*'],
        TokenType::Bang => seq!['!'],
        TokenType::BangEqual => seq!['!', '='],
        TokenType::Equal => seq!['='],
        TokenType::EqualEqual => seq!['=', '='],
        TokenType::Greater => seq!['>'],
        TokenType::GreaterEqual => seq!['>', '='],
        TokenType::Less => seq!['<'],
        TokenType::LessEqual => seq!['<', '='],
        TokenType::And => seq!['a', 'n', 'd'],
        TokenType::Else => seq!['e', 'l', 's', 'e'],
        TokenType::False => seq!['f', 'a', 'l', 's', 'e'],
        TokenType::Fun => seq!['f', 'u', 'n'],
        TokenType::If => seq!['i', 'f'],
        TokenType::Nil => seq!['n', 'i', 'l'],
        TokenType::Or => seq!['o', 'r'],
        TokenType::Print => seq!['p', 'r', 'i', 'n', 't'],
        TokenType::Return => seq!['r', 'e', 't', 'u', 'r', 'n'],
        TokenType::True => seq!['t', 'r', 'u', 'e'],
        TokenType::Var => seq!['v', 'a', 'r'],
        TokenType::While => seq!['w', 'h', 'i', 'l', 'e'],
        TokenType::Newline => seq!['\n'],
        _ => Seq::empty(),
    }
}

pub open spec fn is_digit(c: char) -> bool {
    '0' <= c <= '9'
}

pub open spec fn is_alpha(c: char) -> bool {
    ('a' <= c <= 'z') || ('A' <= c <= 'Z') || c == '_'
}

pub open spec fn is_word(s: Seq<char>) -> bool {
    &&& s.len() > 0
    &&& is_alpha(s[0])
    &&& forall|k: int| 0 <= k < s.len() ==> is_alpha(#[trigger] s[k]) || is_digit(s[k])
}

/// The keyword spelled `s`, if any.
pub open spec fn keyword_of(s: Seq<char>) -> Option<TokenType> {
    if s == fixed_text(TokenType::And) { Some(TokenType::And) }
    else if s == fixed_text(TokenType::Else) { Some(TokenType::Else) }
    else if s == fixed_text(TokenType::False) { Some(TokenType::False) }
    else if s == fixed_text(TokenType::Fun) { Some(TokenType::Fun) }
    else if s == fixed_text(TokenType::If) { Some(TokenType::If) }
    else if s == fixed_text(TokenType::Nil) { Some(TokenType::Nil) }
    else if s == fixed_text(TokenType::Or) { Some(TokenType::Or) }
    else if s == fixed_text(TokenType::Print) { Some(TokenType::Print) }
    else if s == fixed_text(TokenType::Return) { Some(TokenType::Return) }
    else if s == fixed_text(TokenType::True) { Some(TokenType::True) }
    else if s == fixed_text(TokenType::Var) { Some(TokenType::Var) }
    else if s == fixed_text(TokenType::While) { Some(TokenType::While) }
    else { None }
}

pub open spec fn digit_value(c: char) -> nat {
    (c as int - '0' as int) as nat
}

/// The natural number that a string of decimal digits spells.
pub open spec fn digits_value(s: Seq<char>) -> nat
    decreases s.len(),
{
    if s.len() == 0 {
        0
    } else {
        digits_value(s.drop_last()) * 10 + digit_value(s.last())
    }
}

/// The first six digits of a fraction, padded with zeros; digits past the
/// sixth are dropped.
pub open spec fn six_digits(s: Seq<char>) -> Seq<char> {
    Seq::new(6, |k: int| if k < s.len() { s[k] } else { '0' })
}

/// A number literal: digits, then optionally a point and more digits.
pub open spec fn is_number_text(s: Seq<char>, dot: int) -> bool {
    &&& 0 < dot <= s.len()
    &&& forall|k: int| 0 <= k < dot ==> is_digit(#[trigger] s[k])
    &&& dot < s.len() ==> s[dot] == '.' && dot + 1 < s.len() && forall|k: int|
        dot < k < s.len() ==> is_digit(#[trigger] s[k])
}

/// The units of the number that a literal with its point at `dot` spells.
pub open spec fn number_units(s: Seq<char>, dot: int) -> int {
    let whole = digits_value(s.subrange(0, dot));
    let frac = if dot < s.len() { s.subrange(dot + 1, s.len() as int) } else { Seq::empty() };
    (whole * 1000000 + digits_value(six_digits(frac))) as int
}

/// A token's type is what its text says.
pub open spec fn token_wf(t: Token) -> bool {
    match t.token_type {
        TokenType::Identifier(s) => s@ == t.lexeme@ && is_word(s@) && keyword_of(s@) is None,
        TokenType::String(s) => t.lexeme@ == seq!['"'] + s@ + seq!['"'] && !s@.contains('"'),
        TokenType::Number(n) => exists|dot: int|
            is_number_text(t.lexeme@, dot) && n.units == number_units(t.lexeme@, dot),
        TokenType::EOF => t.lexeme@.len() == 0,
        other => t.lexeme@ == fixed_text(other),
    }
}

impl TokenType {
    /// A copy equal to `self`.
    pub fn duplicate(&self) -> (r: TokenType)
        ensures
            r == *self,
    {
        match self {
            TokenType::Identifier(s) => TokenType::Identifier(s.clone()),
            TokenType::String(s) => TokenType::String(s.clone()),
            TokenType::Number(n) => TokenType::Number(*n),
            TokenType::LeftParen => TokenType::LeftParen,
            TokenType::RightParen => TokenType::RightParen,
            TokenType::LeftBrace => TokenType::LeftBrace,
            TokenType::RightBrace => TokenType::RightBrace,
            TokenType::Comma => TokenType::Comma,
            TokenType::Semicolon => TokenType::Semicolon,
            TokenType::Minus => TokenType::Minus,
            TokenType::Plus => TokenType::Plus,
            TokenType::Slash => TokenType::Slash,
            TokenType::Star => TokenType::Star,
            TokenType::Bang => TokenType::Bang,
            TokenType::BangEqual => TokenType::BangEqual,
            TokenType::Equal => TokenType::Equal,
            TokenType::EqualEqual => TokenType::EqualEqual,
            TokenType::Greater => TokenType::Greater,
            TokenType::GreaterEqual => TokenType::GreaterEqual,
            TokenType::Less => TokenType::Less,
            TokenType::LessEqual => TokenType::LessEqual,
            TokenType::And => TokenType::And,
            TokenType::Else => TokenType::Else,
            TokenType::False => TokenType::False,
            TokenType::Fun => TokenType::Fun,
            TokenType::If => TokenType::If,
            TokenType::Nil => TokenType::Nil,
            TokenType::Or => TokenType::Or,
            TokenType::Print => TokenType::Print,
            TokenType::Return => TokenType::Return,
            TokenType::True => TokenType::True,
            TokenType::Var => TokenType::Var,
            TokenType::While => TokenType::While,
            TokenType::Newline => TokenType::Newline,
            TokenType::EOF => TokenType::EOF,
        }
    }
}

impl Token {
    /// A copy equal to `self`.
    pub fn duplicate(&self) -> (r: Token)
        ensures
            r == *self,
    {
        Token {
            token_type: self.token_type.duplicate(),
            lexeme: self.lexeme.clone(),
            line: self.line,
            column: self.column,
        }
    }
}

} // verus!
