//! The lexer: source text to tokens.
use crate::number::Number;
use crate::token::{
    digit_value, digits_value, fixed_text, is_alpha, is_digit, is_number_text, is_word,
    keyword_of, number_units, six_digits, token_wf, Token, TokenType,
};
use vstd::prelude::*;
use vstd::string::StrSliceExecFns;

verus! {

/// A character that no token starts with, or the quote of a string that
/// is never closed, or the first digit of a number that cannot be held
/// exactly (too large, or more than six digits after the point).
#[derive(Clone, Debug, PartialEq)]
pub struct LexError {
    pub character: char,
    /// Index of the character in the source, counted in characters.
    pub position: usize,
    pub line: usize,
    pub column: usize,
}

/// Turns source text into tokens.
pub struct Lexer {
    source: String,
    chars: Vec<char>,
}

/// What a successful scan guarantees: every token's type is what its text
/// says, and exactly the last token is `EOF`.
pub open spec fn tokens_wf(ts: Seq<Token>) -> bool {
    &&& ts.len() >= 1
    &&& ts.last().token_type is EOF
    &&& forall|k: int| 0 <= k < ts.len() ==> token_wf(#[trigger] ts[k])
    &&& forall|k: int| 0 <= k < ts.len() - 1 ==> !(#[trigger] ts[k].token_type is EOF)
}

/// The end of the run of digits that starts at `j`.
pub open spec fn digits_end(chars: Seq<char>, j: int) -> int
    decreases chars.len() - j,
{
    if 0 <= j < chars.len() && is_digit(chars[j]) {
        digits_end(chars, j + 1)
    } else {
        j
    }
}

/// Where the number literal that starts at `i` has its point (its end if it
/// has none), and where it ends.
pub open spec fn number_span(chars: Seq<char>, i: int) -> (int, int) {
    let dot = digits_end(chars, i);
    if dot + 1 < chars.len() && chars[dot] == '.' && is_digit(chars[dot + 1]) {
        (dot, digits_end(chars, dot + 1))
    } else {
        (dot, dot)
    }
}

/// Whether the number literal that starts at `i` can be held exactly: its
/// whole part has at most thirteen digits' worth, it has at most six digits
/// after the point, and its value fits in 64 bits.
pub open spec fn number_fits(chars: Seq<char>, i: int) -> bool {
    let (dot, end) = number_span(chars, i);
    let text = chars.subrange(i, end);
    &&& digits_value(text.subrange(0, dot - i)) < 10_000_000_000_000
    &&& end - dot <= 7
    &&& number_units(text, dot - i) <= i64::MAX
}

/// The width of the punctuation token at `i`: 1 or 2, or 0 if none starts
/// there.
pub open spec fn punct_width(chars: Seq<char>, i: int) -> int {
    let c = chars[i];
    let next_eq = i + 1 < chars.len() && chars[i + 1] == '=';
    if c == '(' || c == ')' || c == '{' || c == '}' || c == ',' || c == ';' || c == '-' || c == '+'
        || c == '/' || c == '*' {
        1
    } else if c == '!' || c == '=' || c == '>' || c == '<' {
        if next_eq { 2 } else { 1 }
    } else {
        0
    }
}

/// The end of the comment whose text starts at `j`: the next line break, or
/// the end of the source.
pub open spec fn comment_end(chars: Seq<char>, j: int) -> int
    decreases chars.len() - j,
{
    if 0 <= j < chars.len() && chars[j] != '\n' {
        comment_end(chars, j + 1)
    } else {
        j
    }
}

/// The first `"` at or after `j`.
pub open spec fn quote_at(chars: Seq<char>, j: int) -> Option<int>
    decreases chars.len() - j,
{
    if !(0 <= j < chars.len()) {
        None
    } else if chars[j] == '"' {
        Some(j)
    } else {
        quote_at(chars, j + 1)
    }
}

/// The end of the run of letters, digits and underscores that starts at `j`.
pub open spec fn word_end(chars: Seq<char>, j: int) -> int
    decreases chars.len() - j,
{
    if 0 <= j < chars.len() && (is_alpha(chars[j]) || is_digit(chars[j])) {
        word_end(chars, j + 1)
    } else {
        j
    }
}

/// The count of line breaks and the start of the current line after the
/// characters `a..b`, from the count `breaks` and the start `ls` before them.
pub open spec fn line_marks(chars: Seq<char>, a: int, b: int, breaks: int, ls: int) -> (int, int)
    decreases b - a,
{
    if b <= a {
        (breaks, ls)
    } else {
        let (x, y) = line_marks(chars, a, b - 1, breaks, ls);
        if chars[b - 1] == '\n' {
            (x + 1, b)
        } else {
            (x, y)
        }
    }
}

/// The tokens of `chars` from `i` on, after the tokens `acc`, each as where
/// its text starts and ends and the line and column it starts at; or the
/// position of the first character that cannot be read. `breaks` counts the
/// line breaks before `i` and `ls` is where the current line starts.
pub open spec fn lex(chars: Seq<char>, i: int, breaks: int, ls: int, acc: Seq<(int, int, int, int)>) -> Result<Seq<(int, int, int, int)>, int>
    decreases chars.len() - i,
{
    if i < 0 || i >= chars.len() {
        Ok(acc)
    } else {
        let c = chars[i];
        let line = breaks + 1;
        let col = i - ls + 1;
        if c == ' ' || c == '\t' || c == '\r' {
            lex(chars, i + 1, breaks, ls, acc)
        } else if c == '\n' {
            lex(chars, i + 1, breaks + 1, i + 1, acc.push((i, i + 1, line, col)))
        } else if c == '/' && i + 1 < chars.len() && chars[i + 1] == '/' {
            let j = comment_end(chars, i + 2);
            if i < j <= chars.len() {
                lex(chars, j, breaks, ls, acc)
            } else {
                Err(i)
            }
        } else if c == '"' {
            match quote_at(chars, i + 1) {
                Some(j) => if i < j < chars.len() {
                    let (b2, s2) = line_marks(chars, i + 1, j, breaks, ls);
                    lex(chars, j + 1, b2, s2, acc.push((i, j + 1, line, col)))
                } else {
                    Err(i)
                },
                None => Err(i),
            }
        } else if is_digit(c) {
            let end = number_span(chars, i).1;
            if !number_fits(chars, i) || end <= i || end > chars.len() {
                Err(i)
            } else {
                lex(chars, end, breaks, ls, acc.push((i, end, line, col)))
            }
        } else if is_alpha(c) {
            let j = word_end(chars, i + 1);
            if i < j <= chars.len() {
                lex(chars, j, breaks, ls, acc.push((i, j, line, col)))
            } else {
                Err(i)
            }
        } else {
            let w = punct_width(chars, i);
            if w > 0 {
                lex(chars, i + w, breaks, ls, acc.push((i, i + w, line, col)))
            } else {
                Err(i)
            }
        }
    }
}

/// Whether the tokens `ts` are the tokens that the spans `spans` mark in
/// `chars`, followed by `EOF`.
pub open spec fn tokens_at(chars: Seq<char>, ts: Seq<Token>, spans: Seq<(int, int, int, int)>) -> bool {
    &&& ts.len() == spans.len() + 1
    &&& forall|k: int|
        0 <= k < spans.len() ==> {
            &&& #[trigger] ts[k].lexeme@ == chars.subrange(spans[k].0, spans[k].1)
            &&& ts[k].line == spans[k].2
            &&& ts[k].column == spans[k].3
        }
}

proof fn lemma_digits_end(chars: Seq<char>, j: int)
    ensures
        digits_end(chars, j) >= j,
        0 <= j ==> digits_end(chars, j) <= chars.len() || digits_end(chars, j) == j,
        forall|k: int| j <= k < digits_end(chars, j) ==> is_digit(#[trigger] chars[k]),
    decreases chars.len() - j,
{
    if 0 <= j < chars.len() && is_digit(chars[j]) {
        lemma_digits_end(chars, j + 1);
    }
}

/// A longer prefix of a string of digits spells a number at least as large.
proof fn lemma_digits_grow(s: Seq<char>, k: int, m: int)
    requires
        0 <= k <= m <= s.len(),
    ensures
        digits_value(s.subrange(0, k)) <= digits_value(s.subrange(0, m)),
    decreases m - k,
{
    if k < m {
        lemma_digits_grow(s, k, m - 1);
        assert(s.subrange(0, m).drop_last() =~= s.subrange(0, m - 1));
    }
}

proof fn lemma_digits_push(s: Seq<char>, c: char)
    ensures
        digits_value(s.push(c)) == digits_value(s) * 10 + digit_value(c),
{
    assert(s.push(c).drop_last() =~= s);
}

spec fn ten_to(k: nat) -> nat
    decreases k,
{
    if k == 0 { 1 } else { 10 * ten_to((k - 1) as nat) }
}

fn is_digit_char(c: char) -> (r: bool)
    ensures
        r == is_digit(c),
{
    '0' <= c && c <= '9'
}

fn is_alpha_char(c: char) -> (r: bool)
    ensures
        r == is_alpha(c),
{
    ('a' <= c && c <= 'z') || ('A' <= c && c <= 'Z') || c == '_'
}

fn spells(chars: &Vec<char>, start: usize, end: usize, w: &[char]) -> (r: bool)
    requires
        start <= end <= chars@.len(),
    ensures
        r == (chars@.subrange(start as int, end as int) == w@),
{
    if end - start != w.len() {
        return false;
    }
    let mut k: usize = 0;
    while k < w.len()
        invariant
            end - start == w@.len(),
            start <= end <= chars@.len(),
            k <= w@.len(),
            forall|j: int| 0 <= j < k ==> chars@[start + j] == w@[j],
        decreases w.len() - k,
    {
        if chars[start + k] != w[k] {
            assert(chars@.subrange(start as int, end as int)[k as int] != w@[k as int]);
            return false;
        }
        k = k + 1;
    }
    assert(chars@.subrange(start as int, end as int) =~= w@);
    true
}

fn keyword(chars: &Vec<char>, start: usize, end: usize) -> (r: Option<TokenType>)
    requires
        start <= end <= chars@.len(),
    ensures
        r == keyword_of(chars@.subrange(start as int, end as int)),
{
    let ghost s = chars@.subrange(start as int, end as int);
    let w_and = ['a', 'n', 'd'];
    let w_else = ['e', 'l', 's', 'e'];
    let w_false = ['f', 'a', 'l', 's', 'e'];
    let w_fun = ['f', 'u', 'n'];
    let w_if = ['i', 'f'];
    let w_nil = ['n', 'i', 'l'];
    let w_or = ['o', 'r'];
    let w_print = ['p', 'r', 'i', 'n', 't'];
    let w_return = ['r', 'e', 't', 'u', 'r', 'n'];
    let w_true = ['t', 'r', 'u', 'e'];
    let w_var = ['v', 'a', 'r'];
    let w_while = ['w', 'h', 'i', 'l', 'e'];
    assert(w_and@ =~= fixed_text(TokenType::And));
    assert(w_else@ =~= fixed_text(TokenType::Else));
    assert(w_false@ =~= fixed_text(TokenType::False));
    assert(w_fun@ =~= fixed_text(TokenType::Fun));
    assert(w_if@ =~= fixed_text(TokenType::If));
    assert(w_nil@ =~= fixed_text(TokenType::Nil));
    assert(w_or@ =~= fixed_text(TokenType::Or));
    assert(w_print@ =~= fixed_text(TokenType::Print));
    assert(w_return@ =~= fixed_text(TokenType::Return));
    assert(w_true@ =~= fixed_text(TokenType::True));
    assert(w_var@ =~= fixed_text(TokenType::Var));
    assert(w_while@ =~= fixed_text(TokenType::While));
    if spells(chars, start, end, w_and.as_slice()) { Some(TokenType::And) }
    else if spells(chars, start, end, w_else.as_slice()) { Some(TokenType::Else) }
    else if spells(chars, start, end, w_false.as_slice()) { Some(TokenType::False) }
    else if spells(chars, start, end, w_fun.as_slice()) { Some(TokenType::Fun) }
    else if spells(chars, start, end, w_if.as_slice()) { Some(TokenType::If) }
    else if spells(chars, start, end, w_nil.as_slice()) { Some(TokenType::Nil) }
    else if spells(chars, start, end, w_or.as_slice()) { Some(TokenType::Or) }
    else if spells(chars, start, end, w_print.as_slice()) { Some(TokenType::Print) }
    else if spells(chars, start, end, w_return.as_slice()) { Some(TokenType::Return) }
    else if spells(chars, start, end, w_true.as_slice()) { Some(TokenType::True) }
    else if spells(chars, start, end, w_var.as_slice()) { Some(TokenType::Var) }
    else if spells(chars, start, end, w_while.as_slice()) { Some(TokenType::While) }
    else { None }
}

/// Reads the number literal that starts at `start`: returns where it ends,
/// where its point is (its end if it has none) and its value; `None` if the
/// value does not fit.
fn scan_number(chars: &Vec<char>, start: usize) -> (r: Option<(usize, usize, Number)>)
    requires
        start < chars@.len(),
        is_digit(chars@[start as int]),
    ensures
        match r {
            Some((end, dot, n)) => {
                &&& number_fits(chars@, start as int)
                &&& number_span(chars@, start as int) == (dot as int, end as int)
                &&& start < dot <= end <= chars@.len()
                &&& is_number_text(chars@.subrange(start as int, end as int), dot - start)
                &&& n.units == number_units(chars@.subrange(start as int, end as int), dot - start)
            },
            None => !number_fits(chars@, start as int),
        },
{
    let n = chars.len();
    let mut i: usize = start;
    let mut whole: u64 = 0;
    while i < n && is_digit_char(chars[i])
        invariant
            start <= i <= n,
            n == chars@.len(),
            whole == digits_value(chars@.subrange(start as int, i as int)),
            whole < 10_000_000_000_000,
            digits_end(chars@, start as int) == digits_end(chars@, i as int),
            forall|k: int| start <= k < i ==> is_digit(#[trigger] chars@[k]),
        decreases n - i,
    {
        if whole >= 1_000_000_000_000 {
            proof {
                lemma_digits_push(chars@.subrange(start as int, i as int), chars@[i as int]);
                assert(chars@.subrange(start as int, i + 1) =~= chars@.subrange(start as int, i as int).push(chars@[i as int]));
                let dot = digits_end(chars@, start as int);
                lemma_digits_end(chars@, i as int);
                lemma_digits_end(chars@, i + 1);
                let (d2, e2) = number_span(chars@, start as int);
                lemma_digits_end(chars@, dot + 1);
                let text = chars@.subrange(start as int, e2);
                assert(text.subrange(0, dot - start) =~= chars@.subrange(start as int, dot));
                assert(chars@.subrange(start as int, dot).subrange(0, i + 1 - start) =~= chars@.subrange(start as int, i + 1));
                assert(dot == digits_end(chars@, i + 1));
                assert(dot >= i + 1);
                assert(digits_value(chars@.subrange(start as int, i + 1)) >= 10_000_000_000_000);
                lemma_digits_grow(chars@.subrange(start as int, dot), i + 1 - start, dot - start);
                assert(chars@.subrange(start as int, dot).subrange(0, dot - start) =~= chars@.subrange(start as int, dot));
                assert(d2 == dot);
            }
            return None;
        }
        proof {
            lemma_digits_push(chars@.subrange(start as int, i as int), chars@[i as int]);
            assert(chars@.subrange(start as int, i + 1) =~= chars@.subrange(start as int, i as int).push(chars@[i as int]));
        }
        whole = whole * 10 + (chars[i] as u64 - '0' as u64);
        i = i + 1;
    }
    proof {
        lemma_digits_end(chars@, i as int);
    }
    let dot = i;
    let mut end = i;
    if i < n && chars[i] == '.' && i + 1 < n && is_digit_char(chars[i + 1]) {
        end = i + 1;
        while end < n && is_digit_char(chars[end])
            invariant
                dot + 1 <= end <= n,
                n == chars@.len(),
                forall|k: int| dot < k < end ==> is_digit(#[trigger] chars@[k]),
                digits_end(chars@, dot + 1) == digits_end(chars@, end as int),
            decreases n - end,
        {
            end = end + 1;
        }
    }
    let ghost text = chars@.subrange(start as int, end as int);
    let ghost frac = if dot < end { chars@.subrange(dot + 1, end as int) } else { Seq::<char>::empty() };
    let ghost six = six_digits(frac);
    let mut f: u64 = 0;
    let mut k: usize = 0;
    while k < 6
        invariant
            k <= 6,
            dot <= end <= n,
            n == chars@.len(),
            frac == (if dot < end { chars@.subrange(dot + 1, end as int) } else { Seq::<char>::empty() }),
            six == six_digits(frac),
            forall|j: int| dot < j < end ==> is_digit(#[trigger] chars@[j]),
            f == digits_value(six.subrange(0, k as int)),
            f < ten_to(k as nat),
        decreases 6 - k,
    {
        let c: char = if dot < end && k < end - dot - 1 { chars[dot + 1 + k] } else { '0' };
        assert(c == six[k as int]);
        proof {
            lemma_digits_push(six.subrange(0, k as int), c);
            assert(six.subrange(0, k + 1) =~= six.subrange(0, k as int).push(c));
        }
        proof {
            reveal_with_fuel(ten_to, 7);
            let t = ten_to(k as nat);
            assert(t <= 100000);
            assert(ten_to((k + 1) as nat) == 10 * t);
            let d = c as u64 - '0' as u64;
            assert(f * 10 + d < 10 * t) by (nonlinear_arith)
                requires
                    f < t,
                    d <= 9,
            ;
        }
        f = f * 10 + (c as u64 - '0' as u64);
        k = k + 1;
    }
    assert(six.subrange(0, 6) =~= six);
    proof {
        reveal_with_fuel(ten_to, 7);
    }
    assert(text.subrange(0, dot - start) =~= chars@.subrange(start as int, dot as int));
    if dot < end {
        assert(text.subrange(dot - start + 1, text.len() as int) =~= frac);
    }
    proof {
        lemma_digits_end(chars@, end as int);
        assert(number_span(chars@, start as int) == (dot as int, end as int));
    }
    if end - dot > 7 {
        return None;
    }
    let units: u64 = whole * 1_000_000 + f;
    if units > 9_223_372_036_854_775_807 {
        return None;
    }
    Some((end, dot, Number { units: units as i64 }))
}

} // verus!

verus! {

/// The punctuation token that starts at `i`, and its width.
fn punctuation(chars: &Vec<char>, i: usize) -> (r: Option<(TokenType, usize)>)
    requires
        i < chars@.len(),
    ensures
        r is None <==> punct_width(chars@, i as int) == 0,
        r matches Some((t, w)) ==> {
            &&& w == punct_width(chars@, i as int)
            &&& 1 <= w && i + w <= chars@.len()
            &&& chars@.subrange(i as int, i + w) == fixed_text(t)
            &&& !(t is Identifier) && !(t is String) && !(t is Number) && !(t is EOF)
        },
{
    let n = chars.len();
    let c = chars[i];
    let next_eq = i + 1 < n && chars[i + 1] == '=';
    let r = if c == '(' { Some((TokenType::LeftParen, 1)) }
    else if c == ')' { Some((TokenType::RightParen, 1)) }
    else if c == '{' { Some((TokenType::LeftBrace, 1)) }
    else if c == '}' { Some((TokenType::RightBrace, 1)) }
    else if c == ',' { Some((TokenType::Comma, 1)) }
    else if c == ';' { Some((TokenType::Semicolon, 1)) }
    else if c == '-' { Some((TokenType::Minus, 1)) }
    else if c == '+' { Some((TokenType::Plus, 1)) }
    else if c == '/' { Some((TokenType::Slash, 1)) }
    else if c == '*' { Some((TokenType::Star, 1)) }
    else if c == '!' { if next_eq { Some((TokenType::BangEqual, 2)) } else { Some((TokenType::Bang, 1)) } }
    else if c == '=' { if next_eq { Some((TokenType::EqualEqual, 2)) } else { Some((TokenType::Equal, 1)) } }
    else if c == '>' { if next_eq { Some((TokenType::GreaterEqual, 2)) } else { Some((TokenType::Greater, 1)) } }
    else if c == '<' { if next_eq { Some((TokenType::LessEqual, 2)) } else { Some((TokenType::Less, 1)) } }
    else { None };
    proof {
        if let Some((_, w)) = r {
            if w == 1 {
                assert(chars@.subrange(i as int, i + 1) =~= seq![c]);
            } else {
                assert(chars@.subrange(i as int, i + 2) =~= seq![c, '=']);
            }
        }
    }
    r
}

impl Lexer {
    /// The characters of the source.
    pub closed spec fn text(&self) -> Seq<char> {
        self.chars@
    }

    pub closed spec fn wf(&self) -> bool {
        self.source@ == self.chars@
    }

    pub fn new(source: String) -> (r: Lexer)
        ensures
            r.wf(),
            r.text() == source@,
    {
        let n = source.as_str().unicode_len();
        let mut chars: Vec<char> = Vec::new();
        let mut i: usize = 0;
        while i < n
            invariant
                n == source@.len(),
                i <= n,
                chars@ == source@.subrange(0, i as int),
            decreases n - i,
        {
            chars.push(source.as_str().get_char(i));
            i = i + 1;
            assert(chars@ =~= source@.subrange(0, i as int));
        }
        assert(chars@ =~= source@);
        Lexer { source, chars }
    }

    fn token(&self, t: TokenType, start: usize, end: usize, line: usize, column: usize) -> (r: Token)
        requires
            self.wf(),
            start <= end <= self.chars@.len(),
        ensures
            r.token_type == t,
            r.lexeme@ == self.chars@.subrange(start as int, end as int),
            r.line == line,
            r.column == column,
    {
        let text = String::from_str(self.source.as_str().substring_char(start, end));
        Token { token_type: t, lexeme: text, line, column }
    }

    /// Scans the whole source. Spaces, tabs, carriage returns and comments
    /// (`//` to the end of the line) are skipped; a line break is a token.
    pub fn scan_tokens(&self) -> (r: Result<Vec<Token>, LexError>)
        requires
            self.wf(),
        ensures
            match r {
                Ok(ts) => tokens_wf(ts@),
                Err(e) => e.position < self.text().len() && self.text()[e.position as int] == e.character,
            },
            match lex(self.text(), 0, 0, 0, Seq::empty()) {
                Ok(spans) => r matches Ok(ts) && tokens_at(self.text(), ts@, spans),
                Err(p) => r matches Err(e) && e.position == p,
            },
    {
        let ghost total = lex(self.chars@, 0, 0, 0, Seq::empty());
        let ghost mut spans: Seq<(int, int, int, int)> = Seq::empty();
        let n = self.chars.len();
        let mut tokens: Vec<Token> = Vec::new();
        let mut i: usize = 0;
        // Line breaks before `i`, and where the current line starts.
        let mut breaks: usize = 0;
        let mut line_start: usize = 0;
        while i < n
            invariant
                self.wf(),
                n == self.chars@.len(),
                i <= n,
                breaks <= i,
                line_start <= i,
                forall|k: int| 0 <= k < tokens@.len() ==> token_wf(#[trigger] tokens@[k]) && !(tokens@[k].token_type is EOF),
                total == lex(self.chars@, 0, 0, 0, Seq::empty()),
                total == lex(self.chars@, i as int, breaks as int, line_start as int, spans),
                tokens@.len() == spans.len(),
                forall|k: int|
                    0 <= k < spans.len() ==> {
                        &&& #[trigger] tokens@[k].lexeme@ == self.chars@.subrange(spans[k].0, spans[k].1)
                        &&& tokens@[k].line == spans[k].2
                        &&& tokens@[k].column == spans[k].3
                    },
            decreases n - i,
        {
            let c = self.chars[i];
            let line = breaks + 1;
            let col = i - line_start + 1;
            if c == ' ' || c == '\t' || c == '\r' {
                i = i + 1;
            } else if c == '\n' {
                let t = self.token(TokenType::Newline, i, i + 1, line, col);
                assert(self.chars@.subrange(i as int, i + 1) =~= seq!['\n']);
                tokens.push(t);
                proof {
                    spans = spans.push((i as int, i + 1, line as int, col as int));
                }
                i = i + 1;
                breaks = breaks + 1;
                line_start = i;
            } else if c == '/' && i + 1 < n && self.chars[i + 1] == '/' {
                i = i + 2;
                let ghost i0 = i;
                while i < n && self.chars[i] != '\n'
                    invariant
                        i0 <= i,
                        comment_end(self.chars@, i0 as int) == comment_end(self.chars@, i as int),
                        n == self.chars@.len(),
                        i <= n,
                        breaks <= i,
                        line_start <= i,
                    decreases n - i,
                {
                    i = i + 1;
                }
            } else if c == '"' {
                let mut j: usize = i + 1;
                let mut b2: usize = breaks;
                let mut s2: usize = line_start;
                while j < n && self.chars[j] != '"'
                    invariant
                        n == self.chars@.len(),
                        i < j <= n,
                        b2 <= j,
                        s2 <= j,
                        forall|k: int| i < k < j ==> self.chars@[k] != '"',
                        quote_at(self.chars@, i + 1) == quote_at(self.chars@, j as int),
                        line_marks(self.chars@, i + 1, j as int, breaks as int, line_start as int) == (b2 as int, s2 as int),
                    decreases n - j,
                {
                    if self.chars[j] == '\n' {
                        b2 = b2 + 1;
                        s2 = j + 1;
                    }
                    j = j + 1;
                    assert(line_marks(self.chars@, i + 1, j as int, breaks as int, line_start as int) == (b2 as int, s2 as int));
                }
                if j >= n {
                    return Err(LexError { character: c, position: i, line, column: col });
                }
                let content = String::from_str(self.source.as_str().substring_char(i + 1, j));
                let t = self.token(TokenType::String(content), i, j + 1, line, col);
                assert(t.lexeme@ =~= seq!['"'] + content@ + seq!['"']);
                assert(!content@.contains('"')) by {
                    assert forall|k: int| 0 <= k < content@.len() implies content@[k] != '"' by {
                        assert(content@[k] == self.chars@[i + 1 + k]);
                    }
                }
                tokens.push(t);
                proof {
                    spans = spans.push((i as int, j + 1, line as int, col as int));
                }
                i = j + 1;
                breaks = b2;
                line_start = s2;
            } else if is_digit_char(c) {
                match scan_number(&self.chars, i) {
                    None => {
                        return Err(LexError { character: c, position: i, line, column: col });
                    },
                    Some((end, dot, num)) => {
                        let t = self.token(TokenType::Number(num), i, end, line, col);
                        assert(is_number_text(t.lexeme@, dot - i) && num.units == number_units(t.lexeme@, dot - i));
                        tokens.push(t);
                        proof {
                            spans = spans.push((i as int, end as int, line as int, col as int));
                        }
                        i = end;
                    },
                }
            } else if is_alpha_char(c) {
                let mut j: usize = i + 1;
                while j < n && (is_alpha_char(self.chars[j]) || is_digit_char(self.chars[j]))
                    invariant
                        n == self.chars@.len(),
                        i < j <= n,
                        forall|k: int| i <= k < j ==> is_alpha(#[trigger] self.chars@[k]) || is_digit(self.chars@[k]),
                        word_end(self.chars@, i + 1) == word_end(self.chars@, j as int),
                    decreases n - j,
                {
                    j = j + 1;
                }
                let ghost w = self.chars@.subrange(i as int, j as int);
                assert(is_word(w)) by {
                    assert forall|k: int| 0 <= k < w.len() implies is_alpha(#[trigger] w[k]) || is_digit(w[k]) by {
                        assert(w[k] == self.chars@[i + k]);
                    }
                }
                let t = match keyword(&self.chars, i, j) {
                    Some(kw) => self.token(kw, i, j, line, col),
                    None => {
                        let name = String::from_str(self.source.as_str().substring_char(i, j));
                        self.token(TokenType::Identifier(name), i, j, line, col)
                    },
                };
                tokens.push(t);
                proof {
                    spans = spans.push((i as int, j as int, line as int, col as int));
                }
                i = j;
            } else {
                match punctuation(&self.chars, i) {
                    Some((tt, w)) => {
                        let t = self.token(tt, i, i + w, line, col);
                        tokens.push(t);
                        proof {
                            spans = spans.push((i as int, i + w, line as int, col as int));
                        }
                        i = i + w;
                    },
                    None => {
                        return Err(LexError { character: c, position: i, line, column: col });
                    },
                }
            }
        }
        assert(total == Ok::<Seq<(int, int, int, int)>, int>(spans));
        tokens.push(
            Token {
                token_type: TokenType::EOF,
                lexeme: String::new(),
                line: breaks.saturating_add(1),
                column: (i - line_start).saturating_add(1),
            },
        );
        Ok(tokens)
    }
}

/// Scans `source` into tokens.
pub fn scan(source: &str) -> (r: Result<Vec<Token>, LexError>)
    ensures
        match r {
            Ok(ts) => tokens_wf(ts@),
            Err(e) => e.position < source@.len() && source@[e.position as int] == e.character,
        },
        match lex(source@, 0, 0, 0, Seq::empty()) {
            Ok(spans) => r matches Ok(ts) && tokens_at(source@, ts@, spans),
            Err(p) => r matches Err(e) && e.position == p,
        },
{
    let lexer = Lexer::new(String::from_str(source));
    lexer.scan_tokens()
}

} // verus!
