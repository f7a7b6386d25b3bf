//! Running source text: scan, parse, then interpret.
use crate::ast::{stmts_view, Stmt};
use crate::grammar::program;
use crate::interpreter::{Host, Interpreter, FUEL, MAX_CALL_DEPTH};
use crate::lexer::{lex, scan, tokens_at, tokens_wf, LexError};
use crate::parser::{ParseError, Parser};
use crate::semantics::run;
use crate::token::Token;
use vstd::prelude::*;

verus! {

/// Why a piece of source text did not run to the end.
#[derive(Debug, PartialEq)]
pub enum RunError {
    Lex(LexError),
    Parse(ParseError),
    Runtime(String),
}

/// What running the program that the grammar reads gives: a parse error
/// where the grammar finds one, else the outcome of running a sequence of
/// statements with the trees it read (where the run calls no host function).
pub open spec fn ran(
    parsed: Option<(Result<Seq<crate::ast::StmtV>, Seq<char>>, int)>,
    before: Interpreter,
    after: Interpreter,
    r: Result<(), RunError>,
) -> bool {
    match parsed {
        Some((Ok(sv), _)) => exists|ss: Seq<Stmt>|
            #[trigger] stmts_view(ss) == sv && match run(ss, before.view(), FUEL as nat, MAX_CALL_DEPTH as nat, after.view().calls) {
                Some((x, m)) => after.view() == m && match x {
                    Ok(_) => r is Ok,
                    Err(msg) => r matches Err(RunError::Runtime(t)) && t@ == msg,
                },
                None => !(r matches Err(RunError::Lex(_))) && !(r matches Err(RunError::Parse(_))),
            },
        Some((Err(msg), p)) => r matches Err(RunError::Parse(e)) && e.message@ == msg && e.token_index == p,
        None => true,
    }
}

/// Scans, parses and runs `source` on `interpreter`; the printed lines
/// stay in the interpreter.
pub fn execute_source<H: Host>(interpreter: &mut Interpreter, host: &mut H, source: &str) -> (r: Result<(), RunError>)
    requires
        old(interpreter).wf(),
    ensures
        final(interpreter).wf(),
        r matches Err(RunError::Lex(e)) ==> e.position < source@.len() && source@[e.position as int] == e.character,
        match lex(source@, 0, 0, 0, Seq::empty()) {
            Err(p) => r matches Err(RunError::Lex(e)) && e.position == p,
            Ok(spans) => exists|ts: Seq<Token>|
                #[trigger] tokens_wf(ts) && tokens_at(source@, ts, spans) && ran(
                    program(ts, 0, Seq::empty()),
                    *old(interpreter),
                    *final(interpreter),
                    r,
                ),
        },
        (r is Err && !(r matches Err(RunError::Runtime(_)))) ==> *final(interpreter) == *old(interpreter),
{
    let tokens = match scan(source) {
        Ok(ts) => ts,
        Err(e) => return Err(RunError::Lex(e)),
    };
    let ghost ts = tokens@;
    let mut parser = Parser::new(tokens);
    let ghost parsed = program(ts, 0, Seq::empty());
    let statements = match parser.parse() {
        Ok(ss) => ss,
        Err(e) => {
            let r = Err(RunError::Parse(e));
            assert(tokens_wf(ts) && ran(parsed, *old(interpreter), *interpreter, r));
            return r;
        },
    };
    let ghost before = *interpreter;
    let r = match interpreter.interpret_with(host, &statements) {
        Ok(_) => Ok(()),
        Err(msg) => Err(RunError::Runtime(msg)),
    };
    proof {
        if let Some((Ok(sv), _)) = parsed {
            assert(stmts_view(statements@) == sv);
        }
    }
    assert(tokens_wf(ts) && ran(parsed, before, *interpreter, r));
    r
}

} // verus!
