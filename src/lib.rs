//! A front end and tree-walking evaluator for a small dynamically typed
//! scripting language: scanner, recursive-descent parser and interpreter.
use vstd::prelude::*;

pub mod ast;
pub mod environment;
pub mod errors;
pub mod grammar;
pub mod interpreter;
pub mod number;
pub mod parser;
pub mod scanner;
pub mod token;
pub mod value;

use crate::ast::Statement;
use crate::errors::{ParseError, RuntimeError, ScanError};
use crate::grammar::statements_view;
use crate::interpreter::{interpret, run_program, values_view};
use crate::parser::{parse, parse_outcome};
use crate::scanner::{scan_outcome, scan_tokens, tokens_view};
use crate::token::Token;
use crate::value::Value;

verus! {

/// Why a run stopped: the errors of the stage that failed.
#[derive(Debug, PartialEq)]
pub enum RunError {
    Scan(Vec<ScanError>),
    Parse(Vec<ParseError>),
    Runtime(RuntimeError),
}

/// Scans, parses and runs source text. Gives the values printed, in order,
/// and why the run stopped early, if it did: the scan errors, else the syntax
/// errors, else the runtime error. `loop_limit` bounds the iterations of each
/// loop.
pub fn run(source: String, loop_limit: u64) -> (r: (Vec<Value>, Result<(), RunError>))
    ensures
        match scan_outcome(source@) {
            Err(es) => r.0@.len() == 0 && (r.1 matches Err(RunError::Scan(v)) && v@ == es),
            Ok(ts) => exists|toks: Seq<Token>|
                #![trigger tokens_view(toks)]
                tokens_view(toks) == ts && match parse_outcome(toks) {
                    Err(es) => r.0@.len() == 0 && (r.1 matches Err(RunError::Parse(v)) && v@
                        == es),
                    Ok(ms) => exists|stmts: Seq<Statement>|
                        #![trigger statements_view(stmts, 0)]
                        statements_view(stmts, 0) == ms && {
                            let (er, _, out) = run_program(stmts, loop_limit as nat);
                            &&& values_view(r.0@) == out
                            &&& match er {
                                Ok(()) => r.1 is Ok,
                                Err(e) => r.1 == Err::<(), RunError>(RunError::Runtime(e)),
                            }
                        },
                },
        },
{
    let ghost src = source@;
    let tokens = match scan_tokens(source) {
        Ok(ts) => ts,
        Err(es) => return (Vec::new(), Err(RunError::Scan(es))),
    };
    let ghost toks = tokens@;
    assert(tokens_view(toks).len() == toks.len());
    assert(tokens_view(toks).len() >= 1) by {
        let (ts, es, last) = crate::scanner::scan_from(src, 0, 1);
        assert(scan_outcome(src) == Ok::<Seq<crate::token::TokenModel>, Seq<ScanError>>(ts.push(crate::scanner::eof_token(last))));
    }
    let statements = match parse(tokens) {
        Ok(ss) => ss,
        Err(es) => return (Vec::new(), Err(RunError::Parse(es))),
    };
    let (printed, result) = interpret(&statements, loop_limit);
    match result {
        Ok(()) => (printed, Ok(())),
        Err(e) => (printed, Err(RunError::Runtime(e))),
    }
}

} // verus!
