//! A tokenizer, parser, and tree-walking interpreter for YOLOL, a small
//! line-oriented scripting language with fixed-point arithmetic.
//!
//! The pipeline is: source text -> [`tokenizer::tokenize`] -> token sequence
//! -> [`parser::parse`] -> statement list -> [`interpreter`] evaluation
//! against a mutable [`environment::Environment`].

pub mod ast;
pub mod environment;
pub mod interpreter;
pub mod errors;
pub mod literal_value;
pub mod chars;
pub mod cylon_ast;
pub mod number;
pub mod parser;
pub mod token;
pub mod tokenizer;
pub mod window;

use vstd::prelude::*;
use crate::ast::{Line, Statement, stats_v};
use crate::environment::Environment;
use crate::interpreter::{StepR, env_of, exec_stats_from};
use crate::number::sat64;
use crate::tokenizer::lex_from;

verus! {

/// Applies one line of source text to the environment: the text is
/// scanned and parsed, then its statements run in order. A lexical or
/// parse failure is recorded in the environment's error slot and moves
/// the next-line cursor one line forward, touching no variable; an
/// evaluation failure is recorded in the error slot and keeps every
/// change already applied, the cursor among them.
pub fn execute_line(env: &mut Environment, line: String)
    requires
        old(env).wf(),
    ensures
        final(env).wf(),
        final(env).name == old(env).name,
        final(env).version == old(env).version,
        lex_from(line@, 0) is None ==> (final(env).locals() == old(env).locals()
            && final(env).globals() == old(env).globals()
            && final(env).next_line as int == sat64(old(env).next_line + 1)
            && final(env).error@.len() > 0),
        lex_from(line@, 0) matches Some(tvs) ==> (match parser::p_line(tvs, 0) {
            parser::PLine::Bad(_, _, _) => (final(env).locals() == old(env).locals()
                && final(env).globals() == old(env).globals()
                && final(env).next_line as int == sat64(old(env).next_line + 1)
                && final(env).error@.len() > 0),
            parser::PLine::Good(svs, _) => exists|ss: Seq<Statement>|
                #[trigger] stats_v(ss) == svs && (match exec_stats_from(env_of(old(env)), ss, 0) {
                    StepR::Done(e2) => (env_of(final(env)) == e2
                        && final(env).error == old(env).error),
                    StepR::Fault(e2, _) => (env_of(final(env)) == e2
                        && final(env).error@.len() > 0),
                }),
        }),
{
    let tokens = match tokenizer::tokenize(line) {
        Ok(tokens) => tokens,
        Err(error) => {
            env.set_error(error.message());
            env.advance_one_line();
            return ;
        },
    };
    let statements = match parser::parse(tokens) {
        Ok(statements) => statements,
        Err(error) => {
            env.set_error(error.error_text);
            env.advance_one_line();
            return ;
        },
    };
    let parsed = Line(statements);
    // The parsed statements witness the contract's existential: their
    // shapes are the line the grammar yields.
    match interpreter::evaluate_line(env, &parsed) {
        Ok(()) => {
            proof {
                let witness = stats_v(parsed.0@);
                assert(stats_v(parsed.0@) == witness);
            }
        },
        Err(error) => {
            let mut recorded = crate::errors::string_of("evaluation error: ");
            recorded.append(error.error_text.as_str());
            proof {
                reveal_strlit("evaluation error: ");
            }
            env.set_error(recorded);
            proof {
                let witness = stats_v(parsed.0@);
                assert(stats_v(parsed.0@) == witness);
            }
        },
    }
}

} // verus!
