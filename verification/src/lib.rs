//! A small expression language: a recursive-descent parser and a tree-walking
//! evaluator, with integer arithmetic, immutable bindings, functions and
//! blocks that have a scope of their own.
//!
//! `grammar` says what each parser makes of a text and `semantics` what each
//! statement evaluates to; the parsers and evaluators are proved to compute
//! exactly that. `unparse` writes a statement back as text. `laws` holds what
//! follows for bindings, scopes, arithmetic, calls, blocks and the round trip
//! through text; `texts`, `round_trip`, `guard` and `parsed` hold the lemmas
//! of the round trip.
pub mod binding_def;
pub mod decimal;
pub mod env;
pub mod expr;
pub mod failure;
pub mod func_def;
pub mod grammar;
pub mod guard;
pub mod laws;
pub mod model;
pub mod parsed;
pub mod round_trip;
pub mod semantics;
pub mod statements;
pub mod texts;
pub mod unparse;
pub mod utils;
pub mod val;

pub use env::Env;
pub use val::Val;

use failure::evaluated_as;
use model::StmtModel;
use semantics::{eval_statement, settled_statement, within_limit, MAX_CALL_DEPTH};
use statements::Statement;
use unparse::statement_text;
use vstd::prelude::*;

verus! {

/// A statement that was parsed from a whole input.
#[derive(Debug)]
pub struct Parse(Statement);

impl View for Parse {
    type V = StmtModel;

    closed spec fn view(&self) -> StmtModel {
        self.0@
    }
}

impl Parse {
    /// Evaluates the statement in `env`. A definition changes the current scope
    /// of `env` and gives `Unit`; an expression leaves `env` as it is and gives
    /// its value. Where the evaluation fails, `env` stays as it was.
    /// Function calls may be nested as deep as the machine holds: the limit
    /// under which this evaluates, `MAX_CALL_DEPTH`, is the largest `usize`,
    /// and a result that the limit does not decide is the one under every
    /// larger limit.
    pub fn eval(&self, env: &mut Env) -> (res: Result<Val, String>)
        ensures
            evaluated_as(res, eval_statement(self@, old(env)@, MAX_CALL_DEPTH as nat).0),
            final(env)@ == eval_statement(self@, old(env)@, MAX_CALL_DEPTH as nat).1,
            within_limit(eval_statement(self@, old(env)@, MAX_CALL_DEPTH as nat).0)
                ==> settled_statement(self@, old(env)@, MAX_CALL_DEPTH as nat),
    {
        self.0.eval(env)
    }
}

impl Parse {
    /// The canonical text of the statement.
    pub fn unparse(&self) -> (res: String)
        ensures
            res@ == statement_text(self@),
    {
        self.0.unparse()
    }
}

/// Parses `s` as one statement. The statement must take up all of `s`: where
/// anything is left after it, whitespace included, the parse fails.
pub fn parse(s: &str) -> (res: Result<Parse, String>)
    ensures
        match grammar::program(s@) {
            Ok(stmt) => res matches Ok(parsed) && parsed@ == stmt,
            Err(reason) => res matches Err(e) && e@ == reason,
        },
{
    let (s, stmt) = Statement::new(s)?;
    if s.is_empty() {
        Ok(Parse(stmt))
    } else {
        Err(String::from_str("input was not consumed fully by parser"))
    }
}

} // verus!
