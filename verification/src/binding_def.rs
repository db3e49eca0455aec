use crate::env::Env;
use crate::expr::Expression;
use crate::failure::defined_as;
use crate::grammar;
use crate::model::StmtModel;
use crate::semantics::{
    eval_statement, settled_statement, statement_settles, within_limit, MAX_CALL_DEPTH,
};
use crate::utils::{
    extract_ident, extract_whitespaces, extract_whitespaces_with_error, parsed_as, tag,
};
use vstd::prelude::*;

verus! {

/// The definition of a binding: a name for the value of an expression.
#[derive(Debug, PartialEq)]
pub struct BindingDef {
    pub name: String,
    pub value: Expression,
}

impl BindingDef {
    /// Parses the definition of a binding at the front of `s`: `let`,
    /// whitespace, an identifier, `=` with optional whitespace around it, and an
    /// expression.
    pub fn new(s: &str) -> (res: Result<(&str, Self), String>)
        ensures
            parsed_as(res, grammar::binding_def(s@)),
            res matches Ok((remainder, _)) ==> remainder@.len() < s@.len(),
        decreases s@.len(), 7int,
    {
        proof {
            reveal_strlit("let");
            reveal_strlit("=");
        }
        let after_let = tag("let", s)?;
        let (before_name, _) = extract_whitespaces_with_error(after_let)?;
        let (after_name, name) = extract_ident(before_name)?;
        let (before_equals, _) = extract_whitespaces(after_name);
        let after_equals = tag("=", before_equals)?;
        let (before_value, _) = extract_whitespaces(after_equals);
        let (remainder, value) = Expression::new(before_value)?;
        Ok((remainder, BindingDef { name: String::from_str(name), value }))
    }

    /// Evaluates the expression in `env` and binds the name to its value in the
    /// current scope. Where the expression fails, `env` stays as it was.
    /// Function calls may be nested as deep as the machine holds: the limit
    /// under which this evaluates, `MAX_CALL_DEPTH`, is the largest `usize`,
    /// and a result that the limit does not decide is the one under every
    /// larger limit.
    pub fn eval(&self, env: &mut Env) -> (res: Result<(), String>)
        ensures
            defined_as(res, eval_statement(self@, old(env)@, MAX_CALL_DEPTH as nat).0),
            final(env)@ == eval_statement(self@, old(env)@, MAX_CALL_DEPTH as nat).1,
            within_limit(eval_statement(self@, old(env)@, MAX_CALL_DEPTH as nat).0)
                ==> settled_statement(self@, old(env)@, MAX_CALL_DEPTH as nat),
    {
        proof {
            if within_limit(eval_statement(self@, env@, MAX_CALL_DEPTH as nat).0) {
                statement_settles(self@, env@, MAX_CALL_DEPTH as nat);
            }
        }
        self.eval_within(env, MAX_CALL_DEPTH)
    }

    /// As `eval`, with function calls nested at most `depth` deep.
    pub fn eval_within(&self, env: &mut Env, depth: usize) -> (res: Result<(), String>)
        ensures
            defined_as(res, eval_statement(self@, old(env)@, depth as nat).0),
            final(env)@ == eval_statement(self@, old(env)@, depth as nat).1,
        decreases depth, self,
    {
        let value = self.value.eval_within(env, depth)?;
        env.store_binding(self.name.clone(), value);
        Ok(())
    }

    /// The definition as a mathematical value.
    pub open spec fn model(&self) -> StmtModel
        decreases self,
    {
        StmtModel::BindingDef { name: self.name@, value: self.value.model() }
    }
}

impl View for BindingDef {
    type V = StmtModel;

    open spec fn view(&self) -> StmtModel {
        self.model()
    }
}

impl Clone for BindingDef {
    fn clone(&self) -> (res: Self)
        ensures
            res@ == self@,
        decreases self,
    {
        BindingDef { name: self.name.clone(), value: self.value.clone() }
    }
}

} // verus!
