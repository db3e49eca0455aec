use crate::binding_def::BindingDef;
use crate::expr::Expression;
use crate::func_def::FuncDef;
use crate::env::Env;
use crate::failure::evaluated_as;
use crate::grammar;
use crate::model::StmtModel;
use crate::semantics::{
    eval_statement, settled_statement, statement_settles, within_limit, MAX_CALL_DEPTH,
};
use crate::utils::parsed_as;
use crate::val::Val;
use vstd::prelude::*;

verus! {

/// A statement: the definition of a binding or of a function, or an expression.
#[derive(Debug, PartialEq)]
pub enum Statement {
    BindingDef(BindingDef),
    Expression(Expression),
    FuncDef(FuncDef),
}

impl Statement {
    /// Parses a statement at the front of `s`: the definition of a binding, or
    /// else that of a function, or else an expression.
    pub fn new(s: &str) -> (res: Result<(&str, Self), String>)
        ensures
            parsed_as(res, grammar::statement(s@)),
            res matches Ok((remainder, _)) ==> remainder@.len() < s@.len(),
        decreases s@.len(), 8int,
    {
        match BindingDef::new(s) {
            Ok((s, binding_def)) => Ok((s, Statement::BindingDef(binding_def))),
            Err(_) => match FuncDef::new(s) {
                Ok((s, func_def)) => Ok((s, Statement::FuncDef(func_def))),
                Err(_) => match Expression::new(s) {
                    Ok((s, expr)) => Ok((s, Statement::Expression(expr))),
                    Err(e) => Err(e),
                },
            },
        }
    }

    /// Evaluates the statement in `env`. A definition changes the current scope
    /// of `env` and gives `Unit`; an expression leaves `env` as it is and gives
    /// its value. Where the statement fails, `env` stays as it was.
    /// Function calls may be nested as deep as the machine holds: the limit
    /// under which this evaluates, `MAX_CALL_DEPTH`, is the largest `usize`,
    /// and a result that the limit does not decide is the one under every
    /// larger limit.
    pub fn eval(&self, env: &mut Env) -> (res: Result<Val, String>)
        ensures
            evaluated_as(res, eval_statement(self@, old(env)@, MAX_CALL_DEPTH as nat).0),
            final(env)@ == eval_statement(self@, old(env)@, MAX_CALL_DEPTH as nat).1,
            within_limit(eval_statement(self@, old(env)@, MAX_CALL_DEPTH as nat).0)
                ==> settled_statement(self@, old(env)@, MAX_CALL_DEPTH as nat),
    {
        proof {
            if within_limit(eval_statement(self@, env@, MAX_CALL_DEPTH as nat).0) {
                statement_settles(self@, env@, MAX_CALL_DEPTH as nat);
            }
        }
        self.eval_within(env, MAX_CALL_DEPTH)
    }

    /// As `eval`, with function calls nested at most `depth` deep.
    pub fn eval_within(&self, env: &mut Env, depth: usize) -> (res: Result<Val, String>)
        ensures
            evaluated_as(res, eval_statement(self@, old(env)@, depth as nat).0),
            final(env)@ == eval_statement(self@, old(env)@, depth as nat).1,
        decreases depth, self,
    {
        match self {
            Statement::BindingDef(binding_def) => {
                binding_def.eval_within(env, depth)?;
                Ok(Val::Unit)
            },
            Statement::FuncDef(func_def) => {
                func_def.eval(env)?;
                Ok(Val::Unit)
            },
            Statement::Expression(expr) => expr.eval_within(env, depth),
        }
    }

    /// The statement as a mathematical value.
    pub open spec fn model(&self) -> StmtModel
        decreases self,
    {
        match self {
            Statement::BindingDef(binding_def) => binding_def.model(),
            Statement::Expression(expr) => StmtModel::Expression(expr.model()),
            Statement::FuncDef(func_def) => func_def.model(),
        }
    }
}

impl View for Statement {
    type V = StmtModel;

    open spec fn view(&self) -> StmtModel {
        self.model()
    }
}

impl Clone for Statement {
    fn clone(&self) -> (res: Self)
        ensures
            res@ == self@,
        decreases self,
    {
        match self {
            Statement::BindingDef(binding_def) => Statement::BindingDef(binding_def.clone()),
            Statement::Expression(expr) => Statement::Expression(expr.clone()),
            Statement::FuncDef(func_def) => Statement::FuncDef(func_def.clone()),
        }
    }
}

} // verus!
