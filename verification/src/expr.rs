pub mod binding_usage;
pub mod block;
pub mod func_call;

pub use binding_usage::BindingUsage;
pub use block::Block;
pub use func_call::FuncCall;

use crate::decimal::read_decimal;
use crate::env::Env;
use crate::failure::{division_by_zero, evaluated_as, overflow, type_mismatch};
use crate::grammar;
use crate::model::ExprModel;
use crate::semantics::{
    apply, eval_expression, expression_settles, settled_expression, within_limit,
    MAX_CALL_DEPTH,
};
use crate::utils::{extract_digits, extract_whitespaces, parsed_as, tag};
use crate::val::Val;
use vstd::prelude::*;

verus! {

/// An integer literal.
#[derive(Debug, PartialEq)]
pub struct Number(pub i32);

impl View for Number {
    type V = ExprModel;

    open spec fn view(&self) -> ExprModel {
        ExprModel::Number(self.0)
    }
}

impl Number {
    /// Parses an integer literal at the front of `s`: digits that write a number
    /// not above `i32::MAX`.
    pub fn new(s: &str) -> (res: Result<(&str, Self), String>)
        ensures
            parsed_as(res, grammar::number(s@)),
            res matches Ok((remainder, _)) ==> remainder@.len() < s@.len(),
    {
        let (s, number) = extract_digits(s)?;
        match read_decimal(number) {
            Some(n) => Ok((s, Number(n))),
            None => Err(String::from_str("number literal out of range")),
        }
    }
}

impl Clone for Number {
    fn clone(&self) -> (res: Self)
        ensures
            res == *self,
    {
        Number(self.0)
    }
}

/// The four arithmetic operations.
#[derive(Debug, Clone, Copy, PartialEq, Eq)]
pub enum Operations {
    Add,
    Sub,
    Mul,
    Div,
}

impl View for Operations {
    type V = Operations;

    open spec fn view(&self) -> Operations {
        *self
    }
}

impl Operations {
    /// Parses one of `+ - * /` at the front of `s`.
    pub fn new(s: &str) -> (res: Result<(&str, Self), String>)
        ensures
            parsed_as(res, grammar::operator(s@)),
            res matches Ok((remainder, _)) ==> remainder@.len() < s@.len(),
    {
        proof {
            reveal_strlit("+");
            reveal_strlit("-");
            reveal_strlit("*");
            reveal_strlit("/");
        }
        match tag("+", s) {
            Ok(s) => Ok((s, Operations::Add)),
            Err(_) => match tag("-", s) {
                Ok(s) => Ok((s, Operations::Sub)),
                Err(_) => match tag("*", s) {
                    Ok(s) => Ok((s, Operations::Mul)),
                    Err(_) => match tag("/", s) {
                        Ok(s) => Ok((s, Operations::Div)),
                        Err(e) => Err(e),
                    },
                },
            },
        }
    }
}

impl Operations {
    /// Applies the operation to two values: the exact result where both are
    /// numbers, the divisor is not zero and the result is an `i32`.
    pub fn apply(self, lhs: Val, rhs: Val) -> (res: Result<Val, String>)
        ensures
            evaluated_as(res, apply(self, lhs, rhs)),
    {
        let (lhs, rhs) = match (lhs, rhs) {
            (Val::Number(lhs), Val::Number(rhs)) => (lhs, rhs),
            _ => {
                return Err(type_mismatch());
            },
        };
        let res = match self {
            Operations::Add => lhs.checked_add(rhs),
            Operations::Sub => lhs.checked_sub(rhs),
            Operations::Mul => lhs.checked_mul(rhs),
            Operations::Div => {
                if rhs == 0 {
                    return Err(division_by_zero());
                }
                lhs.checked_div(rhs)
            },
        };
        match res {
            Some(n) => Ok(Val::Number(n)),
            None => Err(overflow()),
        }
    }
}

/// An expression.
#[derive(Debug, PartialEq)]
pub enum Expression {
    Number(Number),
    Operation { lhs: Box<Self>, rhs: Box<Self>, op: Operations },
    FuncCall(FuncCall),
    BindingUsage(BindingUsage),
    Block(Block),
}

impl Expression {
    /// Parses an expression at the front of `s`: an operation, or else an
    /// expression that is no operation.
    pub fn new(s: &str) -> (res: Result<(&str, Self), String>)
        ensures
            parsed_as(res, grammar::expression(s@)),
            res matches Ok((remainder, _)) ==> remainder@.len() < s@.len(),
        decreases s@.len(), 6int,
    {
        match Self::new_operation(s) {
            Ok(parsed) => Ok(parsed),
            Err(_) => Self::new_non_operation(s),
        }
    }

    /// Parses an expression that is no operation at the front of `s`: a number,
    /// or else a function call, or else the use of a binding, or else a block.
    pub fn new_non_operation(s: &str) -> (res: Result<(&str, Self), String>)
        ensures
            parsed_as(res, grammar::non_operation(s@)),
            res matches Ok((remainder, _)) ==> remainder@.len() < s@.len(),
        decreases s@.len(), 4int,
    {
        match Self::new_number(s) {
            Ok(parsed) => Ok(parsed),
            Err(_) => match FuncCall::new(s) {
                Ok((s, func_call)) => Ok((s, Expression::FuncCall(func_call))),
                Err(_) => match BindingUsage::new(s) {
                    Ok((s, binding_usage)) => Ok((s, Expression::BindingUsage(binding_usage))),
                    Err(_) => match Block::new(s) {
                        Ok((s, block)) => Ok((s, Expression::Block(block))),
                        Err(e) => Err(e),
                    },
                },
            },
        }
    }

    /// Parses an operation at the front of `s`: two expressions that are no
    /// operations, with an operator between them.
    pub fn new_operation(s: &str) -> (res: Result<(&str, Self), String>)
        ensures
            parsed_as(res, grammar::operation(s@)),
            res matches Ok((remainder, _)) ==> remainder@.len() < s@.len(),
        decreases s@.len(), 5int,
    {
        let (after_lhs, lhs) = Self::new_non_operation(s)?;
        let (before_op, _) = extract_whitespaces(after_lhs);
        let (after_op, op) = Operations::new(before_op)?;
        let (before_rhs, _) = extract_whitespaces(after_op);
        let (remainder, rhs) = Self::new_non_operation(before_rhs)?;
        Ok((remainder, Expression::Operation { lhs: Box::new(lhs), rhs: Box::new(rhs), op }))
    }

    /// Parses an integer literal at the front of `s`.
    pub fn new_number(s: &str) -> (res: Result<(&str, Self), String>)
        ensures
            parsed_as(res, grammar::number(s@)),
            res matches Ok((remainder, _)) ==> remainder@.len() < s@.len(),
    {
        match Number::new(s) {
            Ok((s, number)) => Ok((s, Expression::Number(number))),
            Err(e) => Err(e),
        }
    }

    /// Evaluates the expression in `env`, which it leaves as it is.
    /// Function calls may be nested as deep as the machine holds: the limit
    /// under which this evaluates, `MAX_CALL_DEPTH`, is the largest `usize`,
    /// and a result that the limit does not decide is the one under every
    /// larger limit.
    pub fn eval(&self, env: &Env) -> (res: Result<Val, String>)
        ensures
            evaluated_as(res, eval_expression(self@, env@, MAX_CALL_DEPTH as nat)),
            within_limit(eval_expression(self@, env@, MAX_CALL_DEPTH as nat))
                ==> settled_expression(self@, env@, MAX_CALL_DEPTH as nat),
    {
        proof {
            if within_limit(eval_expression(self@, env@, MAX_CALL_DEPTH as nat)) {
                expression_settles(self@, env@, MAX_CALL_DEPTH as nat);
            }
        }
        self.eval_within(env, MAX_CALL_DEPTH)
    }

    /// Evaluates the expression in `env`, with function calls nested at most
    /// `depth` deep.
    pub fn eval_within(&self, env: &Env, depth: usize) -> (res: Result<Val, String>)
        ensures
            evaluated_as(res, eval_expression(self@, env@, depth as nat)),
        decreases depth, self,
    {
        match self {
            Expression::Number(Number(n)) => Ok(Val::Number(*n)),
            Expression::Operation { lhs, rhs, op } => {
                let lhs = lhs.eval_within(env, depth)?;
                let rhs = rhs.eval_within(env, depth)?;
                op.apply(lhs, rhs)
            },
            Expression::FuncCall(func_call) => func_call.eval_within(env, depth),
            Expression::BindingUsage(binding_usage) => binding_usage.eval(env),
            Expression::Block(block) => block.eval_within(env, depth),
        }
    }

    /// The expression as a mathematical value.
    pub open spec fn model(&self) -> ExprModel
        decreases self,
    {
        match self {
            Expression::Number(number) => ExprModel::Number(number.0),
            Expression::Operation { lhs, rhs, op } => ExprModel::Operation {
                lhs: Box::new(lhs.model()),
                rhs: Box::new(rhs.model()),
                op: *op,
            },
            Expression::FuncCall(func_call) => func_call.model(),
            Expression::BindingUsage(binding_usage) => ExprModel::BindingUsage {
                name: binding_usage.name@,
            },
            Expression::Block(block) => block.model(),
        }
    }
}

impl View for Expression {
    type V = ExprModel;

    open spec fn view(&self) -> ExprModel {
        self.model()
    }
}

impl Clone for Expression {
    fn clone(&self) -> (res: Self)
        ensures
            res@ == self@,
        decreases self,
    {
        match self {
            Expression::Number(number) => Expression::Number(number.clone()),
            Expression::Operation { lhs, rhs, op } => Expression::Operation {
                lhs: Box::new(Expression::clone(lhs)),
                rhs: Box::new(Expression::clone(rhs)),
                op: *op,
            },
            Expression::FuncCall(func_call) => Expression::FuncCall(func_call.clone()),
            Expression::BindingUsage(binding_usage) => Expression::BindingUsage(
                binding_usage.clone(),
            ),
            Expression::Block(block) => Expression::Block(block.clone()),
        }
    }
}

} // verus!
