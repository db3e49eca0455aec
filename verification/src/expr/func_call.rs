use crate::env::Env;
use crate::expr::Expression;
use crate::failure::{arity_mismatch, depth_exceeded, evaluated_as, EvalFailure};
use crate::func_def::name_views;
use crate::grammar;
use crate::model::ExprModel;
use crate::semantics::{
    eval_arguments, eval_expression, expression_settles, lemma_argument_failure,
    settled_expression, within_limit, MAX_CALL_DEPTH,
};
use crate::utils::{
    extract_ident, extract_nothing, extract_spaces_with_error, non_empty_sequence, parsed_as,
    views,
};
use crate::val::Val;
use vstd::prelude::*;

verus! {

/// A call of a function by its name, with the expressions for its arguments.
#[derive(Debug, PartialEq)]
pub struct FuncCall {
    pub callee: String,
    pub params: Vec<Expression>,
}

impl FuncCall {
    /// Parses a function call at the front of `s`: an identifier and one or
    /// more arguments, each of them one or more spaces and an expression.
    /// Nothing is taken after the last argument, and a newline ends the
    /// arguments.
    pub fn new(s: &str) -> (res: Result<(&str, Self), String>)
        ensures
            parsed_as(res, grammar::func_call(s@)),
            res matches Ok((remainder, _)) ==> remainder@.len() < s@.len(),
        decreases s@.len(), 3int,
    {
        let (after_callee, callee) = extract_ident(s)?;
        let (remainder, params) = non_empty_sequence(
            (|x: &str| -> (r: Result<(&str, Expression), String>)
                requires
                    x@.len() < s@.len(),
                ensures
                    parsed_as(r, grammar::argument_item(s@.len())(x@)),
                    r matches Ok((after, _)) ==> after@.len() < x@.len(),
                {
                    match extract_spaces_with_error(x) {
                        Ok((before_expr, _)) => Expression::new(before_expr),
                        Err(e) => Err(e),
                    }
                }),
            (|x: &str| -> (r: (&str, &str))
                ensures
                    r.0@ == x@,
                {
                    extract_nothing(x)
                }),
            after_callee,
            Ghost(grammar::argument_item(s@.len())),
            Ghost(grammar::no_separator()),
        )?;
        let res = FuncCall { callee: String::from_str(callee), params };
        assert(res@->params =~= views(params@));
        Ok((remainder, res))
    }

    /// Calls the function in `env`, which it leaves as it is.
    /// Function calls may be nested as deep as the machine holds: the limit
    /// under which this evaluates, `MAX_CALL_DEPTH`, is the largest `usize`,
    /// and a result that the limit does not decide is the one under every
    /// larger limit.
    pub fn eval(&self, env: &Env) -> (res: Result<Val, String>)
        ensures
            evaluated_as(res, eval_expression(self@, env@, MAX_CALL_DEPTH as nat)),
            within_limit(eval_expression(self@, env@, MAX_CALL_DEPTH as nat))
                ==> settled_expression(self@, env@, MAX_CALL_DEPTH as nat),
    {
        proof {
            if within_limit(eval_expression(self@, env@, MAX_CALL_DEPTH as nat)) {
                expression_settles(self@, env@, MAX_CALL_DEPTH as nat);
            }
        }
        self.eval_within(env, MAX_CALL_DEPTH)
    }

    /// Calls the function in `env`, with function calls nested at most `depth`
    /// deep, this one included. The arguments are evaluated in `env`; the body
    /// is evaluated in a new scope inside `env` that holds the parameters.
    pub fn eval_within(&self, env: &Env, depth: usize) -> (res: Result<Val, String>)
        ensures
            evaluated_as(res, eval_expression(self@, env@, depth as nat)),
        decreases depth, self,
    {
        let mut child_env = env.create_child();
        let (param_names, body) = env.get_func(self.callee.as_str())?;

        let num_expected_params = param_names.len();
        let num_actual_params = self.params.len();

        if num_expected_params != num_actual_params {
            return Err(arity_mismatch(num_expected_params, num_actual_params));
        }
        let ghost names = name_views(param_names@);
        let ghost params = self@->params;
        let ghost mut values: Seq<Val> = Seq::empty();
        let mut i: usize = 0;
        while i < num_actual_params
            invariant
                0 <= i <= num_actual_params,
                num_actual_params == self.params.len(),
                num_expected_params == param_names.len(),
                num_expected_params == num_actual_params,
                names == name_views(param_names@),
                env@.func(self.callee@) == Some((names, body@)),
                params == self@->params,
                params.len() == num_actual_params,
                forall|k: int| 0 <= k < params.len() ==> params[k] == self.params[k]@,
                values.len() == i,
                eval_arguments(params.take(i as int), env@, depth as nat) == Ok::<
                    Seq<Val>,
                    EvalFailure,
                >(values),
                child_env@ == env@.child().with_bindings(names.take(i as int), values),
            decreases num_actual_params - i,
        {
            assert(params[i as int] == self.params[i as int]@);
            let param_val = match self.params[i].eval_within(env, depth) {
                Ok(value) => value,
                Err(e) => {
                    proof {
                        lemma_argument_failure(
                            params,
                            i as int,
                            params.len() as int,
                            env@,
                            depth as nat,
                        );
                        assert(params.take(params.len() as int) =~= params);
                    }
                    return Err(e);
                },
            };
            child_env.store_binding(param_names[i].clone(), param_val);
            proof {
                assert(params.take(i + 1).drop_last() =~= params.take(i as int));
                assert(names.take(i + 1).drop_last() =~= names.take(i as int));
                assert(values.push(param_val).drop_last() =~= values);
                values = values.push(param_val);
            }
            i = i + 1;
        }
        proof {
            assert(params.take(i as int) =~= params);
            assert(names.take(i as int) =~= names);
        }
        if depth == 0 {
            return Err(depth_exceeded());
        }
        body.eval_within(&mut child_env, depth - 1)
    }

    /// The call as a mathematical value.
    pub open spec fn model(&self) -> ExprModel
        decreases self,
    {
        ExprModel::FuncCall {
            callee: self.callee@,
            params: Seq::new(
                self.params.len() as nat,
                |i: int|
                    if 0 <= i < self.params.len() {
                        self.params[i].model()
                    } else {
                        ExprModel::Number(0)
                    },
            ),
        }
    }
}

impl View for FuncCall {
    type V = ExprModel;

    open spec fn view(&self) -> ExprModel {
        self.model()
    }
}

impl Clone for FuncCall {
    fn clone(&self) -> (res: Self)
        ensures
            res@ == self@,
        decreases self,
    {
        let mut params: Vec<Expression> = Vec::new();
        let mut i: usize = 0;
        while i < self.params.len()
            invariant
                0 <= i <= self.params.len(),
                params.len() == i,
                forall|k: int| 0 <= k < i ==> params[k]@ == self.params[k]@,
            decreases self.params.len() - i,
        {
            params.push(self.params[i].clone());
            i = i + 1;
        }
        let res = FuncCall { callee: self.callee.clone(), params };
        assert(res@->params =~= self@->params);
        res
    }
}

} // verus!
