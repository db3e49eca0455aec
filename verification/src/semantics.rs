use crate::expr::Operations;
use crate::failure::EvalFailure;
use crate::model::{EnvModel, ExprModel, StmtModel};
use crate::val::Val;
use vstd::prelude::*;

verus! {

/// The limit on nested calls under which `eval` evaluates: the largest
/// `usize`. No evaluation reaches it, so `eval` gives what the statement
/// evaluates to without a limit, as long as the machine holds the nesting. The
/// limit is the measure by which every evaluation is shown to end; the
/// failure `EvalFailure::DepthExceeded` is met only through `eval_within`
/// with a smaller one.
pub const MAX_CALL_DEPTH: usize = usize::MAX;

/// Whether `result` is anything but the failure for calls nested too deep.
pub open spec fn within_limit(result: Result<Val, EvalFailure>) -> bool {
    result != Err::<Val, EvalFailure>(EvalFailure::DepthExceeded)
}

/// Whether `expr` evaluates in `env` to the same under every limit from
/// `depth` on.
pub open spec fn settled_expression(expr: ExprModel, env: EnvModel, depth: nat) -> bool {
    forall|deeper: nat|
        deeper >= depth ==> #[trigger] eval_expression(expr, env, deeper) == eval_expression(
            expr,
            env,
            depth,
        )
}

/// Whether `stmt` evaluates in `env` to the same, and leaves the same
/// environment, under every limit from `depth` on.
pub open spec fn settled_statement(stmt: StmtModel, env: EnvModel, depth: nat) -> bool {
    forall|deeper: nat|
        deeper >= depth ==> #[trigger] eval_statement(stmt, env, deeper) == eval_statement(
            stmt,
            env,
            depth,
        )
}

/// Whether `n` is an `i32`.
pub open spec fn fits(n: int) -> bool {
    i32::MIN <= n <= i32::MAX
}

/// The quotient of `x` by `d`, which is not zero, rounded towards zero.
pub open spec fn truncated_quotient(x: int, d: int) -> int {
    if x >= 0 && d > 0 {
        x / d
    } else if x < 0 && d < 0 {
        (-x) / (-d)
    } else if x < 0 {
        -((-x) / d)
    } else {
        -(x / (-d))
    }
}

/// The exact result of `op` on two integers; the divisor is not zero.
pub open spec fn exact(op: Operations, lhs: int, rhs: int) -> int {
    match op {
        Operations::Add => lhs + rhs,
        Operations::Sub => lhs - rhs,
        Operations::Mul => lhs * rhs,
        Operations::Div => truncated_quotient(lhs, rhs),
    }
}

/// What `op` gives on two numbers: the exact result where it is an `i32`.
pub open spec fn apply_to_numbers(op: Operations, lhs: i32, rhs: i32) -> Result<Val, EvalFailure> {
    if op == Operations::Div && rhs == 0 {
        Err(EvalFailure::DivisionByZero)
    } else if fits(exact(op, lhs as int, rhs as int)) {
        Ok(Val::Number(exact(op, lhs as int, rhs as int) as i32))
    } else {
        Err(EvalFailure::Overflow)
    }
}

/// What `op` gives on two values, which must both be numbers.
pub open spec fn apply(op: Operations, lhs: Val, rhs: Val) -> Result<Val, EvalFailure> {
    match (lhs, rhs) {
        (Val::Number(lhs), Val::Number(rhs)) => apply_to_numbers(op, lhs, rhs),
        _ => Err(EvalFailure::TypeMismatch),
    }
}

/// The value of `expr` in `env`, where function calls may be nested `depth`
/// deep.
pub open spec fn eval_expression(
    expr: ExprModel,
    env: EnvModel,
    depth: nat,
) -> Result<Val, EvalFailure>
    decreases depth, expr,
{
    match expr {
        ExprModel::Number(n) => Ok(Val::Number(n)),
        ExprModel::Operation { lhs, rhs, op } => match eval_expression(*lhs, env, depth) {
            Ok(lhs) => match eval_expression(*rhs, env, depth) {
                Ok(rhs) => apply(op, lhs, rhs),
                Err(failure) => Err(failure),
            },
            Err(failure) => Err(failure),
        },
        ExprModel::FuncCall { callee, params } => match env.func(callee) {
            Some((names, body)) => if names.len() != params.len() {
                Err(EvalFailure::ArityMismatch { expected: names.len(), got: params.len() })
            } else {
                match eval_arguments(params, env, depth) {
                    Ok(values) => if depth == 0 {
                        Err(EvalFailure::DepthExceeded)
                    } else {
                        eval_statement(
                            body,
                            env.child().with_bindings(names, values),
                            (depth - 1) as nat,
                        ).0
                    },
                    Err(failure) => Err(failure),
                }
            },
            None => Err(EvalFailure::UndefinedFunction { name: callee }),
        },
        ExprModel::BindingUsage { name } => match env.binding(name) {
            Some(value) => Ok(value),
            None => Err(EvalFailure::UndefinedBinding { name }),
        },
        ExprModel::Block { stmts } => eval_statements(stmts, env.child(), depth).0,
    }
}

/// The values of the arguments `params` in `env`, in order, or the first
/// failure among them.
pub open spec fn eval_arguments(
    params: Seq<ExprModel>,
    env: EnvModel,
    depth: nat,
) -> Result<Seq<Val>, EvalFailure>
    decreases depth, params,
{
    if params.len() == 0 {
        Ok(Seq::empty())
    } else {
        match eval_arguments(params.drop_last(), env, depth) {
            Ok(values) => match eval_expression(params.last(), env, depth) {
                Ok(value) => Ok(values.push(value)),
                Err(failure) => Err(failure),
            },
            Err(failure) => Err(failure),
        }
    }
}

/// What evaluating `stmt` in `env` gives, and the environment after it. A
/// statement that fails leaves the environment as it was.
pub open spec fn eval_statement(
    stmt: StmtModel,
    env: EnvModel,
    depth: nat,
) -> (Result<Val, EvalFailure>, EnvModel)
    decreases depth, stmt,
{
    match stmt {
        StmtModel::BindingDef { name, value } => match eval_expression(value, env, depth) {
            Ok(value) => (Ok(Val::Unit), env.with_binding(name, value)),
            Err(failure) => (Err(failure), env),
        },
        StmtModel::FuncDef { name, params, body } => (
            Ok(Val::Unit),
            env.with_func(name, params, *body),
        ),
        StmtModel::Expression(expr) => (eval_expression(expr, env, depth), env),
    }
}

/// What evaluating `stmts` one after another gives, starting in `env`: the
/// value of the last statement, or `Unit` where there is none, and the
/// environment after them; or the first failure, and the environment in which
/// it happened.
pub open spec fn eval_statements(
    stmts: Seq<StmtModel>,
    env: EnvModel,
    depth: nat,
) -> (Result<Val, EvalFailure>, EnvModel)
    decreases depth, stmts,
{
    if stmts.len() == 0 {
        (Ok(Val::Unit), env)
    } else {
        let (earlier, after) = eval_statements(stmts.drop_last(), env, depth);
        match earlier {
            Ok(_) => eval_statement(stmts.last(), after, depth),
            Err(failure) => (Err(failure), after),
        }
    }
}

/// Once an argument fails, the arguments as a whole fail in the same way.
pub proof fn lemma_argument_failure(
    params: Seq<ExprModel>,
    i: int,
    k: int,
    env: EnvModel,
    depth: nat,
)
    requires
        0 <= i < k <= params.len(),
        eval_arguments(params.take(i), env, depth) is Ok,
        eval_expression(params[i], env, depth) is Err,
    ensures
        eval_arguments(params.take(k), env, depth) == Err::<Seq<Val>, EvalFailure>(
            eval_expression(params[i], env, depth)->Err_0,
        ),
    decreases k,
{
    assert(params.take(k).drop_last() =~= params.take(k - 1));
    if k == i + 1 {
        assert(params.take(k).last() == params[i]);
    } else {
        lemma_argument_failure(params, i, k - 1, env, depth);
    }
}

/// Once a statement fails, the statements as a whole fail in the same way.
pub proof fn lemma_statement_failure(
    stmts: Seq<StmtModel>,
    i: int,
    k: int,
    env: EnvModel,
    depth: nat,
)
    requires
        0 <= i < k <= stmts.len(),
        eval_statements(stmts.take(i), env, depth).0 is Ok,
        eval_statement(stmts[i], eval_statements(stmts.take(i), env, depth).1, depth).0 is Err,
    ensures
        eval_statements(stmts.take(k), env, depth).0 == Err::<Val, EvalFailure>(
            eval_statement(
                stmts[i],
                eval_statements(stmts.take(i), env, depth).1,
                depth,
            ).0->Err_0,
        ),
    decreases k,
{
    assert(stmts.take(k).drop_last() =~= stmts.take(k - 1));
    if k == i + 1 {
        assert(stmts.take(k).last() == stmts[i]);
    } else {
        lemma_statement_failure(stmts, i, k - 1, env, depth);
    }
}

/// The limit on nested calls only ever shows as the failure that reports it:
/// what an expression evaluates to under a limit, if it is anything else, is
/// what it evaluates to under every larger limit.
pub proof fn deeper_expression(expr: ExprModel, env: EnvModel, depth: nat, deeper: nat)
    requires
        depth <= deeper,
        eval_expression(expr, env, depth) != Err::<Val, EvalFailure>(EvalFailure::DepthExceeded),
    ensures
        eval_expression(expr, env, deeper) == eval_expression(expr, env, depth),
    decreases depth, expr,
{
    match expr {
        ExprModel::Number(_) => {},
        ExprModel::Operation { lhs, rhs, op } => {
            deeper_expression(*lhs, env, depth, deeper);
            if eval_expression(*lhs, env, depth) is Ok {
                deeper_expression(*rhs, env, depth, deeper);
            }
        },
        ExprModel::FuncCall { callee, params } => {
            match env.func(callee) {
                Some((names, body)) => {
                    if names.len() == params.len() {
                        deeper_arguments(params, env, depth, deeper);
                        match eval_arguments(params, env, depth) {
                            Ok(values) => {
                                deeper_statement(
                                    body,
                                    env.child().with_bindings(names, values),
                                    (depth - 1) as nat,
                                    (deeper - 1) as nat,
                                );
                            },
                            Err(_) => {},
                        }
                    }
                },
                None => {},
            }
        },
        ExprModel::BindingUsage { .. } => {},
        ExprModel::Block { stmts } => {
            deeper_statements(stmts, env.child(), depth, deeper);
        },
    }
}

/// As `deeper_expression`, for the arguments of a call.
pub proof fn deeper_arguments(params: Seq<ExprModel>, env: EnvModel, depth: nat, deeper: nat)
    requires
        depth <= deeper,
        eval_arguments(params, env, depth) != Err::<Seq<Val>, EvalFailure>(
            EvalFailure::DepthExceeded,
        ),
    ensures
        eval_arguments(params, env, deeper) == eval_arguments(params, env, depth),
    decreases depth, params,
{
    if params.len() > 0 {
        deeper_arguments(params.drop_last(), env, depth, deeper);
        if eval_arguments(params.drop_last(), env, depth) is Ok {
            deeper_expression(params.last(), env, depth, deeper);
        }
    }
}

/// As `deeper_expression`, for a statement and the environment that it
/// leaves.
pub proof fn deeper_statement(stmt: StmtModel, env: EnvModel, depth: nat, deeper: nat)
    requires
        depth <= deeper,
        eval_statement(stmt, env, depth).0 != Err::<Val, EvalFailure>(EvalFailure::DepthExceeded),
    ensures
        eval_statement(stmt, env, deeper) == eval_statement(stmt, env, depth),
    decreases depth, stmt,
{
    match stmt {
        StmtModel::BindingDef { name, value } => {
            deeper_expression(value, env, depth, deeper);
        },
        StmtModel::FuncDef { .. } => {},
        StmtModel::Expression(expr) => {
            deeper_expression(expr, env, depth, deeper);
        },
    }
}

/// As `deeper_expression`, for statements and the environment that they
/// leave.
pub proof fn deeper_statements(stmts: Seq<StmtModel>, env: EnvModel, depth: nat, deeper: nat)
    requires
        depth <= deeper,
        eval_statements(stmts, env, depth).0 != Err::<Val, EvalFailure>(
            EvalFailure::DepthExceeded,
        ),
    ensures
        eval_statements(stmts, env, deeper) == eval_statements(stmts, env, depth),
    decreases depth, stmts,
{
    if stmts.len() > 0 {
        deeper_statements(stmts.drop_last(), env, depth, deeper);
        let (earlier, after) = eval_statements(stmts.drop_last(), env, depth);
        if earlier is Ok {
            deeper_statement(stmts.last(), after, depth, deeper);
        }
    }
}

/// An expression whose result the limit does not decide is settled.
pub proof fn expression_settles(expr: ExprModel, env: EnvModel, depth: nat)
    requires
        within_limit(eval_expression(expr, env, depth)),
    ensures
        settled_expression(expr, env, depth),
{
    assert forall|deeper: nat| deeper >= depth implies #[trigger] eval_expression(
        expr,
        env,
        deeper,
    ) == eval_expression(expr, env, depth) by {
        deeper_expression(expr, env, depth, deeper);
    }
}

/// A statement whose result the limit does not decide is settled.
pub proof fn statement_settles(stmt: StmtModel, env: EnvModel, depth: nat)
    requires
        within_limit(eval_statement(stmt, env, depth).0),
    ensures
        settled_statement(stmt, env, depth),
{
    assert forall|deeper: nat| deeper >= depth implies #[trigger] eval_statement(
        stmt,
        env,
        deeper,
    ) == eval_statement(stmt, env, depth) by {
        deeper_statement(stmt, env, depth, deeper);
    }
}

} // verus!
