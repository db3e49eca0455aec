use moye::expr::{BindingUsage, Expression, FuncCall, Number, Operations};
use moye::statements::Statement;
use moye::{Env, Val};

#[test]
fn parse_func_call_with_one_parameter() {
    assert_eq!(
        FuncCall::new("factorial 10"),
        Ok((
            "",
            FuncCall {
                callee: "factorial".to_string(),
                params: vec![Expression::Number(Number(10))],
            },
        )),
    );
}

#[test]
fn func_call_eval_func_call() {
    let mut env = Env::default();
    env.store_func(
        "id".to_string(),
        vec!["x".to_string()],
        Statement::Expression(Expression::BindingUsage(BindingUsage {
            name: "x".to_string(),
        })),
    );
    assert_eq!(
        FuncCall {
            callee: "id".to_string(),
            params: vec![Expression::Number(Number(10))],
        }
        .eval(&env),
        Ok(Val::Number(10)),
    );
}

#[test]
fn eval_non_existent_func_call() {
    let env = Env::default();
    assert_eq!(
        FuncCall {
            callee: "i_dont_exist".to_string(),
            params: vec![Expression::Number(Number(1))],
        }
        .eval(&env),
        Err("function with name 'i_dont_exist' does not exist".to_string()),
    );
}

#[test]
fn eval_func_call_with_too_few_parameters() {
    let mut env = Env::default();
    env.store_func(
        "mul".to_string(),
        vec!["a".to_string(), "b".to_string()],
        Statement::Expression(Expression::Operation {
            lhs: Box::new(Expression::BindingUsage(BindingUsage {
                name: "a".to_string(),
            })),
            rhs: Box::new(Expression::BindingUsage(BindingUsage {
                name: "b".to_string(),
            })),
            op: Operations::Mul,
        }),
    );
    assert_eq!(
        FuncCall {
            callee: "mul".to_string(),
            params: vec![Expression::Number(Number(100))],
        }
        .eval(&env),
        Err("expected 2 parameters, got 1".to_string()),
    );
}

#[test]
fn eval_func_call_with_too_many_parameters() {
    let mut env = Env::default();
    env.store_func(
        "square".to_string(),
        vec!["n".to_string()],
        Statement::Expression(Expression::Operation {
            lhs: Box::new(Expression::BindingUsage(BindingUsage {
                name: "n".to_string(),
            })),
            rhs: Box::new(Expression::BindingUsage(BindingUsage {
                name: "n".to_string(),
            })),
            op: Operations::Mul,
        }),
    );
    assert_eq!(
        FuncCall {
            callee: "square".to_string(),
            params: vec![Expression::Number(Number(5)), Expression::Number(Number(42))],
        }
        .eval(&env),
        Err("expected 1 parameters, got 2".to_string()),
    );
}
