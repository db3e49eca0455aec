use moye::expr::{BindingUsage, Block, Expression, FuncCall, Number, Operations};
use moye::statements::Statement;
use moye::{Env, Val};

#[test]
fn expr_parse_number() {
    assert_eq!(Number::new("123"), Ok(("", Number(123))));
}

#[test]
fn expr_parse_number_as_expr() {
    assert_eq!(Expression::new("456"), Ok(("", Expression::Number(Number(456)))));
}

#[test]
fn expr_parse_addition() {
    assert_eq!(Operations::new("+"), Ok(("", Operations::Add)));
}

#[test]
fn expr_parse_subtraction() {
    assert_eq!(Operations::new("-"), Ok(("", Operations::Sub)));
}

#[test]
fn expr_parse_multiplication() {
    assert_eq!(Operations::new("*"), Ok(("", Operations::Mul)));
}

#[test]
fn expr_parse_division() {
    assert_eq!(Operations::new("/"), Ok(("", Operations::Div)));
}

#[test]
fn expr_add_numbers() {
    assert_eq!(
        Expression::new("1+2"),
        Ok((
            "",
            Expression::Operation {
                lhs: Box::new(Expression::Number(Number(1))),
                rhs: Box::new(Expression::Number(Number(2))),
                op: Operations::Add,
            }
        )),
    );
}

#[test]
fn expr_parse_expression_with_whitespace() {
    assert_eq!(
        Expression::new("1 * 2"),
        Ok((
            "",
            Expression::Operation {
                lhs: Box::new(Expression::Number(Number(1))),
                rhs: Box::new(Expression::Number(Number(2))),
                op: Operations::Mul,
            }
        )),
    );
}

#[test]
fn expr_eval_add() {
    assert_eq!(
        Expression::Operation {
            lhs: Box::new(Expression::Number(Number(10))),
            rhs: Box::new(Expression::Number(Number(5))),
            op: Operations::Add,
        }
        .eval(&Env::default()),
        Ok(Val::Number(15)),
    );
}

#[test]
fn expr_eval_subtract() {
    assert_eq!(
        Expression::Operation {
            lhs: Box::new(Expression::Number(Number(5))),
            rhs: Box::new(Expression::Number(Number(2))),
            op: Operations::Sub,
        }
        .eval(&Env::default()),
        Ok(Val::Number(3)),
    );
}

#[test]
fn expr_eval_multiply() {
    assert_eq!(
        Expression::Operation {
            lhs: Box::new(Expression::Number(Number(2))),
            rhs: Box::new(Expression::Number(Number(3))),
            op: Operations::Mul,
        }
        .eval(&Env::default()),
        Ok(Val::Number(6)),
    );
}

#[test]
fn expr_eval_division() {
    assert_eq!(
        Expression::Operation {
            lhs: Box::new(Expression::Number(Number(500))),
            rhs: Box::new(Expression::Number(Number(50))),
            op: Operations::Div,
        }
        .eval(&Env::default()),
        Ok(Val::Number(10)),
    );
}

#[test]
fn expr_parse_binding_usage() {
    assert_eq!(
        Expression::new("bar"),
        Ok((
            "",
            Expression::BindingUsage(BindingUsage {
                name: "bar".to_string(),
            }),
        )),
    );
}

#[test]
fn expr_parse_block() {
    assert_eq!(
        Expression::new("{ 200 }"),
        Ok((
            "",
            Expression::Block(Block {
                stmts: vec![Statement::Expression(Expression::Number(Number(200)))],
            }),
        )),
    );
}

#[test]
fn expr_eval_binding_usage() {
    let mut env = Env::default();
    env.store_binding("ten".to_string(), Val::Number(10));
    assert_eq!(
        Expression::BindingUsage(BindingUsage {
            name: "ten".to_string(),
        })
        .eval(&env),
        Ok(Val::Number(10)),
    );
}

#[test]
fn eval_non_number_operation() {
    assert_eq!(
        Expression::Operation {
            lhs: Box::new(Expression::Number(Number(10))),
            rhs: Box::new(Expression::Block(Block { stmts: Vec::new() })),
            op: Operations::Add,
        }
        .eval(&Env::default()),
        Err("cannot evaluate operation whose left-hand side and right-hand side are not both numbers".to_string()),
    );
}

#[test]
fn parse_func_call() {
    assert_eq!(
        Expression::new("add 1 2"),
        Ok((
            "",
            Expression::FuncCall(FuncCall {
                callee: "add".to_string(),
                params: vec![Expression::Number(Number(1)), Expression::Number(Number(2))],
            }),
        )),
    );
}

#[test]
fn expr_eval_func_call() {
    let mut env = Env::default();

    env.store_func(
        "add".to_string(),
        vec!["x".to_string(), "y".to_string()],
        Statement::Expression(Expression::Operation {
            lhs: Box::new(Expression::BindingUsage(BindingUsage {
                name: "x".to_string(),
            })),
            rhs: Box::new(Expression::BindingUsage(BindingUsage {
                name: "y".to_string(),
            })),
            op: Operations::Add,
        }),
    );

    assert_eq!(
        Expression::FuncCall(FuncCall {
            callee: "add".to_string(),
            params: vec![Expression::Number(Number(2)), Expression::Number(Number(2))],
        })
        .eval(&env),
        Ok(Val::Number(4)),
    );
}
