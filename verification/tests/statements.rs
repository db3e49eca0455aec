use moye::binding_def::BindingDef;
use moye::expr::{BindingUsage, Expression, Number, Operations};
use moye::func_def::FuncDef;
use moye::statements::Statement;
use moye::{Env, Val};

#[test]
fn statements_parse_binding_def() {
    assert_eq!(
        Statement::new("let a = 10"),
        Ok((
            "",
            Statement::BindingDef(BindingDef {
                name: "a".to_string(),
                value: Expression::Number(Number(10)),
            }),
        )),
    );
}

#[test]
fn statements_parse_expression() {
    assert_eq!(
        Statement::new("1+1"),
        Ok((
            "",
            Statement::Expression(Expression::Operation {
                lhs: Box::new(Expression::Number(Number(1))),
                rhs: Box::new(Expression::Number(Number(1))),
                op: Operations::Add,
            }),
        ))
    );
}

#[test]
fn eval_binding_def() {
    assert_eq!(
        Statement::BindingDef(BindingDef {
            name: "whatever".to_string(),
            value: Expression::Number(Number(-10)),
        })
        .eval(&mut Env::default()),
        Ok(Val::Unit),
    );
}

#[test]
fn eval_expr() {
    assert_eq!(
        Statement::Expression(Expression::Number(Number(5))).eval(&mut Env::default()),
        Ok(Val::Number(5)),
    );
}

#[test]
fn parse_function_def() {
    assert_eq!(
        Statement::new("fun name x => x"),
        Ok((
            "",
            Statement::FuncDef(FuncDef {
                name: "name".to_string(),
                params: vec!["x".to_string()],
                body: Box::new(Statement::Expression(Expression::BindingUsage(BindingUsage {
                    name: "x".to_string(),
                }))),
            }),
        )),
    );
}

#[test]
fn eval_func_def() {
    assert_eq!(
        Statement::FuncDef(FuncDef {
            name: "always_return_one".to_string(),
            params: Vec::new(),
            body: Box::new(Statement::Expression(Expression::Number(Number(1)))),
        })
        .eval(&mut Env::default()),
        Ok(Val::Unit),
    );
}
