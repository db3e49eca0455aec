use moye::binding_def::BindingDef;
use moye::expr::{BindingUsage, Block, Expression, Number, Operations};
use moye::statements::Statement;
use moye::{Env, Val};

#[test]
fn block_parse_empty_block() {
    assert_eq!(Block::new("{}"), Ok(("", Block { stmts: Vec::new() })));
}

#[test]
fn block_parse_empty_block_with_whitespace() {
    assert_eq!(Block::new("{   }"), Ok(("", Block { stmts: Vec::new() })));
}

#[test]
fn block_parse_block_with_one_stmt() {
    assert_eq!(
        Block::new("{ 5 }"),
        Ok((
            "",
            Block {
                stmts: vec![Statement::Expression(Expression::Number(Number(5)))],
            },
        )),
    );
}

#[test]
fn block_parse_block_with_multiple_statements() {
    assert_eq!(
        Block::new("{
                let a = 10
                let b = a
                b
            }"),
        Ok((
            "",
            Block {
                stmts: vec![
                    Statement::BindingDef(BindingDef {
                        name: "a".to_string(),
                        value: Expression::Number(Number(10)),
                    }),
                    Statement::BindingDef(BindingDef {
                        name: "b".to_string(),
                        value: Expression::BindingUsage(BindingUsage {
                            name: "a".to_string(),
                        }),
                    }),
                    Statement::Expression(Expression::BindingUsage(BindingUsage {
                        name: "b".to_string(),
                    })),
                ],
            },
        ))
    );
}

#[test]
fn block_eval_block() {
    assert_eq!(
        Expression::Block(Block { stmts: vec![Statement::Expression(Expression::Number(Number(10)))] })
            .eval(&Env::default()),
        Ok(Val::Number(10)),
    );
}

#[test]
fn block_eval_empty_block() {
    assert_eq!(
        Block { stmts: Vec::new() }.eval(&Env::default()),
        Ok(Val::Unit),
    );
}

#[test]
fn block_eval_block_with_one_expr() {
    assert_eq!(
        Block {
            stmts: vec![Statement::Expression(Expression::Number(Number(25)))],
        }
        .eval(&Env::default()),
        Ok(Val::Number(25)),
    );
}

#[test]
fn block_eval_block_with_binding_def_and_usage() {
    assert_eq!(
        Block {
            stmts: vec![
                Statement::BindingDef(BindingDef {
                    name: "one".to_string(),
                    value: Expression::Number(Number(1)),
                }),
                Statement::Expression(Expression::BindingUsage(BindingUsage {
                    name: "one".to_string(),
                })),
            ],
        }
        .eval(&Env::default()),
        Ok(Val::Number(1)),
    );
}

#[test]
fn block_eval_block_with_multiple_binding_defs() {
    assert_eq!(
        Block {
            stmts: vec![
                Statement::BindingDef(BindingDef {
                    name: "foo".to_string(),
                    value: Expression::Number(Number(5)),
                }),
                Statement::BindingDef(BindingDef {
                    name: "bar".to_string(),
                    value: Expression::Number(Number(4)),
                }),
                Statement::BindingDef(BindingDef {
                    name: "baz".to_string(),
                    value: Expression::Number(Number(3)),
                }),
            ],
        }
        .eval(&Env::default()),
        Ok(Val::Unit),
    );
}

#[test]
fn block_eval_block_with_multiple_exprs() {
    assert_eq!(
        Block {
            stmts: vec![
                Statement::Expression(Expression::Number(Number(100))),
                Statement::Expression(Expression::Number(Number(30))),
                Statement::Expression(Expression::Operation {
                    lhs: Box::new(Expression::Number(Number(10))),
                    rhs: Box::new(Expression::Number(Number(7))),
                    op: Operations::Sub,
                }),
            ],
        }
        .eval(&Env::default()),
        Ok(Val::Number(3)),
    );
}

#[test]
fn block_eval_block_using_bindings_from_parent_env() {
    let mut env = Env::default();
    env.store_binding("foo".to_string(), Val::Number(2));

    assert_eq!(
        Block {
            stmts: vec![
                Statement::BindingDef(BindingDef {
                    name: "baz".to_string(),
                    value: Expression::BindingUsage(BindingUsage {
                        name: "foo".to_string(),
                    }),
                }),
                Statement::Expression(Expression::BindingUsage(BindingUsage {
                    name: "baz".to_string(),
                })),
            ],
        }
        .eval(&env),
        Ok(Val::Number(2)),
    );
}
