use moye::binding_def::BindingDef;
use moye::expr::{BindingUsage, Block, Expression, Number, Operations};
use moye::statements::Statement;
use moye::utils::{extract_digits, extract_ident, extract_whitespaces, tag};
use moye::{Env, Val};

#[test]
fn parse_number() {
    assert_eq!(Number::new("123"), Ok(("", Number(123))));
}

#[test]
fn parse_number_as_expr() {
    assert_eq!(Expression::new("456"), Ok(("", Expression::Number(Number(456)))));
}

#[test]
fn parse_addition() {
    assert_eq!(Operations::new("+"), Ok(("", Operations::Add)));
}

#[test]
fn parse_subtraction() {
    assert_eq!(Operations::new("-"), Ok(("", Operations::Sub)));
}

#[test]
fn parse_multiplication() {
    assert_eq!(Operations::new("*"), Ok(("", Operations::Mul)));
}

#[test]
fn parse_division() {
    assert_eq!(Operations::new("/"), Ok(("", Operations::Div)));
}

#[test]
fn add_numbers() {
    assert_eq!(
        Expression::new("1+2"),
        Ok((
            "",
            Expression::Operation {
                lhs: Box::new(Expression::Number(Number(1))),
                rhs: Box::new(Expression::Number(Number(2))),
                op: Operations::Add,
            }
        )),
    );
}

#[test]
fn parse_expression_with_whitespace() {
    assert_eq!(
        Expression::new("1 * 2"),
        Ok((
            "",
            Expression::Operation {
                lhs: Box::new(Expression::Number(Number(1))),
                rhs: Box::new(Expression::Number(Number(2))),
                op: Operations::Mul,
            }
        )),
    );
}

#[test]
fn eval_add() {
    assert_eq!(
        Expression::Operation {
            lhs: Box::new(Expression::Number(Number(10))),
            rhs: Box::new(Expression::Number(Number(5))),
            op: Operations::Add,
        }
        .eval(&Env::default()),
        Ok(Val::Number(15)),
    );
}

#[test]
fn eval_subtract() {
    assert_eq!(
        Expression::Operation {
            lhs: Box::new(Expression::Number(Number(5))),
            rhs: Box::new(Expression::Number(Number(2))),
            op: Operations::Sub,
        }
        .eval(&Env::default()),
        Ok(Val::Number(3)),
    );
}

#[test]
fn eval_multiply() {
    assert_eq!(
        Expression::Operation {
            lhs: Box::new(Expression::Number(Number(2))),
            rhs: Box::new(Expression::Number(Number(3))),
            op: Operations::Mul,
        }
        .eval(&Env::default()),
        Ok(Val::Number(6)),
    );
}

#[test]
fn eval_division() {
    assert_eq!(
        Expression::Operation {
            lhs: Box::new(Expression::Number(Number(500))),
            rhs: Box::new(Expression::Number(Number(50))),
            op: Operations::Div,
        }
        .eval(&Env::default()),
        Ok(Val::Number(10)),
    );
}

#[test]
fn parse_binding_usage() {
    assert_eq!(
        Expression::new("bar"),
        Ok((
            "",
            Expression::BindingUsage(BindingUsage {
                name: "bar".to_string(),
            }),
        )),
    );
}

#[test]
fn parse_block() {
    assert_eq!(
        Expression::new("{ 200 }"),
        Ok((
            "",
            Expression::Block(Block {
                stmts: vec![Statement::Expression(Expression::Number(Number(200)))],
            }),
        )),
    );
}

#[test]
fn eval_binding_usage() {
    let mut env = Env::default();
    env.store_binding("ten".to_string(), Val::Number(10));
    assert_eq!(
        Expression::BindingUsage(BindingUsage {
            name: "ten".to_string(),
        })
        .eval(&env),
        Ok(Val::Number(10)),
    );
}

#[test]
fn parse_empty_block() {
    assert_eq!(Block::new("{}"), Ok(("", Block { stmts: Vec::new() })));
}

#[test]
fn parse_empty_block_with_whitespace() {
    assert_eq!(Block::new("{   }"), Ok(("", Block { stmts: Vec::new() })));
}

#[test]
fn parse_block_with_one_stmt() {
    assert_eq!(
        Block::new("{ 5 }"),
        Ok((
            "",
            Block {
                stmts: vec![Statement::Expression(Expression::Number(Number(5)))],
            },
        )),
    );
}

#[test]
fn parse_block_with_multiple_statements() {
    assert_eq!(
        Block::new("{
                let a = 10
                let b = a
                b
            }"),
        Ok((
            "",
            Block {
                stmts: vec![
                    Statement::BindingDef(BindingDef {
                        name: "a".to_string(),
                        value: Expression::Number(Number(10)),
                    }),
                    Statement::BindingDef(BindingDef {
                        name: "b".to_string(),
                        value: Expression::BindingUsage(BindingUsage {
                            name: "a".to_string(),
                        }),
                    }),
                    Statement::Expression(Expression::BindingUsage(BindingUsage {
                        name: "b".to_string(),
                    })),
                ],
            },
        ))
    );
}

#[test]
fn eval_block() {
    assert_eq!(
        Expression::Block(Block { stmts: vec![Statement::Expression(Expression::Number(Number(10)))] })
            .eval(&Env::default()),
        Ok(Val::Number(10)),
    );
}

#[test]
fn eval_empty_block() {
    assert_eq!(
        Block { stmts: Vec::new() }.eval(&Env::default()),
        Ok(Val::Unit),
    );
}

#[test]
fn eval_block_with_one_expr() {
    assert_eq!(
        Block {
            stmts: vec![Statement::Expression(Expression::Number(Number(25)))],
        }
        .eval(&Env::default()),
        Ok(Val::Number(25)),
    );
}

#[test]
fn eval_block_with_binding_def_and_usage() {
    assert_eq!(
        Block {
            stmts: vec![
                Statement::BindingDef(BindingDef {
                    name: "one".to_string(),
                    value: Expression::Number(Number(1)),
                }),
                Statement::Expression(Expression::BindingUsage(BindingUsage {
                    name: "one".to_string(),
                })),
            ],
        }
        .eval(&Env::default()),
        Ok(Val::Number(1)),
    );
}

#[test]
fn eval_block_with_multiple_binding_defs() {
    assert_eq!(
        Block {
            stmts: vec![
                Statement::BindingDef(BindingDef {
                    name: "foo".to_string(),
                    value: Expression::Number(Number(5)),
                }),
                Statement::BindingDef(BindingDef {
                    name: "bar".to_string(),
                    value: Expression::Number(Number(4)),
                }),
                Statement::BindingDef(BindingDef {
                    name: "baz".to_string(),
                    value: Expression::Number(Number(3)),
                }),
            ],
        }
        .eval(&Env::default()),
        Ok(Val::Unit),
    );
}

#[test]
fn eval_block_with_multiple_exprs() {
    assert_eq!(
        Block {
            stmts: vec![
                Statement::Expression(Expression::Number(Number(100))),
                Statement::Expression(Expression::Number(Number(30))),
                Statement::Expression(Expression::Operation {
                    lhs: Box::new(Expression::Number(Number(10))),
                    rhs: Box::new(Expression::Number(Number(7))),
                    op: Operations::Sub,
                }),
            ],
        }
        .eval(&Env::default()),
        Ok(Val::Number(3)),
    );
}

#[test]
fn eval_block_using_bindings_from_parent_env() {
    let mut env = Env::default();
    env.store_binding("foo".to_string(), Val::Number(2));

    assert_eq!(
        Block {
            stmts: vec![
                Statement::BindingDef(BindingDef {
                    name: "baz".to_string(),
                    value: Expression::BindingUsage(BindingUsage {
                        name: "foo".to_string(),
                    }),
                }),
                Statement::Expression(Expression::BindingUsage(BindingUsage {
                    name: "baz".to_string(),
                })),
            ],
        }
        .eval(&env),
        Ok(Val::Number(2)),
    );
}

#[test]
fn parse_binding_def() {
    assert_eq!(
        Statement::new("let a = 10"),
        Ok((
            "",
            Statement::BindingDef(BindingDef {
                name: "a".to_string(),
                value: Expression::Number(Number(10)),
            }),
        )),
    );
}

#[test]
fn parse_expression() {
    assert_eq!(
        Statement::new("1+1"),
        Ok((
            "",
            Statement::Expression(Expression::Operation {
                lhs: Box::new(Expression::Number(Number(1))),
                rhs: Box::new(Expression::Number(Number(1))),
                op: Operations::Add,
            }),
        ))
    );
}

#[test]
fn extract_one_digit() {
    assert_eq!(extract_digits("1+2"), Ok(("+2", "1")))
}

#[test]
fn extract_two_digits() {
    assert_eq!(extract_digits("10+20"), Ok(("+20", "10")))
}

#[test]
fn extract_digits_with_no_remainder() {
    assert_eq!(extract_digits("100"), Ok(("", "100")))
}

#[test]
fn extract_spaces() {
    assert_eq!(extract_whitespaces("  4"), ("4", "  "))
}

#[test]
fn extract_alphabetic_ident() {
    assert_eq!(extract_ident("asdfasdfWEfzsdf let"), Ok((" let", "asdfasdfWEfzsdf")))
}

#[test]
fn extract_alphanumeric_ident() {
    assert_eq!(extract_ident("var1()"), Ok(("()", "var1")))
}

#[test]
fn cannot_extract_ident_beginning_with_number() {
    assert_eq!(extract_ident("123abc"), Err("expected identifier".to_string()));
}

#[test]
fn tag_word() {
    assert_eq!(tag("let", "let a"), Ok(" a"));
}
