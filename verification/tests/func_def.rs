use moye::expr::{BindingUsage, Block, Expression, Operations};
use moye::func_def::FuncDef;
use moye::statements::Statement;

#[test]
fn parse_func_def_with_no_params_and_empty_body() {
    assert_eq!(
        FuncDef::new("fun nothing => {}"),
        Ok((
            "",
            FuncDef {
                name: "nothing".to_string(),
                params: Vec::new(),
                body: Box::new(Statement::Expression(Expression::Block(Block { stmts: Vec::new() }))),
            }
        )),
    );
}

#[test]
fn parse_func_def_with_one_param_and_empty_body() {
    assert_eq!(
        FuncDef::new("fun greet name => {}"),
        Ok((
            "",
            FuncDef {
                name: "greet".to_string(),
                params: vec!["name".to_string()],
                body: Box::new(Statement::Expression(Expression::Block(Block { stmts: Vec::new() }))),
            },
        )),
    );
}

#[test]
fn parse_func_def_with_multiple_params_and_non_empty_body() {
    assert_eq!(
        FuncDef::new("fun add x y => x + y"),
        Ok((
            "",
            FuncDef {
                name: "add".to_string(),
                params: vec!["x".to_string(), "y".to_string()],
                body: Box::new(Statement::Expression(Expression::Operation {
                    lhs: Box::new(Expression::BindingUsage(BindingUsage {
                        name: "x".to_string()
                    })),
                    rhs: Box::new(Expression::BindingUsage(BindingUsage {
                        name: "y".to_string()
                    })),
                    op: Operations::Add
                }))
            }
        ))
    );
}
