use moye::binding_def::BindingDef;
use moye::expr::{Expression, Number, Operations};

#[test]
fn binding_def_parse_binding_def() {
    assert_eq!(
        BindingDef::new("let a = 10 / 2"),
        Ok((
            "",
            BindingDef {
                name: "a".to_string(),
                value: Expression::Operation {
                    lhs: Box::new(Expression::Number(Number(10))),
                    rhs: Box::new(Expression::Number(Number(2))),
                    op: Operations::Div,
                },
            },
        )),
    );
}

#[test]
fn cannot_parse_binding_def_without_space_after_let() {
    assert_eq!(BindingDef::new("letabc=1+2"), Err("expected a space".to_string()))
}
