use moye::decimal::{read_decimal, write_decimal};
use moye::expr::{BindingUsage, Expression, FuncCall, Number, Operations};
use moye::statements::Statement;
use moye::utils::{
    extract_nothing, extract_spaces_with_error, tag, take_while, take_while_with_error,
};
use moye::{parse, Env, Val};

fn run(input: &str, env: &mut Env) -> Result<Val, String> {
    parse(input)?.eval(env)
}

#[test]
fn function_defined_in_one_request_is_called_in_the_next() {
    let mut env = Env::default();
    assert_eq!(run("fun add x y => x + y", &mut env), Ok(Val::Unit));
    assert_eq!(run("add 2 3", &mut env), Ok(Val::Number(5)));
}

#[test]
fn chained_arithmetic_does_not_parse() {
    assert_eq!(
        parse("1 + 2 + 3").map(|_| ()),
        Err("input was not consumed fully by parser".to_string())
    );
}

#[test]
fn trailing_whitespace_is_not_consumed() {
    assert_eq!(
        parse("1 ").map(|_| ()),
        Err("input was not consumed fully by parser".to_string())
    );
    assert!(parse("1").is_ok());
}

#[test]
fn binding_is_visible_in_its_scope_and_in_a_nested_one() {
    let mut env = Env::default();
    assert_eq!(run("let n = 7", &mut env), Ok(Val::Unit));
    assert_eq!(run("n", &mut env), Ok(Val::Number(7)));
    assert_eq!(run("{ n }", &mut env), Ok(Val::Number(7)));
    assert_eq!(run("{ { n } }", &mut env), Ok(Val::Number(7)));
}

#[test]
fn binding_is_gone_after_its_block() {
    let mut env = Env::default();
    assert_eq!(
        run("{ { let m = 1 } m }", &mut env),
        Err("binding with name 'm' does not exist".to_string())
    );
    assert_eq!(run("{ let m = 1 }", &mut env), Ok(Val::Unit));
    assert_eq!(run("m", &mut env), Err("binding with name 'm' does not exist".to_string()));
}

#[test]
fn inner_redefinition_wins() {
    let mut env = Env::default();
    assert_eq!(run("{ let x = 1 let x = 2 x }", &mut env), Ok(Val::Number(2)));
}

#[test]
fn block_does_not_alter_the_scope_around_it() {
    let mut env = Env::default();
    assert_eq!(run("let x = 1", &mut env), Ok(Val::Unit));
    assert_eq!(run("{ let x = 5 x }", &mut env), Ok(Val::Number(5)));
    assert_eq!(run("x", &mut env), Ok(Val::Number(1)));
}

#[test]
fn empty_block_is_unit() {
    let mut env = Env::default();
    assert_eq!(run("{}", &mut env), Ok(Val::Unit));
}

#[test]
fn block_gives_the_value_of_its_last_statement() {
    let mut env = Env::default();
    assert_eq!(run("{ 1 2 3 }", &mut env), Ok(Val::Number(3)));
    assert_eq!(run("{ let a = 4 let b = a * 2 b - 1 }", &mut env), Ok(Val::Number(7)));
    assert_eq!(run("{ 1 let a = 2 }", &mut env), Ok(Val::Unit));
}

#[test]
fn failing_statement_ends_the_block() {
    let mut env = Env::default();
    assert_eq!(
        run("{ 1 missing 3 }", &mut env),
        Err("function with name 'missing' does not exist".to_string())
    );
    assert_eq!(
        run("{ 1 missing }", &mut env),
        Err("binding with name 'missing' does not exist".to_string())
    );
}

#[test]
fn arithmetic_is_exact() {
    let mut env = Env::default();
    assert_eq!(run("20 + 22", &mut env), Ok(Val::Number(42)));
    assert_eq!(run("5 - 8", &mut env), Ok(Val::Number(-3)));
    assert_eq!(run("6 * 7", &mut env), Ok(Val::Number(42)));
    assert_eq!(run("7 / 2", &mut env), Ok(Val::Number(3)));
    assert_eq!(run("2147483646 + 1", &mut env), Ok(Val::Number(2147483647)));
}

#[test]
fn division_rounds_towards_zero() {
    let mut env = Env::default();
    assert_eq!(run("let a = 0 - 7", &mut env), Ok(Val::Unit));
    assert_eq!(run("let b = 0 - 2", &mut env), Ok(Val::Unit));
    assert_eq!(run("a / 2", &mut env), Ok(Val::Number(-3)));
    assert_eq!(run("7 / b", &mut env), Ok(Val::Number(-3)));
    assert_eq!(run("a / b", &mut env), Ok(Val::Number(3)));
    assert_eq!(run("0 / b", &mut env), Ok(Val::Number(0)));
}

#[test]
fn division_by_zero_fails() {
    let mut env = Env::default();
    assert_eq!(run("1 / 0", &mut env), Err("division by zero".to_string()));
    assert_eq!(run("0 / 0", &mut env), Err("division by zero".to_string()));
}

#[test]
fn overflow_fails() {
    let mut env = Env::default();
    assert_eq!(run("2147483647 + 1", &mut env), Err("arithmetic overflow".to_string()));
    assert_eq!(run("65536 * 32768", &mut env), Err("arithmetic overflow".to_string()));
    assert_eq!(run("let least = 0 - 2147483647", &mut env), Ok(Val::Unit));
    assert_eq!(run("let least = least - 1", &mut env), Ok(Val::Unit));
    assert_eq!(run("least", &mut env), Ok(Val::Number(i32::MIN)));
    assert_eq!(run("least - 1", &mut env), Err("arithmetic overflow".to_string()));
    assert_eq!(run("let minusone = 0 - 1", &mut env), Ok(Val::Unit));
    assert_eq!(run("least / minusone", &mut env), Err("arithmetic overflow".to_string()));
}

#[test]
fn literal_must_fit() {
    assert_eq!(Number::new("2147483647"), Ok(("", Number(2147483647))));
    assert_eq!(Number::new("2147483648"), Err("number literal out of range".to_string()));
    assert_eq!(
        Number::new("99999999999999999999999"),
        Err("number literal out of range".to_string())
    );
    assert_eq!(Number::new("007"), Ok(("", Number(7))));
    assert!(parse("2147483648").is_err());
}

#[test]
fn decimal_conversions() {
    assert_eq!(read_decimal("0"), Some(0));
    assert_eq!(read_decimal("0042"), Some(42));
    assert_eq!(read_decimal("2147483647"), Some(i32::MAX));
    assert_eq!(read_decimal("2147483648"), None);
    assert_eq!(read_decimal(""), Some(0));
    assert_eq!(read_decimal("12a"), None);
    assert_eq!(read_decimal("a"), None);
    assert_eq!(read_decimal("-1"), None);
    assert_eq!(read_decimal(" 1"), None);
    assert_eq!(read_decimal("99999999999999999999x"), None);
    assert_eq!(write_decimal(0), "0".to_string());
    assert_eq!(write_decimal(9), "9".to_string());
    assert_eq!(write_decimal(10), "10".to_string());
    assert_eq!(write_decimal(1203), "1203".to_string());
}

#[test]
fn wrong_arity_names_both_numbers() {
    let mut env = Env::default();
    assert_eq!(run("fun add x y => x + y", &mut env), Ok(Val::Unit));
    assert_eq!(run("add 1", &mut env), Err("expected 2 parameters, got 1".to_string()));
    assert_eq!(run("add 1 2 3", &mut env), Err("expected 2 parameters, got 3".to_string()));
    assert_eq!(
        run("add 1 2 3 4 5 6 7 8 9 10 11 12", &mut env),
        Err("expected 2 parameters, got 12".to_string())
    );
}

#[test]
fn arity_is_checked_before_the_arguments() {
    let mut env = Env::default();
    assert_eq!(run("fun add x y => x + y", &mut env), Ok(Val::Unit));
    assert_eq!(run("add missing", &mut env), Err("expected 2 parameters, got 1".to_string()));
    assert_eq!(
        run("add 1 missing", &mut env),
        Err("binding with name 'missing' does not exist".to_string())
    );
}

#[test]
fn undefined_function_fails() {
    let mut env = Env::default();
    assert_eq!(
        run("nothing 1", &mut env),
        Err("function with name 'nothing' does not exist".to_string())
    );
}

#[test]
fn function_without_parameters_cannot_be_called() {
    let mut env = Env::default();
    assert_eq!(run("fun one => 1", &mut env), Ok(Val::Unit));
    assert_eq!(run("one", &mut env), Err("binding with name 'one' does not exist".to_string()));
    assert_eq!(run("one 1", &mut env), Err("expected 0 parameters, got 1".to_string()));
}

#[test]
fn arguments_are_evaluated_where_the_call_stands() {
    let mut env = Env::default();
    assert_eq!(run("fun second a b => b", &mut env), Ok(Val::Unit));
    assert_eq!(
        run("second 1 a", &mut env),
        Err("binding with name 'a' does not exist".to_string())
    );
    assert_eq!(run("let a = 10", &mut env), Ok(Val::Unit));
    assert_eq!(run("second 1 a", &mut env), Ok(Val::Number(10)));
}

#[test]
fn parameter_hides_an_outer_binding_in_the_body() {
    let mut env = Env::default();
    assert_eq!(run("let x = 1", &mut env), Ok(Val::Unit));
    assert_eq!(run("fun id x => x", &mut env), Ok(Val::Unit));
    assert_eq!(run("id 2", &mut env), Ok(Val::Number(2)));
    assert_eq!(run("x", &mut env), Ok(Val::Number(1)));
}

#[test]
fn body_sees_the_environment_of_the_call() {
    let mut env = Env::default();
    assert_eq!(run("fun plus x => x + shift", &mut env), Ok(Val::Unit));
    assert_eq!(
        run("plus 1", &mut env),
        Err("binding with name 'shift' does not exist".to_string())
    );
    assert_eq!(run("{ let shift = 10 plus 1 }", &mut env), Ok(Val::Number(11)));
}

#[test]
fn body_is_not_evaluated_at_the_definition() {
    let mut env = Env::default();
    assert_eq!(run("fun broken x => x / 0", &mut env), Ok(Val::Unit));
    assert_eq!(run("broken 1", &mut env), Err("division by zero".to_string()));
}

#[test]
fn body_may_be_a_definition() {
    let mut env = Env::default();
    assert_eq!(run("fun define x => let y = x", &mut env), Ok(Val::Unit));
    assert_eq!(run("define 1", &mut env), Ok(Val::Unit));
    assert_eq!(run("y", &mut env), Err("binding with name 'y' does not exist".to_string()));
}

#[test]
fn smaller_limit_stops_nested_calls() {
    let mut env = Env::default();
    assert_eq!(run("fun forever x => forever x", &mut env), Ok(Val::Unit));
    assert_eq!(run("fun id x => x", &mut env), Ok(Val::Unit));
    assert_eq!(run("fun twice x => id x + id x", &mut env), Ok(Val::Unit));
    let forever = Expression::new("forever 1").unwrap().1;
    assert_eq!(forever.eval_within(&env, 0), Err("call depth limit exceeded".to_string()));
    assert_eq!(forever.eval_within(&env, 1), Err("call depth limit exceeded".to_string()));
    assert_eq!(forever.eval_within(&env, 100), Err("call depth limit exceeded".to_string()));
    let twice = Expression::new("twice 4").unwrap().1;
    assert_eq!(twice.eval_within(&env, 0), Err("call depth limit exceeded".to_string()));
    assert_eq!(twice.eval_within(&env, 1), Err("call depth limit exceeded".to_string()));
    assert_eq!(twice.eval_within(&env, 2), Ok(Val::Number(8)));
    assert_eq!(twice.eval_within(&env, 3), Ok(Val::Number(8)));
    assert_eq!(twice.eval(&env), Ok(Val::Number(8)));
    assert_eq!(Expression::new("1 + 2").unwrap().1.eval_within(&env, 0), Ok(Val::Number(3)));
}

#[test]
fn bindings_and_functions_are_looked_up_apart() {
    let mut env = Env::default();
    env.store_binding("x".to_string(), Val::Number(1));
    let mut child = env.create_child();
    child.store_func(
        "x".to_string(),
        vec!["a".to_string()],
        Statement::Expression(Expression::BindingUsage(BindingUsage { name: "a".to_string() })),
    );
    assert_eq!(child.get_binding("x"), Ok(Val::Number(1)));
    assert_eq!(child.get_func("x").map(|(params, _)| params), Ok(vec!["a".to_string()]));
    assert_eq!(
        Expression::BindingUsage(BindingUsage { name: "x".to_string() }).eval(&child),
        Ok(Val::Number(1))
    );
    assert_eq!(
        FuncCall { callee: "x".to_string(), params: vec![Expression::Number(Number(3))] }
            .eval(&child),
        Ok(Val::Number(3))
    );
    assert_eq!(
        env.get_func("x").map(|_| ()),
        Err("function with name 'x' does not exist".to_string())
    );
    let grandchild = child.create_child();
    assert_eq!(grandchild.get_binding("x"), Ok(Val::Number(1)));
    assert!(grandchild.get_func("x").is_ok());
}

#[test]
fn definition_replaces_one_of_the_other_kind_in_its_scope() {
    let mut env = Env::default();
    env.store_binding("x".to_string(), Val::Number(1));
    env.store_func(
        "x".to_string(),
        vec!["a".to_string()],
        Statement::Expression(Expression::BindingUsage(BindingUsage { name: "a".to_string() })),
    );
    assert_eq!(env.get_binding("x"), Err("binding with name 'x' does not exist".to_string()));
    assert!(env.get_func("x").is_ok());
    env.store_binding("x".to_string(), Val::Number(2));
    assert_eq!(env.get_binding("x"), Ok(Val::Number(2)));
    assert!(env.get_func("x").is_err());
}

#[test]
fn failed_statement_leaves_the_environment() {
    let mut env = Env::default();
    assert_eq!(run("let x = 1", &mut env), Ok(Val::Unit));
    assert_eq!(run("let x = 1 / 0", &mut env), Err("division by zero".to_string()));
    assert_eq!(run("x", &mut env), Ok(Val::Number(1)));
}

#[test]
fn operands_may_be_calls_and_blocks() {
    let mut env = Env::default();
    assert_eq!(run("fun twice x => x * 2", &mut env), Ok(Val::Unit));
    assert_eq!(run("{ 3 } + { 4 }", &mut env), Ok(Val::Number(7)));
    assert_eq!(run("twice 1 + 2", &mut env), Ok(Val::Number(6)));
    assert_eq!(run("twice 1 + 2 + 3", &mut env), Ok(Val::Number(9)));
}

#[test]
fn keywords_are_not_reserved() {
    let mut env = Env::default();
    assert_eq!(run("let let = 5", &mut env), Ok(Val::Unit));
    assert_eq!(run("let", &mut env), Ok(Val::Number(5)));
}

#[test]
fn tag_names_what_it_expected() {
    assert_eq!(tag("let", "abc"), Err("expected let".to_string()));
    assert_eq!(tag("let", "le"), Err("expected let".to_string()));
    assert_eq!(tag("", "abc"), Ok("abc"));
    assert_eq!(tag("=>", "=>x"), Ok("x"));
}

#[test]
fn call_needs_an_argument() {
    assert_eq!(
        FuncCall::new("f"),
        Err("expected a sequence with more than one item".to_string())
    );
    assert_eq!(
        FuncCall::new("f\n1"),
        Err("expected a sequence with more than one item".to_string())
    );
}

#[test]
fn argument_needs_a_space_before_it() {
    assert_eq!(
        FuncCall::new("f{}"),
        Err("expected a sequence with more than one item".to_string())
    );
    assert_eq!(
        Expression::new("f{}"),
        Ok(("{}", Expression::BindingUsage(BindingUsage { name: "f".to_string() })))
    );
    assert_eq!(
        parse("f{}").map(|_| ()),
        Err("input was not consumed fully by parser".to_string())
    );
    assert_eq!(
        FuncCall::new("f 1{}"),
        Ok((
            "{}",
            FuncCall { callee: "f".to_string(), params: vec![Expression::Number(Number(1))] }
        ))
    );
    assert_eq!(
        FuncCall::new("f   1  2"),
        Ok((
            "",
            FuncCall {
                callee: "f".to_string(),
                params: vec![Expression::Number(Number(1)), Expression::Number(Number(2))],
            }
        ))
    );
}

#[test]
fn nothing_is_taken_after_the_last_argument() {
    assert_eq!(
        FuncCall::new("f 1 "),
        Ok((" ", FuncCall { callee: "f".to_string(), params: vec![Expression::Number(Number(1))] }))
    );
    assert_eq!(
        FuncCall::new("f 1\n2"),
        Ok((
            "\n2",
            FuncCall { callee: "f".to_string(), params: vec![Expression::Number(Number(1))] }
        ))
    );
    assert_eq!(
        parse("f 1 ").map(|_| ()),
        Err("input was not consumed fully by parser".to_string())
    );
    assert!(parse("f 1").is_ok());
}

#[test]
fn spaces_and_nothing() {
    assert_eq!(extract_spaces_with_error("  a"), Ok(("a", "  ")));
    assert_eq!(extract_spaces_with_error("\n a"), Err("expected a space".to_string()));
    assert_eq!(extract_spaces_with_error(""), Err("expected a space".to_string()));
    assert_eq!(extract_nothing(" a"), (" a", ""));
}

#[test]
fn calls_nest_deep() {
    let mut env = Env::default();
    assert_eq!(run("fun f0 x => x", &mut env), Ok(Val::Unit));
    for i in 1..=400 {
        let definition = format!("fun f{} x => f{} x", i, i - 1);
        assert_eq!(run(&definition, &mut env), Ok(Val::Unit));
    }
    assert_eq!(run("f0 7", &mut env), Ok(Val::Number(7)));
    assert_eq!(run("f255 7", &mut env), Ok(Val::Number(7)));
    assert_eq!(run("f256 7", &mut env), Ok(Val::Number(7)));
    assert_eq!(run("f400 7", &mut env), Ok(Val::Number(7)));
    assert_eq!(run("{ f256 7 }", &mut env), Ok(Val::Number(7)));
    assert_eq!(run("f254 f0 7", &mut env), Ok(Val::Number(7)));
    let deep = Expression::new("f400 7").unwrap().1;
    assert_eq!(deep.eval_within(&env, 400), Err("call depth limit exceeded".to_string()));
    assert_eq!(deep.eval_within(&env, 401), Ok(Val::Number(7)));
}

#[test]
fn operator_alternatives_end_with_division() {
    assert_eq!(Operations::new("x"), Err("expected /".to_string()));
}

#[test]
fn take_while_splits_after_the_longest_prefix() {
    assert_eq!(take_while(|c| c == 'a', "aab"), ("b", "aa"));
    assert_eq!(take_while(|c| c == 'a', "baa"), ("baa", ""));
    assert_eq!(take_while(|c| c == 'a', "aaa"), ("", "aaa"));
    assert_eq!(take_while(|c| c != ' ', "héllo wörld"), (" wörld", "héllo"));
    assert_eq!(
        take_while_with_error(|c| c == 'a', "b", "no a".to_string()),
        Err("no a".to_string())
    );
    assert_eq!(
        take_while_with_error(|c| c == 'a', "ab", "no a".to_string()),
        Ok(("b", "a"))
    );
}

#[test]
fn text_outside_ascii_is_no_identifier() {
    assert!(parse("é").is_err());
    assert!(parse("let é = 1").is_err());
    assert_eq!(
        Expression::new("a é"),
        Ok((" é", Expression::BindingUsage(BindingUsage { name: "a".to_string() })))
    );
}
