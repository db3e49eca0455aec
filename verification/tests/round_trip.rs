use moye::expr::{BindingUsage, Expression, Number, Operations};
use moye::statements::Statement;
use moye::{parse, Env, Val};

fn printed(input: &str) -> String {
    parse(input).unwrap().unparse()
}

fn round_trips(input: &str) {
    let first = parse(input).unwrap();
    let text = first.unparse();
    let second = parse(&text).unwrap();
    assert_eq!(second.unparse(), text);
    assert_eq!(format!("{:?}", second), format!("{:?}", first));
}

#[test]
fn canonical_text_has_single_spaces() {
    assert_eq!(printed("1+2"), "1 + 2");
    assert_eq!(printed("let   x=1"), "let x = 1");
    assert_eq!(printed("fun  add x   y=>x*y"), "fun add x y => x * y");
    assert_eq!(printed("fun one =>1"), "fun one => 1");
    assert_eq!(printed("add   1    2"), "add 1 2");
    assert_eq!(printed("007"), "7");
}

#[test]
fn canonical_block_has_a_statement_on_each_line() {
    assert_eq!(printed("{}"), "{}");
    assert_eq!(printed("{   }"), "{}");
    assert_eq!(printed("{ 1 2 3 }"), "{1\n2\n3\n}");
    assert_eq!(printed("{ let a = 1 { a } }"), "{let a = 1\n{a\n}\n}");
}

#[test]
fn negative_number_is_written_with_a_sign() {
    assert_eq!(Expression::Number(Number(-12)).unparse(), "-12");
    assert_eq!(Expression::Number(Number(i32::MIN)).unparse(), "-2147483648");
    assert_eq!(Expression::Number(Number(i32::MAX)).unparse(), "2147483647");
    assert_eq!(
        Statement::Expression(Expression::Operation {
            lhs: Box::new(Expression::BindingUsage(BindingUsage { name: "a".to_string() })),
            rhs: Box::new(Expression::Number(Number(0))),
            op: Operations::Div,
        })
        .unparse(),
        "a / 0"
    );
}

#[test]
fn printed_statements_parse_back() {
    round_trips("1");
    round_trips("x");
    round_trips("1 + 2");
    round_trips("a\n*\nb");
    round_trips("let x = 10 / 2");
    round_trips("let let = fun");
    round_trips("fun add x y => x + y");
    round_trips("fun nothing => {}");
    round_trips("fun outer a => fun inner b => a + b");
    round_trips("{ let a = 10\n let b = a\n b }");
    round_trips("{ a\nb\n1 }");
    round_trips("{ { } { 1 } }");
    round_trips("add 1 2");
    round_trips("add 1 2 + 3");
    round_trips("add 1 2 + 3 + 4");
    round_trips("f g 1 { 2 } x");
    round_trips("f {1} {2} + g 3 * 4 - 5");
    round_trips("{ f 1\n g 2\n h }");
    round_trips("let y = f 1 + 2 * 3");
}

#[test]
fn statements_that_begin_with_a_keyword_name_parse_back() {
    round_trips("let");
    round_trips("fun");
    round_trips("let + 1");
    round_trips("fun 1");
    round_trips("let x");
    round_trips("{let\nx}");
    round_trips("{fun\na\nb}");
    round_trips("{fun\na\nfun f x => 1}");
    round_trips("{let\nlet x = 1}");
    round_trips("{let\nfun f => 1}");
    round_trips("fun f => let");
}

#[test]
fn printed_statement_evaluates_alike() {
    let inputs = [
        "let a = 6",
        "fun twice x => x * 2",
        "{ let b = twice a b + 1 }",
        "twice a / 0",
        "missing",
        "twice 1 2",
        "{ twice 3 + 4 - 5 }",
    ];
    let mut first_env = Env::default();
    let mut second_env = Env::default();
    for input in inputs {
        let first = parse(input).unwrap();
        let second = parse(&first.unparse()).unwrap();
        assert_eq!(first.eval(&mut first_env), second.eval(&mut second_env));
    }
    assert_eq!(parse("a").unwrap().eval(&mut second_env), Ok(Val::Number(6)));
}
