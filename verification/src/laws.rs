use crate::decimal::{decimal, lemma_decimal_round_trip};
use crate::expr::Operations;
use crate::failure::EvalFailure;
use crate::grammar;
use crate::model::{EnvModel, ExprModel, Named, StmtModel};
use crate::parsed::parsed_statement;
use crate::round_trip::well_formed_statement_round_trip;
use crate::semantics::{
    apply_to_numbers, deeper_expression, deeper_statement, eval_arguments, eval_expression,
    eval_statement, eval_statements, exact, fits, lemma_argument_failure, truncated_quotient,
};
use crate::texts::{
    identifier_is_found, is_identifier, leading_of_concat, literal_is_read,
    operator_needs_its_character, tag_of_concat,
};
use crate::unparse::statement_text;
use crate::utils::{skip_whitespace, whitespace_of, CharClass};
use crate::val::Val;
use vstd::prelude::*;

verus! {

/// The text `let name = v`, for an identifier `name` and a number `v` that is
/// not negative, is the definition that binds `name` to `v`, and nothing
/// else.
pub proof fn binding_definition_parses(name: Seq<char>, v: i32)
    requires
        is_identifier(name),
        v >= 0,
    ensures
        grammar::program("let "@ + name + " = "@ + decimal(v as nat)) == Ok::<
            StmtModel,
            Seq<char>,
        >(StmtModel::BindingDef { name, value: ExprModel::Number(v) }),
{
    reveal_strlit("let ");
    reveal_strlit("let");
    reveal_strlit(" = ");
    reveal_strlit("=");
    let digits = decimal(v as nat);
    lemma_decimal_round_trip(v as nat);
    let s = "let "@ + name + " = "@ + digits;
    let empty = Seq::<char>::empty();
    let after_equals = seq![' '] + digits;
    let before_equals = "="@ + after_equals;
    let after_name = seq![' '] + before_equals;
    let before_name = name + after_name;
    let after_let = seq![' '] + before_name;
    assert(s =~= "let"@ + after_let);
    tag_of_concat("let"@, after_let);
    assert(before_name[0] == name[0]);
    leading_of_concat(seq![' '], before_name, CharClass::Whitespace);
    assert(whitespace_of(after_let) == Ok::<(Seq<char>, Seq<char>), Seq<char>>(
        (before_name, seq![' ']),
    ));
    identifier_is_found(name, after_name);
    leading_of_concat(seq![' '], before_equals, CharClass::Whitespace);
    assert(skip_whitespace(after_name) == before_equals);
    tag_of_concat("="@, after_equals);
    assert(CharClass::Digit.contains(digits[0]));
    leading_of_concat(seq![' '], digits, CharClass::Whitespace);
    assert(skip_whitespace(after_equals) == digits);
    assert(digits + empty =~= digits);
    literal_is_read(digits, empty);
    let parsed = Ok::<(Seq<char>, ExprModel), Seq<char>>((empty, ExprModel::Number(v)));
    assert(grammar::number(digits) == parsed);
    assert(grammar::non_operation(digits) == parsed);
    leading_of_concat(empty, empty, CharClass::Whitespace);
    assert(empty + empty =~= empty);
    assert(skip_whitespace(empty) =~= empty);
    operator_needs_its_character(empty);
    assert(grammar::operation(digits) is Err);
    assert(grammar::expression(digits) == parsed);
    assert(digits.len() < s.len());
    assert(grammar::expression_below(digits, s.len()) == parsed);
    assert(grammar::binding_def(s) == Ok::<(Seq<char>, StmtModel), Seq<char>>(
        (empty, StmtModel::BindingDef { name, value: ExprModel::Number(v) }),
    ));
    assert(grammar::statement(s) == grammar::binding_def(s));
}

/// The definition of a binding with a literal value always succeeds, gives
/// `Unit` and binds the name to the value in the current scope.
pub proof fn binding_definition_binds(name: Seq<char>, v: i32, env: EnvModel, depth: nat)
    ensures
        eval_statement(
            StmtModel::BindingDef { name, value: ExprModel::Number(v) },
            env,
            depth,
        ) == (Ok::<Val, EvalFailure>(Val::Unit), env.with_binding(name, Val::Number(v))),
{
}

/// A binding is visible in the scope that defines it: after `name` is bound
/// to `value`, using `name` there gives `value`.
pub proof fn binding_visible_in_its_scope(name: Seq<char>, value: Val, env: EnvModel, depth: nat)
    ensures
        eval_expression(
            ExprModel::BindingUsage { name },
            env.with_binding(name, value),
            depth,
        ) == Ok::<Val, EvalFailure>(value),
{
}

/// A binding is visible in every scope nested in the one that defines it, as
/// long as no scope between them binds the name again: the value of a name in
/// a scope that does not bind it is its value in the enclosing scope. A
/// function of that name in between hides nothing.
pub proof fn binding_visible_in_nested_scope(name: Seq<char>, inner: EnvModel, depth: nat)
    requires
        inner.parent is Some,
        !(inner.named.contains_key(name) && inner.named[name] is Binding),
    ensures
        inner.binding(name) == inner.parent->0.binding(name),
        eval_expression(ExprModel::BindingUsage { name }, inner, depth) == eval_expression(
            ExprModel::BindingUsage { name },
            *inner.parent->0,
            depth,
        ),
{
}

/// In particular, a block sees the bindings of the scope around it: in a block
/// that follows the definition of `name`, using `name` gives its value.
pub proof fn binding_visible_in_block(name: Seq<char>, value: Val, env: EnvModel, depth: nat)
    ensures
        eval_expression(
            ExprModel::Block {
                stmts: seq![StmtModel::Expression(ExprModel::BindingUsage { name })],
            },
            env.with_binding(name, value),
            depth,
        ) == Ok::<Val, EvalFailure>(value),
{
    let usage = StmtModel::Expression(ExprModel::BindingUsage { name });
    let stmts = seq![usage];
    let scope = env.with_binding(name, value).child();
    assert(stmts.drop_last() =~= Seq::<StmtModel>::empty());
    assert(eval_statements(stmts.drop_last(), scope, depth) == (
        Ok::<Val, EvalFailure>(Val::Unit),
        scope,
    ));
    assert(stmts.last() == usage);
    assert(scope.find(name, false) == Some(Named::Binding(value))) by {
        reveal_with_fuel(EnvModel::find, 2);
    }
    assert(eval_expression(ExprModel::BindingUsage { name }, scope, depth) == Ok::<
        Val,
        EvalFailure,
    >(value));
    assert(eval_statement(usage, scope, depth).0 == Ok::<Val, EvalFailure>(value));
    assert(eval_statements(stmts, scope, depth).0 == Ok::<Val, EvalFailure>(value));
}

/// An expression that stands as a statement leaves the environment as it is,
/// whatever it evaluates to. A block is such an expression: what it defines is
/// gone when it ends, and what the scope around it defines is as it was.
pub proof fn expression_statement_preserves_env(expr: ExprModel, env: EnvModel, depth: nat)
    ensures
        eval_statement(StmtModel::Expression(expr), env, depth).1 == env,
{
}

/// A statement that fails leaves the environment as it was.
pub proof fn failed_statement_preserves_env(stmt: StmtModel, env: EnvModel, depth: nat)
    requires
        eval_statement(stmt, env, depth).0 is Err,
    ensures
        eval_statement(stmt, env, depth).1 == env,
{
}

/// A binding that a block defines is not visible after the block: where `name`
/// is not bound before, a block that binds it, followed by a use of it, fails
/// because the binding does not exist.
pub proof fn binding_gone_after_block(name: Seq<char>, v: i32, env: EnvModel, depth: nat)
    requires
        env.binding(name) is None,
    ensures
        eval_statements(
            seq![
                StmtModel::Expression(
                    ExprModel::Block {
                        stmts: seq![StmtModel::BindingDef { name, value: ExprModel::Number(v) }],
                    },
                ),
                StmtModel::Expression(ExprModel::BindingUsage { name }),
            ],
            env,
            depth,
        ).0 == Err::<Val, EvalFailure>(EvalFailure::UndefinedBinding { name }),
{
    let definition = StmtModel::BindingDef { name, value: ExprModel::Number(v) };
    let block = StmtModel::Expression(ExprModel::Block { stmts: seq![definition] });
    let usage = StmtModel::Expression(ExprModel::BindingUsage { name });
    let stmts = seq![block, usage];
    assert(stmts.drop_last() =~= seq![block]);
    assert(seq![block].drop_last() =~= Seq::<StmtModel>::empty());
    assert(eval_statements(seq![block].drop_last(), env, depth) == (
        Ok::<Val, EvalFailure>(Val::Unit),
        env,
    ));
    assert(seq![block].last() == block);
    assert(seq![definition].drop_last() =~= Seq::<StmtModel>::empty());
    assert(eval_statements(seq![definition].drop_last(), env.child(), depth) == (
        Ok::<Val, EvalFailure>(Val::Unit),
        env.child(),
    ));
    assert(seq![definition].last() == definition);
    assert(eval_expression(ExprModel::Number(v), env.child(), depth) == Ok::<Val, EvalFailure>(
        Val::Number(v),
    ));
    assert(eval_statement(definition, env.child(), depth).0 == Ok::<Val, EvalFailure>(Val::Unit));
    assert(eval_statements(seq![definition], env.child(), depth).0 == Ok::<Val, EvalFailure>(
        Val::Unit,
    ));
    assert(eval_expression(ExprModel::Block { stmts: seq![definition] }, env, depth) == Ok::<
        Val,
        EvalFailure,
    >(Val::Unit));
    assert(eval_statement(block, env, depth) == (Ok::<Val, EvalFailure>(Val::Unit), env));
    assert(eval_statements(seq![block], env, depth) == (Ok::<Val, EvalFailure>(Val::Unit), env));
    assert(stmts.last() == usage);
    assert(eval_expression(ExprModel::BindingUsage { name }, env, depth) == Err::<
        Val,
        EvalFailure,
    >(EvalFailure::UndefinedBinding { name }));
    assert(eval_statement(usage, env, depth).0 == Err::<Val, EvalFailure>(
        EvalFailure::UndefinedBinding { name },
    ));
}

/// A definition in the current scope replaces an earlier one of the same name
/// there, of whichever kind, and a binding hides a binding of an enclosing
/// scope.
pub proof fn later_definition_wins(name: Seq<char>, earlier: Named, later: Val, env: EnvModel)
    ensures
        env.with(name, earlier).with_binding(name, later) == env.with_binding(name, later),
        env.with(name, earlier).with_binding(name, later).binding(name) == Some(later),
        env.with(name, earlier).child().with_binding(name, later).binding(name) == Some(later),
{
    assert(env.named.insert(name, earlier).insert(name, Named::Binding(later))
        =~= env.named.insert(name, Named::Binding(later)));
}

/// Bindings and functions are looked up apart: a function that a nested scope
/// defines hides no binding of an enclosing scope, and a binding hides no
/// function.
pub proof fn other_kind_is_passed_over(
    name: Seq<char>,
    value: Val,
    params: Seq<Seq<char>>,
    body: StmtModel,
    env: EnvModel,
)
    ensures
        env.child().with_func(name, params, body).binding(name) == env.binding(name),
        env.child().with_binding(name, value).func(name) == env.func(name),
{
    reveal_with_fuel(EnvModel::find, 2);
}

/// A definition leaves what every other name stands for as it was.
pub proof fn definition_leaves_other_names(
    name: Seq<char>,
    other: Seq<char>,
    info: Named,
    env: EnvModel,
)
    requires
        other != name,
    ensures
        env.with(name, info).binding(other) == env.binding(other),
        env.with(name, info).func(other) == env.func(other),
{
}

/// The quotient that `truncated_quotient` gives is the one rounded towards
/// zero: the remainder is smaller than the divisor in absolute value and is
/// zero or has the sign of the dividend.
pub proof fn truncated_quotient_rounds_towards_zero(x: int, d: int)
    requires
        d != 0,
    ensures
        ({
            let r = x - truncated_quotient(x, d) * d;
            &&& -d < r < d || d < r < -d
            &&& x >= 0 ==> r >= 0
            &&& x <= 0 ==> r <= 0
        }),
{
    let q = truncated_quotient(x, d);
    if x >= 0 && d > 0 {
        assert(x == d * (x / d) + x % d && 0 <= x % d < d) by (nonlinear_arith)
            requires
                d > 0,
        ;
        assert(q * d == d * (x / d)) by (nonlinear_arith)
            requires
                q == x / d,
        ;
    } else if x < 0 && d < 0 {
        let nx = -x;
        let nd = -d;
        assert(nx == nd * (nx / nd) + nx % nd && 0 <= nx % nd < nd) by (nonlinear_arith)
            requires
                nd > 0,
        ;
        assert(q * d == -(nd * (nx / nd))) by (nonlinear_arith)
            requires
                q == nx / nd,
                nd == -d,
        ;
    } else if x < 0 {
        let nx = -x;
        assert(nx == d * (nx / d) + nx % d && 0 <= nx % d < d) by (nonlinear_arith)
            requires
                d > 0,
        ;
        assert(q * d == -(d * (nx / d))) by (nonlinear_arith)
            requires
                q == -(nx / d),
        ;
    } else {
        let nd = -d;
        assert(x == nd * (x / nd) + x % nd && 0 <= x % nd < nd) by (nonlinear_arith)
            requires
                nd > 0,
        ;
        assert(q * d == nd * (x / nd)) by (nonlinear_arith)
            requires
                q == -(x / nd),
                nd == -d,
        ;
    }
}

/// Arithmetic on two literals is exact: the sum, the difference, the product
/// or the quotient rounded towards zero, wherever that is an `i32`; a division
/// by zero fails as such.
pub proof fn arithmetic_is_exact(op: Operations, a: i32, b: i32, env: EnvModel, depth: nat)
    ensures
        eval_expression(
            ExprModel::Operation {
                lhs: Box::new(ExprModel::Number(a)),
                rhs: Box::new(ExprModel::Number(b)),
                op,
            },
            env,
            depth,
        ) == apply_to_numbers(op, a, b),
        op == Operations::Div && b == 0 ==> apply_to_numbers(op, a, b) == Err::<
            Val,
            EvalFailure,
        >(EvalFailure::DivisionByZero),
        !(op == Operations::Div && b == 0) && fits(exact(op, a as int, b as int))
            ==> apply_to_numbers(op, a, b) == Ok::<Val, EvalFailure>(
            Val::Number(exact(op, a as int, b as int) as i32),
        ),
        op == Operations::Add ==> exact(op, a as int, b as int) == a + b,
        op == Operations::Sub ==> exact(op, a as int, b as int) == a - b,
        op == Operations::Mul ==> exact(op, a as int, b as int) == a * b,
        op == Operations::Div ==> exact(op, a as int, b as int) == truncated_quotient(
            a as int,
            b as int,
        ),
{
    reveal_with_fuel(eval_expression, 2);
}

/// A call with another number of arguments than the function has parameters
/// fails, and the failure names both numbers.
pub proof fn wrong_arity_fails(
    callee: Seq<char>,
    params: Seq<Seq<char>>,
    body: StmtModel,
    args: Seq<ExprModel>,
    env: EnvModel,
    depth: nat,
)
    requires
        env.func(callee) == Some((params, body)),
        params.len() != args.len(),
    ensures
        eval_expression(ExprModel::FuncCall { callee, params: args }, env, depth) == Err::<
            Val,
            EvalFailure,
        >(EvalFailure::ArityMismatch { expected: params.len(), got: args.len() }),
        (EvalFailure::ArityMismatch { expected: params.len(), got: args.len() }).message()
            == "expected "@ + decimal(params.len()) + " parameters, got "@ + decimal(args.len()),
{
}

/// The arguments of a call are evaluated one by one in the environment of the
/// call: they give values exactly where each of them does, and those are the
/// values.
pub proof fn arguments_give_their_values(args: Seq<ExprModel>, env: EnvModel, depth: nat)
    ensures
        eval_arguments(args, env, depth) matches Ok(values) ==> values.len() == args.len()
            && forall|i: int|
            0 <= i < args.len() ==> eval_expression(#[trigger] args[i], env, depth) == Ok::<
                Val,
                EvalFailure,
            >(values[i]),
        (forall|i: int| 0 <= i < args.len() ==> eval_expression(#[trigger] args[i], env, depth)
            is Ok) ==> eval_arguments(args, env, depth) is Ok,
    decreases args.len(),
{
    if args.len() > 0 {
        let earlier = args.drop_last();
        arguments_give_their_values(earlier, env, depth);
        assert forall|i: int| 0 <= i < earlier.len() implies earlier[i] == args[i] by {}
        if eval_arguments(args, env, depth) is Ok {
            let values = eval_arguments(args, env, depth)->Ok_0;
            let before = eval_arguments(earlier, env, depth)->Ok_0;
            assert forall|i: int| 0 <= i < args.len() implies eval_expression(
                #[trigger] args[i],
                env,
                depth,
            ) == Ok::<Val, EvalFailure>(values[i]) by {
                if i < earlier.len() {
                    assert(earlier[i] == args[i]);
                    assert(values[i] == before[i]);
                }
            }
        }
        if forall|i: int| 0 <= i < args.len() ==> eval_expression(#[trigger] args[i], env, depth)
            is Ok {
            assert forall|i: int| 0 <= i < earlier.len() implies eval_expression(
                #[trigger] earlier[i],
                env,
                depth,
            ) is Ok by {
                assert(earlier[i] == args[i]);
            }
            assert(args.last() == args[args.len() - 1]);
        }
    }
}

/// The first argument that fails is the failure of the call, where the
/// function is defined with as many parameters as there are arguments.
pub proof fn failing_argument_fails_call(
    callee: Seq<char>,
    params: Seq<Seq<char>>,
    body: StmtModel,
    args: Seq<ExprModel>,
    i: int,
    env: EnvModel,
    depth: nat,
)
    requires
        env.func(callee) == Some((params, body)),
        params.len() == args.len(),
        0 <= i < args.len(),
        forall|k: int| 0 <= k < i ==> eval_expression(#[trigger] args[k], env, depth) is Ok,
        eval_expression(args[i], env, depth) is Err,
    ensures
        eval_expression(ExprModel::FuncCall { callee, params: args }, env, depth)
            == eval_expression(args[i], env, depth),
{
    let earlier = args.take(i);
    assert forall|k: int| 0 <= k < earlier.len() implies eval_expression(
        #[trigger] earlier[k],
        env,
        depth,
    ) is Ok by {
        assert(earlier[k] == args[k]);
    }
    arguments_give_their_values(earlier, env, depth);
    lemma_argument_failure(args, i, args.len() as int, env, depth);
    assert(args.take(args.len() as int) =~= args);
}

/// A call gives what its body gives: where the function is defined with as
/// many parameters as there are arguments and the arguments give values, the
/// call evaluates to what the body evaluates to in a new scope inside the
/// environment of the call that binds each parameter to the value of its
/// argument. This holds under every limit on nested calls under which the
/// call does not fail for that limit, and the result is then the same under
/// every larger limit.
pub proof fn call_gives_body_value(
    callee: Seq<char>,
    params: Seq<Seq<char>>,
    body: StmtModel,
    args: Seq<ExprModel>,
    values: Seq<Val>,
    env: EnvModel,
    depth: nat,
    deeper: nat,
)
    requires
        env.func(callee) == Some((params, body)),
        params.len() == args.len(),
        eval_arguments(args, env, depth) == Ok::<Seq<Val>, EvalFailure>(values),
        eval_expression(ExprModel::FuncCall { callee, params: args }, env, depth) != Err::<
            Val,
            EvalFailure,
        >(EvalFailure::DepthExceeded),
        depth <= deeper,
    ensures
        eval_expression(ExprModel::FuncCall { callee, params: args }, env, depth)
            == eval_statement(body, env.child().with_bindings(params, values), depth).0,
        eval_expression(ExprModel::FuncCall { callee, params: args }, env, deeper)
            == eval_expression(ExprModel::FuncCall { callee, params: args }, env, depth),
        eval_statement(body, env.child().with_bindings(params, values), deeper).0
            == eval_statement(body, env.child().with_bindings(params, values), depth).0,
{
    let call = ExprModel::FuncCall { callee, params: args };
    let scope = env.child().with_bindings(params, values);
    assert(depth > 0);
    assert(eval_expression(call, env, depth) == eval_statement(
        body,
        scope,
        (depth - 1) as nat,
    ).0);
    deeper_statement(body, scope, (depth - 1) as nat, depth);
    deeper_statement(body, scope, (depth - 1) as nat, deeper);
    deeper_expression(call, env, depth, deeper);
}

/// A call of a function that is not defined fails as such, whatever the
/// arguments are.
pub proof fn undefined_function_fails(
    callee: Seq<char>,
    args: Seq<ExprModel>,
    env: EnvModel,
    depth: nat,
)
    requires
        env.func(callee) is None,
    ensures
        eval_expression(ExprModel::FuncCall { callee, params: args }, env, depth) == Err::<
            Val,
            EvalFailure,
        >(EvalFailure::UndefinedFunction { name: callee }),
{
}

/// The use of a binding that is not defined fails as such.
pub proof fn undefined_binding_fails(name: Seq<char>, env: EnvModel, depth: nat)
    requires
        env.binding(name) is None,
    ensures
        eval_expression(ExprModel::BindingUsage { name }, env, depth) == Err::<
            Val,
            EvalFailure,
        >(EvalFailure::UndefinedBinding { name }),
{
}

/// The empty block evaluates to `Unit`.
pub proof fn empty_block_is_unit(env: EnvModel, depth: nat)
    ensures
        eval_expression(ExprModel::Block { stmts: Seq::empty() }, env, depth) == Ok::<
            Val,
            EvalFailure,
        >(Val::Unit),
{
    assert(eval_statements(Seq::empty(), env.child(), depth).0 == Ok::<Val, EvalFailure>(
        Val::Unit,
    ));
}

/// A block that is not empty evaluates its statements in order in one new
/// scope and gives the value of the last: each statement is evaluated in the
/// environment that the earlier ones left, and the first failure is that of
/// the block.
pub proof fn block_gives_last_value(
    earlier: Seq<StmtModel>,
    last: StmtModel,
    env: EnvModel,
    depth: nat,
)
    ensures
        eval_expression(
            ExprModel::Block { stmts: earlier.push(last) },
            env,
            depth,
        ) == match eval_statements(earlier, env.child(), depth).0 {
            Ok(_) => eval_statement(
                last,
                eval_statements(earlier, env.child(), depth).1,
                depth,
            ).0,
            Err(failure) => Err(failure),
        },
{
    let stmts = earlier.push(last);
    assert(stmts.drop_last() =~= earlier);
    assert(stmts.last() == last);
    assert(eval_statements(stmts, env.child(), depth).0 == match eval_statements(
        earlier,
        env.child(),
        depth,
    ).0 {
        Ok(_) => eval_statement(last, eval_statements(earlier, env.child(), depth).1, depth).0,
        Err(failure) => Err(failure),
    });
}

/// The round trip: a text that is read as a statement, printed back in
/// canonical form, is read as the same statement, which therefore evaluates
/// alike.
pub proof fn printed_statement_parses_back(s: Seq<char>)
    requires
        grammar::program(s) is Ok,
    ensures
        grammar::program(statement_text(grammar::program(s)->Ok_0)) == grammar::program(s),
        forall|env: EnvModel, depth: nat|
            eval_statement(
                grammar::program(statement_text(grammar::program(s)->Ok_0))->Ok_0,
                env,
                depth,
            ) == #[trigger] eval_statement(grammar::program(s)->Ok_0, env, depth),
{
    parsed_statement(s);
    well_formed_statement_round_trip(grammar::program(s)->Ok_0);
}

} // verus!
