use crate::grammar;
use crate::guard::{names_after_name, names_at, no_names};
use crate::model::{ExprModel, StmtModel};
use crate::round_trip::{
    all_identifiers, arrow_run, closed, exposed, expression_needs_its_first_character,
    head_name, names_only, no_argument, sealed, sealed_operand, starts_expression,
    well_formed_arguments, well_formed_expression, well_formed_operand, well_formed_statement,
    well_formed_statements,
};
use crate::texts::{
    found_identifier, identifier_is_found, is_identifier, nothing_leads, skipping_spaces_first,
    split_leading_parts, tag_of_concat,
};
use crate::utils::{
    after_tag, ident_of, leading, sequence_of, skip_spaces, skip_whitespace, whitespace_of,
    CharClass, Scanned,
};
use vstd::prelude::*;

verus! {

/// What is left after an operator is shorter than the text.
pub proof fn operator_progress(s: Seq<char>)
    requires
        grammar::operator(s) is Ok,
    ensures
        grammar::operator(s)->Ok_0.0.len() < s.len(),
{
    reveal_strlit("+");
    reveal_strlit("-");
    reveal_strlit("*");
    reveal_strlit("/");
}

/// What is left after a sequence is never longer than the text, and shorter
/// where the sequence is not empty.
pub proof fn sequence_progress<V>(
    item: spec_fn(Seq<char>) -> Scanned<V>,
    separator: spec_fn(Seq<char>) -> Seq<char>,
    s: Seq<char>,
)
    ensures
        sequence_of(item, separator, s).0.len() <= s.len(),
        sequence_of(item, separator, s).1.len() > 0 ==> sequence_of(item, separator, s).0.len()
            < s.len(),
    decreases s.len(),
{
    match item(s) {
        Ok((after_item, v)) => {
            let next = separator(after_item);
            if after_item.len() < s.len() && next.len() <= after_item.len() {
                sequence_progress(item, separator, next);
            }
        },
        Err(_) => {},
    }
}

/// What is left after an expression that is no operation is shorter than the
/// text.
pub proof fn non_operation_progress(s: Seq<char>)
    requires
        grammar::non_operation(s) is Ok,
    ensures
        grammar::non_operation(s)->Ok_0.0.len() < s.len(),
{
    reveal_strlit("{");
    reveal_strlit("}");
    if grammar::number(s) is Ok {
        split_leading_parts(s, CharClass::Digit);
    } else if grammar::func_call(s) is Ok {
        found_identifier(s);
        let after_callee = ident_of(s)->Ok_0.0;
        sequence_progress(
            grammar::argument_item(s.len()),
            grammar::no_separator(),
            after_callee,
        );
    } else if grammar::binding_usage(s) is Ok {
        found_identifier(s);
    } else {
        assert(grammar::block(s) is Ok);
        let after_brace = after_tag("{"@, s)->Ok_0;
        skipping_spaces_first(after_brace);
        let (after_stmts, stmts) = sequence_of(
            grammar::statement_item(s.len()),
            grammar::whitespace_separator(),
            skip_whitespace(after_brace),
        );
        sequence_progress(
            grammar::statement_item(s.len()),
            grammar::whitespace_separator(),
            skip_whitespace(after_brace),
        );
        skipping_spaces_first(after_stmts);
    }
}

/// What is left after an expression is shorter than the text.
pub proof fn expression_progress(s: Seq<char>)
    requires
        grammar::expression(s) is Ok,
    ensures
        grammar::expression(s)->Ok_0.0.len() < s.len(),
{
    if grammar::operation(s) is Ok {
        let after_lhs = grammar::non_operation(s)->Ok_0.0;
        let after_op = grammar::operator(skip_whitespace(after_lhs))->Ok_0.0;
        let operand = skip_whitespace(after_op);
        assert(grammar::non_operation_below(operand, s.len()) is Ok);
        non_operation_progress(operand);
    } else {
        non_operation_progress(s);
    }
}

/// What is left after a statement is shorter than the text.
pub proof fn statement_progress(s: Seq<char>)
    requires
        grammar::statement(s) is Ok,
    ensures
        grammar::statement(s)->Ok_0.0.len() < s.len(),
    decreases s.len(),
{
    if grammar::binding_def(s) is Ok {
        let after_let = after_tag("let"@, s)->Ok_0;
        let before_name = whitespace_of(after_let)->Ok_0.0;
        let after_name = ident_of(before_name)->Ok_0.0;
        let after_equals = after_tag("="@, skip_whitespace(after_name))->Ok_0;
        let value = skip_whitespace(after_equals);
        assert(grammar::expression_below(value, s.len()) is Ok);
        expression_progress(value);
    } else if grammar::func_def(s) is Ok {
        let after_fun = after_tag("fun"@, s)->Ok_0;
        let before_name = whitespace_of(after_fun)->Ok_0.0;
        let after_name = ident_of(before_name)->Ok_0.0;
        let after_params = sequence_of(
            grammar::parameter_item(),
            grammar::whitespace_separator(),
            skip_whitespace(after_name),
        ).0;
        let after_arrow = after_tag("=>"@, after_params)->Ok_0;
        let body = skip_whitespace(after_arrow);
        assert(grammar::statement_below(body, s.len()) is Ok);
        statement_progress(body);
    } else {
        expression_progress(s);
    }
}

/// Whether an operator and an operand stand at the front of `rest` after its
/// leading whitespace.
pub open spec fn operation_follows(rest: Seq<char>) -> bool {
    grammar::operator(skip_whitespace(rest)) matches Ok((after_op, _)) && grammar::non_operation(
        skip_whitespace(after_op),
    ) is Ok
}

/// What the parser found of an operand: it is well formed, no argument
/// follows it unless it is closed, and no operation follows it unless it is
/// sealed.
pub open spec fn found_operand(expr: ExprModel, rest: Seq<char>) -> bool {
    &&& well_formed_operand(expr)
    &&& !closed(expr) ==> no_argument(rest)
    &&& !sealed_operand(expr) ==> !operation_follows(rest)
}

/// What the parser found of an expression: it is well formed, no argument
/// follows it unless it is closed, and no operation follows it unless it is
/// sealed.
pub open spec fn found_expression(expr: ExprModel, rest: Seq<char>) -> bool {
    &&& well_formed_expression(expr)
    &&& !closed(expr) ==> no_argument(rest)
    &&& !sealed(expr) ==> !operation_follows(rest)
}

/// What the parser found of arguments: they are well formed, no argument
/// follows them, and where there is one, no operation follows unless the last
/// argument is sealed.
pub open spec fn found_arguments(params: Seq<ExprModel>, rest: Seq<char>) -> bool {
    &&& well_formed_arguments(params)
    &&& no_argument(rest)
    &&& params.len() > 0 && !sealed(params.last()) ==> !operation_follows(rest)
}

/// The arguments that `func_call` reads in `s`, and what is left after them.
pub open spec fn call_arguments(s: Seq<char>) -> (Seq<char>, Seq<ExprModel>) {
    sequence_of(grammar::argument_item(s.len()), grammar::no_separator(), ident_of(s)->Ok_0.0)
}

/// Where an argument is read, spaces stand at the front of the text, the
/// expression after them is the argument, and what is left is shorter than
/// the text.
pub proof fn argument_read(s: Seq<char>, bound: nat)
    requires
        grammar::argument_below(s, bound) is Ok,
    ensures
        leading(s, CharClass::Space) > 0,
        skip_spaces(s).len() < bound,
        grammar::expression(skip_spaces(s)) == grammar::argument_below(s, bound),
        grammar::argument_below(s, bound)->Ok_0.0.len() < s.len(),
{
    skipping_spaces_first(s);
    assert(grammar::expression_below(skip_spaces(s), bound) is Ok);
    expression_progress(skip_spaces(s));
}

/// Where no argument is read in a text that is shorter than the bound, no
/// argument stands at its front.
pub proof fn no_argument_read(s: Seq<char>, bound: nat)
    requires
        grammar::argument_below(s, bound) is Err,
        s.len() < bound,
    ensures
        no_argument(s),
{
    skipping_spaces_first(s);
    split_leading_parts(s, CharClass::Space);
}

/// The statements that `block` reads in `s`, and what is left after them.
pub open spec fn block_statements(s: Seq<char>) -> (Seq<char>, Seq<StmtModel>) {
    sequence_of(
        grammar::statement_item(s.len()),
        grammar::whitespace_separator(),
        skip_whitespace(after_tag("{"@, s)->Ok_0),
    )
}

/// A call that the parser gives is well formed where its arguments are.
pub proof fn parsed_call(s: Seq<char>)
    requires
        grammar::func_call(s) is Ok,
        found_arguments(call_arguments(s).1, call_arguments(s).0),
    ensures
        grammar::func_call(s)->Ok_0.1 is FuncCall,
        found_operand(grammar::func_call(s)->Ok_0.1, grammar::func_call(s)->Ok_0.0),
{
    found_identifier(s);
}

/// The use of a binding that the parser gives, where it could not read a call,
/// is followed by no argument.
pub proof fn parsed_usage(s: Seq<char>)
    requires
        grammar::func_call(s) is Err,
        grammar::binding_usage(s) is Ok,
    ensures
        grammar::binding_usage(s)->Ok_0.1 is BindingUsage,
        found_operand(grammar::binding_usage(s)->Ok_0.1, grammar::binding_usage(s)->Ok_0.0),
{
    found_identifier(s);
    let rest = ident_of(s)->Ok_0.0;
    let item = grammar::argument_item(s.len());
    let separator = grammar::no_separator();
    assert(sequence_of(item, separator, rest).1.len() == 0);
    if item(rest) is Ok {
        let after = item(rest)->Ok_0.0;
        argument_read(rest, s.len());
        let tail = sequence_of(item, separator, separator(after)).1;
        assert((seq![item(rest)->Ok_0.1] + tail).len() > 0);
        assert(false);
    }
    no_argument_read(rest, s.len());
}

/// A block that the parser gives is well formed where its statements are.
pub proof fn parsed_block(s: Seq<char>)
    requires
        grammar::block(s) is Ok,
        well_formed_statements(block_statements(s).1),
    ensures
        grammar::block(s)->Ok_0.1 is Block,
        found_operand(grammar::block(s)->Ok_0.1, grammar::block(s)->Ok_0.0),
{
}

/// An operation that the parser gives is well formed where its operands are:
/// its left operand is sealed, because an operation follows it.
pub proof fn parsed_operation(s: Seq<char>)
    requires
        grammar::operation(s) is Ok,
        found_operand(grammar::non_operation(s)->Ok_0.1, grammar::non_operation(s)->Ok_0.0),
        ({
            let after_lhs = grammar::non_operation(s)->Ok_0.0;
            let after_op = grammar::operator(skip_whitespace(after_lhs))->Ok_0.0;
            let operand = skip_whitespace(after_op);
            found_operand(
                grammar::non_operation(operand)->Ok_0.1,
                grammar::non_operation(operand)->Ok_0.0,
            )
        }),
    ensures
        found_expression(grammar::operation(s)->Ok_0.1, grammar::operation(s)->Ok_0.0),
{
    let after_lhs = grammar::non_operation(s)->Ok_0.0;
    let after_op = grammar::operator(skip_whitespace(after_lhs))->Ok_0.0;
    let operand = skip_whitespace(after_op);
    assert(grammar::non_operation_below(operand, s.len()) is Ok);
    assert(grammar::non_operation(operand) is Ok);
    assert(operation_follows(after_lhs));
}

/// An expression that the parser gives where it could not read an operation
/// is followed by no operation.
pub proof fn parsed_alone(s: Seq<char>)
    requires
        grammar::operation(s) is Err,
        grammar::non_operation(s) is Ok,
    ensures
        !operation_follows(grammar::non_operation(s)->Ok_0.0),
{
    non_operation_progress(s);
    let after_lhs = grammar::non_operation(s)->Ok_0.0;
    skipping_spaces_first(after_lhs);
    if grammar::operator(skip_whitespace(after_lhs)) is Ok {
        operator_progress(skip_whitespace(after_lhs));
        let after_op = grammar::operator(skip_whitespace(after_lhs))->Ok_0.0;
        skipping_spaces_first(after_op);
        let operand = skip_whitespace(after_op);
        assert(operand.len() < s.len());
        assert(grammar::non_operation_below(operand, s.len()) is Err);
    }
}

/// An operand that the parser gives is well formed; no argument follows it
/// unless it is closed, and no operation follows it unless it is sealed.
pub proof fn parsed_operand(s: Seq<char>)
    requires
        grammar::non_operation(s) is Ok,
    ensures
        found_operand(grammar::non_operation(s)->Ok_0.1, grammar::non_operation(s)->Ok_0.0),
    decreases s.len(), 4int,
{
    if grammar::number(s) is Ok {
    } else if grammar::func_call(s) is Ok {
        found_identifier(s);
        let after_callee = ident_of(s)->Ok_0.0;
        parsed_arguments(after_callee, s.len());
        parsed_call(s);
    } else if grammar::binding_usage(s) is Ok {
        parsed_usage(s);
    } else {
        reveal_strlit("{");
        let after_brace = after_tag("{"@, s)->Ok_0;
        skipping_spaces_first(after_brace);
        parsed_statements(skip_whitespace(after_brace), s.len());
        parsed_block(s);
    }
}

/// An expression that the parser gives is well formed; no argument follows
/// it unless it is closed, and no operation follows it unless it is sealed.
pub proof fn parsed_expression(s: Seq<char>)
    requires
        grammar::expression(s) is Ok,
    ensures
        found_expression(grammar::expression(s)->Ok_0.1, grammar::expression(s)->Ok_0.0),
    decreases s.len(), 6int,
{
    if grammar::operation(s) is Ok {
        let after_lhs = grammar::non_operation(s)->Ok_0.0;
        let after_op = grammar::operator(skip_whitespace(after_lhs))->Ok_0.0;
        let operand = skip_whitespace(after_op);
        assert(grammar::non_operation_below(operand, s.len()) is Ok);
        parsed_operand(s);
        parsed_operand(operand);
        parsed_operation(s);
    } else {
        parsed_operand(s);
        parsed_alone(s);
    }
}

/// Arguments that the parser gives are well formed: all but the last are
/// closed, because an argument follows them.
pub proof fn parsed_arguments(s: Seq<char>, bound: nat)
    requires
        s.len() < bound,
    ensures
        found_arguments(
            sequence_of(grammar::argument_item(bound), grammar::no_separator(), s).1,
            sequence_of(grammar::argument_item(bound), grammar::no_separator(), s).0,
        ),
    decreases s.len(), 7int,
{
    let item = grammar::argument_item(bound);
    let separator = grammar::no_separator();
    let (rest, params) = sequence_of(item, separator, s);
    if item(s) is Ok {
        let (after, first) = item(s)->Ok_0;
        argument_read(s, bound);
        skipping_spaces_first(s);
        let from = skip_spaces(s);
        assert(separator(after) == after);
        let (end, others) = sequence_of(item, separator, after);
        assert(params == seq![first] + others);
        assert(params[0] == first);
        assert(params.drop_first() =~= others);
        parsed_expression(from);
        parsed_arguments(after, bound);
        if others.len() > 0 {
            assert(item(after) is Ok);
            argument_read(after, bound);
            assert(closed(first));
            assert(params.last() == others.last());
        } else {
            assert(rest == after);
            assert(params.last() == first);
        }
    } else {
        no_argument_read(s, bound);
    }
}

/// Whether the text `s` goes on as the definition of a function does after
/// `fun`: with names, then `=>`, then a statement.
pub open spec fn definition_follows(s: Seq<char>) -> bool {
    &&& names_at(s).1.len() > 0
    &&& after_tag("=>"@, names_at(s).0) matches Ok(after_arrow) && grammar::statement(
        skip_whitespace(after_arrow),
    ) is Ok
}

/// The text from which the parser gave an expression that is made of names
/// alone begins with a name, and the names at its front go on into what is
/// left after the expression.
pub proof fn names_through_expression(s: Seq<char>)
    requires
        grammar::expression(s) is Ok,
        names_only(grammar::expression(s)->Ok_0.1),
    ensures
        ident_of(s) is Ok,
        head_name(grammar::expression(s)->Ok_0.1) == Some(ident_of(s)->Ok_0.1),
        names_at(s).0 == names_at(skip_whitespace(grammar::expression(s)->Ok_0.0)).0,
        names_at(s).1.len() > 0,
        grammar::expression(s)->Ok_0.1 is BindingUsage ==> ident_of(s)->Ok_0.0
            == grammar::expression(s)->Ok_0.0,
        grammar::expression(s)->Ok_0.1 is FuncCall ==> ident_of(
            skip_whitespace(ident_of(s)->Ok_0.0),
        ) is Ok,
    decreases s.len(),
{
    let (rest, expr) = grammar::expression(s)->Ok_0;
    assert(grammar::operation(s) is Err);
    assert(grammar::non_operation(s) == grammar::expression(s));
    assert(grammar::number(s) is Err);
    if grammar::func_call(s) is Ok {
        found_identifier(s);
        let after_callee = ident_of(s)->Ok_0.0;
        skipping_spaces_first(after_callee);
        names_after_name(s);
        let item = grammar::argument_item(s.len());
        let separator = grammar::no_separator();
        assert(item(after_callee) is Ok);
        let (after, first) = item(after_callee)->Ok_0;
        argument_read(after_callee, s.len());
        let from = skip_spaces(after_callee);
        assert(separator(after) == after);
        let (end, others) = sequence_of(item, separator, after);
        assert(expr->params == seq![first] + others);
        assert(others.len() == 0);
        assert(expr->params[0] == first);
        if item(after) is Ok {
            let after_next = item(after)->Ok_0.0;
            argument_read(after, s.len());
            let tail = sequence_of(item, separator, separator(after_next)).1;
            assert((seq![item(after)->Ok_0.1] + tail).len() > 0);
            assert(false);
        }
        assert(rest == after);
        names_through_expression(from);
        if from.len() == 0 || !starts_expression(from[0]) {
            expression_needs_its_first_character(from);
        }
        nothing_leads(from, CharClass::Whitespace);
    } else {
        assert(grammar::binding_usage(s) is Ok);
        names_after_name(s);
    }
}

/// The text from which the parser gave the definition of a function goes on,
/// from its very front, as such a definition does after `fun`: the word `fun`
/// is itself a name.
pub proof fn names_through_definition(s: Seq<char>)
    requires
        grammar::func_def(s) is Ok,
    ensures
        definition_follows(s),
{
    reveal_strlit("fun");
    let after_fun = after_tag("fun"@, s)->Ok_0;
    assert(s =~= "fun"@ + after_fun);
    split_leading_parts(after_fun, CharClass::Whitespace);
    let before_name = whitespace_of(after_fun)->Ok_0.0;
    assert(after_fun[0] == whitespace_of(after_fun)->Ok_0.1[0]);
    assert(is_identifier("fun"@));
    identifier_is_found("fun"@, after_fun);
    names_after_name(s);
    names_after_name(before_name);
    let after_name = ident_of(before_name)->Ok_0.0;
    let after_params = names_at(skip_whitespace(after_name)).0;
    let after_arrow = after_tag("=>"@, after_params)->Ok_0;
    assert(grammar::statement_below(skip_whitespace(after_arrow), s.len()) is Ok);
}

/// No expression that is made of names alone and begins with the name `fun` is
/// given by the parser as a statement where the text goes on, after it, as the
/// definition of a function does: the parser would have read a definition.
pub proof fn exposed_expression(s: Seq<char>)
    requires
        grammar::binding_def(s) is Err,
        grammar::func_def(s) is Err,
        grammar::expression(s) is Ok,
        head_name(grammar::expression(s)->Ok_0.1) == Some("fun"@),
        names_only(grammar::expression(s)->Ok_0.1),
    ensures
        !definition_follows(skip_whitespace(grammar::expression(s)->Ok_0.0)),
{
    let rest = grammar::expression(s)->Ok_0.0;
    if definition_follows(skip_whitespace(rest)) {
        names_through_expression(s);
        found_identifier(s);
        let after_fun = ident_of(s)->Ok_0.0;
        tag_of_concat("fun"@, after_fun);
        names_after_name(s);
        let before_name = skip_whitespace(after_fun);
        skipping_spaces_first(after_fun);
        if ident_of(before_name) is Err {
            no_names(before_name);
        }
        assert(ident_of(before_name) is Ok);
        split_leading_parts(after_fun, CharClass::Whitespace);
        assert(whitespace_of(after_fun) is Ok) by {
            if leading(after_fun, CharClass::Whitespace) == 0 {
                assert(after_fun.skip(0) =~= after_fun);
            }
        }
        found_identifier(before_name);
        names_after_name(before_name);
        let after_name = ident_of(before_name)->Ok_0.0;
        skipping_spaces_first(after_name);
        let after_params = names_at(skip_whitespace(after_name)).0;
        sequence_progress(
            grammar::parameter_item(),
            grammar::whitespace_separator(),
            skip_whitespace(after_name),
        );
        let after_arrow = after_tag("=>"@, after_params)->Ok_0;
        skipping_spaces_first(after_arrow);
        assert(skip_whitespace(after_arrow).len() < s.len());
        assert(grammar::statement_below(skip_whitespace(after_arrow), s.len()) is Ok);
        assert(grammar::func_def(s) is Ok);
    }
}

/// A statement that the parser gives is well formed, and it is not exposed
/// where the text goes on, after it, as the definition of a function does.
pub proof fn parsed_statement(s: Seq<char>)
    requires
        grammar::statement(s) is Ok,
    ensures
        well_formed_statement(grammar::statement(s)->Ok_0.1),
        definition_follows(skip_whitespace(grammar::statement(s)->Ok_0.0)) ==> !exposed(
            grammar::statement(s)->Ok_0.1,
        ),
    decreases s.len(), 8int,
{
    if grammar::binding_def(s) is Ok {
        let after_let = after_tag("let"@, s)->Ok_0;
        let before_name = whitespace_of(after_let)->Ok_0.0;
        found_identifier(before_name);
        let after_name = ident_of(before_name)->Ok_0.0;
        let after_equals = after_tag("="@, skip_whitespace(after_name))->Ok_0;
        let value = skip_whitespace(after_equals);
        assert(grammar::expression_below(value, s.len()) is Ok);
        parsed_expression(value);
    } else if grammar::func_def(s) is Ok {
        let after_fun = after_tag("fun"@, s)->Ok_0;
        let before_name = whitespace_of(after_fun)->Ok_0.0;
        found_identifier(before_name);
        let after_name = ident_of(before_name)->Ok_0.0;
        parsed_parameters(skip_whitespace(after_name));
        let after_params = sequence_of(
            grammar::parameter_item(),
            grammar::whitespace_separator(),
            skip_whitespace(after_name),
        ).0;
        let after_arrow = after_tag("=>"@, after_params)->Ok_0;
        let body = skip_whitespace(after_arrow);
        assert(grammar::statement_below(body, s.len()) is Ok);
        parsed_statement(body);
    } else {
        parsed_expression(s);
        let expr = grammar::expression(s)->Ok_0.1;
        if head_name(expr) == Some("fun"@) && names_only(expr) {
            exposed_expression(s);
        }
    }
}

/// Parameters that the parser gives are identifiers.
pub proof fn parsed_parameters(s: Seq<char>)
    ensures
        all_identifiers(
            sequence_of(grammar::parameter_item(), grammar::whitespace_separator(), s).1,
        ),
    decreases s.len(),
{
    let item = grammar::parameter_item();
    let separator = grammar::whitespace_separator();
    if item(s) is Ok {
        let (after, first) = item(s)->Ok_0;
        let next = separator(after);
        found_identifier(s);
        if after.len() < s.len() && next.len() <= after.len() {
            parsed_parameters(next);
            let others = sequence_of(item, separator, next).1;
            let params = seq![first] + others;
            assert forall|i: int| 0 <= i < params.len() implies is_identifier(
                #[trigger] params[i],
            ) by {
                if i > 0 {
                    assert(params[i] == others[i - 1]);
                }
            }
        }
    }
}

/// Statements that the parser gives are well formed: none is exposed before a
/// run of names that `=>` follows, because the parser would have read the
/// definition of a function there. Where the statements begin with such a
/// run, their text goes on as such a definition does after `fun`.
pub proof fn parsed_statements(s: Seq<char>, bound: nat)
    requires
        s.len() < bound,
    ensures
        well_formed_statements(
            sequence_of(grammar::statement_item(bound), grammar::whitespace_separator(), s).1,
        ),
        arrow_run(
            sequence_of(grammar::statement_item(bound), grammar::whitespace_separator(), s).1,
        ) ==> definition_follows(s),
    decreases s.len(), 9int,
{
    let item = grammar::statement_item(bound);
    let separator = grammar::whitespace_separator();
    let (rest, stmts) = sequence_of(item, separator, s);
    if item(s) is Ok {
        let (after, first) = item(s)->Ok_0;
        assert(grammar::statement(s) == item(s));
        statement_progress(s);
        skipping_spaces_first(after);
        let next = separator(after);
        assert(next == skip_whitespace(after));
        let (end, others) = sequence_of(item, separator, next);
        assert(stmts == seq![first] + others);
        assert(stmts[0] == first);
        assert(stmts.drop_first() =~= others);
        parsed_statement(s);
        parsed_statements(next, bound);
        if arrow_run(stmts) {
            match first {
                StmtModel::FuncDef { .. } => {
                    assert(grammar::binding_def(s) is Err);
                    names_through_definition(s);
                },
                StmtModel::Expression(expr) => {
                    assert(grammar::binding_def(s) is Err);
                    assert(grammar::func_def(s) is Err);
                    names_through_expression(s);
                },
                StmtModel::BindingDef { .. } => {},
            }
        }
    }
}

} // verus!
