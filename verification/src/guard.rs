use crate::decimal::{decimal, lemma_decimal_round_trip};
use crate::expr::Operations;
use crate::grammar;
use crate::model::{ExprModel, StmtModel};
use crate::round_trip::{
    arrow_run, begins_with_keyword, block_rest_begins, closed, exposed,
    expression_is_no_definition, expression_text_begins, guarded, head_name, names_only,
    separated, well_formed_arguments, well_formed_expression, well_formed_operand,
    well_formed_statement, well_formed_statements, what_follows,
};
use crate::texts::{
    found_identifier, identifier_is_found, is_identifier, leading_of_concat, nothing_leads,
    skipping_spaces_first, tag_needs_its_first_character, tag_of_concat,
};
use crate::unparse::{
    arguments_text, expression_text, operator_text, parameters_text, statement_text,
    statements_text,
};
use crate::utils::{
    after_tag, ident_of, sequence_of, skip_whitespace, whitespace_of, CharClass,
};
use vstd::prelude::*;

verus! {

/// The names that stand at the front of `s`, each followed by optional
/// whitespace, and what is left after them: what the parser of a function
/// definition reads as the parameters.
pub open spec fn names_at(s: Seq<char>) -> (Seq<char>, Seq<Seq<char>>) {
    sequence_of(grammar::parameter_item(), grammar::whitespace_separator(), s)
}

/// Whether no `=>` stands after the names at the front of `s`.
pub open spec fn no_arrow(s: Seq<char>) -> bool {
    after_tag("=>"@, names_at(s).0) is Err
}

/// Whether `s`, after its leading whitespace, begins with something else than
/// `=`.
pub open spec fn no_equals(s: Seq<char>) -> bool {
    skip_whitespace(s).len() > 0 ==> skip_whitespace(s)[0] != '='
}

/// After a name at the front of a text, the names that follow it are read.
pub proof fn names_after_name(s: Seq<char>)
    requires
        ident_of(s) is Ok,
    ensures
        names_at(s).0 == names_at(skip_whitespace(ident_of(s)->Ok_0.0)).0,
        names_at(s).1.len() > 0,
{
    found_identifier(s);
    let rest = ident_of(s)->Ok_0.0;
    skipping_spaces_first(rest);
    let item = grammar::parameter_item();
    let separator = grammar::whitespace_separator();
    assert(item(s) == ident_of(s));
    assert(separator(rest) == skip_whitespace(rest));
    let tail = sequence_of(item, separator, skip_whitespace(rest));
    assert(names_at(s) == (tail.0, seq![ident_of(s)->Ok_0.1] + tail.1));
}

/// A text that begins with no letter holds no names, and no `=>` unless it
/// begins with `=`.
pub proof fn no_names(s: Seq<char>)
    requires
        s.len() > 0 ==> !CharClass::Alphabetic.contains(s[0]),
    ensures
        names_at(s) == (s, Seq::<Seq<char>>::empty()),
        s.len() == 0 || s[0] != '=' ==> no_arrow(s),
        s.len() > 1 && s[1] != '>' ==> no_arrow(s),
{
    reveal_strlit("=>");
    let item = grammar::parameter_item();
    assert(item(s) is Err);
    if "=>"@.is_prefix_of(s) {
        assert(s.subrange(0, 2)[0] == '=');
        assert(s.subrange(0, 2)[1] == '>');
    }
}

/// What follows the left operand in the text of an operation that is followed
/// by `t`.
pub open spec fn operation_tail(op: Operations, rhs: ExprModel, t: Seq<char>) -> Seq<char> {
    " "@ + (operator_text(op) + (" "@ + (expression_text(rhs) + t)))
}

/// What follows the left operand of an operation begins with a space and, after
/// it, with the operator.
pub proof fn operation_tail_begins(op: Operations, rhs: ExprModel, t: Seq<char>)
    ensures
        separated(operation_tail(op, rhs, t)),
        no_equals(operation_tail(op, rhs, t)),
        no_arrow(skip_whitespace(operation_tail(op, rhs, t))),
        ident_of(skip_whitespace(operation_tail(op, rhs, t))) is Err,
{
    reveal_strlit(" ");
    reveal_strlit("+");
    reveal_strlit("-");
    reveal_strlit("*");
    reveal_strlit("/");
    let from_op = operator_text(op) + (" "@ + (expression_text(rhs) + t));
    assert(from_op[0] == operator_text(op)[0]);
    leading_of_concat(" "@, from_op, CharClass::Whitespace);
    no_names(from_op);
}

/// The names at the front of the text of a well-formed expression: where the
/// expression is made of names alone, they go on into what follows it; where
/// it is not, they end inside it, and not before `=>`.
pub proof fn names_of_expression(expr: ExprModel, z: Seq<char>)
    requires
        well_formed_expression(expr),
        separated(z),
    ensures
        names_only(expr) ==> names_at(expression_text(expr) + z).0 == names_at(
            skip_whitespace(z),
        ).0,
        !names_only(expr) ==> no_arrow(expression_text(expr) + z),
    decreases expr,
{
    reveal_strlit(" ");
    let s = expression_text(expr) + z;
    expression_text_begins(expr);
    assert(s[0] == expression_text(expr)[0]);
    match expr {
        ExprModel::Number(n) => {
            lemma_decimal_round_trip(n as nat);
            assert(CharClass::Digit.contains(decimal(n as nat)[0]));
            no_names(s);
        },
        ExprModel::Block { .. } => {
            reveal_strlit("{");
            assert(s[0] == '{');
            no_names(s);
        },
        ExprModel::BindingUsage { name } => {
            identifier_is_found(name, z);
            names_after_name(s);
        },
        ExprModel::FuncCall { callee, params } => {
            let first = params[0];
            let others = params.drop_first();
            let after = arguments_text(others) + z;
            let from_first = expression_text(first) + after;
            assert(arguments_text(params) == " "@ + expression_text(first) + arguments_text(
                others,
            ));
            assert(s =~= callee + (" "@ + from_first));
            identifier_is_found(callee, " "@ + from_first);
            names_after_name(s);
            expression_text_begins(first);
            assert(from_first[0] == expression_text(first)[0]);
            leading_of_concat(" "@, from_first, CharClass::Whitespace);
            assert(separated(after)) by {
                if others.len() > 0 {
                    assert(arguments_text(others)[0] == ' ');
                } else {
                    assert(after =~= z);
                }
            }
            names_of_expression(first, after);
            if others.len() == 0 {
                assert(after =~= z);
            }
        },
        ExprModel::Operation { lhs, rhs, op } => {
            let tail = operation_tail(op, *rhs, z);
            assert(s =~= expression_text(*lhs) + tail);
            operation_tail_begins(op, *rhs, z);
            names_of_expression(*lhs, tail);
        },
    }
}

/// The name at the front of the text of a well-formed expression is followed
/// by something else than `=`, as long as the expression is.
pub proof fn name_of_expression(expr: ExprModel, z: Seq<char>)
    requires
        well_formed_expression(expr),
        separated(z),
        no_equals(z),
    ensures
        ident_of(expression_text(expr) + z) matches Ok((rest, _)) ==> no_equals(rest),
{
    reveal_strlit(" ");
    let s = expression_text(expr) + z;
    expression_text_begins(expr);
    assert(s[0] == expression_text(expr)[0]);
    match expr {
        ExprModel::Operation { lhs, rhs, op } => {
            let tail = operation_tail(op, *rhs, z);
            assert(s =~= expression_text(*lhs) + tail);
            operation_tail_begins(op, *rhs, z);
            name_of_operand(*lhs, tail);
        },
        _ => {
            name_of_operand(expr, z);
        },
    }
}

/// The name at the front of the text of a well-formed operand is followed by
/// something else than `=`, as long as the operand is.
pub proof fn name_of_operand(expr: ExprModel, z: Seq<char>)
    requires
        well_formed_operand(expr),
        separated(z),
        no_equals(z),
    ensures
        ident_of(expression_text(expr) + z) matches Ok((rest, _)) ==> no_equals(rest),
{
    reveal_strlit(" ");
    let s = expression_text(expr) + z;
    match expr {
        ExprModel::Number(n) => {
            lemma_decimal_round_trip(n as nat);
            assert(CharClass::Digit.contains(decimal(n as nat)[0]));
            assert(s[0] == decimal(n as nat)[0]);
        },
        ExprModel::Block { .. } => {
            reveal_strlit("{");
            assert(s[0] == '{');
        },
        ExprModel::BindingUsage { name } => {
            identifier_is_found(name, z);
        },
        ExprModel::FuncCall { callee, params } => {
            let first = params[0];
            let from_first = expression_text(first) + (arguments_text(params.drop_first()) + z);
            assert(arguments_text(params) == " "@ + expression_text(first) + arguments_text(
                params.drop_first(),
            ));
            assert(s =~= callee + (" "@ + from_first));
            identifier_is_found(callee, " "@ + from_first);
            expression_text_begins(first);
            assert(from_first[0] == expression_text(first)[0]);
            leading_of_concat(" "@, from_first, CharClass::Whitespace);
        },
        ExprModel::Operation { .. } => {},
    }
}

/// The names at the front of the statements of a block end before the brace
/// that ends it, and not before `=>`, unless the statements begin with a run
/// of names that `=>` follows.
pub proof fn names_of_statements(stmts: Seq<StmtModel>, t: Seq<char>)
    requires
        well_formed_statements(stmts),
        !arrow_run(stmts),
    ensures
        no_arrow(statements_text(stmts) + "}"@ + t),
    decreases stmts,
{
    reveal_strlit("}");
    reveal_strlit("\n");
    reveal_strlit("let ");
    reveal_strlit("let");
    reveal_strlit(" = ");
    reveal_strlit(" ");
    let s = statements_text(stmts) + "}"@ + t;
    if stmts.len() == 0 {
        assert(s[0] == '}');
        no_names(s);
    } else {
        let others = stmts.drop_first();
        let next = statements_text(others) + "}"@ + t;
        let after = "\n"@ + next;
        assert(well_formed_statement(stmts[0]) && well_formed_statements(others));
        assert(s =~= statement_text(stmts[0]) + after);
        block_rest_begins(others, t);
        leading_of_concat("\n"@, next, CharClass::Whitespace);
        match stmts[0] {
            StmtModel::BindingDef { name, value } => {
                let from_equals = "= "@ + (expression_text(value) + after);
                let after_name = " "@ + from_equals;
                let from_name = name + after_name;
                assert(s =~= "let"@ + (" "@ + from_name)) by {
                    reveal_strlit("= ");
                }
                assert(is_identifier("let"@));
                identifier_is_found("let"@, " "@ + from_name);
                names_after_name(s);
                assert(from_name[0] == name[0]);
                leading_of_concat(" "@, from_name, CharClass::Whitespace);
                identifier_is_found(name, after_name);
                names_after_name(from_name);
                assert(from_equals[0] == '=' && from_equals[1] == ' ') by {
                    reveal_strlit("= ");
                }
                leading_of_concat(" "@, from_equals, CharClass::Whitespace);
                no_names(from_equals);
            },
            StmtModel::FuncDef { .. } => {},
            StmtModel::Expression(expr) => {
                names_of_expression(expr, after);
                if names_only(expr) {
                    names_of_statements(others, t);
                }
            },
        }
    }
}

/// The name at the front of the statements of a block, if there is one, is
/// followed by something else than `=`.
pub proof fn name_of_statements(stmts: Seq<StmtModel>, t: Seq<char>)
    requires
        well_formed_statements(stmts),
    ensures
        ident_of(statements_text(stmts) + "}"@ + t) matches Ok((rest, _)) ==> no_equals(rest),
{
    reveal_strlit("}");
    reveal_strlit("\n");
    reveal_strlit("let ");
    reveal_strlit("let");
    reveal_strlit("fun ");
    reveal_strlit("fun");
    reveal_strlit(" ");
    let s = statements_text(stmts) + "}"@ + t;
    if stmts.len() == 0 {
        assert(s[0] == '}');
    } else {
        let others = stmts.drop_first();
        let next = statements_text(others) + "}"@ + t;
        let after = "\n"@ + next;
        assert(well_formed_statement(stmts[0]) && well_formed_statements(others));
        assert(s =~= statement_text(stmts[0]) + after);
        block_rest_begins(others, t);
        leading_of_concat("\n"@, next, CharClass::Whitespace);
        match stmts[0] {
            StmtModel::BindingDef { name, value } => {
                let from_name = name + (" = "@ + expression_text(value) + after);
                assert(s =~= "let"@ + (" "@ + from_name));
                assert(is_identifier("let"@));
                identifier_is_found("let"@, " "@ + from_name);
                assert(from_name[0] == name[0]);
                leading_of_concat(" "@, from_name, CharClass::Whitespace);
            },
            StmtModel::FuncDef { name, params, body } => {
                let from_name = name + (parameters_text(params) + " => "@
                    + statement_text(*body) + after);
                assert(s =~= "fun"@ + (" "@ + from_name));
                assert(is_identifier("fun"@));
                identifier_is_found("fun"@, " "@ + from_name);
                assert(from_name[0] == name[0]);
                leading_of_concat(" "@, from_name, CharClass::Whitespace);
            },
            StmtModel::Expression(expr) => {
                name_of_expression(expr, after);
            },
        }
    }
}

/// What follows a statement in canonical text holds, after its whitespace, the
/// statements that follow, and begins with something else than `=`.
pub proof fn following_text(inside: bool, rest: Seq<StmtModel>, t: Seq<char>)
    requires
        well_formed_statements(rest),
    ensures
        separated(what_follows(inside, rest, t)),
        no_equals(what_follows(inside, rest, t)),
        skip_whitespace(what_follows(inside, rest, t)) == if inside {
            statements_text(rest) + "}"@ + t
        } else {
            Seq::empty()
        },
{
    reveal_strlit("\n");
    if inside {
        let next = statements_text(rest) + "}"@ + t;
        block_rest_begins(rest, t);
        leading_of_concat("\n"@, next, CharClass::Whitespace);
    } else {
        nothing_leads(Seq::<char>::empty(), CharClass::Whitespace);
    }
}

/// The part of the text of `expr` that follows the name it begins with, where
/// `t` follows the expression.
pub open spec fn after_head(expr: ExprModel, t: Seq<char>) -> Seq<char> {
    match expr {
        ExprModel::FuncCall { params, .. } => arguments_text(params) + t,
        ExprModel::Operation { lhs, rhs, op } => match *lhs {
            ExprModel::FuncCall { params, .. } => arguments_text(params) + operation_tail(
                op,
                *rhs,
                t,
            ),
            _ => operation_tail(op, *rhs, t),
        },
        _ => t,
    }
}

/// The text of an expression that begins with a name is the name and what
/// follows it.
pub proof fn head_splits(expr: ExprModel, t: Seq<char>)
    requires
        well_formed_expression(expr),
        head_name(expr) is Some,
        separated(t),
    ensures
        is_identifier(head_name(expr)->0),
        expression_text(expr) + t == head_name(expr)->0 + after_head(expr, t),
        separated(after_head(expr, t)),
{
    reveal_strlit(" ");
    let name = head_name(expr)->0;
    let rest = after_head(expr, t);
    assert(expression_text(expr) + t =~= name + rest) by {
        match expr {
            ExprModel::Operation { lhs, rhs, op } => {
                match *lhs {
                    ExprModel::FuncCall { callee, params } => {
                        assert(expression_text(*lhs) == callee + arguments_text(params));
                    },
                    ExprModel::BindingUsage { name } => {
                        assert(expression_text(*lhs) == name);
                    },
                    _ => {},
                }
                assert(expression_text(expr) == expression_text(*lhs) + " "@ + operator_text(op)
                    + " "@ + expression_text(*rhs));
            },
            _ => {},
        }
    }
    match expr {
        ExprModel::FuncCall { params, .. } => {
            assert(arguments_text(params)[0] == ' ');
        },
        ExprModel::Operation { lhs, .. } => match *lhs {
            ExprModel::FuncCall { params, .. } => {
                assert(arguments_text(params)[0] == ' ');
            },
            _ => {},
        },
        _ => {},
    }
}

/// The arguments of the call that `expr` begins with, if it begins with one.
pub open spec fn head_arguments(expr: ExprModel) -> Option<Seq<ExprModel>> {
    match expr {
        ExprModel::FuncCall { params, .. } => Some(params),
        ExprModel::Operation { lhs, .. } => match *lhs {
            ExprModel::FuncCall { params, .. } => Some(params),
            _ => None,
        },
        _ => None,
    }
}

/// What follows the name or the call that `expr` begins with, where `t`
/// follows the expression.
pub open spec fn after_head_call(expr: ExprModel, t: Seq<char>) -> Seq<char> {
    match expr {
        ExprModel::Operation { rhs, op, .. } => operation_tail(op, *rhs, t),
        _ => t,
    }
}

/// Where an expression begins with a call, what follows the name of the call
/// is, after a space, the first argument and what follows that.
pub proof fn head_call_splits(expr: ExprModel, t: Seq<char>)
    requires
        well_formed_expression(expr),
        head_arguments(expr) is Some,
        separated(t),
    ensures
        ({
            let args = head_arguments(expr)->0;
            let after_first = arguments_text(args.drop_first()) + after_head_call(expr, t);
            let from_first = expression_text(args[0]) + after_first;
            &&& args.len() > 0
            &&& well_formed_expression(args[0])
            &&& args.len() > 1 ==> closed(args[0])
            &&& after_head(expr, t) == " "@ + from_first
            &&& skip_whitespace(after_head(expr, t)) == from_first
            &&& whitespace_of(after_head(expr, t)) is Ok
            &&& separated(after_first)
            &&& args.len() > 1 ==> no_equals(after_first)
            &&& args.len() == 1 ==> after_first == after_head_call(expr, t)
        }),
{
    reveal_strlit(" ");
    let args = head_arguments(expr)->0;
    assert(well_formed_arguments(args) && args.len() > 0) by {
        match expr {
            ExprModel::Operation { lhs, .. } => {
                assert(well_formed_operand(*lhs));
            },
            _ => {},
        }
    }
    let others = args.drop_first();
    let outer = after_head_call(expr, t);
    let after_first = arguments_text(others) + outer;
    let from_first = expression_text(args[0]) + after_first;
    assert(arguments_text(args) == " "@ + expression_text(args[0]) + arguments_text(others));
    assert(after_head(expr, t) =~= " "@ + from_first);
    expression_text_begins(args[0]);
    assert(from_first[0] == expression_text(args[0])[0]);
    leading_of_concat(" "@, from_first, CharClass::Whitespace);
    match expr {
        ExprModel::Operation { rhs, op, .. } => {
            operation_tail_begins(op, *rhs, t);
        },
        _ => {},
    }
    if others.len() > 0 {
        let second = others[0];
        let from_second = expression_text(second) + (arguments_text(others.drop_first()) + outer);
        assert(arguments_text(others) == " "@ + expression_text(second) + arguments_text(
            others.drop_first(),
        ));
        assert(after_first =~= " "@ + from_second);
        assert(well_formed_arguments(others));
        expression_text_begins(second);
        assert(from_second[0] == expression_text(second)[0]);
        leading_of_concat(" "@, from_second, CharClass::Whitespace);
    } else {
        assert(after_first =~= outer);
    }
}

/// The text of a well-formed expression that begins with the name `let` is not
/// the definition of a binding, whatever statements follow it.
pub proof fn let_is_no_definition(expr: ExprModel, inside: bool, rest: Seq<StmtModel>, t: Seq<char>)
    requires
        well_formed_expression(expr),
        head_name(expr) == Some("let"@),
        well_formed_statements(rest),
    ensures
        grammar::binding_def(expression_text(expr) + what_follows(inside, rest, t)) is Err,
{
    reveal_strlit("=");
    let follows = what_follows(inside, rest, t);
    following_text(inside, rest, t);
    head_splits(expr, follows);
    let s = expression_text(expr) + follows;
    let after_let = after_head(expr, follows);
    tag_of_concat("let"@, after_let);
    if whitespace_of(after_let) is Ok {
        let from_name = skip_whitespace(after_let);
        assert(whitespace_of(after_let)->Ok_0.0 == from_name);
        if head_arguments(expr) is Some {
            head_call_splits(expr, follows);
            let args = head_arguments(expr)->0;
            let after_first = arguments_text(args.drop_first()) + after_head_call(expr, follows);
            match expr {
                ExprModel::Operation { rhs, op, .. } => {
                    operation_tail_begins(op, *rhs, follows);
                },
                _ => {},
            }
            name_of_expression(args[0], after_first);
        } else {
            match expr {
                ExprModel::Operation { rhs, op, .. } => {
                    operation_tail_begins(op, *rhs, follows);
                },
                _ => {
                    if inside {
                        name_of_statements(rest, t);
                    }
                },
            }
        }
        if ident_of(from_name) is Ok {
            let after_name = ident_of(from_name)->Ok_0.0;
            tag_needs_its_first_character("="@, skip_whitespace(after_name));
        }
    }
}

/// The text of a well-formed expression that begins with the name `fun` is not
/// the definition of a function, unless the expression is made of names alone
/// and a run of names that `=>` follows comes after it.
pub proof fn fun_is_no_definition(expr: ExprModel, inside: bool, rest: Seq<StmtModel>, t: Seq<char>)
    requires
        well_formed_expression(expr),
        head_name(expr) == Some("fun"@),
        well_formed_statements(rest),
        !(names_only(expr) && inside && arrow_run(rest)),
    ensures
        grammar::func_def(expression_text(expr) + what_follows(inside, rest, t)) is Err,
{
    let follows = what_follows(inside, rest, t);
    following_text(inside, rest, t);
    head_splits(expr, follows);
    let s = expression_text(expr) + follows;
    let after_fun = after_head(expr, follows);
    tag_of_concat("fun"@, after_fun);
    if whitespace_of(after_fun) is Ok {
        let from_name = skip_whitespace(after_fun);
        assert(whitespace_of(after_fun)->Ok_0.0 == from_name);
        assert(no_arrow(from_name)) by {
            let outer = after_head_call(expr, follows);
            assert(names_only(expr) ==> no_arrow(skip_whitespace(outer))) by {
                if names_only(expr) {
                    if inside {
                        names_of_statements(rest, t);
                    } else {
                        no_names(Seq::<char>::empty());
                    }
                }
            }
            match expr {
                ExprModel::Operation { rhs, op, .. } => {
                    operation_tail_begins(op, *rhs, follows);
                },
                _ => {},
            }
            if head_arguments(expr) is Some {
                head_call_splits(expr, follows);
                let args = head_arguments(expr)->0;
                let after_first = arguments_text(args.drop_first()) + outer;
                names_of_expression(args[0], after_first);
            }
        }
        if ident_of(from_name) is Ok {
            names_after_name(from_name);
        }
    }
}

/// A well-formed statement is guarded in canonical text, unless it is exposed
/// and a run of names that `=>` follows comes after it.
pub proof fn statement_is_guarded(stmt: StmtModel, inside: bool, rest: Seq<StmtModel>, t: Seq<char>)
    requires
        well_formed_statement(stmt),
        well_formed_statements(rest),
        !(exposed(stmt) && inside && arrow_run(rest)),
    ensures
        guarded(stmt, what_follows(inside, rest, t)),
    decreases stmt,
{
    reveal_strlit("let");
    reveal_strlit("fun");
    let follows = what_follows(inside, rest, t);
    match stmt {
        StmtModel::BindingDef { .. } => {},
        StmtModel::FuncDef { body, .. } => {
            statement_is_guarded(*body, inside, rest, t);
        },
        StmtModel::Expression(expr) => {
            following_text(inside, rest, t);
            let s = expression_text(expr) + follows;
            if !begins_with_keyword(expr) {
                expression_is_no_definition(expr, follows);
            } else {
                head_splits(expr, follows);
                if head_name(expr) == Some("let"@) {
                    let_is_no_definition(expr, inside, rest, t);
                    assert(s[0] == 'l');
                    tag_needs_its_first_character("fun"@, s);
                } else {
                    fun_is_no_definition(expr, inside, rest, t);
                    assert(s[0] == 'f');
                    tag_needs_its_first_character("let"@, s);
                }
            }
        },
    }
}

} // verus!
