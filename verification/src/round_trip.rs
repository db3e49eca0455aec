use crate::decimal::{decimal, lemma_decimal_round_trip};
use crate::expr::Operations;
use crate::grammar;
use crate::guard::statement_is_guarded;
use crate::model::{ExprModel, StmtModel};
use crate::texts::{
    identifier_is_found, is_identifier, leading_of_concat, literal_is_read, nothing_leads,
    operator_needs_its_character, skipping_spaces_first, tag_needs_its_first_character,
    tag_of_concat,
};
use crate::unparse::{
    arguments_text, expression_text, operator_text, parameters_text, statement_text,
    statements_text,
};
use crate::utils::{
    after_tag, ident_of, leading, non_empty_sequence_of, sequence_of, skip_spaces,
    skip_whitespace,
    whitespace_of, CharClass,
};
use vstd::prelude::*;

verus! {

/// Whether an expression may begin with `c`: a digit, a letter or `{`.
pub open spec fn starts_expression(c: char) -> bool {
    CharClass::Digit.contains(c) || CharClass::Alphabetic.contains(c) || c == '{'
}

/// Whether `t` is empty or begins with a space or a newline.
pub open spec fn separated(t: Seq<char>) -> bool {
    t.len() == 0 || t[0] == ' ' || t[0] == '\n'
}

/// Whether no argument stands at the front of `t`: it begins with no space, or
/// no expression stands after its leading spaces.
pub open spec fn no_argument(t: Seq<char>) -> bool {
    leading(t, CharClass::Space) == 0 || grammar::expression(skip_spaces(t)) is Err
}

/// Whether no operator stands at the front of `t` after its leading
/// whitespace.
pub open spec fn no_operator(t: Seq<char>) -> bool {
    grammar::operator(skip_whitespace(t)) is Err
}

/// Whether `t` may follow a statement: it is empty, or it begins with a
/// newline and no operator stands after its leading whitespace.
pub open spec fn closes(t: Seq<char>) -> bool {
    t.len() == 0 || (t[0] == '\n' && no_operator(t))
}

/// Only a text that begins with a digit, a letter or `{` holds an expression
/// at its front, and only such a text holds a statement there.
pub proof fn expression_needs_its_first_character(s: Seq<char>)
    requires
        s.len() > 0 ==> !starts_expression(s[0]),
    ensures
        grammar::non_operation(s) is Err,
        grammar::operation(s) is Err,
        grammar::expression(s) is Err,
        grammar::statement(s) is Err,
{
    reveal_strlit("{");
    reveal_strlit("let");
    reveal_strlit("fun");
    nothing_leads(s, CharClass::Digit);
    assert(grammar::number(s) is Err);
    assert(ident_of(s) is Err);
    assert(grammar::func_call(s) is Err);
    assert(grammar::binding_usage(s) is Err);
    tag_needs_its_first_character("{"@, s);
    assert(grammar::block(s) is Err);
    assert(grammar::non_operation(s) is Err);
    assert(grammar::operation(s) is Err);
    assert(grammar::expression(s) is Err);
    tag_needs_its_first_character("let"@, s);
    assert(grammar::binding_def(s) is Err);
    tag_needs_its_first_character("fun"@, s);
    assert(grammar::func_def(s) is Err);
}

/// What may follow a statement is separated from it and holds neither an
/// argument nor an operator.
pub proof fn closing_text(t: Seq<char>)
    requires
        closes(t),
    ensures
        separated(t),
        no_argument(t),
        no_operator(t),
        skip_spaces(t) == t,
{
    nothing_leads(t, CharClass::Space);
    expression_needs_its_first_character(t);
    if t.len() == 0 {
        nothing_leads(t, CharClass::Whitespace);
        operator_needs_its_character(t);
    }
}

/// The text of an operator, followed by anything, is read as that operator.
pub proof fn operator_parses(op: Operations, rest: Seq<char>)
    ensures
        grammar::operator(operator_text(op) + rest) == Ok::<(Seq<char>, Operations), Seq<char>>(
            (rest, op),
        ),
{
    reveal_strlit("+");
    reveal_strlit("-");
    reveal_strlit("*");
    reveal_strlit("/");
    let s = operator_text(op) + rest;
    tag_of_concat(operator_text(op), rest);
    match op {
        Operations::Add => {},
        Operations::Sub => {
            tag_needs_its_first_character("+"@, s);
        },
        Operations::Mul => {
            tag_needs_its_first_character("+"@, s);
            tag_needs_its_first_character("-"@, s);
        },
        Operations::Div => {
            tag_needs_its_first_character("+"@, s);
            tag_needs_its_first_character("-"@, s);
            tag_needs_its_first_character("*"@, s);
        },
    }
}

/// Whether text that follows `expr` after a space cannot become part of it as
/// an argument: `expr` ends with a number or a block, not with a name or a
/// call.
pub open spec fn closed(expr: ExprModel) -> bool
    decreases expr,
{
    match expr {
        ExprModel::Number(_) => true,
        ExprModel::Block { .. } => true,
        ExprModel::Operation { rhs, .. } => closed(*rhs),
        _ => false,
    }
}

/// Whether an operator that follows the expression `expr` cannot become part
/// of it: `expr` is an operation, and so is what it ends with.
pub open spec fn sealed(expr: ExprModel) -> bool
    decreases expr,
{
    match expr {
        ExprModel::Operation { rhs, .. } => sealed_operand(*rhs),
        _ => false,
    }
}

/// Whether an operator that follows the operand `expr` cannot become part of
/// it: `expr` is no call, or its last argument is sealed.
pub open spec fn sealed_operand(expr: ExprModel) -> bool
    decreases expr,
{
    match expr {
        ExprModel::FuncCall { params, .. } => params.len() > 0 && sealed(params.last()),
        ExprModel::Operation { .. } => false,
        _ => true,
    }
}

/// The name that the text of `expr` begins with, if it begins with one.
pub open spec fn head_name(expr: ExprModel) -> Option<Seq<char>> {
    match expr {
        ExprModel::BindingUsage { name } => Some(name),
        ExprModel::FuncCall { callee, .. } => Some(callee),
        ExprModel::Operation { lhs, .. } => match *lhs {
            ExprModel::BindingUsage { name } => Some(name),
            ExprModel::FuncCall { callee, .. } => Some(callee),
            _ => None,
        },
        _ => None,
    }
}

/// Whether the text of `expr` begins with the name `let` or the name `fun`.
pub open spec fn begins_with_keyword(expr: ExprModel) -> bool {
    head_name(expr) == Some("let"@) || head_name(expr) == Some("fun"@)
}

/// Whether `expr` is made of names alone: the use of a binding, or a call with
/// one such argument.
pub open spec fn names_only(expr: ExprModel) -> bool
    decreases expr,
{
    match expr {
        ExprModel::BindingUsage { .. } => true,
        ExprModel::FuncCall { params, .. } => params.len() == 1 && names_only(params[0]),
        _ => false,
    }
}

/// Whether `stmt` ends with an expression that stands as a statement, begins
/// with the name `fun` and is made of names alone: what follows such a
/// statement decides whether its text is that of a function definition.
pub open spec fn exposed(stmt: StmtModel) -> bool
    decreases stmt,
{
    match stmt {
        StmtModel::Expression(expr) => head_name(expr) == Some("fun"@) && names_only(expr),
        StmtModel::FuncDef { body, .. } => exposed(*body),
        StmtModel::BindingDef { .. } => false,
    }
}

/// Whether the text of `stmts` begins with names that are followed by `=>`:
/// with statements that are made of names alone, and after them the
/// definition of a function.
pub open spec fn arrow_run(stmts: Seq<StmtModel>) -> bool
    decreases stmts,
{
    if stmts.len() == 0 {
        false
    } else {
        match stmts[0] {
            StmtModel::FuncDef { .. } => true,
            StmtModel::Expression(expr) => names_only(expr) && arrow_run(stmts.drop_first()),
            StmtModel::BindingDef { .. } => false,
        }
    }
}

/// Whether the text of the expression that `stmt` ends with, if it ends with
/// one, is not that of a definition when `t` follows it.
pub open spec fn guarded(stmt: StmtModel, t: Seq<char>) -> bool
    decreases stmt,
{
    match stmt {
        StmtModel::Expression(expr) => grammar::binding_def(expression_text(expr) + t) is Err
            && grammar::func_def(expression_text(expr) + t) is Err,
        StmtModel::FuncDef { body, .. } => guarded(*body, t),
        StmtModel::BindingDef { .. } => true,
    }
}

/// What follows a statement in canonical text: nothing where it is the whole
/// text (`inside` is false), and else a newline, the statements `rest` that
/// follow it in its block, the brace that ends the block, and `t`.
pub open spec fn what_follows(inside: bool, rest: Seq<StmtModel>, t: Seq<char>) -> Seq<char> {
    if inside {
        "\n"@ + (statements_text(rest) + "}"@ + t)
    } else {
        Seq::empty()
    }
}

/// Whether `expr` is an operand that the parser can give: a number that is not
/// negative, a name, a block of such statements, or a call with arguments of
/// which only the last ends with a name or a call.
pub open spec fn well_formed_operand(expr: ExprModel) -> bool
    decreases expr, 0int,
{
    match expr {
        ExprModel::Number(n) => n >= 0,
        ExprModel::BindingUsage { name } => is_identifier(name),
        ExprModel::Block { stmts } => well_formed_statements(stmts),
        ExprModel::FuncCall { callee, params } => is_identifier(callee) && params.len() > 0
            && well_formed_arguments(params),
        ExprModel::Operation { .. } => false,
    }
}

/// Whether `expr` is an expression that the parser can give: such an operand,
/// or an operation on two such operands of which the left one is sealed.
pub open spec fn well_formed_expression(expr: ExprModel) -> bool
    decreases expr, 1int,
{
    match expr {
        ExprModel::Operation { lhs, rhs, .. } => well_formed_operand(*lhs) && sealed_operand(*lhs)
            && well_formed_operand(*rhs),
        _ => well_formed_operand(expr),
    }
}

/// Whether `params` are arguments that the parser can give: such expressions,
/// all but the last of them closed.
pub open spec fn well_formed_arguments(params: Seq<ExprModel>) -> bool
    decreases params, 2int,
{
    if params.len() == 0 {
        true
    } else {
        well_formed_expression(params[0]) && (params.len() > 1 ==> closed(params[0]))
            && well_formed_arguments(params.drop_first())
    }
}

/// Whether `stmts` are statements that the parser can give: each is well
/// formed, and none is exposed before a run of names that `=>` follows.
pub open spec fn well_formed_statements(stmts: Seq<StmtModel>) -> bool
    decreases stmts, 2int,
{
    if stmts.len() == 0 {
        true
    } else {
        well_formed_statement(stmts[0]) && !(exposed(stmts[0]) && arrow_run(stmts.drop_first()))
            && well_formed_statements(stmts.drop_first())
    }
}

/// Whether each of `params` is an identifier.
pub open spec fn all_identifiers(params: Seq<Seq<char>>) -> bool {
    forall|i: int| 0 <= i < params.len() ==> is_identifier(#[trigger] params[i])
}

/// Whether `stmt` is a statement that the parser can give: a definition with
/// identifiers for its names and such an expression or statement inside, or
/// such an expression.
pub open spec fn well_formed_statement(stmt: StmtModel) -> bool
    decreases stmt, 2int,
{
    match stmt {
        StmtModel::BindingDef { name, value } => is_identifier(name) && well_formed_expression(
            value,
        ),
        StmtModel::FuncDef { name, params, body } => is_identifier(name) && all_identifiers(params)
            && well_formed_statement(*body),
        StmtModel::Expression(expr) => well_formed_expression(expr),
    }
}

/// The text of a well-formed operand begins with a digit, a letter or `{`.
pub proof fn operand_text_begins(expr: ExprModel)
    requires
        well_formed_operand(expr),
    ensures
        expression_text(expr).len() > 0,
        starts_expression(expression_text(expr)[0]),
{
    reveal_strlit("{");
    match expr {
        ExprModel::Number(n) => {
            lemma_decimal_round_trip(n as nat);
            assert(CharClass::Digit.contains(decimal(n as nat)[0]));
        },
        ExprModel::BindingUsage { name } => {},
        ExprModel::Block { stmts } => {
            assert(expression_text(expr)[0] == '{');
        },
        ExprModel::FuncCall { callee, params } => {
            assert(expression_text(expr)[0] == callee[0]);
        },
        ExprModel::Operation { .. } => {},
    }
}

/// The text of a well-formed expression begins with a digit, a letter or `{`.
pub proof fn expression_text_begins(expr: ExprModel)
    requires
        well_formed_expression(expr),
    ensures
        expression_text(expr).len() > 0,
        starts_expression(expression_text(expr)[0]),
{
    match expr {
        ExprModel::Operation { lhs, rhs, op } => {
            operand_text_begins(*lhs);
            assert(expression_text(expr)[0] == expression_text(*lhs)[0]);
        },
        _ => {
            operand_text_begins(expr);
        },
    }
}

/// The text of a well-formed statement begins with a digit, a letter or `{`.
pub proof fn statement_text_begins(stmt: StmtModel)
    requires
        well_formed_statement(stmt),
    ensures
        statement_text(stmt).len() > 0,
        starts_expression(statement_text(stmt)[0]),
{
    reveal_strlit("let ");
    reveal_strlit("fun ");
    match stmt {
        StmtModel::BindingDef { name, value } => {
            assert(statement_text(stmt)[0] == 'l');
        },
        StmtModel::FuncDef { name, params, body } => {
            assert(statement_text(stmt)[0] == 'f');
        },
        StmtModel::Expression(expr) => {
            expression_text_begins(expr);
        },
    }
}

/// A name other than the keyword `keyword`, followed by something that is
/// neither a letter nor a digit, is not the keyword followed by whitespace.
pub proof fn keyword_needs_whitespace(keyword: Seq<char>, name: Seq<char>, rest: Seq<char>)
    requires
        keyword.len() == 3,
        forall|i: int| 0 <= i < 3 ==> CharClass::Alphabetic.contains(#[trigger] keyword[i]),
        is_identifier(name),
        name != keyword,
        separated(rest),
    ensures
        after_tag(keyword, name + rest) matches Ok(after) ==> whitespace_of(after) is Err,
{
    let s = name + rest;
    if keyword.is_prefix_of(s) {
        let prefix = s.subrange(0, 3);
        assert(prefix =~= keyword);
        if name.len() < 3 {
            assert(prefix[name.len() as int] == rest[0]);
            assert(CharClass::Alphabetic.contains(keyword[name.len() as int]));
        } else if name.len() == 3 {
            assert forall|i: int| 0 <= i < 3 implies name[i] == keyword[i] by {
                assert(prefix[i] == name[i]);
            }
            assert(name =~= keyword);
        } else {
            let after = s.skip(3);
            assert(after[0] == name[3]);
            assert(CharClass::Alphanumeric.contains(name[3]));
            nothing_leads(after, CharClass::Whitespace);
        }
    }
}

/// The text of a well-formed expression that does not begin with the name
/// `let` or `fun` is no definition.
pub proof fn expression_is_no_definition(expr: ExprModel, t: Seq<char>)
    requires
        well_formed_expression(expr),
        !begins_with_keyword(expr),
        separated(t),
    ensures
        grammar::binding_def(expression_text(expr) + t) is Err,
        grammar::func_def(expression_text(expr) + t) is Err,
{
    reveal_strlit("let");
    reveal_strlit("fun");
    reveal_strlit(" ");
    let s = expression_text(expr) + t;
    expression_text_begins(expr);
    assert(s[0] == expression_text(expr)[0]);
    match head_name(expr) {
        Some(name) => {
            let rest: Seq<char> = match expr {
                ExprModel::BindingUsage { .. } => t,
                ExprModel::FuncCall { params, .. } => arguments_text(params) + t,
                ExprModel::Operation { lhs, rhs, op } => match *lhs {
                    ExprModel::FuncCall { params, .. } => arguments_text(params) + " "@
                        + operator_text(op) + " "@ + expression_text(*rhs) + t,
                    _ => " "@ + operator_text(op) + " "@ + expression_text(*rhs) + t,
                },
                _ => t,
            };
            assert(s =~= name + rest) by {
                match expr {
                    ExprModel::Operation { lhs, rhs, op } => {
                        match *lhs {
                            ExprModel::FuncCall { callee, params } => {
                                assert(expression_text(*lhs) == callee + arguments_text(params));
                            },
                            ExprModel::BindingUsage { name } => {
                                assert(expression_text(*lhs) == name);
                            },
                            _ => {},
                        }
                        assert(expression_text(expr) == expression_text(*lhs) + " "@
                            + operator_text(op) + " "@ + expression_text(*rhs));
                    },
                    _ => {},
                }
            }
            assert(separated(rest)) by {
                match expr {
                    ExprModel::FuncCall { params, .. } => {
                        assert(arguments_text(params)[0] == ' ');
                    },
                    ExprModel::Operation { lhs, .. } => match *lhs {
                        ExprModel::FuncCall { params, .. } => {
                            assert(arguments_text(params)[0] == ' ');
                        },
                        _ => {},
                    },
                    _ => {},
                }
            }
            assert(is_identifier(name));
            keyword_needs_whitespace("let"@, name, rest);
            keyword_needs_whitespace("fun"@, name, rest);
        },
        None => {
            assert(!CharClass::Alphabetic.contains(s[0])) by {
                match expr {
                    ExprModel::Number(n) => {
                        lemma_decimal_round_trip(n as nat);
                        assert(CharClass::Digit.contains(decimal(n as nat)[0]));
                    },
                    ExprModel::Block { .. } => {
                        reveal_strlit("{");
                    },
                    ExprModel::Operation { lhs, .. } => {
                        operand_text_begins(*lhs);
                        assert(s[0] == expression_text(*lhs)[0]);
                        match *lhs {
                            ExprModel::Number(n) => {
                                lemma_decimal_round_trip(n as nat);
                                assert(CharClass::Digit.contains(decimal(n as nat)[0]));
                            },
                            ExprModel::Block { .. } => {
                                reveal_strlit("{");
                            },
                            _ => {},
                        }
                    },
                    _ => {},
                }
            }
            tag_needs_its_first_character("let"@, s);
            tag_needs_its_first_character("fun"@, s);
        },
    }
}

/// The statements of a block, with the brace that ends it, begin with a
/// digit, a letter, `{` or `}`.
pub proof fn block_rest_begins(stmts: Seq<StmtModel>, t: Seq<char>)
    requires
        well_formed_statements(stmts),
    ensures
        ({
            let rest = statements_text(stmts) + "}"@ + t;
            rest.len() > 0 && (starts_expression(rest[0]) || rest[0] == '}')
        }),
{
    reveal_strlit("}");
    let rest = statements_text(stmts) + "}"@ + t;
    if stmts.len() > 0 {
        statement_text_begins(stmts[0]);
        assert(rest[0] == statement_text(stmts[0])[0]);
    } else {
        assert(rest[0] == '}');
    }
}

/// The names of parameters, each after a space, followed by a space and by
/// something that begins with neither a letter nor whitespace, are read as
/// those parameters.
pub proof fn parameters_parse(params: Seq<Seq<char>>, rest: Seq<char>)
    requires
        all_identifiers(params),
        rest.len() > 0,
        !CharClass::Alphabetic.contains(rest[0]),
        !CharClass::Whitespace.contains(rest[0]),
    ensures
        sequence_of(
            grammar::parameter_item(),
            grammar::whitespace_separator(),
            skip_whitespace(parameters_text(params) + " "@ + rest),
        ) == (rest, params),
    decreases params.len(),
{
    reveal_strlit(" ");
    let item = grammar::parameter_item();
    let separator = grammar::whitespace_separator();
    if params.len() == 0 {
        assert(parameters_text(params) + " "@ + rest =~= " "@ + rest);
        leading_of_concat(" "@, rest, CharClass::Whitespace);
        assert(ident_of(rest) is Err);
        assert(item(rest) is Err);
        assert(params =~= Seq::<Seq<char>>::empty());
    } else {
        let first = params[0];
        let others = params.drop_first();
        let after = parameters_text(others) + " "@ + rest;
        let s = first + after;
        assert(all_identifiers(others)) by {
            assert forall|i: int| 0 <= i < others.len() implies is_identifier(
                #[trigger] others[i],
            ) by {
                assert(others[i] == params[i + 1]);
            }
        }
        assert(is_identifier(first));
        assert(parameters_text(params) + " "@ + rest =~= " "@ + s);
        assert(s[0] == first[0]);
        leading_of_concat(" "@, s, CharClass::Whitespace);
        assert(after[0] == ' ') by {
            if others.len() > 0 {
                assert(parameters_text(others)[0] == ' ');
            }
        }
        identifier_is_found(first, after);
        assert(item(s) == Ok::<(Seq<char>, Seq<char>), Seq<char>>((after, first)));
        parameters_parse(others, rest);
        skipping_spaces_first(after);
        assert(separator(after) == skip_whitespace(after));
        assert(seq![first] + others =~= params);
    }
}

/// The digits of a number that is not negative, followed by something that
/// is no digit, are read as that number.
pub proof fn number_parses(n: i32, t: Seq<char>)
    requires
        n >= 0,
        separated(t),
    ensures
        grammar::non_operation(expression_text(ExprModel::Number(n)) + t) == Ok::<
            (Seq<char>, ExprModel),
            Seq<char>,
        >((t, ExprModel::Number(n))),
{
    lemma_decimal_round_trip(n as nat);
    literal_is_read(decimal(n as nat), t);
}

/// A name, followed by something that holds no argument, is read as the use of
/// a binding.
pub proof fn usage_parses(name: Seq<char>, t: Seq<char>)
    requires
        is_identifier(name),
        separated(t),
        no_argument(t),
    ensures
        grammar::non_operation(name + t) == Ok::<(Seq<char>, ExprModel), Seq<char>>(
            (t, ExprModel::BindingUsage { name }),
        ),
{
    let s = name + t;
    assert(s[0] == name[0]);
    nothing_leads(s, CharClass::Digit);
    assert(grammar::number(s) is Err);
    identifier_is_found(name, t);
    let item = grammar::argument_item(s.len());
    assert(item(t) is Err);
    assert(sequence_of(item, grammar::no_separator(), t).1.len() == 0);
    assert(grammar::func_call(s) is Err);
    assert(grammar::binding_usage(s) == Ok::<(Seq<char>, ExprModel), Seq<char>>(
        (t, ExprModel::BindingUsage { name }),
    ));
}

/// Where the statements are read from the text of a block, the text is read
/// as the block.
pub proof fn block_parses(stmts: Seq<StmtModel>, t: Seq<char>)
    requires
        well_formed_statements(stmts),
        sequence_of(
            grammar::statement_item((expression_text(ExprModel::Block { stmts }) + t).len()),
            grammar::whitespace_separator(),
            statements_text(stmts) + "}"@ + t,
        ) == ("}"@ + t, stmts),
    ensures
        grammar::non_operation(expression_text(ExprModel::Block { stmts }) + t) == Ok::<
            (Seq<char>, ExprModel),
            Seq<char>,
        >((t, ExprModel::Block { stmts })),
{
    reveal_strlit("{");
    reveal_strlit("}");
    let expr = ExprModel::Block { stmts };
    let s = expression_text(expr) + t;
    assert(s[0] == '{');
    nothing_leads(s, CharClass::Digit);
    assert(grammar::number(s) is Err);
    assert(ident_of(s) is Err);
    assert(grammar::func_call(s) is Err);
    assert(grammar::binding_usage(s) is Err);
    let inside = statements_text(stmts) + "}"@ + t;
    assert(s =~= "{"@ + inside);
    tag_of_concat("{"@, inside);
    block_rest_begins(stmts, t);
    nothing_leads(inside, CharClass::Whitespace);
    let end = "}"@ + t;
    assert(end[0] == '}');
    nothing_leads(end, CharClass::Whitespace);
    tag_of_concat("}"@, t);
    assert(grammar::block(s) == Ok::<(Seq<char>, ExprModel), Seq<char>>((t, expr)));
}

/// Where the arguments are read from the text of a call, the text is read as
/// the call.
pub proof fn call_parses(callee: Seq<char>, params: Seq<ExprModel>, t: Seq<char>)
    requires
        is_identifier(callee),
        params.len() > 0,
        sequence_of(
            grammar::argument_item(
                (expression_text(ExprModel::FuncCall { callee, params }) + t).len(),
            ),
            grammar::no_separator(),
            arguments_text(params) + t,
        ) == (t, params),
    ensures
        grammar::non_operation(expression_text(ExprModel::FuncCall { callee, params }) + t)
            == Ok::<(Seq<char>, ExprModel), Seq<char>>(
            (t, ExprModel::FuncCall { callee, params }),
        ),
{
    reveal_strlit(" ");
    let expr = ExprModel::FuncCall { callee, params };
    let s = expression_text(expr) + t;
    assert(s[0] == callee[0]);
    nothing_leads(s, CharClass::Digit);
    assert(grammar::number(s) is Err);
    let after_callee = arguments_text(params) + t;
    assert(arguments_text(params)[0] == ' ');
    assert(s =~= callee + after_callee);
    identifier_is_found(callee, after_callee);
    assert(non_empty_sequence_of(
        grammar::argument_item(s.len()),
        grammar::no_separator(),
        after_callee,
    ) == Ok::<(Seq<char>, Seq<ExprModel>), Seq<char>>((t, params)));
    assert(grammar::func_call(s) == Ok::<(Seq<char>, ExprModel), Seq<char>>((t, expr)));
}

/// The text of a well-formed operand, followed by `t`, is read as that operand
/// and leaves `t`. `t` must not let the operand go on: it begins with no
/// letter or digit, holds no argument unless the operand is closed, and holds
/// no operator unless the operand is sealed.
pub proof fn operand_parses(expr: ExprModel, t: Seq<char>)
    requires
        well_formed_operand(expr),
        separated(t),
        closed(expr) || no_argument(t),
        sealed_operand(expr) || no_operator(t),
    ensures
        grammar::non_operation(expression_text(expr) + t) == Ok::<
            (Seq<char>, ExprModel),
            Seq<char>,
        >((t, expr)),
    decreases expr, 0int,
{
    let s = expression_text(expr) + t;
    match expr {
        ExprModel::Number(n) => {
            number_parses(n, t);
        },
        ExprModel::BindingUsage { name } => {
            usage_parses(name, t);
        },
        ExprModel::Block { stmts } => {
            assert(expression_text(expr) == "{"@ + statements_text(stmts) + "}"@);
            assert(s.len() > (statements_text(stmts) + "}"@ + t).len()) by {
                reveal_strlit("{");
            }
            statements_parse(stmts, t, s.len());
            block_parses(stmts, t);
        },
        ExprModel::FuncCall { callee, params } => {
            assert(s =~= callee + (arguments_text(params) + t));
            arguments_parse(params, t, s.len());
            call_parses(callee, params, t);
        },
        ExprModel::Operation { .. } => {},
    }
}

/// What follows the left operand of an operation lets the operand end and
/// begins, after its whitespace, with the operator.
pub proof fn operator_ends_operand(op: Operations, rest: Seq<char>)
    ensures
        ({
            let from_op = operator_text(op) + rest;
            let after_lhs = " "@ + from_op;
            &&& separated(after_lhs)
            &&& no_argument(after_lhs)
            &&& skip_spaces(after_lhs) == from_op
            &&& skip_whitespace(after_lhs) == from_op
            &&& skip_whitespace(from_op) == from_op
        }),
{
    reveal_strlit(" ");
    reveal_strlit("+");
    reveal_strlit("-");
    reveal_strlit("*");
    reveal_strlit("/");
    let from_op = operator_text(op) + rest;
    assert(from_op[0] == operator_text(op)[0]);
    leading_of_concat(" "@, from_op, CharClass::Space);
    leading_of_concat(" "@, from_op, CharClass::Whitespace);
    nothing_leads(from_op, CharClass::Whitespace);
    expression_needs_its_first_character(from_op);
}

/// Where both operands are read from the text of an operation, the text is
/// read as the operation.
pub proof fn operation_parses(
    lhs: ExprModel,
    rhs: ExprModel,
    op: Operations,
    t: Seq<char>,
    left: Seq<char>,
)
    requires
        well_formed_operand(rhs),
        grammar::non_operation(
            expression_text(lhs) + (" "@ + (operator_text(op) + (" "@ + (expression_text(rhs)
                + t)))),
        ) == Ok::<(Seq<char>, ExprModel), Seq<char>>(
            (" "@ + (operator_text(op) + (" "@ + (expression_text(rhs) + t))), lhs),
        ),
        grammar::non_operation(expression_text(rhs) + t) == Ok::<
            (Seq<char>, ExprModel),
            Seq<char>,
        >((left, rhs)),
    ensures
        grammar::operation(
            expression_text(ExprModel::Operation { lhs: Box::new(lhs), rhs: Box::new(rhs), op })
                + t,
        ) == Ok::<(Seq<char>, ExprModel), Seq<char>>(
            (left, ExprModel::Operation { lhs: Box::new(lhs), rhs: Box::new(rhs), op }),
        ),
{
    let expr = ExprModel::Operation { lhs: Box::new(lhs), rhs: Box::new(rhs), op };
    let s = expression_text(expr) + t;
    let operand = expression_text(rhs) + t;
    let after_op = " "@ + operand;
    let from_op = operator_text(op) + after_op;
    let after_lhs = " "@ + from_op;
    assert(s =~= expression_text(lhs) + after_lhs);
    operator_ends_operand(op, after_op);
    assert(skip_whitespace(after_lhs) == from_op);
    operator_parses(op, after_op);
    operand_text_begins(rhs);
    assert(operand[0] == expression_text(rhs)[0]);
    assert(skip_whitespace(after_op) == operand) by {
        reveal_strlit(" ");
        leading_of_concat(" "@, operand, CharClass::Whitespace);
    }
    assert(operand.len() < s.len());
    assert(grammar::non_operation_below(operand, s.len()) == grammar::non_operation(operand));
}

/// The text of a well-formed expression, followed by `t`, is read as that
/// expression and leaves `t`. `t` must not let the expression go on: it begins
/// with no letter or digit, holds no argument unless the expression is closed,
/// and holds no operator unless the expression is sealed.
pub proof fn expression_parses(expr: ExprModel, t: Seq<char>)
    requires
        well_formed_expression(expr),
        separated(t),
        closed(expr) || no_argument(t),
        sealed(expr) || no_operator(t),
    ensures
        grammar::expression(expression_text(expr) + t) == Ok::<(Seq<char>, ExprModel), Seq<char>>(
            (t, expr),
        ),
    decreases expr, 1int,
{
    let s = expression_text(expr) + t;
    match expr {
        ExprModel::Operation { lhs, rhs, op } => {
            let after_lhs = " "@ + (operator_text(op) + (" "@ + (expression_text(*rhs) + t)));
            operator_ends_operand(op, " "@ + (expression_text(*rhs) + t));
            operand_parses(*lhs, after_lhs);
            operand_parses(*rhs, t);
            operation_parses(*lhs, *rhs, op, t, t);
        },
        _ => {
            operand_parses(expr, t);
            assert(grammar::operation(s) is Err);
        },
    }
}

/// The texts of well-formed arguments, each after a space and followed in
/// the end by `t`, are read as those arguments and leave `t`. `t` must not
/// let the arguments go on: it begins with no letter or digit, holds no
/// argument, and holds no operator unless the last argument is sealed.
pub proof fn arguments_parse(params: Seq<ExprModel>, t: Seq<char>, bound: nat)
    requires
        well_formed_arguments(params),
        separated(t),
        no_argument(t),
        params.len() > 0 ==> sealed(params.last()) || no_operator(t),
        (arguments_text(params) + t).len() < bound,
    ensures
        sequence_of(
            grammar::argument_item(bound),
            grammar::no_separator(),
            arguments_text(params) + t,
        ) == (t, params),
    decreases params, 2int,
{
    reveal_strlit(" ");
    let item = grammar::argument_item(bound);
    let separator = grammar::no_separator();
    let s = arguments_text(params) + t;
    if params.len() == 0 {
        assert(s =~= t);
        assert(item(t) is Err);
        assert(params =~= Seq::<ExprModel>::empty());
    } else {
        let first = params[0];
        let others = params.drop_first();
        let after = arguments_text(others) + t;
        let from_first = expression_text(first) + after;
        assert(s =~= " "@ + from_first);
        expression_text_begins(first);
        assert(from_first[0] == expression_text(first)[0]);
        leading_of_concat(" "@, from_first, CharClass::Space);
        if others.len() == 0 {
            assert(after =~= t);
            assert(params.last() == first);
        } else {
            let second = others[0];
            let from_second = expression_text(second) + (arguments_text(others.drop_first()) + t);
            assert(after =~= " "@ + from_second);
            assert(well_formed_arguments(others));
            assert(well_formed_expression(second));
            expression_text_begins(second);
            assert(from_second[0] == expression_text(second)[0]);
            leading_of_concat(" "@, from_second, CharClass::Whitespace);
            operator_needs_its_character(from_second);
            assert(no_operator(after));
            assert(others.last() == params.last());
        }
        expression_parses(first, after);
        assert(from_first.len() < bound);
        assert(item(s) == Ok::<(Seq<char>, ExprModel), Seq<char>>((after, first)));
        assert(separator(after) == after);
        arguments_parse(others, t, bound);
        assert(seq![first] + others =~= params);
    }
}

/// Where the value is read from the text of the definition of a binding, the
/// text is read as the definition.
pub proof fn binding_def_parses(name: Seq<char>, value: ExprModel, t: Seq<char>)
    requires
        is_identifier(name),
        well_formed_expression(value),
        grammar::expression(expression_text(value) + t) == Ok::<
            (Seq<char>, ExprModel),
            Seq<char>,
        >((t, value)),
    ensures
        grammar::binding_def(statement_text(StmtModel::BindingDef { name, value }) + t) == Ok::<
            (Seq<char>, StmtModel),
            Seq<char>,
        >((t, StmtModel::BindingDef { name, value })),
{
    reveal_strlit("let ");
    reveal_strlit("let");
    reveal_strlit(" = ");
    reveal_strlit("=");
    reveal_strlit(" ");
    let stmt = StmtModel::BindingDef { name, value };
    let s = statement_text(stmt) + t;
    let from_value = expression_text(value) + t;
    let after_equals = " "@ + from_value;
    let from_equals = "="@ + after_equals;
    let after_name = " "@ + from_equals;
    let from_name = name + after_name;
    let after_let = " "@ + from_name;
    assert(s =~= "let"@ + after_let);
    tag_of_concat("let"@, after_let);
    assert(from_name[0] == name[0]);
    leading_of_concat(" "@, from_name, CharClass::Whitespace);
    assert(whitespace_of(after_let) == Ok::<(Seq<char>, Seq<char>), Seq<char>>(
        (from_name, " "@),
    ));
    identifier_is_found(name, after_name);
    leading_of_concat(" "@, from_equals, CharClass::Whitespace);
    assert(skip_whitespace(after_name) == from_equals);
    tag_of_concat("="@, after_equals);
    expression_text_begins(value);
    assert(from_value[0] == expression_text(value)[0]);
    leading_of_concat(" "@, from_value, CharClass::Whitespace);
    assert(skip_whitespace(after_equals) == from_value);
    assert(from_value.len() < s.len());
    assert(grammar::expression_below(from_value, s.len()) == grammar::expression(from_value));
}

/// Where the body is read from the text of the definition of a function, the
/// text is read as the definition, and not as that of a binding.
pub proof fn func_def_parses(name: Seq<char>, params: Seq<Seq<char>>, body: StmtModel, t: Seq<char>)
    requires
        is_identifier(name),
        all_identifiers(params),
        well_formed_statement(body),
        grammar::statement(statement_text(body) + t) == Ok::<(Seq<char>, StmtModel), Seq<char>>(
            (t, body),
        ),
    ensures
        grammar::binding_def(
            statement_text(StmtModel::FuncDef { name, params, body: Box::new(body) }) + t,
        ) is Err,
        grammar::func_def(
            statement_text(StmtModel::FuncDef { name, params, body: Box::new(body) }) + t,
        ) == Ok::<(Seq<char>, StmtModel), Seq<char>>(
            (t, StmtModel::FuncDef { name, params, body: Box::new(body) }),
        ),
{
    reveal_strlit("let");
    reveal_strlit("fun ");
    reveal_strlit("fun");
    reveal_strlit(" => ");
    reveal_strlit("=>");
    reveal_strlit(" ");
    let stmt = StmtModel::FuncDef { name, params, body: Box::new(body) };
    let s = statement_text(stmt) + t;
    let from_body = statement_text(body) + t;
    let after_arrow = " "@ + from_body;
    let from_arrow = "=>"@ + after_arrow;
    let after_name = parameters_text(params) + " "@ + from_arrow;
    let from_name = name + after_name;
    let after_fun = " "@ + from_name;
    assert(s =~= "fun"@ + after_fun);
    assert(s[0] == 'f');
    tag_needs_its_first_character("let"@, s);
    tag_of_concat("fun"@, after_fun);
    assert(from_name[0] == name[0]);
    leading_of_concat(" "@, from_name, CharClass::Whitespace);
    assert(whitespace_of(after_fun) == Ok::<(Seq<char>, Seq<char>), Seq<char>>(
        (from_name, " "@),
    ));
    assert(after_name[0] == ' ') by {
        if params.len() > 0 {
            assert(parameters_text(params)[0] == ' ');
        }
    }
    identifier_is_found(name, after_name);
    assert(from_arrow[0] == '=');
    parameters_parse(params, from_arrow);
    tag_of_concat("=>"@, after_arrow);
    statement_text_begins(body);
    assert(from_body[0] == statement_text(body)[0]);
    leading_of_concat(" "@, from_body, CharClass::Whitespace);
    assert(skip_whitespace(after_arrow) == from_body);
    assert(from_body.len() < s.len());
    assert(grammar::statement_below(from_body, s.len()) == grammar::statement(from_body));
}

/// The text of a well-formed statement, followed by a text that may follow a
/// statement, is read as that statement and leaves that text, as long as the
/// statement is guarded there.
pub proof fn statement_parses(stmt: StmtModel, t: Seq<char>)
    requires
        well_formed_statement(stmt),
        closes(t),
        guarded(stmt, t),
    ensures
        grammar::statement(statement_text(stmt) + t) == Ok::<(Seq<char>, StmtModel), Seq<char>>(
            (t, stmt),
        ),
    decreases stmt, 2int,
{
    closing_text(t);
    match stmt {
        StmtModel::BindingDef { name, value } => {
            expression_parses(value, t);
            binding_def_parses(name, value, t);
        },
        StmtModel::FuncDef { name, params, body } => {
            statement_parses(*body, t);
            func_def_parses(name, params, *body, t);
        },
        StmtModel::Expression(expr) => {
            expression_parses(expr, t);
        },
    }
}

/// The texts of the well-formed statements of a block, followed by the brace
/// that ends it, are read as those statements and leave the brace.
pub proof fn statements_parse(stmts: Seq<StmtModel>, t: Seq<char>, bound: nat)
    requires
        well_formed_statements(stmts),
        (statements_text(stmts) + "}"@ + t).len() < bound,
    ensures
        sequence_of(
            grammar::statement_item(bound),
            grammar::whitespace_separator(),
            statements_text(stmts) + "}"@ + t,
        ) == ("}"@ + t, stmts),
    decreases stmts, 2int,
{
    reveal_strlit("}");
    reveal_strlit("\n");
    let item = grammar::statement_item(bound);
    let separator = grammar::whitespace_separator();
    let s = statements_text(stmts) + "}"@ + t;
    if stmts.len() == 0 {
        assert(s =~= "}"@ + t);
        assert(s[0] == '}');
        expression_needs_its_first_character(s);
        assert(item(s) is Err);
        assert(stmts =~= Seq::<StmtModel>::empty());
    } else {
        let first = stmts[0];
        let others = stmts.drop_first();
        let next = statements_text(others) + "}"@ + t;
        let after = "\n"@ + next;
        assert(s =~= statement_text(first) + after);
        block_rest_begins(others, t);
        leading_of_concat("\n"@, next, CharClass::Whitespace);
        assert(skip_whitespace(after) == next);
        operator_needs_its_character(next);
        assert(closes(after));
        assert(after =~= what_follows(true, others, t));
        statement_is_guarded(first, true, others, t);
        statement_parses(first, after);
        statement_text_begins(first);
        assert(item(s) == Ok::<(Seq<char>, StmtModel), Seq<char>>((after, first)));
        assert(separator(after) == next);
        statements_parse(others, t, bound);
        assert(seq![first] + others =~= stmts);
    }
}

/// The canonical text of a well-formed statement is read as that statement,
/// and nothing else: printing such a statement and parsing the text gives the
/// statement back.
pub proof fn well_formed_statement_round_trip(stmt: StmtModel)
    requires
        well_formed_statement(stmt),
    ensures
        grammar::program(statement_text(stmt)) == Ok::<StmtModel, Seq<char>>(stmt),
{
    let empty = Seq::<char>::empty();
    assert(statement_text(stmt) + empty =~= statement_text(stmt));
    statement_is_guarded(stmt, false, Seq::empty(), empty);
    statement_parses(stmt, empty);
}

} // verus!
