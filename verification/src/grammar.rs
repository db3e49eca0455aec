use crate::decimal::decimal_value;
use crate::expr::Operations;
use crate::model::{ExprModel, StmtModel};
use crate::utils::{
    after_tag, digits_of, ident_of, non_empty_sequence_of, sequence_of, skip_whitespace,
    spaces_of, whitespace_of, Scanned,
};
use vstd::prelude::*;

verus! {

// The grammar, as functions from a text to what its parser makes of it. The
// alternatives of a rule are tried in order and the first that succeeds wins;
// where all fail, the failure is that of the last. A rule that calls another
// one after it has consumed part of the text does so through one of the
// `..._below` functions, which fail on a text that is not shorter than the
// bound: the bound is never reached, and it is what makes the rules well
// founded.
/// An integer literal: digits that write a number not above `i32::MAX`.
pub open spec fn number(s: Seq<char>) -> Scanned<ExprModel> {
    match digits_of(s) {
        Ok((remainder, digits)) => if decimal_value(digits) <= i32::MAX {
            Ok((remainder, ExprModel::Number(decimal_value(digits) as i32)))
        } else {
            Err("number literal out of range"@)
        },
        Err(e) => Err(e),
    }
}

/// One of `+ - * /`, tried in that order.
pub open spec fn operator(s: Seq<char>) -> Scanned<Operations> {
    match after_tag("+"@, s) {
        Ok(remainder) => Ok((remainder, Operations::Add)),
        Err(_) => match after_tag("-"@, s) {
            Ok(remainder) => Ok((remainder, Operations::Sub)),
            Err(_) => match after_tag("*"@, s) {
                Ok(remainder) => Ok((remainder, Operations::Mul)),
                Err(_) => match after_tag("/"@, s) {
                    Ok(remainder) => Ok((remainder, Operations::Div)),
                    Err(e) => Err(e),
                },
            },
        },
    }
}

/// The use of a binding: an identifier.
pub open spec fn binding_usage(s: Seq<char>) -> Scanned<ExprModel> {
    match ident_of(s) {
        Ok((remainder, name)) => Ok((remainder, ExprModel::BindingUsage { name })),
        Err(e) => Err(e),
    }
}

/// The name of a parameter: an identifier.
pub open spec fn parameter(s: Seq<char>) -> Scanned<Seq<char>> {
    ident_of(s)
}

/// An expression: an operation, or else an expression that is no operation.
pub open spec fn expression(s: Seq<char>) -> Scanned<ExprModel>
    decreases s.len(), 6int,
{
    match operation(s) {
        Ok(parsed) => Ok(parsed),
        Err(_) => non_operation(s),
    }
}

/// An operation: two expressions that are no operations, with an operator
/// between them and optional whitespace around it.
pub open spec fn operation(s: Seq<char>) -> Scanned<ExprModel>
    decreases s.len(), 5int,
{
    match non_operation(s) {
        Ok((after_lhs, lhs)) => match operator(skip_whitespace(after_lhs)) {
            Ok((after_op, op)) => match non_operation_below(skip_whitespace(after_op), s.len()) {
                Ok((remainder, rhs)) => Ok(
                    (
                        remainder,
                        ExprModel::Operation { lhs: Box::new(lhs), rhs: Box::new(rhs), op },
                    ),
                ),
                Err(e) => Err(e),
            },
            Err(e) => Err(e),
        },
        Err(e) => Err(e),
    }
}

/// An expression that is no operation: a number, or else a function call, or
/// else the use of a binding, or else a block.
pub open spec fn non_operation(s: Seq<char>) -> Scanned<ExprModel>
    decreases s.len(), 4int,
{
    match number(s) {
        Ok(parsed) => Ok(parsed),
        Err(_) => match func_call(s) {
            Ok(parsed) => Ok(parsed),
            Err(_) => match binding_usage(s) {
                Ok(parsed) => Ok(parsed),
                Err(_) => block(s),
            },
        },
    }
}

/// A function call: an identifier and one or more arguments. Nothing is taken
/// after the last argument.
pub open spec fn func_call(s: Seq<char>) -> Scanned<ExprModel>
    decreases s.len(), 3int,
{
    match ident_of(s) {
        Ok((after_callee, callee)) => match non_empty_sequence_of(
            argument_item(s.len()),
            no_separator(),
            after_callee,
        ) {
            Ok((remainder, params)) => Ok((remainder, ExprModel::FuncCall { callee, params })),
            Err(e) => Err(e),
        },
        Err(e) => Err(e),
    }
}

/// A block: `{`, optional whitespace, statements that are each followed by
/// optional whitespace, and `}`.
pub open spec fn block(s: Seq<char>) -> Scanned<ExprModel>
    decreases s.len(), 3int,
{
    match after_tag("{"@, s) {
        Ok(after_brace) => {
            let (after_stmts, stmts) = sequence_of(
                statement_item(s.len()),
                whitespace_separator(),
                skip_whitespace(after_brace),
            );
            match after_tag("}"@, skip_whitespace(after_stmts)) {
                Ok(remainder) => Ok((remainder, ExprModel::Block { stmts })),
                Err(e) => Err(e),
            }
        },
        Err(e) => Err(e),
    }
}

/// A statement: the definition of a binding, or else that of a function, or
/// else an expression.
pub open spec fn statement(s: Seq<char>) -> Scanned<StmtModel>
    decreases s.len(), 8int,
{
    match binding_def(s) {
        Ok(parsed) => Ok(parsed),
        Err(_) => match func_def(s) {
            Ok(parsed) => Ok(parsed),
            Err(_) => match expression(s) {
                Ok((remainder, expr)) => Ok((remainder, StmtModel::Expression(expr))),
                Err(e) => Err(e),
            },
        },
    }
}

/// The definition of a binding: `let`, whitespace, an identifier, `=` with
/// optional whitespace around it, and an expression.
pub open spec fn binding_def(s: Seq<char>) -> Scanned<StmtModel>
    decreases s.len(), 7int,
{
    match after_tag("let"@, s) {
        Ok(after_let) => match whitespace_of(after_let) {
            Ok((before_name, _)) => match ident_of(before_name) {
                Ok((after_name, name)) => match after_tag("="@, skip_whitespace(after_name)) {
                    Ok(after_equals) => match expression_below(
                        skip_whitespace(after_equals),
                        s.len(),
                    ) {
                        Ok((remainder, value)) => Ok(
                            (remainder, StmtModel::BindingDef { name, value }),
                        ),
                        Err(e) => Err(e),
                    },
                    Err(e) => Err(e),
                },
                Err(e) => Err(e),
            },
            Err(e) => Err(e),
        },
        Err(e) => Err(e),
    }
}

/// The definition of a function: `fun`, whitespace, an identifier, optional
/// whitespace, identifiers that are each followed by optional whitespace, `=>`,
/// optional whitespace, and a statement.
pub open spec fn func_def(s: Seq<char>) -> Scanned<StmtModel>
    decreases s.len(), 7int,
{
    match after_tag("fun"@, s) {
        Ok(after_fun) => match whitespace_of(after_fun) {
            Ok((before_name, _)) => match ident_of(before_name) {
                Ok((after_name, name)) => {
                    let (after_params, params) = sequence_of(
                        parameter_item(),
                        whitespace_separator(),
                        skip_whitespace(after_name),
                    );
                    match after_tag("=>"@, after_params) {
                        Ok(after_arrow) => match statement_below(
                            skip_whitespace(after_arrow),
                            s.len(),
                        ) {
                            Ok((remainder, body)) => Ok(
                                (
                                    remainder,
                                    StmtModel::FuncDef { name, params, body: Box::new(body) },
                                ),
                            ),
                            Err(e) => Err(e),
                        },
                        Err(e) => Err(e),
                    }
                },
                Err(e) => Err(e),
            },
            Err(e) => Err(e),
        },
        Err(e) => Err(e),
    }
}

/// `expression` on a text shorter than `bound`.
pub open spec fn expression_below(s: Seq<char>, bound: nat) -> Scanned<ExprModel>
    decreases bound, 0int,
{
    if s.len() < bound {
        expression(s)
    } else {
        Err(Seq::empty())
    }
}

/// `non_operation` on a text shorter than `bound`.
pub open spec fn non_operation_below(s: Seq<char>, bound: nat) -> Scanned<ExprModel>
    decreases bound, 0int,
{
    if s.len() < bound {
        non_operation(s)
    } else {
        Err(Seq::empty())
    }
}

/// `statement` on a text shorter than `bound`.
pub open spec fn statement_below(s: Seq<char>, bound: nat) -> Scanned<StmtModel>
    decreases bound, 0int,
{
    if s.len() < bound {
        statement(s)
    } else {
        Err(Seq::empty())
    }
}

/// An argument of a call in a text shorter than `bound`: one or more spaces,
/// and an expression. A newline is no space: it ends the arguments.
pub open spec fn argument_below(s: Seq<char>, bound: nat) -> Scanned<ExprModel>
    decreases bound, 1int,
{
    match spaces_of(s) {
        Ok((before_expr, _)) => expression_below(before_expr, bound),
        Err(e) => Err(e),
    }
}

/// The item of a sequence of arguments in a text shorter than `bound`.
pub open spec fn argument_item(bound: nat) -> spec_fn(Seq<char>) -> Scanned<ExprModel>
    decreases bound, 2int,
{
    |s: Seq<char>| argument_below(s, bound)
}

/// The item of a sequence of statements in a text shorter than `bound`.
pub open spec fn statement_item(bound: nat) -> spec_fn(Seq<char>) -> Scanned<StmtModel>
    decreases bound, 2int,
{
    |s: Seq<char>| statement_below(s, bound)
}

/// The item of a sequence of parameter names.
pub open spec fn parameter_item() -> spec_fn(Seq<char>) -> Scanned<Seq<char>> {
    |s: Seq<char>| parameter(s)
}

/// The separator that skips spaces and newlines.
pub open spec fn whitespace_separator() -> spec_fn(Seq<char>) -> Seq<char> {
    |s: Seq<char>| skip_whitespace(s)
}

/// The separator that takes nothing.
pub open spec fn no_separator() -> spec_fn(Seq<char>) -> Seq<char> {
    |s: Seq<char>| s
}

/// A whole input: one statement and nothing after it.
pub open spec fn program(s: Seq<char>) -> Result<StmtModel, Seq<char>> {
    match statement(s) {
        Ok((remainder, stmt)) => if remainder.len() == 0 {
            Ok(stmt)
        } else {
            Err("input was not consumed fully by parser"@)
        },
        Err(e) => Err(e),
    }
}

} // verus!
