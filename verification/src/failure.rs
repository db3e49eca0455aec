use crate::decimal::{decimal, write_decimal};
use crate::val::Val;
use vstd::prelude::*;

verus! {

/// Why an evaluation failed.
pub enum EvalFailure {
    /// No binding of that name is visible.
    UndefinedBinding { name: Seq<char> },
    /// No function of that name is visible.
    UndefinedFunction { name: Seq<char> },
    /// A function was called with another number of arguments than it has
    /// parameters.
    ArityMismatch { expected: nat, got: nat },
    /// An operand of an arithmetic operation is not a number.
    TypeMismatch,
    /// The divisor is zero.
    DivisionByZero,
    /// The result of an arithmetic operation is not an `i32`.
    Overflow,
    /// Function calls are nested deeper than the limit that `eval_within` was
    /// given.
    DepthExceeded,
}

impl EvalFailure {
    /// The message that reports the failure.
    pub open spec fn message(self) -> Seq<char> {
        match self {
            EvalFailure::UndefinedBinding { name } => "binding with name '"@ + name
                + "' does not exist"@,
            EvalFailure::UndefinedFunction { name } => "function with name '"@ + name
                + "' does not exist"@,
            EvalFailure::ArityMismatch { expected, got } => "expected "@ + decimal(expected)
                + " parameters, got "@ + decimal(got),
            EvalFailure::TypeMismatch =>
                "cannot evaluate operation whose left-hand side and right-hand side are not both numbers"@,
            EvalFailure::DivisionByZero => "division by zero"@,
            EvalFailure::Overflow => "arithmetic overflow"@,
            EvalFailure::DepthExceeded => "call depth limit exceeded"@,
        }
    }
}

/// Whether the outcome of an evaluation is the one that `expected` describes:
/// the same value, or the message of the same failure.
pub open spec fn evaluated_as(
    res: Result<Val, String>,
    expected: Result<Val, EvalFailure>,
) -> bool {
    match expected {
        Ok(value) => res == Ok::<Val, String>(value),
        Err(failure) => res matches Err(e) && e@ == failure.message(),
    }
}

/// Whether the outcome of a definition is the one that `expected` describes:
/// success, or the message of the same failure.
pub open spec fn defined_as(res: Result<(), String>, expected: Result<Val, EvalFailure>) -> bool {
    match expected {
        Ok(_) => res is Ok,
        Err(failure) => res matches Err(e) && e@ == failure.message(),
    }
}

/// The message for a binding that does not exist.
pub fn undefined_binding(name: &str) -> (res: String)
    ensures
        res@ == (EvalFailure::UndefinedBinding { name: name@ }).message(),
{
    String::from_str("binding with name '").concat(name).concat("' does not exist")
}

/// The message for a function that does not exist.
pub fn undefined_function(name: &str) -> (res: String)
    ensures
        res@ == (EvalFailure::UndefinedFunction { name: name@ }).message(),
{
    String::from_str("function with name '").concat(name).concat("' does not exist")
}

/// The message for a call with `got` arguments of a function with `expected`
/// parameters.
pub fn arity_mismatch(expected: usize, got: usize) -> (res: String)
    ensures
        res@ == (EvalFailure::ArityMismatch {
            expected: expected as nat,
            got: got as nat,
        }).message(),
{
    let expected_text = write_decimal(expected);
    let got_text = write_decimal(got);
    String::from_str("expected ").concat(expected_text.as_str()).concat(
        " parameters, got ",
    ).concat(got_text.as_str())
}

/// The message for an operand that is not a number.
pub fn type_mismatch() -> (res: String)
    ensures
        res@ == EvalFailure::TypeMismatch.message(),
{
    String::from_str(
        "cannot evaluate operation whose left-hand side and right-hand side are not both numbers",
    )
}

/// The message for a division by zero.
pub fn division_by_zero() -> (res: String)
    ensures
        res@ == EvalFailure::DivisionByZero.message(),
{
    String::from_str("division by zero")
}

/// The message for a result that is not an `i32`.
pub fn overflow() -> (res: String)
    ensures
        res@ == EvalFailure::Overflow.message(),
{
    String::from_str("arithmetic overflow")
}

/// The message for calls that are nested too deep.
pub fn depth_exceeded() -> (res: String)
    ensures
        res@ == EvalFailure::DepthExceeded.message(),
{
    String::from_str("call depth limit exceeded")
}

} // verus!
