use crate::env::Env;
use crate::failure::{evaluated_as, EvalFailure};
use crate::grammar;
use crate::model::ExprModel;
use crate::utils::{extract_ident, parsed_as};
use crate::val::Val;
use vstd::prelude::*;

verus! {

/// The use of a binding by its name.
#[derive(Debug, PartialEq)]
pub struct BindingUsage {
    pub name: String,
}

impl View for BindingUsage {
    type V = ExprModel;

    open spec fn view(&self) -> ExprModel {
        ExprModel::BindingUsage { name: self.name@ }
    }
}

impl BindingUsage {
    /// Parses the use of a binding at the front of `s`: an identifier.
    pub fn new(s: &str) -> (res: Result<(&str, Self), String>)
        ensures
            parsed_as(res, grammar::binding_usage(s@)),
            res matches Ok((remainder, _)) ==> remainder@.len() < s@.len(),
    {
        let (s, name) = extract_ident(s)?;
        Ok((s, BindingUsage { name: String::from_str(name) }))
    }

    /// The value of the binding in `env`.
    pub fn eval(&self, env: &Env) -> (res: Result<Val, String>)
        ensures
            evaluated_as(
                res,
                match env@.binding(self.name@) {
                    Some(value) => Ok(value),
                    None => Err(EvalFailure::UndefinedBinding { name: self.name@ }),
                },
            ),
    {
        env.get_binding(self.name.as_str())
    }
}

impl Clone for BindingUsage {
    fn clone(&self) -> (res: Self)
        ensures
            res@ == self@,
    {
        BindingUsage { name: self.name.clone() }
    }
}

} // verus!
