use crate::env::Env;
use crate::grammar;
use crate::model::StmtModel;
use crate::statements::Statement;
use crate::utils::{
    extract_ident, extract_whitespaces, extract_whitespaces_with_error, parsed_as, sequence,
    skip_whitespace, tag, views,
};
use vstd::prelude::*;

verus! {

/// The definition of a function: its name, the names of its parameters, and
/// the statement that is its body.
#[derive(Debug, PartialEq)]
pub struct FuncDef {
    pub name: String,
    pub params: Vec<String>,
    pub body: Box<Statement>,
}

/// The texts of `names`.
pub open spec fn name_views(names: Seq<String>) -> Seq<Seq<char>> {
    Seq::new(names.len(), |i: int| names[i]@)
}

/// A copy of `names`.
pub fn clone_names(names: &Vec<String>) -> (res: Vec<String>)
    ensures
        name_views(res@) == name_views(names@),
{
    let mut res: Vec<String> = Vec::new();
    let mut i: usize = 0;
    while i < names.len()
        invariant
            0 <= i <= names.len(),
            res.len() == i,
            forall|k: int| 0 <= k < i ==> res[k]@ == names[k]@,
        decreases names.len() - i,
    {
        res.push(names[i].clone());
        i = i + 1;
    }
    assert(name_views(res@) =~= name_views(names@));
    res
}

impl FuncDef {
    /// Parses the definition of a function at the front of `s`: `fun`,
    /// whitespace, an identifier, optional whitespace, identifiers that are each
    /// followed by optional whitespace, `=>`, optional whitespace, and a
    /// statement.
    pub fn new(s: &str) -> (res: Result<(&str, Self), String>)
        ensures
            parsed_as(res, grammar::func_def(s@)),
            res matches Ok((remainder, _)) ==> remainder@.len() < s@.len(),
        decreases s@.len(), 7int,
    {
        proof {
            reveal_strlit("fun");
            reveal_strlit("=>");
        }
        let after_fun = tag("fun", s)?;
        let (before_name, _) = extract_whitespaces_with_error(after_fun)?;
        let (after_name, name) = extract_ident(before_name)?;
        let (before_params, _) = extract_whitespaces(after_name);
        let (after_params, params) = sequence(
            (|x: &str| -> (r: Result<(&str, String), String>)
                ensures
                    parsed_as(r, grammar::parameter_item()(x@)),
                    r matches Ok((after, _)) ==> after@.len() < x@.len(),
                {
                    match extract_ident(x) {
                        Ok((after, ident)) => Ok((after, String::from_str(ident))),
                        Err(e) => Err(e),
                    }
                }),
            (|x: &str| -> (r: (&str, &str))
                ensures
                    r.0@ == skip_whitespace(x@),
                    r.0@.len() <= x@.len(),
                {
                    extract_whitespaces(x)
                }),
            before_params,
            Ghost(grammar::parameter_item()),
            Ghost(grammar::whitespace_separator()),
        )?;
        let after_arrow = tag("=>", after_params)?;
        let (before_body, _) = extract_whitespaces(after_arrow);
        let (remainder, body) = Statement::new(before_body)?;
        let res = FuncDef { name: String::from_str(name), params, body: Box::new(body) };
        assert(name_views(res.params@) =~= views(res.params@));
        Ok((remainder, res))
    }

    /// Defines the function in the current scope of `env`, with a copy of its
    /// parameters and of its body, which is not evaluated.
    pub fn eval(&self, env: &mut Env) -> (res: Result<(), String>)
        ensures
            res is Ok,
            final(env)@ == old(env)@.with_func(self.name@, name_views(self.params@), self.body@),
    {
        env.store_func(self.name.clone(), clone_names(&self.params), Statement::clone(&self.body));
        Ok(())
    }

    /// The definition as a mathematical value.
    pub open spec fn model(&self) -> StmtModel
        decreases self,
    {
        StmtModel::FuncDef {
            name: self.name@,
            params: name_views(self.params@),
            body: Box::new(self.body.model()),
        }
    }
}

impl View for FuncDef {
    type V = StmtModel;

    open spec fn view(&self) -> StmtModel {
        self.model()
    }
}

impl Clone for FuncDef {
    fn clone(&self) -> (res: Self)
        ensures
            res@ == self@,
        decreases self,
    {
        FuncDef {
            name: self.name.clone(),
            params: clone_names(&self.params),
            body: Box::new(Statement::clone(&self.body)),
        }
    }
}

} // verus!
