use crate::env::Env;
use crate::failure::{evaluated_as, EvalFailure};
use crate::grammar;
use crate::model::{ExprModel, StmtModel};
use crate::semantics::{
    eval_expression, eval_statements, expression_settles, lemma_statement_failure,
    settled_expression, within_limit, MAX_CALL_DEPTH,
};
use crate::val::Val;
use crate::statements::Statement;
use crate::utils::{extract_whitespaces, parsed_as, sequence, skip_whitespace, tag, views};
use vstd::prelude::*;

verus! {

/// A block: statements between braces, with a scope of their own.
#[derive(Debug, PartialEq)]
pub struct Block {
    pub stmts: Vec<Statement>,
}

impl Block {
    /// Parses a block at the front of `s`: `{`, optional whitespace, statements
    /// that are each followed by optional whitespace, and `}`.
    pub fn new(s: &str) -> (res: Result<(&str, Self), String>)
        ensures
            parsed_as(res, grammar::block(s@)),
            res matches Ok((remainder, _)) ==> remainder@.len() < s@.len(),
        decreases s@.len(), 3int,
    {
        proof {
            reveal_strlit("{");
            reveal_strlit("}");
        }
        let after_brace = tag("{", s)?;
        let (before_stmts, _) = extract_whitespaces(after_brace);
        let (after_stmts, stmts) = sequence(
            (|x: &str| -> (r: Result<(&str, Statement), String>)
                requires
                    x@.len() < s@.len(),
                ensures
                    parsed_as(r, grammar::statement_item(s@.len())(x@)),
                    r matches Ok((after, _)) ==> after@.len() < x@.len(),
                {
                    Statement::new(x)
                }),
            (|x: &str| -> (r: (&str, &str))
                ensures
                    r.0@ == skip_whitespace(x@),
                    r.0@.len() <= x@.len(),
                {
                    extract_whitespaces(x)
                }),
            before_stmts,
            Ghost(grammar::statement_item(s@.len())),
            Ghost(grammar::whitespace_separator()),
        )?;
        let (before_brace, _) = extract_whitespaces(after_stmts);
        let remainder = tag("}", before_brace)?;
        let res = Block { stmts };
        assert(res@->stmts =~= views(stmts@));
        Ok((remainder, res))
    }

    /// Evaluates the block in `env`, which it leaves as it is.
    /// Function calls may be nested as deep as the machine holds: the limit
    /// under which this evaluates, `MAX_CALL_DEPTH`, is the largest `usize`,
    /// and a result that the limit does not decide is the one under every
    /// larger limit.
    pub fn eval(&self, env: &Env) -> (res: Result<Val, String>)
        ensures
            evaluated_as(res, eval_expression(self@, env@, MAX_CALL_DEPTH as nat)),
            within_limit(eval_expression(self@, env@, MAX_CALL_DEPTH as nat))
                ==> settled_expression(self@, env@, MAX_CALL_DEPTH as nat),
    {
        proof {
            if within_limit(eval_expression(self@, env@, MAX_CALL_DEPTH as nat)) {
                expression_settles(self@, env@, MAX_CALL_DEPTH as nat);
            }
        }
        self.eval_within(env, MAX_CALL_DEPTH)
    }

    /// Evaluates the statements of the block one after another in one new
    /// scope inside `env`, with function calls nested at most `depth` deep, and
    /// returns the value of the last one, or `Unit` where there is none.
    pub fn eval_within(&self, env: &Env, depth: usize) -> (res: Result<Val, String>)
        ensures
            evaluated_as(res, eval_expression(self@, env@, depth as nat)),
        decreases depth, self,
    {
        if self.stmts.len() == 0 {
            assert(eval_statements(self@->stmts, env@.child(), depth as nat).0 == Ok::<
                Val,
                EvalFailure,
            >(Val::Unit));
            return Ok(Val::Unit);
        }
        let mut child = env.create_child();
        let ghost scope = child@;
        let ghost stmts = self@->stmts;
        let mut last = Val::Unit;
        let mut i: usize = 0;
        while i < self.stmts.len()
            invariant
                0 <= i <= self.stmts.len(),
                stmts == self@->stmts,
                stmts.len() == self.stmts.len(),
                forall|k: int| 0 <= k < stmts.len() ==> stmts[k] == self.stmts[k]@,
                scope == env@.child(),
                eval_statements(stmts.take(i as int), scope, depth as nat) == (
                    Ok::<Val, EvalFailure>(last),
                    child@,
                ),
            decreases self.stmts.len() - i,
        {
            assert(stmts[i as int] == self.stmts[i as int]@);
            match self.stmts[i].eval_within(&mut child, depth) {
                Ok(value) => {
                    last = value;
                },
                Err(e) => {
                    proof {
                        lemma_statement_failure(
                            stmts,
                            i as int,
                            stmts.len() as int,
                            scope,
                            depth as nat,
                        );
                        assert(stmts.take(stmts.len() as int) =~= stmts);
                        assert(eval_expression(self@, env@, depth as nat) == eval_statements(
                            stmts,
                            scope,
                            depth as nat,
                        ).0);
                    }
                    return Err(e);
                },
            }
            proof {
                assert(stmts.take(i + 1).drop_last() =~= stmts.take(i as int));
            }
            i = i + 1;
        }
        proof {
            assert(stmts.take(i as int) =~= stmts);
        }
        Ok(last)
    }

    /// The block as a mathematical value.
    pub open spec fn model(&self) -> ExprModel
        decreases self,
    {
        ExprModel::Block {
            stmts: Seq::new(
                self.stmts.len() as nat,
                |i: int|
                    if 0 <= i < self.stmts.len() {
                        self.stmts[i].model()
                    } else {
                        StmtModel::Expression(ExprModel::Number(0))
                    },
            ),
        }
    }
}

impl View for Block {
    type V = ExprModel;

    open spec fn view(&self) -> ExprModel {
        self.model()
    }
}

impl Clone for Block {
    fn clone(&self) -> (res: Self)
        ensures
            res@ == self@,
        decreases self,
    {
        let mut stmts: Vec<Statement> = Vec::new();
        let mut i: usize = 0;
        while i < self.stmts.len()
            invariant
                0 <= i <= self.stmts.len(),
                stmts.len() == i,
                forall|k: int| 0 <= k < i ==> stmts[k]@ == self.stmts[k]@,
            decreases self.stmts.len() - i,
        {
            stmts.push(self.stmts[i].clone());
            i = i + 1;
        }
        let res = Block { stmts };
        assert(res@->stmts =~= self@->stmts);
        res
    }
}

} // verus!
