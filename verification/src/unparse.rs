use crate::binding_def::BindingDef;
use crate::decimal::{decimal, write_decimal};
use crate::expr::{BindingUsage, Block, Expression, FuncCall, Number, Operations};
use crate::func_def::{name_views, FuncDef};
use crate::model::{ExprModel, StmtModel};
use crate::statements::Statement;
use vstd::prelude::*;

verus! {

// The canonical text of a statement: a text that is a function of the tree
// alone. Operators and `=` stand between single spaces, arguments and
// parameters follow a single space each, and every statement of a block ends
// with a newline.
/// The character that writes `op`.
pub open spec fn operator_text(op: Operations) -> Seq<char> {
    match op {
        Operations::Add => "+"@,
        Operations::Sub => "-"@,
        Operations::Mul => "*"@,
        Operations::Div => "/"@,
    }
}

/// The digits of `n`, after a minus sign where `n` is negative.
pub open spec fn number_text(n: i32) -> Seq<char> {
    if n >= 0 {
        decimal(n as nat)
    } else {
        "-"@ + decimal((-n) as nat)
    }
}

/// The canonical text of an expression.
pub open spec fn expression_text(expr: ExprModel) -> Seq<char>
    decreases expr,
{
    match expr {
        ExprModel::Number(n) => number_text(n),
        ExprModel::Operation { lhs, rhs, op } => expression_text(*lhs) + " "@ + operator_text(op)
            + " "@ + expression_text(*rhs),
        ExprModel::FuncCall { callee, params } => callee + arguments_text(params),
        ExprModel::BindingUsage { name } => name,
        ExprModel::Block { stmts } => "{"@ + statements_text(stmts) + "}"@,
    }
}

/// The canonical texts of arguments, each after a space.
pub open spec fn arguments_text(params: Seq<ExprModel>) -> Seq<char>
    decreases params,
{
    if params.len() == 0 {
        Seq::empty()
    } else {
        " "@ + expression_text(params[0]) + arguments_text(params.drop_first())
    }
}

/// The canonical texts of statements, each before a newline.
pub open spec fn statements_text(stmts: Seq<StmtModel>) -> Seq<char>
    decreases stmts,
{
    if stmts.len() == 0 {
        Seq::empty()
    } else {
        statement_text(stmts[0]) + "\n"@ + statements_text(stmts.drop_first())
    }
}

/// The names of parameters, each after a space.
pub open spec fn parameters_text(params: Seq<Seq<char>>) -> Seq<char>
    decreases params.len(),
{
    if params.len() == 0 {
        Seq::empty()
    } else {
        " "@ + params[0] + parameters_text(params.drop_first())
    }
}

/// The canonical text of a statement.
pub open spec fn statement_text(stmt: StmtModel) -> Seq<char>
    decreases stmt,
{
    match stmt {
        StmtModel::BindingDef { name, value } => "let "@ + name + " = "@ + expression_text(value),
        StmtModel::FuncDef { name, params, body } => "fun "@ + name + parameters_text(params)
            + " => "@ + statement_text(*body),
        StmtModel::Expression(expr) => expression_text(expr),
    }
}

impl Operations {
    /// The character that writes the operation.
    pub fn unparse(self) -> (res: &'static str)
        ensures
            res@ == operator_text(self),
    {
        match self {
            Operations::Add => "+",
            Operations::Sub => "-",
            Operations::Mul => "*",
            Operations::Div => "/",
        }
    }
}

impl Number {
    /// The text of the number.
    pub fn unparse(&self) -> (res: String)
        ensures
            res@ == number_text(self.0),
    {
        let n = self.0;
        if n >= 0 {
            write_decimal(n as usize)
        } else {
            let magnitude = -(n as i64);
            let digits = write_decimal(magnitude as usize);
            String::from_str("-").concat(digits.as_str())
        }
    }
}

impl BindingUsage {
    /// The text of the use of the binding: its name.
    pub fn unparse(&self) -> (res: String)
        ensures
            res@ == expression_text(self@),
    {
        self.name.clone()
    }
}

impl FuncCall {
    /// The canonical text of the call.
    pub fn unparse(&self) -> (res: String)
        ensures
            res@ == expression_text(self@),
        decreases self,
    {
        let ghost params = self@->params;
        let mut res = self.callee.clone();
        let mut i: usize = 0;
        assert(params.skip(0) =~= params);
        while i < self.params.len()
            invariant
                0 <= i <= self.params.len(),
                params == self@->params,
                params.len() == self.params.len(),
                forall|k: int| 0 <= k < params.len() ==> params[k] == self.params[k]@,
                res@ + arguments_text(params.skip(i as int)) == self.callee@ + arguments_text(
                    params,
                ),
            decreases self.params.len() - i,
        {
            let text = self.params[i].unparse();
            let ghost before = res@;
            res.append(" ");
            res.append(text.as_str());
            proof {
                assert(params.skip(i as int)[0] == params[i as int]);
                assert(params.skip(i as int).drop_first() =~= params.skip(i + 1));
                assert(res@ + arguments_text(params.skip(i + 1)) =~= before + (" "@
                    + expression_text(params[i as int]) + arguments_text(params.skip(i + 1))));
            }
            i = i + 1;
        }
        proof {
            assert(params.skip(i as int).len() == 0);
            assert(res@ + Seq::<char>::empty() =~= res@);
        }
        res
    }
}

impl Block {
    /// The canonical text of the block.
    pub fn unparse(&self) -> (res: String)
        ensures
            res@ == expression_text(self@),
        decreases self,
    {
        let ghost stmts = self@->stmts;
        let mut res = String::from_str("{");
        let mut i: usize = 0;
        assert(stmts.skip(0) =~= stmts);
        while i < self.stmts.len()
            invariant
                0 <= i <= self.stmts.len(),
                stmts == self@->stmts,
                stmts.len() == self.stmts.len(),
                forall|k: int| 0 <= k < stmts.len() ==> stmts[k] == self.stmts[k]@,
                res@ + statements_text(stmts.skip(i as int)) == "{"@ + statements_text(stmts),
            decreases self.stmts.len() - i,
        {
            let text = self.stmts[i].unparse();
            let ghost before = res@;
            res.append(text.as_str());
            res.append("\n");
            proof {
                assert(stmts.skip(i as int)[0] == stmts[i as int]);
                assert(stmts.skip(i as int).drop_first() =~= stmts.skip(i + 1));
                assert(res@ + statements_text(stmts.skip(i + 1)) =~= before + (statement_text(
                    stmts[i as int],
                ) + "\n"@ + statements_text(stmts.skip(i + 1))));
            }
            i = i + 1;
        }
        proof {
            assert(stmts.skip(i as int).len() == 0);
            assert(res@ + Seq::<char>::empty() =~= res@);
        }
        res.append("}");
        res
    }
}

impl Expression {
    /// The canonical text of the expression.
    pub fn unparse(&self) -> (res: String)
        ensures
            res@ == expression_text(self@),
        decreases self,
    {
        match self {
            Expression::Number(number) => number.unparse(),
            Expression::Operation { lhs, rhs, op } => {
                let rhs_text = rhs.unparse();
                lhs.unparse().concat(" ").concat(op.unparse()).concat(" ").concat(
                    rhs_text.as_str(),
                )
            },
            Expression::FuncCall(func_call) => func_call.unparse(),
            Expression::BindingUsage(binding_usage) => binding_usage.unparse(),
            Expression::Block(block) => block.unparse(),
        }
    }
}

impl BindingDef {
    /// The canonical text of the definition.
    pub fn unparse(&self) -> (res: String)
        ensures
            res@ == statement_text(self@),
        decreases self,
    {
        let value_text = self.value.unparse();
        String::from_str("let ").concat(self.name.as_str()).concat(" = ").concat(
            value_text.as_str(),
        )
    }
}

impl FuncDef {
    /// The canonical text of the definition.
    pub fn unparse(&self) -> (res: String)
        ensures
            res@ == statement_text(self@),
        decreases self,
    {
        let ghost params = name_views(self.params@);
        let mut res = String::from_str("fun ").concat(self.name.as_str());
        let mut i: usize = 0;
        assert(params.skip(0) =~= params);
        while i < self.params.len()
            invariant
                0 <= i <= self.params.len(),
                params == name_views(self.params@),
                res@ + parameters_text(params.skip(i as int)) == "fun "@ + self.name@
                    + parameters_text(params),
            decreases self.params.len() - i,
        {
            let ghost before = res@;
            res.append(" ");
            res.append(self.params[i].as_str());
            proof {
                assert(params.skip(i as int)[0] == self.params[i as int]@);
                assert(params.skip(i as int).drop_first() =~= params.skip(i + 1));
                assert(res@ + parameters_text(params.skip(i + 1)) =~= before + (" "@
                    + self.params[i as int]@ + parameters_text(params.skip(i + 1))));
            }
            i = i + 1;
        }
        proof {
            assert(params.skip(i as int).len() == 0);
            assert(res@ + Seq::<char>::empty() =~= res@);
        }
        let body_text = Statement::unparse(&self.body);
        res.concat(" => ").concat(body_text.as_str())
    }
}

impl Statement {
    /// The canonical text of the statement.
    pub fn unparse(&self) -> (res: String)
        ensures
            res@ == statement_text(self@),
        decreases self,
    {
        match self {
            Statement::BindingDef(binding_def) => binding_def.unparse(),
            Statement::Expression(expr) => expr.unparse(),
            Statement::FuncDef(func_def) => func_def.unparse(),
        }
    }
}

} // verus!
