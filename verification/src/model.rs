use crate::expr::Operations;
use crate::val::Val;
use vstd::prelude::*;

verus! {

/// An expression as a mathematical value: what the view of an `Expression` is.
pub enum ExprModel {
    /// An integer literal.
    Number(i32),
    /// An arithmetic operation on two operands.
    Operation { lhs: Box<ExprModel>, rhs: Box<ExprModel>, op: Operations },
    /// A call of the function `callee` with the arguments `params`.
    FuncCall { callee: Seq<char>, params: Seq<ExprModel> },
    /// The use of the binding `name`.
    BindingUsage { name: Seq<char> },
    /// A block of statements.
    Block { stmts: Seq<StmtModel> },
}

/// A statement as a mathematical value: what the view of a `Statement` is.
pub enum StmtModel {
    /// `let name = value`.
    BindingDef { name: Seq<char>, value: ExprModel },
    /// `fun name params => body`.
    FuncDef { name: Seq<char>, params: Seq<Seq<char>>, body: Box<StmtModel> },
    /// An expression that stands as a statement.
    Expression(ExprModel),
}

/// What a name stands for in a scope.
pub enum Named {
    /// A binding, with its value.
    Binding(Val),
    /// A function, with the names of its parameters and its body.
    Func { params: Seq<Seq<char>>, body: StmtModel },
}

/// An environment as a mathematical value: what the view of an `Env` is. It is
/// a scope, with the scope that encloses it, if there is one.
pub struct EnvModel {
    pub named: Map<Seq<char>, Named>,
    pub parent: Option<Box<EnvModel>>,
}

impl EnvModel {
    /// The environment of one scope, in which nothing is defined.
    pub open spec fn empty() -> EnvModel {
        EnvModel { named: Map::empty(), parent: None }
    }

    /// A new scope inside this one, in which nothing is defined yet.
    pub open spec fn child(self) -> EnvModel {
        EnvModel { named: Map::empty(), parent: Some(Box::new(self)) }
    }

    /// The environment in which `name` stands for `info` in the current scope,
    /// whatever it stood for there before.
    pub open spec fn with(self, name: Seq<char>, info: Named) -> EnvModel {
        EnvModel { named: self.named.insert(name, info), parent: self.parent }
    }

    /// The environment after `name` is bound to `value` in the current scope.
    pub open spec fn with_binding(self, name: Seq<char>, value: Val) -> EnvModel {
        self.with(name, Named::Binding(value))
    }

    /// The environment after the function `name` is defined in the current
    /// scope.
    pub open spec fn with_func(
        self,
        name: Seq<char>,
        params: Seq<Seq<char>>,
        body: StmtModel,
    ) -> EnvModel {
        self.with(name, Named::Func { params, body })
    }

    /// The environment after each of `names` is bound, in order, to the value
    /// at its place in `values`, as far as both go.
    pub open spec fn with_bindings(self, names: Seq<Seq<char>>, values: Seq<Val>) -> EnvModel
        decreases names.len(),
    {
        if names.len() == 0 || values.len() == 0 {
            self
        } else {
            self.with_bindings(names.drop_last(), values.drop_last()).with_binding(
                names.last(),
                values.last(),
            )
        }
    }

    /// What `name` stands for as a binding (`func` is false) or as a function
    /// (`func` is true): the definition of that kind in the current scope, or
    /// else in the nearest enclosing scope that holds one. A definition of the
    /// other kind is passed over.
    pub open spec fn find(self, name: Seq<char>, func: bool) -> Option<Named>
        decreases self,
    {
        if self.named.contains_key(name) && (self.named[name] is Func) == func {
            Some(self.named[name])
        } else {
            match self.parent {
                Some(parent) => parent.find(name, func),
                None => None,
            }
        }
    }

    /// The value of the binding `name`.
    pub open spec fn binding(self, name: Seq<char>) -> Option<Val> {
        match self.find(name, false) {
            Some(Named::Binding(value)) => Some(value),
            _ => None,
        }
    }

    /// The parameters and the body of the function `name`.
    pub open spec fn func(self, name: Seq<char>) -> Option<(Seq<Seq<char>>, StmtModel)> {
        match self.find(name, true) {
            Some(Named::Func { params, body }) => Some((params, body)),
            _ => None,
        }
    }
}

} // verus!
