use crate::failure::{undefined_binding, undefined_function, EvalFailure};
use crate::func_def::{clone_names, name_views};
use crate::model::{EnvModel, Named};
use crate::statements::Statement;
use crate::val::Val;
use vstd::hash_map::StringHashMap;
use vstd::prelude::*;

verus! {

/// What a name stands for in a scope.
pub enum NamedInfo {
    Binding(Val),
    Func { params: Vec<String>, body: Statement },
}

impl View for NamedInfo {
    type V = Named;

    open spec fn view(&self) -> Named {
        match self {
            NamedInfo::Binding(value) => Named::Binding(*value),
            NamedInfo::Func { params, body } => Named::Func {
                params: name_views(params@),
                body: body@,
            },
        }
    }
}

impl Clone for NamedInfo {
    fn clone(&self) -> (res: Self)
        ensures
            res@ == self@,
    {
        match self {
            NamedInfo::Binding(value) => NamedInfo::Binding(*value),
            NamedInfo::Func { params, body } => NamedInfo::Func {
                params: clone_names(params),
                body: body.clone(),
            },
        }
    }
}

impl NamedInfo {
    /// Whether this is a function.
    pub fn is_func(&self) -> (res: bool)
        ensures
            res == (self@ is Func),
    {
        match self {
            NamedInfo::Binding(_) => false,
            NamedInfo::Func { .. } => true,
        }
    }

    /// The value, where this is a binding.
    pub fn into_binding(self) -> (res: Option<Val>)
        ensures
            res == match self@ {
                Named::Binding(value) => Some(value),
                _ => None,
            },
    {
        if let NamedInfo::Binding(val) = self {
            Some(val)
        } else {
            None
        }
    }

    /// The parameters and the body, where this is a function.
    pub fn into_func(self) -> (res: Option<(Vec<String>, Statement)>)
        ensures
            match self@ {
                Named::Func { params, body } => res matches Some((names, stmt)) && name_views(
                    names@,
                ) == params && stmt@ == body,
                _ => res is None,
            },
    {
        if let NamedInfo::Func { params, body } = self {
            Some((params, body))
        } else {
            None
        }
    }
}

/// A scope: what its names stand for, and the scope that encloses it. The
/// names are kept in vstd's `StringHashMap`: std's `HashMap` with `String`
/// keys, in the form in which vstd specifies it.
pub struct Env<'parent> {
    named: StringHashMap<NamedInfo>,
    parent: Option<&'parent Env<'parent>>,
}

impl<'parent> Env<'parent> {
    /// The environment as a mathematical value.
    pub closed spec fn model(&self) -> EnvModel
        decreases self,
    {
        EnvModel {
            named: self.named@.map_values(|info: NamedInfo| info@),
            parent: match self.parent {
                Some(parent) => Some(Box::new(parent.model())),
                None => None,
            },
        }
    }

    /// Binds `name` to `value` in the current scope, in place of what the name
    /// stood for there.
    pub fn store_binding(&mut self, name: String, value: Val)
        ensures
            final(self)@ == old(self)@.with_binding(name@, value),
    {
        let ghost before = self.named@;
        let info = NamedInfo::Binding(value);
        self.named.insert(name, info);
        proof {
            assert(self.named@.map_values(|info: NamedInfo| info@) =~= before.map_values(
                |info: NamedInfo| info@,
            ).insert(name@, info@));
        }
    }

    /// Defines the function `name` in the current scope, in place of what the
    /// name stood for there.
    pub fn store_func(&mut self, name: String, params: Vec<String>, body: Statement)
        ensures
            final(self)@ == old(self)@.with_func(name@, name_views(params@), body@),
    {
        let ghost before = self.named@;
        let info = NamedInfo::Func { params, body };
        self.named.insert(name, info);
        proof {
            assert(self.named@.map_values(|info: NamedInfo| info@) =~= before.map_values(
                |info: NamedInfo| info@,
            ).insert(name@, info@));
        }
    }

    /// The value of the binding `name`, looked for in the current scope and
    /// then in each enclosing one. A function of that name is passed over.
    pub fn get_binding(&self, name: &str) -> (res: Result<Val, String>)
        ensures
            match self@.binding(name@) {
                Some(value) => res == Ok::<Val, String>(value),
                None => res matches Err(e) && e@ == (EvalFailure::UndefinedBinding {
                    name: name@,
                }).message(),
            },
    {
        let found = match self.get_named_info(name, false) {
            Some(info) => info.into_binding(),
            None => None,
        };
        match found {
            Some(value) => Ok(value),
            None => Err(undefined_binding(name)),
        }
    }

    /// The parameters and the body of the function `name`, looked for in the
    /// current scope and then in each enclosing one. A binding of that name is
    /// passed over.
    pub fn get_func(&self, name: &str) -> (res: Result<(Vec<String>, Statement), String>)
        ensures
            match self@.func(name@) {
                Some((params, body)) => res matches Ok((names, stmt)) && name_views(names@)
                    == params && stmt@ == body,
                None => res matches Err(e) && e@ == (EvalFailure::UndefinedFunction {
                    name: name@,
                }).message(),
            },
    {
        let found = match self.get_named_info(name, true) {
            Some(info) => info.into_func(),
            None => None,
        };
        match found {
            Some(func) => Ok(func),
            None => Err(undefined_function(name)),
        }
    }

    /// A new scope inside this one, in which nothing is defined yet.
    pub fn create_child(&'parent self) -> (child: Self)
        ensures
            child@ == self@.child(),
    {
        let child = Env { named: StringHashMap::new(), parent: Some(self) };
        proof {
            assert(child.named@.map_values(|info: NamedInfo| info@) =~= Map::empty());
        }
        child
    }

    /// What `name` stands for as a binding (`func` is false) or as a function
    /// (`func` is true) in the nearest scope that holds a definition of that
    /// kind under the name.
    pub fn get_named_info(&self, name: &str, func: bool) -> (res: Option<NamedInfo>)
        ensures
            match self@.find(name@, func) {
                Some(named) => res matches Some(info) && info@ == named,
                None => res is None,
            },
        decreases self,
    {
        let own = match self.named.get(name) {
            Some(info) => if info.is_func() == func {
                Some(info.clone())
            } else {
                None
            },
            None => None,
        };
        match own {
            Some(info) => Some(info),
            None => match self.parent {
                Some(parent) => parent.get_named_info(name, func),
                None => None,
            },
        }
    }
}

impl<'parent> View for Env<'parent> {
    type V = EnvModel;

    closed spec fn view(&self) -> EnvModel {
        self.model()
    }
}

impl<'parent> Default for Env<'parent> {
    /// The environment of one scope, in which nothing is defined.
    fn default() -> (res: Self)
        ensures
            res@ == EnvModel::empty(),
    {
        let res = Env { named: StringHashMap::new(), parent: None };
        proof {
            assert(res.named@.map_values(|info: NamedInfo| info@) =~= Map::empty());
        }
        res
    }
}

} // verus!
