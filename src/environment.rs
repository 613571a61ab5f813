use vstd::prelude::*;
use vstd::string::*;
use std::rc::Rc;
use crate::object::{Object, ObjV};

verus! {

/// A persistent environment of runtime values: a list of bindings that
/// shares its tail with every environment it was made from.
#[derive(Debug)]
pub enum Environment {
    Node(String, Object, Rc<Environment>),
    Empty,
}

/// The model of an environment: the most recent binding first.
pub enum EnvV {
    Node(Seq<char>, ObjV, Box<EnvV>),
    Empty,
}

impl Environment {
    /// The model of this environment.
    pub open spec fn model(&self) -> EnvV
        decreases self,
    {
        match self {
            Environment::Node(x, v, rest) => EnvV::Node(x@, v.model(), Box::new((**rest).model())),
            Environment::Empty => EnvV::Empty,
        }
    }
}

impl View for Environment {
    type V = EnvV;

    open spec fn view(&self) -> EnvV {
        self.model()
    }
}

/// The value bound most recently to `x`, if any.
pub open spec fn env_lookup(env: EnvV, x: Seq<char>) -> Option<ObjV>
    decreases env,
{
    match env {
        EnvV::Node(y, v, rest) => if y == x {
            Some(v)
        } else {
            env_lookup(*rest, x)
        },
        EnvV::Empty => None,
    }
}

/// Why an evaluation failed.
#[derive(Debug)]
pub enum EvalError {
    /// No binding of this name is in scope.
    UnboundIdentifier(String),
    /// No arm of a `case` matched its value.
    NoMatchingCasePattern,
    /// The function position of an application did not evaluate to a closure.
    AppliedNonClosure,
    /// Closure calls were nested deeper than the evaluator allows.
    DepthExceeded,
}

/// The model of an evaluation failure.
pub enum EvalErrorV {
    UnboundIdentifier(Seq<char>),
    NoMatchingCasePattern,
    AppliedNonClosure,
    DepthExceeded,
}

impl View for EvalError {
    type V = EvalErrorV;

    open spec fn view(&self) -> EvalErrorV {
        match self {
            EvalError::UnboundIdentifier(x) => EvalErrorV::UnboundIdentifier(x@),
            EvalError::NoMatchingCasePattern => EvalErrorV::NoMatchingCasePattern,
            EvalError::AppliedNonClosure => EvalErrorV::AppliedNonClosure,
            EvalError::DepthExceeded => EvalErrorV::DepthExceeded,
        }
    }
}

impl Environment {
    /// The empty environment.
    pub fn new() -> (r: Environment)
        ensures
            r@ == EnvV::Empty,
    {
        Environment::Empty
    }

    /// The value bound most recently to `ident`.
    pub fn lookup(&self, ident: &str) -> (r: Result<&Object, EvalError>)
        ensures
            match env_lookup(self@, ident@) {
                Some(v) => r is Ok && r->Ok_0@ == v,
                None => r is Err && r->Err_0@ == EvalErrorV::UnboundIdentifier(ident@),
            },
    {
        let name = String::from_str(ident);
        match self.find(&name) {
            Some(obj) => Ok(obj),
            None => Err(EvalError::UnboundIdentifier(name)),
        }
    }

    /// The value bound most recently to `name`, if any.
    pub fn find(&self, name: &String) -> (r: Option<&Object>)
        ensures
            match env_lookup(self@, name@) {
                Some(v) => r is Some && r->Some_0@ == v,
                None => r is None,
            },
        decreases self,
    {
        match self {
            Environment::Node(s, obj, inner) => {
                if *s == *name {
                    Some(obj)
                } else {
                    inner.find(name)
                }
            },
            Environment::Empty => None,
        }
    }

    /// This environment extended with `ident` bound to `obj`; `self` is shared, not copied.
    pub fn insert(&self, ident: &str, obj: Object) -> (r: Environment)
        ensures
            r@ == EnvV::Node(ident@, obj@, Box::new(self@)),
    {
        Environment::Node(String::from_str(ident), obj, Rc::new(self.copy()))
    }

    /// A copy of this environment that shares its tail.
    pub fn copy(&self) -> (r: Environment)
        ensures
            r@ == self@,
    {
        match self {
            Environment::Node(s, obj, inner) => Environment::Node(s.clone(), obj.copy(), Rc::clone(inner)),
            Environment::Empty => Environment::Empty,
        }
    }
}

impl Default for Environment {
    fn default() -> (r: Environment)
        ensures
            r@ == EnvV::Empty,
    {
        Environment::new()
    }
}

} // verus!
