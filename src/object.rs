use vstd::prelude::*;
use crate::ast::ExprV;
use crate::ast::Expr;
use crate::environment::{Environment, EnvV};
use std::rc::Rc;

verus! {

broadcast use vstd::std_specs::vec::axiom_vec_index_decreases;

/// A runtime value.
#[derive(Debug)]
pub enum Object {
    Int(i64),
    Bool(bool),
    Tuple(Vec<Object>),
    Unit,
    String(String),
    Record(Vec<(String, Object)>),
    /// A function value: the environment it was made in, its parameter and its body.
    Closure(Rc<Environment>, String, Box<Expr>),
}

/// The model of a runtime value.
pub enum ObjV {
    Int(i64),
    Bool(bool),
    Tuple(Seq<ObjV>),
    Unit,
    Str(Seq<char>),
    Record(Seq<(Seq<char>, ObjV)>),
    Closure(Box<EnvV>, Seq<char>, ExprV),
}

impl Object {
    /// The model of this value.
    pub open spec fn model(&self) -> ObjV
        decreases self,
    {
        match self {
            Object::Int(i) => ObjV::Int(*i),
            Object::Bool(b) => ObjV::Bool(*b),
            Object::Tuple(vs) => ObjV::Tuple(
                Seq::new(vs.len() as nat, |i: int| if 0 <= i < vs.len() { vs[i].model() } else { ObjV::Unit }),
            ),
            Object::Unit => ObjV::Unit,
            Object::String(s) => ObjV::Str(s@),
            Object::Record(fs) => ObjV::Record(
                Seq::new(
                    fs.len() as nat,
                    |i: int|
                        if 0 <= i < fs.len() {
                            (fs[i].0@, fs[i].1.model())
                        } else {
                            (Seq::empty(), ObjV::Unit)
                        },
                ),
            ),
            Object::Closure(env, x, body) => ObjV::Closure(Box::new((**env).model()), x@, body@),
        }
    }
}

impl View for Object {
    type V = ObjV;

    open spec fn view(&self) -> ObjV {
        self.model()
    }
}

/// The models of a list of values.
pub open spec fn objs_model(vs: Seq<Object>) -> Seq<ObjV> {
    Seq::new(vs.len(), |i: int| vs[i]@)
}

/// The models of a list of named values.
pub open spec fn obj_fields_model(fs: Seq<(String, Object)>) -> Seq<(Seq<char>, ObjV)> {
    Seq::new(fs.len(), |i: int| (fs[i].0@, fs[i].1@))
}

pub proof fn lemma_object_model(o: &Object)
    ensures
        match o {
            Object::Tuple(vs) => o@ == ObjV::Tuple(objs_model(vs@)),
            Object::Record(fs) => o@ == ObjV::Record(obj_fields_model(fs@)),
            _ => true,
        },
{
    match o {
        Object::Tuple(vs) => {
            let m = o.model();
            assert(m matches ObjV::Tuple(s) && s =~= objs_model(vs@));
        },
        Object::Record(fs) => {
            let m = o.model();
            assert(m matches ObjV::Record(s) && s =~= obj_fields_model(fs@));
        },
        _ => {},
    }
}

impl Object {
    /// A copy of this value; a closure shares its environment.
    pub fn copy(&self) -> (r: Object)
        ensures
            r@ == self@,
        decreases self,
    {
        proof {
            lemma_object_model(self);
        }
        let r = match self {
            Object::Int(i) => Object::Int(*i),
            Object::Bool(b) => Object::Bool(*b),
            Object::Unit => Object::Unit,
            Object::String(s) => Object::String(s.clone()),
            Object::Tuple(vs) => Object::Tuple(objs_copy(vs)),
            Object::Record(fs) => Object::Record(obj_fields_copy(fs)),
            Object::Closure(env, x, body) => Object::Closure(Rc::clone(env), x.clone(), Box::new(body.copy())),
        };
        proof {
            lemma_object_model(&r);
        }
        r
    }
}

fn objs_copy(vs: &Vec<Object>) -> (r: Vec<Object>)
    ensures
        objs_model(r@) == objs_model(vs@),
    decreases vs,
{
    let mut out: Vec<Object> = Vec::new();
    let mut i: usize = 0;
    while i < vs.len()
        invariant
            0 <= i <= vs.len(),
            out.len() == i,
            forall|j: int| 0 <= j < i ==> out@[j]@ == vs@[j]@,
        decreases vs.len() - i,
    {
        proof {
            assert(decreases_to!(vs => vs[i as int]));
        }
        out.push(vs[i].copy());
        i = i + 1;
    }
    proof {
        assert(objs_model(out@) =~= objs_model(vs@));
    }
    out
}

fn obj_fields_copy(fs: &Vec<(String, Object)>) -> (r: Vec<(String, Object)>)
    ensures
        obj_fields_model(r@) == obj_fields_model(fs@),
    decreases fs,
{
    let mut out: Vec<(String, Object)> = Vec::new();
    let mut i: usize = 0;
    while i < fs.len()
        invariant
            0 <= i <= fs.len(),
            out.len() == i,
            forall|j: int| 0 <= j < i ==> out@[j].0@ == fs@[j].0@ && out@[j].1@ == fs@[j].1@,
        decreases fs.len() - i,
    {
        proof {
            assert(decreases_to!(fs => fs[i as int]));
        }
        out.push((fs[i].0.clone(), fs[i].1.copy()));
        i = i + 1;
    }
    proof {
        assert(obj_fields_model(out@) =~= obj_fields_model(fs@));
    }
    out
}

} // verus!
