use vstd::prelude::*;
use std::rc::Rc;
use crate::ast::{Atom, AtomV, Expr, ExprV, Pattern, PatV};
use crate::environment::{Environment, EnvV, EvalError, EvalErrorV, env_lookup};
use crate::object::{Object, ObjV, objs_model, obj_fields_model, lemma_object_model};

verus! {

broadcast use {vstd::seq::group_seq_axioms, vstd::std_specs::vec::axiom_vec_index_decreases};

/// How deeply closure calls may nest in one evaluation.
pub const CALL_DEPTH: u64 = 0xffff_ffff_ffff_ffff;

/// The value of a constant.
pub open spec fn atom_value(a: AtomV) -> ObjV {
    match a {
        AtomV::Unit => ObjV::Unit,
        AtomV::Bool(b) => ObjV::Bool(b),
        AtomV::Int(i) => ObjV::Int(i),
        AtomV::Str(s) => ObjV::Str(s),
    }
}

/// Whether a value is the constant `a`.
pub open spec fn atom_matches(a: AtomV, v: ObjV) -> bool {
    match (a, v) {
        (AtomV::Unit, ObjV::Unit) => true,
        (AtomV::Bool(x), ObjV::Bool(y)) => x == y,
        (AtomV::Int(x), ObjV::Int(y)) => x == y,
        (AtomV::Str(x), ObjV::Str(y)) => x == y,
        _ => false,
    }
}

/// Matches value `v` against pattern `p`; on success, `env` extended with the pattern's bindings.
pub open spec fn pat_match(env: EnvV, p: PatV, v: ObjV) -> Option<EnvV>
    decreases p, 0nat,
{
    match p {
        PatV::Ident(x) => Some(EnvV::Node(x, v, Box::new(env))),
        PatV::Wildcard => Some(env),
        PatV::Atom(a) => if atom_matches(a, v) {
            Some(env)
        } else {
            None
        },
        PatV::Tuple(ps) => match v {
            ObjV::Tuple(vs) => if ps.len() == vs.len() {
                pats_match(env, ps, vs, 0)
            } else {
                None
            },
            _ => None,
        },
        PatV::Record(fs) => match v {
            ObjV::Record(vs) => if fs.len() == vs.len() {
                fields_match(env, fs, vs, 0)
            } else {
                None
            },
            _ => None,
        },
    }
}

/// Matches `vs[i..]` against `ps[i..]` position by position, left to right.
pub open spec fn pats_match(env: EnvV, ps: Seq<PatV>, vs: Seq<ObjV>, i: nat) -> Option<EnvV>
    decreases ps, ps.len() - i,
{
    if i >= ps.len() || i >= vs.len() {
        Some(env)
    } else {
        match pat_match(env, ps[i as int], vs[i as int]) {
            Some(env2) => pats_match(env2, ps, vs, i + 1),
            None => None,
        }
    }
}

/// Matches the values of `vs[i..]` against the patterns of `fs[i..]` by position, left to right.
pub open spec fn fields_match(env: EnvV, fs: Seq<(Seq<char>, PatV)>, vs: Seq<(Seq<char>, ObjV)>, i: nat) -> Option<
    EnvV,
>
    decreases fs, fs.len() - i,
{
    if i >= fs.len() || i >= vs.len() {
        Some(env)
    } else {
        match pat_match(env, fs[i as int].1, vs[i as int].1) {
            Some(env2) => fields_match(env2, fs, vs, i + 1),
            None => None,
        }
    }
}

/// The first arm, from `i` on, whose pattern matches `v`, with the environment it makes.
pub open spec fn first_match(env: EnvV, v: ObjV, arms: Seq<(PatV, ExprV)>, i: nat) -> Option<(EnvV, nat)>
    decreases arms.len() - i,
{
    if i >= arms.len() {
        None
    } else {
        match pat_match(env, arms[i as int].0, v) {
            Some(env2) => Some((env2, i)),
            None => first_match(env, v, arms, i + 1),
        }
    }
}

pub proof fn lemma_first_match(env: EnvV, v: ObjV, arms: Seq<(PatV, ExprV)>, i: nat)
    ensures
        first_match(env, v, arms, i) matches Some(m) ==> i <= m.1 < arms.len(),
    decreases arms.len() - i,
{
    if i < arms.len() {
        lemma_first_match(env, v, arms, i + 1);
    }
}

/// The value of `e` in `env`, with at most `fuel` nested closure calls.
pub open spec fn eval_spec(env: EnvV, e: ExprV, fuel: nat) -> Result<ObjV, EvalErrorV>
    decreases fuel, e, 0nat,
{
    match e {
        ExprV::Atom(a) => Ok(atom_value(a)),
        ExprV::Ident(x) => match env_lookup(env, x) {
            Some(v) => Ok(v),
            None => Err(EvalErrorV::UnboundIdentifier(x)),
        },
        ExprV::Tuple(es) => match eval_list(env, es, 0, fuel) {
            Ok(vs) => Ok(ObjV::Tuple(vs)),
            Err(err) => Err(err),
        },
        ExprV::Record(fs) => match eval_fields(env, fs, 0, fuel) {
            Ok(vs) => Ok(ObjV::Record(vs)),
            Err(err) => Err(err),
        },
        ExprV::Let(bs, body) => match eval_binds(env, bs, 0, fuel) {
            Ok(env2) => eval_spec(env2, *body, fuel),
            Err(err) => Err(err),
        },
        ExprV::Lambda(x, body) => Ok(ObjV::Closure(Box::new(env), x, *body)),
        ExprV::Apply(f, a) => match eval_spec(env, *a, fuel) {
            Err(err) => Err(err),
            Ok(arg) => match eval_spec(env, *f, fuel) {
                Err(err) => Err(err),
                Ok(ObjV::Closure(cenv, x, body)) => if fuel == 0 {
                    Err(EvalErrorV::DepthExceeded)
                } else {
                    eval_spec(EnvV::Node(x, arg, cenv), body, (fuel - 1) as nat)
                },
                Ok(_) => Err(EvalErrorV::AppliedNonClosure),
            },
        },
        ExprV::Case(s, arms) => match eval_spec(env, *s, fuel) {
            Err(err) => Err(err),
            Ok(v) => match first_match(env, v, arms, 0) {
                Some(m) => {
                    proof {
                        lemma_first_match(env, v, arms, 0);
                    }
                    eval_spec(m.0, arms[m.1 as int].1, fuel)
                },
                None => Err(EvalErrorV::NoMatchingCasePattern),
            },
        },
    }
}

/// The values of `es[i..]`, evaluated left to right.
pub open spec fn eval_list(env: EnvV, es: Seq<ExprV>, i: nat, fuel: nat) -> Result<Seq<ObjV>, EvalErrorV>
    decreases fuel, es, es.len() - i,
{
    if i >= es.len() {
        Ok(Seq::empty())
    } else {
        match eval_spec(env, es[i as int], fuel) {
            Err(err) => Err(err),
            Ok(v) => match eval_list(env, es, i + 1, fuel) {
                Ok(vs) => Ok(seq![v] + vs),
                Err(err) => Err(err),
            },
        }
    }
}

/// The named values of `fs[i..]`, evaluated left to right.
pub open spec fn eval_fields(env: EnvV, fs: Seq<(Seq<char>, ExprV)>, i: nat, fuel: nat) -> Result<
    Seq<(Seq<char>, ObjV)>,
    EvalErrorV,
>
    decreases fuel, fs, fs.len() - i,
{
    if i >= fs.len() {
        Ok(Seq::empty())
    } else {
        match eval_spec(env, fs[i as int].1, fuel) {
            Err(err) => Err(err),
            Ok(v) => match eval_fields(env, fs, i + 1, fuel) {
                Ok(vs) => Ok(seq![(fs[i as int].0, v)] + vs),
                Err(err) => Err(err),
            },
        }
    }
}

/// `env` extended with the bindings `bs[i..]`, each evaluated where the earlier ones are in scope.
pub open spec fn eval_binds(env: EnvV, bs: Seq<(Seq<char>, ExprV)>, i: nat, fuel: nat) -> Result<EnvV, EvalErrorV>
    decreases fuel, bs, bs.len() - i,
{
    if i >= bs.len() {
        Ok(env)
    } else {
        match eval_spec(env, bs[i as int].1, fuel) {
            Err(err) => Err(err),
            Ok(v) => eval_binds(EnvV::Node(bs[i as int].0, v, Box::new(env)), bs, i + 1, fuel),
        }
    }
}

/// The model of an optional environment.
pub open spec fn opt_env_model(r: Option<Rc<Environment>>) -> Option<EnvV> {
    match r {
        Some(e) => Some((*e)@),
        None => None,
    }
}

/// The model of a result of evaluation.
pub open spec fn eval_result_model(r: Result<Object, EvalError>) -> Result<ObjV, EvalErrorV> {
    match r {
        Ok(v) => Ok(v@),
        Err(e) => Err(e@),
    }
}

fn match_in(env: Rc<Environment>, p: &Pattern, v: &Object) -> (r: Option<Rc<Environment>>)
    ensures
        opt_env_model(r) == pat_match((*env)@, p@, v@),
    decreases p, 0nat,
{
    proof {
        lemma_object_model(v);
    }
    match p {
        Pattern::Ident(x) => Some(Rc::new(Environment::Node(x.clone(), v.copy(), env))),
        Pattern::Wildcard => Some(env),
        Pattern::Atom(a) => {
            let ok = match (a, v) {
                (Atom::Unit, Object::Unit) => true,
                (Atom::Bool(x), Object::Bool(y)) => *x == *y,
                (Atom::Int(x), Object::Int(y)) => *x == *y,
                (Atom::String(x), Object::String(y)) => *x == *y,
                _ => false,
            };
            if ok {
                Some(env)
            } else {
                None
            }
        },
        Pattern::Tuple(ps) => match v {
            Object::Tuple(vs) => {
                if ps.len() == vs.len() {
                    let r = pats_match_in(env, ps, vs, 0);
                    proof {
                        assert(p@->Tuple_0 =~= Seq::new(ps.len() as nat, |i: int| ps@[i]@));
                    }
                    r
                } else {
                    None
                }
            },
            _ => None,
        },
        Pattern::Record(fs) => match v {
            Object::Record(vs) => {
                if fs.len() == vs.len() {
                    let r = fields_match_in(env, fs, vs, 0);
                    proof {
                        assert(p@->Record_0 =~= Seq::new(fs.len() as nat, |i: int| (fs@[i].0@, fs@[i].1@)));
                    }
                    r
                } else {
                    None
                }
            },
            _ => None,
        },
    }
}

fn pats_match_in(env: Rc<Environment>, ps: &Vec<Pattern>, vs: &Vec<Object>, i: usize) -> (r: Option<
    Rc<Environment>,
>)
    requires
        ps.len() == vs.len(),
        i <= ps.len(),
    ensures
        opt_env_model(r) == pats_match((*env)@, Seq::new(ps.len() as nat, |j: int| ps@[j]@), objs_model(vs@), i as nat),
    decreases ps, ps.len() - i,
{
    if i >= ps.len() {
        return Some(env);
    }
    proof {
        assert(decreases_to!(ps => ps[i as int]));
    }
    match match_in(env, &ps[i], &vs[i]) {
        Some(env2) => pats_match_in(env2, ps, vs, i + 1),
        None => None,
    }
}

fn fields_match_in(env: Rc<Environment>, fs: &Vec<(String, Pattern)>, vs: &Vec<(String, Object)>, i: usize) -> (r:
    Option<Rc<Environment>>)
    requires
        fs.len() == vs.len(),
        i <= fs.len(),
    ensures
        opt_env_model(r) == fields_match(
            (*env)@,
            Seq::new(fs.len() as nat, |j: int| (fs@[j].0@, fs@[j].1@)),
            obj_fields_model(vs@),
            i as nat,
        ),
    decreases fs, fs.len() - i,
{
    if i >= fs.len() {
        return Some(env);
    }
    proof {
        assert(decreases_to!(fs => fs[i as int]));
    }
    match match_in(env, &fs[i].1, &vs[i].1) {
        Some(env2) => fields_match_in(env2, fs, vs, i + 1),
        None => None,
    }
}

/// Matches `obj` against `pat`; on success, `env` extended with the pattern's bindings.
pub fn match_pat(env: &Environment, pat: &Pattern, obj: &Object) -> (r: Option<Environment>)
    ensures
        match r {
            Some(e) => pat_match(env@, pat@, obj@) == Some(e@),
            None => pat_match(env@, pat@, obj@) is None,
        },
{
    match match_in(Rc::new(env.copy()), pat, obj) {
        Some(e) => Some((*e).copy()),
        None => None,
    }
}

/// The value of a constant; constants do not depend on the environment.
pub fn eval_atom(_env: &Environment, atom: Atom) -> (r: Result<Object, EvalError>)
    ensures
        eval_result_model(r) == Ok::<ObjV, EvalErrorV>(atom_value(atom@)),
{
    match atom {
        Atom::Int(i) => Ok(Object::Int(i)),
        Atom::Bool(b) => Ok(Object::Bool(b)),
        Atom::Unit => Ok(Object::Unit),
        Atom::String(s) => Ok(Object::String(s)),
    }
}

/// The value of `expr` in `env`.
pub fn eval(env: &Environment, expr: Expr) -> (r: Result<Object, EvalError>)
    ensures
        eval_result_model(r) == eval_spec(env@, expr@, CALL_DEPTH as nat),
{
    let env = Rc::new(env.copy());
    eval_in(&env, &expr, CALL_DEPTH)
}

fn eval_in(env: &Rc<Environment>, e: &Expr, fuel: u64) -> (r: Result<Object, EvalError>)
    ensures
        eval_result_model(r) == eval_spec((**env)@, e@, fuel as nat),
    decreases fuel, e, 0nat,
{
    match e {
        Expr::Atom(a) => eval_atom(env, a.copy()),
        Expr::Ident(x) => match env.find(x) {
            Some(v) => Ok(v.copy()),
            None => Err(EvalError::UnboundIdentifier(x.clone())),
        },
        Expr::Tuple(es) => {
            let r = eval_list_in(env, es, 0, fuel);
            proof {
                assert(e@->Tuple_0 =~= Seq::new(es.len() as nat, |j: int| es@[j]@));
            }
            match r {
                Ok(vs) => {
                    let o = Object::Tuple(vs);
                    proof {
                        lemma_object_model(&o);
                    }
                    Ok(o)
                },
                Err(err) => Err(err),
            }
        },
        Expr::Record(fs) => {
            let r = eval_fields_in(env, fs, 0, fuel);
            proof {
                assert(e@->Record_0 =~= Seq::new(fs.len() as nat, |j: int| (fs@[j].0@, fs@[j].1@)));
            }
            match r {
                Ok(vs) => {
                    let o = Object::Record(vs);
                    proof {
                        lemma_object_model(&o);
                    }
                    Ok(o)
                },
                Err(err) => Err(err),
            }
        },
        Expr::Let(bs, body) => {
            let r = eval_binds_in(Rc::clone(env), bs, 0, fuel);
            proof {
                assert(e@->Let_0 =~= Seq::new(bs.len() as nat, |j: int| (bs@[j].0@, bs@[j].1@)));
            }
            match r {
                Ok(env2) => eval_in(&env2, body, fuel),
                Err(err) => Err(err),
            }
        },
        Expr::Lambda(x, body) => Ok(Object::Closure(Rc::clone(env), x.clone(), Box::new(body.copy()))),
        Expr::Apply(f, a) => {
            let arg = match eval_in(env, a, fuel) {
                Ok(v) => v,
                Err(err) => return Err(err),
            };
            match eval_in(env, f, fuel) {
                Ok(Object::Closure(cenv, x, body)) => {
                    if fuel == 0 {
                        Err(EvalError::DepthExceeded)
                    } else {
                        let env2 = Rc::new(Environment::Node(x, arg, cenv));
                        eval_in(&env2, &body, fuel - 1)
                    }
                },
                Ok(other) => {
                    proof {
                        assert(!(other@ is Closure));
                    }
                    Err(EvalError::AppliedNonClosure)
                },
                Err(err) => Err(err),
            }
        },
        Expr::Case(s, arms) => {
            match eval_in(env, s, fuel) {
                Ok(v) => {
                    let r = eval_arms_in(env, &v, arms, 0, fuel);
                    proof {
                        assert(e@->Case_1 =~= Seq::new(arms.len() as nat, |j: int| (arms@[j].0@, arms@[j].1@)));
                    }
                    r
                },
                Err(err) => Err(err),
            }
        },
    }
}

fn eval_arms_in(env: &Rc<Environment>, v: &Object, arms: &Vec<(Pattern, Expr)>, i: usize, fuel: u64) -> (r: Result<
    Object,
    EvalError,
>)
    requires
        i <= arms.len(),
    ensures
        ({
            let ms = Seq::new(arms.len() as nat, |j: int| (arms@[j].0@, arms@[j].1@));
            eval_result_model(r) == match first_match((**env)@, v@, ms, i as nat) {
                Some(m) => eval_spec(m.0, ms[m.1 as int].1, fuel as nat),
                None => Err(EvalErrorV::NoMatchingCasePattern),
            }
        }),
    decreases fuel, arms, arms.len() - i,
{
    if i >= arms.len() {
        return Err(EvalError::NoMatchingCasePattern);
    }
    proof {
        assert(decreases_to!(arms => arms[i as int]));
    }
    match match_in(Rc::clone(env), &arms[i].0, v) {
        Some(env2) => eval_in(&env2, &arms[i].1, fuel),
        None => eval_arms_in(env, v, arms, i + 1, fuel),
    }
}

fn eval_list_in(env: &Rc<Environment>, es: &Vec<Expr>, i: usize, fuel: u64) -> (r: Result<Vec<Object>, EvalError>)
    requires
        i <= es.len(),
    ensures
        match r {
            Ok(vs) => eval_list((**env)@, Seq::new(es.len() as nat, |j: int| es@[j]@), i as nat, fuel as nat)
                == Ok::<Seq<ObjV>, EvalErrorV>(objs_model(vs@)),
            Err(err) => eval_list((**env)@, Seq::new(es.len() as nat, |j: int| es@[j]@), i as nat, fuel as nat)
                == Err::<Seq<ObjV>, EvalErrorV>(err@),
        },
    decreases fuel, es, es.len() - i,
{
    if i >= es.len() {
        let vs: Vec<Object> = Vec::new();
        proof {
            assert(objs_model(vs@) =~= Seq::empty());
        }
        return Ok(vs);
    }
    proof {
        assert(decreases_to!(es => es[i as int]));
    }
    match eval_in(env, &es[i], fuel) {
        Err(err) => Err(err),
        Ok(v) => match eval_list_in(env, es, i + 1, fuel) {
            Ok(mut vs) => {
                let ghost old_vs = vs@;
                vs.insert(0, v);
                proof {
                    assert(objs_model(vs@) =~= seq![v@] + objs_model(old_vs));
                }
                Ok(vs)
            },
            Err(err) => Err(err),
        },
    }
}

fn eval_fields_in(env: &Rc<Environment>, fs: &Vec<(String, Expr)>, i: usize, fuel: u64) -> (r: Result<
    Vec<(String, Object)>,
    EvalError,
>)
    requires
        i <= fs.len(),
    ensures
        ({
            let ms = Seq::new(fs.len() as nat, |j: int| (fs@[j].0@, fs@[j].1@));
            match r {
                Ok(vs) => eval_fields((**env)@, ms, i as nat, fuel as nat) == Ok::<
                    Seq<(Seq<char>, ObjV)>,
                    EvalErrorV,
                >(obj_fields_model(vs@)),
                Err(err) => eval_fields((**env)@, ms, i as nat, fuel as nat) == Err::<
                    Seq<(Seq<char>, ObjV)>,
                    EvalErrorV,
                >(err@),
            }
        }),
    decreases fuel, fs, fs.len() - i,
{
    if i >= fs.len() {
        let vs: Vec<(String, Object)> = Vec::new();
        proof {
            assert(obj_fields_model(vs@) =~= Seq::empty());
        }
        return Ok(vs);
    }
    proof {
        assert(decreases_to!(fs => fs[i as int]));
    }
    match eval_in(env, &fs[i].1, fuel) {
        Err(err) => Err(err),
        Ok(v) => match eval_fields_in(env, fs, i + 1, fuel) {
            Ok(mut vs) => {
                let ghost old_vs = vs@;
                vs.insert(0, (fs[i].0.clone(), v));
                proof {
                    assert(obj_fields_model(vs@) =~= seq![(fs@[i as int].0@, v@)] + obj_fields_model(old_vs));
                }
                Ok(vs)
            },
            Err(err) => Err(err),
        },
    }
}

fn eval_binds_in(env: Rc<Environment>, bs: &Vec<(String, Expr)>, i: usize, fuel: u64) -> (r: Result<
    Rc<Environment>,
    EvalError,
>)
    requires
        i <= bs.len(),
    ensures
        ({
            let ms = Seq::new(bs.len() as nat, |j: int| (bs@[j].0@, bs@[j].1@));
            match r {
                Ok(e2) => eval_binds((*env)@, ms, i as nat, fuel as nat) == Ok::<EnvV, EvalErrorV>((*e2)@),
                Err(err) => eval_binds((*env)@, ms, i as nat, fuel as nat) == Err::<EnvV, EvalErrorV>(err@),
            }
        }),
    decreases fuel, bs, bs.len() - i,
{
    if i >= bs.len() {
        return Ok(env);
    }
    proof {
        assert(decreases_to!(bs => bs[i as int]));
    }
    match eval_in(&env, &bs[i].1, fuel) {
        Err(err) => Err(err),
        Ok(v) => {
            let env2 = Rc::new(Environment::Node(bs[i].0.clone(), v, env));
            eval_binds_in(env2, bs, i + 1, fuel)
        },
    }
}

/// Evaluation is a function of the environment and the term: any two results
/// that `eval` may give for the same inputs have the same model.
pub proof fn lemma_eval_deterministic(env: EnvV, e: ExprV, r1: Result<Object, EvalError>, r2: Result<Object, EvalError>)
    requires
        eval_result_model(r1) == eval_spec(env, e, CALL_DEPTH as nat),
        eval_result_model(r2) == eval_spec(env, e, CALL_DEPTH as nat),
    ensures
        eval_result_model(r1) == eval_result_model(r2),
{
}

} // verus!
