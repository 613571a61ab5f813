use vstd::prelude::*;
use vstd::string::*;
use crate::ast::{Atom, AtomV, Expr, ExprV, Pattern, PatV, Ty, TyV, tys_model, fields_model, lemma_ty_model};
use crate::ty::{ty_fv, ty_apply, scheme_fv, scheme_apply, scheme_apply_mut, names_model, contains_name, Scheme, Substitution, Constraint};
use crate::unify::{UnifyError, UnifyErrorV, unify_spec, subs_model, cs_model, unify};
use crate::name_source::{NameSource, fresh_name};

verus! {

broadcast use {vstd::seq::group_seq_axioms, vstd::std_specs::vec::axiom_vec_index_decreases};

/// The model of a scheme: its quantified variables and its body.
pub type SchemeV = (Seq<Seq<char>>, TyV);

/// The first position of a binding of `x` in an association list, if any.
pub open spec fn assoc_find<V>(m: Seq<(Seq<char>, V)>, x: Seq<char>) -> Option<int>
    decreases m.len(),
{
    if m.len() == 0 {
        None
    } else {
        match assoc_find(m.drop_last(), x) {
            Some(i) => Some(i),
            None => if m.last().0 == x {
                Some(m.len() - 1)
            } else {
                None
            },
        }
    }
}

/// The value bound to `x` in an association list, if any.
pub open spec fn assoc_get<V>(m: Seq<(Seq<char>, V)>, x: Seq<char>) -> Option<V> {
    match assoc_find(m, x) {
        Some(i) => Some(m[i].1),
        None => None,
    }
}

/// An association list with `x` bound to `v`: the binding of `x` is replaced, or one is added at the end.
pub open spec fn assoc_insert<V>(m: Seq<(Seq<char>, V)>, x: Seq<char>, v: V) -> Seq<(Seq<char>, V)> {
    match assoc_find(m, x) {
        Some(i) => m.update(i, (x, v)),
        None => m.push((x, v)),
    }
}

/// The free type variables of a type environment, entry by entry.
pub open spec fn env_fv(m: Seq<(Seq<char>, SchemeV)>) -> Seq<Seq<char>>
    decreases m.len(),
{
    if m.len() == 0 {
        Seq::empty()
    } else {
        env_fv(m.drop_last()) + scheme_fv(m.last().1.0, m.last().1.1)
    }
}

/// The distinct names of `s` that `env_vars` does not hold, in order of first occurrence.
pub open spec fn gen_vars(s: Seq<Seq<char>>, env_vars: Seq<Seq<char>>) -> Seq<Seq<char>>
    decreases s.len(),
{
    if s.len() == 0 {
        Seq::empty()
    } else {
        let prev = gen_vars(s.drop_last(), env_vars);
        if env_vars.contains(s.last()) || prev.contains(s.last()) {
            prev
        } else {
            prev.push(s.last())
        }
    }
}

/// The scheme that quantifies the variables of `t` that are not free in `env`.
pub open spec fn generalize_spec(env: Seq<(Seq<char>, SchemeV)>, t: TyV) -> SchemeV {
    (gen_vars(ty_fv(t), env_fv(env)), t)
}

/// Why inference failed.
pub enum InferErrorV {
    UnboundIdentifier(Seq<char>),
    Unify(UnifyErrorV),
    NamesExhausted,
}

/// The body of a scheme with its variables `bound` renamed to fresh ones, drawn from counter `n` on.
pub open spec fn instantiate_spec(bound: Seq<Seq<char>>, body: TyV, n: nat) -> TyV
    decreases bound.len(),
{
    if bound.len() == 0 {
        body
    } else {
        let last = bound.last();
        ty_apply(
            instantiate_spec(bound.drop_last(), body, n),
            last,
            TyV::Var(fresh_name(last, (n + bound.len() - 1) as nat)),
        )
    }
}

/// The base type of a constant.
pub open spec fn atom_type(a: AtomV) -> TyV {
    match a {
        AtomV::Unit => TyV::Unit,
        AtomV::Bool(_) => TyV::Bool,
        AtomV::Int(_) => TyV::Int,
        AtomV::Str(_) => TyV::Str,
    }
}

/// The constraints that pattern `p` puts on a scrutinee of type `t`, and the counter after.
pub open spec fn unify_pat_spec(n: nat, t: TyV, p: PatV) -> (Result<Seq<(TyV, TyV)>, InferErrorV>, nat)
    decreases p, 0nat,
{
    match p {
        PatV::Atom(a) => (Ok(seq![(t, atom_type(a))]), n),
        PatV::Ident(x) => (Ok(seq![(t, TyV::Var(x))]), n),
        PatV::Wildcard => (Ok(Seq::empty()), n),
        PatV::Tuple(ps) => {
            let (r, n2) = unify_pats_spec(n, ps, 0);
            match r {
                Ok((cs, vars)) => (Ok(cs.push((t, TyV::Tuple(vars)))), n2),
                Err(e) => (Err(e), n2),
            }
        },
        PatV::Record(fs) => {
            let (r, n2) = unify_pat_fields_spec(n, fs, 0);
            match r {
                Ok((cs, vars)) => (Ok(cs.push((t, TyV::Record(vars)))), n2),
                Err(e) => (Err(e), n2),
            }
        },
    }
}

/// For `ps[i..]`: the constraints, a fresh variable for each pattern, and the counter after.
pub open spec fn unify_pats_spec(n: nat, ps: Seq<PatV>, i: nat) -> (
    Result<(Seq<(TyV, TyV)>, Seq<TyV>), InferErrorV>,
    nat,
)
    decreases ps, ps.len() - i,
{
    if i >= ps.len() {
        (Ok((Seq::empty(), Seq::empty())), n)
    } else if n >= u64::MAX {
        (Err(InferErrorV::NamesExhausted), n)
    } else {
        let v = TyV::Var(fresh_name(seq!['c', 'a', 's', 'e'], n));
        let (r1, n1) = unify_pat_spec(n + 1, v, ps[i as int]);
        match r1 {
            Err(e) => (Err(e), n1),
            Ok(cs1) => {
                let (r2, n2) = unify_pats_spec(n1, ps, i + 1);
                match r2 {
                    Err(e) => (Err(e), n2),
                    Ok((cs2, vs2)) => (Ok((cs1 + cs2, seq![v] + vs2)), n2),
                }
            },
        }
    }
}

/// For `fs[i..]`: the constraints, a fresh variable for each field, and the counter after.
pub open spec fn unify_pat_fields_spec(n: nat, fs: Seq<(Seq<char>, PatV)>, i: nat) -> (
    Result<(Seq<(TyV, TyV)>, Seq<(Seq<char>, TyV)>), InferErrorV>,
    nat,
)
    decreases fs, fs.len() - i,
{
    if i >= fs.len() {
        (Ok((Seq::empty(), Seq::empty())), n)
    } else if n >= u64::MAX {
        (Err(InferErrorV::NamesExhausted), n)
    } else {
        let v = TyV::Var(fresh_name(seq!['c', 'a', 's', 'e'], n));
        let (r1, n1) = unify_pat_spec(n + 1, v, fs[i as int].1);
        match r1 {
            Err(e) => (Err(e), n1),
            Ok(cs1) => {
                let (r2, n2) = unify_pat_fields_spec(n1, fs, i + 1);
                match r2 {
                    Err(e) => (Err(e), n2),
                    Ok((cs2, vs2)) => (Ok((cs1 + cs2, seq![(fs[i as int].0, v)] + vs2)), n2),
                }
            },
        }
    }
}

/// The model of a solution map: fresh variable names and what they were solved to.
pub type GlobalSubV = Seq<(Seq<char>, TyV)>;

/// The model of a type environment: names and their schemes.
pub type EnvModel = Seq<(Seq<char>, SchemeV)>;

/// What an inference step gives: its result, the solution map after, and the name counter after.
pub type InferOut<T> = (Result<T, InferErrorV>, GlobalSubV, nat);

/// Variable `x` as far as the solution map `gs` resolves it.
pub open spec fn resolve(gs: GlobalSubV, x: Seq<char>) -> TyV {
    match assoc_get(gs, x) {
        Some(t) => t,
        None => TyV::Var(x),
    }
}

/// The solution map with each substitution of `subs` recorded, in order.
pub open spec fn gs_fold(gs: GlobalSubV, subs: Seq<(Seq<char>, TyV)>) -> GlobalSubV
    decreases subs.len(),
{
    if subs.len() == 0 {
        gs
    } else {
        assoc_insert(gs_fold(gs, subs.drop_last()), subs.last().0, subs.last().1)
    }
}

/// The environment with each substitution of `subs` bound, in order, as a generalized scheme.
pub open spec fn env_fold(env: EnvModel, subs: Seq<(Seq<char>, TyV)>) -> EnvModel
    decreases subs.len(),
{
    if subs.len() == 0 {
        env
    } else {
        let e = env_fold(env, subs.drop_last());
        assoc_insert(e, subs.last().0, generalize_spec(e, subs.last().1))
    }
}

/// The name seed of a fresh application result.
pub open spec fn arg_seed() -> Seq<char> {
    seq!['a', 'r', 'g']
}

/// The name seed of a fresh `case` variable.
pub open spec fn case_seed() -> Seq<char> {
    seq!['c', 'a', 's', 'e']
}

/// The type of `e` in `env`, with solution map `gs` and name counter `n` threaded through.
pub open spec fn infer_spec(gs: GlobalSubV, n: nat, env: EnvModel, e: ExprV) -> InferOut<TyV>
    decreases e, 0nat,
{
    match e {
        ExprV::Atom(a) => (Ok(atom_type(a)), gs, n),
        ExprV::Ident(x) => match assoc_get(env, x) {
            None => (Err(InferErrorV::UnboundIdentifier(x)), gs, n),
            Some(sch) => if n + sch.0.len() > u64::MAX {
                (Err(InferErrorV::NamesExhausted), gs, n)
            } else {
                (Ok(instantiate_spec(sch.0, sch.1, n)), gs, n + sch.0.len())
            },
        },
        ExprV::Let(bs, body) => {
            let (r, gs1, n1) = infer_binds(gs, n, env, bs, 0);
            match r {
                Err(err) => (Err(err), gs1, n1),
                Ok(env1) => infer_spec(gs1, n1, env1, *body),
            }
        },
        ExprV::Lambda(x, body) => if n >= u64::MAX {
            (Err(InferErrorV::NamesExhausted), gs, n)
        } else {
            let v = fresh_name(x, n);
            let env1 = assoc_insert(env, x, (Seq::empty(), TyV::Var(v)));
            let (r, gs1, n1) = infer_spec(gs, n + 1, env1, *body);
            match r {
                Err(err) => (Err(err), gs1, n1),
                Ok(rhs) => (Ok(TyV::Fun(Box::new(resolve(gs1, v)), Box::new(rhs))), gs1, n1),
            }
        },
        ExprV::Apply(f, a) => {
            let (r1, gs1, n1) = infer_spec(gs, n, env, *f);
            match r1 {
                Err(err) => (Err(err), gs1, n1),
                Ok(t1) => {
                    let (r2, gs2, n2) = infer_spec(gs1, n1, env, *a);
                    match r2 {
                        Err(err) => (Err(err), gs2, n2),
                        Ok(t2) => if n2 >= u64::MAX {
                            (Err(InferErrorV::NamesExhausted), gs2, n2)
                        } else {
                            let v = fresh_name(arg_seed(), n2);
                            match unify_spec(seq![(t1, TyV::Fun(Box::new(t2), Box::new(TyV::Var(v))))]) {
                                Err(ue) => (Err(InferErrorV::Unify(ue)), gs2, n2 + 1),
                                Ok(subs) => {
                                    let gs3 = gs_fold(gs2, subs);
                                    (Ok(resolve(gs3, v)), gs3, n2 + 1)
                                },
                            }
                        },
                    }
                },
            }
        },
        ExprV::Tuple(es) => {
            let (r, gs1, n1) = infer_list(gs, n, env, es, 0);
            match r {
                Err(err) => (Err(err), gs1, n1),
                Ok(ts) => (Ok(TyV::Tuple(ts)), gs1, n1),
            }
        },
        ExprV::Record(fs) => {
            let (r, gs1, n1) = infer_fields(gs, n, env, fs, 0);
            match r {
                Err(err) => (Err(err), gs1, n1),
                Ok(ts) => (Ok(TyV::Record(ts)), gs1, n1),
            }
        },
        ExprV::Case(s, arms) => {
            let (r, gs1, n1) = infer_spec(gs, n, env, *s);
            match r {
                Err(err) => (Err(err), gs1, n1),
                Ok(t) => if n1 >= u64::MAX {
                    (Err(InferErrorV::NamesExhausted), gs1, n1)
                } else {
                    let v = fresh_name(case_seed(), n1);
                    let (r2, gs2, n2) = infer_arms(gs1, n1 + 1, env, t, v, arms, 0);
                    match r2 {
                        Err(err) => (Err(err), gs2, n2),
                        Ok(_) => (Ok(resolve(gs2, v)), gs2, n2),
                    }
                },
            }
        },
    }
}

/// The environment extended with the bindings `bs[i..]`, each generalized in turn.
pub open spec fn infer_binds(gs: GlobalSubV, n: nat, env: EnvModel, bs: Seq<(Seq<char>, ExprV)>, i: nat) -> InferOut<
    EnvModel,
>
    decreases bs, bs.len() - i,
{
    if i >= bs.len() {
        (Ok(env), gs, n)
    } else {
        let (r, gs1, n1) = infer_spec(gs, n, env, bs[i as int].1);
        match r {
            Err(err) => (Err(err), gs1, n1),
            Ok(t) => infer_binds(gs1, n1, assoc_insert(env, bs[i as int].0, generalize_spec(env, t)), bs, i + 1),
        }
    }
}

/// The types of `es[i..]`, inferred left to right.
pub open spec fn infer_list(gs: GlobalSubV, n: nat, env: EnvModel, es: Seq<ExprV>, i: nat) -> InferOut<Seq<TyV>>
    decreases es, es.len() - i,
{
    if i >= es.len() {
        (Ok(Seq::empty()), gs, n)
    } else {
        let (r, gs1, n1) = infer_spec(gs, n, env, es[i as int]);
        match r {
            Err(err) => (Err(err), gs1, n1),
            Ok(t) => {
                let (r2, gs2, n2) = infer_list(gs1, n1, env, es, i + 1);
                match r2 {
                    Err(err) => (Err(err), gs2, n2),
                    Ok(ts) => (Ok(seq![t] + ts), gs2, n2),
                }
            },
        }
    }
}

/// The named types of `fs[i..]`, inferred left to right.
pub open spec fn infer_fields(gs: GlobalSubV, n: nat, env: EnvModel, fs: Seq<(Seq<char>, ExprV)>, i: nat) -> InferOut<
    Seq<(Seq<char>, TyV)>,
>
    decreases fs, fs.len() - i,
{
    if i >= fs.len() {
        (Ok(Seq::empty()), gs, n)
    } else {
        let (r, gs1, n1) = infer_spec(gs, n, env, fs[i as int].1);
        match r {
            Err(err) => (Err(err), gs1, n1),
            Ok(t) => {
                let (r2, gs2, n2) = infer_fields(gs1, n1, env, fs, i + 1);
                match r2 {
                    Err(err) => (Err(err), gs2, n2),
                    Ok(ts) => (Ok(seq![(fs[i as int].0, t)] + ts), gs2, n2),
                }
            },
        }
    }
}

/// Checks the arms `arms[i..]` of a `case` on a scrutinee of type `t`, whose result variable is `v`.
pub open spec fn infer_arms(
    gs: GlobalSubV,
    n: nat,
    env: EnvModel,
    t: TyV,
    v: Seq<char>,
    arms: Seq<(PatV, ExprV)>,
    i: nat,
) -> InferOut<()>
    decreases arms, arms.len() - i,
{
    if i >= arms.len() {
        (Ok(()), gs, n)
    } else {
        let (pr, n1) = unify_pat_spec(n, t, arms[i as int].0);
        match pr {
            Err(err) => (Err(err), gs, n1),
            Ok(cs) => match unify_spec(cs) {
                Err(ue) => (Err(InferErrorV::Unify(ue)), gs, n1),
                Ok(psubs) => {
                    let gs1 = gs_fold(gs, psubs);
                    let env1 = env_fold(env, psubs);
                    let result_ty = resolve(gs1, v);
                    let (r, gs2, n2) = infer_spec(gs1, n1, env1, arms[i as int].1);
                    match r {
                        Err(err) => (Err(err), gs2, n2),
                        Ok(et) => match unify_spec(seq![(et, result_ty)]) {
                            Err(ue) => (Err(InferErrorV::Unify(ue)), gs2, n2),
                            Ok(esubs) => infer_arms(gs_fold(gs2, esubs), n2, env, t, v, arms, i + 1),
                        },
                    }
                },
            },
        }
    }
}

pub proof fn lemma_assoc_find<V>(m: Seq<(Seq<char>, V)>, x: Seq<char>)
    ensures
        match assoc_find(m, x) {
            Some(i) => 0 <= i < m.len() && m[i].0 == x && forall|j: int| 0 <= j < i ==> m[j].0 != x,
            None => forall|j: int| 0 <= j < m.len() ==> m[j].0 != x,
        },
    decreases m.len(),
{
    if m.len() > 0 {
        let d = m.drop_last();
        lemma_assoc_find(d, x);
        assert forall|j: int| 0 <= j < d.len() implies d[j] == m[j] by {}
    }
}

/// The first position of an entry named `x`, if any.
pub(crate) fn find_key<T>(v: &Vec<(String, T)>, x: &String) -> (r: Option<usize>)
    ensures
        match r {
            Some(i) => i < v.len() && v@[i as int].0@ == x@ && forall|j: int| 0 <= j < i ==> v@[j].0@ != x@,
            None => forall|j: int| 0 <= j < v.len() ==> v@[j].0@ != x@,
        },
{
    let mut i: usize = 0;
    while i < v.len()
        invariant
            0 <= i <= v.len(),
            forall|j: int| 0 <= j < i ==> v@[j].0@ != x@,
        decreases v.len() - i,
    {
        if v[i].0 == *x {
            return Some(i);
        }
        i = i + 1;
    }
    None
}

/// The model of a scheme.
pub open spec fn scheme_model(s: Scheme) -> SchemeV {
    (names_model(s.0@), s.1@)
}

/// A copy of a list of names.
pub fn names_copy(v: &Vec<String>) -> (r: Vec<String>)
    ensures
        names_model(r@) == names_model(v@),
{
    let mut out: Vec<String> = Vec::new();
    let mut i: usize = 0;
    while i < v.len()
        invariant
            0 <= i <= v.len(),
            out.len() == i,
            forall|j: int| 0 <= j < i ==> out@[j]@ == v@[j]@,
        decreases v.len() - i,
    {
        out.push(v[i].clone());
        i = i + 1;
    }
    proof {
        assert(names_model(out@) =~= names_model(v@));
    }
    out
}

/// A copy of a scheme.
pub fn scheme_copy(s: &Scheme) -> (r: Scheme)
    ensures
        scheme_model(r) == scheme_model(*s),
{
    (names_copy(&s.0), crate::ty::ty_copy(&s.1))
}

/// A type environment: names bound to schemes, each name at most once.
#[derive(Debug)]
pub struct Env {
    entries: Vec<(String, Scheme)>,
}

/// The models of the entries of a type environment.
pub open spec fn entries_model(v: Seq<(String, Scheme)>) -> EnvModel {
    Seq::new(v.len(), |i: int| (v[i].0@, scheme_model(v[i].1)))
}

impl View for Env {
    type V = EnvModel;

    closed spec fn view(&self) -> EnvModel {
        entries_model(self.entries@)
    }
}

impl Env {
    /// The environment that binds nothing.
    pub fn new() -> (r: Env)
        ensures
            r@ == Seq::<(Seq<char>, SchemeV)>::empty(),
    {
        let r = Env { entries: Vec::new() };
        proof {
            assert(r@ =~= Seq::<(Seq<char>, SchemeV)>::empty());
        }
        r
    }

    /// The scheme bound to `x`, if any.
    pub fn get(&self, x: &String) -> (r: Option<&Scheme>)
        ensures
            match assoc_get(self@, x@) {
                Some(s) => r is Some && scheme_model(*r->Some_0) == s,
                None => r is None,
            },
    {
        proof {
            lemma_assoc_find(self@, x@);
        }
        let found = find_key(&self.entries, x);
        proof {
            assert forall|j: int| 0 <= j < self.entries.len() implies self@[j].0 == self.entries@[j].0@ by {}
        }
        match found {
            Some(i) => {
                proof {
                    let k = assoc_find(self@, x@);
                    assert(self@[i as int].0 == x@);
                    if let Some(k) = k {
                        assert(self@[k].0 == x@);
                        assert(k == i);
                    }
                    assert(k == Some(i as int));
                }
                Some(&self.entries[i].1)
            },
            None => None,
        }
    }

    /// Binds `x` to `s`, replacing an earlier binding of `x`.
    pub fn insert(&mut self, x: String, s: Scheme)
        ensures
            final(self)@ == assoc_insert(old(self)@, x@, scheme_model(s)),
    {
        proof {
            lemma_assoc_find(self@, x@);
        }
        let ghost m = scheme_model(s);
        let ghost xm = x@;
        let found = find_key(&self.entries, &x);
        proof {
            assert forall|j: int| 0 <= j < self.entries.len() implies self@[j].0 == self.entries@[j].0@ by {}
            let k = assoc_find(self@, x@);
            match found {
                Some(i) => {
                    assert(self@[i as int].0 == x@);
                    if let Some(k) = k {
                        assert(self@[k].0 == x@);
                    }
                    assert(k == Some(i as int));
                },
                None => {
                    if let Some(k) = k {
                        assert(self@[k].0 == x@);
                        assert(self.entries@[k].0@ == x@);
                    }
                    assert(k is None);
                },
            }
        }
        match found {
            Some(i) => {
                let ghost old_entries = self.entries@;
                self.entries.set(i, (x, s));
                proof {
                    assert(self@ =~= entries_model(old_entries).update(i as int, (xm, m)));
                }
            },
            None => {
                let ghost old_entries = self.entries@;
                self.entries.push((x, s));
                proof {
                    assert(self@ =~= entries_model(old_entries).push((xm, m)));
                }
            },
        }
    }

    /// A copy of this environment.
    pub fn copy(&self) -> (r: Env)
        ensures
            r@ == self@,
    {
        let mut out: Vec<(String, Scheme)> = Vec::new();
        let mut i: usize = 0;
        while i < self.entries.len()
            invariant
                0 <= i <= self.entries.len(),
                out.len() == i,
                forall|j: int|
                    0 <= j < i ==> out@[j].0@ == self.entries@[j].0@ && scheme_model(out@[j].1) == scheme_model(
                        self.entries@[j].1,
                    ),
            decreases self.entries.len() - i,
        {
            out.push((self.entries[i].0.clone(), scheme_copy(&self.entries[i].1)));
            i = i + 1;
        }
        let r = Env { entries: out };
        proof {
            assert(r@ =~= self@);
        }
        r
    }

    /// Every scheme of the environment with the substitution applied, in place.
    pub fn apply_mut(&mut self, sub: &Substitution)
        ensures
            final(self)@ == Seq::new(
                old(self)@.len(),
                |i: int|
                    (
                        old(self)@[i].0,
                        (old(self)@[i].1.0, scheme_apply(old(self)@[i].1.0, old(self)@[i].1.1, sub.0@, sub.1@)),
                    ),
            ),
    {
        let ghost orig = self.entries@;
        let mut i: usize = 0;
        while i < self.entries.len()
            invariant
                0 <= i <= self.entries.len(),
                self.entries.len() == orig.len(),
                forall|j: int|
                    0 <= j < i ==> self.entries@[j].0 == orig[j].0 && self.entries@[j].1.0 == orig[j].1.0
                        && self.entries@[j].1.1@ == scheme_apply(
                        names_model(orig[j].1.0@),
                        orig[j].1.1@,
                        sub.0@,
                        sub.1@,
                    ),
                forall|j: int| i <= j < self.entries.len() ==> self.entries@[j] == orig[j],
            decreases self.entries.len() - i,
        {
            scheme_apply_mut(&mut self.entries[i].1, sub);
            i = i + 1;
        }
        proof {
            assert(self@ =~= Seq::new(
                entries_model(orig).len(),
                |i: int|
                    (
                        entries_model(orig)[i].0,
                        (
                            entries_model(orig)[i].1.0,
                            scheme_apply(entries_model(orig)[i].1.0, entries_model(orig)[i].1.1, sub.0@, sub.1@),
                        ),
                    ),
            ));
        }
    }

    /// The free type variables of the environment, entry by entry.
    pub fn fv(&self) -> (r: Vec<String>)
        ensures
            names_model(r@) == env_fv(self@),
    {
        let mut out: Vec<String> = Vec::new();
        let mut i: usize = 0;
        proof {
            assert(self@.take(0) =~= Seq::<(Seq<char>, SchemeV)>::empty());
            assert(names_model(out@) =~= Seq::<Seq<char>>::empty());
        }
        while i < self.entries.len()
            invariant
                0 <= i <= self.entries.len(),
                names_model(out@) == env_fv(self@.take(i as int)),
            decreases self.entries.len() - i,
        {
            let mut more = crate::ty::FreeVars::fv(&self.entries[i].1);
            let ghost o0 = out@;
            out.append(&mut more);
            proof {
                assert(self@.take(i + 1).drop_last() =~= self@.take(i as int));
                assert(names_model(out@) =~= names_model(o0) + scheme_fv(
                    names_model(self.entries@[i as int].1.0@),
                    self.entries@[i as int].1.1@,
                ));
            }
            i = i + 1;
        }
        proof {
            assert(self@.take(self.entries.len() as int) =~= self@);
        }
        out
    }
}

/// The solution found so far in one inference: fresh variable names and their types.
#[derive(Debug)]
pub struct GlobalSub {
    entries: Vec<(String, Ty)>,
}

impl View for GlobalSub {
    type V = GlobalSubV;

    closed spec fn view(&self) -> GlobalSubV {
        fields_model(self.entries@)
    }
}

impl GlobalSub {
    /// The empty solution.
    pub fn new() -> (r: GlobalSub)
        ensures
            r@ == Seq::<(Seq<char>, TyV)>::empty(),
    {
        let r = GlobalSub { entries: Vec::new() };
        proof {
            assert(r@ =~= Seq::<(Seq<char>, TyV)>::empty());
        }
        r
    }

    /// The type recorded for `x`, if any.
    pub fn get(&self, x: &String) -> (r: Option<&Ty>)
        ensures
            match assoc_get(self@, x@) {
                Some(t) => r is Some && r->Some_0@ == t,
                None => r is None,
            },
    {
        proof {
            lemma_assoc_find(self@, x@);
        }
        let found = find_key(&self.entries, x);
        proof {
            assert forall|j: int| 0 <= j < self.entries.len() implies self@[j].0 == self.entries@[j].0@ by {}
        }
        match found {
            Some(i) => {
                proof {
                    let k = assoc_find(self@, x@);
                    assert(self@[i as int].0 == x@);
                    if let Some(k) = k {
                        assert(self@[k].0 == x@);
                        assert(k == i);
                    }
                    assert(k == Some(i as int));
                }
                Some(&self.entries[i].1)
            },
            None => None,
        }
    }

    /// Records `t` for `x`, replacing what was recorded before.
    pub fn insert(&mut self, x: String, t: Ty)
        ensures
            final(self)@ == assoc_insert(old(self)@, x@, t@),
    {
        proof {
            lemma_assoc_find(self@, x@);
        }
        let ghost m = t@;
        let ghost xm = x@;
        let found = find_key(&self.entries, &x);
        proof {
            assert forall|j: int| 0 <= j < self.entries.len() implies self@[j].0 == self.entries@[j].0@ by {}
            let k = assoc_find(self@, x@);
            match found {
                Some(i) => {
                    assert(self@[i as int].0 == x@);
                    if let Some(k) = k {
                        assert(self@[k].0 == x@);
                    }
                    assert(k == Some(i as int));
                },
                None => {
                    if let Some(k) = k {
                        assert(self@[k].0 == x@);
                        assert(self.entries@[k].0@ == x@);
                    }
                    assert(k is None);
                },
            }
        }
        match found {
            Some(i) => {
                let ghost old_entries = self.entries@;
                self.entries.set(i, (x, t));
                proof {
                    assert(self@ =~= fields_model(old_entries).update(i as int, (xm, m)));
                }
            },
            None => {
                let ghost old_entries = self.entries@;
                self.entries.push((x, t));
                proof {
                    assert(self@ =~= fields_model(old_entries).push((xm, m)));
                }
            },
        }
    }

    /// Variable `x` as far as this solution resolves it.
    pub fn resolve(&self, x: &String) -> (r: Ty)
        ensures
            r@ == resolve(self@, x@),
    {
        match self.get(x) {
            Some(t) => crate::ty::ty_copy(t),
            None => Ty::Var(x.clone()),
        }
    }

    /// Records every substitution of `subs`, in order.
    pub fn record(&mut self, subs: &Vec<Substitution>)
        ensures
            final(self)@ == gs_fold(old(self)@, subs_model(subs@)),
    {
        let ghost g0 = self@;
        let mut i: usize = 0;
        proof {
            assert(subs_model(subs@).take(0) =~= Seq::<(Seq<char>, TyV)>::empty());
        }
        while i < subs.len()
            invariant
                0 <= i <= subs.len(),
                self@ == gs_fold(g0, subs_model(subs@).take(i as int)),
            decreases subs.len() - i,
        {
            self.insert(subs[i].0.clone(), crate::ty::ty_copy(&subs[i].1));
            proof {
                assert(subs_model(subs@).take(i + 1).drop_last() =~= subs_model(subs@).take(i as int));
            }
            i = i + 1;
        }
        proof {
            assert(subs_model(subs@).take(subs.len() as int) =~= subs_model(subs@));
        }
    }
}

/// Why inference failed.
#[derive(Debug)]
pub enum InferError {
    /// The name is bound in no enclosing scope.
    UnboundIdentifier(String),
    /// Two types that had to agree could not be unified.
    Unify(UnifyError),
    /// The name source can make no more fresh names.
    NamesExhausted,
}

impl View for InferError {
    type V = InferErrorV;

    open spec fn view(&self) -> InferErrorV {
        match self {
            InferError::UnboundIdentifier(x) => InferErrorV::UnboundIdentifier(x@),
            InferError::Unify(e) => InferErrorV::Unify(e@),
            InferError::NamesExhausted => InferErrorV::NamesExhausted,
        }
    }
}

/// The model of a result of inference.
pub open spec fn infer_result_model(r: Result<Ty, InferError>) -> Result<TyV, InferErrorV> {
    match r {
        Ok(t) => Ok(t@),
        Err(e) => Err(e@),
    }
}

pub proof fn lemma_gen_vars(s: Seq<Seq<char>>, env_vars: Seq<Seq<char>>)
    ensures
        forall|i: int| 0 <= i < gen_vars(s, env_vars).len() ==> !env_vars.contains(#[trigger] gen_vars(s, env_vars)[i]),
    decreases s.len(),
{
    if s.len() > 0 {
        let prev = gen_vars(s.drop_last(), env_vars);
        lemma_gen_vars(s.drop_last(), env_vars);
        assert forall|i: int| 0 <= i < gen_vars(s, env_vars).len() implies !env_vars.contains(
            #[trigger] gen_vars(s, env_vars)[i],
        ) by {
            if i < prev.len() {
                assert(gen_vars(s, env_vars)[i] == prev[i]);
            }
        }
    }
}

/// The scheme that quantifies the variables of `ty` that are not free in `env`,
/// each once, in order of first occurrence.
pub fn generalize(env: &Env, ty: Ty) -> (r: Scheme)
    ensures
        scheme_model(r) == generalize_spec(env@, ty@),
        forall|i: int| 0 <= i < r.0.len() ==> !env_fv(env@).contains(#[trigger] r.0@[i]@),
{
    let env_fvs = env.fv();
    let all = crate::ty::ty_free_vars(&ty);
    let ghost ev = env_fv(env@);
    let ghost s = ty_fv(ty@);
    let mut out: Vec<String> = Vec::new();
    let mut i: usize = 0;
    proof {
        assert(names_model(out@) =~= gen_vars(s.take(0), ev));
    }
    while i < all.len()
        invariant
            0 <= i <= all.len(),
            names_model(all@) == s,
            names_model(env_fvs@) == ev,
            names_model(out@) == gen_vars(s.take(i as int), ev),
        decreases all.len() - i,
    {
        proof {
            assert(s.take(i + 1).drop_last() =~= s.take(i as int));
            assert(s.take(i + 1).last() == all@[i as int]@);
        }
        if !contains_name(&env_fvs, &all[i]) && !contains_name(&out, &all[i]) {
            let ghost o0 = out@;
            out.push(all[i].clone());
            proof {
                assert(names_model(out@) =~= names_model(o0).push(all@[i as int]@));
            }
        }
        i = i + 1;
    }
    proof {
        assert(s.take(all.len() as int) =~= s);
        lemma_gen_vars(s, ev);
        assert forall|i: int| 0 <= i < out.len() implies !ev.contains(#[trigger] out@[i]@) by {
            assert(names_model(out@)[i] == out@[i]@);
        }
    }
    (out, ty)
}

/// The body of `scheme` with each quantified variable renamed to a fresh one.
fn instantiate(scheme: &Scheme, name_src: &mut NameSource) -> (r: Result<Ty, InferError>)
    ensures
        old(name_src)@ + scheme.0.len() > u64::MAX ==> r is Err && r->Err_0@ == InferErrorV::NamesExhausted
            && final(name_src)@ == old(name_src)@,
        old(name_src)@ + scheme.0.len() <= u64::MAX ==> r is Ok && r->Ok_0@ == instantiate_spec(
            names_model(scheme.0@),
            scheme.1@,
            old(name_src)@,
        ) && final(name_src)@ == old(name_src)@ + scheme.0.len(),
{
    if name_src.remaining() < scheme.0.len() as u64 {
        return Err(InferError::NamesExhausted);
    }
    let ghost n0 = name_src@;
    let ghost bound = names_model(scheme.0@);
    let mut res = crate::ty::ty_copy(&scheme.1);
    let mut i: usize = 0;
    proof {
        assert(bound.take(0) =~= Seq::<Seq<char>>::empty());
    }
    while i < scheme.0.len()
        invariant
            0 <= i <= scheme.0.len(),
            n0 + scheme.0.len() <= u64::MAX,
            bound == names_model(scheme.0@),
            name_src@ == n0 + i,
            res@ == instantiate_spec(bound.take(i as int), scheme.1@, n0),
        decreases scheme.0.len() - i,
    {
        let x = &scheme.0[i];
        let v = name_src.fresh(x.as_str());
        let sub: Substitution = (x.clone(), Ty::Var(v));
        res = crate::ty::apply(&res, &sub);
        proof {
            assert(bound.take(i + 1).drop_last() =~= bound.take(i as int));
            assert(bound.take(i + 1).last() == x@);
        }
        i = i + 1;
    }
    proof {
        assert(bound.take(scheme.0.len() as int) =~= bound);
    }
    Ok(res)
}

/// The model of a result of constraint generation.
pub open spec fn cs_result_model(r: Result<Vec<Constraint>, InferError>) -> Result<Seq<(TyV, TyV)>, InferErrorV> {
    match r {
        Ok(cs) => Ok(cs_model(cs@)),
        Err(e) => Err(e@),
    }
}

/// A fresh variable name for a `case`.
fn fresh_case(name_src: &mut NameSource) -> (r: String)
    requires
        old(name_src)@ < u64::MAX,
    ensures
        r@ == fresh_name(case_seed(), old(name_src)@),
        final(name_src)@ == old(name_src)@ + 1,
{
    proof {
        reveal_strlit("case");
        assert("case"@ =~= case_seed());
    }
    name_src.fresh("case")
}

/// The constraints that pattern `pat` puts on a scrutinee of type `ty`.
fn unify_pat(name_src: &mut NameSource, ty: &Ty, pat: &Pattern) -> (r: Result<Vec<Constraint>, InferError>)
    ensures
        unify_pat_spec(old(name_src)@, ty@, pat@) == (cs_result_model(r), final(name_src)@),
    decreases pat, 0nat,
{
    match pat {
        Pattern::Atom(a) => {
            let base = match a {
                Atom::Unit => Ty::Unit,
                Atom::Bool(_) => Ty::Bool,
                Atom::Int(_) => Ty::Int,
                Atom::String(_) => Ty::String,
            };
            let r = vec![(crate::ty::ty_copy(ty), base)];
            proof {
                assert(cs_model(r@) =~= seq![(ty@, atom_type(a@))]);
            }
            Ok(r)
        },
        Pattern::Ident(x) => {
            let r = vec![(crate::ty::ty_copy(ty), Ty::Var(x.clone()))];
            proof {
                assert(cs_model(r@) =~= seq![(ty@, TyV::Var(x@))]);
            }
            Ok(r)
        },
        Pattern::Wildcard => {
            let r: Vec<Constraint> = Vec::new();
            proof {
                assert(cs_model(r@) =~= Seq::<(TyV, TyV)>::empty());
            }
            Ok(r)
        },
        Pattern::Tuple(ps) => {
            proof {
                assert(pat@->Tuple_0 =~= Seq::new(ps.len() as nat, |j: int| ps@[j]@));
            }
            match unify_pats_in(name_src, ps, 0) {
                Ok((mut cs, vars)) => {
                    let t = Ty::Tuple(vars);
                    proof {
                        lemma_ty_model(&t);
                    }
                    let ghost c0 = cs@;
                    cs.push((crate::ty::ty_copy(ty), t));
                    proof {
                        assert(cs_model(cs@) =~= cs_model(c0).push((ty@, t@)));
                    }
                    Ok(cs)
                },
                Err(e) => Err(e),
            }
        },
        Pattern::Record(fs) => {
            proof {
                assert(pat@->Record_0 =~= Seq::new(fs.len() as nat, |j: int| (fs@[j].0@, fs@[j].1@)));
            }
            match unify_pat_fields_in(name_src, fs, 0) {
                Ok((mut cs, vars)) => {
                    let t = Ty::Record(vars);
                    proof {
                        lemma_ty_model(&t);
                    }
                    let ghost c0 = cs@;
                    cs.push((crate::ty::ty_copy(ty), t));
                    proof {
                        assert(cs_model(cs@) =~= cs_model(c0).push((ty@, t@)));
                    }
                    Ok(cs)
                },
                Err(e) => Err(e),
            }
        },
    }
}

fn unify_pats_in(name_src: &mut NameSource, ps: &Vec<Pattern>, i: usize) -> (r: Result<
    (Vec<Constraint>, Vec<Ty>),
    InferError,
>)
    requires
        i <= ps.len(),
    ensures
        ({
            let (sr, n2) = unify_pats_spec(old(name_src)@, Seq::new(ps.len() as nat, |j: int| ps@[j]@), i as nat);
            final(name_src)@ == n2 && match r {
                Ok((cs, vs)) => sr == Ok::<_, InferErrorV>((cs_model(cs@), tys_model(vs@))),
                Err(e) => sr == Err::<(Seq<(TyV, TyV)>, Seq<TyV>), _>(e@),
            }
        }),
    decreases ps, ps.len() - i,
{
    if i >= ps.len() {
        let cs: Vec<Constraint> = Vec::new();
        let vs: Vec<Ty> = Vec::new();
        proof {
            assert(cs_model(cs@) =~= Seq::<(TyV, TyV)>::empty());
            assert(tys_model(vs@) =~= Seq::<TyV>::empty());
        }
        return Ok((cs, vs));
    }
    if name_src.exhausted() {
        return Err(InferError::NamesExhausted);
    }
    proof {
        assert(decreases_to!(ps => ps[i as int]));
    }
    let v = fresh_case(name_src);
    let var = Ty::Var(v);
    match unify_pat(name_src, &var, &ps[i]) {
        Err(e) => Err(e),
        Ok(mut cs1) => match unify_pats_in(name_src, ps, i + 1) {
            Err(e) => Err(e),
            Ok((mut cs2, mut vs2)) => {
                let ghost (c1, c2, v2) = (cs1@, cs2@, vs2@);
                cs1.append(&mut cs2);
                vs2.insert(0, var);
                proof {
                    assert(cs_model(cs1@) =~= cs_model(c1) + cs_model(c2));
                    assert(tys_model(vs2@) =~= seq![var@] + tys_model(v2));
                }
                Ok((cs1, vs2))
            },
        },
    }
}

fn unify_pat_fields_in(name_src: &mut NameSource, fs: &Vec<(String, Pattern)>, i: usize) -> (r: Result<
    (Vec<Constraint>, Vec<(String, Ty)>),
    InferError,
>)
    requires
        i <= fs.len(),
    ensures
        ({
            let (sr, n2) = unify_pat_fields_spec(
                old(name_src)@,
                Seq::new(fs.len() as nat, |j: int| (fs@[j].0@, fs@[j].1@)),
                i as nat,
            );
            final(name_src)@ == n2 && match r {
                Ok((cs, vs)) => sr == Ok::<_, InferErrorV>((cs_model(cs@), fields_model(vs@))),
                Err(e) => sr == Err::<(Seq<(TyV, TyV)>, Seq<(Seq<char>, TyV)>), _>(e@),
            }
        }),
    decreases fs, fs.len() - i,
{
    if i >= fs.len() {
        let cs: Vec<Constraint> = Vec::new();
        let vs: Vec<(String, Ty)> = Vec::new();
        proof {
            assert(cs_model(cs@) =~= Seq::<(TyV, TyV)>::empty());
            assert(fields_model(vs@) =~= Seq::<(Seq<char>, TyV)>::empty());
        }
        return Ok((cs, vs));
    }
    if name_src.exhausted() {
        return Err(InferError::NamesExhausted);
    }
    proof {
        assert(decreases_to!(fs => fs[i as int]));
    }
    let v = fresh_case(name_src);
    let var = Ty::Var(v);
    match unify_pat(name_src, &var, &fs[i].1) {
        Err(e) => Err(e),
        Ok(mut cs1) => match unify_pat_fields_in(name_src, fs, i + 1) {
            Err(e) => Err(e),
            Ok((mut cs2, mut vs2)) => {
                let ghost (c1, c2, v2) = (cs1@, cs2@, vs2@);
                cs1.append(&mut cs2);
                vs2.insert(0, (fs[i].0.clone(), var));
                proof {
                    assert(cs_model(cs1@) =~= cs_model(c1) + cs_model(c2));
                    assert(fields_model(vs2@) =~= seq![(fs@[i as int].0@, var@)] + fields_model(v2));
                }
                Ok((cs1, vs2))
            },
        },
    }
}

/// The environment with each substitution of `subs` bound, in order, as a generalized scheme.
fn bind_subs(env: &mut Env, subs: &Vec<Substitution>)
    ensures
        final(env)@ == env_fold(old(env)@, subs_model(subs@)),
{
    let ghost e0 = env@;
    let mut i: usize = 0;
    proof {
        assert(subs_model(subs@).take(0) =~= Seq::<(Seq<char>, TyV)>::empty());
    }
    while i < subs.len()
        invariant
            0 <= i <= subs.len(),
            env@ == env_fold(e0, subs_model(subs@).take(i as int)),
        decreases subs.len() - i,
    {
        let scheme = generalize(env, crate::ty::ty_copy(&subs[i].1));
        env.insert(subs[i].0.clone(), scheme);
        proof {
            assert(subs_model(subs@).take(i + 1).drop_last() =~= subs_model(subs@).take(i as int));
        }
        i = i + 1;
    }
    proof {
        assert(subs_model(subs@).take(subs.len() as int) =~= subs_model(subs@));
    }
}

/// Infers the type of `expr` in `env` (algorithm J).
///
/// `global_sub` accumulates the solution found for fresh variables, and `name_src`
/// makes the fresh names; both are owned by one inference session.
pub fn infer(global_sub: &mut GlobalSub, name_src: &mut NameSource, env: &Env, expr: &Expr) -> (r: Result<
    Ty,
    InferError,
>)
    ensures
        infer_spec(old(global_sub)@, old(name_src)@, env@, expr@) == (
            infer_result_model(r),
            final(global_sub)@,
            final(name_src)@,
        ),
    decreases expr, 0nat,
{
    match expr {
        Expr::Atom(a) => Ok(
            match a {
                Atom::Unit => Ty::Unit,
                Atom::Bool(_) => Ty::Bool,
                Atom::Int(_) => Ty::Int,
                Atom::String(_) => Ty::String,
            },
        ),
        Expr::Ident(x) => match env.get(x) {
            None => Err(InferError::UnboundIdentifier(x.clone())),
            Some(scheme) => instantiate(scheme, name_src),
        },
        Expr::Let(bs, body) => {
            proof {
                assert(expr@->Let_0 =~= Seq::new(bs.len() as nat, |j: int| (bs@[j].0@, bs@[j].1@)));
            }
            match infer_binds_in(global_sub, name_src, env.copy(), bs, 0) {
                Err(e) => Err(e),
                Ok(env1) => infer(global_sub, name_src, &env1, body),
            }
        },
        Expr::Lambda(x, body) => {
            if name_src.exhausted() {
                return Err(InferError::NamesExhausted);
            }
            let v = name_src.fresh(x.as_str());
            let mut env1 = env.copy();
            let none: Vec<String> = Vec::new();
            proof {
                assert(names_model(none@) =~= Seq::<Seq<char>>::empty());
            }
            env1.insert(x.clone(), (none, Ty::Var(v.clone())));
            let rhs = match infer(global_sub, name_src, &env1, body) {
                Ok(t) => t,
                Err(e) => return Err(e),
            };
            let lhs = global_sub.resolve(&v);
            Ok(Ty::Fun(Box::new(lhs), Box::new(rhs)))
        },
        Expr::Apply(f, a) => {
            let t1 = match infer(global_sub, name_src, env, f) {
                Ok(t) => t,
                Err(e) => return Err(e),
            };
            let t2 = match infer(global_sub, name_src, env, a) {
                Ok(t) => t,
                Err(e) => return Err(e),
            };
            if name_src.exhausted() {
                return Err(InferError::NamesExhausted);
            }
            proof {
                reveal_strlit("arg");
                assert("arg"@ =~= arg_seed());
            }
            let v = name_src.fresh("arg");
            let ghost (t1m, t2m) = (t1@, t2@);
            let var = Ty::Var(v.clone());
            proof {
                assert(var@ == TyV::Var(v@));
            }
            let c: Constraint = (t1, Ty::Fun(Box::new(t2), Box::new(var)));
            proof {
                assert(c.1@ == TyV::Fun(Box::new(t2m), Box::new(TyV::Var(v@))));
            }
            let cs = vec![c];
            proof {
                assert(cs_model(cs@) =~= seq![(t1m, TyV::Fun(Box::new(t2m), Box::new(TyV::Var(v@))))]);
            }
            match unify(cs) {
                Err(e) => Err(InferError::Unify(e)),
                Ok(subs) => {
                    global_sub.record(&subs);
                    Ok(global_sub.resolve(&v))
                },
            }
        },
        Expr::Tuple(es) => {
            proof {
                assert(expr@->Tuple_0 =~= Seq::new(es.len() as nat, |j: int| es@[j]@));
            }
            match infer_list_in(global_sub, name_src, env, es, 0) {
                Err(e) => Err(e),
                Ok(ts) => {
                    let t = Ty::Tuple(ts);
                    proof {
                        lemma_ty_model(&t);
                    }
                    Ok(t)
                },
            }
        },
        Expr::Record(fs) => {
            proof {
                assert(expr@->Record_0 =~= Seq::new(fs.len() as nat, |j: int| (fs@[j].0@, fs@[j].1@)));
            }
            match infer_fields_in(global_sub, name_src, env, fs, 0) {
                Err(e) => Err(e),
                Ok(ts) => {
                    let t = Ty::Record(ts);
                    proof {
                        lemma_ty_model(&t);
                    }
                    Ok(t)
                },
            }
        },
        Expr::Case(s, arms) => {
            let t = match infer(global_sub, name_src, env, s) {
                Ok(t) => t,
                Err(e) => return Err(e),
            };
            if name_src.exhausted() {
                return Err(InferError::NamesExhausted);
            }
            let v = fresh_case(name_src);
            proof {
                assert(expr@->Case_1 =~= Seq::new(arms.len() as nat, |j: int| (arms@[j].0@, arms@[j].1@)));
            }
            match infer_arms_in(global_sub, name_src, env, &t, &v, arms, 0) {
                Err(e) => Err(e),
                Ok(()) => Ok(global_sub.resolve(&v)),
            }
        },
    }
}

fn infer_binds_in(
    global_sub: &mut GlobalSub,
    name_src: &mut NameSource,
    env: Env,
    bs: &Vec<(String, Expr)>,
    i: usize,
) -> (r: Result<Env, InferError>)
    requires
        i <= bs.len(),
    ensures
        ({
            let (sr, g, n) = infer_binds(
                old(global_sub)@,
                old(name_src)@,
                env@,
                Seq::new(bs.len() as nat, |j: int| (bs@[j].0@, bs@[j].1@)),
                i as nat,
            );
            g == final(global_sub)@ && n == final(name_src)@ && match r {
                Ok(e) => sr == Ok::<EnvModel, InferErrorV>(e@),
                Err(e) => sr == Err::<EnvModel, InferErrorV>(e@),
            }
        }),
    decreases bs, bs.len() - i,
{
    if i >= bs.len() {
        return Ok(env);
    }
    proof {
        assert(decreases_to!(bs => bs[i as int]));
    }
    match infer(global_sub, name_src, &env, &bs[i].1) {
        Err(e) => Err(e),
        Ok(t) => {
            let scheme = generalize(&env, t);
            let mut env1 = env;
            env1.insert(bs[i].0.clone(), scheme);
            infer_binds_in(global_sub, name_src, env1, bs, i + 1)
        },
    }
}

fn infer_list_in(global_sub: &mut GlobalSub, name_src: &mut NameSource, env: &Env, es: &Vec<Expr>, i: usize) -> (r:
    Result<Vec<Ty>, InferError>)
    requires
        i <= es.len(),
    ensures
        ({
            let (sr, g, n) = infer_list(
                old(global_sub)@,
                old(name_src)@,
                env@,
                Seq::new(es.len() as nat, |j: int| es@[j]@),
                i as nat,
            );
            g == final(global_sub)@ && n == final(name_src)@ && match r {
                Ok(ts) => sr == Ok::<Seq<TyV>, InferErrorV>(tys_model(ts@)),
                Err(e) => sr == Err::<Seq<TyV>, InferErrorV>(e@),
            }
        }),
    decreases es, es.len() - i,
{
    if i >= es.len() {
        let ts: Vec<Ty> = Vec::new();
        proof {
            assert(tys_model(ts@) =~= Seq::<TyV>::empty());
        }
        return Ok(ts);
    }
    proof {
        assert(decreases_to!(es => es[i as int]));
    }
    match infer(global_sub, name_src, env, &es[i]) {
        Err(e) => Err(e),
        Ok(t) => match infer_list_in(global_sub, name_src, env, es, i + 1) {
            Err(e) => Err(e),
            Ok(mut ts) => {
                let ghost t0 = ts@;
                let ghost tm = t@;
                ts.insert(0, t);
                proof {
                    assert(tys_model(ts@) =~= seq![tm] + tys_model(t0));
                }
                Ok(ts)
            },
        },
    }
}

fn infer_fields_in(
    global_sub: &mut GlobalSub,
    name_src: &mut NameSource,
    env: &Env,
    fs: &Vec<(String, Expr)>,
    i: usize,
) -> (r: Result<Vec<(String, Ty)>, InferError>)
    requires
        i <= fs.len(),
    ensures
        ({
            let (sr, g, n) = infer_fields(
                old(global_sub)@,
                old(name_src)@,
                env@,
                Seq::new(fs.len() as nat, |j: int| (fs@[j].0@, fs@[j].1@)),
                i as nat,
            );
            g == final(global_sub)@ && n == final(name_src)@ && match r {
                Ok(ts) => sr == Ok::<Seq<(Seq<char>, TyV)>, InferErrorV>(fields_model(ts@)),
                Err(e) => sr == Err::<Seq<(Seq<char>, TyV)>, InferErrorV>(e@),
            }
        }),
    decreases fs, fs.len() - i,
{
    if i >= fs.len() {
        let ts: Vec<(String, Ty)> = Vec::new();
        proof {
            assert(fields_model(ts@) =~= Seq::<(Seq<char>, TyV)>::empty());
        }
        return Ok(ts);
    }
    proof {
        assert(decreases_to!(fs => fs[i as int]));
    }
    match infer(global_sub, name_src, env, &fs[i].1) {
        Err(e) => Err(e),
        Ok(t) => match infer_fields_in(global_sub, name_src, env, fs, i + 1) {
            Err(e) => Err(e),
            Ok(mut ts) => {
                let ghost t0 = ts@;
                let ghost tm = t@;
                ts.insert(0, (fs[i].0.clone(), t));
                proof {
                    assert(fields_model(ts@) =~= seq![(fs@[i as int].0@, tm)] + fields_model(t0));
                }
                Ok(ts)
            },
        },
    }
}

fn infer_arms_in(
    global_sub: &mut GlobalSub,
    name_src: &mut NameSource,
    env: &Env,
    t: &Ty,
    v: &String,
    arms: &Vec<(Pattern, Expr)>,
    i: usize,
) -> (r: Result<(), InferError>)
    requires
        i <= arms.len(),
    ensures
        ({
            let (sr, g, n) = infer_arms(
                old(global_sub)@,
                old(name_src)@,
                env@,
                t@,
                v@,
                Seq::new(arms.len() as nat, |j: int| (arms@[j].0@, arms@[j].1@)),
                i as nat,
            );
            g == final(global_sub)@ && n == final(name_src)@ && match r {
                Ok(_) => sr is Ok,
                Err(e) => sr == Err::<(), InferErrorV>(e@),
            }
        }),
    decreases arms, arms.len() - i,
{
    if i >= arms.len() {
        return Ok(());
    }
    proof {
        assert(decreases_to!(arms => arms[i as int]));
    }
    let cs = match unify_pat(name_src, t, &arms[i].0) {
        Ok(cs) => cs,
        Err(e) => return Err(e),
    };
    let psubs = match unify(cs) {
        Ok(s) => s,
        Err(e) => return Err(InferError::Unify(e)),
    };
    global_sub.record(&psubs);
    let mut env1 = env.copy();
    bind_subs(&mut env1, &psubs);
    let result_ty = global_sub.resolve(v);
    let et = match infer(global_sub, name_src, &env1, &arms[i].1) {
        Ok(t) => t,
        Err(e) => return Err(e),
    };
    let c: Constraint = (et, result_ty);
    let ecs = vec![c];
    proof {
        assert(cs_model(ecs@) =~= seq![(et@, result_ty@)]);
    }
    match unify(ecs) {
        Err(e) => Err(InferError::Unify(e)),
        Ok(esubs) => {
            global_sub.record(&esubs);
            infer_arms_in(global_sub, name_src, env, t, v, arms, i + 1)
        },
    }
}

} // verus!
