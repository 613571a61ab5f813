use vstd::prelude::*;
use crate::ast::{Ty, TyV, tys_model, fields_model, lemma_ty_model};

verus! {

broadcast use {vstd::seq::group_seq_axioms, vstd::std_specs::vec::axiom_vec_index_decreases};

/// The models of a list of names.
pub open spec fn names_model(v: Seq<String>) -> Seq<Seq<char>> {
    v.map_values(|s: String| s@)
}

/// The free variables of a type, in order of occurrence, with repetitions.
pub open spec fn ty_fv(t: TyV) -> Seq<Seq<char>>
    decreases t,
{
    match t {
        TyV::Tuple(ts) => tys_fv(ts),
        TyV::Record(fs) => fields_fv(fs),
        TyV::Defined(_, ts) => tys_fv(ts),
        TyV::Var(n) => seq![n],
        TyV::Fun(a, b) => ty_fv(*a) + ty_fv(*b),
        _ => Seq::empty(),
    }
}

/// The free variables of a list of types, in order.
pub open spec fn tys_fv(ts: Seq<TyV>) -> Seq<Seq<char>>
    decreases ts,
{
    if ts.len() == 0 {
        Seq::empty()
    } else {
        tys_fv(ts.drop_last()) + ty_fv(ts.last())
    }
}

/// The free variables of a list of named types, in order.
pub open spec fn fields_fv(fs: Seq<(Seq<char>, TyV)>) -> Seq<Seq<char>>
    decreases fs,
{
    if fs.len() == 0 {
        Seq::empty()
    } else {
        fields_fv(fs.drop_last()) + ty_fv(fs.last().1)
    }
}

/// The type `t` with every `Var(a)` replaced by `r`.
pub open spec fn ty_apply(t: TyV, a: Seq<char>, r: TyV) -> TyV
    decreases t,
{
    match t {
        TyV::Tuple(ts) => TyV::Tuple(tys_apply(ts, a, r)),
        TyV::Record(fs) => TyV::Record(fields_apply(fs, a, r)),
        TyV::Defined(n, ts) => TyV::Defined(n, tys_apply(ts, a, r)),
        TyV::Var(n) => if n == a { r } else { TyV::Var(n) },
        TyV::Fun(x, y) => TyV::Fun(Box::new(ty_apply(*x, a, r)), Box::new(ty_apply(*y, a, r))),
        _ => t,
    }
}

/// `ty_apply` on each element of a list.
pub open spec fn tys_apply(ts: Seq<TyV>, a: Seq<char>, r: TyV) -> Seq<TyV>
    decreases ts,
{
    if ts.len() == 0 {
        Seq::empty()
    } else {
        tys_apply(ts.drop_last(), a, r).push(ty_apply(ts.last(), a, r))
    }
}

/// `ty_apply` on the type of each field of a list.
pub open spec fn fields_apply(fs: Seq<(Seq<char>, TyV)>, a: Seq<char>, r: TyV) -> Seq<(Seq<char>, TyV)>
    decreases fs,
{
    if fs.len() == 0 {
        Seq::empty()
    } else {
        fields_apply(fs.drop_last(), a, r).push((fs.last().0, ty_apply(fs.last().1, a, r)))
    }
}

} // verus!

verus! {

/// Structural equality of two type terms.
pub fn ty_eq(a: &Ty, b: &Ty) -> (r: bool)
    ensures
        r == (a@ == b@),
    decreases a,
{
    proof {
        lemma_ty_model(a);
        lemma_ty_model(b);
    }
    match (a, b) {
        (Ty::Int, Ty::Int) => true,
        (Ty::Bool, Ty::Bool) => true,
        (Ty::Unit, Ty::Unit) => true,
        (Ty::String, Ty::String) => true,
        (Ty::Tuple(xs), Ty::Tuple(ys)) => tys_eq(xs, ys),
        (Ty::Defined(n, xs), Ty::Defined(m, ys)) => *n == *m && tys_eq(xs, ys),
        (Ty::Record(xs), Ty::Record(ys)) => fields_eq(xs, ys),
        (Ty::Var(n), Ty::Var(m)) => *n == *m,
        (Ty::Fun(x1, y1), Ty::Fun(x2, y2)) => ty_eq(x1, x2) && ty_eq(y1, y2),
        _ => false,
    }
}

/// Structural equality of two lists of type terms.
fn tys_eq(xs: &Vec<Ty>, ys: &Vec<Ty>) -> (r: bool)
    ensures
        r == (tys_model(xs@) == tys_model(ys@)),
    decreases xs,
{
    if xs.len() != ys.len() {
        proof {
            assert(tys_model(xs@).len() != tys_model(ys@).len());
        }
        return false;
    }
    let mut i: usize = 0;
    while i < xs.len()
        invariant
            xs.len() == ys.len(),
            0 <= i <= xs.len(),
            forall|j: int| 0 <= j < i ==> tys_model(xs@)[j] == tys_model(ys@)[j],
        decreases xs.len() - i,
    {
        if !ty_eq(&xs[i], &ys[i]) {
            proof {
                assert(tys_model(xs@)[i as int] != tys_model(ys@)[i as int]);
            }
            return false;
        }
        i = i + 1;
    }
    proof {
        assert(tys_model(xs@) =~= tys_model(ys@));
    }
    true
}

/// Structural equality of two lists of named type terms.
fn fields_eq(xs: &Vec<(String, Ty)>, ys: &Vec<(String, Ty)>) -> (r: bool)
    ensures
        r == (fields_model(xs@) == fields_model(ys@)),
    decreases xs,
{
    if xs.len() != ys.len() {
        proof {
            assert(fields_model(xs@).len() != fields_model(ys@).len());
        }
        return false;
    }
    let mut i: usize = 0;
    while i < xs.len()
        invariant
            xs.len() == ys.len(),
            0 <= i <= xs.len(),
            forall|j: int| 0 <= j < i ==> fields_model(xs@)[j] == fields_model(ys@)[j],
        decreases xs.len() - i,
    {
        proof {
            assert(decreases_to!(xs => xs[i as int]));
        }
        if !(xs[i].0 == ys[i].0) || !ty_eq(&xs[i].1, &ys[i].1) {
            proof {
                assert(fields_model(xs@)[i as int] != fields_model(ys@)[i as int]);
            }
            return false;
        }
        i = i + 1;
    }
    proof {
        assert(fields_model(xs@) =~= fields_model(ys@));
    }
    true
}

/// A copy of a list of named type terms.
pub fn fields_copy(xs: &Vec<(String, Ty)>) -> (r: Vec<(String, Ty)>)
    ensures
        fields_model(r@) == fields_model(xs@),
    decreases xs,
{
    let mut out: Vec<(String, Ty)> = Vec::new();
    let mut i: usize = 0;
    while i < xs.len()
        invariant
            0 <= i <= xs.len(),
            out.len() == i,
            forall|j: int| 0 <= j < i ==> fields_model(out@)[j] == fields_model(xs@)[j],
        decreases xs.len() - i,
    {
        proof {
            assert(decreases_to!(xs => xs[i as int]));
        }
        out.push((xs[i].0.clone(), ty_copy(&xs[i].1)));
        i = i + 1;
    }
    proof {
        assert(fields_model(out@) =~= fields_model(xs@));
    }
    out
}

/// A copy of a type term.
pub fn ty_copy(t: &Ty) -> (r: Ty)
    ensures
        r@ == t@,
    decreases t,
{
    proof {
        lemma_ty_model(t);
    }
    let r = match t {
        Ty::Int => Ty::Int,
        Ty::Bool => Ty::Bool,
        Ty::Unit => Ty::Unit,
        Ty::String => Ty::String,
        Ty::Tuple(xs) => Ty::Tuple(tys_copy(xs)),
        Ty::Defined(n, xs) => Ty::Defined(n.clone(), tys_copy(xs)),
        Ty::Record(xs) => Ty::Record(fields_copy(xs)),
        Ty::Var(n) => Ty::Var(n.clone()),
        Ty::Fun(x, y) => Ty::Fun(Box::new(ty_copy(x)), Box::new(ty_copy(y))),
    };
    proof {
        lemma_ty_model(&r);
    }
    r
}

/// A copy of a list of type terms.
pub fn tys_copy(xs: &Vec<Ty>) -> (r: Vec<Ty>)
    ensures
        tys_model(r@) == tys_model(xs@),
    decreases xs,
{
    let mut out: Vec<Ty> = Vec::new();
    let mut i: usize = 0;
    while i < xs.len()
        invariant
            0 <= i <= xs.len(),
            out.len() == i,
            forall|j: int| 0 <= j < i ==> tys_model(out@)[j] == tys_model(xs@)[j],
        decreases xs.len() - i,
    {
        out.push(ty_copy(&xs[i]));
        i = i + 1;
    }
    proof {
        assert(tys_model(out@) =~= tys_model(xs@));
    }
    out
}

} // verus!

verus! {

/// A name and the type it stands for.
pub type Substitution = (String, Ty);

/// An equation between two types.
pub type Constraint = (Ty, Ty);

/// A polymorphic type: its quantified variables and its body.
pub type Scheme = (Vec<String>, Ty);

/// The free variables of a scheme's body that it does not quantify.
pub open spec fn scheme_fv(bound: Seq<Seq<char>>, body: TyV) -> Seq<Seq<char>> {
    names_without(ty_fv(body), bound)
}

/// The names of `s` that `bound` does not hold, in order.
pub open spec fn names_without(s: Seq<Seq<char>>, bound: Seq<Seq<char>>) -> Seq<Seq<char>>
    decreases s.len(),
{
    if s.len() == 0 {
        s
    } else if bound.contains(s.last()) {
        names_without(s.drop_last(), bound)
    } else {
        names_without(s.drop_last(), bound).push(s.last())
    }
}

/// Values whose free type variables can be listed.
pub trait FreeVars {
    /// The free type variables, in order of occurrence.
    spec fn free_vars(&self) -> Seq<Seq<char>>;

    fn fv(&self) -> (r: Vec<String>)
        ensures
            names_model(r@) == self.free_vars(),
    ;
}

impl FreeVars for Ty {
    open spec fn free_vars(&self) -> Seq<Seq<char>> {
        ty_fv(self@)
    }

    fn fv(&self) -> (r: Vec<String>) {
        ty_free_vars(self)
    }
}

impl FreeVars for Scheme {
    open spec fn free_vars(&self) -> Seq<Seq<char>> {
        scheme_fv(names_model(self.0@), self.1@)
    }

    fn fv(&self) -> (r: Vec<String>) {
        let all = ty_free_vars(&self.1);
        let mut out: Vec<String> = Vec::new();
        let mut i: usize = 0;
        while i < all.len()
            invariant
                0 <= i <= all.len(),
                names_model(out@) == names_without(names_model(all@).take(i as int), names_model(self.0@)),
            decreases all.len() - i,
        {
            proof {
                assert(names_model(all@).take(i + 1).drop_last() =~= names_model(all@).take(i as int));
            }
            if !contains_name(&self.0, &all[i]) {
                out.push(all[i].clone());
                proof {
                    assert(names_model(out@) =~= names_without(names_model(all@).take(i as int), names_model(self.0@)).push(all@[i as int]@));
                }
            }
            i = i + 1;
        }
        proof {
            assert(names_model(all@).take(all.len() as int) =~= names_model(all@));
        }
        out
    }
}

/// Whether a list of names holds the given one.
pub fn contains_name(names: &Vec<String>, n: &String) -> (r: bool)
    ensures
        r == names_model(names@).contains(n@),
{
    let mut i: usize = 0;
    while i < names.len()
        invariant
            0 <= i <= names.len(),
            forall|j: int| 0 <= j < i ==> names@[j]@ != n@,
        decreases names.len() - i,
    {
        if names[i] == *n {
            proof {
                assert(names_model(names@)[i as int] == n@);
            }
            return true;
        }
        i = i + 1;
    }
    proof {
        if names_model(names@).contains(n@) {
            let j = choose|j: int| 0 <= j < names@.len() && names_model(names@)[j] == n@;
            assert(names@[j]@ == n@);
        }
    }
    false
}

/// The free variables of a type term, in order of occurrence.
pub fn ty_free_vars(t: &Ty) -> (r: Vec<String>)
    ensures
        names_model(r@) == ty_fv(t@),
    decreases t,
{
    proof {
        lemma_ty_model(t);
    }
    match t {
        Ty::Tuple(xs) => tys_free_vars(xs),
        Ty::Defined(_, xs) => tys_free_vars(xs),
        Ty::Record(fs) => fields_free_vars(fs),
        Ty::Var(n) => {
            let r = vec![n.clone()];
            proof {
                assert(names_model(r@) =~= seq![n@]);
            }
            r
        },
        Ty::Fun(x, y) => {
            let mut a = ty_free_vars(x);
            let mut b = ty_free_vars(y);
            let ghost a0 = a@;
            a.append(&mut b);
            proof {
                assert(names_model(a@) =~= ty_fv(x@) + ty_fv(y@));
            }
            a
        },
        _ => {
            let r: Vec<String> = Vec::new();
            proof {
                assert(names_model(r@) =~= Seq::empty());
            }
            r
        },
    }
}

fn tys_free_vars(xs: &Vec<Ty>) -> (r: Vec<String>)
    ensures
        names_model(r@) == tys_fv(tys_model(xs@)),
    decreases xs,
{
    let mut out: Vec<String> = Vec::new();
    let mut i: usize = 0;
    proof {
        assert(names_model(out@) =~= tys_fv(tys_model(xs@).take(0)));
    }
    while i < xs.len()
        invariant
            0 <= i <= xs.len(),
            names_model(out@) == tys_fv(tys_model(xs@).take(i as int)),
        decreases xs.len() - i,
    {
        let mut more = ty_free_vars(&xs[i]);
        let ghost o0 = out@;
        out.append(&mut more);
        proof {
            assert(tys_model(xs@).take(i + 1).drop_last() =~= tys_model(xs@).take(i as int));
            assert(names_model(out@) =~= names_model(o0) + ty_fv(xs@[i as int]@));
        }
        i = i + 1;
    }
    proof {
        assert(tys_model(xs@).take(xs.len() as int) =~= tys_model(xs@));
    }
    out
}

fn fields_free_vars(fs: &Vec<(String, Ty)>) -> (r: Vec<String>)
    ensures
        names_model(r@) == fields_fv(fields_model(fs@)),
    decreases fs,
{
    let mut out: Vec<String> = Vec::new();
    let mut i: usize = 0;
    proof {
        assert(names_model(out@) =~= fields_fv(fields_model(fs@).take(0)));
    }
    while i < fs.len()
        invariant
            0 <= i <= fs.len(),
            names_model(out@) == fields_fv(fields_model(fs@).take(i as int)),
        decreases fs.len() - i,
    {
        proof {
            assert(decreases_to!(fs => fs[i as int]));
        }
        let mut more = ty_free_vars(&fs[i].1);
        let ghost o0 = out@;
        out.append(&mut more);
        proof {
            assert(fields_model(fs@).take(i + 1).drop_last() =~= fields_model(fs@).take(i as int));
            assert(names_model(out@) =~= names_model(o0) + ty_fv(fs@[i as int].1@));
        }
        i = i + 1;
    }
    proof {
        assert(fields_model(fs@).take(fs.len() as int) =~= fields_model(fs@));
    }
    out
}

/// `t` with every occurrence of the variable `sub.0` replaced by `sub.1`.
pub fn apply(t: &Ty, sub: &Substitution) -> (r: Ty)
    ensures
        r@ == ty_apply(t@, sub.0@, sub.1@),
    decreases t,
{
    proof {
        lemma_ty_model(t);
    }
    let r = match t {
        Ty::Int => Ty::Int,
        Ty::Bool => Ty::Bool,
        Ty::Unit => Ty::Unit,
        Ty::String => Ty::String,
        Ty::Tuple(xs) => Ty::Tuple(tys_apply_exec(xs, sub)),
        Ty::Defined(n, xs) => Ty::Defined(n.clone(), tys_apply_exec(xs, sub)),
        Ty::Record(fs) => Ty::Record(fields_apply_exec(fs, sub)),
        Ty::Var(n) => {
            if *n == sub.0 {
                ty_copy(&sub.1)
            } else {
                Ty::Var(n.clone())
            }
        },
        Ty::Fun(x, y) => Ty::Fun(Box::new(apply(x, sub)), Box::new(apply(y, sub))),
    };
    proof {
        lemma_ty_model(&r);
    }
    r
}

fn tys_apply_exec(xs: &Vec<Ty>, sub: &Substitution) -> (r: Vec<Ty>)
    ensures
        tys_model(r@) == tys_apply(tys_model(xs@), sub.0@, sub.1@),
    decreases xs,
{
    let mut out: Vec<Ty> = Vec::new();
    let mut i: usize = 0;
    proof {
        assert(tys_model(out@) =~= tys_apply(tys_model(xs@).take(0), sub.0@, sub.1@));
    }
    while i < xs.len()
        invariant
            0 <= i <= xs.len(),
            tys_model(out@) == tys_apply(tys_model(xs@).take(i as int), sub.0@, sub.1@),
        decreases xs.len() - i,
    {
        let ghost o0 = out@;
        out.push(apply(&xs[i], sub));
        proof {
            assert(tys_model(xs@).take(i + 1).drop_last() =~= tys_model(xs@).take(i as int));
            assert(tys_model(out@) =~= tys_model(o0).push(ty_apply(xs@[i as int]@, sub.0@, sub.1@)));
        }
        i = i + 1;
    }
    proof {
        assert(tys_model(xs@).take(xs.len() as int) =~= tys_model(xs@));
    }
    out
}

fn fields_apply_exec(fs: &Vec<(String, Ty)>, sub: &Substitution) -> (r: Vec<(String, Ty)>)
    ensures
        fields_model(r@) == fields_apply(fields_model(fs@), sub.0@, sub.1@),
    decreases fs,
{
    let mut out: Vec<(String, Ty)> = Vec::new();
    let mut i: usize = 0;
    proof {
        assert(fields_model(out@) =~= fields_apply(fields_model(fs@).take(0), sub.0@, sub.1@));
    }
    while i < fs.len()
        invariant
            0 <= i <= fs.len(),
            fields_model(out@) == fields_apply(fields_model(fs@).take(i as int), sub.0@, sub.1@),
        decreases fs.len() - i,
    {
        proof {
            assert(decreases_to!(fs => fs[i as int]));
        }
        let ghost o0 = out@;
        out.push((fs[i].0.clone(), apply(&fs[i].1, sub)));
        proof {
            assert(fields_model(fs@).take(i + 1).drop_last() =~= fields_model(fs@).take(i as int));
            assert(fields_model(out@) =~= fields_model(o0).push(
                (fs@[i as int].0@, ty_apply(fs@[i as int].1@, sub.0@, sub.1@)),
            ));
        }
        i = i + 1;
    }
    proof {
        assert(fields_model(fs@).take(fs.len() as int) =~= fields_model(fs@));
    }
    out
}

impl PartialEq for Ty {
    fn eq(&self, other: &Ty) -> (r: bool) {
        ty_eq(self, other)
    }
}

impl vstd::std_specs::cmp::PartialEqSpecImpl for Ty {
    open spec fn obeys_eq_spec() -> bool {
        true
    }

    open spec fn eq_spec(&self, other: &Ty) -> bool {
        self@ == other@
    }
}

pub proof fn lemma_tys_apply_index(ts: Seq<TyV>, a: Seq<char>, r: TyV)
    ensures
        tys_apply(ts, a, r).len() == ts.len(),
        forall|i: int| 0 <= i < ts.len() ==> #[trigger] tys_apply(ts, a, r)[i] == ty_apply(ts[i], a, r),
    decreases ts.len(),
{
    if ts.len() > 0 {
        lemma_tys_apply_index(ts.drop_last(), a, r);
    }
}

pub proof fn lemma_fields_apply_index(fs: Seq<(Seq<char>, TyV)>, a: Seq<char>, r: TyV)
    ensures
        fields_apply(fs, a, r).len() == fs.len(),
        forall|i: int|
            0 <= i < fs.len() ==> #[trigger] fields_apply(fs, a, r)[i] == (fs[i].0, ty_apply(fs[i].1, a, r)),
    decreases fs.len(),
{
    if fs.len() > 0 {
        lemma_fields_apply_index(fs.drop_last(), a, r);
    }
}

/// `t` with every occurrence of the variable `sub.0` replaced by `sub.1`, rewritten in place.
pub fn apply_mut(t: &mut Ty, sub: &Substitution)
    ensures
        final(t)@ == ty_apply(old(t)@, sub.0@, sub.1@),
    decreases *old(t),
{
    proof {
        lemma_ty_model(t);
    }
    let hit = match t {
        Ty::Var(n) => *n == sub.0,
        _ => false,
    };
    if hit {
        *t = ty_copy(&sub.1);
        return;
    }
    match t {
        Ty::Tuple(tys) => tys_apply_mut(tys, sub),
        Ty::Defined(_, tys) => tys_apply_mut(tys, sub),
        Ty::Record(fs) => fields_apply_mut(fs, sub),
        Ty::Fun(a, b) => {
            apply_mut(a, sub);
            apply_mut(b, sub);
        },
        _ => {},
    }
    proof {
        lemma_ty_model(t);
    }
}

fn tys_apply_mut(tys: &mut Vec<Ty>, sub: &Substitution)
    ensures
        tys_model(final(tys)@) == tys_apply(tys_model(old(tys)@), sub.0@, sub.1@),
    decreases *old(tys),
{
    let ghost orig = tys@;
    let mut i: usize = 0;
    while i < tys.len()
        invariant
            0 <= i <= tys.len(),
            tys.len() == orig.len(),
            orig == old(tys)@,
            forall|j: int| 0 <= j < i ==> tys@[j]@ == ty_apply(orig[j]@, sub.0@, sub.1@),
            forall|j: int| i <= j < tys.len() ==> tys@[j] == orig[j],
        decreases tys.len() - i,
    {
        proof {
            assert(decreases_to!(*old(tys) => old(tys)[i as int]));
        }
        apply_mut(&mut tys[i], sub);
        i = i + 1;
    }
    proof {
        lemma_tys_apply_index(tys_model(orig), sub.0@, sub.1@);
        assert(tys_model(tys@) =~= tys_apply(tys_model(orig), sub.0@, sub.1@));
    }
}

fn fields_apply_mut(fs: &mut Vec<(String, Ty)>, sub: &Substitution)
    ensures
        fields_model(final(fs)@) == fields_apply(fields_model(old(fs)@), sub.0@, sub.1@),
    decreases *old(fs),
{
    let ghost orig = fs@;
    let mut i: usize = 0;
    while i < fs.len()
        invariant
            0 <= i <= fs.len(),
            fs.len() == orig.len(),
            orig == old(fs)@,
            forall|j: int| 0 <= j < i ==> fs@[j].0 == orig[j].0 && fs@[j].1@ == ty_apply(orig[j].1@, sub.0@, sub.1@),
            forall|j: int| i <= j < fs.len() ==> fs@[j] == orig[j],
        decreases fs.len() - i,
    {
        proof {
            assert(decreases_to!(*old(fs) => old(fs)[i as int]));
        }
        apply_mut(&mut fs[i].1, sub);
        i = i + 1;
    }
    proof {
        lemma_fields_apply_index(fields_model(orig), sub.0@, sub.1@);
        assert(fields_model(fs@) =~= fields_apply(fields_model(orig), sub.0@, sub.1@));
    }
}

/// The body of a scheme after substituting `r` for `a`, unless the scheme quantifies `a`.
pub open spec fn scheme_apply(bound: Seq<Seq<char>>, body: TyV, a: Seq<char>, r: TyV) -> TyV {
    if bound.contains(a) {
        body
    } else {
        ty_apply(body, a, r)
    }
}

/// Both sides of a constraint with the substitution applied, in place.
pub fn constraint_apply_mut(c: &mut Constraint, sub: &Substitution)
    ensures
        final(c).0@ == ty_apply(old(c).0@, sub.0@, sub.1@),
        final(c).1@ == ty_apply(old(c).1@, sub.0@, sub.1@),
{
    apply_mut(&mut c.0, sub);
    apply_mut(&mut c.1, sub);
}

/// A scheme with the substitution applied to its body, in place, unless it quantifies the variable.
pub fn scheme_apply_mut(s: &mut Scheme, sub: &Substitution)
    ensures
        final(s).0 == old(s).0,
        final(s).1@ == scheme_apply(names_model(old(s).0@), old(s).1@, sub.0@, sub.1@),
{
    if !contains_name(&s.0, &sub.0) {
        apply_mut(&mut s.1, sub);
    }
}

} // verus!
