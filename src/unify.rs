use vstd::prelude::*;
use vstd::set_lib::lemma_len_subset;
use vstd::seq_lib::seq_to_set_is_finite;
use crate::ast::{Ty, TyV, tys_model, fields_model, lemma_ty_model};
use crate::ty::{ty_fv, tys_fv, fields_fv, ty_apply, tys_apply, fields_apply, ty_eq, ty_free_vars, contains_name, apply, Constraint, Substitution};

verus! {

broadcast use {vstd::seq::group_seq_axioms, vstd::set::group_set_axioms, seq_to_set_is_finite};

/// The number of constructors in a type.
pub open spec fn ty_size(t: TyV) -> nat
    decreases t,
{
    match t {
        TyV::Tuple(ts) => 1 + tys_size(ts),
        TyV::Record(fs) => 1 + fields_size(fs),
        TyV::Defined(_, ts) => 1 + tys_size(ts),
        TyV::Fun(a, b) => 1 + ty_size(*a) + ty_size(*b),
        _ => 1,
    }
}

pub open spec fn tys_size(ts: Seq<TyV>) -> nat
    decreases ts,
{
    if ts.len() == 0 {
        0
    } else {
        tys_size(ts.drop_last()) + ty_size(ts.last())
    }
}

pub open spec fn fields_size(fs: Seq<(Seq<char>, TyV)>) -> nat
    decreases fs,
{
    if fs.len() == 0 {
        0
    } else {
        fields_size(fs.drop_last()) + ty_size(fs.last().1)
    }
}

/// The free variables of a list of constraints, in order.
pub open spec fn cs_fv(cs: Seq<(TyV, TyV)>) -> Seq<Seq<char>>
    decreases cs.len(),
{
    if cs.len() == 0 {
        Seq::empty()
    } else {
        cs_fv(cs.drop_last()) + ty_fv(cs.last().0) + ty_fv(cs.last().1)
    }
}

/// The total size of a list of constraints.
pub open spec fn cs_size(cs: Seq<(TyV, TyV)>) -> nat
    decreases cs.len(),
{
    if cs.len() == 0 {
        0
    } else {
        cs_size(cs.drop_last()) + ty_size(cs.last().0) + ty_size(cs.last().1)
    }
}

/// A substitution applied to both sides of every constraint.
pub open spec fn cs_apply(cs: Seq<(TyV, TyV)>, a: Seq<char>, r: TyV) -> Seq<(TyV, TyV)> {
    Seq::new(cs.len(), |i: int| (ty_apply(cs[i].0, a, r), ty_apply(cs[i].1, a, r)))
}

/// Pushes the pairs `(xs[i], ys[i])` on the stack `st`, so that the first pair ends on top.
pub open spec fn push_pairs(st: Seq<(TyV, TyV)>, xs: Seq<TyV>, ys: Seq<TyV>) -> Seq<(TyV, TyV)>
    decreases xs.len(),
{
    if xs.len() == 0 || ys.len() == 0 {
        st
    } else {
        push_pairs(st.push((xs.last(), ys.last())), xs.drop_last(), ys.drop_last())
    }
}

/// The names of a list of fields.
pub open spec fn field_names(fs: Seq<(Seq<char>, TyV)>) -> Seq<Seq<char>> {
    Seq::new(fs.len(), |i: int| fs[i].0)
}

/// The types of a list of fields.
pub open spec fn field_types(fs: Seq<(Seq<char>, TyV)>) -> Seq<TyV> {
    Seq::new(fs.len(), |i: int| fs[i].1)
}

/// Lexicographic order on names, character by character.
pub open spec fn name_le(a: Seq<char>, b: Seq<char>) -> bool
    decreases a.len(),
{
    if a.len() == 0 {
        true
    } else if b.len() == 0 {
        false
    } else if a[0] != b[0] {
        (a[0] as u32) < (b[0] as u32)
    } else {
        name_le(a.drop_first(), b.drop_first())
    }
}

/// Inserts a field into a list sorted by name, after every field whose name is not greater.
pub open spec fn insert_field<V>(f: (Seq<char>, V), fs: Seq<(Seq<char>, V)>) -> Seq<(Seq<char>, V)>
    decreases fs.len(),
{
    if fs.len() == 0 {
        seq![f]
    } else if name_le(fs.last().0, f.0) {
        fs.push(f)
    } else {
        insert_field(f, fs.drop_last()).push(fs.last())
    }
}

/// A list of fields sorted by name; fields of equal names keep their order.
pub open spec fn sort_fields<V>(fs: Seq<(Seq<char>, V)>) -> Seq<(Seq<char>, V)>
    decreases fs.len(),
{
    if fs.len() == 0 {
        fs
    } else {
        insert_field(fs.last(), sort_fields(fs.drop_last()))
    }
}

/// Why two types could not be unified.
pub enum UnifyErrorV {
    Mismatch(TyV, TyV),
    Records(TyV, TyV),
}

pub proof fn lemma_to_set_add(a: Seq<Seq<char>>, b: Seq<Seq<char>>)
    ensures
        (a + b).to_set() == a.to_set().union(b.to_set()),
{
    assert forall|x: Seq<char>| (a + b).to_set().contains(x) implies a.to_set().union(b.to_set()).contains(x) by {
        let i = choose|i: int| 0 <= i < (a + b).len() && (a + b)[i] == x;
        if i < a.len() {
            assert(a[i] == x);
        } else {
            assert(b[i - a.len()] == x);
        }
    }
    assert forall|x: Seq<char>| a.to_set().union(b.to_set()).contains(x) implies (a + b).to_set().contains(x) by {
        if a.contains(x) {
            let i = choose|i: int| 0 <= i < a.len() && a[i] == x;
            assert((a + b)[i] == x);
        } else {
            let i = choose|i: int| 0 <= i < b.len() && b[i] == x;
            assert((a + b)[i + a.len()] == x);
        }
    }
    assert((a + b).to_set() =~= a.to_set().union(b.to_set()));
}

pub proof fn lemma_fv_apply(t: TyV, a: Seq<char>, r: TyV)
    ensures
        ty_fv(ty_apply(t, a, r)).to_set().subset_of(ty_fv(t).to_set().remove(a).union(ty_fv(r).to_set())),
    decreases t,
{
    match t {
        TyV::Tuple(ts) => lemma_tys_fv_apply(ts, a, r),
        TyV::Record(fs) => lemma_fields_fv_apply(fs, a, r),
        TyV::Defined(_, ts) => lemma_tys_fv_apply(ts, a, r),
        TyV::Var(n) => {
            assert(seq![n][0] == n);
            assert(seq![n].to_set() =~= set![n]);
            if n == a {
                assert(ty_apply(t, a, r) == r);
            } else {
                assert(ty_fv(ty_apply(t, a, r)) == seq![n]);
            }
        },
        TyV::Fun(x, y) => {
            lemma_fv_apply(*x, a, r);
            lemma_fv_apply(*y, a, r);
            lemma_to_set_add(ty_fv(*x), ty_fv(*y));
            lemma_to_set_add(ty_fv(ty_apply(*x, a, r)), ty_fv(ty_apply(*y, a, r)));
        },
        _ => {
            assert(ty_fv(t).to_set() =~= Set::empty());
        },
    }
}

pub proof fn lemma_tys_fv_apply(ts: Seq<TyV>, a: Seq<char>, r: TyV)
    ensures
        tys_fv(tys_apply(ts, a, r)).to_set().subset_of(tys_fv(ts).to_set().remove(a).union(ty_fv(r).to_set())),
    decreases ts,
{
    if ts.len() == 0 {
        assert(tys_fv(tys_apply(ts, a, r)).to_set() =~= Set::empty());
    } else {
        let s = tys_apply(ts.drop_last(), a, r);
        let x = ty_apply(ts.last(), a, r);
        assert(s.push(x).drop_last() =~= s);
        lemma_tys_fv_apply(ts.drop_last(), a, r);
        lemma_fv_apply(ts.last(), a, r);
        lemma_to_set_add(tys_fv(s), ty_fv(x));
        lemma_to_set_add(tys_fv(ts.drop_last()), ty_fv(ts.last()));
    }
}

pub proof fn lemma_fields_fv_apply(fs: Seq<(Seq<char>, TyV)>, a: Seq<char>, r: TyV)
    ensures
        fields_fv(fields_apply(fs, a, r)).to_set().subset_of(fields_fv(fs).to_set().remove(a).union(ty_fv(r).to_set())),
    decreases fs,
{
    if fs.len() == 0 {
        assert(fields_fv(fields_apply(fs, a, r)).to_set() =~= Set::empty());
    } else {
        let s = fields_apply(fs.drop_last(), a, r);
        let x = (fs.last().0, ty_apply(fs.last().1, a, r));
        assert(s.push(x).drop_last() =~= s);
        lemma_fields_fv_apply(fs.drop_last(), a, r);
        lemma_fv_apply(fs.last().1, a, r);
        lemma_to_set_add(fields_fv(s), ty_fv(x.1));
        lemma_to_set_add(fields_fv(fs.drop_last()), ty_fv(fs.last().1));
    }
}

pub proof fn lemma_cs_fv_apply(cs: Seq<(TyV, TyV)>, a: Seq<char>, r: TyV)
    ensures
        cs_fv(cs_apply(cs, a, r)).to_set().subset_of(cs_fv(cs).to_set().remove(a).union(ty_fv(r).to_set())),
    decreases cs.len(),
{
    if cs.len() == 0 {
        assert(cs_fv(cs_apply(cs, a, r)).to_set() =~= Set::empty());
    } else {
        let c = cs_apply(cs, a, r);
        assert(c.drop_last() =~= cs_apply(cs.drop_last(), a, r));
        lemma_cs_fv_apply(cs.drop_last(), a, r);
        lemma_fv_apply(cs.last().0, a, r);
        lemma_fv_apply(cs.last().1, a, r);
        lemma_to_set_add(cs_fv(c.drop_last()), ty_fv(c.last().0));
        lemma_to_set_add(cs_fv(c.drop_last()) + ty_fv(c.last().0), ty_fv(c.last().1));
        lemma_to_set_add(cs_fv(cs.drop_last()), ty_fv(cs.last().0));
        lemma_to_set_add(cs_fv(cs.drop_last()) + ty_fv(cs.last().0), ty_fv(cs.last().1));
    }
}

pub proof fn lemma_push_pairs(st: Seq<(TyV, TyV)>, xs: Seq<TyV>, ys: Seq<TyV>)
    requires
        xs.len() == ys.len(),
    ensures
        cs_fv(push_pairs(st, xs, ys)).to_set() == cs_fv(st).to_set().union(tys_fv(xs).to_set()).union(
            tys_fv(ys).to_set(),
        ),
        cs_size(push_pairs(st, xs, ys)) == cs_size(st) + tys_size(xs) + tys_size(ys),
    decreases xs.len(),
{
    if xs.len() == 0 {
        assert(tys_fv(xs).to_set() =~= Set::empty());
        assert(tys_fv(ys).to_set() =~= Set::empty());
        assert(cs_fv(st).to_set().union(Set::empty()).union(Set::empty()) =~= cs_fv(st).to_set());
    } else {
        let st2 = st.push((xs.last(), ys.last()));
        assert(st2.drop_last() =~= st);
        lemma_push_pairs(st2, xs.drop_last(), ys.drop_last());
        lemma_to_set_add(cs_fv(st), ty_fv(xs.last()));
        lemma_to_set_add(cs_fv(st) + ty_fv(xs.last()), ty_fv(ys.last()));
        lemma_to_set_add(tys_fv(xs.drop_last()), ty_fv(xs.last()));
        lemma_to_set_add(tys_fv(ys.drop_last()), ty_fv(ys.last()));
        assert(cs_fv(push_pairs(st, xs, ys)).to_set() =~= cs_fv(st).to_set().union(tys_fv(xs).to_set()).union(
            tys_fv(ys).to_set(),
        ));
    }
}

pub proof fn lemma_field_types(fs: Seq<(Seq<char>, TyV)>)
    ensures
        tys_fv(field_types(fs)) == fields_fv(fs),
        tys_size(field_types(fs)) == fields_size(fs),
    decreases fs.len(),
{
    if fs.len() > 0 {
        assert(field_types(fs).drop_last() =~= field_types(fs.drop_last()));
        lemma_field_types(fs.drop_last());
    }
}

pub proof fn lemma_insert_field(f: (Seq<char>, TyV), fs: Seq<(Seq<char>, TyV)>)
    ensures
        fields_fv(insert_field(f, fs)).to_set() == fields_fv(fs).to_set().union(ty_fv(f.1).to_set()),
        fields_size(insert_field(f, fs)) == fields_size(fs) + ty_size(f.1),
        insert_field(f, fs).len() == fs.len() + 1,
    decreases fs.len(),
{
    if fs.len() == 0 {
        assert(seq![f].drop_last() =~= fs);
        lemma_to_set_add(fields_fv(fs), ty_fv(f.1));
    } else if name_le(fs.last().0, f.0) {
        assert(fs.push(f).drop_last() =~= fs);
        lemma_to_set_add(fields_fv(fs), ty_fv(f.1));
    } else {
        let s = insert_field(f, fs.drop_last());
        assert(s.push(fs.last()).drop_last() =~= s);
        lemma_insert_field(f, fs.drop_last());
        lemma_to_set_add(fields_fv(s), ty_fv(fs.last().1));
        lemma_to_set_add(fields_fv(fs.drop_last()), ty_fv(fs.last().1));
        assert(fields_fv(insert_field(f, fs)).to_set() =~= fields_fv(fs).to_set().union(ty_fv(f.1).to_set()));
    }
}

pub proof fn lemma_sort_fields(fs: Seq<(Seq<char>, TyV)>)
    ensures
        fields_fv(sort_fields(fs)).to_set() == fields_fv(fs).to_set(),
        fields_size(sort_fields(fs)) == fields_size(fs),
        sort_fields(fs).len() == fs.len(),
    decreases fs.len(),
{
    if fs.len() > 0 {
        lemma_sort_fields(fs.drop_last());
        lemma_insert_field(fs.last(), sort_fields(fs.drop_last()));
        lemma_to_set_add(fields_fv(fs.drop_last()), ty_fv(fs.last().1));
    }
}

pub proof fn lemma_cs_last(cs: Seq<(TyV, TyV)>)
    requires
        cs.len() > 0,
    ensures
        cs_fv(cs).to_set() == cs_fv(cs.drop_last()).to_set().union(ty_fv(cs.last().0).to_set()).union(
            ty_fv(cs.last().1).to_set(),
        ),
{
    lemma_to_set_add(cs_fv(cs.drop_last()), ty_fv(cs.last().0));
    lemma_to_set_add(cs_fv(cs.drop_last()) + ty_fv(cs.last().0), ty_fv(cs.last().1));
}

/// Unification of a stack of constraints, the top one first.
pub open spec fn unify_stack(st: Seq<(TyV, TyV)>) -> Result<Seq<(Seq<char>, TyV)>, UnifyErrorV>
    decreases cs_fv(st).to_set().len(), cs_size(st),
{
    if st.len() == 0 {
        Ok(Seq::empty())
    } else {
        let t1 = st.last().0;
        let t2 = st.last().1;
        let rest = st.drop_last();
        proof {
            lemma_cs_last(st);
            lemma_len_subset(cs_fv(rest).to_set(), cs_fv(st).to_set());
        }
        if t1 == t2 {
            unify_stack(rest)
        } else if t1 is Var && !ty_fv(t2).contains(t1->Var_0) {
            let a = t1->Var_0;
            proof {
                lemma_var_step(st, a, t2);
            }
            match unify_stack(cs_apply(rest, a, t2)) {
                Ok(s) => Ok(s.push((a, t2))),
                Err(e) => Err(e),
            }
        } else if t2 is Var && !ty_fv(t1).contains(t2->Var_0) {
            let a = t2->Var_0;
            proof {
                lemma_var_step(st, a, t1);
            }
            match unify_stack(cs_apply(rest, a, t1)) {
                Ok(s) => Ok(s.push((a, t1))),
                Err(e) => Err(e),
            }
        } else {
            match (t1, t2) {
                (TyV::Fun(a1, r1), TyV::Fun(a2, r2)) => {
                    proof {
                        lemma_fun_step(st);
                    }
                    unify_stack(push_pairs(rest, seq![*a1, *r1], seq![*a2, *r2]))
                },
                (TyV::Tuple(xs), TyV::Tuple(ys)) => {
                    if xs.len() == ys.len() {
                        proof {
                            lemma_tuple_step(st);
                        }
                        unify_stack(push_pairs(rest, xs, ys))
                    } else {
                        Err(UnifyErrorV::Mismatch(t1, t2))
                    }
                },
                (TyV::Record(xs), TyV::Record(ys)) => {
                    let sx = sort_fields(xs);
                    let sy = sort_fields(ys);
                    if field_names(sx) == field_names(sy) {
                        proof {
                            lemma_record_step(st);
                        }
                        unify_stack(push_pairs(rest, field_types(sx), field_types(sy)))
                    } else {
                        Err(UnifyErrorV::Records(TyV::Record(sx), TyV::Record(sy)))
                    }
                },
                _ => Err(UnifyErrorV::Mismatch(t1, t2)),
            }
        }
    }
}

pub proof fn lemma_var_step(st: Seq<(TyV, TyV)>, a: Seq<char>, t: TyV)
    requires
        st.len() > 0,
        (st.last().0 == TyV::Var(a) && st.last().1 == t) || (st.last().1 == TyV::Var(a) && st.last().0 == t),
        !ty_fv(t).contains(a),
    ensures
        cs_fv(cs_apply(st.drop_last(), a, t)).to_set().len() < cs_fv(st).to_set().len(),
{
    let rest = st.drop_last();
    let all = cs_fv(st).to_set();
    lemma_cs_last(st);
    lemma_cs_fv_apply(rest, a, t);
    assert(ty_fv(TyV::Var(a))[0] == a);
    assert(all.contains(a));
    assert(cs_fv(cs_apply(rest, a, t)).to_set().subset_of(all.remove(a)));
    lemma_len_subset(cs_fv(cs_apply(rest, a, t)).to_set(), all.remove(a));
}

pub proof fn lemma_fun_step(st: Seq<(TyV, TyV)>)
    requires
        st.len() > 0,
        st.last().0 is Fun,
        st.last().1 is Fun,
    ensures
        ({
            let (a1, r1) = (*st.last().0->Fun_0, *st.last().0->Fun_1);
            let (a2, r2) = (*st.last().1->Fun_0, *st.last().1->Fun_1);
            let next = push_pairs(st.drop_last(), seq![a1, r1], seq![a2, r2]);
            cs_fv(next).to_set() == cs_fv(st).to_set() && cs_size(next) < cs_size(st)
        }),
{
    let (a1, r1) = (*st.last().0->Fun_0, *st.last().0->Fun_1);
    let (a2, r2) = (*st.last().1->Fun_0, *st.last().1->Fun_1);
    let xs = seq![a1, r1];
    let ys = seq![a2, r2];
    lemma_push_pairs(st.drop_last(), xs, ys);
    lemma_cs_last(st);
    assert(xs.drop_last().drop_last() =~= Seq::<TyV>::empty());
    assert(ys.drop_last().drop_last() =~= Seq::<TyV>::empty());
    assert(xs.drop_last() =~= seq![a1]);
    assert(ys.drop_last() =~= seq![a2]);
    assert(seq![a1].drop_last() =~= Seq::<TyV>::empty());
    assert(seq![a2].drop_last() =~= Seq::<TyV>::empty());
    assert(tys_fv(Seq::<TyV>::empty()) =~= Seq::empty());
    assert(tys_size(Seq::<TyV>::empty()) == 0);
    assert(seq![a1].last() == a1);
    assert(seq![a2].last() == a2);
    assert(tys_fv(seq![a1]) =~= ty_fv(a1));
    assert(tys_fv(seq![a2]) =~= ty_fv(a2));
    assert(tys_size(seq![a1]) == ty_size(a1));
    assert(tys_size(seq![a2]) == ty_size(a2));
    assert(tys_fv(xs) =~= ty_fv(a1) + ty_fv(r1));
    assert(tys_fv(ys) =~= ty_fv(a2) + ty_fv(r2));
    lemma_to_set_add(ty_fv(a1), ty_fv(r1));
    lemma_to_set_add(ty_fv(a2), ty_fv(r2));
    let next = push_pairs(st.drop_last(), xs, ys);
    assert(cs_fv(next).to_set() =~= cs_fv(st).to_set());
}

pub proof fn lemma_tuple_step(st: Seq<(TyV, TyV)>)
    requires
        st.len() > 0,
        st.last().0 is Tuple,
        st.last().1 is Tuple,
        st.last().0->Tuple_0.len() == st.last().1->Tuple_0.len(),
    ensures
        ({
            let next = push_pairs(st.drop_last(), st.last().0->Tuple_0, st.last().1->Tuple_0);
            cs_fv(next).to_set() == cs_fv(st).to_set() && cs_size(next) < cs_size(st)
        }),
{
    lemma_push_pairs(st.drop_last(), st.last().0->Tuple_0, st.last().1->Tuple_0);
    lemma_cs_last(st);
}

pub proof fn lemma_record_step(st: Seq<(TyV, TyV)>)
    requires
        st.len() > 0,
        st.last().0 is Record,
        st.last().1 is Record,
        field_names(sort_fields(st.last().0->Record_0)) == field_names(sort_fields(st.last().1->Record_0)),
    ensures
        ({
            let sx = sort_fields(st.last().0->Record_0);
            let sy = sort_fields(st.last().1->Record_0);
            let next = push_pairs(st.drop_last(), field_types(sx), field_types(sy));
            cs_fv(next).to_set() == cs_fv(st).to_set() && cs_size(next) < cs_size(st)
        }),
{
    let xs = st.last().0->Record_0;
    let ys = st.last().1->Record_0;
    let sx = sort_fields(xs);
    let sy = sort_fields(ys);
    lemma_sort_fields(xs);
    lemma_sort_fields(ys);
    lemma_field_types(sx);
    lemma_field_types(sy);
    assert(field_names(sx).len() == field_names(sy).len());
    lemma_push_pairs(st.drop_last(), field_types(sx), field_types(sy));
    lemma_cs_last(st);
}

/// Unification of a list of constraints, the first one first.
pub open spec fn unify_spec(cs: Seq<(TyV, TyV)>) -> Result<Seq<(Seq<char>, TyV)>, UnifyErrorV> {
    unify_stack(cs.reverse())
}

/// Why two types could not be unified.
#[derive(Debug)]
pub enum UnifyError {
    /// The two types have different shapes, or a variable occurs in the other side.
    Mismatch(Ty, Ty),
    /// Two record types whose field names differ, each sorted by field name.
    Records(Ty, Ty),
}

impl View for UnifyError {
    type V = UnifyErrorV;

    open spec fn view(&self) -> UnifyErrorV {
        match self {
            UnifyError::Mismatch(a, b) => UnifyErrorV::Mismatch(a@, b@),
            UnifyError::Records(a, b) => UnifyErrorV::Records(a@, b@),
        }
    }
}

/// The models of a list of constraints.
pub open spec fn cs_model(v: Seq<Constraint>) -> Seq<(TyV, TyV)> {
    Seq::new(v.len(), |i: int| (v[i].0@, v[i].1@))
}

/// The models of a list of substitutions.
pub open spec fn subs_model(v: Seq<Substitution>) -> Seq<(Seq<char>, TyV)> {
    Seq::new(v.len(), |i: int| (v[i].0@, v[i].1@))
}

/// The model of a result of unification.
pub open spec fn unify_result_model(r: Result<Vec<Substitution>, UnifyError>) -> Result<
    Seq<(Seq<char>, TyV)>,
    UnifyErrorV,
> {
    match r {
        Ok(v) => Ok(subs_model(v@)),
        Err(e) => Err(e@),
    }
}

/// Whether name `a` sorts before or equal to name `b`.
pub fn name_le_exec(a: &String, b: &String) -> (r: bool)
    ensures
        r == name_le(a@, b@),
{
    let sa = a.as_str();
    let sb = b.as_str();
    let la = sa.unicode_len();
    let lb = sb.unicode_len();
    let mut i: usize = 0;
    proof {
        assert(a@.skip(0) =~= a@);
        assert(b@.skip(0) =~= b@);
    }
    while i < la && i < lb && sa.get_char(i) == sb.get_char(i)
        invariant
            la == a@.len(),
            lb == b@.len(),
            sa@ == a@,
            sb@ == b@,
            0 <= i <= la,
            i <= lb,
            name_le(a@, b@) == name_le(a@.skip(i as int), b@.skip(i as int)),
        decreases la - i,
    {
        proof {
            assert(a@.skip(i as int).drop_first() =~= a@.skip(i + 1));
            assert(b@.skip(i as int).drop_first() =~= b@.skip(i + 1));
        }
        i = i + 1;
    }
    if i == la {
        true
    } else if i == lb {
        false
    } else {
        (sa.get_char(i) as u32) < (sb.get_char(i) as u32)
    }
}

/// Inserts a field into a list sorted by name, after every field whose name is not greater.
fn insert_field_exec(v: &mut Vec<(String, Ty)>, f: (String, Ty))
    ensures
        fields_model(final(v)@) == insert_field((f.0@, f.1@), fields_model(old(v)@)),
    decreases old(v).len(),
{
    let ghost fm = (f.0@, f.1@);
    let n = v.len();
    if n == 0 {
        v.push(f);
        proof {
            assert(fields_model(v@) =~= seq![fm]);
        }
    } else if name_le_exec(&v[n - 1].0, &f.0) {
        let ghost v0 = v@;
        v.push(f);
        proof {
            assert(fields_model(v@) =~= fields_model(v0).push(fm));
        }
    } else {
        let ghost v0 = v@;
        let last = v.pop().unwrap();
        proof {
            assert(fields_model(v@) =~= fields_model(v0).drop_last());
        }
        insert_field_exec(v, f);
        let ghost v1 = v@;
        v.push(last);
        proof {
            assert(fields_model(v@) =~= fields_model(v1).push(fields_model(v0).last()));
        }
    }
}

/// The fields sorted by name; fields of equal names keep their order.
fn sort_fields_exec(fs: Vec<(String, Ty)>) -> (r: Vec<(String, Ty)>)
    ensures
        fields_model(r@) == sort_fields(fields_model(fs@)),
{
    let ghost orig = fields_model(fs@);
    let mut rest = fs;
    let mut out: Vec<(String, Ty)> = Vec::new();
    let mut k: usize = 0;
    let n = rest.len();
    proof {
        assert(orig.take(0) =~= Seq::<(Seq<char>, TyV)>::empty());
        assert(orig.skip(0) =~= orig);
    }
    while rest.len() > 0
        invariant
            k + rest.len() == orig.len(),
            orig.len() == n,
            fields_model(rest@) == orig.skip(k as int),
            fields_model(out@) == sort_fields(orig.take(k as int)),
        decreases rest.len(),
    {
        let ghost r0 = rest@;
        let f = rest.remove(0);
        proof {
            assert forall|j: int| 0 <= j < rest.len() implies fields_model(rest@)[j] == fields_model(r0)[j + 1] by {
                assert(rest@[j] == r0[j + 1]);
            }
            assert(fields_model(rest@) =~= orig.skip(k + 1));
            assert(orig.take(k + 1).drop_last() =~= orig.take(k as int));
            assert(fields_model(r0)[0] == orig[k as int]);
        }
        insert_field_exec(&mut out, f);
        k = k + 1;
    }
    proof {
        assert(orig.take(k as int) =~= orig);
    }
    out
}

/// Pushes the pairs `(xs[i], ys[i])` on the stack, so that the first pair ends on top.
fn push_pairs_exec(st: &mut Vec<Constraint>, xs: Vec<Ty>, ys: Vec<Ty>)
    requires
        xs.len() == ys.len(),
    ensures
        cs_model(final(st)@) == push_pairs(cs_model(old(st)@), tys_model(xs@), tys_model(ys@)),
{
    let ghost goal = push_pairs(cs_model(st@), tys_model(xs@), tys_model(ys@));
    let mut xs = xs;
    let mut ys = ys;
    while xs.len() > 0
        invariant
            xs.len() == ys.len(),
            push_pairs(cs_model(st@), tys_model(xs@), tys_model(ys@)) == goal,
        decreases xs.len(),
    {
        let ghost (s0, x0, y0) = (st@, xs@, ys@);
        let x = xs.pop().unwrap();
        let y = ys.pop().unwrap();
        st.push((x, y));
        proof {
            assert(cs_model(st@) =~= cs_model(s0).push((x0.last()@, y0.last()@)));
            assert(tys_model(xs@) =~= tys_model(x0).drop_last());
            assert(tys_model(ys@) =~= tys_model(y0).drop_last());
        }
    }
}

/// Pushes the pairs of field types `(xs[i].1, ys[i].1)` on the stack, the first pair on top.
fn push_field_pairs_exec(st: &mut Vec<Constraint>, xs: Vec<(String, Ty)>, ys: Vec<(String, Ty)>)
    requires
        xs.len() == ys.len(),
    ensures
        cs_model(final(st)@) == push_pairs(
            cs_model(old(st)@),
            field_types(fields_model(xs@)),
            field_types(fields_model(ys@)),
        ),
{
    let ghost goal = push_pairs(cs_model(st@), field_types(fields_model(xs@)), field_types(fields_model(ys@)));
    let mut xs = xs;
    let mut ys = ys;
    while xs.len() > 0
        invariant
            xs.len() == ys.len(),
            push_pairs(cs_model(st@), field_types(fields_model(xs@)), field_types(fields_model(ys@))) == goal,
        decreases xs.len(),
    {
        let ghost (s0, x0, y0) = (st@, xs@, ys@);
        let x = xs.pop().unwrap();
        let y = ys.pop().unwrap();
        st.push((x.1, y.1));
        proof {
            assert(cs_model(st@) =~= cs_model(s0).push((x0.last().1@, y0.last().1@)));
            assert(field_types(fields_model(xs@)) =~= field_types(fields_model(x0)).drop_last());
            assert(field_types(fields_model(ys@)) =~= field_types(fields_model(y0)).drop_last());
        }
    }
}

/// Whether two lists of fields have the same names in the same order.
fn same_names(xs: &Vec<(String, Ty)>, ys: &Vec<(String, Ty)>) -> (r: bool)
    ensures
        r == (field_names(fields_model(xs@)) == field_names(fields_model(ys@))),
{
    if xs.len() != ys.len() {
        proof {
            assert(field_names(fields_model(xs@)).len() != field_names(fields_model(ys@)).len());
        }
        return false;
    }
    let mut i: usize = 0;
    while i < xs.len()
        invariant
            xs.len() == ys.len(),
            0 <= i <= xs.len(),
            forall|j: int| 0 <= j < i ==> xs@[j].0@ == ys@[j].0@,
        decreases xs.len() - i,
    {
        if !(xs[i].0 == ys[i].0) {
            proof {
                assert(field_names(fields_model(xs@))[i as int] != field_names(fields_model(ys@))[i as int]);
            }
            return false;
        }
        i = i + 1;
    }
    proof {
        assert(field_names(fields_model(xs@)) =~= field_names(fields_model(ys@)));
    }
    true
}

/// A substitution applied to both sides of every constraint.
fn cs_apply_exec(cs: &Vec<Constraint>, sub: &Substitution) -> (r: Vec<Constraint>)
    ensures
        cs_model(r@) == cs_apply(cs_model(cs@), sub.0@, sub.1@),
{
    let mut out: Vec<Constraint> = Vec::new();
    let mut i: usize = 0;
    while i < cs.len()
        invariant
            0 <= i <= cs.len(),
            out.len() == i,
            forall|j: int|
                0 <= j < i ==> out@[j].0@ == ty_apply(cs@[j].0@, sub.0@, sub.1@) && out@[j].1@ == ty_apply(
                    cs@[j].1@,
                    sub.0@,
                    sub.1@,
                ),
        decreases cs.len() - i,
    {
        out.push((apply(&cs[i].0, sub), apply(&cs[i].1, sub)));
        i = i + 1;
    }
    proof {
        assert(cs_model(out@) =~= cs_apply(cs_model(cs@), sub.0@, sub.1@));
    }
    out
}

/// Unification of a stack of constraints, the top one first.
fn unify_stack_exec(st: Vec<Constraint>) -> (r: Result<Vec<Substitution>, UnifyError>)
    ensures
        unify_result_model(r) == unify_stack(cs_model(st@)),
    decreases cs_fv(cs_model(st@)).to_set().len(), cs_size(cs_model(st@)),
{
    let ghost m = cs_model(st@);
    let mut st = st;
    if st.len() == 0 {
        let r: Vec<Substitution> = Vec::new();
        proof {
            assert(subs_model(r@) =~= Seq::empty());
        }
        return Ok(r);
    }
    let (t1, t2) = st.pop().unwrap();
    proof {
        assert(cs_model(st@) =~= m.drop_last());
        lemma_cs_last(m);
        lemma_len_subset(cs_fv(m.drop_last()).to_set(), cs_fv(m).to_set());
    }
    if ty_eq(&t1, &t2) {
        return unify_stack_exec(st);
    }
    if let Ty::Var(a) = &t1 {
        if !contains_name(&ty_free_vars(&t2), a) {
            let sub: Substitution = (a.clone(), t2);
            let next = cs_apply_exec(&st, &sub);
            proof {
                lemma_var_step(m, a@, t2@);
            }
            return match unify_stack_exec(next) {
                Ok(mut s) => {
                    let ghost s0 = s@;
                    s.push(sub);
                    proof {
                        assert(subs_model(s@) =~= subs_model(s0).push((sub.0@, sub.1@)));
                    }
                    Ok(s)
                },
                Err(e) => Err(e),
            };
        }
    }
    if let Ty::Var(a) = &t2 {
        if !contains_name(&ty_free_vars(&t1), a) {
            let sub: Substitution = (a.clone(), t1);
            let next = cs_apply_exec(&st, &sub);
            proof {
                lemma_var_step(m, a@, t1@);
            }
            return match unify_stack_exec(next) {
                Ok(mut s) => {
                    let ghost s0 = s@;
                    s.push(sub);
                    proof {
                        assert(subs_model(s@) =~= subs_model(s0).push((sub.0@, sub.1@)));
                    }
                    Ok(s)
                },
                Err(e) => Err(e),
            };
        }
    }
    proof {
        lemma_ty_model(&t1);
        lemma_ty_model(&t2);
    }
    match (t1, t2) {
        (Ty::Fun(a1, r1), Ty::Fun(a2, r2)) => {
            proof {
                lemma_fun_step(m);
            }
            let ghost s0 = st@;
            st.push((*r1, *r2));
            st.push((*a1, *a2));
            proof {
                let xs = seq![a1@, r1@];
                let ys = seq![a2@, r2@];
                assert(xs.drop_last().drop_last() =~= Seq::<TyV>::empty());
                assert(ys.drop_last().drop_last() =~= Seq::<TyV>::empty());
                assert(xs.drop_last() =~= seq![a1@]);
                assert(ys.drop_last() =~= seq![a2@]);
                assert(cs_model(st@) =~= cs_model(s0).push((r1@, r2@)).push((a1@, a2@)));
                let pushed = m.drop_last().push((r1@, r2@));
                assert(push_pairs(m.drop_last(), xs, ys) == push_pairs(pushed, xs.drop_last(), ys.drop_last()));
                assert(push_pairs(pushed, seq![a1@], seq![a2@]) == push_pairs(
                    pushed.push((a1@, a2@)),
                    Seq::<TyV>::empty(),
                    Seq::<TyV>::empty(),
                ));
                assert(cs_model(st@) == push_pairs(m.drop_last(), xs, ys));
            }
            unify_stack_exec(st)
        },
        (Ty::Tuple(xs), Ty::Tuple(ys)) => {
            if xs.len() == ys.len() {
                proof {
                    lemma_tuple_step(m);
                }
                push_pairs_exec(&mut st, xs, ys);
                unify_stack_exec(st)
            } else {
                Err(UnifyError::Mismatch(Ty::Tuple(xs), Ty::Tuple(ys)))
            }
        },
        (Ty::Record(xs), Ty::Record(ys)) => {
            let sx = sort_fields_exec(xs);
            let sy = sort_fields_exec(ys);
            if same_names(&sx, &sy) {
                proof {
                    lemma_record_step(m);
                    assert(field_names(fields_model(sx@)).len() == sx.len());
                }
                push_field_pairs_exec(&mut st, sx, sy);
                unify_stack_exec(st)
            } else {
                let r = UnifyError::Records(Ty::Record(sx), Ty::Record(sy));
                proof {
                    lemma_ty_model(&r->Records_0);
                    lemma_ty_model(&r->Records_1);
                }
                Err(r)
            }
        },
        (t1, t2) => Err(UnifyError::Mismatch(t1, t2)),
    }
}

/// Unifies a list of constraints, left to right.
///
/// On success the result lists the substitutions found, the one found last first.
pub fn unify(constraints: Vec<Constraint>) -> (r: Result<Vec<Substitution>, UnifyError>)
    ensures
        unify_result_model(r) == unify_spec(cs_model(constraints@)),
{
    let ghost m = cs_model(constraints@);
    let mut rest = constraints;
    let mut st: Vec<Constraint> = Vec::new();
    while rest.len() > 0
        invariant
            cs_model(st@) == m.reverse().take(m.len() - rest.len()),
            cs_model(rest@) == m.take(rest.len() as int),
            rest.len() <= m.len(),
        decreases rest.len(),
    {
        let ghost r0 = rest@;
        let ghost s0 = st@;
        let c = rest.pop().unwrap();
        st.push(c);
        proof {
            assert(cs_model(rest@) =~= m.take(rest.len() as int));
            assert(cs_model(st@) =~= cs_model(s0).push(cs_model(r0).last()));
            assert(cs_model(r0).last() == m[rest.len() as int]);
            assert(m.reverse().take(m.len() - rest.len()) =~= m.reverse().take(m.len() - r0.len()).push(
                m[rest.len() as int],
            ));
        }
    }
    proof {
        assert(m.reverse().take(m.len() as int) =~= m.reverse());
    }
    unify_stack_exec(st)
}

impl PartialEq for UnifyError {
    fn eq(&self, other: &UnifyError) -> (r: bool) {
        match (self, other) {
            (UnifyError::Mismatch(a1, b1), UnifyError::Mismatch(a2, b2)) => ty_eq(a1, a2) && ty_eq(b1, b2),
            (UnifyError::Records(a1, b1), UnifyError::Records(a2, b2)) => ty_eq(a1, a2) && ty_eq(b1, b2),
            _ => false,
        }
    }
}

impl vstd::std_specs::cmp::PartialEqSpecImpl for UnifyError {
    open spec fn obeys_eq_spec() -> bool {
        true
    }

    open spec fn eq_spec(&self, other: &UnifyError) -> bool {
        self@ == other@
    }
}

/// Record types unify only when they have the same field names: when the names,
/// sorted, differ, unification fails with both records, sorted by field name.
pub proof fn lemma_records_field_set_exact(xs: Seq<(Seq<char>, TyV)>, ys: Seq<(Seq<char>, TyV)>)
    requires
        field_names(sort_fields(xs)) != field_names(sort_fields(ys)),
    ensures
        unify_spec(seq![(TyV::Record(xs), TyV::Record(ys))]) == Err::<Seq<(Seq<char>, TyV)>, UnifyErrorV>(
            UnifyErrorV::Records(TyV::Record(sort_fields(xs)), TyV::Record(sort_fields(ys))),
        ),
{
    let c = seq![(TyV::Record(xs), TyV::Record(ys))];
    assert(c.reverse() =~= c);
}

/// Occurs check: a variable never unifies with a different type in which it occurs,
/// whichever side of the constraint it stands on.
pub proof fn lemma_occurs_check(a: Seq<char>, t: TyV)
    requires
        ty_fv(t).contains(a),
        t != TyV::Var(a),
    ensures
        unify_spec(seq![(TyV::Var(a), t)]) is Err,
        unify_spec(seq![(t, TyV::Var(a))]) is Err,
{
    let c1 = seq![(TyV::Var(a), t)];
    let c2 = seq![(t, TyV::Var(a))];
    assert(c1.reverse() =~= c1);
    assert(c2.reverse() =~= c2);
    if let TyV::Var(b) = t {
        assert(ty_fv(t) == seq![b]);
        assert(seq![b][0] == b);
    }
}

} // verus!
