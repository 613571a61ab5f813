use vstd::prelude::*;
use crate::ast::TyV;
use crate::ty::{ty_fv, tys_fv, fields_fv, ty_apply, tys_apply, fields_apply, lemma_tys_apply_index, lemma_fields_apply_index};
use crate::unify::{
    unify_stack, unify_spec, push_pairs, cs_apply, sort_fields, field_names, field_types, name_le, cs_fv,
    cs_size, lemma_cs_last, lemma_var_step, lemma_fun_step, lemma_tuple_step, lemma_record_step,
};
use vstd::set_lib::lemma_len_subset;
use vstd::seq_lib::seq_to_set_is_finite;

verus! {

broadcast use {vstd::seq::group_seq_axioms, vstd::set::group_set_axioms, seq_to_set_is_finite};

/// `t` with the substitutions applied one after the other, the last one of the list first.
pub open spec fn apply_subs(subs: Seq<(Seq<char>, TyV)>, t: TyV) -> TyV
    decreases subs.len(),
{
    if subs.len() == 0 {
        t
    } else {
        apply_subs(subs.drop_last(), ty_apply(t, subs.last().0, subs.last().1))
    }
}

/// Whether the fields are listed in order of their names.
pub open spec fn fields_in_order(fs: Seq<(Seq<char>, TyV)>) -> bool {
    forall|i: int| 0 < i < fs.len() ==> name_le(#[trigger] fs[i - 1].0, fs[i].0)
}

/// Whether every record type in `t` lists its fields in order of their names.
pub open spec fn ty_ordered(t: TyV) -> bool
    decreases t,
{
    match t {
        TyV::Tuple(ts) => tys_ordered(ts),
        TyV::Defined(_, ts) => tys_ordered(ts),
        TyV::Record(fs) => fields_in_order(fs) && fields_ordered(fs),
        TyV::Fun(a, b) => ty_ordered(*a) && ty_ordered(*b),
        _ => true,
    }
}

pub open spec fn tys_ordered(ts: Seq<TyV>) -> bool
    decreases ts,
{
    if ts.len() == 0 {
        true
    } else {
        tys_ordered(ts.drop_last()) && ty_ordered(ts.last())
    }
}

pub open spec fn fields_ordered(fs: Seq<(Seq<char>, TyV)>) -> bool
    decreases fs,
{
    if fs.len() == 0 {
        true
    } else {
        fields_ordered(fs.drop_last()) && ty_ordered(fs.last().1)
    }
}

/// Whether every record type in the constraints lists its fields in order of their names.
pub open spec fn cs_ordered(cs: Seq<(TyV, TyV)>) -> bool {
    forall|i: int| 0 <= i < cs.len() ==> ty_ordered(#[trigger] cs[i].0) && ty_ordered(cs[i].1)
}

proof fn lemma_tys_ordered(ts: Seq<TyV>)
    ensures
        tys_ordered(ts) <==> forall|i: int| 0 <= i < ts.len() ==> ty_ordered(#[trigger] ts[i]),
    decreases ts.len(),
{
    if ts.len() > 0 {
        lemma_tys_ordered(ts.drop_last());
        if tys_ordered(ts) {
            assert forall|i: int| 0 <= i < ts.len() implies ty_ordered(#[trigger] ts[i]) by {
                if i < ts.len() - 1 {
                    assert(ts.drop_last()[i] == ts[i]);
                }
            }
        }
        if forall|i: int| 0 <= i < ts.len() ==> ty_ordered(#[trigger] ts[i]) {
            assert forall|i: int| 0 <= i < ts.drop_last().len() implies ty_ordered(#[trigger] ts.drop_last()[i]) by {
                assert(ts.drop_last()[i] == ts[i]);
            }
        }
    }
}

proof fn lemma_fields_ordered(fs: Seq<(Seq<char>, TyV)>)
    ensures
        fields_ordered(fs) <==> forall|i: int| 0 <= i < fs.len() ==> ty_ordered(#[trigger] fs[i].1),
    decreases fs.len(),
{
    if fs.len() > 0 {
        lemma_fields_ordered(fs.drop_last());
        if fields_ordered(fs) {
            assert forall|i: int| 0 <= i < fs.len() implies ty_ordered(#[trigger] fs[i].1) by {
                if i < fs.len() - 1 {
                    assert(fs.drop_last()[i] == fs[i]);
                }
            }
        }
        if forall|i: int| 0 <= i < fs.len() ==> ty_ordered(#[trigger] fs[i].1) {
            assert forall|i: int| 0 <= i < fs.drop_last().len() implies ty_ordered(#[trigger] fs.drop_last()[i].1) by {
                assert(fs.drop_last()[i] == fs[i]);
            }
        }
    }
}

/// Applying a substitution keeps every record's fields in order.
proof fn lemma_apply_ordered(t: TyV, a: Seq<char>, r: TyV)
    requires
        ty_ordered(t),
        ty_ordered(r),
    ensures
        ty_ordered(ty_apply(t, a, r)),
    decreases t,
{
    match t {
        TyV::Tuple(ts) => {
            lemma_tys_apply_ordered(ts, a, r);
        },
        TyV::Defined(_, ts) => {
            lemma_tys_apply_ordered(ts, a, r);
        },
        TyV::Record(fs) => {
            lemma_fields_apply_ordered(fs, a, r);
            lemma_fields_apply_index(fs, a, r);
            let gs = fields_apply(fs, a, r);
            assert forall|i: int| 0 < i < gs.len() implies name_le(#[trigger] gs[i - 1].0, gs[i].0) by {
                assert(gs[i - 1].0 == fs[i - 1].0);
                assert(gs[i].0 == fs[i].0);
            }
        },
        TyV::Fun(x, y) => {
            lemma_apply_ordered(*x, a, r);
            lemma_apply_ordered(*y, a, r);
        },
        _ => {},
    }
}

proof fn lemma_tys_apply_ordered(ts: Seq<TyV>, a: Seq<char>, r: TyV)
    requires
        tys_ordered(ts),
        ty_ordered(r),
    ensures
        tys_ordered(tys_apply(ts, a, r)),
    decreases ts,
{
    if ts.len() > 0 {
        let s = tys_apply(ts.drop_last(), a, r);
        assert(s.push(ty_apply(ts.last(), a, r)).drop_last() =~= s);
        lemma_tys_apply_ordered(ts.drop_last(), a, r);
        lemma_apply_ordered(ts.last(), a, r);
    }
}

proof fn lemma_fields_apply_ordered(fs: Seq<(Seq<char>, TyV)>, a: Seq<char>, r: TyV)
    requires
        fields_ordered(fs),
        ty_ordered(r),
    ensures
        fields_ordered(fields_apply(fs, a, r)),
    decreases fs,
{
    if fs.len() > 0 {
        let s = fields_apply(fs.drop_last(), a, r);
        assert(s.push((fs.last().0, ty_apply(fs.last().1, a, r))).drop_last() =~= s);
        lemma_fields_apply_ordered(fs.drop_last(), a, r);
        lemma_apply_ordered(fs.last().1, a, r);
    }
}

/// A substitution for a variable that does not occur leaves a type as it is.
proof fn lemma_apply_absent(t: TyV, a: Seq<char>, r: TyV)
    requires
        !ty_fv(t).contains(a),
    ensures
        ty_apply(t, a, r) == t,
    decreases t,
{
    match t {
        TyV::Tuple(ts) => lemma_tys_apply_absent(ts, a, r),
        TyV::Defined(_, ts) => lemma_tys_apply_absent(ts, a, r),
        TyV::Record(fs) => lemma_fields_apply_absent(fs, a, r),
        TyV::Var(n) => {
            assert(ty_fv(t)[0] == n);
        },
        TyV::Fun(x, y) => {
            assert forall|v: Seq<char>| ty_fv(*x).contains(v) implies ty_fv(t).contains(v) by {
                let k = choose|k: int| 0 <= k < ty_fv(*x).len() && ty_fv(*x)[k] == v;
                assert(ty_fv(t)[k] == v);
            }
            assert forall|v: Seq<char>| ty_fv(*y).contains(v) implies ty_fv(t).contains(v) by {
                let k = choose|k: int| 0 <= k < ty_fv(*y).len() && ty_fv(*y)[k] == v;
                assert(ty_fv(t)[ty_fv(*x).len() + k] == v);
            }
            lemma_apply_absent(*x, a, r);
            lemma_apply_absent(*y, a, r);
        },
        _ => {},
    }
}

proof fn lemma_tys_apply_absent(ts: Seq<TyV>, a: Seq<char>, r: TyV)
    requires
        !tys_fv(ts).contains(a),
    ensures
        tys_apply(ts, a, r) == ts,
    decreases ts,
{
    if ts.len() > 0 {
        let p = tys_fv(ts.drop_last());
        let q = ty_fv(ts.last());
        assert forall|v: Seq<char>| p.contains(v) implies tys_fv(ts).contains(v) by {
            let k = choose|k: int| 0 <= k < p.len() && p[k] == v;
            assert(tys_fv(ts)[k] == v);
        }
        assert forall|v: Seq<char>| q.contains(v) implies tys_fv(ts).contains(v) by {
            let k = choose|k: int| 0 <= k < q.len() && q[k] == v;
            assert(tys_fv(ts)[p.len() + k] == v);
        }
        lemma_tys_apply_absent(ts.drop_last(), a, r);
        lemma_apply_absent(ts.last(), a, r);
        assert(tys_apply(ts, a, r) =~= ts);
    }
}

proof fn lemma_fields_apply_absent(fs: Seq<(Seq<char>, TyV)>, a: Seq<char>, r: TyV)
    requires
        !fields_fv(fs).contains(a),
    ensures
        fields_apply(fs, a, r) == fs,
    decreases fs,
{
    if fs.len() > 0 {
        let p = fields_fv(fs.drop_last());
        let q = ty_fv(fs.last().1);
        assert forall|v: Seq<char>| p.contains(v) implies fields_fv(fs).contains(v) by {
            let k = choose|k: int| 0 <= k < p.len() && p[k] == v;
            assert(fields_fv(fs)[k] == v);
        }
        assert forall|v: Seq<char>| q.contains(v) implies fields_fv(fs).contains(v) by {
            let k = choose|k: int| 0 <= k < q.len() && q[k] == v;
            assert(fields_fv(fs)[p.len() + k] == v);
        }
        lemma_fields_apply_absent(fs.drop_last(), a, r);
        lemma_apply_absent(fs.last().1, a, r);
        assert(fields_apply(fs, a, r) =~= fs);
    }
}

proof fn lemma_apply_subs_fun(subs: Seq<(Seq<char>, TyV)>, x: TyV, y: TyV)
    ensures
        apply_subs(subs, TyV::Fun(Box::new(x), Box::new(y))) == TyV::Fun(
            Box::new(apply_subs(subs, x)),
            Box::new(apply_subs(subs, y)),
        ),
    decreases subs.len(),
{
    if subs.len() > 0 {
        let (a, r) = subs.last();
        lemma_apply_subs_fun(subs.drop_last(), ty_apply(x, a, r), ty_apply(y, a, r));
    }
}

proof fn lemma_apply_subs_tuple(subs: Seq<(Seq<char>, TyV)>, ts: Seq<TyV>)
    ensures
        apply_subs(subs, TyV::Tuple(ts)) == TyV::Tuple(Seq::new(ts.len(), |i: int| apply_subs(subs, ts[i]))),
    decreases subs.len(),
{
    if subs.len() == 0 {
        assert(ts =~= Seq::new(ts.len(), |i: int| apply_subs(subs, ts[i])));
    } else {
        let (a, r) = subs.last();
        let us = tys_apply(ts, a, r);
        lemma_tys_apply_index(ts, a, r);
        lemma_apply_subs_tuple(subs.drop_last(), us);
        assert(Seq::new(us.len(), |i: int| apply_subs(subs.drop_last(), us[i])) =~= Seq::new(
            ts.len(),
            |i: int| apply_subs(subs, ts[i]),
        ));
    }
}

proof fn lemma_apply_subs_record(subs: Seq<(Seq<char>, TyV)>, fs: Seq<(Seq<char>, TyV)>)
    ensures
        apply_subs(subs, TyV::Record(fs)) == TyV::Record(
            Seq::new(fs.len(), |i: int| (fs[i].0, apply_subs(subs, fs[i].1))),
        ),
    decreases subs.len(),
{
    if subs.len() == 0 {
        assert(fs =~= Seq::new(fs.len(), |i: int| (fs[i].0, apply_subs(subs, fs[i].1))));
    } else {
        let (a, r) = subs.last();
        let us = fields_apply(fs, a, r);
        lemma_fields_apply_index(fs, a, r);
        lemma_apply_subs_record(subs.drop_last(), us);
        assert(Seq::new(us.len(), |i: int| (us[i].0, apply_subs(subs.drop_last(), us[i].1))) =~= Seq::new(
            fs.len(),
            |i: int| (fs[i].0, apply_subs(subs, fs[i].1)),
        ));
    }
}

proof fn lemma_push_pairs_index(st: Seq<(TyV, TyV)>, xs: Seq<TyV>, ys: Seq<TyV>)
    requires
        xs.len() == ys.len(),
    ensures
        push_pairs(st, xs, ys).len() == st.len() + xs.len(),
        forall|k: int| 0 <= k < st.len() ==> #[trigger] push_pairs(st, xs, ys)[k] == st[k],
        forall|j: int|
            0 <= j < xs.len() ==> #[trigger] push_pairs(st, xs, ys)[st.len() + xs.len() - 1 - j] == (xs[j], ys[j]),
    decreases xs.len(),
{
    if xs.len() > 0 {
        let st2 = st.push((xs.last(), ys.last()));
        lemma_push_pairs_index(st2, xs.drop_last(), ys.drop_last());
        let r = push_pairs(st, xs, ys);
        assert forall|k: int| 0 <= k < st.len() implies #[trigger] r[k] == st[k] by {
            assert(r[k] == st2[k]);
        }
        assert forall|j: int| 0 <= j < xs.len() implies #[trigger] r[st.len() + xs.len() - 1 - j] == (xs[j], ys[j]) by {
            if j == xs.len() - 1 {
                assert(r[st.len() as int] == st2[st.len() as int]);
            } else {
                assert(xs.drop_last()[j] == xs[j]);
                assert(ys.drop_last()[j] == ys[j]);
            }
        }
    }
}

proof fn lemma_sort_in_order(fs: Seq<(Seq<char>, TyV)>)
    requires
        fields_in_order(fs),
    ensures
        sort_fields(fs) == fs,
    decreases fs.len(),
{
    if fs.len() > 0 {
        let d = fs.drop_last();
        assert forall|i: int| 0 < i < d.len() implies name_le(#[trigger] d[i - 1].0, d[i].0) by {
            assert(d[i - 1] == fs[i - 1]);
            assert(d[i] == fs[i]);
        }
        lemma_sort_in_order(d);
        if d.len() == 0 {
            assert(seq![fs.last()] =~= fs);
        } else {
            assert(name_le(fs[fs.len() - 2].0, fs[fs.len() - 1].0));
            assert(d.push(fs.last()) =~= fs);
        }
    }
}

proof fn lemma_apply_subs_push(s1: Seq<(Seq<char>, TyV)>, a: Seq<char>, t: TyV, x: TyV)
    ensures
        apply_subs(s1.push((a, t)), x) == apply_subs(s1, ty_apply(x, a, t)),
{
    assert(s1.push((a, t)).drop_last() =~= s1);
}

proof fn lemma_var_case(st: Seq<(TyV, TyV)>, a: Seq<char>, t: TyV, s1: Seq<(Seq<char>, TyV)>)
    requires
        st.len() > 0,
        st.last() == (TyV::Var(a), t) || st.last() == (t, TyV::Var(a)),
        !ty_fv(t).contains(a),
        forall|i: int|
            0 <= i < st.len() - 1 ==> apply_subs(s1, #[trigger] cs_apply(st.drop_last(), a, t)[i].0) == apply_subs(
                s1,
                cs_apply(st.drop_last(), a, t)[i].1,
            ),
    ensures
        forall|i: int|
            0 <= i < st.len() ==> apply_subs(s1.push((a, t)), #[trigger] st[i].0) == apply_subs(
                s1.push((a, t)),
                st[i].1,
            ),
{
    lemma_apply_absent(t, a, t);
    let next = cs_apply(st.drop_last(), a, t);
    assert forall|i: int| 0 <= i < st.len() implies apply_subs(s1.push((a, t)), #[trigger] st[i].0) == apply_subs(
        s1.push((a, t)),
        st[i].1,
    ) by {
        lemma_apply_subs_push(s1, a, t, st[i].0);
        lemma_apply_subs_push(s1, a, t, st[i].1);
        if i < st.len() - 1 {
            assert(st.drop_last()[i] == st[i]);
            assert(next[i] == (ty_apply(st[i].0, a, t), ty_apply(st[i].1, a, t)));
            assert(apply_subs(s1, next[i].0) == apply_subs(s1, next[i].1));
        } else {
            assert(ty_apply(TyV::Var(a), a, t) == t);
        }
    }
}

proof fn lemma_cs_ordered_at(cs: Seq<(TyV, TyV)>, i: int)
    requires
        cs_ordered(cs),
        0 <= i < cs.len(),
    ensures
        ty_ordered(cs[i].0) && ty_ordered(cs[i].1),
{
}

#[verifier::spinoff_prover]
#[verifier::rlimit(50)]
proof fn lemma_stack_sound(st: Seq<(TyV, TyV)>)
    requires
        cs_ordered(st),
        unify_stack(st) is Ok,
    ensures
        forall|i: int|
            0 <= i < st.len() ==> apply_subs(unify_stack(st)->Ok_0, #[trigger] st[i].0) == apply_subs(
                unify_stack(st)->Ok_0,
                st[i].1,
            ),
    decreases cs_fv(st).to_set().len(), cs_size(st),
{
    if st.len() == 0 {
        return;
    }
    let t1 = st.last().0;
    let t2 = st.last().1;
    let rest = st.drop_last();
    let n = st.len() - 1;
    lemma_cs_last(st);
    lemma_len_subset(cs_fv(rest).to_set(), cs_fv(st).to_set());
    assert forall|i: int| 0 <= i < rest.len() implies #[trigger] rest[i] == st[i] by {}
    assert(cs_ordered(rest)) by {
        assert forall|i: int| 0 <= i < rest.len() implies ty_ordered(#[trigger] rest[i].0) && ty_ordered(rest[i].1) by {
            lemma_cs_ordered_at(st, i);
        }
    }
    lemma_cs_ordered_at(st, n as int);
    if t1 == t2 {
        lemma_stack_sound(rest);
        let s = unify_stack(rest)->Ok_0;
        assert forall|i: int| 0 <= i < st.len() implies apply_subs(s, #[trigger] st[i].0) == apply_subs(s, st[i].1) by {
            if i < n {
                assert(rest[i] == st[i]);
                assert(apply_subs(s, rest[i].0) == apply_subs(s, rest[i].1));
            }
        }
    } else if t1 is Var && !ty_fv(t2).contains(t1->Var_0) {
        let a = t1->Var_0;
        lemma_var_step(st, a, t2);
        let next = cs_apply(rest, a, t2);
        assert forall|i: int| 0 <= i < next.len() implies ty_ordered(#[trigger] next[i].0) && ty_ordered(next[i].1) by {
            lemma_cs_ordered_at(rest, i);
            lemma_apply_ordered(rest[i].0, a, t2);
            lemma_apply_ordered(rest[i].1, a, t2);
        }
        lemma_stack_sound(next);
        let s1 = unify_stack(next)->Ok_0;
        let s = unify_stack(st)->Ok_0;
        assert(s == s1.push((a, t2)));
        assert(s.drop_last() =~= s1);
        lemma_var_case(st, a, t2, s1);
    } else if t2 is Var && !ty_fv(t1).contains(t2->Var_0) {
        let a = t2->Var_0;
        lemma_var_step(st, a, t1);
        let next = cs_apply(rest, a, t1);
        assert forall|i: int| 0 <= i < next.len() implies ty_ordered(#[trigger] next[i].0) && ty_ordered(next[i].1) by {
            lemma_cs_ordered_at(rest, i);
            lemma_apply_ordered(rest[i].0, a, t1);
            lemma_apply_ordered(rest[i].1, a, t1);
        }
        lemma_stack_sound(next);
        let s1 = unify_stack(next)->Ok_0;
        let s = unify_stack(st)->Ok_0;
        assert(s == s1.push((a, t1)));
        assert(s.drop_last() =~= s1);
        lemma_var_case(st, a, t1, s1);
    } else {
        match (t1, t2) {
            (TyV::Fun(a1, r1), TyV::Fun(a2, r2)) => {
                lemma_fun_step(st);
                let xs = seq![*a1, *r1];
                let ys = seq![*a2, *r2];
                let next = push_pairs(rest, xs, ys);
                lemma_push_pairs_index(rest, xs, ys);
                assert(next[n + 1] == (*a1, *a2));
                assert(next[n as int] == (*r1, *r2));
                assert forall|i: int| 0 <= i < next.len() implies ty_ordered(#[trigger] next[i].0) && ty_ordered(
                    next[i].1,
                ) by {
                    if i < n {
                        assert(next[i] == rest[i]);
                        lemma_cs_ordered_at(rest, i);
                    } else {
                        assert(ty_ordered(*a1) && ty_ordered(*r1) && ty_ordered(*a2) && ty_ordered(*r2));
                    }
                }
                lemma_stack_sound(next);
                let s = unify_stack(next)->Ok_0;
                assert(unify_stack(st) == unify_stack(next));
                lemma_apply_subs_fun(s, *a1, *r1);
                lemma_apply_subs_fun(s, *a2, *r2);
                assert forall|i: int| 0 <= i < st.len() implies apply_subs(s, #[trigger] st[i].0) == apply_subs(
                    s,
                    st[i].1,
                ) by {
                    if i < n {
                        assert(next[i] == rest[i]);
                    } else {
                        assert(apply_subs(s, next[n + 1].0) == apply_subs(s, next[n + 1].1));
                        assert(apply_subs(s, next[n as int].0) == apply_subs(s, next[n as int].1));
                    }
                }
            },
            (TyV::Tuple(xs), TyV::Tuple(ys)) => {
                lemma_tuple_step(st);
                let next = push_pairs(rest, xs, ys);
                lemma_push_pairs_index(rest, xs, ys);
                lemma_tys_ordered(xs);
                lemma_tys_ordered(ys);
                assert forall|i: int| 0 <= i < next.len() implies ty_ordered(#[trigger] next[i].0) && ty_ordered(
                    next[i].1,
                ) by {
                    if i < n {
                        assert(next[i] == rest[i]);
                        lemma_cs_ordered_at(rest, i);
                    } else {
                        let j = n + xs.len() - 1 - i;
                        assert(next[n + xs.len() - 1 - j] == (xs[j], ys[j]));
                    }
                }
                lemma_stack_sound(next);
                let s = unify_stack(next)->Ok_0;
                assert(unify_stack(st) == unify_stack(next));
                lemma_apply_subs_tuple(s, xs);
                lemma_apply_subs_tuple(s, ys);
                assert forall|j: int| 0 <= j < xs.len() implies apply_subs(s, #[trigger] xs[j]) == apply_subs(s, ys[j]) by {
                    let k = n + xs.len() - 1 - j;
                    assert(next[k] == (xs[j], ys[j]));
                    assert(apply_subs(s, next[k].0) == apply_subs(s, next[k].1));
                }
                assert(Seq::new(xs.len(), |i: int| apply_subs(s, xs[i])) =~= Seq::new(
                    ys.len(),
                    |i: int| apply_subs(s, ys[i]),
                ));
                assert forall|i: int| 0 <= i < st.len() implies apply_subs(s, #[trigger] st[i].0) == apply_subs(
                    s,
                    st[i].1,
                ) by {
                    if i < n {
                        assert(next[i] == rest[i]);
                    }
                }
            },
            (TyV::Record(xs), TyV::Record(ys)) => {
                lemma_sort_in_order(xs);
                lemma_sort_in_order(ys);
                lemma_record_step(st);
                let next = push_pairs(rest, field_types(xs), field_types(ys));
                assert(field_names(xs) == field_names(ys));
                assert(field_names(xs).len() == xs.len());
                lemma_push_pairs_index(rest, field_types(xs), field_types(ys));
                assert(ty_ordered(st[n as int].0) && ty_ordered(st[n as int].1));
                lemma_fields_ordered(xs);
                lemma_fields_ordered(ys);
                let m = xs.len();
                assert forall|i: int| 0 <= i < next.len() implies ty_ordered(#[trigger] next[i].0) && ty_ordered(
                    next[i].1,
                ) by {
                    if i < n {
                        assert(next[i] == rest[i]);
                        lemma_cs_ordered_at(rest, i);
                    } else {
                        let j = n + m - 1 - i;
                        assert(next[n + m - 1 - j] == (field_types(xs)[j], field_types(ys)[j]));
                        assert(field_types(xs)[j] == xs[j].1);
                        assert(field_types(ys)[j] == ys[j].1);
                        assert(ty_ordered(xs[j].1));
                        assert(ty_ordered(ys[j].1));
                    }
                }
                lemma_stack_sound(next);
                let s = unify_stack(next)->Ok_0;
                assert(unify_stack(st) == unify_stack(next));
                lemma_apply_subs_record(s, xs);
                lemma_apply_subs_record(s, ys);
                assert forall|j: int| 0 <= j < m implies (#[trigger] xs[j]).0 == ys[j].0 && apply_subs(s, xs[j].1)
                    == apply_subs(s, ys[j].1) by {
                    assert(field_names(xs)[j] == field_names(ys)[j]);
                    let k = n + m - 1 - j;
                    assert(next[k] == (field_types(xs)[j], field_types(ys)[j]));
                    assert(apply_subs(s, next[k].0) == apply_subs(s, next[k].1));
                }
                assert(Seq::new(xs.len(), |i: int| (xs[i].0, apply_subs(s, xs[i].1))) =~= Seq::new(
                    ys.len(),
                    |i: int| (ys[i].0, apply_subs(s, ys[i].1)),
                ));
                assert forall|i: int| 0 <= i < st.len() implies apply_subs(s, #[trigger] st[i].0) == apply_subs(
                    s,
                    st[i].1,
                ) by {
                    if i < n {
                        assert(next[i] == rest[i]);
                    }
                }
            },
            _ => {},
        }
    }
}

/// Soundness of unification. When unification of a list of constraints succeeds,
/// applying the returned substitutions, from the last one back to the first, to
/// both sides of every constraint gives the same type on both sides.
/// Stated of constraints whose record types list their fields in order of their names.
pub proof fn lemma_unify_sound(cs: Seq<(TyV, TyV)>)
    requires
        cs_ordered(cs),
        unify_spec(cs) is Ok,
    ensures
        forall|i: int|
            0 <= i < cs.len() ==> apply_subs(unify_spec(cs)->Ok_0, #[trigger] cs[i].0) == apply_subs(
                unify_spec(cs)->Ok_0,
                cs[i].1,
            ),
{
    let st = cs.reverse();
    assert forall|i: int| 0 <= i < st.len() implies ty_ordered(#[trigger] st[i].0) && ty_ordered(st[i].1) by {
        assert(st[i] == cs[cs.len() - 1 - i]);
        assert(ty_ordered(cs[cs.len() - 1 - i].0) && ty_ordered(cs[cs.len() - 1 - i].1));
    }
    lemma_stack_sound(st);
    assert forall|i: int| 0 <= i < cs.len() implies apply_subs(unify_spec(cs)->Ok_0, #[trigger] cs[i].0) == apply_subs(
        unify_spec(cs)->Ok_0,
        cs[i].1,
    ) by {
        assert(st[cs.len() - 1 - i] == cs[i]);
    }
}

} // verus!
