use vstd::prelude::*;
use vstd::string::*;
use crate::ast::{Atom, AtomV, Ty, TyV, Pattern, PatV, Expr, ExprV, Statement, tys_model, fields_model, lemma_ty_model};
use crate::name_source::{decimal, push_decimal};
use crate::ty::names_model;
use crate::object::{Object, ObjV, objs_model, obj_fields_model, lemma_object_model};
use crate::unify::{insert_field, sort_fields, name_le_exec, UnifyError, UnifyErrorV};
use crate::infer::{InferError, InferErrorV};

verus! {

broadcast use {vstd::seq::group_seq_axioms, vstd::std_specs::vec::axiom_vec_index_decreases};

/// The parts joined, with `sep` between each two.
pub open spec fn join(parts: Seq<Seq<char>>, sep: Seq<char>) -> Seq<char>
    decreases parts.len(),
{
    if parts.len() == 0 {
        Seq::empty()
    } else if parts.len() == 1 {
        parts[0]
    } else {
        join(parts.drop_last(), sep) + sep + parts.last()
    }
}

/// The decimal notation of a signed integer.
pub open spec fn int_text(i: int) -> Seq<char> {
    if i < 0 {
        "-"@ + decimal((-i) as nat)
    } else {
        decimal(i as nat)
    }
}

/// What `{:?}` writes for a string: the string quoted, with special characters escaped.
pub uninterp spec fn debug_text(s: Seq<char>) -> Seq<char>;

/// Relies on the `Debug` impl of `String`: the result depends on the characters alone.
#[verifier::external_body]
fn debug_string(s: &String) -> (r: String)
    ensures
        r@ == debug_text(s@),
{
    format!("{:?}", s)
}

/// The text of a constant.
pub open spec fn atom_text(a: AtomV) -> Seq<char> {
    match a {
        AtomV::Unit => "()"@,
        AtomV::Bool(b) => if b {
            "true"@
        } else {
            "false"@
        },
        AtomV::Int(i) => int_text(i as int),
        AtomV::Str(s) => debug_text(s),
    }
}

/// The text of a type.
pub open spec fn ty_text(t: TyV) -> Seq<char>
    decreases t,
{
    match t {
        TyV::Int => "Int"@,
        TyV::Bool => "Bool"@,
        TyV::Tuple(ts) => "("@ + join(tys_texts(ts, false), ", "@) + ")"@,
        TyV::Unit => "()"@,
        TyV::Str => "String"@,
        TyV::Record(fs) => "{ "@ + join(ty_fields_texts(fs), ", "@) + " }"@,
        TyV::Var(x) => x,
        TyV::Fun(a, b) => "("@ + ty_text(*a) + " -> "@ + ty_text(*b) + ")"@,
        TyV::Defined(n, ts) => n + join(tys_texts(ts, true), Seq::empty()),
    }
}

/// The texts of a list of types, each after a space when `spaced`.
pub open spec fn tys_texts(ts: Seq<TyV>, spaced: bool) -> Seq<Seq<char>>
    decreases ts,
{
    if ts.len() == 0 {
        Seq::empty()
    } else {
        tys_texts(ts.drop_last(), spaced).push(
            if spaced {
                " "@ + ty_text(ts.last())
            } else {
                ty_text(ts.last())
            },
        )
    }
}

/// The texts `x: t` of a list of fields.
pub open spec fn ty_fields_texts(fs: Seq<(Seq<char>, TyV)>) -> Seq<Seq<char>>
    decreases fs,
{
    if fs.len() == 0 {
        Seq::empty()
    } else {
        ty_fields_texts(fs.drop_last()).push(fs.last().0 + ": "@ + ty_text(fs.last().1))
    }
}

proof fn lemma_tys_texts(ts: Seq<TyV>, spaced: bool)
    ensures
        tys_texts(ts, spaced).len() == ts.len(),
        forall|i: int|
            0 <= i < ts.len() ==> #[trigger] tys_texts(ts, spaced)[i] == if spaced {
                " "@ + ty_text(ts[i])
            } else {
                ty_text(ts[i])
            },
    decreases ts.len(),
{
    if ts.len() > 0 {
        lemma_tys_texts(ts.drop_last(), spaced);
    }
}

proof fn lemma_ty_fields_texts(fs: Seq<(Seq<char>, TyV)>)
    ensures
        ty_fields_texts(fs).len() == fs.len(),
        forall|i: int| 0 <= i < fs.len() ==> #[trigger] ty_fields_texts(fs)[i] == fs[i].0 + ": "@ + ty_text(fs[i].1),
    decreases fs.len(),
{
    if fs.len() > 0 {
        lemma_ty_fields_texts(fs.drop_last());
    }
}

/// Appends `parts[i]` to text that holds `join(parts.take(i), sep)`, with the separator before it.
proof fn lemma_join_step(parts: Seq<Seq<char>>, sep: Seq<char>, i: int)
    requires
        0 <= i < parts.len(),
    ensures
        join(parts.take(i + 1), sep) == if i == 0 {
            parts[0]
        } else {
            join(parts.take(i), sep) + sep + parts[i]
        },
{
    assert(parts.take(i + 1).drop_last() =~= parts.take(i));
}

impl Atom {
    /// The text of this constant.
    pub fn to_string(&self) -> (r: String)
        ensures
            r@ == atom_text(self@),
    {
        match self {
            Atom::Unit => String::from_str("()"),
            Atom::Bool(b) => if *b {
                String::from_str("true")
            } else {
                String::from_str("false")
            },
            Atom::Int(i) => int_string(*i),
            Atom::String(s) => debug_string(s),
        }
    }
}

/// The decimal notation of a signed integer.
pub fn int_string(i: i64) -> (r: String)
    ensures
        r@ == int_text(i as int),
{
    let mut s = String::new();
    if i < 0 {
        s.append("-");
        let m: u64 = (0i128 - (i as i128)) as u64;
        push_decimal(&mut s, m);
    } else {
        push_decimal(&mut s, i as u64);
    }
    proof {
        assert(s@ =~= int_text(i as int));
    }
    s
}

impl Ty {
    /// The text of this type: `(a, b)`, `{ x: a }`, `(a -> b)`, a name and its arguments.
    pub fn to_string(&self) -> (r: String)
        ensures
            r@ == ty_text(self@),
        decreases self,
    {
        proof {
            lemma_ty_model(self);
        }
        match self {
            Ty::Int => String::from_str("Int"),
            Ty::Bool => String::from_str("Bool"),
            Ty::Unit => String::from_str("()"),
            Ty::String => String::from_str("String"),
            Ty::Var(x) => x.clone(),
            Ty::Fun(a, b) => {
                let mut s = String::from_str("(");
                let ta = a.to_string();
                s.append(ta.as_str());
                s.append(" -> ");
                let tb = b.to_string();
                s.append(tb.as_str());
                s.append(")");
                proof {
                    assert(s@ =~= ty_text(self@));
                }
                s
            },
            Ty::Tuple(ts) => {
                let mut s = String::from_str("(");
                let inner = tys_join(ts, ", ", false);
                s.append(inner.as_str());
                s.append(")");
                proof {
                    let m = self@;
                    assert(m matches TyV::Tuple(q) && q =~= tys_model(ts@));
                    assert(s@ =~= ty_text(self@));
                }
                s
            },
            Ty::Defined(n, ts) => {
                let mut s = n.clone();
                let inner = tys_join(ts, "", true);
                s.append(inner.as_str());
                proof {
                    let m = self@;
                    assert(m matches TyV::Defined(_, q) && q =~= tys_model(ts@));
                    reveal_strlit("");
                    assert(""@ =~= Seq::<char>::empty());
                    assert(s@ =~= ty_text(self@));
                }
                s
            },
            Ty::Record(fs) => {
                let mut s = String::from_str("{ ");
                let inner = ty_fields_join(fs);
                s.append(inner.as_str());
                s.append(" }");
                proof {
                    let m = self@;
                    assert(m matches TyV::Record(q) && q =~= fields_model(fs@));
                    assert(s@ =~= ty_text(self@));
                }
                s
            },
        }
    }
}

/// The texts of the types joined with `sep`, each after a space when `spaced`.
fn tys_join(ts: &Vec<Ty>, sep: &str, spaced: bool) -> (r: String)
    ensures
        r@ == join(tys_texts(tys_model(ts@), spaced), sep@),
    decreases ts,
{
    let ghost parts = tys_texts(tys_model(ts@), spaced);
    proof {
        lemma_tys_texts(tys_model(ts@), spaced);
    }
    let mut s = String::new();
    let mut i: usize = 0;
    proof {
        assert(parts.take(0) =~= Seq::<Seq<char>>::empty());
    }
    while i < ts.len()
        invariant
            0 <= i <= ts.len(),
            parts.len() == ts.len(),
            s@ == join(parts.take(i as int), sep@),
            forall|j: int|
                0 <= j < ts.len() ==> parts[j] == if spaced {
                    " "@ + ty_text(ts@[j]@)
                } else {
                    ty_text(ts@[j]@)
                },
        decreases ts.len() - i,
    {
        proof {
            assert(decreases_to!(ts => ts[i as int]));
            lemma_join_step(parts, sep@, i as int);
        }
        let ghost s0 = s@;
        if i > 0 {
            s.append(sep);
        }
        if spaced {
            s.append(" ");
        }
        let t = ts[i].to_string();
        s.append(t.as_str());
        proof {
            if i == 0 {
                assert(s@ =~= parts[0]);
            } else {
                assert(s@ =~= s0 + sep@ + parts[i as int]);
            }
        }
        i = i + 1;
    }
    proof {
        assert(parts.take(ts.len() as int) =~= parts);
    }
    s
}

/// The texts `x: t` of the fields joined with `, `.
fn ty_fields_join(fs: &Vec<(String, Ty)>) -> (r: String)
    ensures
        r@ == join(ty_fields_texts(fields_model(fs@)), ", "@),
    decreases fs,
{
    let ghost parts = ty_fields_texts(fields_model(fs@));
    proof {
        lemma_ty_fields_texts(fields_model(fs@));
    }
    let mut s = String::new();
    let mut i: usize = 0;
    proof {
        assert(parts.take(0) =~= Seq::<Seq<char>>::empty());
    }
    while i < fs.len()
        invariant
            0 <= i <= fs.len(),
            parts.len() == fs.len(),
            s@ == join(parts.take(i as int), ", "@),
            forall|j: int| 0 <= j < fs.len() ==> parts[j] == fs@[j].0@ + ": "@ + ty_text(fs@[j].1@),
        decreases fs.len() - i,
    {
        proof {
            assert(decreases_to!(fs => fs[i as int]));
            lemma_join_step(parts, ", "@, i as int);
        }
        let ghost s0 = s@;
        if i > 0 {
            s.append(", ");
        }
        s.append(fs[i].0.as_str());
        s.append(": ");
        let t = fs[i].1.to_string();
        s.append(t.as_str());
        proof {
            if i == 0 {
                assert(s@ =~= parts[0]);
            } else {
                assert(s@ =~= s0 + ", "@ + parts[i as int]);
            }
        }
        i = i + 1;
    }
    proof {
        assert(parts.take(fs.len() as int) =~= parts);
    }
    s
}

/// The text of a pattern.
pub open spec fn pat_text(p: PatV) -> Seq<char>
    decreases p,
{
    match p {
        PatV::Atom(a) => atom_text(a),
        PatV::Tuple(ps) => "("@ + join(pats_texts(ps), ", "@) + ")"@,
        PatV::Record(fs) => "{ "@ + join(pat_fields_texts(fs), ", "@) + " }"@,
        PatV::Wildcard => "_"@,
        PatV::Ident(x) => x,
    }
}

pub open spec fn pats_texts(ps: Seq<PatV>) -> Seq<Seq<char>>
    decreases ps,
{
    if ps.len() == 0 {
        Seq::empty()
    } else {
        pats_texts(ps.drop_last()).push(pat_text(ps.last()))
    }
}

pub open spec fn pat_fields_texts(fs: Seq<(Seq<char>, PatV)>) -> Seq<Seq<char>>
    decreases fs,
{
    if fs.len() == 0 {
        Seq::empty()
    } else {
        pat_fields_texts(fs.drop_last()).push(fs.last().0 + " = "@ + pat_text(fs.last().1))
    }
}

/// The text of a term.
pub open spec fn expr_text(e: ExprV) -> Seq<char>
    decreases e,
{
    match e {
        ExprV::Atom(a) => atom_text(a),
        ExprV::Ident(x) => x,
        ExprV::Tuple(es) => "("@ + join(exprs_texts(es), ", "@) + ")"@,
        ExprV::Record(fs) => "{ "@ + join(named_texts(fs, Seq::empty(), " = "@, Seq::empty()), ", "@) + " }"@,
        ExprV::Let(bs, body) => join(named_texts(bs, "let "@, " = "@, " in "@), Seq::empty()) + expr_text(*body)
            + " end"@,
        ExprV::Apply(f, a) => "("@ + expr_text(*f) + " "@ + expr_text(*a) + ")"@,
        ExprV::Lambda(x, body) => "lambda "@ + x + " -> "@ + expr_text(*body),
        ExprV::Case(s, arms) => "case "@ + expr_text(*s) + " of "@ + join(arms_texts(arms), Seq::empty()) + " end"@,
    }
}

pub open spec fn exprs_texts(es: Seq<ExprV>) -> Seq<Seq<char>>
    decreases es,
{
    if es.len() == 0 {
        Seq::empty()
    } else {
        exprs_texts(es.drop_last()).push(expr_text(es.last()))
    }
}

/// The texts `pre x mid e post` of a list of named terms.
pub open spec fn named_texts(fs: Seq<(Seq<char>, ExprV)>, pre: Seq<char>, mid: Seq<char>, post: Seq<char>) -> Seq<
    Seq<char>,
>
    decreases fs,
{
    if fs.len() == 0 {
        Seq::empty()
    } else {
        named_texts(fs.drop_last(), pre, mid, post).push(pre + fs.last().0 + mid + expr_text(fs.last().1) + post)
    }
}

/// The texts `| p => e ` of the arms of a `case`.
pub open spec fn arms_texts(arms: Seq<(PatV, ExprV)>) -> Seq<Seq<char>>
    decreases arms,
{
    if arms.len() == 0 {
        Seq::empty()
    } else {
        arms_texts(arms.drop_last()).push("| "@ + pat_text(arms.last().0) + " => "@ + expr_text(arms.last().1) + " "@)
    }
}

proof fn lemma_pats_texts(ps: Seq<PatV>)
    ensures
        pats_texts(ps).len() == ps.len(),
        forall|i: int| 0 <= i < ps.len() ==> #[trigger] pats_texts(ps)[i] == pat_text(ps[i]),
    decreases ps.len(),
{
    if ps.len() > 0 {
        lemma_pats_texts(ps.drop_last());
    }
}

proof fn lemma_pat_fields_texts(fs: Seq<(Seq<char>, PatV)>)
    ensures
        pat_fields_texts(fs).len() == fs.len(),
        forall|i: int| 0 <= i < fs.len() ==> #[trigger] pat_fields_texts(fs)[i] == fs[i].0 + " = "@ + pat_text(fs[i].1),
    decreases fs.len(),
{
    if fs.len() > 0 {
        lemma_pat_fields_texts(fs.drop_last());
    }
}

proof fn lemma_exprs_texts(es: Seq<ExprV>)
    ensures
        exprs_texts(es).len() == es.len(),
        forall|i: int| 0 <= i < es.len() ==> #[trigger] exprs_texts(es)[i] == expr_text(es[i]),
    decreases es.len(),
{
    if es.len() > 0 {
        lemma_exprs_texts(es.drop_last());
    }
}

proof fn lemma_named_texts(fs: Seq<(Seq<char>, ExprV)>, pre: Seq<char>, mid: Seq<char>, post: Seq<char>)
    ensures
        named_texts(fs, pre, mid, post).len() == fs.len(),
        forall|i: int|
            0 <= i < fs.len() ==> #[trigger] named_texts(fs, pre, mid, post)[i] == pre + fs[i].0 + mid + expr_text(fs[i].1)
                + post,
    decreases fs.len(),
{
    if fs.len() > 0 {
        lemma_named_texts(fs.drop_last(), pre, mid, post);
    }
}

proof fn lemma_arms_texts(arms: Seq<(PatV, ExprV)>)
    ensures
        arms_texts(arms).len() == arms.len(),
        forall|i: int|
            0 <= i < arms.len() ==> #[trigger] arms_texts(arms)[i] == "| "@ + pat_text(arms[i].0) + " => "@ + expr_text(
                arms[i].1,
            ) + " "@,
    decreases arms.len(),
{
    if arms.len() > 0 {
        lemma_arms_texts(arms.drop_last());
    }
}

/// The strings joined, with `sep` between each two.
pub fn join_strings(parts: &Vec<String>, sep: &str) -> (r: String)
    ensures
        r@ == join(names_model(parts@), sep@),
{
    let ghost ps = names_model(parts@);
    let mut s = String::new();
    let mut i: usize = 0;
    proof {
        assert(ps.take(0) =~= Seq::<Seq<char>>::empty());
    }
    while i < parts.len()
        invariant
            0 <= i <= parts.len(),
            ps == names_model(parts@),
            s@ == join(ps.take(i as int), sep@),
        decreases parts.len() - i,
    {
        proof {
            lemma_join_step(ps, sep@, i as int);
        }
        let ghost s0 = s@;
        if i > 0 {
            s.append(sep);
        }
        s.append(parts[i].as_str());
        proof {
            if i == 0 {
                assert(s@ =~= ps[0]);
            } else {
                assert(s@ =~= s0 + sep@ + ps[i as int]);
            }
        }
        i = i + 1;
    }
    proof {
        assert(ps.take(parts.len() as int) =~= ps);
    }
    s
}

/// Appends the pieces in order.
fn concat(pieces: &Vec<String>) -> (r: String)
    ensures
        r@ == join(names_model(pieces@), Seq::empty()),
{
    proof {
        reveal_strlit("");
        assert(""@ =~= Seq::<char>::empty());
    }
    join_strings(pieces, "")
}

impl Pattern {
    /// The text of this pattern: `(p, q)`, `{ x = p }`, `_`, a name or a constant.
    pub fn to_string(&self) -> (r: String)
        ensures
            r@ == pat_text(self@),
        decreases self,
    {
        match self {
            Pattern::Atom(a) => a.to_string(),
            Pattern::Wildcard => String::from_str("_"),
            Pattern::Ident(x) => x.clone(),
            Pattern::Tuple(ps) => {
                let parts = pats_parts(ps);
                let inner = join_strings(&parts, ", ");
                let mut s = String::from_str("(");
                s.append(inner.as_str());
                s.append(")");
                proof {
                    assert(self@->Tuple_0 =~= Seq::new(ps.len() as nat, |j: int| ps@[j]@));
                    assert(s@ =~= pat_text(self@));
                }
                s
            },
            Pattern::Record(fs) => {
                let parts = pat_fields_parts(fs);
                let inner = join_strings(&parts, ", ");
                let mut s = String::from_str("{ ");
                s.append(inner.as_str());
                s.append(" }");
                proof {
                    assert(self@->Record_0 =~= Seq::new(fs.len() as nat, |j: int| (fs@[j].0@, fs@[j].1@)));
                    assert(s@ =~= pat_text(self@));
                }
                s
            },
        }
    }
}

fn pats_parts(ps: &Vec<Pattern>) -> (r: Vec<String>)
    ensures
        names_model(r@) == pats_texts(Seq::new(ps.len() as nat, |j: int| ps@[j]@)),
    decreases ps,
{
    let ghost m = Seq::new(ps.len() as nat, |j: int| ps@[j]@);
    let mut out: Vec<String> = Vec::new();
    let mut i: usize = 0;
    proof {
        assert(names_model(out@) =~= pats_texts(m.take(0)));
    }
    while i < ps.len()
        invariant
            0 <= i <= ps.len(),
            m == Seq::new(ps.len() as nat, |j: int| ps@[j]@),
            names_model(out@) == pats_texts(m.take(i as int)),
        decreases ps.len() - i,
    {
        proof {
            assert(decreases_to!(ps => ps[i as int]));
        }
        let ghost o0 = out@;
        out.push(ps[i].to_string());
        proof {
            assert(m.take(i + 1).drop_last() =~= m.take(i as int));
            assert(names_model(out@) =~= names_model(o0).push(pat_text(m[i as int])));
        }
        i = i + 1;
    }
    proof {
        assert(m.take(ps.len() as int) =~= m);
    }
    out
}

fn pat_fields_parts(fs: &Vec<(String, Pattern)>) -> (r: Vec<String>)
    ensures
        names_model(r@) == pat_fields_texts(Seq::new(fs.len() as nat, |j: int| (fs@[j].0@, fs@[j].1@))),
    decreases fs,
{
    let ghost m = Seq::new(fs.len() as nat, |j: int| (fs@[j].0@, fs@[j].1@));
    let mut out: Vec<String> = Vec::new();
    let mut i: usize = 0;
    proof {
        assert(names_model(out@) =~= pat_fields_texts(m.take(0)));
    }
    while i < fs.len()
        invariant
            0 <= i <= fs.len(),
            m == Seq::new(fs.len() as nat, |j: int| (fs@[j].0@, fs@[j].1@)),
            names_model(out@) == pat_fields_texts(m.take(i as int)),
        decreases fs.len() - i,
    {
        proof {
            assert(decreases_to!(fs => fs[i as int]));
        }
        let ghost o0 = out@;
        let mut part = fs[i].0.clone();
        part.append(" = ");
        let t = fs[i].1.to_string();
        part.append(t.as_str());
        out.push(part);
        proof {
            assert(m.take(i + 1).drop_last() =~= m.take(i as int));
            assert(names_model(out@) =~= names_model(o0).push(m[i as int].0 + " = "@ + pat_text(m[i as int].1)));
        }
        i = i + 1;
    }
    proof {
        assert(m.take(fs.len() as int) =~= m);
    }
    out
}

impl Expr {
    /// The text of this term, with every application in parentheses.
    pub fn to_string(&self) -> (r: String)
        ensures
            r@ == expr_text(self@),
        decreases self,
    {
        match self {
            Expr::Atom(a) => a.to_string(),
            Expr::Ident(x) => x.clone(),
            Expr::Tuple(es) => {
                let parts = exprs_parts(es);
                let inner = join_strings(&parts, ", ");
                let mut s = String::from_str("(");
                s.append(inner.as_str());
                s.append(")");
                proof {
                    assert(self@->Tuple_0 =~= Seq::new(es.len() as nat, |j: int| es@[j]@));
                    assert(s@ =~= expr_text(self@));
                }
                s
            },
            Expr::Record(fs) => {
                proof {
                    reveal_strlit("");
                    assert(""@ =~= Seq::<char>::empty());
                }
                let parts = named_parts(fs, "", " = ", "");
                let inner = join_strings(&parts, ", ");
                let mut s = String::from_str("{ ");
                s.append(inner.as_str());
                s.append(" }");
                proof {
                    assert(self@->Record_0 =~= Seq::new(fs.len() as nat, |j: int| (fs@[j].0@, fs@[j].1@)));
                    assert(s@ =~= expr_text(self@));
                }
                s
            },
            Expr::Let(bs, body) => {
                let parts = named_parts(bs, "let ", " = ", " in ");
                let mut s = concat(&parts);
                let b = body.to_string();
                s.append(b.as_str());
                s.append(" end");
                proof {
                    assert(self@->Let_0 =~= Seq::new(bs.len() as nat, |j: int| (bs@[j].0@, bs@[j].1@)));
                    assert(s@ =~= expr_text(self@));
                }
                s
            },
            Expr::Apply(f, a) => {
                let mut s = String::from_str("(");
                let tf = f.to_string();
                s.append(tf.as_str());
                s.append(" ");
                let ta = a.to_string();
                s.append(ta.as_str());
                s.append(")");
                proof {
                    assert(s@ =~= expr_text(self@));
                }
                s
            },
            Expr::Lambda(x, body) => {
                let mut s = String::from_str("lambda ");
                s.append(x.as_str());
                s.append(" -> ");
                let b = body.to_string();
                s.append(b.as_str());
                proof {
                    assert(s@ =~= expr_text(self@));
                }
                s
            },
            Expr::Case(e, arms) => {
                let mut s = String::from_str("case ");
                let te = e.to_string();
                s.append(te.as_str());
                s.append(" of ");
                let parts = arms_parts(arms);
                let inner = concat(&parts);
                s.append(inner.as_str());
                s.append(" end");
                proof {
                    assert(self@->Case_1 =~= Seq::new(arms.len() as nat, |j: int| (arms@[j].0@, arms@[j].1@)));
                    assert(s@ =~= expr_text(self@));
                }
                s
            },
        }
    }
}

fn exprs_parts(es: &Vec<Expr>) -> (r: Vec<String>)
    ensures
        names_model(r@) == exprs_texts(Seq::new(es.len() as nat, |j: int| es@[j]@)),
    decreases es,
{
    let ghost m = Seq::new(es.len() as nat, |j: int| es@[j]@);
    let mut out: Vec<String> = Vec::new();
    let mut i: usize = 0;
    proof {
        assert(names_model(out@) =~= exprs_texts(m.take(0)));
    }
    while i < es.len()
        invariant
            0 <= i <= es.len(),
            m == Seq::new(es.len() as nat, |j: int| es@[j]@),
            names_model(out@) == exprs_texts(m.take(i as int)),
        decreases es.len() - i,
    {
        proof {
            assert(decreases_to!(es => es[i as int]));
        }
        let ghost o0 = out@;
        out.push(es[i].to_string());
        proof {
            assert(m.take(i + 1).drop_last() =~= m.take(i as int));
            assert(names_model(out@) =~= names_model(o0).push(expr_text(m[i as int])));
        }
        i = i + 1;
    }
    proof {
        assert(m.take(es.len() as int) =~= m);
    }
    out
}

fn named_parts(fs: &Vec<(String, Expr)>, pre: &str, mid: &str, post: &str) -> (r: Vec<String>)
    ensures
        names_model(r@) == named_texts(
            Seq::new(fs.len() as nat, |j: int| (fs@[j].0@, fs@[j].1@)),
            pre@,
            mid@,
            post@,
        ),
    decreases fs,
{
    let ghost m = Seq::new(fs.len() as nat, |j: int| (fs@[j].0@, fs@[j].1@));
    let mut out: Vec<String> = Vec::new();
    let mut i: usize = 0;
    proof {
        assert(names_model(out@) =~= named_texts(m.take(0), pre@, mid@, post@));
    }
    while i < fs.len()
        invariant
            0 <= i <= fs.len(),
            m == Seq::new(fs.len() as nat, |j: int| (fs@[j].0@, fs@[j].1@)),
            names_model(out@) == named_texts(m.take(i as int), pre@, mid@, post@),
        decreases fs.len() - i,
    {
        proof {
            assert(decreases_to!(fs => fs[i as int]));
        }
        let ghost o0 = out@;
        let mut part = String::from_str(pre);
        part.append(fs[i].0.as_str());
        part.append(mid);
        let t = fs[i].1.to_string();
        part.append(t.as_str());
        part.append(post);
        out.push(part);
        proof {
            assert(m.take(i + 1).drop_last() =~= m.take(i as int));
            assert(names_model(out@) =~= names_model(o0).push(
                pre@ + m[i as int].0 + mid@ + expr_text(m[i as int].1) + post@,
            ));
        }
        i = i + 1;
    }
    proof {
        assert(m.take(fs.len() as int) =~= m);
    }
    out
}

fn arms_parts(arms: &Vec<(Pattern, Expr)>) -> (r: Vec<String>)
    ensures
        names_model(r@) == arms_texts(Seq::new(arms.len() as nat, |j: int| (arms@[j].0@, arms@[j].1@))),
    decreases arms,
{
    let ghost m = Seq::new(arms.len() as nat, |j: int| (arms@[j].0@, arms@[j].1@));
    let mut out: Vec<String> = Vec::new();
    let mut i: usize = 0;
    proof {
        assert(names_model(out@) =~= arms_texts(m.take(0)));
    }
    while i < arms.len()
        invariant
            0 <= i <= arms.len(),
            m == Seq::new(arms.len() as nat, |j: int| (arms@[j].0@, arms@[j].1@)),
            names_model(out@) == arms_texts(m.take(i as int)),
        decreases arms.len() - i,
    {
        proof {
            assert(decreases_to!(arms => arms[i as int]));
        }
        let ghost o0 = out@;
        let mut part = String::from_str("| ");
        let tp = arms[i].0.to_string();
        part.append(tp.as_str());
        part.append(" => ");
        let te = arms[i].1.to_string();
        part.append(te.as_str());
        part.append(" ");
        out.push(part);
        proof {
            assert(m.take(i + 1).drop_last() =~= m.take(i as int));
            assert(names_model(out@) =~= names_model(o0).push(
                "| "@ + pat_text(m[i as int].0) + " => "@ + expr_text(m[i as int].1) + " "@,
            ));
        }
        i = i + 1;
    }
    proof {
        assert(m.take(arms.len() as int) =~= m);
    }
    out
}

/// The text of a declared variant: its name and its argument types, each after a space.
pub open spec fn variant_text(name: Seq<char>, tys: Seq<TyV>) -> Seq<char> {
    " "@ + name + join(tys_texts(tys, true), Seq::empty())
}

/// The texts of the declared variants of a type.
pub open spec fn variants_texts(vs: Seq<(Seq<char>, Seq<TyV>)>) -> Seq<Seq<char>>
    decreases vs.len(),
{
    if vs.len() == 0 {
        Seq::empty()
    } else {
        variants_texts(vs.drop_last()).push(variant_text(vs.last().0, vs.last().1))
    }
}

/// The models of the variants of a type declaration.
pub open spec fn variants_model(vs: Seq<(String, Vec<Ty>)>) -> Seq<(Seq<char>, Seq<TyV>)> {
    Seq::new(vs.len(), |i: int| (vs[i].0@, tys_model(vs[i].1@)))
}

/// The text of a statement.
pub open spec fn statement_text(s: Statement) -> Seq<char> {
    match s {
        Statement::Create(x, def) => "create table "@ + x@ + " "@ + ty_text(def.ty@),
        Statement::Insert(x, e) => "insert "@ + expr_text(e@) + " into "@ + x@,
        Statement::Select(x) => "select from "@ + x@,
        Statement::Let(x, e) => "let "@ + x@ + " = "@ + expr_text(e@),
        Statement::Union(x, args, vs) => "type "@ + x@ + join(
            Seq::new(args.len() as nat, |i: int| " "@ + args@[i]@),
            Seq::empty(),
        ) + " ="@ + join(variants_texts(variants_model(vs@)), " |"@),
    }
}

impl Statement {
    /// The text of this statement, as it would be typed in a session.
    pub fn to_string(&self) -> (r: String)
        ensures
            r@ == statement_text(*self),
    {
        proof {
            reveal_strlit("");
            assert(""@ =~= Seq::<char>::empty());
        }
        match self {
            Statement::Create(x, def) => {
                let mut s = String::from_str("create table ");
                s.append(x.as_str());
                s.append(" ");
                let t = def.ty.to_string();
                s.append(t.as_str());
                proof {
                    assert(s@ =~= statement_text(*self));
                }
                s
            },
            Statement::Insert(x, e) => {
                let mut s = String::from_str("insert ");
                let t = e.to_string();
                s.append(t.as_str());
                s.append(" into ");
                s.append(x.as_str());
                proof {
                    assert(s@ =~= statement_text(*self));
                }
                s
            },
            Statement::Select(x) => {
                let mut s = String::from_str("select from ");
                s.append(x.as_str());
                s
            },
            Statement::Let(x, e) => {
                let mut s = String::from_str("let ");
                s.append(x.as_str());
                s.append(" = ");
                let t = e.to_string();
                s.append(t.as_str());
                proof {
                    assert(s@ =~= statement_text(*self));
                }
                s
            },
            Statement::Union(x, args, vs) => {
                let mut s = String::from_str("type ");
                s.append(x.as_str());
                let mut arg_parts: Vec<String> = Vec::new();
                let mut i: usize = 0;
                while i < args.len()
                    invariant
                        0 <= i <= args.len(),
                        arg_parts.len() == i,
                        forall|j: int| 0 <= j < i ==> arg_parts@[j]@ == " "@ + args@[j]@,
                    decreases args.len() - i,
                {
                    let mut p = String::from_str(" ");
                    p.append(args[i].as_str());
                    arg_parts.push(p);
                    i = i + 1;
                }
                let a = concat(&arg_parts);
                s.append(a.as_str());
                s.append(" =");
                let ghost vm = variants_model(vs@);
                let mut var_parts: Vec<String> = Vec::new();
                let mut k: usize = 0;
                proof {
                    assert(names_model(var_parts@) =~= variants_texts(vm.take(0)));
                }
                while k < vs.len()
                    invariant
                        0 <= k <= vs.len(),
                        vm == variants_model(vs@),
                        names_model(var_parts@) == variants_texts(vm.take(k as int)),
                        ""@ == Seq::<char>::empty(),
                    decreases vs.len() - k,
                {
                    let mut p = String::from_str(" ");
                    p.append(vs[k].0.as_str());
                    let tys = tys_join(&vs[k].1, "", true);
                    p.append(tys.as_str());
                    let ghost o0 = var_parts@;
                    var_parts.push(p);
                    proof {
                        assert(vm.take(k + 1).drop_last() =~= vm.take(k as int));
                        assert(names_model(var_parts@) =~= names_model(o0).push(
                            variant_text(vm[k as int].0, vm[k as int].1),
                        ));
                    }
                    k = k + 1;
                }
                let v = join_strings(&var_parts, " |");
                s.append(v.as_str());
                proof {
                    assert(vm.take(vs.len() as int) =~= vm);
                    assert(names_model(arg_parts@) =~= Seq::new(args.len() as nat, |i: int| " "@ + args@[i]@));
                    assert(s@ =~= statement_text(*self));
                }
                s
            },
        }
    }
}

/// The text of a runtime value: constants literally, strings quoted, `(a, b)`,
/// `{ x = a, y = b }` with the fields sorted by name, and `<lambda>` for a closure.
pub open spec fn obj_text(v: ObjV) -> Seq<char>
    decreases v,
{
    match v {
        ObjV::Int(i) => int_text(i as int),
        ObjV::Bool(b) => if b {
            "true"@
        } else {
            "false"@
        },
        ObjV::Tuple(vs) => "("@ + join(objs_texts(vs), ", "@) + ")"@,
        ObjV::Unit => "()"@,
        ObjV::Str(s) => debug_text(s),
        ObjV::Record(fs) => "{ "@ + join(second_parts(sort_fields(obj_field_texts(fs))), ", "@) + " }"@,
        ObjV::Closure(_, _, _) => "<lambda>"@,
    }
}

pub open spec fn objs_texts(vs: Seq<ObjV>) -> Seq<Seq<char>>
    decreases vs,
{
    if vs.len() == 0 {
        Seq::empty()
    } else {
        objs_texts(vs.drop_last()).push(obj_text(vs.last()))
    }
}

/// Each field's name, with its text `x = v`.
pub open spec fn obj_field_texts(fs: Seq<(Seq<char>, ObjV)>) -> Seq<(Seq<char>, Seq<char>)>
    decreases fs,
{
    if fs.len() == 0 {
        Seq::empty()
    } else {
        obj_field_texts(fs.drop_last()).push((fs.last().0, fs.last().0 + " = "@ + obj_text(fs.last().1)))
    }
}

/// The second components of a list of pairs.
pub open spec fn second_parts(ps: Seq<(Seq<char>, Seq<char>)>) -> Seq<Seq<char>> {
    Seq::new(ps.len(), |i: int| ps[i].1)
}

/// The models of a list of pairs of strings.
pub open spec fn pairs_model(v: Seq<(String, String)>) -> Seq<(Seq<char>, Seq<char>)> {
    Seq::new(v.len(), |i: int| (v[i].0@, v[i].1@))
}

/// Inserts a pair into a list sorted by first component, after every pair whose first component is not greater.
fn insert_pair(v: &mut Vec<(String, String)>, f: (String, String))
    ensures
        pairs_model(final(v)@) == insert_field((f.0@, f.1@), pairs_model(old(v)@)),
    decreases old(v).len(),
{
    let ghost fm = (f.0@, f.1@);
    let n = v.len();
    if n == 0 {
        v.push(f);
        proof {
            assert(pairs_model(v@) =~= seq![fm]);
        }
    } else if name_le_exec(&v[n - 1].0, &f.0) {
        let ghost v0 = v@;
        v.push(f);
        proof {
            assert(pairs_model(v@) =~= pairs_model(v0).push(fm));
        }
    } else {
        let ghost v0 = v@;
        let last = v.pop().unwrap();
        proof {
            assert(pairs_model(v@) =~= pairs_model(v0).drop_last());
        }
        insert_pair(v, f);
        let ghost v1 = v@;
        v.push(last);
        proof {
            assert(pairs_model(v@) =~= pairs_model(v1).push(pairs_model(v0).last()));
        }
    }
}

impl Object {
    /// The text of this value.
    pub fn to_string(&self) -> (r: String)
        ensures
            r@ == obj_text(self@),
        decreases self,
    {
        proof {
            lemma_object_model(self);
        }
        match self {
            Object::Int(i) => int_string(*i),
            Object::Bool(b) => if *b {
                String::from_str("true")
            } else {
                String::from_str("false")
            },
            Object::Unit => String::from_str("()"),
            Object::String(s) => debug_string(s),
            Object::Closure(_, _, _) => String::from_str("<lambda>"),
            Object::Tuple(vs) => {
                let ghost m = objs_model(vs@);
                let parts = objs_parts(vs);
                let inner = join_strings(&parts, ", ");
                let mut s = String::from_str("(");
                s.append(inner.as_str());
                s.append(")");
                proof {
                    assert(s@ =~= obj_text(self@));
                }
                s
            },
            Object::Record(fs) => {
                let ghost m = obj_fields_model(fs@);
                let sorted = obj_fields_sorted(fs);
                let mut parts: Vec<String> = Vec::new();
                let mut k: usize = 0;
                while k < sorted.len()
                    invariant
                        0 <= k <= sorted.len(),
                        parts.len() == k,
                        forall|j: int| 0 <= j < k ==> parts@[j]@ == sorted@[j].1@,
                    decreases sorted.len() - k,
                {
                    parts.push(sorted[k].1.clone());
                    k = k + 1;
                }
                let inner = join_strings(&parts, ", ");
                let mut s = String::from_str("{ ");
                s.append(inner.as_str());
                s.append(" }");
                proof {
                    assert(names_model(parts@) =~= second_parts(pairs_model(sorted@)));
                    assert(s@ =~= obj_text(self@));
                }
                s
            },
        }
    }
}

fn objs_parts(vs: &Vec<Object>) -> (r: Vec<String>)
    ensures
        names_model(r@) == objs_texts(objs_model(vs@)),
    decreases vs,
{
    let ghost m = objs_model(vs@);
    let mut parts: Vec<String> = Vec::new();
    let mut i: usize = 0;
    proof {
        assert(names_model(parts@) =~= objs_texts(m.take(0)));
    }
    while i < vs.len()
        invariant
            0 <= i <= vs.len(),
            m == objs_model(vs@),
            names_model(parts@) == objs_texts(m.take(i as int)),
        decreases vs.len() - i,
    {
        proof {
            assert(decreases_to!(vs => vs[i as int]));
        }
        let ghost o0 = parts@;
        parts.push(vs[i].to_string());
        proof {
            assert(m.take(i + 1).drop_last() =~= m.take(i as int));
            assert(names_model(parts@) =~= names_model(o0).push(obj_text(m[i as int])));
        }
        i = i + 1;
    }
    proof {
        assert(m.take(vs.len() as int) =~= m);
    }
    parts
}

fn obj_fields_sorted(fs: &Vec<(String, Object)>) -> (r: Vec<(String, String)>)
    ensures
        pairs_model(r@) == sort_fields(obj_field_texts(obj_fields_model(fs@))),
    decreases fs,
{
    let ghost m = obj_fields_model(fs@);
    let mut sorted: Vec<(String, String)> = Vec::new();
    let mut i: usize = 0;
    proof {
        assert(obj_field_texts(m.take(0)) =~= Seq::<(Seq<char>, Seq<char>)>::empty());
        assert(pairs_model(sorted@) =~= sort_fields(obj_field_texts(m.take(0))));
    }
    while i < fs.len()
        invariant
            0 <= i <= fs.len(),
            m == obj_fields_model(fs@),
            pairs_model(sorted@) == sort_fields(obj_field_texts(m.take(i as int))),
        decreases fs.len() - i,
    {
        proof {
            assert(decreases_to!(fs => fs[i as int]));
        }
        let mut part = fs[i].0.clone();
        part.append(" = ");
        let t = fs[i].1.to_string();
        part.append(t.as_str());
        insert_pair(&mut sorted, (fs[i].0.clone(), part));
        proof {
            assert(m.take(i + 1).drop_last() =~= m.take(i as int));
            let ft = obj_field_texts(m.take(i + 1));
            assert(ft.drop_last() == obj_field_texts(m.take(i as int)));
        }
        i = i + 1;
    }
    proof {
        assert(m.take(fs.len() as int) =~= m);
    }
    sorted
}

/// The message of a unification failure.
pub open spec fn unify_error_text(e: UnifyErrorV) -> Seq<char> {
    match e {
        UnifyErrorV::Mismatch(a, b) => "Could not unify "@ + ty_text(a) + " and "@ + ty_text(b),
        UnifyErrorV::Records(a, b) => "Could not unify records "@ + ty_text(a) + " and "@ + ty_text(b),
    }
}

/// The message of an inference failure.
pub open spec fn infer_error_text(e: InferErrorV) -> Seq<char> {
    match e {
        InferErrorV::UnboundIdentifier(x) => "Identifier "@ + x + " not found in environment"@,
        InferErrorV::Unify(u) => unify_error_text(u),
        InferErrorV::NamesExhausted => "No fresh type variable names are left"@,
    }
}

impl UnifyError {
    /// What went wrong, naming both types.
    pub fn message(&self) -> (r: String)
        ensures
            r@ == unify_error_text(self@),
    {
        let (mut s, a, b) = match self {
            UnifyError::Mismatch(a, b) => (String::from_str("Could not unify "), a, b),
            UnifyError::Records(a, b) => (String::from_str("Could not unify records "), a, b),
        };
        let ta = a.to_string();
        s.append(ta.as_str());
        s.append(" and ");
        let tb = b.to_string();
        s.append(tb.as_str());
        proof {
            assert(s@ =~= unify_error_text(self@));
        }
        s
    }
}

impl InferError {
    /// What went wrong.
    pub fn message(&self) -> (r: String)
        ensures
            r@ == infer_error_text(self@),
    {
        match self {
            InferError::UnboundIdentifier(x) => {
                let mut s = String::from_str("Identifier ");
                s.append(x.as_str());
                s.append(" not found in environment");
                proof {
                    assert(s@ =~= infer_error_text(self@));
                }
                s
            },
            InferError::Unify(u) => u.message(),
            InferError::NamesExhausted => String::from_str("No fresh type variable names are left"),
        }
    }
}

} // verus!
