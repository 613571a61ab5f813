use vstd::prelude::*;

verus! {

broadcast use vstd::std_specs::vec::axiom_vec_index_decreases;

/// A type term.
#[derive(Debug)]
pub enum Ty {
    Int,
    Bool,
    Tuple(Vec<Ty>),
    Unit,
    String,
    Record(Vec<(String, Ty)>),
    Defined(String, Vec<Ty>),
    Var(String),
    Fun(Box<Ty>, Box<Ty>),
}

/// The model of a type term: names are character sequences, lists are sequences.
pub enum TyV {
    Int,
    Bool,
    Tuple(Seq<TyV>),
    Unit,
    Str,
    Record(Seq<(Seq<char>, TyV)>),
    Defined(Seq<char>, Seq<TyV>),
    Var(Seq<char>),
    Fun(Box<TyV>, Box<TyV>),
}

impl Ty {
    /// The model of this type term.
    pub open spec fn model(&self) -> TyV
        decreases self,
    {
        match self {
            Ty::Int => TyV::Int,
            Ty::Bool => TyV::Bool,
            Ty::Tuple(ts) => TyV::Tuple(
                Seq::new(ts.len() as nat, |i: int| if 0 <= i < ts.len() { ts[i].model() } else { TyV::Unit }),
            ),
            Ty::Unit => TyV::Unit,
            Ty::String => TyV::Str,
            Ty::Record(fs) => TyV::Record(
                Seq::new(
                    fs.len() as nat,
                    |i: int|
                        if 0 <= i < fs.len() {
                            (fs[i].0@, fs[i].1.model())
                        } else {
                            (Seq::empty(), TyV::Unit)
                        },
                ),
            ),
            Ty::Defined(n, ts) => TyV::Defined(
                n@,
                Seq::new(ts.len() as nat, |i: int| if 0 <= i < ts.len() { ts[i].model() } else { TyV::Unit }),
            ),
            Ty::Var(n) => TyV::Var(n@),
            Ty::Fun(a, b) => TyV::Fun(Box::new(a.model()), Box::new(b.model())),
        }
    }
}

impl View for Ty {
    type V = TyV;

    open spec fn view(&self) -> TyV {
        self.model()
    }
}

/// The models of a list of type terms.
pub open spec fn tys_model(ts: Seq<Ty>) -> Seq<TyV> {
    Seq::new(ts.len(), |i: int| ts[i]@)
}

/// The models of a list of named type terms.
pub open spec fn fields_model(fs: Seq<(String, Ty)>) -> Seq<(Seq<char>, TyV)> {
    Seq::new(fs.len(), |i: int| (fs[i].0@, fs[i].1@))
}

pub proof fn lemma_ty_model(t: &Ty)
    ensures
        match t {
            Ty::Tuple(ts) => t@ == TyV::Tuple(tys_model(ts@)),
            Ty::Record(fs) => t@ == TyV::Record(fields_model(fs@)),
            Ty::Defined(n, ts) => t@ == TyV::Defined(n@, tys_model(ts@)),
            _ => true,
        },
{
    match t {
        Ty::Tuple(ts) => {
            let m = t.model();
            assert(m matches TyV::Tuple(s) && s =~= tys_model(ts@));
        },
        Ty::Record(fs) => {
            let m = t.model();
            assert(m matches TyV::Record(s) && s =~= fields_model(fs@));
        },
        Ty::Defined(n, ts) => {
            let m = t.model();
            assert(m matches TyV::Defined(_, s) && s =~= tys_model(ts@));
        },
        _ => {},
    }
}

/// A constant of the language.
#[derive(Debug)]
pub enum Atom {
    Unit,
    Bool(bool),
    Int(i64),
    String(String),
}

/// The model of a constant.
pub enum AtomV {
    Unit,
    Bool(bool),
    Int(i64),
    Str(Seq<char>),
}

impl View for Atom {
    type V = AtomV;

    open spec fn view(&self) -> AtomV {
        match self {
            Atom::Unit => AtomV::Unit,
            Atom::Bool(b) => AtomV::Bool(*b),
            Atom::Int(i) => AtomV::Int(*i),
            Atom::String(s) => AtomV::Str(s@),
        }
    }
}

/// A pattern of a `case` arm.
#[derive(Debug)]
pub enum Pattern {
    Atom(Atom),
    Tuple(Vec<Pattern>),
    Record(Vec<(String, Pattern)>),
    Wildcard,
    Ident(String),
}

/// The model of a pattern.
pub enum PatV {
    Atom(AtomV),
    Tuple(Seq<PatV>),
    Record(Seq<(Seq<char>, PatV)>),
    Wildcard,
    Ident(Seq<char>),
}

impl Pattern {
    /// The model of this pattern.
    pub open spec fn model(&self) -> PatV
        decreases self,
    {
        match self {
            Pattern::Atom(a) => PatV::Atom(a@),
            Pattern::Tuple(ps) => PatV::Tuple(
                Seq::new(ps.len() as nat, |i: int| if 0 <= i < ps.len() { ps[i].model() } else { PatV::Wildcard }),
            ),
            Pattern::Record(fs) => PatV::Record(
                Seq::new(
                    fs.len() as nat,
                    |i: int|
                        if 0 <= i < fs.len() {
                            (fs[i].0@, fs[i].1.model())
                        } else {
                            (Seq::empty(), PatV::Wildcard)
                        },
                ),
            ),
            Pattern::Wildcard => PatV::Wildcard,
            Pattern::Ident(n) => PatV::Ident(n@),
        }
    }
}

impl View for Pattern {
    type V = PatV;

    open spec fn view(&self) -> PatV {
        self.model()
    }
}

/// A term of the language.
#[derive(Debug)]
pub enum Expr {
    Atom(Atom),
    Ident(String),
    Tuple(Vec<Expr>),
    Record(Vec<(String, Expr)>),
    Let(Vec<(String, Expr)>, Box<Expr>),
    Apply(Box<Expr>, Box<Expr>),
    Lambda(String, Box<Expr>),
    Case(Box<Expr>, Vec<(Pattern, Expr)>),
}

/// The model of a term.
pub enum ExprV {
    Atom(AtomV),
    Ident(Seq<char>),
    Tuple(Seq<ExprV>),
    Record(Seq<(Seq<char>, ExprV)>),
    Let(Seq<(Seq<char>, ExprV)>, Box<ExprV>),
    Apply(Box<ExprV>, Box<ExprV>),
    Lambda(Seq<char>, Box<ExprV>),
    Case(Box<ExprV>, Seq<(PatV, ExprV)>),
}

impl Expr {
    /// The model of this term.
    pub open spec fn model(&self) -> ExprV
        decreases self,
    {
        match self {
            Expr::Atom(a) => ExprV::Atom(a@),
            Expr::Ident(n) => ExprV::Ident(n@),
            Expr::Tuple(es) => ExprV::Tuple(
                Seq::new(
                    es.len() as nat,
                    |i: int| if 0 <= i < es.len() { es[i].model() } else { ExprV::Atom(AtomV::Unit) },
                ),
            ),
            Expr::Record(fs) => ExprV::Record(
                Seq::new(
                    fs.len() as nat,
                    |i: int|
                        if 0 <= i < fs.len() {
                            (fs[i].0@, fs[i].1.model())
                        } else {
                            (Seq::empty(), ExprV::Atom(AtomV::Unit))
                        },
                ),
            ),
            Expr::Let(bs, body) => ExprV::Let(
                Seq::new(
                    bs.len() as nat,
                    |i: int|
                        if 0 <= i < bs.len() {
                            (bs[i].0@, bs[i].1.model())
                        } else {
                            (Seq::empty(), ExprV::Atom(AtomV::Unit))
                        },
                ),
                Box::new(body.model()),
            ),
            Expr::Apply(f, a) => ExprV::Apply(Box::new(f.model()), Box::new(a.model())),
            Expr::Lambda(x, body) => ExprV::Lambda(x@, Box::new(body.model())),
            Expr::Case(e, arms) => ExprV::Case(
                Box::new(e.model()),
                Seq::new(
                    arms.len() as nat,
                    |i: int|
                        if 0 <= i < arms.len() {
                            (arms[i].0@, arms[i].1.model())
                        } else {
                            (PatV::Wildcard, ExprV::Atom(AtomV::Unit))
                        },
                ),
            ),
        }
    }
}

impl View for Expr {
    type V = ExprV;

    open spec fn view(&self) -> ExprV {
        self.model()
    }
}

/// The declared row type of a table.
#[derive(Debug)]
pub struct TableDefinition {
    pub ty: Ty,
}

/// A top-level statement of a session.
#[derive(Debug)]
pub enum Statement {
    Create(String, TableDefinition),
    Insert(String, Expr),
    Select(String),
    Let(String, Expr),
    Union(String, Vec<String>, Vec<(String, Vec<Ty>)>),
}

impl Atom {
    /// A copy of this constant.
    pub fn copy(&self) -> (r: Atom)
        ensures
            r@ == self@,
    {
        match self {
            Atom::Unit => Atom::Unit,
            Atom::Bool(b) => Atom::Bool(*b),
            Atom::Int(i) => Atom::Int(*i),
            Atom::String(s) => Atom::String(s.clone()),
        }
    }
}

impl Pattern {
    /// A copy of this pattern.
    pub fn copy(&self) -> (r: Pattern)
        ensures
            r@ == self@,
        decreases self,
    {
        match self {
            Pattern::Atom(a) => Pattern::Atom(a.copy()),
            Pattern::Tuple(ps) => {
                let r = Pattern::Tuple(pats_copy(ps));
                proof {
                    assert(r.model()->Tuple_0 =~= self.model()->Tuple_0);
                }
                r
            },
            Pattern::Record(fs) => {
                let r = Pattern::Record(named_pats_copy(fs));
                proof {
                    assert(r.model()->Record_0 =~= self.model()->Record_0);
                }
                r
            },
            Pattern::Wildcard => Pattern::Wildcard,
            Pattern::Ident(n) => Pattern::Ident(n.clone()),
        }
    }
}

fn pats_copy(ps: &Vec<Pattern>) -> (r: Vec<Pattern>)
    ensures
        r.len() == ps.len(),
        forall|j: int| 0 <= j < ps.len() ==> r@[j]@ == ps@[j]@,
    decreases ps,
{
    let mut out: Vec<Pattern> = Vec::new();
    let mut i: usize = 0;
    while i < ps.len()
        invariant
            0 <= i <= ps.len(),
            out.len() == i,
            forall|j: int| 0 <= j < i ==> out@[j]@ == ps@[j]@,
        decreases ps.len() - i,
    {
        proof {
            assert(decreases_to!(ps => ps[i as int]));
        }
        out.push(ps[i].copy());
        i = i + 1;
    }
    out
}

fn named_pats_copy(fs: &Vec<(String, Pattern)>) -> (r: Vec<(String, Pattern)>)
    ensures
        r.len() == fs.len(),
        forall|j: int| 0 <= j < fs.len() ==> r@[j].0@ == fs@[j].0@ && r@[j].1@ == fs@[j].1@,
    decreases fs,
{
    let mut out: Vec<(String, Pattern)> = Vec::new();
    let mut i: usize = 0;
    while i < fs.len()
        invariant
            0 <= i <= fs.len(),
            out.len() == i,
            forall|j: int| 0 <= j < i ==> out@[j].0@ == fs@[j].0@ && out@[j].1@ == fs@[j].1@,
        decreases fs.len() - i,
    {
        proof {
            assert(decreases_to!(fs => fs[i as int]));
        }
        out.push((fs[i].0.clone(), fs[i].1.copy()));
        i = i + 1;
    }
    out
}

fn exprs_copy(es: &Vec<Expr>) -> (r: Vec<Expr>)
    ensures
        r.len() == es.len(),
        forall|j: int| 0 <= j < es.len() ==> r@[j]@ == es@[j]@,
    decreases es,
{
    let mut out: Vec<Expr> = Vec::new();
    let mut i: usize = 0;
    while i < es.len()
        invariant
            0 <= i <= es.len(),
            out.len() == i,
            forall|j: int| 0 <= j < i ==> out@[j]@ == es@[j]@,
        decreases es.len() - i,
    {
        proof {
            assert(decreases_to!(es => es[i as int]));
        }
        out.push(es[i].copy());
        i = i + 1;
    }
    out
}

fn arms_copy(arms: &Vec<(Pattern, Expr)>) -> (r: Vec<(Pattern, Expr)>)
    ensures
        r.len() == arms.len(),
        forall|j: int| 0 <= j < arms.len() ==> r@[j].0@ == arms@[j].0@ && r@[j].1@ == arms@[j].1@,
    decreases arms,
{
    let mut out: Vec<(Pattern, Expr)> = Vec::new();
    let mut i: usize = 0;
    while i < arms.len()
        invariant
            0 <= i <= arms.len(),
            out.len() == i,
            forall|j: int| 0 <= j < i ==> out@[j].0@ == arms@[j].0@ && out@[j].1@ == arms@[j].1@,
        decreases arms.len() - i,
    {
        proof {
            assert(decreases_to!(arms => arms[i as int]));
        }
        out.push((arms[i].0.copy(), arms[i].1.copy()));
        i = i + 1;
    }
    out
}

/// A copy of a list of named terms.
fn named_exprs_copy(fs: &Vec<(String, Expr)>) -> (r: Vec<(String, Expr)>)
    ensures
        r.len() == fs.len(),
        forall|j: int| 0 <= j < fs.len() ==> r@[j].0@ == fs@[j].0@ && r@[j].1@ == fs@[j].1@,
    decreases fs,
{
    let mut out: Vec<(String, Expr)> = Vec::new();
    let mut i: usize = 0;
    while i < fs.len()
        invariant
            0 <= i <= fs.len(),
            out.len() == i,
            forall|j: int| 0 <= j < i ==> out@[j].0@ == fs@[j].0@ && out@[j].1@ == fs@[j].1@,
        decreases fs.len() - i,
    {
        proof {
            assert(decreases_to!(fs => fs[i as int]));
        }
        out.push((fs[i].0.clone(), fs[i].1.copy()));
        i = i + 1;
    }
    out
}

impl Expr {
    /// A copy of this term.
    pub fn copy(&self) -> (r: Expr)
        ensures
            r@ == self@,
        decreases self,
    {
        match self {
            Expr::Atom(a) => Expr::Atom(a.copy()),
            Expr::Ident(n) => Expr::Ident(n.clone()),
            Expr::Tuple(es) => {
                let r = Expr::Tuple(exprs_copy(es));
                proof {
                    assert(r.model()->Tuple_0 =~= self.model()->Tuple_0);
                }
                r
            },
            Expr::Record(fs) => {
                let r = Expr::Record(named_exprs_copy(fs));
                proof {
                    assert(r.model()->Record_0 =~= self.model()->Record_0);
                }
                r
            },
            Expr::Let(bs, body) => {
                let r = Expr::Let(named_exprs_copy(bs), Box::new(body.copy()));
                proof {
                    assert(r.model()->Let_0 =~= self.model()->Let_0);
                }
                r
            },
            Expr::Apply(f, a) => Expr::Apply(Box::new(f.copy()), Box::new(a.copy())),
            Expr::Lambda(x, body) => Expr::Lambda(x.clone(), Box::new(body.copy())),
            Expr::Case(e, arms) => {
                let out = arms_copy(arms);
                let r = Expr::Case(Box::new(e.copy()), out);
                proof {
                    assert(r.model()->Case_1 =~= self.model()->Case_1);
                }
                r
            },
        }
    }
}

} // verus!
