use vstd::prelude::*;
use vstd::string::*;
use crate::ast::{Statement, TableDefinition, Ty, TyV, tys_model};
use crate::display::{join, obj_text, ty_text, join_strings, objs_texts};
use crate::environment::{Environment, EnvV, EvalError, EvalErrorV};
use crate::eval::{eval, eval_spec, CALL_DEPTH};
use crate::infer::{
    Env as TypeEnv, EnvModel, GlobalSub, InferError, InferErrorV, infer, infer_spec, generalize, generalize_spec, assoc_insert, assoc_find, find_key, lemma_assoc_find,
};
use crate::ty::tys_copy;
use crate::name_source::NameSource;
use crate::object::{Object, ObjV, objs_model};
use crate::ty::{names_model, Constraint};
use crate::unify::{unify, unify_spec, cs_model};

verus! {

broadcast use vstd::seq::group_seq_axioms;

/// A table: its name, its row type and its rows.
pub type Table = (String, TableDefinition, Vec<Object>);

/// The model of a table: its name, its row type and its rows.
pub type TableV = (Seq<char>, TyV, Seq<ObjV>);

/// The model of a declared constructor: its name, its argument types and the name of its type.
pub type ConstructorV = (Seq<char>, (Seq<TyV>, Seq<char>));

/// The state of a session: the types and values of the names bound so far,
/// the tables, and the constructors of the declared types.
#[derive(Debug)]
pub struct Env {
    ty_env: TypeEnv,
    env: Environment,
    tables: Vec<Table>,
    constructors: Vec<(String, (Vec<Ty>, String))>,
}

/// The model of a session's state.
pub struct SessionV {
    pub ty_env: EnvModel,
    pub env: EnvV,
    pub tables: Seq<TableV>,
    pub constructors: Seq<ConstructorV>,
}

/// The models of a list of tables.
pub open spec fn tables_model(v: Seq<Table>) -> Seq<TableV> {
    Seq::new(v.len(), |i: int| (v[i].0@, v[i].1.ty@, objs_model(v[i].2@)))
}

/// The models of a list of constructors.
pub open spec fn constructors_model(v: Seq<(String, (Vec<Ty>, String))>) -> Seq<ConstructorV> {
    Seq::new(v.len(), |i: int| (v[i].0@, (tys_model(v[i].1.0@), v[i].1.1@)))
}

impl View for Env {
    type V = SessionV;

    closed spec fn view(&self) -> SessionV {
        SessionV {
            ty_env: self.ty_env@,
            env: self.env@,
            tables: tables_model(self.tables@),
            constructors: constructors_model(self.constructors@),
        }
    }
}

/// Why a statement failed; the session is then left as it was.
#[derive(Debug)]
pub enum DbError {
    /// No table has this name.
    NoSuchTable(String),
    /// The statement's term has no type.
    Infer(InferError),
    /// The statement's term could not be evaluated.
    Eval(EvalError),
    /// The term's type does not unify with the row type of this table.
    Rejected(String),
}

/// The model of a statement's failure.
pub enum DbErrorV {
    NoSuchTable(Seq<char>),
    Infer(InferErrorV),
    Eval(EvalErrorV),
    Rejected(Seq<char>),
}

impl View for DbError {
    type V = DbErrorV;

    open spec fn view(&self) -> DbErrorV {
        match self {
            DbError::NoSuchTable(x) => DbErrorV::NoSuchTable(x@),
            DbError::Infer(e) => DbErrorV::Infer(e@),
            DbError::Eval(e) => DbErrorV::Eval(e@),
            DbError::Rejected(x) => DbErrorV::Rejected(x@),
        }
    }
}

/// The first table named `x`, if any.
pub open spec fn find_table(ts: Seq<TableV>, x: Seq<char>) -> Option<int>
    decreases ts.len(),
{
    if ts.len() == 0 {
        None
    } else {
        match find_table(ts.drop_last(), x) {
            Some(i) => Some(i),
            None => if ts.last().0 == x {
                Some(ts.len() - 1)
            } else {
                None
            },
        }
    }
}

/// The type a session gives a term, in a fresh inference.
pub open spec fn stm_type(s: SessionV, e: crate::ast::ExprV) -> Result<TyV, InferErrorV> {
    infer_spec(Seq::empty(), 0, s.ty_env, e).0
}

/// Every variant bound to its argument types and the declared type's name, in order.
pub open spec fn add_constructors(cs: Seq<ConstructorV>, name: Seq<char>, vs: Seq<(Seq<char>, Seq<TyV>)>) -> Seq<
    ConstructorV,
>
    decreases vs.len(),
{
    if vs.len() == 0 {
        cs
    } else {
        assoc_insert(add_constructors(cs, name, vs.drop_last()), vs.last().0, (vs.last().1, name))
    }
}

/// What a statement answers and the session after it.
pub open spec fn eval_stm_spec(s: SessionV, stm: Statement) -> (Result<Seq<char>, DbErrorV>, SessionV) {
    match stm {
        Statement::Create(x, def) => (
            Ok("Created\n"@),
            SessionV { tables: s.tables.push((x@, def.ty@, Seq::empty())), ..s },
        ),
        Statement::Insert(x, e) => match find_table(s.tables, x@) {
            None => (Err(DbErrorV::NoSuchTable(x@)), s),
            Some(i) => match stm_type(s, e@) {
                Err(err) => (Err(DbErrorV::Infer(err)), s),
                Ok(t) => if unify_spec(seq![(t, s.tables[i].1)]) is Ok {
                    match eval_spec(s.env, e@, CALL_DEPTH as nat) {
                        Err(err) => (Err(DbErrorV::Eval(err)), s),
                        Ok(v) => (
                            Ok("Inserted 1\n"@),
                            SessionV {
                                tables: s.tables.update(i, (s.tables[i].0, s.tables[i].1, s.tables[i].2.push(v))),
                                ..s
                            },
                        ),
                    }
                } else {
                    (Err(DbErrorV::Rejected(x@)), s)
                },
            },
        },
        Statement::Select(x) => match find_table(s.tables, x@) {
            None => (Err(DbErrorV::NoSuchTable(x@)), s),
            Some(i) => (Ok("["@ + join(objs_texts(s.tables[i].2), ", "@) + "]\n"@), s),
        },
        Statement::Let(x, e) => match stm_type(s, e@) {
            Err(err) => (Err(DbErrorV::Infer(err)), s),
            Ok(t) => match eval_spec(s.env, e@, CALL_DEPTH as nat) {
                Err(err) => (Err(DbErrorV::Eval(err)), s),
                Ok(v) => (
                    Ok(x@ + ": "@ + ty_text(t) + "\n"@),
                    SessionV {
                        ty_env: assoc_insert(s.ty_env, x@, generalize_spec(s.ty_env, t)),
                        env: EnvV::Node(x@, v, Box::new(s.env)),
                        ..s
                    },
                ),
            },
        },
        Statement::Union(name, _, vs) => (
            Ok("Ok\n"@),
            SessionV {
                constructors: add_constructors(
                    s.constructors,
                    name@,
                    Seq::new(vs@.len(), |i: int| (vs@[i].0@, tys_model(vs@[i].1@))),
                ),
                ..s
            },
        ),
    }
}

/// The model of a statement's answer.
pub open spec fn answer_model(r: Result<String, DbError>) -> Result<Seq<char>, DbErrorV> {
    match r {
        Ok(s) => Ok(s@),
        Err(e) => Err(e@),
    }
}

proof fn lemma_find_table(ts: Seq<TableV>, x: Seq<char>)
    ensures
        match find_table(ts, x) {
            Some(i) => 0 <= i < ts.len() && ts[i].0 == x && forall|j: int| 0 <= j < i ==> ts[j].0 != x,
            None => forall|j: int| 0 <= j < ts.len() ==> ts[j].0 != x,
        },
    decreases ts.len(),
{
    if ts.len() > 0 {
        let d = ts.drop_last();
        lemma_find_table(d, x);
        assert forall|j: int| 0 <= j < d.len() implies d[j] == ts[j] by {}
    }
}

impl Env {
    /// A session with no names, tables or declared types.
    pub fn new() -> (r: Env)
        ensures
            r@.ty_env == Seq::<(Seq<char>, crate::infer::SchemeV)>::empty(),
            r@.env == EnvV::Empty,
            r@.tables == Seq::<TableV>::empty(),
            r@.constructors == Seq::<ConstructorV>::empty(),
    {
        let r = Env { ty_env: TypeEnv::new(), env: Environment::new(), tables: Vec::new(), constructors: Vec::new() };
        proof {
            assert(r@.tables =~= Seq::<TableV>::empty());
            assert(r@.constructors =~= Seq::<ConstructorV>::empty());
        }
        r
    }

    /// The position of the first table named `x`, if any.
    fn table_index(&self, x: &String) -> (r: Option<usize>)
        ensures
            match find_table(self@.tables, x@) {
                Some(i) => r matches Some(j) && j as int == i && 0 <= i < self@.tables.len(),
                None => r is None,
            },
    {
        let ghost ts = self@.tables;
        proof {
            lemma_find_table(ts, x@);
        }
        let mut i: usize = 0;
        while i < self.tables.len()
            invariant
                0 <= i <= self.tables.len(),
                ts == self@.tables,
                ts.len() == self.tables.len(),
                forall|j: int| 0 <= j < ts.len() ==> #[trigger] ts[j].0 == self.tables@[j].0@,
                forall|j: int| 0 <= j < i ==> ts[j].0 != x@,
                match find_table(ts, x@) {
                    Some(k) => 0 <= k < ts.len() && ts[k].0 == x@ && forall|j: int| 0 <= j < k ==> ts[j].0 != x@,
                    None => forall|j: int| 0 <= j < ts.len() ==> ts[j].0 != x@,
                },
            decreases self.tables.len() - i,
        {
            if self.tables[i].0 == *x {
                proof {
                    assert(ts[i as int].0 == x@);
                }
                return Some(i);
            }
            proof {
                assert(ts[i as int].0 != x@);
            }
            i = i + 1;
        }
        None
    }

    /// Binds constructor `x` to its argument types and its type's name, replacing an earlier binding.
    fn add_constructor(&mut self, x: String, c: (Vec<Ty>, String))
        ensures
            final(self)@ == (SessionV {
                constructors: assoc_insert(old(self)@.constructors, x@, (tys_model(c.0@), c.1@)),
                ..old(self)@
            }),
    {
        let ghost m = (tys_model(c.0@), c.1@);
        let ghost xm = x@;
        let ghost cm = self@.constructors;
        let found = find_key(&self.constructors, &x);
        proof {
            assert forall|j: int| 0 <= j < self.constructors.len() implies cm[j].0 == self.constructors@[j].0@ by {}
            lemma_assoc_find(cm, xm);
            let k = assoc_find(cm, xm);
            match found {
                Some(i) => {
                    assert(cm[i as int].0 == xm);
                    if let Some(k) = k {
                        assert(cm[k].0 == xm);
                    }
                    assert(k == Some(i as int));
                },
                None => {
                    if let Some(k) = k {
                        assert(cm[k].0 == xm);
                        assert(self.constructors@[k].0@ == xm);
                    }
                    assert(k is None);
                },
            }
        }
        let ghost old_c = self.constructors@;
        match found {
            Some(i) => {
                self.constructors.set(i, (x, c));
                proof {
                    assert(constructors_model(self.constructors@) =~= constructors_model(old_c).update(i as int, (xm, m)));
                }
            },
            None => {
                self.constructors.push((x, c));
                proof {
                    assert(constructors_model(self.constructors@) =~= constructors_model(old_c).push((xm, m)));
                }
            },
        }
    }
}

/// Runs one statement of a session and answers with a message.
///
/// A statement that fails leaves the session as it was.
pub fn eval_stm(env: &mut Env, stm: Statement) -> (r: Result<String, DbError>)
    ensures
        eval_stm_spec(old(env)@, stm) == (answer_model(r), final(env)@),
{
    let ghost s0 = env@;
    let ghost stm0 = stm;
    match stm {
        Statement::Create(ident, def) => {
            let ghost t = (ident@, def.ty@, Seq::<ObjV>::empty());
            let ghost old_t = env.tables@;
            let rows: Vec<Object> = Vec::new();
            proof {
                assert(objs_model(rows@) =~= Seq::<ObjV>::empty());
            }
            env.tables.push((ident, def, rows));
            proof {
                assert(tables_model(env.tables@) =~= tables_model(old_t).push(t));
                reveal_strlit("Created\n");
            }
            Ok(String::from_str("Created\n"))
        },
        Statement::Insert(ident, expr) => {
            let i = match env.table_index(&ident) {
                Some(i) => i,
                None => return Err(DbError::NoSuchTable(ident)),
            };
            let mut gs = GlobalSub::new();
            let mut ns = NameSource::new();
            let ty = match infer(&mut gs, &mut ns, &env.ty_env, &expr) {
                Ok(t) => t,
                Err(e) => return Err(DbError::Infer(e)),
            };
            proof {
                assert(env@.tables.len() == env.tables.len());
                assert(env@.tables[i as int].1 == env.tables@[i as int].1.ty@);
            }
            let c: Constraint = (ty, crate::ty::ty_copy(&env.tables[i].1.ty));
            let ghost cm = (c.0@, c.1@);
            let cs = vec![c];
            proof {
                assert(cs_model(cs@) =~= seq![cm]);
            }
            match unify(cs) {
                Err(_) => Err(DbError::Rejected(ident)),
                Ok(_) => {
                    let v = match eval(&env.env, expr) {
                        Ok(v) => v,
                        Err(e) => return Err(DbError::Eval(e)),
                    };
                    let ghost vm = v@;
                    let ghost old_t = env.tables@;
                    let mut table = env.tables.remove(i);
                    let ghost old_rows = table.2@;
                    table.2.push(v);
                    env.tables.insert(i, table);
                    proof {
                        assert(objs_model(table.2@) =~= objs_model(old_rows).push(vm));
                        assert(tables_model(env.tables@) =~= tables_model(old_t).update(
                            i as int,
                            (old_t[i as int].0@, old_t[i as int].1.ty@, objs_model(old_rows).push(vm)),
                        ));
                        reveal_strlit("Inserted 1\n");
                    }
                    Ok(String::from_str("Inserted 1\n"))
                },
            }
        },
        Statement::Select(ident) => {
            let i = match env.table_index(&ident) {
                Some(i) => i,
                None => return Err(DbError::NoSuchTable(ident)),
            };
            let rows = &env.tables[i].2;
            let ghost m = objs_model(rows@);
            let ghost expected = "["@ + join(objs_texts(m), ", "@) + "]\n"@;
            proof {
                assert(env@.tables[i as int].2 == m);
                assert(eval_stm_spec(s0, stm0).0 == Ok::<Seq<char>, DbErrorV>(expected));
            }
            let mut parts: Vec<String> = Vec::new();
            let mut k: usize = 0;
            proof {
                assert(names_model(parts@) =~= objs_texts(m.take(0)));
            }
            while k < rows.len()
                invariant
                    0 <= k <= rows.len(),
                    m == objs_model(rows@),
                    names_model(parts@) == objs_texts(m.take(k as int)),
                decreases rows.len() - k,
            {
                let ghost o0 = parts@;
                parts.push(rows[k].to_string());
                proof {
                    assert(m.take(k + 1).drop_last() =~= m.take(k as int));
                    assert(names_model(parts@) =~= names_model(o0).push(obj_text(m[k as int])));
                }
                k = k + 1;
            }
            proof {
                assert(m.take(rows.len() as int) =~= m);
            }
            let inner = join_strings(&parts, ", ");
            let mut out = String::from_str("[");
            out.append(inner.as_str());
            out.append("]\n");
            proof {
                assert(out@ =~= expected);
            }
            Ok(out)
        },
        Statement::Let(ident, expr) => {
            let mut gs = GlobalSub::new();
            let mut ns = NameSource::new();
            let ty = match infer(&mut gs, &mut ns, &env.ty_env, &expr) {
                Ok(t) => t,
                Err(e) => return Err(DbError::Infer(e)),
            };
            let v = match eval(&env.env, expr) {
                Ok(v) => v,
                Err(e) => return Err(DbError::Eval(e)),
            };
            let mut out = ident.clone();
            out.append(": ");
            let t = ty.to_string();
            out.append(t.as_str());
            out.append("\n");
            proof {
                assert(out@ =~= ident@ + ": "@ + ty_text(ty@) + "\n"@);
            }
            let scheme = generalize(&env.ty_env, ty);
            env.ty_env.insert(ident.clone(), scheme);
            env.env = env.env.insert(ident.as_str(), v);
            Ok(out)
        },
        Statement::Union(name, _args, variants) => {
            let ghost vm = Seq::new(variants@.len(), |i: int| (variants@[i].0@, tys_model(variants@[i].1@)));
            let mut k: usize = 0;
            proof {
                assert(vm.take(0) =~= Seq::<(Seq<char>, Seq<TyV>)>::empty());
            }
            while k < variants.len()
                invariant
                    0 <= k <= variants.len(),
                    vm == Seq::new(variants@.len(), |i: int| (variants@[i].0@, tys_model(variants@[i].1@))),
                    env@ == (SessionV { constructors: add_constructors(s0.constructors, name@, vm.take(k as int)), ..s0 }),
                decreases variants.len() - k,
            {
                let tys = tys_copy(&variants[k].1);
                env.add_constructor(variants[k].0.clone(), (tys, name.clone()));
                proof {
                    assert(vm.take(k + 1).drop_last() =~= vm.take(k as int));
                }
                k = k + 1;
            }
            proof {
                assert(vm.take(variants.len() as int) =~= vm);
                reveal_strlit("Ok\n");
            }
            Ok(String::from_str("Ok\n"))
        },
    }
}

} // verus!
