use pdb::ast::{Atom, Expr, Pattern, Statement, TableDefinition, Ty};
use pdb::db::{eval_stm, DbError, Env as Session};
use pdb::environment::Environment;
use pdb::eval::eval;
use pdb::name_source::NameSource;
use pdb::object::Object;
use pdb::infer::Env as TypeEnv;
use pdb::ty::{apply, apply_mut, constraint_apply_mut, scheme_apply_mut};

fn s(x: &str) -> String {
    x.to_string()
}

fn num(i: i64) -> Expr {
    Expr::Atom(Atom::Int(i))
}

#[test]
fn fresh_names_count_up() {
    let mut ns = NameSource::new();
    assert_eq!("x_0", ns.fresh("x"));
    assert_eq!("case_1", ns.fresh("case"));
    for _ in 0..8 {
        ns.fresh("y");
    }
    assert_eq!("y_10", ns.fresh("y"));
}

#[test]
fn display_numbers_and_strings() {
    assert_eq!("-42", Atom::Int(-42).to_string());
    assert_eq!("0", Atom::Int(0).to_string());
    assert_eq!("-9223372036854775808", Atom::Int(i64::MIN).to_string());
    assert_eq!("\"hi\"", Atom::String(s("hi")).to_string());
    assert_eq!("\"hi\"", eval(&Environment::new(), Expr::Atom(Atom::String(s("hi")))).unwrap().to_string());
}

#[test]
fn display_types() {
    let t = Ty::Fun(Box::new(Ty::Int), Box::new(Ty::Fun(Box::new(Ty::Int), Box::new(Ty::Bool))));
    assert_eq!("(Int -> (Int -> Bool))", t.to_string());
    assert_eq!("List Int a", Ty::Defined(s("List"), vec![Ty::Int, Ty::Var(s("a"))]).to_string());
    assert_eq!("{ x: Int, y: () }", Ty::Record(vec![(s("x"), Ty::Int), (s("y"), Ty::Unit)]).to_string());
}

#[test]
fn display_patterns_and_terms() {
    let p = Pattern::Record(vec![(s("i"), Pattern::Wildcard), (s("j"), Pattern::Ident(s("j")))]);
    assert_eq!("{ i = _, j = j }", p.to_string());
    let e = Expr::Case(Box::new(num(42)), vec![(Pattern::Tuple(vec![Pattern::Ident(s("i")), Pattern::Ident(s("j"))]), Expr::Ident(s("j")))]);
    assert_eq!("case 42 of | (i, j) => j  end", e.to_string());
    let e = Expr::Let(vec![(s("x"), num(42))], Box::new(Expr::Ident(s("x"))));
    assert_eq!("let x = 42 in x end", e.to_string());
    let e = Expr::Lambda(s("f"), Box::new(Expr::Ident(s("x"))));
    assert_eq!("lambda f -> x", e.to_string());
}

#[test]
fn display_statements() {
    let st = Statement::Union(
        s("List"),
        vec![s("a")],
        vec![(s("Cons"), vec![Ty::Var(s("a")), Ty::Defined(s("List"), vec![])]), (s("Nil"), vec![])],
    );
    assert_eq!("type List a = Cons a List | Nil", st.to_string());
    assert_eq!("select from x", Statement::Select(s("x")).to_string());
    assert_eq!("insert 4 into x", Statement::Insert(s("x"), num(4)).to_string());
    assert_eq!(
        "create table x (Bool, Int)",
        Statement::Create(s("x"), TableDefinition { ty: Ty::Tuple(vec![Ty::Bool, Ty::Int]) }).to_string()
    );
}

#[test]
fn display_records_sorted_by_name() {
    let e = Expr::Record(vec![(s("y"), num(1)), (s("x"), num(2))]);
    assert_eq!("{ x = 2, y = 1 }", eval(&Environment::new(), e).unwrap().to_string());
    let closure = eval(&Environment::new(), Expr::Lambda(s("x"), Box::new(Expr::Ident(s("x"))))).unwrap();
    assert_eq!("<lambda>", closure.to_string());
}

#[test]
fn environment_shadowing() {
    let env = Environment::new().insert("x", Object::Int(1));
    let env2 = env.insert("x", Object::Int(2));
    assert_eq!("2", env2.lookup("x").unwrap().to_string());
    assert_eq!("1", env.lookup("x").unwrap().to_string());
    assert!(env2.lookup("y").is_err());
}

#[test]
fn session_statements() {
    let mut db = Session::new();
    assert_eq!(Ok(s("Created\n")), eval_stm(&mut db, Statement::Create(s("t"), TableDefinition { ty: Ty::Int })).map_err(|_| ()));
    assert_eq!(Ok(s("Inserted 1\n")), eval_stm(&mut db, Statement::Insert(s("t"), num(42))).map_err(|_| ()));
    assert!(matches!(
        eval_stm(&mut db, Statement::Insert(s("t"), Expr::Atom(Atom::Bool(true)))),
        Err(DbError::Rejected(x)) if x == "t"
    ));
    assert!(matches!(eval_stm(&mut db, Statement::Select(s("u"))), Err(DbError::NoSuchTable(x)) if x == "u"));
    assert_eq!(Ok(s("x: Int\n")), eval_stm(&mut db, Statement::Let(s("x"), num(7))).map_err(|_| ()));
    assert_eq!(Ok(s("Inserted 1\n")), eval_stm(&mut db, Statement::Insert(s("t"), Expr::Ident(s("x")))).map_err(|_| ()));
    assert_eq!(Ok(s("[42, 7]\n")), eval_stm(&mut db, Statement::Select(s("t"))).map_err(|_| ()));
    assert!(matches!(eval_stm(&mut db, Statement::Let(s("y"), Expr::Ident(s("nope")))), Err(DbError::Infer(_))));
    assert_eq!(
        Ok(s("Ok\n")),
        eval_stm(&mut db, Statement::Union(s("Option"), vec![], vec![(s("Some"), vec![Ty::Int]), (s("Nothing"), vec![])]))
            .map_err(|_| ())
    );
}

#[test]
fn substitution_in_place_matches_pure() {
    let sub = (s("a"), Ty::Int);
    let t = Ty::Defined(
        s("Pair"),
        vec![Ty::Var(s("a")), Ty::Record(vec![(s("f"), Ty::Fun(Box::new(Ty::Var(s("a"))), Box::new(Ty::Var(s("b")))))])],
    );
    let pure = apply(&t, &sub);
    let mut t2 = t;
    apply_mut(&mut t2, &sub);
    assert_eq!(pure, t2);
    assert_eq!("Pair Int { f: (Int -> b) }", t2.to_string());

    let mut bound = (vec![s("a")], Ty::Var(s("a")));
    scheme_apply_mut(&mut bound, &sub);
    assert_eq!(Ty::Var(s("a")), bound.1);
    let mut free = (vec![s("b")], Ty::Var(s("a")));
    scheme_apply_mut(&mut free, &sub);
    assert_eq!(Ty::Int, free.1);

    let mut c = (Ty::Var(s("a")), Ty::Tuple(vec![Ty::Var(s("a"))]));
    constraint_apply_mut(&mut c, &sub);
    assert_eq!((Ty::Int, Ty::Tuple(vec![Ty::Int])), c);
}

#[test]
fn environment_substitution_in_place() {
    let mut env = TypeEnv::new();
    env.insert(s("f"), (vec![], Ty::Var(s("a"))));
    env.insert(s("g"), (vec![s("a")], Ty::Var(s("a"))));
    assert_eq!(vec![s("a")], env.fv());
    env.apply_mut(&(s("a"), Ty::Bool));
    assert_eq!(Vec::<String>::new(), env.fv());
    assert_eq!(Some(&(vec![], Ty::Bool)), env.get(&s("f")));
}

#[test]
fn defaults_are_empty() {
    assert!(Environment::default().lookup("x").is_err());
    let mut ns = NameSource::default();
    assert_eq!("a_0", ns.fresh("a"));
}
