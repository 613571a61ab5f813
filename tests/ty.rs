use pdb::ast::{Atom, Expr, Ty};
use pdb::infer::{Env, GlobalSub};
use pdb::name_source::NameSource;
use pdb::ty::FreeVars;

fn s(x: &str) -> String {
    x.to_string()
}

fn var(x: &str) -> Ty {
    Ty::Var(s(x))
}

fn fun(a: Ty, b: Ty) -> Ty {
    Ty::Fun(Box::new(a), Box::new(b))
}

fn ident(x: &str) -> Expr {
    Expr::Ident(s(x))
}

fn lambda(x: &str, body: Expr) -> Expr {
    Expr::Lambda(s(x), Box::new(body))
}

fn apply(f: Expr, a: Expr) -> Expr {
    Expr::Apply(Box::new(f), Box::new(a))
}

#[test]
fn ty_fv() {
    assert_eq!(vec![s("x"), s("y")], Ty::Tuple(vec![var("x"), var("y")]).fv());
    assert_eq!(vec![s("x"), s("y")], fun(var("x"), var("y")).fv());
}

#[test]
fn scheme_fv() {
    assert_eq!(vec![s("x")], (vec![s("y")], Ty::Tuple(vec![var("x"), var("y")])).fv());
    assert_eq!(vec![s("y")], (vec![s("x")], fun(var("x"), var("y"))).fv());
}

#[test]
fn env_fv() {
    let mut env = Env::new();
    env.insert(s("foo"), (vec![s("y")], Ty::Tuple(vec![var("x"), var("y")])));
    assert_eq!(vec![s("x")], env.fv());
}

#[test]
fn unify() {
    assert_eq!(Ok(vec![]), pdb::unify::unify(vec![(Ty::Int, Ty::Int)]));

    assert_eq!(Ok(vec![(s("a"), Ty::Int)]), pdb::unify::unify(vec![(var("a"), Ty::Int)]));

    assert_eq!(Ok(vec![(s("a"), Ty::Int)]), pdb::unify::unify(vec![(Ty::Int, var("a"))]));

    assert_eq!(
        Ok(vec![(s("b"), Ty::Bool), (s("a"), Ty::Int)]),
        pdb::unify::unify(vec![(fun(Ty::Int, Ty::Bool), fun(var("a"), var("b")))])
    );

    assert_eq!(
        Ok(vec![(s("a"), Ty::Int)]),
        pdb::unify::unify(vec![(fun(Ty::Int, Ty::Int), fun(var("a"), var("a")))])
    );

    assert_eq!(Ok(vec![(s("a"), fun(Ty::Int, Ty::Bool))]), pdb::unify::unify(vec![(fun(Ty::Int, Ty::Bool), var("a"))]));

    assert!(pdb::unify::unify(vec![(fun(Ty::Int, Ty::Int), Ty::Int)]).is_err());

    assert_eq!(
        Ok(vec![(s("a"), Ty::Int)]),
        pdb::unify::unify(vec![(Ty::Tuple(vec![Ty::Int, Ty::Int]), Ty::Tuple(vec![var("a"), var("a")]))])
    );

    assert_eq!(
        Ok(vec![(s("b"), Ty::Bool), (s("a"), Ty::Int)]),
        pdb::unify::unify(vec![(Ty::Tuple(vec![Ty::Int, Ty::Bool]), Ty::Tuple(vec![var("a"), var("b")]))])
    );

    assert_eq!(
        Ok(vec![(s("a"), Ty::Int)]),
        pdb::unify::unify(vec![(
            Ty::Record(vec![(s("x"), Ty::Int), (s("y"), Ty::Int)]),
            Ty::Record(vec![(s("x"), var("a")), (s("y"), var("a"))])
        )])
    );

    assert_eq!(
        Ok(vec![(s("b"), Ty::Bool), (s("a"), Ty::Int)]),
        pdb::unify::unify(vec![(
            Ty::Record(vec![(s("x"), Ty::Int), (s("y"), Ty::Bool)]),
            Ty::Record(vec![(s("x"), var("a")), (s("y"), var("b"))])
        )])
    );
}

fn infer_fresh(e: &Expr) -> Result<Ty, pdb::infer::InferError> {
    pdb::infer::infer(&mut GlobalSub::new(), &mut NameSource::new(), &Env::new(), e)
}

#[test]
fn infer() {
    assert_eq!(Some(fun(var("a_0"), var("a_0"))), infer_fresh(&lambda("a", ident("a"))).ok());

    assert_eq!(
        Some(Ty::Int),
        infer_fresh(&Expr::Let(vec![(s("x"), Expr::Atom(Atom::Int(42)))], Box::new(ident("x")))).ok()
    );

    assert_eq!(
        Some(Ty::Bool),
        infer_fresh(&Expr::Let(
            vec![(s("x"), Expr::Atom(Atom::Int(42))), (s("y"), Expr::Atom(Atom::Bool(true)))],
            Box::new(ident("y"))
        ))
        .ok()
    );

    // `let id = λy . y in id`
    assert_eq!(
        Some(fun(var("y_0_1"), var("y_0_1"))),
        infer_fresh(&Expr::Let(vec![(s("id"), lambda("y", ident("y")))], Box::new(ident("id")))).ok()
    );

    // `let apply = λf . λx . f x in let id = λy . y in apply id`
    let mut env = Env::new();
    let mut subs = GlobalSub::new();
    let res = pdb::infer::infer(
        &mut subs,
        &mut NameSource::new(),
        &mut env,
        &Expr::Let(
            vec![
                (s("apply"), lambda("f", lambda("x", apply(ident("f"), ident("x"))))),
                (s("id"), lambda("y", ident("y"))),
            ],
            Box::new(apply(ident("apply"), ident("id"))),
        ),
    );

    match res {
        Ok(Ty::Fun(lhs, rhs)) => assert_eq!(lhs, rhs),
        e => panic!("Wrong result: {:?}", e),
    }
}
