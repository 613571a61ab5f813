use pdb::ast::{Atom, Expr};
use pdb::environment::Environment;
use pdb::eval::eval;

fn s(x: &str) -> String {
    x.to_string()
}

fn int_expr(i: i64) -> Expr {
    Expr::Atom(Atom::Int(i))
}

fn boolean(b: bool) -> Expr {
    Expr::Atom(Atom::Bool(b))
}

fn ident(x: &str) -> Expr {
    Expr::Ident(s(x))
}

fn lambda(x: &str, body: Expr) -> Expr {
    Expr::Lambda(s(x), Box::new(body))
}

fn apply(f: Expr, a: Expr) -> Expr {
    Expr::Apply(Box::new(f), Box::new(a))
}

#[test]
fn eval_int() {
    assert_eq!("42", eval(&Environment::new(), int_expr(42)).unwrap().to_string());
}

#[test]
fn eval_bool() {
    assert_eq!("true", eval(&Environment::new(), boolean(true)).unwrap().to_string());
}

#[test]
fn eval_tuple() {
    assert_eq!(
        "(false, 43)",
        eval(&Environment::new(), Expr::Tuple(vec![boolean(false), int_expr(43)])).unwrap().to_string(),
    );
}

#[test]
fn eval_unit() {
    assert_eq!("()", eval(&Environment::new(), Expr::Atom(Atom::Unit)).unwrap().to_string());
}

#[test]
fn eval_record() {
    assert_eq!(
        "{ x = false, y = 42 }",
        eval(&Environment::new(), Expr::Record(vec![(s("x"), boolean(false)), (s("y"), int_expr(42))]))
            .unwrap()
            .to_string()
    );
}

#[test]
fn eval_id() {
    // let id = lambda x -> x in id 42 end
    let e = Expr::Let(vec![(s("id"), lambda("x", ident("x")))], Box::new(apply(ident("id"), int_expr(42))));
    assert_eq!("42", eval(&Environment::new(), e).unwrap().to_string());
}

#[test]
fn eval_first() {
    // let first = lambda x -> lambda y -> x in first 42 43 end
    let e = Expr::Let(
        vec![(s("first"), lambda("x", lambda("y", ident("x"))))],
        Box::new(apply(apply(ident("first"), int_expr(42)), int_expr(43))),
    );
    assert_eq!("42", eval(&Environment::new(), e).unwrap().to_string());
}
