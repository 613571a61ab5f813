use pdb::ast::{Atom, Expr, Pattern, Ty};
use pdb::environment::{EvalError, Environment};
use pdb::eval::eval;
use pdb::infer::{generalize, infer, Env, GlobalSub, InferError};
use pdb::name_source::NameSource;
use pdb::unify::{unify, UnifyError};

fn s(x: &str) -> String {
    x.to_string()
}

fn var(x: &str) -> Ty {
    Ty::Var(s(x))
}

fn fun(a: Ty, b: Ty) -> Ty {
    Ty::Fun(Box::new(a), Box::new(b))
}

fn num(i: i64) -> Expr {
    Expr::Atom(Atom::Int(i))
}

fn truth(b: bool) -> Expr {
    Expr::Atom(Atom::Bool(b))
}

fn ident(x: &str) -> Expr {
    Expr::Ident(s(x))
}

fn lambda(x: &str, body: Expr) -> Expr {
    Expr::Lambda(s(x), Box::new(body))
}

fn apply(f: Expr, a: Expr) -> Expr {
    Expr::Apply(Box::new(f), Box::new(a))
}

fn let_in(x: &str, e: Expr, body: Expr) -> Expr {
    Expr::Let(vec![(s(x), e)], Box::new(body))
}

fn case(e: Expr, arms: Vec<(Pattern, Expr)>) -> Expr {
    Expr::Case(Box::new(e), arms)
}

fn pint(i: i64) -> Pattern {
    Pattern::Atom(Atom::Int(i))
}

fn infer_fresh(e: &Expr) -> Result<Ty, InferError> {
    infer(&mut GlobalSub::new(), &mut NameSource::new(), &Env::new(), e)
}

fn eval_text(e: Expr) -> String {
    eval(&Environment::new(), e).unwrap().to_string()
}

#[test]
fn unify_substitutions_solve_constraints() {
    // a = b, b = Int: the substitutions, applied last found first, make both sides equal
    let r = unify(vec![(var("a"), var("b")), (var("b"), Ty::Int)]).unwrap();
    assert_eq!(vec![(s("b"), Ty::Int), (s("a"), var("b"))], r);
    let mut lhs = var("a");
    let mut rhs = var("b");
    for sub in r.iter().rev() {
        lhs = pdb::ty::apply(&lhs, sub);
        rhs = pdb::ty::apply(&rhs, sub);
    }
    assert_eq!(lhs, Ty::Int);
    assert_eq!(rhs, Ty::Int);
}

#[test]
fn unify_occurs_check() {
    let t = fun(var("a"), Ty::Int);
    assert!(unify(vec![(var("a"), fun(var("a"), Ty::Int))]).is_err());
    assert!(unify(vec![(t, var("a"))]).is_err());
    assert!(unify(vec![(var("a"), Ty::Tuple(vec![Ty::Bool, var("a")]))]).is_err());
    assert_eq!(Ok(vec![]), unify(vec![(var("a"), var("a"))]));
}

#[test]
fn unify_records_field_set_exact() {
    let r = unify(vec![(
        Ty::Record(vec![(s("x"), Ty::Int)]),
        Ty::Record(vec![(s("x"), Ty::Int), (s("y"), Ty::Bool)]),
    )]);
    assert_eq!(
        Err(UnifyError::Records(
            Ty::Record(vec![(s("x"), Ty::Int)]),
            Ty::Record(vec![(s("x"), Ty::Int), (s("y"), Ty::Bool)])
        )),
        r
    );
}

#[test]
fn unify_records_in_any_order() {
    let r = unify(vec![(
        Ty::Record(vec![(s("y"), Ty::Bool), (s("x"), var("a"))]),
        Ty::Record(vec![(s("x"), Ty::Int), (s("y"), var("b"))]),
    )]);
    assert_eq!(Ok(vec![(s("b"), Ty::Bool), (s("a"), Ty::Int)]), r);
}

#[test]
fn unify_mismatch_error() {
    assert_eq!(
        Err(UnifyError::Mismatch(Ty::Int, Ty::Bool)),
        unify(vec![(Ty::Int, Ty::Bool)])
    );
    assert_eq!(
        Err(UnifyError::Mismatch(Ty::Tuple(vec![Ty::Int]), Ty::Tuple(vec![Ty::Int, Ty::Int]))),
        unify(vec![(Ty::Tuple(vec![Ty::Int]), Ty::Tuple(vec![Ty::Int, Ty::Int]))])
    );
}

#[test]
fn generalize_scoping() {
    let mut env = Env::new();
    env.insert(s("x"), (vec![], var("a")));
    let (vars, body) = generalize(&env, fun(var("a"), fun(var("b"), var("b"))));
    assert_eq!(vec![s("b")], vars);
    assert_eq!(fun(var("a"), fun(var("b"), var("b"))), body);
}

#[test]
fn let_polymorphism() {
    // let id = lambda x -> x in (id 42, id True) end
    let e = let_in(
        "id",
        lambda("x", ident("x")),
        Expr::Tuple(vec![apply(ident("id"), num(42)), apply(ident("id"), truth(true))]),
    );
    assert_eq!(Some(Ty::Tuple(vec![Ty::Int, Ty::Bool])), infer_fresh(&e).ok());
}

#[test]
fn lambda_self_application_fails() {
    // lambda x -> x x
    let e = lambda("x", apply(ident("x"), ident("x")));
    assert!(matches!(infer_fresh(&e), Err(InferError::Unify(_))));
}

#[test]
fn case_tuple_pattern_on_int_fails() {
    // case 42 of (i, j) => i end
    let e = case(num(42), vec![(Pattern::Tuple(vec![Pattern::Ident(s("i")), Pattern::Ident(s("j"))]), ident("i"))]);
    assert!(infer_fresh(&e).is_err());
}

#[test]
fn infer_case_types() {
    let e = case(num(42), vec![(Pattern::Ident(s("i")), ident("i"))]);
    assert_eq!(Some(Ty::Int), infer_fresh(&e).ok());
    let e = case(
        Expr::Tuple(vec![num(42), truth(true)]),
        vec![(Pattern::Tuple(vec![Pattern::Ident(s("i")), Pattern::Ident(s("j"))]), ident("i"))],
    );
    assert_eq!(Some(Ty::Int), infer_fresh(&e).ok());
}

#[test]
fn infer_and_print_types() {
    let id = let_in("id", lambda("x", ident("x")), ident("id"));
    assert_eq!("(x_0_1 -> x_0_1)", infer_fresh(&id).unwrap().to_string());
    let e = Expr::Tuple(vec![let_in("id", lambda("x", ident("x")), ident("id")), num(42), truth(true)]);
    assert_eq!("((x_0_1 -> x_0_1), Int, Bool)", infer_fresh(&e).unwrap().to_string());
    let e = Expr::Record(vec![
        (s("x"), let_in("id", lambda("x", ident("x")), ident("id"))),
        (s("y"), num(42)),
        (s("z"), truth(true)),
    ]);
    assert_eq!("{ x: (x_0_1 -> x_0_1), y: Int, z: Bool }", infer_fresh(&e).unwrap().to_string());
    assert_eq!("()", infer_fresh(&Expr::Atom(Atom::Unit)).unwrap().to_string());
    assert_eq!("String", infer_fresh(&Expr::Atom(Atom::String(s("Hello World!")))).unwrap().to_string());
}

#[test]
fn infer_unbound_identifier() {
    assert!(matches!(infer_fresh(&ident("nope")), Err(InferError::UnboundIdentifier(x)) if x == "nope"));
}

#[test]
fn eval_is_deterministic() {
    let mk = || {
        let_in(
            "pair",
            lambda("a", lambda("b", Expr::Tuple(vec![ident("a"), ident("b")]))),
            apply(apply(ident("pair"), num(1)), truth(false)),
        )
    };
    let first = eval_text(mk());
    let second = eval_text(mk());
    assert_eq!(first, second);
    assert_eq!("(1, false)", first);
}

#[test]
fn case_first_match() {
    // case 1337 of 0 => 0 | 1337 => 42 end
    let e = case(num(1337), vec![(pint(0), num(0)), (pint(1337), num(42))]);
    assert_eq!("42", eval_text(e));
    // case (1337, 0) of (1337, _) => 42 | _ => 43 end
    let e = case(
        Expr::Tuple(vec![num(1337), num(0)]),
        vec![(Pattern::Tuple(vec![pint(1337), Pattern::Wildcard]), num(42)), (Pattern::Wildcard, num(43))],
    );
    assert_eq!("42", eval_text(e));
}

#[test]
fn record_pattern_destructuring() {
    // case { x = 42, y = True } of { x = i, y = _ } => i end
    let e = case(
        Expr::Record(vec![(s("x"), num(42)), (s("y"), truth(true))]),
        vec![(Pattern::Record(vec![(s("x"), Pattern::Ident(s("i"))), (s("y"), Pattern::Wildcard)]), ident("i"))],
    );
    assert_eq!("42", eval_text(e));
}

#[test]
fn closure_lexical_scope() {
    // let first = lambda x -> lambda y -> x in first 42 43 end
    let e = let_in("first", lambda("x", lambda("y", ident("x"))), apply(apply(ident("first"), num(42)), num(43)));
    assert_eq!("42", eval_text(e));
    // let x = 1 in let f = lambda y -> x in let x = 2 in f 0 end end end
    let e = let_in("x", num(1), let_in("f", lambda("y", ident("x")), let_in("x", num(2), apply(ident("f"), num(0)))));
    assert_eq!("1", eval_text(e));
}

#[test]
fn round_trip_infer_then_eval() {
    for _ in 0..2 {
        // let x = 42 in x end
        let e = let_in("x", num(42), ident("x"));
        assert_eq!(Some(Ty::Int), infer_fresh(&e).ok());
        assert_eq!("42", eval_text(e));
    }
}

#[test]
fn eval_errors() {
    assert!(matches!(eval(&Environment::new(), ident("z")), Err(EvalError::UnboundIdentifier(x)) if x == "z"));
    assert!(matches!(
        eval(&Environment::new(), case(num(1), vec![(pint(0), num(0))])),
        Err(EvalError::NoMatchingCasePattern)
    ));
    assert!(matches!(eval(&Environment::new(), apply(num(1), num(2))), Err(EvalError::AppliedNonClosure)));
}

#[test]
fn tuple_pattern_arity_mismatch_does_not_match() {
    let e = case(
        Expr::Tuple(vec![num(1), num(2)]),
        vec![(Pattern::Tuple(vec![Pattern::Wildcard]), num(0)), (Pattern::Wildcard, num(7))],
    );
    assert_eq!("7", eval_text(e));
}

#[test]
fn error_messages() {
    assert_eq!("Could not unify Int and Bool", UnifyError::Mismatch(Ty::Int, Ty::Bool).message());
    let r = unify(vec![(
        Ty::Record(vec![(s("y"), Ty::Int)]),
        Ty::Record(vec![(s("y"), Ty::Int), (s("x"), Ty::Bool)]),
    )]);
    assert_eq!(
        "Could not unify records { y: Int } and { x: Bool, y: Int }",
        r.unwrap_err().message()
    );
    assert_eq!(
        "Identifier nope not found in environment",
        infer_fresh(&ident("nope")).unwrap_err().message()
    );
}
