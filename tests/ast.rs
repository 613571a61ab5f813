use pdb::ast::{Atom, Expr, Statement};

fn ident(x: &str) -> Expr {
    Expr::Ident(x.to_string())
}

fn apply(f: Expr, a: Expr) -> Expr {
    Expr::Apply(Box::new(f), Box::new(a))
}

#[test]
fn display_expr() {
    assert_eq!("(foo (id x))".to_string(), apply(ident("foo"), apply(ident("id"), ident("x"))).to_string());

    assert_eq!("((foo id) x)".to_string(), apply(apply(ident("foo"), ident("id")), ident("x")).to_string());

    assert_eq!(
        "(foo \"Hello World!\")".to_string(),
        apply(ident("foo"), Expr::Atom(Atom::String("Hello World!".to_string()))).to_string()
    );

    assert_eq!(
        "let foo = 42".to_string(),
        Statement::Let("foo".to_string(), Expr::Atom(Atom::Int(42))).to_string()
    );
}
