//! Renaming single expressions: shadowing, letrec visibility, global
//! fallback, case isolation, the do-block leak, and shape preservation.

use renamer::ast::Binding;
use renamer::ast::DoBinding;
use renamer::ast::Expr;
use renamer::ast::Located;
use renamer::ast::Location;
use renamer::ast::Name;
use renamer::ast::Pattern;
use renamer::ast::Symbol;
use renamer::ast::TypeAnn;
use renamer::ast::TypedExpr;
use renamer::renamer::rename_expr;

fn loc() -> Location {
    Location { column: 0, row: 0, absolute: 0 }
}

fn te(expr: Expr<Symbol>) -> TypedExpr<Symbol> {
    TypedExpr { expr, typ: TypeAnn { id: 0 }, location: loc() }
}

fn ident(s: Symbol) -> TypedExpr<Symbol> {
    te(Expr::Identifier(s))
}

fn lam(p: Symbol, b: TypedExpr<Symbol>) -> TypedExpr<Symbol> {
    te(Expr::Lambda(p, Box::new(b)))
}

fn app(f: TypedExpr<Symbol>, a: TypedExpr<Symbol>) -> TypedExpr<Symbol> {
    te(Expr::Apply(Box::new(f), Box::new(a)))
}

fn bind(name: Symbol, e: TypedExpr<Symbol>) -> Binding<Symbol> {
    Binding { name, expression: e, type_decl: None, arity: 0 }
}

fn as_lambda(e: TypedExpr<Name>) -> (Name, TypedExpr<Name>) {
    match e.expr {
        Expr::Lambda(n, b) => (n, *b),
        _ => panic!("expected a lambda"),
    }
}

fn as_apply(e: TypedExpr<Name>) -> (TypedExpr<Name>, TypedExpr<Name>) {
    match e.expr {
        Expr::Apply(f, a) => (*f, *a),
        _ => panic!("expected an application"),
    }
}

fn as_ident(e: TypedExpr<Name>) -> Name {
    match e.expr {
        Expr::Identifier(n) => n,
        _ => panic!("expected an identifier"),
    }
}

fn as_let(e: TypedExpr<Name>) -> (Vec<Binding<Name>>, TypedExpr<Name>) {
    match e.expr {
        Expr::Let(bs, b) => (bs, *b),
        _ => panic!("expected a let"),
    }
}

#[test]
fn first_issued_uid_is_two() {
    let x: Symbol = 10;
    let (n, body) = as_lambda(rename_expr(lam(x, ident(x))));
    assert_eq!(n, Name { name: x, uid: 2 });
    assert_eq!(as_ident(body), Name { name: x, uid: 2 });
}

#[test]
fn uids_are_pairwise_distinct_and_positive() {
    let a: Symbol = 1;
    let b: Symbol = 2;
    let (na, rest) = as_lambda(rename_expr(lam(a, lam(b, lam(a, ident(a))))));
    let (nb, rest) = as_lambda(rest);
    let (na2, body) = as_lambda(rest);
    let uids = [na.uid, nb.uid, na2.uid];
    assert_eq!(uids, [2, 3, 4]);
    for i in 0..uids.len() {
        assert!(uids[i] > 0);
        for j in 0..uids.len() {
            if i != j {
                assert_ne!(uids[i], uids[j]);
            }
        }
    }
    assert_eq!(as_ident(body).uid, 4);
}

#[test]
fn shadowing_resolves_to_innermost() {
    let x: Symbol = 5;
    let (outer, rest) = as_lambda(rename_expr(lam(x, lam(x, ident(x)))));
    let (inner, body) = as_lambda(rest);
    assert_eq!(outer, Name { name: x, uid: 2 });
    assert_eq!(inner, Name { name: x, uid: 3 });
    assert_eq!(as_ident(body), inner);
}

#[test]
fn letrec_binding_visible_in_its_own_expression_and_body() {
    let f: Symbol = 1;
    let x: Symbol = 2;
    let one = te(Expr::Number(1));
    let expr = te(Expr::Let(
        vec![bind(f, lam(x, app(ident(f), ident(x))))],
        Box::new(app(ident(f), one)),
    ));
    let (bs, body) = as_let(rename_expr(expr));
    assert_eq!(bs.len(), 1);
    let fname = bs[0].name;
    assert_eq!(fname, Name { name: f, uid: 2 });
    let (xname, lam_body) = as_lambda(copy_expr(&bs[0].expression));
    assert_eq!(xname, Name { name: x, uid: 3 });
    let (f_in_lam, x_in_lam) = as_apply(lam_body);
    assert_eq!(as_ident(f_in_lam), fname);
    assert_eq!(as_ident(x_in_lam), xname);
    assert_ne!(fname.uid, xname.uid);
    let (f_in_body, _) = as_apply(body);
    assert_eq!(as_ident(f_in_body), fname);
}

#[test]
fn sibling_let_bindings_see_each_other() {
    let a: Symbol = 1;
    let b: Symbol = 2;
    let expr = te(Expr::Let(
        vec![bind(a, ident(b)), bind(b, ident(a))],
        Box::new(ident(a)),
    ));
    let (bs, body) = as_let(rename_expr(expr));
    assert_eq!(bs[0].name, Name { name: a, uid: 2 });
    assert_eq!(bs[1].name, Name { name: b, uid: 3 });
    assert_eq!(as_ident(copy_expr(&bs[0].expression)), Name { name: b, uid: 3 });
    assert_eq!(as_ident(copy_expr(&bs[1].expression)), Name { name: a, uid: 2 });
    assert_eq!(as_ident(body), Name { name: a, uid: 2 });
}

#[test]
fn unresolved_identifiers_fall_back_to_uid_zero() {
    let g: Symbol = 42;
    let (f, a) = as_apply(rename_expr(app(ident(g), ident(g))));
    let n1 = as_ident(f);
    let n2 = as_ident(a);
    assert_eq!(n1, Name { name: g, uid: 0 });
    assert_eq!(n1, n2);
}

#[test]
fn constructor_pattern_name_is_global_even_when_shadowed() {
    let c: Symbol = 7;
    let y: Symbol = 8;
    // The enclosing lambda binds the constructor's symbol locally; the
    // constructor still renames to uid 0.
    let case = te(Expr::Case(
        Box::new(ident(c)),
        vec![renamer::ast::Alternative {
            pattern: Located {
                location: loc(),
                node: Pattern::ConstructorPattern(c, vec![Pattern::IdentifierPattern(y)]),
            },
            expression: ident(y),
        }],
    ));
    let renamed = rename_expr(lam(c, case));
    let (lam_name, body) = as_lambda(renamed);
    assert_eq!(lam_name, Name { name: c, uid: 2 });
    match body.expr {
        Expr::Case(scrut, alts) => {
            assert_eq!(as_ident(*scrut), Name { name: c, uid: 2 });
            match &alts[0].pattern.node {
                Pattern::ConstructorPattern(n, subs) => {
                    assert_eq!(*n, Name { name: c, uid: 0 });
                    match &subs[0] {
                        Pattern::IdentifierPattern(yn) => {
                            assert_eq!(*yn, Name { name: y, uid: 3 })
                        }
                        _ => panic!("expected an identifier pattern"),
                    }
                }
                _ => panic!("expected a constructor pattern"),
            }
        }
        _ => panic!("expected a case"),
    }
}

#[test]
fn case_alternatives_are_isolated() {
    let e: Symbol = 1;
    let c: Symbol = 2;
    let d: Symbol = 3;
    let x: Symbol = 4;
    let y: Symbol = 5;
    let case = te(Expr::Case(
        Box::new(ident(e)),
        vec![
            renamer::ast::Alternative {
                pattern: Located {
                    location: loc(),
                    node: Pattern::ConstructorPattern(c, vec![Pattern::IdentifierPattern(x)]),
                },
                expression: ident(x),
            },
            renamer::ast::Alternative {
                pattern: Located {
                    location: loc(),
                    node: Pattern::ConstructorPattern(d, vec![Pattern::IdentifierPattern(y)]),
                },
                expression: app(ident(y), ident(x)),
            },
        ],
    ));
    match rename_expr(case).expr {
        Expr::Case(_, alts) => {
            // The first alternative's x got a fresh uid.
            let x1 = as_ident(copy_expr(&alts[0].expression));
            assert_eq!(x1, Name { name: x, uid: 2 });
            // Inside the second alternative, y is fresh and x is not in
            // scope: the first alternative's binding is not visible.
            let (y2, x2) = as_apply(copy_expr(&alts[1].expression));
            assert_eq!(as_ident(y2), Name { name: y, uid: 3 });
            assert_eq!(as_ident(x2), Name { name: x, uid: 0 });
        }
        _ => panic!("expected a case"),
    }
}

#[test]
fn do_block_let_bindings_leak_into_enclosing_scope() {
    let w: Symbol = 1;
    let v: Symbol = 2;
    let do_block = te(Expr::Do(
        vec![DoBinding::DoLet(vec![bind(v, te(Expr::Number(1)))])],
        Box::new(ident(v)),
    ));
    // The reference to v AFTER the do-block, still inside the lambda,
    // resolves to the do-block's binding: the block pushes no scope of its
    // own, so its bindings stay for the rest of the enclosing scope.
    let expr = lam(w, app(do_block, ident(v)));
    let (_, body) = as_lambda(rename_expr(expr));
    let (do_part, v_after) = as_apply(body);
    let v_uid_in_block = match do_part.expr {
        Expr::Do(stmts, last) => {
            let uid = match &stmts[0] {
                DoBinding::DoLet(bs) => bs[0].name.uid,
                _ => panic!("expected a do-let"),
            };
            assert_eq!(as_ident(*last).uid, uid);
            uid
        }
        _ => panic!("expected a do-block"),
    };
    assert_eq!(v_uid_in_block, 3);
    assert_eq!(as_ident(v_after), Name { name: v, uid: 3 });
}

#[test]
fn do_bind_pattern_leaks_and_is_seen_by_its_own_expression() {
    let p: Symbol = 6;
    let do_block = te(Expr::Do(
        vec![DoBinding::DoBind(
            Located { location: loc(), node: Pattern::IdentifierPattern(p) },
            ident(p),
        )],
        Box::new(ident(p)),
    ));
    match rename_expr(do_block).expr {
        Expr::Do(stmts, last) => {
            match &stmts[0] {
                DoBinding::DoBind(pat, rhs) => {
                    let bound = match pat.node {
                        Pattern::IdentifierPattern(n) => n,
                        _ => panic!("expected an identifier pattern"),
                    };
                    assert_eq!(bound, Name { name: p, uid: 2 });
                    // The pattern is renamed before the right-hand side, so
                    // the right-hand side already sees the new binding.
                    assert_eq!(as_ident(copy_expr(rhs)), bound);
                }
                _ => panic!("expected a do-bind"),
            }
            assert_eq!(as_ident(*last), Name { name: p, uid: 2 });
        }
        _ => panic!("expected a do-block"),
    }
}

#[test]
fn lambda_scope_is_restored_after_its_body() {
    let x: Symbol = 9;
    // Apply(lambda x -> x, x): the second x stands outside the lambda and
    // must fall back to the global uid 0.
    let expr = app(lam(x, ident(x)), ident(x));
    let (f, a) = as_apply(rename_expr(expr));
    let (n, body) = as_lambda(f);
    assert_eq!(n.uid, 2);
    assert_eq!(as_ident(body), n);
    assert_eq!(as_ident(a), Name { name: x, uid: 0 });
}

#[test]
fn renaming_preserves_literals_annotations_and_locations() {
    let x: Symbol = 1;
    let typ = TypeAnn { id: 77 };
    let location = Location { column: 3, row: 4, absolute: 55 };
    let leaf = TypedExpr {
        expr: Expr::StringLit(String::from("hello")),
        typ,
        location,
    };
    let num = TypedExpr { expr: Expr::Number(-9), typ: TypeAnn { id: 8 }, location };
    let rat = TypedExpr { expr: Expr::Rational(1, 3), typ: TypeAnn { id: 9 }, location };
    let ch = TypedExpr { expr: Expr::CharLit('q'), typ: TypeAnn { id: 11 }, location };
    let expr = lam(x, app(app(leaf, num), app(rat, ch)));
    let (_, body) = as_lambda(rename_expr(expr));
    let (left, right) = as_apply(body);
    let (s, n) = as_apply(left);
    let (r, c) = as_apply(right);
    match s.expr {
        Expr::StringLit(ref t) => assert_eq!(t, "hello"),
        _ => panic!("expected a string literal"),
    }
    assert_eq!(s.typ, typ);
    assert_eq!(s.location, location);
    match n.expr {
        Expr::Number(v) => assert_eq!(v, -9),
        _ => panic!("expected a number"),
    }
    assert_eq!(n.typ, TypeAnn { id: 8 });
    match r.expr {
        Expr::Rational(a, b) => assert_eq!((a, b), (1, 3)),
        _ => panic!("expected a rational"),
    }
    match c.expr {
        Expr::CharLit(v) => assert_eq!(v, 'q'),
        _ => panic!("expected a character"),
    }
    assert_eq!(c.location, location);
}


#[test]
fn case_alternatives_allocate_before_the_scrutinee() {
    let z: Symbol = 1;
    let c: Symbol = 2;
    let x: Symbol = 3;
    // The alternatives are processed before the scrutinee, so the pattern
    // binding draws uid 2 and the lambda inside the scrutinee draws uid 3.
    let case = te(Expr::Case(
        Box::new(lam(z, ident(z))),
        vec![renamer::ast::Alternative {
            pattern: Located {
                location: loc(),
                node: Pattern::ConstructorPattern(c, vec![Pattern::IdentifierPattern(x)]),
            },
            expression: ident(x),
        }],
    ));
    match rename_expr(case).expr {
        Expr::Case(scrut, alts) => {
            match &alts[0].pattern.node {
                Pattern::ConstructorPattern(_, subs) => match &subs[0] {
                    Pattern::IdentifierPattern(n) => assert_eq!(*n, Name { name: x, uid: 2 }),
                    _ => panic!("expected an identifier pattern"),
                },
                _ => panic!("expected a constructor pattern"),
            }
            let (n, _) = as_lambda(*scrut);
            assert_eq!(n, Name { name: z, uid: 3 });
        }
        _ => panic!("expected a case"),
    }
}


#[test]
fn do_leak_can_shadow_a_sibling_let_binding() {
    let a: Symbol = 1;
    let c: Symbol = 2;
    // let a = do { let a = 1; a }, c = a in c: the do-block inside the
    // first binding re-inserts the symbol a into the let's own frame, so
    // the second binding's reference to a resolves to the leaked binding,
    // not to the registered sibling.
    let do_block = te(Expr::Do(
        vec![DoBinding::DoLet(vec![bind(a, te(Expr::Number(1)))])],
        Box::new(ident(a)),
    ));
    let expr = te(Expr::Let(
        vec![bind(a, do_block), bind(c, ident(a))],
        Box::new(ident(c)),
    ));
    let (bs, body) = as_let(rename_expr(expr));
    // The first binding's own name kept its registered uid.
    assert_eq!(bs[0].name, Name { name: a, uid: 2 });
    assert_eq!(bs[1].name, Name { name: c, uid: 3 });
    // The do-block's let drew uid 4 and leaked it over the sibling entry.
    match &bs[0].expression.expr {
        Expr::Do(stmts, last) => {
            match &stmts[0] {
                DoBinding::DoLet(inner) => {
                    assert_eq!(inner[0].name, Name { name: a, uid: 4 })
                }
                _ => panic!("expected a do-let"),
            }
            match &last.expr {
                Expr::Identifier(n) => assert_eq!(*n, Name { name: a, uid: 4 }),
                _ => panic!("expected an identifier"),
            }
        }
        _ => panic!("expected a do-block"),
    }
    assert_eq!(as_ident(copy_expr(&bs[1].expression)), Name { name: a, uid: 4 });
    assert_eq!(as_ident(body), Name { name: c, uid: 3 });
}

/// A shallow copy for test assertions: rebuilds only what the tests
/// destructure.
fn copy_expr(e: &TypedExpr<Name>) -> TypedExpr<Name> {
    let expr = match &e.expr {
        Expr::Identifier(n) => Expr::Identifier(*n),
        Expr::Number(v) => Expr::Number(*v),
        Expr::Apply(f, a) => Expr::Apply(Box::new(copy_expr(f)), Box::new(copy_expr(a))),
        Expr::Lambda(n, b) => Expr::Lambda(*n, Box::new(copy_expr(b))),
        _ => panic!("copy_expr: unsupported node"),
    };
    TypedExpr { expr, typ: e.typ, location: e.location }
}
