//! Renaming whole modules: constructor identities, the uid-0 treatment of
//! instance and top-level bindings, the module's own fresh name, and the
//! scoped symbol table underneath it all.

use renamer::ast::Binding;
use renamer::ast::ClassDecl;
use renamer::ast::Constraint;
use renamer::ast::Constructor;
use renamer::ast::DataDefinition;
use renamer::ast::Expr;
use renamer::ast::Instance;
use renamer::ast::Location;
use renamer::ast::Module;
use renamer::ast::Name;
use renamer::ast::Symbol;
use renamer::ast::TypeAnn;
use renamer::ast::TypeDecl;
use renamer::ast::TypedExpr;
use renamer::renamer::rename_module;
use renamer::scoped_map::ScopedMap;

fn loc() -> Location {
    Location { column: 0, row: 0, absolute: 0 }
}

fn te(expr: Expr<Symbol>) -> TypedExpr<Symbol> {
    TypedExpr { expr, typ: TypeAnn { id: 0 }, location: loc() }
}

fn ident(s: Symbol) -> TypedExpr<Symbol> {
    te(Expr::Identifier(s))
}

fn lam(p: Symbol, b: TypedExpr<Symbol>) -> TypedExpr<Symbol> {
    te(Expr::Lambda(p, Box::new(b)))
}

fn bind(name: Symbol, e: TypedExpr<Symbol>) -> Binding<Symbol> {
    Binding { name, expression: e, type_decl: None, arity: 0 }
}

fn empty_module(name: Symbol) -> Module<Symbol> {
    Module {
        name,
        classes: Vec::new(),
        data_definitions: Vec::new(),
        type_declarations: Vec::new(),
        bindings: Vec::new(),
        instances: Vec::new(),
    }
}

#[test]
fn empty_module_name_gets_first_uid() {
    let m: Symbol = 50;
    let out = rename_module(empty_module(m));
    assert_eq!(out.name, Name { name: m, uid: 2 });
    assert!(out.bindings.is_empty());
    assert!(out.instances.is_empty());
    assert!(out.data_definitions.is_empty());
}

#[test]
fn constructor_names_become_global_identities() {
    let c1: Symbol = 20;
    let c2: Symbol = 21;
    let mut module = empty_module(1);
    module.data_definitions.push(DataDefinition {
        constructors: vec![
            Constructor { name: c1, typ: TypeAnn { id: 4 }, tag: 0, arity: 2 },
            Constructor { name: c2, typ: TypeAnn { id: 5 }, tag: 1, arity: 0 },
        ],
        typ: TypeAnn { id: 6 },
        parameters: vec![9],
    });
    let out = rename_module(module);
    let d = &out.data_definitions[0];
    assert_eq!(d.constructors[0].name, Name { name: c1, uid: 0 });
    assert_eq!(d.constructors[1].name, Name { name: c2, uid: 0 });
    // The metadata passes through unchanged.
    assert_eq!(d.constructors[0].typ, TypeAnn { id: 4 });
    assert_eq!(d.constructors[0].tag, 0);
    assert_eq!(d.constructors[0].arity, 2);
    assert_eq!(d.typ, TypeAnn { id: 6 });
    assert_eq!(d.parameters, vec![9]);
}

#[test]
fn top_level_bindings_share_uid_zero_and_module_name_comes_last() {
    let main_sym: Symbol = 30;
    let x: Symbol = 31;
    let mut module = empty_module(1);
    module.bindings.push(bind(main_sym, lam(x, ident(x))));
    let out = rename_module(module);
    // The top-level binding's own name is the uid-0 global identity.
    assert_eq!(out.bindings[0].name, Name { name: main_sym, uid: 0 });
    // Its lambda introduced the first local uid, 2.
    match &out.bindings[0].expression.expr {
        Expr::Lambda(n, body) => {
            assert_eq!(*n, Name { name: x, uid: 2 });
            match &body.expr {
                Expr::Identifier(m) => assert_eq!(*m, *n),
                _ => panic!("expected an identifier"),
            }
        }
        _ => panic!("expected a lambda"),
    }
    // The module's own name is allocated after everything else: uid 3.
    assert_eq!(out.name, Name { name: 1, uid: 3 });
}

#[test]
fn instance_bindings_are_not_preregistered() {
    let foo: Symbol = 40;
    let cls: Symbol = 41;
    let mut module = empty_module(1);
    module.instances.push(Instance {
        // The binding's expression refers to the binding's own name; with
        // no pre-registration it resolves as a uid-0 global, unlike in a
        // let group.
        bindings: vec![bind(foo, ident(foo))],
        constraints: vec![Constraint { id: 3 }],
        typ: TypeAnn { id: 2 },
        classname: cls,
    });
    let out = rename_module(module);
    let inst = &out.instances[0];
    assert_eq!(inst.bindings[0].name, Name { name: foo, uid: 0 });
    match &inst.bindings[0].expression.expr {
        Expr::Identifier(n) => assert_eq!(*n, Name { name: foo, uid: 0 }),
        _ => panic!("expected an identifier"),
    }
    assert_eq!(inst.classname, cls);
    assert_eq!(inst.constraints, vec![Constraint { id: 3 }]);
    assert_eq!(inst.typ, TypeAnn { id: 2 });
    // Only the module name drew a uid.
    assert_eq!(out.name.uid, 2);
}

#[test]
fn module_payload_passes_through() {
    let mut module = empty_module(2);
    module.classes.push(ClassDecl { id: 11 });
    module.type_declarations.push(TypeDecl { id: 12 });
    let out = rename_module(module);
    assert_eq!(out.classes, vec![ClassDecl { id: 11 }]);
    assert_eq!(out.type_declarations, vec![TypeDecl { id: 12 }]);
}

#[test]
fn module_uids_count_instances_then_bindings_then_name() {
    let x: Symbol = 3;
    let y: Symbol = 4;
    let mut module = empty_module(1);
    // Instances are renamed before top-level bindings, so their lambdas
    // draw the earlier uids.
    module.instances.push(Instance {
        bindings: vec![bind(10, lam(x, ident(x)))],
        constraints: Vec::new(),
        typ: TypeAnn { id: 0 },
        classname: 9,
    });
    module.bindings.push(bind(11, lam(y, ident(y))));
    let out = rename_module(module);
    match &out.instances[0].bindings[0].expression.expr {
        Expr::Lambda(n, _) => assert_eq!(n.uid, 2),
        _ => panic!("expected a lambda"),
    }
    match &out.bindings[0].expression.expr {
        Expr::Lambda(n, _) => assert_eq!(n.uid, 3),
        _ => panic!("expected a lambda"),
    }
    assert_eq!(out.name.uid, 4);
}

#[test]
fn scoped_map_shadows_and_restores() {
    let s: Symbol = 1;
    let mut table = ScopedMap::new();
    assert_eq!(table.find(s), None);
    table.insert(s, Name { name: s, uid: 5 });
    assert_eq!(table.find(s), Some(Name { name: s, uid: 5 }));
    table.enter_scope();
    assert_eq!(table.find(s), Some(Name { name: s, uid: 5 }));
    table.insert(s, Name { name: s, uid: 7 });
    assert_eq!(table.find(s), Some(Name { name: s, uid: 7 }));
    table.exit_scope();
    assert_eq!(table.find(s), Some(Name { name: s, uid: 5 }));
}

#[test]
fn scoped_map_most_recent_insert_wins_within_a_frame() {
    let s: Symbol = 2;
    let t: Symbol = 3;
    let mut table = ScopedMap::new();
    table.insert(s, Name { name: s, uid: 2 });
    table.insert(t, Name { name: t, uid: 3 });
    table.insert(s, Name { name: s, uid: 4 });
    assert_eq!(table.find(s), Some(Name { name: s, uid: 4 }));
    assert_eq!(table.find(t), Some(Name { name: t, uid: 3 }));
}
