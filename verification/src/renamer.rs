//! The renaming pass: an executable renamer proved to compute exactly what
//! the functions of [`crate::semantics`] define.
//!
//! A [`Renamer`] owns one scoped symbol table and one unique-id counter for
//! the lifetime of a single pass. [`rename_expr`] and [`rename_module`] are
//! the two entry points; each starts a fresh pass.

use vstd::prelude::*;

use crate::ast::Alternative;
use crate::ast::AlternativeX;
use crate::ast::Binding;
use crate::ast::BindingX;
use crate::ast::Constructor;
use crate::ast::DataDefinition;
use crate::ast::DataDefinitionX;
use crate::ast::DoBinding;
use crate::ast::Expr;
use crate::ast::Instance;
use crate::ast::Located;
use crate::ast::Module;
use crate::ast::Name;
use crate::ast::Pattern;
use crate::ast::Symbol;
use crate::ast::TypedExpr;
use crate::ast::lemma_view_alternatives_index;
use crate::ast::lemma_view_bindings_index;
use crate::ast::lemma_view_do_bindings_index;
use crate::ast::lemma_view_instances_index;
use crate::ast::lemma_view_patterns_index;
use crate::ast::view_alternative;
use crate::ast::view_alternatives;
use crate::ast::view_binding;
use crate::ast::view_bindings;
use crate::ast::view_data_definition;
use crate::ast::view_data_definitions;
use crate::ast::view_do_binding;
use crate::ast::view_do_bindings;
use crate::ast::view_instance;
use crate::ast::view_instances;
use crate::ast::view_module;
use crate::ast::view_pattern;
use crate::ast::view_patterns;
use crate::ast::view_typed_expr;
use crate::scoped_map::ScopedMap;
use crate::scoped_map::stack_lookup;
use crate::semantics::RenState;
use crate::semantics::enter;
use crate::semantics::exit;
use crate::semantics::fresh;
use crate::semantics::init_state;
use crate::semantics::lemma_nb_alternatives_take;
use crate::semantics::lemma_nb_bindings_take;
use crate::semantics::lemma_nb_do_bindings_take;
use crate::semantics::lemma_nb_instances_take;
use crate::semantics::lemma_nb_module_bindings_take;
use crate::semantics::lemma_nb_patterns_take;
use crate::semantics::lemma_reg_bindings_props;
use crate::semantics::lemma_ren_alternatives_props;
use crate::semantics::lemma_ren_binding_group_props;
use crate::semantics::lemma_ren_bindings_props;
use crate::semantics::lemma_ren_do_binding_props;
use crate::semantics::lemma_ren_do_bindings_props;
use crate::semantics::lemma_ren_expr_props;
use crate::semantics::lemma_ren_instances_props;
use crate::semantics::lemma_ren_module_binding_props;
use crate::semantics::lemma_ren_module_bindings_props;
use crate::semantics::lemma_ren_pattern_props;
use crate::semantics::lemma_ren_patterns_props;
use crate::semantics::nb_alternatives;
use crate::semantics::nb_bindings;
use crate::semantics::nb_do_bindings;
use crate::semantics::nb_expr;
use crate::semantics::nb_instances;
use crate::semantics::nb_module;
use crate::semantics::nb_module_bindings;
use crate::semantics::nb_pattern;
use crate::semantics::nb_patterns;
use crate::semantics::ren_alternatives;
use crate::semantics::ren_binding_group;
use crate::semantics::ren_bindings;
use crate::semantics::ren_constructor;
use crate::semantics::ren_data_definition;
use crate::semantics::ren_do_binding;
use crate::semantics::ren_do_bindings;
use crate::semantics::ren_expr;
use crate::semantics::ren_instances;
use crate::semantics::ren_module;
use crate::semantics::ren_module_binding;
use crate::semantics::ren_module_bindings;
use crate::semantics::ren_pattern;
use crate::semantics::ren_patterns;
use crate::semantics::reg_bindings;
use crate::semantics::resolve;

verus! {

broadcast use {vstd::seq::group_seq_axioms, vstd::std_specs::vec::group_vec_axioms};

/// One renaming pass: the scoped symbol table, the unique-id allocator, and
/// (as ghost state) the log of uids issued so far.
pub struct Renamer {
    uniques: ScopedMap,
    unique_id: u64,
    issued: Ghost<Seq<nat>>,
}

impl Renamer {
    /// The pass state this renamer is in.
    pub closed spec fn st(&self) -> RenState {
        RenState {
            frames: self.uniques@,
            counter: self.unique_id as nat,
            issued: self.issued@,
        }
    }

    /// A renamer is well formed while its table holds at least the base
    /// frame.
    pub open spec fn wf(&self) -> bool {
        self.st().frames.len() >= 1
    }

    /// Start a fresh pass: empty base frame, counter at its initial value.
    pub fn new() -> (r: Renamer)
        ensures
            r.st() == init_state(),
            r.wf(),
    {
        let r = Renamer { uniques: ScopedMap::new(), unique_id: 1, issued: Ghost(Seq::empty()) };
        proof {
            assert(r.st().frames =~= init_state().frames);
        }
        r
    }

    /// Issue a fresh binding for `name`: increment the counter, build the
    /// `Name`, and insert it into the innermost scope frame.
    pub fn make_unique(&mut self, name: Symbol) -> (r: Name)
        requires
            old(self).wf(),
            old(self).st().counter + 1 <= u64::MAX,
        ensures
            r == fresh(old(self).st(), name).0,
            final(self).st() == fresh(old(self).st(), name).1,
            final(self).wf(),
    {
        self.unique_id = self.unique_id + 1;
        let u = Name { name, uid: self.unique_id };
        proof {
            self.issued@ = self.issued@.push(self.unique_id as nat);
        }
        self.uniques.insert(name, u);
        proof {
            assert(self.st().frames =~= fresh(old(self).st(), name).1.frames);
        }
        u
    }

    /// Resolve an identifier against the current scope: the stored `Name`
    /// of the innermost binding, or the `uid 0` global fallback.
    pub fn get_name(&self, name: Symbol) -> (r: Name)
        ensures
            r == resolve(self.st().frames, name),
    {
        match self.uniques.find(name) {
            Some(n) => Name { name, uid: n.uid },
            None => Name { name, uid: 0 },
        }
    }

    /// Rename one expression under the current scope and allocator state.
    pub fn rename(&mut self, input: TypedExpr<Symbol>) -> (r: TypedExpr<Name>)
        requires
            old(self).wf(),
            old(self).st().counter + nb_expr(view_typed_expr(input)) <= u64::MAX,
        ensures
            view_typed_expr(r) == ren_expr(view_typed_expr(input), old(self).st()).0,
            final(self).st() == ren_expr(view_typed_expr(input), old(self).st()).1,
            final(self).wf(),
        decreases input, 0int,
    {
        let ghost st0 = self.st();
        let ghost ve = view_typed_expr(input);
        let TypedExpr { expr, typ, location } = input;
        let x: Expr<Name> = match expr {
            Expr::Number(n) => Expr::Number(n),
            Expr::Rational(n, d) => Expr::Rational(n, d),
            Expr::StringLit(s) => Expr::StringLit(s),
            Expr::CharLit(c) => Expr::CharLit(c),
            Expr::Identifier(i) => Expr::Identifier(self.get_name(i)),
            Expr::Apply(func, arg) => {
                proof {
                    lemma_ren_expr_props(view_typed_expr(*func), st0);
                }
                let f2 = self.rename(*func);
                let a2 = self.rename(*arg);
                Expr::Apply(Box::new(f2), Box::new(a2))
            },
            Expr::Lambda(arg, body) => {
                self.uniques.enter_scope();
                proof {
                    assert(self.st() == enter(st0));
                }
                let n = self.make_unique(arg);
                let b2 = self.rename(*body);
                proof {
                    lemma_ren_expr_props(view_typed_expr(*body), fresh(enter(st0), arg).1);
                    assert(self.st().frames.len() >= 2);
                }
                self.uniques.exit_scope();
                proof {
                    assert(self.st() == exit(ren_expr(view_typed_expr(*body), fresh(
                        enter(st0),
                        arg,
                    ).1).1));
                }
                Expr::Lambda(n, Box::new(b2))
            },
            Expr::Let(bindings, body) => {
                proof {
                    lemma_view_bindings_index(bindings@);
                }
                self.uniques.enter_scope();
                proof {
                    assert(self.st() == enter(st0));
                    lemma_ren_binding_group_props(view_bindings(bindings@), enter(st0));
                }
                let bs2 = self.rename_bindings(bindings);
                let b2 = self.rename(*body);
                proof {
                    lemma_ren_expr_props(
                        view_typed_expr(*body),
                        ren_binding_group(view_bindings(bindings@), enter(st0)).1,
                    );
                    assert(self.st().frames.len() >= 2);
                }
                self.uniques.exit_scope();
                Expr::Let(bs2, Box::new(b2))
            },
            Expr::Case(scrut, alts) => {
                proof {
                    lemma_view_alternatives_index(alts@);
                    lemma_ren_alternatives_props(view_alternatives(alts@), st0);
                }
                let alts2 = self.rename_alternatives(alts);
                let s2 = self.rename(*scrut);
                Expr::Case(Box::new(s2), alts2)
            },
            Expr::Do(stmts, last) => {
                proof {
                    lemma_view_do_bindings_index(stmts@);
                    lemma_ren_do_bindings_props(view_do_bindings(stmts@), st0);
                }
                let ds2 = self.rename_do_bindings(stmts);
                let l2 = self.rename(*last);
                Expr::Do(ds2, Box::new(l2))
            },
        };
        let r = TypedExpr { expr: x, typ, location };
        r
    }

    /// Rename a let or do-block binding group: register every name of the
    /// group first (letrec visibility), then rename each binding in order.
    /// No scope is entered here; the callers that want one pair it around
    /// this call.
    #[verifier::loop_isolation(false)]
    pub fn rename_bindings(&mut self, bindings: Vec<Binding<Symbol>>) -> (r: Vec<Binding<Name>>)
        requires
            old(self).wf(),
            old(self).st().counter + view_bindings(bindings@).len() + nb_bindings(
                view_bindings(bindings@),
            ) <= u64::MAX,
        ensures
            view_bindings(r@) == ren_binding_group(view_bindings(bindings@), old(self).st()).0,
            final(self).st() == ren_binding_group(view_bindings(bindings@), old(self).st()).1,
            final(self).wf(),
        decreases bindings, 1int,
    {
        let ghost bindings0 = bindings;
        let ghost st0 = self.st();
        let ghost vb = view_bindings(bindings@);
        proof {
            lemma_view_bindings_index(bindings@);
        }
        let n = bindings.len();
        // Phase one: put every name of the group in scope.
        let mut i: usize = 0;
        while i < n
            invariant
                i <= n,
                self.st() == reg_bindings(vb.take(i as int), st0),
            decreases n - i,
        {
            proof {
                lemma_reg_bindings_props(vb.take(i as int), st0);
                assert(vb.take(i as int).len() == i);
            }
            let sym = bindings[i].name;
            self.make_unique(sym);
            proof {
                assert(vb[i as int].name == sym);
                assert(vb.take(i as int + 1).drop_last() =~= vb.take(i as int));
                assert(vb.take(i as int + 1).last() == vb[i as int]);
            }
            i = i + 1;
        }
        proof {
            assert(vb.take(n as int) =~= vb);
            lemma_reg_bindings_props(vb, st0);
        }
        let ghost st1 = self.st();
        // Phase two: rename each binding against the populated scope.
        let mut bindings = bindings;
        let mut out: Vec<Binding<Name>> = Vec::new();
        let ghost orig = bindings@;
        let mut j: usize = 0;
        while j < n
            invariant
                j <= n,
                bindings@ == orig.skip(j as int),
                out@.len() == j,
                view_bindings(out@) == ren_bindings(vb.take(j as int), st1).0,
                self.st() == ren_bindings(vb.take(j as int), st1).1,
                self.wf(),
            decreases n - j,
        {
            proof {
                lemma_ren_bindings_props(vb.take(j as int), st1);
                lemma_nb_bindings_take(vb, j as int);
                lemma_nb_bindings_take(vb, j as int + 1);
                assert(bindings@[0] == orig[j as int]);
            }
            let b = bindings.remove(0);
            let ghost vbj = vb[j as int];
            let ghost stj = self.st();
            proof {
                assert(bindings@ =~= orig.skip(j as int + 1));
                assert(vbj == view_binding(b));
            }
            let found = self.uniques.find(b.name);
            proof {
                assert(stj.frames.last().dom().contains(vbj.name));
                assert(stack_lookup(stj.frames, b.name) == Some(stj.frames.last()[b.name]));
                assert(found is Some);
                lemma_ren_expr_props(view_typed_expr(b.expression), stj);
                assert(decreases_to!(bindings0 => bindings0@));
                assert(decreases_to!(bindings0@ => bindings0@[j as int]));
                assert(decreases_to!(b => b.expression));
            }
            let nm = found.unwrap();
            let e2 = self.rename(b.expression);
            let ghost outp = out@;
            out.push(Binding { name: nm, expression: e2, type_decl: b.type_decl, arity: b.arity });
            proof {
                assert(vb.take(j as int + 1).drop_last() =~= vb.take(j as int));
                assert(vb.take(j as int + 1).last() == vbj);
                assert(out@.drop_last() =~= outp);
                assert(out@.last() == Binding {
                    name: nm,
                    expression: e2,
                    type_decl: b.type_decl,
                    arity: b.arity,
                });
                assert(view_binding(out@.last()) == BindingX {
                    name: nm,
                    expression: view_typed_expr(e2),
                    type_decl: b.type_decl,
                    arity: b.arity,
                });
                assert(view_bindings(out@) == view_bindings(outp).push(view_binding(out@.last())));
                assert(ren_bindings(vb.take(j as int + 1), st1).0 == ren_bindings(
                    vb.take(j as int),
                    st1,
                ).0.push(
                    BindingX {
                        name: nm,
                        expression: ren_expr(vbj.expression, stj).0,
                        type_decl: vbj.type_decl,
                        arity: vbj.arity,
                    },
                ));
                assert(view_bindings(out@) == ren_bindings(vb.take(j as int + 1), st1).0);
            }
            j = j + 1;
        }
        proof {
            assert(vb.take(n as int) =~= vb);
        }
        out
    }

    /// Rename the alternatives of a case expression, in order, each in a
    /// scope of its own: one alternative's pattern bindings are never
    /// visible to another.
    #[verifier::loop_isolation(false)]
    pub fn rename_alternatives(&mut self, alts: Vec<Alternative<Symbol>>) -> (r: Vec<
        Alternative<Name>,
    >)
        requires
            old(self).wf(),
            old(self).st().counter + nb_alternatives(view_alternatives(alts@)) <= u64::MAX,
        ensures
            view_alternatives(r@) == ren_alternatives(view_alternatives(alts@), old(self).st()).0,
            final(self).st() == ren_alternatives(view_alternatives(alts@), old(self).st()).1,
            final(self).wf(),
        decreases alts, 1int,
    {
        let ghost alts0 = alts;
        let ghost st0 = self.st();
        let ghost va = view_alternatives(alts@);
        proof {
            lemma_view_alternatives_index(alts@);
        }
        let n = alts.len();
        let mut alts = alts;
        let mut out: Vec<Alternative<Name>> = Vec::new();
        let ghost orig = alts@;
        let mut j: usize = 0;
        while j < n
            invariant
                j <= n,
                alts@ == orig.skip(j as int),
                out@.len() == j,
                view_alternatives(out@) == ren_alternatives(va.take(j as int), st0).0,
                self.st() == ren_alternatives(va.take(j as int), st0).1,
                self.wf(),
            decreases n - j,
        {
            proof {
                lemma_ren_alternatives_props(va.take(j as int), st0);
                lemma_nb_alternatives_take(va, j as int);
                lemma_nb_alternatives_take(va, j as int + 1);
                assert(alts@[0] == orig[j as int]);
            }
            let alt = alts.remove(0);
            let ghost vaj = va[j as int];
            let ghost stj = self.st();
            let Alternative { pattern: Located { location: ploc, node: pnode }, expression } = alt;
            proof {
                assert(alts@ =~= orig.skip(j as int + 1));
                assert(vaj == view_alternative(orig[j as int]));
                assert(vaj.pattern.node == view_pattern(pnode));
                assert(vaj.expression == view_typed_expr(expression));
            }
            self.uniques.enter_scope();
            proof {
                assert(self.st() == enter(stj));
                lemma_ren_pattern_props(view_pattern(pnode), enter(stj));
                assert(decreases_to!(alts0 => alts0@));
                assert(decreases_to!(alts0@ => alts0@[j as int]));
                assert(decreases_to!(orig[j as int] => pnode));
                assert(decreases_to!(orig[j as int] => expression));
            }
            let p2 = self.rename_pattern(pnode);
            proof {
                lemma_ren_expr_props(
                    view_typed_expr(expression),
                    ren_pattern(view_pattern(pnode), enter(stj)).1,
                );
            }
            let e2 = self.rename(expression);
            proof {
                assert(self.st().frames.len() >= 2);
            }
            self.uniques.exit_scope();
            let ghost outp = out@;
            out.push(
                Alternative { pattern: Located { location: ploc, node: p2 }, expression: e2 },
            );
            proof {
                assert(va.take(j as int + 1).drop_last() =~= va.take(j as int));
                assert(va.take(j as int + 1).last() == vaj);
                assert(out@.drop_last() =~= outp);
                assert(out@.last() == Alternative {
                    pattern: Located { location: ploc, node: p2 },
                    expression: e2,
                });
                assert(view_alternative(out@.last()) == AlternativeX {
                    pattern: Located { location: ploc, node: view_pattern(p2) },
                    expression: view_typed_expr(e2),
                });
                assert(view_alternatives(out@) == view_alternatives(outp).push(
                    view_alternative(out@.last()),
                ));
                assert(ren_alternatives(va.take(j as int + 1), st0).0 == ren_alternatives(
                    va.take(j as int),
                    st0,
                ).0.push(
                    AlternativeX {
                        pattern: Located {
                            location: vaj.pattern.location,
                            node: ren_pattern(vaj.pattern.node, enter(stj)).0,
                        },
                        expression: ren_expr(
                            vaj.expression,
                            ren_pattern(vaj.pattern.node, enter(stj)).1,
                        ).0,
                    },
                ));
                assert(view_alternatives(out@) == ren_alternatives(va.take(j as int + 1), st0).0);
            }
            j = j + 1;
        }
        proof {
            assert(va.take(n as int) =~= va);
        }
        out
    }

    /// Rename the statements of a do-block, in order, with no scope of the
    /// block's own: let-group and pattern bindings go into the current frame
    /// and stay there when the block ends.
    #[verifier::loop_isolation(false)]
    pub fn rename_do_bindings(&mut self, stmts: Vec<DoBinding<Symbol>>) -> (r: Vec<
        DoBinding<Name>,
    >)
        requires
            old(self).wf(),
            old(self).st().counter + nb_do_bindings(view_do_bindings(stmts@)) <= u64::MAX,
        ensures
            view_do_bindings(r@) == ren_do_bindings(view_do_bindings(stmts@), old(self).st()).0,
            final(self).st() == ren_do_bindings(view_do_bindings(stmts@), old(self).st()).1,
            final(self).wf(),
        decreases stmts, 2int,
    {
        let ghost stmts0 = stmts;
        let ghost st0 = self.st();
        let ghost vd = view_do_bindings(stmts@);
        proof {
            lemma_view_do_bindings_index(stmts@);
        }
        let n = stmts.len();
        let mut stmts = stmts;
        let mut out: Vec<DoBinding<Name>> = Vec::new();
        let ghost orig = stmts@;
        let mut j: usize = 0;
        while j < n
            invariant
                j <= n,
                stmts@ == orig.skip(j as int),
                out@.len() == j,
                view_do_bindings(out@) == ren_do_bindings(vd.take(j as int), st0).0,
                self.st() == ren_do_bindings(vd.take(j as int), st0).1,
                self.wf(),
            decreases n - j,
        {
            proof {
                lemma_ren_do_bindings_props(vd.take(j as int), st0);
                lemma_nb_do_bindings_take(vd, j as int);
                lemma_nb_do_bindings_take(vd, j as int + 1);
                assert(stmts@[0] == orig[j as int]);
            }
            let stmt = stmts.remove(0);
            let ghost vdj = vd[j as int];
            let ghost stj = self.st();
            proof {
                assert(stmts@ =~= orig.skip(j as int + 1));
                assert(vdj == view_do_binding(stmt));
                lemma_ren_do_binding_props(vdj, stj);
                assert(decreases_to!(stmts0 => stmts0@));
                assert(decreases_to!(stmts0@ => stmts0@[j as int]));
            }
            let d2: DoBinding<Name> = match stmt {
                DoBinding::DoExpr(e) => {
                    proof {
                        assert(decreases_to!(orig[j as int] => e));
                    }
                    DoBinding::DoExpr(self.rename(e))
                },
                DoBinding::DoLet(bs) => {
                    proof {
                        lemma_view_bindings_index(bs@);
                        assert(decreases_to!(orig[j as int] => bs));
                    }
                    DoBinding::DoLet(self.rename_bindings(bs))
                },
                DoBinding::DoBind(pat, e) => {
                    let Located { location: ploc, node: pnode } = pat;
                    proof {
                        lemma_ren_pattern_props(view_pattern(pnode), stj);
                        assert(decreases_to!(orig[j as int] => pnode));
                        assert(decreases_to!(orig[j as int] => e));
                    }
                    let p2 = self.rename_pattern(pnode);
                    proof {
                        lemma_ren_expr_props(
                            view_typed_expr(e),
                            ren_pattern(view_pattern(pnode), stj).1,
                        );
                    }
                    let e2 = self.rename(e);
                    DoBinding::DoBind(Located { location: ploc, node: p2 }, e2)
                },
            };
            let ghost outp = out@;
            out.push(d2);
            proof {
                assert(vd.take(j as int + 1).drop_last() =~= vd.take(j as int));
                assert(vd.take(j as int + 1).last() == vdj);
                assert(out@.drop_last() =~= outp);
                assert(view_do_binding(out@.last()) == ren_do_binding(vdj, stj).0);
                assert(view_do_bindings(out@) == view_do_bindings(outp).push(
                    view_do_binding(out@.last()),
                ));
                assert(ren_do_bindings(vd.take(j as int + 1), st0).0 == ren_do_bindings(
                    vd.take(j as int),
                    st0,
                ).0.push(ren_do_binding(vdj, stj).0));
                assert(view_do_bindings(out@) == ren_do_bindings(vd.take(j as int + 1), st0).0);
            }
            j = j + 1;
        }
        proof {
            assert(vd.take(n as int) =~= vd);
        }
        out
    }

    /// Rename a pattern in the current scope: identifier patterns allocate
    /// fresh bindings, constructor names become the `uid 0` global identity.
    pub fn rename_pattern(&mut self, pattern: Pattern<Symbol>) -> (r: Pattern<Name>)
        requires
            old(self).wf(),
            old(self).st().counter + nb_pattern(view_pattern(pattern)) <= u64::MAX,
        ensures
            view_pattern(r) == ren_pattern(view_pattern(pattern), old(self).st()).0,
            final(self).st() == ren_pattern(view_pattern(pattern), old(self).st()).1,
            final(self).wf(),
        decreases pattern, 0int,
    {
        match pattern {
            Pattern::NumberPattern(n) => Pattern::NumberPattern(n),
            Pattern::ConstructorPattern(c, ps) => {
                let ps2 = self.rename_patterns(ps);
                Pattern::ConstructorPattern(Name { name: c, uid: 0 }, ps2)
            },
            Pattern::IdentifierPattern(s) => Pattern::IdentifierPattern(self.make_unique(s)),
            Pattern::WildCardPattern => Pattern::WildCardPattern,
        }
    }

    /// Rename the sub-patterns of a constructor pattern, in order.
    #[verifier::loop_isolation(false)]
    pub fn rename_patterns(&mut self, patterns: Vec<Pattern<Symbol>>) -> (r: Vec<Pattern<Name>>)
        requires
            old(self).wf(),
            old(self).st().counter + nb_patterns(view_patterns(patterns@)) <= u64::MAX,
        ensures
            view_patterns(r@) == ren_patterns(view_patterns(patterns@), old(self).st()).0,
            final(self).st() == ren_patterns(view_patterns(patterns@), old(self).st()).1,
            final(self).wf(),
        decreases patterns, 1int,
    {
        let ghost patterns0 = patterns;
        let ghost st0 = self.st();
        let ghost vp = view_patterns(patterns@);
        proof {
            lemma_view_patterns_index(patterns@);
        }
        let n = patterns.len();
        let mut patterns = patterns;
        let mut out: Vec<Pattern<Name>> = Vec::new();
        let ghost orig = patterns@;
        let mut j: usize = 0;
        while j < n
            invariant
                j <= n,
                patterns@ == orig.skip(j as int),
                out@.len() == j,
                view_patterns(out@) == ren_patterns(vp.take(j as int), st0).0,
                self.st() == ren_patterns(vp.take(j as int), st0).1,
                self.wf(),
            decreases n - j,
        {
            proof {
                lemma_ren_patterns_props(vp.take(j as int), st0);
                lemma_nb_patterns_take(vp, j as int);
                lemma_nb_patterns_take(vp, j as int + 1);
                assert(patterns@[0] == orig[j as int]);
            }
            let p = patterns.remove(0);
            let ghost vpj = vp[j as int];
            let ghost stj = self.st();
            proof {
                assert(patterns@ =~= orig.skip(j as int + 1));
                assert(vpj == view_pattern(p));
                lemma_ren_pattern_props(vpj, stj);
                assert(decreases_to!(patterns0 => patterns0@));
                assert(decreases_to!(patterns0@ => patterns0@[j as int]));
            }
            let p2 = self.rename_pattern(p);
            let ghost outp = out@;
            out.push(p2);
            proof {
                assert(vp.take(j as int + 1).drop_last() =~= vp.take(j as int));
                assert(vp.take(j as int + 1).last() == vpj);
                assert(out@.drop_last() =~= outp);
            }
            j = j + 1;
        }
        proof {
            assert(vp.take(n as int) =~= vp);
        }
        out
    }

    /// Rename one module-level binding: its own name becomes the `uid 0`
    /// global identity directly, and its expression is renamed against the
    /// current (module-level) scope.
    pub fn rename_binding(&mut self, binding: Binding<Symbol>) -> (r: Binding<Name>)
        requires
            old(self).wf(),
            old(self).st().counter + nb_expr(view_typed_expr(binding.expression)) <= u64::MAX,
        ensures
            view_binding(r) == ren_module_binding(view_binding(binding), old(self).st()).0,
            final(self).st() == ren_module_binding(view_binding(binding), old(self).st()).1,
            final(self).wf(),
    {
        let ghost st0 = self.st();
        proof {
            lemma_ren_expr_props(view_typed_expr(binding.expression), st0);
        }
        let Binding { name, expression, type_decl, arity } = binding;
        let e2 = self.rename(expression);
        Binding { name: Name { name, uid: 0 }, expression: e2, type_decl, arity }
    }

    /// Rename the bindings of an instance or of the module top level, in
    /// order. Siblings are not pre-registered: they share the `uid 0`
    /// global identity instead of local uids.
    #[verifier::loop_isolation(false)]
    pub fn rename_module_bindings(&mut self, bindings: Vec<Binding<Symbol>>) -> (r: Vec<
        Binding<Name>,
    >)
        requires
            old(self).wf(),
            old(self).st().counter + nb_module_bindings(view_bindings(bindings@)) <= u64::MAX,
        ensures
            view_bindings(r@) == ren_module_bindings(view_bindings(bindings@), old(self).st()).0,
            final(self).st() == ren_module_bindings(view_bindings(bindings@), old(self).st()).1,
            final(self).wf(),
    {
        let ghost st0 = self.st();
        let ghost vb = view_bindings(bindings@);
        proof {
            lemma_view_bindings_index(bindings@);
        }
        let n = bindings.len();
        let mut bindings = bindings;
        let mut out: Vec<Binding<Name>> = Vec::new();
        let ghost orig = bindings@;
        let mut j: usize = 0;
        while j < n
            invariant
                j <= n,
                bindings@ == orig.skip(j as int),
                out@.len() == j,
                view_bindings(out@) == ren_module_bindings(vb.take(j as int), st0).0,
                self.st() == ren_module_bindings(vb.take(j as int), st0).1,
                self.wf(),
            decreases n - j,
        {
            proof {
                lemma_ren_module_bindings_props(vb.take(j as int), st0);
                lemma_nb_module_bindings_take(vb, j as int);
                lemma_nb_module_bindings_take(vb, j as int + 1);
                assert(bindings@[0] == orig[j as int]);
            }
            let b = bindings.remove(0);
            let ghost vbj = vb[j as int];
            let ghost stj = self.st();
            proof {
                assert(bindings@ =~= orig.skip(j as int + 1));
                assert(vbj == view_binding(b));
                lemma_ren_module_binding_props(vbj, stj);
            }
            let b2 = self.rename_binding(b);
            let ghost outp = out@;
            out.push(b2);
            proof {
                assert(vb.take(j as int + 1).drop_last() =~= vb.take(j as int));
                assert(vb.take(j as int + 1).last() == vbj);
                assert(out@.drop_last() =~= outp);
            }
            j = j + 1;
        }
        proof {
            assert(vb.take(n as int) =~= vb);
        }
        out
    }

    /// Rename a list of instances, in order.
    #[verifier::loop_isolation(false)]
    pub fn rename_instances(&mut self, instances: Vec<Instance<Symbol>>) -> (r: Vec<
        Instance<Name>,
    >)
        requires
            old(self).wf(),
            old(self).st().counter + nb_instances(view_instances(instances@)) <= u64::MAX,
        ensures
            view_instances(r@) == ren_instances(view_instances(instances@), old(self).st()).0,
            final(self).st() == ren_instances(view_instances(instances@), old(self).st()).1,
            final(self).wf(),
    {
        let ghost st0 = self.st();
        let ghost vi = view_instances(instances@);
        proof {
            lemma_view_instances_index(instances@);
        }
        let n = instances.len();
        let mut instances = instances;
        let mut out: Vec<Instance<Name>> = Vec::new();
        let ghost orig = instances@;
        let mut j: usize = 0;
        while j < n
            invariant
                j <= n,
                instances@ == orig.skip(j as int),
                out@.len() == j,
                view_instances(out@) == ren_instances(vi.take(j as int), st0).0,
                self.st() == ren_instances(vi.take(j as int), st0).1,
                self.wf(),
            decreases n - j,
        {
            proof {
                lemma_ren_instances_props(vi.take(j as int), st0);
                lemma_nb_instances_take(vi, j as int);
                lemma_nb_instances_take(vi, j as int + 1);
                assert(instances@[0] == orig[j as int]);
            }
            let inst = instances.remove(0);
            let ghost vij = vi[j as int];
            let ghost stj = self.st();
            let Instance { bindings, constraints, typ, classname } = inst;
            proof {
                assert(instances@ =~= orig.skip(j as int + 1));
                assert(vij == view_instance(orig[j as int]));
                assert(vij.bindings == view_bindings(bindings@));
                lemma_ren_module_bindings_props(vij.bindings, stj);
            }
            let bs2 = self.rename_module_bindings(bindings);
            let ghost outp = out@;
            out.push(Instance { bindings: bs2, constraints, typ, classname });
            proof {
                assert(vi.take(j as int + 1).drop_last() =~= vi.take(j as int));
                assert(vi.take(j as int + 1).last() == vij);
                assert(out@.drop_last() =~= outp);
            }
            j = j + 1;
        }
        proof {
            assert(vi.take(n as int) =~= vi);
        }
        out
    }
}

/// Rename a data definition's constructors to their `uid 0` global
/// identities; no scope or allocator is involved.
#[verifier::loop_isolation(false)]
pub fn rename_constructors(ctors: Vec<Constructor<Symbol>>) -> (r: Vec<Constructor<Name>>)
    ensures
        r@ == ctors@.map_values(|c: Constructor<Symbol>| ren_constructor(c)),
{
    let n = ctors.len();
    let mut out: Vec<Constructor<Name>> = Vec::new();
    let mut i: usize = 0;
    while i < n
        invariant
            i <= n,
            out@.len() == i,
            forall|k: int| 0 <= k < i ==> out@[k] == ren_constructor(ctors@[k]),
        decreases n - i,
    {
        let c = ctors[i];
        out.push(Constructor { name: Name { name: c.name, uid: 0 }, typ: c.typ, tag: c.tag, arity: c.arity });
        i = i + 1;
    }
    proof {
        assert(out@ =~= ctors@.map_values(|c: Constructor<Symbol>| ren_constructor(c)));
    }
    out
}

/// Rename the data definitions of a module, in order.
#[verifier::loop_isolation(false)]
pub fn rename_data_definitions(defs: Vec<DataDefinition<Symbol>>) -> (r: Vec<
    DataDefinition<Name>,
>)
    ensures
        view_data_definitions(r@) == view_data_definitions(defs@).map_values(
            |d: DataDefinitionX<Symbol>| ren_data_definition(d),
        ),
{
    let n = defs.len();
    let mut defs = defs;
    let mut out: Vec<DataDefinition<Name>> = Vec::new();
    let ghost orig = defs@;
    let mut j: usize = 0;
    while j < n
        invariant
            j <= n,
            defs@ == orig.skip(j as int),
            out@.len() == j,
            forall|k: int| 0 <= k < j ==> view_data_definition(out@[k]) == ren_data_definition(
                view_data_definition(orig[k]),
            ),
        decreases n - j,
    {
        proof {
            assert(defs@[0] == orig[j as int]);
        }
        let d = defs.remove(0);
        proof {
            assert(defs@ =~= orig.skip(j as int + 1));
        }
        let DataDefinition { constructors, typ, parameters } = d;
        let ctors2 = rename_constructors(constructors);
        out.push(DataDefinition { constructors: ctors2, typ, parameters });
        proof {
            assert(view_data_definition(out@.last()) == ren_data_definition(
                view_data_definition(orig[j as int]),
            ));
        }
        j = j + 1;
    }
    proof {
        assert(view_data_definitions(out@) =~= view_data_definitions(orig).map_values(
            |d: DataDefinitionX<Symbol>| ren_data_definition(d),
        ));
    }
    out
}

/// Rename a single expression with a fresh pass of its own.
pub fn rename_expr(expr: TypedExpr<Symbol>) -> (r: TypedExpr<Name>)
    requires
        init_state().counter + nb_expr(view_typed_expr(expr)) <= u64::MAX,
    ensures
        view_typed_expr(r) == ren_expr(view_typed_expr(expr), init_state()).0,
{
    let mut renamer = Renamer::new();
    renamer.rename(expr)
}

/// Rename a whole module with a fresh pass of its own: data definitions,
/// then instances, then top-level bindings, then the module's own name.
pub fn rename_module(module: Module<Symbol>) -> (r: Module<Name>)
    requires
        init_state().counter + nb_module(view_module(module)) <= u64::MAX,
    ensures
        view_module(r) == ren_module(view_module(module), init_state()).0,
{
    let mut renamer = Renamer::new();
    let ghost st0 = renamer.st();
    let ghost vm = view_module(module);
    let Module { name, classes, data_definitions, type_declarations, bindings, instances } =
        module;
    proof {
        lemma_ren_instances_props(view_instances(instances@), st0);
    }
    let data2 = rename_data_definitions(data_definitions);
    let insts2 = renamer.rename_instances(instances);
    proof {
        lemma_ren_module_bindings_props(
            view_bindings(bindings@),
            ren_instances(view_instances(instances@), st0).1,
        );
    }
    let binds2 = renamer.rename_module_bindings(bindings);
    let mname = renamer.make_unique(name);
    let r = Module {
        name: mname,
        classes,
        data_definitions: data2,
        type_declarations,
        bindings: binds2,
        instances: insts2,
    };
    proof {
        assert(view_module(r).data_definitions == ren_module(vm, st0).0.data_definitions);
    }
    r
}

} // verus!
