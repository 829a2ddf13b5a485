//! What one renaming pass computes, as functions over the mirror trees.
//!
//! A pass owns a [`RenState`]: the stack of scope frames, the allocator
//! counter, and the ordered log of uids it has issued so far. The `ren_*`
//! functions below define, node by node, both the renamed tree and the state
//! a pass leaves behind; the executable renamer is proved to return exactly
//! these values. The `nb_*` functions count the fresh bindings a tree
//! introduces, which is how far the counter moves.

use vstd::prelude::*;

use crate::ast::erase_alternative;
use crate::ast::erase_alternatives;
use crate::ast::erase_binding;
use crate::ast::erase_bindings;
use crate::ast::erase_data_definition;
use crate::ast::erase_do_binding;
use crate::ast::erase_do_bindings;
use crate::ast::erase_instances;
use crate::ast::erase_module;
use crate::ast::erase_pattern;
use crate::ast::erase_patterns;
use crate::ast::erase_typed;
use crate::ast::AlternativeX;
use crate::ast::BindingX;
use crate::ast::Constructor;
use crate::ast::DataDefinitionX;
use crate::ast::DoBindingX;
use crate::ast::ExprX;
use crate::ast::InstanceX;
use crate::ast::Located;
use crate::ast::ModuleX;
use crate::ast::Name;
use crate::ast::PatternX;
use crate::ast::Symbol;
use crate::ast::TypedExprX;
use crate::scoped_map::stack_lookup;

verus! {

broadcast use vstd::seq::group_seq_axioms;

/// The state one renaming pass owns: the scope frames (outermost first,
/// never empty), the allocator counter, and the uids issued so far in order.
pub struct RenState {
    pub frames: Seq<Map<Symbol, Name>>,
    pub counter: nat,
    pub issued: Seq<nat>,
}

/// The state a fresh pass starts from: one empty base frame, the counter at
/// its initial value 1, and nothing issued. The initial counter value is
/// never itself issued: the first binding of a pass receives uid 2.
pub open spec fn init_state() -> RenState {
    RenState { frames: seq![Map::empty()], counter: 1, issued: Seq::empty() }
}

/// Push an empty scope frame.
pub open spec fn enter(st: RenState) -> RenState {
    RenState { frames: st.frames.push(Map::empty()), counter: st.counter, issued: st.issued }
}

/// Pop the innermost scope frame, discarding its entries.
pub open spec fn exit(st: RenState) -> RenState {
    RenState { frames: st.frames.drop_last(), counter: st.counter, issued: st.issued }
}

/// Issue a fresh binding: increment the counter, build the `Name`, record
/// the issue, and insert the entry into the innermost frame.
pub open spec fn fresh(st: RenState, sym: Symbol) -> (Name, RenState) {
    let uid = st.counter + 1;
    let n = Name { name: sym, uid: uid as u64 };
    (
        n,
        RenState {
            frames: st.frames.update(st.frames.len() - 1, st.frames.last().insert(sym, n)),
            counter: uid,
            issued: st.issued.push(uid),
        },
    )
}

/// Resolve an identifier: the innermost binding's `Name` when one is in
/// scope, else the global fallback `Name { sym, uid: 0 }`.
pub open spec fn resolve(frames: Seq<Map<Symbol, Name>>, sym: Symbol) -> Name {
    match stack_lookup(frames, sym) {
        Some(n) => Name { name: sym, uid: n.uid },
        None => Name { name: sym, uid: 0 },
    }
}

// ---------------------------------------------------------------------------
// How many fresh bindings a tree introduces.
// ---------------------------------------------------------------------------

/// Fresh bindings introduced by renaming an expression.
pub open spec fn nb_expr(e: TypedExprX<Symbol>) -> nat
    decreases e, 0int,
{
    match e.expr {
        ExprX::Number(_) => 0,
        ExprX::Rational(_, _) => 0,
        ExprX::StringLit(_) => 0,
        ExprX::CharLit(_) => 0,
        ExprX::Identifier(_) => 0,
        ExprX::Apply(f, a) => nb_expr(*f) + nb_expr(*a),
        ExprX::Lambda(_, b) => 1 + nb_expr(*b),
        ExprX::Let(bs, b) => bs.len() + nb_bindings(bs) + nb_expr(*b),
        ExprX::Case(s, alts) => nb_alternatives(alts) + nb_expr(*s),
        ExprX::Do(ds, b) => nb_do_bindings(ds) + nb_expr(*b),
    }
}

/// Fresh bindings introduced by the expressions of a binding list (the
/// group's names themselves are counted by the callers).
pub open spec fn nb_bindings(s: Seq<BindingX<Symbol>>) -> nat
    decreases s, 0int,
{
    if s.len() == 0 {
        0
    } else {
        nb_bindings(s.drop_last()) + nb_expr(s.last().expression)
    }
}

/// Fresh bindings introduced by a list of case alternatives.
pub open spec fn nb_alternatives(s: Seq<AlternativeX<Symbol>>) -> nat
    decreases s, 0int,
{
    if s.len() == 0 {
        0
    } else {
        nb_alternatives(s.drop_last()) + nb_pattern(s.last().pattern.node) + nb_expr(
            s.last().expression,
        )
    }
}

/// Fresh bindings introduced by a list of do-block statements.
pub open spec fn nb_do_bindings(s: Seq<DoBindingX<Symbol>>) -> nat
    decreases s, 0int,
{
    if s.len() == 0 {
        0
    } else {
        nb_do_bindings(s.drop_last()) + nb_do_binding(s.last())
    }
}

/// Fresh bindings introduced by one do-block statement.
pub open spec fn nb_do_binding(d: DoBindingX<Symbol>) -> nat
    decreases d, 1int,
{
    match d {
        DoBindingX::DoExpr(e) => nb_expr(e),
        DoBindingX::DoLet(bs) => bs.len() + nb_bindings(bs),
        DoBindingX::DoBind(p, e) => nb_pattern(p.node) + nb_expr(e),
    }
}

/// Fresh bindings introduced by renaming a pattern.
pub open spec fn nb_pattern(p: PatternX<Symbol>) -> nat
    decreases p, 0int,
{
    match p {
        PatternX::NumberPattern(_) => 0,
        PatternX::ConstructorPattern(_, ps) => nb_patterns(ps),
        PatternX::IdentifierPattern(_) => 1,
        PatternX::WildCardPattern => 0,
    }
}

/// Fresh bindings introduced by a pattern list.
pub open spec fn nb_patterns(s: Seq<PatternX<Symbol>>) -> nat
    decreases s, 0int,
{
    if s.len() == 0 {
        0
    } else {
        nb_patterns(s.drop_last()) + nb_pattern(s.last())
    }
}

/// Fresh bindings introduced by the expressions of module-level bindings
/// (their own names are not freshly allocated).
pub open spec fn nb_module_bindings(s: Seq<BindingX<Symbol>>) -> nat
    decreases s, 0int,
{
    if s.len() == 0 {
        0
    } else {
        nb_module_bindings(s.drop_last()) + nb_expr(s.last().expression)
    }
}

/// Fresh bindings introduced by a list of instances.
pub open spec fn nb_instances(s: Seq<InstanceX<Symbol>>) -> nat
    decreases s, 0int,
{
    if s.len() == 0 {
        0
    } else {
        nb_instances(s.drop_last()) + nb_module_bindings(s.last().bindings)
    }
}

/// Fresh bindings introduced by renaming a whole module: its instances and
/// top-level bindings, plus one for the module's own name.
pub open spec fn nb_module(m: ModuleX<Symbol>) -> nat {
    nb_instances(m.instances) + nb_module_bindings(m.bindings) + 1
}

// ---------------------------------------------------------------------------
// The renaming pass itself.
// ---------------------------------------------------------------------------

/// Rename an expression under a state, yielding the renamed expression and
/// the state the pass goes on with.
pub open spec fn ren_expr(e: TypedExprX<Symbol>, st: RenState) -> (TypedExprX<Name>, RenState)
    decreases e, 0int,
{
    let (x, st2): (ExprX<Name>, RenState) = match e.expr {
        ExprX::Number(n) => (ExprX::Number(n), st),
        ExprX::Rational(n, d) => (ExprX::Rational(n, d), st),
        ExprX::StringLit(s) => (ExprX::StringLit(s), st),
        ExprX::CharLit(c) => (ExprX::CharLit(c), st),
        ExprX::Identifier(i) => (ExprX::Identifier(resolve(st.frames, i)), st),
        ExprX::Apply(f, a) => {
            let (f2, st1) = ren_expr(*f, st);
            let (a2, st2) = ren_expr(*a, st1);
            (ExprX::Apply(Box::new(f2), Box::new(a2)), st2)
        },
        ExprX::Lambda(p, b) => {
            let (n, st1) = fresh(enter(st), p);
            let (b2, st2) = ren_expr(*b, st1);
            (ExprX::Lambda(n, Box::new(b2)), exit(st2))
        },
        ExprX::Let(bs, b) => {
            let (bs2, st1) = ren_binding_group(bs, enter(st));
            let (b2, st2) = ren_expr(*b, st1);
            (ExprX::Let(bs2, Box::new(b2)), exit(st2))
        },
        ExprX::Case(s, alts) => {
            let (alts2, st1) = ren_alternatives(alts, st);
            let (s2, st2) = ren_expr(*s, st1);
            (ExprX::Case(Box::new(s2), alts2), st2)
        },
        ExprX::Do(ds, b) => {
            let (ds2, st1) = ren_do_bindings(ds, st);
            let (b2, st2) = ren_expr(*b, st1);
            (ExprX::Do(ds2, Box::new(b2)), st2)
        },
    };
    (TypedExprX { expr: x, typ: e.typ, location: e.location }, st2)
}

/// Register every name of a binding group in the innermost frame, in order,
/// before any of the group's expressions is renamed (letrec visibility).
pub open spec fn reg_bindings(s: Seq<BindingX<Symbol>>, st: RenState) -> RenState
    decreases s.len(),
{
    if s.len() == 0 {
        st
    } else {
        fresh(reg_bindings(s.drop_last(), st), s.last().name).1
    }
}

/// Rename the bindings of a group, in order: each binding's name is looked
/// up in the current scope (it was registered by `reg_bindings`, though a
/// do-block leak may since have overwritten it), then its expression is
/// renamed. A name that is not in scope here would signal a broken
/// registration protocol; it is proved unreachable.
pub open spec fn ren_bindings(s: Seq<BindingX<Symbol>>, st: RenState) -> (
    Seq<BindingX<Name>>,
    RenState,
)
    decreases s, 0int,
{
    if s.len() == 0 {
        (Seq::empty(), st)
    } else {
        let (pre, st1) = ren_bindings(s.drop_last(), st);
        let b = s.last();
        let n = match stack_lookup(st1.frames, b.name) {
            Some(n) => n,
            None => Name { name: b.name, uid: 0 },
        };
        let (e2, st2) = ren_expr(b.expression, st1);
        (
            pre.push(
                BindingX { name: n, expression: e2, type_decl: b.type_decl, arity: b.arity },
            ),
            st2,
        )
    }
}

/// The two-phase protocol of a binding group: register all names, then
/// rename each binding.
pub open spec fn ren_binding_group(s: Seq<BindingX<Symbol>>, st: RenState) -> (
    Seq<BindingX<Name>>,
    RenState,
)
    decreases s, 1int,
{
    ren_bindings(s, reg_bindings(s, st))
}

/// Rename case alternatives, in order, each in a scope of its own.
pub open spec fn ren_alternatives(s: Seq<AlternativeX<Symbol>>, st: RenState) -> (
    Seq<AlternativeX<Name>>,
    RenState,
)
    decreases s, 0int,
{
    if s.len() == 0 {
        (Seq::empty(), st)
    } else {
        let (pre, st1) = ren_alternatives(s.drop_last(), st);
        let a = s.last();
        let (p2, st2) = ren_pattern(a.pattern.node, enter(st1));
        let (e2, st3) = ren_expr(a.expression, st2);
        (
            pre.push(
                AlternativeX {
                    pattern: Located { location: a.pattern.location, node: p2 },
                    expression: e2,
                },
            ),
            exit(st3),
        )
    }
}

/// Rename do-block statements, in order, with no scope of the block's own:
/// bindings introduced by a let group or a pattern bind stay in the current
/// frame after the block ends.
pub open spec fn ren_do_bindings(s: Seq<DoBindingX<Symbol>>, st: RenState) -> (
    Seq<DoBindingX<Name>>,
    RenState,
)
    decreases s, 1int,
{
    if s.len() == 0 {
        (Seq::empty(), st)
    } else {
        let (pre, st1) = ren_do_bindings(s.drop_last(), st);
        let (d2, st2) = ren_do_binding(s.last(), st1);
        (pre.push(d2), st2)
    }
}

/// Rename one do-block statement.
pub open spec fn ren_do_binding(d: DoBindingX<Symbol>, st: RenState) -> (
    DoBindingX<Name>,
    RenState,
)
    decreases d, 2int,
{
    match d {
        DoBindingX::DoExpr(e) => {
            let (e2, st1) = ren_expr(e, st);
            (DoBindingX::DoExpr(e2), st1)
        },
        DoBindingX::DoLet(bs) => {
            let (bs2, st1) = ren_binding_group(bs, st);
            (DoBindingX::DoLet(bs2), st1)
        },
        DoBindingX::DoBind(p, e) => {
            let (p2, st1) = ren_pattern(p.node, st);
            let (e2, st2) = ren_expr(e, st1);
            (DoBindingX::DoBind(Located { location: p.location, node: p2 }, e2), st2)
        },
    }
}

/// Rename a pattern in the current scope. An identifier pattern allocates a
/// fresh binding; a constructor's own name is wrapped as `uid 0` without any
/// lookup or allocation: constructors live in a global namespace of their
/// own.
pub open spec fn ren_pattern(p: PatternX<Symbol>, st: RenState) -> (PatternX<Name>, RenState)
    decreases p, 0int,
{
    match p {
        PatternX::NumberPattern(n) => (PatternX::NumberPattern(n), st),
        PatternX::ConstructorPattern(c, ps) => {
            let (ps2, st1) = ren_patterns(ps, st);
            (PatternX::ConstructorPattern(Name { name: c, uid: 0 }, ps2), st1)
        },
        PatternX::IdentifierPattern(s) => {
            let (n, st1) = fresh(st, s);
            (PatternX::IdentifierPattern(n), st1)
        },
        PatternX::WildCardPattern => (PatternX::WildCardPattern, st),
    }
}

/// Rename a pattern list, in order.
pub open spec fn ren_patterns(s: Seq<PatternX<Symbol>>, st: RenState) -> (
    Seq<PatternX<Name>>,
    RenState,
)
    decreases s, 0int,
{
    if s.len() == 0 {
        (Seq::empty(), st)
    } else {
        let (pre, st1) = ren_patterns(s.drop_last(), st);
        let (p2, st2) = ren_pattern(s.last(), st1);
        (pre.push(p2), st2)
    }
}

// ---------------------------------------------------------------------------
// Module-level renaming.
// ---------------------------------------------------------------------------

/// A constructor's name becomes the `uid 0` global identity; the metadata
/// passes through.
pub open spec fn ren_constructor(c: Constructor<Symbol>) -> Constructor<Name> {
    Constructor { name: Name { name: c.name, uid: 0 }, typ: c.typ, tag: c.tag, arity: c.arity }
}

/// Rename the constructors of one data definition; no scope is entered.
pub open spec fn ren_data_definition(d: DataDefinitionX<Symbol>) -> DataDefinitionX<Name> {
    DataDefinitionX {
        constructors: d.constructors.map_values(|c: Constructor<Symbol>| ren_constructor(c)),
        typ: d.typ,
        parameters: d.parameters,
    }
}

/// Rename one module-level binding: its own name becomes the `uid 0` global
/// identity directly (no registration, no allocation), and its expression is
/// renamed against whatever scope is current.
pub open spec fn ren_module_binding(b: BindingX<Symbol>, st: RenState) -> (
    BindingX<Name>,
    RenState,
)
    decreases b, 1int,
{
    let (e2, st1) = ren_expr(b.expression, st);
    (
        BindingX {
            name: Name { name: b.name, uid: 0 },
            expression: e2,
            type_decl: b.type_decl,
            arity: b.arity,
        },
        st1,
    )
}

/// Rename module-level bindings, in order. Unlike a let group, siblings are
/// not pre-registered: they share the `uid 0` global identity instead.
pub open spec fn ren_module_bindings(s: Seq<BindingX<Symbol>>, st: RenState) -> (
    Seq<BindingX<Name>>,
    RenState,
)
    decreases s, 2int,
{
    if s.len() == 0 {
        (Seq::empty(), st)
    } else {
        let (pre, st1) = ren_module_bindings(s.drop_last(), st);
        let (b2, st2) = ren_module_binding(s.last(), st1);
        (pre.push(b2), st2)
    }
}

/// Rename instances, in order: each instance's bindings are module-level
/// bindings; constraints, type and class name pass through.
pub open spec fn ren_instances(s: Seq<InstanceX<Symbol>>, st: RenState) -> (
    Seq<InstanceX<Name>>,
    RenState,
)
    decreases s, 3int,
{
    if s.len() == 0 {
        (Seq::empty(), st)
    } else {
        let (pre, st1) = ren_instances(s.drop_last(), st);
        let i = s.last();
        let (bs2, st2) = ren_module_bindings(i.bindings, st1);
        (
            pre.push(
                InstanceX {
                    bindings: bs2,
                    constraints: i.constraints,
                    typ: i.typ,
                    classname: i.classname,
                },
            ),
            st2,
        )
    }
}

/// Rename a whole module: data definitions (stateless), then instances,
/// then top-level bindings, and at last the module's own name, which is the
/// one module-level fresh allocation.
pub open spec fn ren_module(m: ModuleX<Symbol>, st: RenState) -> (ModuleX<Name>, RenState) {
    let data2 = m.data_definitions.map_values(
        |d: DataDefinitionX<Symbol>| ren_data_definition(d),
    );
    let (insts2, st1) = ren_instances(m.instances, st);
    let (binds2, st2) = ren_module_bindings(m.bindings, st1);
    let (mname, st3) = fresh(st2, m.name);
    (
        ModuleX {
            name: mname,
            classes: m.classes,
            data_definitions: data2,
            type_declarations: m.type_declarations,
            bindings: binds2,
            instances: insts2,
        },
        st3,
    )
}


// ---------------------------------------------------------------------------
// How a pass's state evolves: the counter advances by exactly the number of
// bindings introduced, the issued log gains exactly the consecutive uids,
// only the innermost frame can gain entries, and the tree shape is kept.
// ---------------------------------------------------------------------------

/// The uids issued by `n` consecutive fresh allocations starting from
/// counter value `c`: the values `c + 1`, `c + 2`, ..., `c + n`.
pub open spec fn issued_range(c: nat, n: nat) -> Seq<nat> {
    Seq::new(n, |i: int| (c + 1 + i) as nat)
}

/// How any renaming step relates the state it leaves to the state it got:
/// the counter advances by the `n` bindings introduced, the issued log is
/// extended by exactly the uids `c + 1 ..= c + n`, no frame is added or
/// dropped, outer frames are untouched, and the innermost frame only gains
/// entries.
pub open spec fn evolves(st: RenState, st2: RenState, n: nat) -> bool {
    &&& st2.counter == st.counter + n
    &&& st2.issued == st.issued + issued_range(st.counter, n)
    &&& st2.frames.len() == st.frames.len()
    &&& (forall|k: int| 0 <= k < st.frames.len() - 1 ==> st2.frames[k] == st.frames[k])
    &&& st.frames.last().dom().subset_of(st2.frames.last().dom())
}

/// A step that introduces nothing leaves the state as it was.
pub proof fn lemma_evolves_refl(st: RenState)
    ensures
        evolves(st, st, 0),
{
    assert(st.issued + issued_range(st.counter, 0) =~= st.issued);
}

/// Consecutive steps compose: the counters add and the issued logs chain.
pub proof fn lemma_evolves_trans(st0: RenState, st1: RenState, st2: RenState, n1: nat, n2: nat)
    requires
        evolves(st0, st1, n1),
        evolves(st1, st2, n2),
    ensures
        evolves(st0, st2, (n1 + n2) as nat),
{
    assert(st0.issued + issued_range(st0.counter, n1) + issued_range(
        st0.counter + n1,
        n2,
    ) =~= st0.issued + issued_range(st0.counter, (n1 + n2) as nat));
    assert(st0.frames.last().dom().subset_of(st2.frames.last().dom()));
}

/// One fresh allocation is one step: it issues `counter + 1` and writes one
/// entry into the innermost frame.
pub proof fn lemma_evolves_fresh(st: RenState, sym: Symbol)
    requires
        st.frames.len() >= 1,
    ensures
        evolves(st, fresh(st, sym).1, 1),
        fresh(st, sym).1.frames.last().dom().contains(sym),
{
    let st2 = fresh(st, sym).1;
    assert(st.issued.push(st.counter + 1) =~= st.issued + issued_range(st.counter, 1));
    assert(st2.frames.last() == st.frames.last().insert(sym, fresh(st, sym).0));
}

/// A balanced scope: whatever happens between `enter` and `exit` leaves the
/// whole frame stack exactly as it was.
pub proof fn lemma_evolves_scoped(st: RenState, st2: RenState, n: nat)
    requires
        st.frames.len() >= 1,
        evolves(enter(st), st2, n),
    ensures
        evolves(st, exit(st2), n),
        exit(st2).frames == st.frames,
{
    assert(exit(st2).frames =~= st.frames);
    lemma_evolves_refl(st);
}

/// Registering a binding group advances the counter once per binding and
/// puts every name of the group into the innermost frame.
pub proof fn lemma_reg_bindings_props(s: Seq<BindingX<Symbol>>, st: RenState)
    requires
        st.frames.len() >= 1,
    ensures
        evolves(st, reg_bindings(s, st), s.len()),
        forall|k: int| 0 <= k < s.len()
            ==> reg_bindings(s, st).frames.last().dom().contains(#[trigger] s[k].name),
    decreases s.len(),
{
    if s.len() == 0 {
        lemma_evolves_refl(st);
    } else {
        lemma_reg_bindings_props(s.drop_last(), st);
        let st1 = reg_bindings(s.drop_last(), st);
        lemma_evolves_fresh(st1, s.last().name);
        lemma_evolves_trans(st, st1, reg_bindings(s, st), (s.len() - 1) as nat, 1);
        assert(forall|k: int| 0 <= k < s.len() - 1 ==> s.drop_last()[k] == s[k]);
    }
}

/// Renaming an expression is a well-behaved step that keeps the tree shape.
pub proof fn lemma_ren_expr_props(e: TypedExprX<Symbol>, st: RenState)
    requires
        st.frames.len() >= 1,
    ensures
        ({
            let (out, st2) = ren_expr(e, st);
            evolves(st, st2, nb_expr(e)) && erase_typed(out) == erase_typed(e)
        }),
    decreases e, 0int,
{
    let (out, stf) = ren_expr(e, st);
    match e.expr {
        ExprX::Number(_) => lemma_evolves_refl(st),
        ExprX::Rational(_, _) => lemma_evolves_refl(st),
        ExprX::StringLit(_) => lemma_evolves_refl(st),
        ExprX::CharLit(_) => lemma_evolves_refl(st),
        ExprX::Identifier(_) => lemma_evolves_refl(st),
        ExprX::Apply(f, a) => {
            let (f2, st1) = ren_expr(*f, st);
            lemma_ren_expr_props(*f, st);
            lemma_ren_expr_props(*a, st1);
            let (a2, st2) = ren_expr(*a, st1);
            lemma_evolves_trans(st, st1, st2, nb_expr(*f), nb_expr(*a));
        },
        ExprX::Lambda(p, b) => {
            lemma_evolves_fresh(enter(st), p);
            let (n, st1) = fresh(enter(st), p);
            lemma_ren_expr_props(*b, st1);
            let (b2, st2) = ren_expr(*b, st1);
            lemma_evolves_trans(enter(st), st1, st2, 1, nb_expr(*b));
            lemma_evolves_scoped(st, st2, (1 + nb_expr(*b)) as nat);
        },
        ExprX::Let(bs, b) => {
            lemma_ren_binding_group_props(bs, enter(st));
            let (bs2, st1) = ren_binding_group(bs, enter(st));
            lemma_ren_expr_props(*b, st1);
            let (b2, st2) = ren_expr(*b, st1);
            lemma_evolves_trans(
                enter(st),
                st1,
                st2,
                (bs.len() + nb_bindings(bs)) as nat,
                nb_expr(*b),
            );
            lemma_evolves_scoped(st, st2, (bs.len() + nb_bindings(bs) + nb_expr(*b)) as nat);
        },
        ExprX::Case(s, alts) => {
            lemma_ren_alternatives_props(alts, st);
            let (alts2, st1) = ren_alternatives(alts, st);
            lemma_ren_expr_props(*s, st1);
            let (s2, st2) = ren_expr(*s, st1);
            lemma_evolves_trans(st, st1, st2, nb_alternatives(alts), nb_expr(*s));
        },
        ExprX::Do(ds, b) => {
            lemma_ren_do_bindings_props(ds, st);
            let (ds2, st1) = ren_do_bindings(ds, st);
            lemma_ren_expr_props(*b, st1);
            let (b2, st2) = ren_expr(*b, st1);
            lemma_evolves_trans(st, st1, st2, nb_do_bindings(ds), nb_expr(*b));
        },
    }
}

/// Renaming the bindings of a registered group is a well-behaved step that
/// keeps each binding's shape.
pub proof fn lemma_ren_bindings_props(s: Seq<BindingX<Symbol>>, st: RenState)
    requires
        st.frames.len() >= 1,
    ensures
        ({
            let (out, st2) = ren_bindings(s, st);
            evolves(st, st2, nb_bindings(s)) && erase_bindings(out) == erase_bindings(s)
        }),
    decreases s, 0int,
{
    if s.len() == 0 {
        lemma_evolves_refl(st);
        assert(erase_bindings(ren_bindings(s, st).0) =~= erase_bindings(s));
    } else {
        lemma_ren_bindings_props(s.drop_last(), st);
        let (pre, st1) = ren_bindings(s.drop_last(), st);
        lemma_ren_expr_props(s.last().expression, st1);
        let (e2, st2) = ren_expr(s.last().expression, st1);
        lemma_evolves_trans(
            st,
            st1,
            st2,
            nb_bindings(s.drop_last()),
            nb_expr(s.last().expression),
        );
        let (out, stf) = ren_bindings(s, st);
        assert(out.drop_last() =~= pre);
        assert(out.last().expression == e2);
        assert(erase_binding(out.last()) == erase_binding(s.last()));
        assert(erase_bindings(out) == erase_bindings(s));
    }
}

/// The whole two-phase binding group is a well-behaved step.
pub proof fn lemma_ren_binding_group_props(s: Seq<BindingX<Symbol>>, st: RenState)
    requires
        st.frames.len() >= 1,
    ensures
        ({
            let (out, st2) = ren_binding_group(s, st);
            evolves(st, st2, (s.len() + nb_bindings(s)) as nat) && erase_bindings(out)
                == erase_bindings(s)
        }),
    decreases s, 1int,
{
    lemma_reg_bindings_props(s, st);
    lemma_ren_bindings_props(s, reg_bindings(s, st));
    lemma_evolves_trans(st, reg_bindings(s, st), ren_binding_group(s, st).1, s.len(), nb_bindings(s));
}

/// Renaming case alternatives is a well-behaved step that keeps each
/// alternative's shape.
pub proof fn lemma_ren_alternatives_props(s: Seq<AlternativeX<Symbol>>, st: RenState)
    requires
        st.frames.len() >= 1,
    ensures
        ({
            let (out, st2) = ren_alternatives(s, st);
            evolves(st, st2, nb_alternatives(s)) && erase_alternatives(out)
                == erase_alternatives(s)
        }),
    decreases s, 0int,
{
    if s.len() == 0 {
        lemma_evolves_refl(st);
        assert(erase_alternatives(ren_alternatives(s, st).0) =~= erase_alternatives(s));
    } else {
        lemma_ren_alternatives_props(s.drop_last(), st);
        let (pre, st1) = ren_alternatives(s.drop_last(), st);
        let a = s.last();
        lemma_ren_pattern_props(a.pattern.node, enter(st1));
        let (p2, st2) = ren_pattern(a.pattern.node, enter(st1));
        lemma_ren_expr_props(a.expression, st2);
        let (e2, st3) = ren_expr(a.expression, st2);
        lemma_evolves_trans(enter(st1), st2, st3, nb_pattern(a.pattern.node), nb_expr(a.expression));
        lemma_evolves_scoped(st1, st3, (nb_pattern(a.pattern.node) + nb_expr(a.expression)) as nat);
        lemma_evolves_trans(
            st,
            st1,
            exit(st3),
            nb_alternatives(s.drop_last()),
            (nb_pattern(a.pattern.node) + nb_expr(a.expression)) as nat,
        );
        let (out, stf) = ren_alternatives(s, st);
        assert(out.drop_last() =~= pre);
        assert(out.last().expression == e2 && out.last().pattern.node == p2);
        assert(erase_alternative(out.last()) == erase_alternative(s.last()));
        assert(erase_alternatives(out) == erase_alternatives(s));
    }
}

/// Renaming do-block statements is a well-behaved step that keeps each
/// statement's shape.
pub proof fn lemma_ren_do_bindings_props(s: Seq<DoBindingX<Symbol>>, st: RenState)
    requires
        st.frames.len() >= 1,
    ensures
        ({
            let (out, st2) = ren_do_bindings(s, st);
            evolves(st, st2, nb_do_bindings(s)) && erase_do_bindings(out) == erase_do_bindings(s)
        }),
    decreases s, 1int,
{
    if s.len() == 0 {
        lemma_evolves_refl(st);
        assert(erase_do_bindings(ren_do_bindings(s, st).0) =~= erase_do_bindings(s));
    } else {
        lemma_ren_do_bindings_props(s.drop_last(), st);
        let (pre, st1) = ren_do_bindings(s.drop_last(), st);
        lemma_ren_do_binding_props(s.last(), st1);
        let (d2, st2) = ren_do_binding(s.last(), st1);
        lemma_evolves_trans(st, st1, st2, nb_do_bindings(s.drop_last()), nb_do_binding(s.last()));
        let (out, stf) = ren_do_bindings(s, st);
        assert(out.drop_last() =~= pre);
        assert(erase_do_bindings(out) == erase_do_bindings(s));
    }
}

/// Renaming one do-block statement is a well-behaved step that keeps its
/// shape.
pub proof fn lemma_ren_do_binding_props(d: DoBindingX<Symbol>, st: RenState)
    requires
        st.frames.len() >= 1,
    ensures
        ({
            let (out, st2) = ren_do_binding(d, st);
            evolves(st, st2, nb_do_binding(d)) && erase_do_binding(out) == erase_do_binding(d)
        }),
    decreases d, 2int,
{
    match d {
        DoBindingX::DoExpr(e) => {
            lemma_ren_expr_props(e, st);
        },
        DoBindingX::DoLet(bs) => {
            lemma_ren_binding_group_props(bs, st);
        },
        DoBindingX::DoBind(p, e) => {
            lemma_ren_pattern_props(p.node, st);
            let (p2, st1) = ren_pattern(p.node, st);
            lemma_ren_expr_props(e, st1);
            let (e2, st2) = ren_expr(e, st1);
            lemma_evolves_trans(st, st1, st2, nb_pattern(p.node), nb_expr(e));
        },
    }
}

/// Renaming a pattern is a well-behaved step that keeps its shape.
pub proof fn lemma_ren_pattern_props(p: PatternX<Symbol>, st: RenState)
    requires
        st.frames.len() >= 1,
    ensures
        ({
            let (out, st2) = ren_pattern(p, st);
            evolves(st, st2, nb_pattern(p)) && erase_pattern(out) == erase_pattern(p)
        }),
    decreases p, 1int,
{
    match p {
        PatternX::NumberPattern(_) => lemma_evolves_refl(st),
        PatternX::ConstructorPattern(_, ps) => {
            lemma_ren_patterns_props(ps, st);
        },
        PatternX::IdentifierPattern(sym) => {
            lemma_evolves_fresh(st, sym);
        },
        PatternX::WildCardPattern => lemma_evolves_refl(st),
    }
}

/// Renaming a pattern list is a well-behaved step that keeps each shape.
pub proof fn lemma_ren_patterns_props(s: Seq<PatternX<Symbol>>, st: RenState)
    requires
        st.frames.len() >= 1,
    ensures
        ({
            let (out, st2) = ren_patterns(s, st);
            evolves(st, st2, nb_patterns(s)) && erase_patterns(out) == erase_patterns(s)
        }),
    decreases s, 0int,
{
    if s.len() == 0 {
        lemma_evolves_refl(st);
        assert(erase_patterns(ren_patterns(s, st).0) =~= erase_patterns(s));
    } else {
        lemma_ren_patterns_props(s.drop_last(), st);
        let (pre, st1) = ren_patterns(s.drop_last(), st);
        lemma_ren_pattern_props(s.last(), st1);
        let (p2, st2) = ren_pattern(s.last(), st1);
        lemma_evolves_trans(st, st1, st2, nb_patterns(s.drop_last()), nb_pattern(s.last()));
        let (out, stf) = ren_patterns(s, st);
        assert(out.drop_last() =~= pre);
        assert(erase_patterns(out) == erase_patterns(s));
    }
}

/// Renaming one module-level binding is a well-behaved step that keeps its
/// shape.
pub proof fn lemma_ren_module_binding_props(b: BindingX<Symbol>, st: RenState)
    requires
        st.frames.len() >= 1,
    ensures
        ({
            let (out, st2) = ren_module_binding(b, st);
            evolves(st, st2, nb_expr(b.expression)) && erase_binding(out) == erase_binding(b)
        }),
    decreases b, 1int,
{
    lemma_ren_expr_props(b.expression, st);
}

/// Renaming module-level bindings is a well-behaved step that keeps each
/// binding's shape.
pub proof fn lemma_ren_module_bindings_props(s: Seq<BindingX<Symbol>>, st: RenState)
    requires
        st.frames.len() >= 1,
    ensures
        ({
            let (out, st2) = ren_module_bindings(s, st);
            evolves(st, st2, nb_module_bindings(s)) && erase_bindings(out) == erase_bindings(s)
        }),
    decreases s, 2int,
{
    if s.len() == 0 {
        lemma_evolves_refl(st);
        assert(erase_bindings(ren_module_bindings(s, st).0) =~= erase_bindings(s));
    } else {
        lemma_ren_module_bindings_props(s.drop_last(), st);
        let (pre, st1) = ren_module_bindings(s.drop_last(), st);
        lemma_ren_module_binding_props(s.last(), st1);
        let (b2, st2) = ren_module_binding(s.last(), st1);
        lemma_evolves_trans(
            st,
            st1,
            st2,
            nb_module_bindings(s.drop_last()),
            nb_expr(s.last().expression),
        );
        let (out, stf) = ren_module_bindings(s, st);
        assert(out.drop_last() =~= pre);
        assert(erase_bindings(out) == erase_bindings(s));
    }
}

/// Renaming instances is a well-behaved step that keeps each instance's
/// shape.
pub proof fn lemma_ren_instances_props(s: Seq<InstanceX<Symbol>>, st: RenState)
    requires
        st.frames.len() >= 1,
    ensures
        ({
            let (out, st2) = ren_instances(s, st);
            evolves(st, st2, nb_instances(s)) && erase_instances(out) == erase_instances(s)
        }),
    decreases s, 3int,
{
    if s.len() == 0 {
        lemma_evolves_refl(st);
        assert(erase_instances(ren_instances(s, st).0) =~= erase_instances(s));
    } else {
        lemma_ren_instances_props(s.drop_last(), st);
        let (pre, st1) = ren_instances(s.drop_last(), st);
        lemma_ren_module_bindings_props(s.last().bindings, st1);
        let (bs2, st2) = ren_module_bindings(s.last().bindings, st1);
        lemma_evolves_trans(
            st,
            st1,
            st2,
            nb_instances(s.drop_last()),
            nb_module_bindings(s.last().bindings),
        );
        let (out, stf) = ren_instances(s, st);
        assert(out.drop_last() =~= pre);
        assert(erase_instances(out) == erase_instances(s));
    }
}

/// Renaming a whole module is a well-behaved step that keeps the module's
/// shape.
pub proof fn lemma_ren_module_props(m: ModuleX<Symbol>, st: RenState)
    requires
        st.frames.len() >= 1,
    ensures
        ({
            let (out, st2) = ren_module(m, st);
            evolves(st, st2, nb_module(m)) && erase_module(out) == erase_module(m)
        }),
{
    lemma_ren_instances_props(m.instances, st);
    let (insts2, st1) = ren_instances(m.instances, st);
    lemma_ren_module_bindings_props(m.bindings, st1);
    let (binds2, st2) = ren_module_bindings(m.bindings, st1);
    lemma_evolves_fresh(st2, m.name);
    lemma_evolves_trans(st, st1, st2, nb_instances(m.instances), nb_module_bindings(m.bindings));
    lemma_evolves_trans(
        st,
        st2,
        fresh(st2, m.name).1,
        (nb_instances(m.instances) + nb_module_bindings(m.bindings)) as nat,
        1,
    );
    let (out, stf) = ren_module(m, st);
    assert(erase_module(out).data_definitions =~= erase_module(m).data_definitions) by {
        assert forall|k: int| 0 <= k < m.data_definitions.len() implies erase_module(
            out,
        ).data_definitions[k] == erase_module(m).data_definitions[k] by {
            let d = m.data_definitions[k];
            assert(erase_data_definition(ren_data_definition(d)).constructors
                =~= erase_data_definition(d).constructors);
        }
    }
}


// ---------------------------------------------------------------------------
// Binder counts over prefixes, for reasoning about lists processed in order.
// ---------------------------------------------------------------------------

/// A prefix of a binding list introduces no more bindings than the whole,
/// and one more element adds exactly its expression's count.
pub proof fn lemma_nb_bindings_take(s: Seq<BindingX<Symbol>>, j: int)
    requires
        0 <= j <= s.len(),
    ensures
        nb_bindings(s.take(j)) <= nb_bindings(s),
        j < s.len() ==> nb_bindings(s.take(j + 1)) == nb_bindings(s.take(j)) + nb_expr(
            s[j].expression,
        ),
    decreases s.len() - j,
{
    if j < s.len() {
        assert(s.take(j + 1).drop_last() =~= s.take(j));
        assert(s.take(j + 1).last() == s[j]);
        lemma_nb_bindings_take(s, j + 1);
    } else {
        assert(s.take(j) =~= s);
    }
}

/// As `lemma_nb_bindings_take`, for case alternatives.
pub proof fn lemma_nb_alternatives_take(s: Seq<AlternativeX<Symbol>>, j: int)
    requires
        0 <= j <= s.len(),
    ensures
        nb_alternatives(s.take(j)) <= nb_alternatives(s),
        j < s.len() ==> nb_alternatives(s.take(j + 1)) == nb_alternatives(s.take(j)) + nb_pattern(
            s[j].pattern.node,
        ) + nb_expr(s[j].expression),
    decreases s.len() - j,
{
    if j < s.len() {
        assert(s.take(j + 1).drop_last() =~= s.take(j));
        assert(s.take(j + 1).last() == s[j]);
        lemma_nb_alternatives_take(s, j + 1);
    } else {
        assert(s.take(j) =~= s);
    }
}

/// As `lemma_nb_bindings_take`, for do-block statements.
pub proof fn lemma_nb_do_bindings_take(s: Seq<DoBindingX<Symbol>>, j: int)
    requires
        0 <= j <= s.len(),
    ensures
        nb_do_bindings(s.take(j)) <= nb_do_bindings(s),
        j < s.len() ==> nb_do_bindings(s.take(j + 1)) == nb_do_bindings(s.take(j))
            + nb_do_binding(s[j]),
    decreases s.len() - j,
{
    if j < s.len() {
        assert(s.take(j + 1).drop_last() =~= s.take(j));
        assert(s.take(j + 1).last() == s[j]);
        lemma_nb_do_bindings_take(s, j + 1);
    } else {
        assert(s.take(j) =~= s);
    }
}

/// As `lemma_nb_bindings_take`, for pattern lists.
pub proof fn lemma_nb_patterns_take(s: Seq<PatternX<Symbol>>, j: int)
    requires
        0 <= j <= s.len(),
    ensures
        nb_patterns(s.take(j)) <= nb_patterns(s),
        j < s.len() ==> nb_patterns(s.take(j + 1)) == nb_patterns(s.take(j)) + nb_pattern(s[j]),
    decreases s.len() - j,
{
    if j < s.len() {
        assert(s.take(j + 1).drop_last() =~= s.take(j));
        assert(s.take(j + 1).last() == s[j]);
        lemma_nb_patterns_take(s, j + 1);
    } else {
        assert(s.take(j) =~= s);
    }
}

/// As `lemma_nb_bindings_take`, for module-level binding lists.
pub proof fn lemma_nb_module_bindings_take(s: Seq<BindingX<Symbol>>, j: int)
    requires
        0 <= j <= s.len(),
    ensures
        nb_module_bindings(s.take(j)) <= nb_module_bindings(s),
        j < s.len() ==> nb_module_bindings(s.take(j + 1)) == nb_module_bindings(s.take(j))
            + nb_expr(s[j].expression),
    decreases s.len() - j,
{
    if j < s.len() {
        assert(s.take(j + 1).drop_last() =~= s.take(j));
        assert(s.take(j + 1).last() == s[j]);
        lemma_nb_module_bindings_take(s, j + 1);
    } else {
        assert(s.take(j) =~= s);
    }
}

/// As `lemma_nb_bindings_take`, for instance lists.
pub proof fn lemma_nb_instances_take(s: Seq<InstanceX<Symbol>>, j: int)
    requires
        0 <= j <= s.len(),
    ensures
        nb_instances(s.take(j)) <= nb_instances(s),
        j < s.len() ==> nb_instances(s.take(j + 1)) == nb_instances(s.take(j))
            + nb_module_bindings(s[j].bindings),
    decreases s.len() - j,
{
    if j < s.len() {
        assert(s.take(j + 1).drop_last() =~= s.take(j));
        assert(s.take(j + 1).last() == s[j]);
        lemma_nb_instances_take(s, j + 1);
    } else {
        assert(s.take(j) =~= s);
    }
}

} // verus!
