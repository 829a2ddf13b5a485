//! The guarantees of a renaming pass, stated and proved over the semantics
//! that the executable renamer is verified against.

use vstd::prelude::*;

use crate::ast::erase_module;
use crate::ast::erase_typed;
use crate::ast::Location;
use crate::ast::ModuleX;
use crate::ast::Name;
use crate::ast::PatternX;
use crate::ast::Symbol;
use crate::ast::TypeAnn;
use crate::ast::TypedExprX;
use crate::ast::ExprX;
use crate::scoped_map::stack_lookup;
use crate::semantics::init_state;
use crate::semantics::lemma_ren_expr_props;
use crate::semantics::lemma_ren_module_props;
use crate::semantics::nb_expr;
use crate::semantics::nb_module;
use crate::semantics::ren_expr;
use crate::semantics::ren_module;
use crate::semantics::ren_pattern;
use crate::semantics::ren_patterns;
use crate::semantics::resolve;
use crate::semantics::RenState;

verus! {

broadcast use vstd::seq::group_seq_axioms;

/// Uniqueness: within one expression pass, the uids issued are exactly the
/// consecutive values starting at 2, so all of them are pairwise distinct,
/// all are positive, and the first one issued is 2, not 1.
pub proof fn lemma_expr_pass_uids_distinct(e: TypedExprX<Symbol>)
    ensures
        ({
            let log = ren_expr(e, init_state()).1.issued;
            &&& log.len() == nb_expr(e)
            &&& (forall|i: int| 0 <= i < log.len() ==> #[trigger] log[i] == 2 + i)
            &&& (forall|i: int, j: int| 0 <= i < j < log.len() ==> log[i] != log[j])
            &&& (forall|i: int| 0 <= i < log.len() ==> #[trigger] log[i] >= 2)
            &&& (log.len() > 0 ==> log[0] == 2)
        }),
{
    lemma_ren_expr_props(e, init_state());
    let log = ren_expr(e, init_state()).1.issued;
    assert(log.len() == nb_expr(e));
    assert(forall|i: int| 0 <= i < log.len() ==> #[trigger] log[i] == 2 + i);
}

/// Uniqueness for a whole-module pass: the uids issued are exactly the
/// consecutive values starting at 2, hence pairwise distinct; the last one
/// issued belongs to the module's own name.
pub proof fn lemma_module_pass_uids_distinct(m: ModuleX<Symbol>)
    ensures
        ({
            let log = ren_module(m, init_state()).1.issued;
            &&& log.len() == nb_module(m)
            &&& (forall|i: int| 0 <= i < log.len() ==> #[trigger] log[i] == 2 + i)
            &&& (forall|i: int, j: int| 0 <= i < j < log.len() ==> log[i] != log[j])
            &&& (forall|i: int| 0 <= i < log.len() ==> #[trigger] log[i] >= 2)
            &&& (log.len() > 0 ==> log[0] == 2)
        }),
{
    lemma_ren_module_props(m, init_state());
    let log = ren_module(m, init_state()).1.issued;
    assert(log.len() == nb_module(m));
    assert(forall|i: int| 0 <= i < log.len() ==> #[trigger] log[i] == 2 + i);
}

/// Global fallback: an identifier with no enclosing binding renames to
/// `Name { symbol, uid: 0 }` and leaves the pass state untouched, so two
/// independent unresolved references to the same symbol produce equal
/// `Name` values.
pub proof fn lemma_global_fallback(
    sym: Symbol,
    typ: TypeAnn,
    location: Location,
    st1: RenState,
    st2: RenState,
)
    requires
        stack_lookup(st1.frames, sym) is None,
        stack_lookup(st2.frames, sym) is None,
    ensures
        resolve(st1.frames, sym) == (Name { name: sym, uid: 0 }),
        resolve(st1.frames, sym) == resolve(st2.frames, sym),
        ren_expr(TypedExprX { expr: ExprX::Identifier(sym), typ, location }, st1) == ((
            TypedExprX { expr: ExprX::Identifier(Name { name: sym, uid: 0 }), typ, location },
            st1,
        )),
{
}

/// Constructor identity: a constructor pattern's own name renames to
/// `uid 0` under every pass state, even when a local binding shares its
/// symbol; only its sub-patterns touch the scope and the allocator.
pub proof fn lemma_constructor_identity(c: Symbol, ps: Seq<PatternX<Symbol>>, st: RenState)
    ensures
        ren_pattern(PatternX::ConstructorPattern(c, ps), st).0
            == PatternX::ConstructorPattern(Name { name: c, uid: 0 }, ren_patterns(ps, st).0),
        ren_pattern(PatternX::ConstructorPattern(c, ps), st).1 == ren_patterns(ps, st).1,
{
}

/// Round-trip structure: renaming preserves the tree shape exactly — the
/// same node kinds, child counts, literals, type annotations and source
/// locations — differing only in identifier payload.
pub proof fn lemma_rename_preserves_structure(e: TypedExprX<Symbol>, st: RenState)
    requires
        st.frames.len() >= 1,
    ensures
        erase_typed(ren_expr(e, st).0) == erase_typed(e),
{
    lemma_ren_expr_props(e, st);
}

/// Round-trip structure for a whole module: renaming keeps every data
/// definition, instance and binding in shape and order.
pub proof fn lemma_rename_module_preserves_structure(m: ModuleX<Symbol>, st: RenState)
    requires
        st.frames.len() >= 1,
    ensures
        erase_module(ren_module(m, st).0) == erase_module(m),
{
    lemma_ren_module_props(m, st);
}

} // verus!
