//! The abstract syntax tree that the renamer rewrites, together with its
//! mathematical model.
//!
//! Every tree shape is generic over the identifier type `I`: the parser hands
//! the renamer a tree over [`Symbol`] and the renamer returns the same tree
//! over [`Name`]. Type annotations, source locations, class declarations and
//! the other payload carried by the nodes are opaque to renaming and are
//! passed through unchanged.
//!
//! For each executable shape there is a mirror type (suffix `X`) whose lists
//! are `Seq` and whose text is `Seq<char>`; the `view_*` functions map a tree
//! to its mirror, and all contracts are stated over the mirrors.

use vstd::prelude::*;

verus! {

broadcast use {vstd::seq::group_seq_axioms, vstd::std_specs::vec::group_vec_axioms};

/// A handle that the string interner hands out for one piece of source text.
/// Two identifiers stand for the same source symbol exactly when their
/// handles are equal; the renamer never needs the text itself.
pub type Symbol = u64;

/// An identifier after renaming: the original symbol together with a tag.
///
/// `uid == 0` is reserved and means "not a locally scoped binding": the
/// reference is global or free and is identified purely by its symbol.
/// All positive uids are issued by the allocator of one renaming pass and
/// are unique within that pass only.
#[derive(Clone, Copy, PartialEq, Eq, Structural, Hash, Debug)]
pub struct Name {
    pub name: Symbol,
    pub uid: u64,
}

/// A position in the source text, carried through renaming unchanged.
#[derive(Clone, Copy, PartialEq, Eq, Structural, Hash, Debug)]
pub struct Location {
    pub column: u64,
    pub row: u64,
    pub absolute: u64,
}

/// A node together with the source position it came from.
#[derive(Clone, PartialEq, Eq, Debug)]
pub struct Located<T> {
    pub location: Location,
    pub node: T,
}

/// An opaque handle for a type annotation; renaming never reads it.
#[derive(Clone, Copy, PartialEq, Eq, Structural, Hash, Debug)]
pub struct TypeAnn {
    pub id: u64,
}

/// An opaque handle for a type declaration; renaming never reads it.
#[derive(Clone, Copy, PartialEq, Eq, Structural, Hash, Debug)]
pub struct TypeDecl {
    pub id: u64,
}

/// An opaque handle for a class declaration; renaming never reads it.
#[derive(Clone, Copy, PartialEq, Eq, Structural, Hash, Debug)]
pub struct ClassDecl {
    pub id: u64,
}

/// An opaque handle for an instance constraint; renaming never reads it.
#[derive(Clone, Copy, PartialEq, Eq, Structural, Hash, Debug)]
pub struct Constraint {
    pub id: u64,
}

/// An expression together with its type annotation and source position.
pub struct TypedExpr<I> {
    pub expr: Expr<I>,
    pub typ: TypeAnn,
    pub location: Location,
}

/// An expression node. Literal leaves are untouched by renaming; the other
/// variants are where scope decisions are made.
pub enum Expr<I> {
    Number(i64),
    Rational(i64, i64),
    StringLit(String),
    CharLit(char),
    Identifier(I),
    Apply(Box<TypedExpr<I>>, Box<TypedExpr<I>>),
    Lambda(I, Box<TypedExpr<I>>),
    Let(Vec<Binding<I>>, Box<TypedExpr<I>>),
    Case(Box<TypedExpr<I>>, Vec<Alternative<I>>),
    Do(Vec<DoBinding<I>>, Box<TypedExpr<I>>),
}

/// One alternative of a case expression: a pattern and its right-hand side.
pub struct Alternative<I> {
    pub pattern: Located<Pattern<I>>,
    pub expression: TypedExpr<I>,
}

/// A pattern. Identifier patterns introduce fresh bindings; constructor
/// names live in a separate global namespace and always rename to `uid 0`.
pub enum Pattern<I> {
    NumberPattern(i64),
    ConstructorPattern(I, Vec<Pattern<I>>),
    IdentifierPattern(I),
    WildCardPattern,
}

/// One statement of a do-block.
pub enum DoBinding<I> {
    DoExpr(TypedExpr<I>),
    DoLet(Vec<Binding<I>>),
    DoBind(Located<Pattern<I>>, TypedExpr<I>),
}

/// One binding of a let expression, a do-block let group, an instance, or
/// the top level of a module. The type declaration and arity are opaque.
pub struct Binding<I> {
    pub name: I,
    pub expression: TypedExpr<I>,
    pub type_decl: Option<TypeDecl>,
    pub arity: u64,
}

/// A data constructor; its type, tag and arity are opaque payload.
#[derive(Clone, Copy, PartialEq, Eq, Structural, Hash, Debug)]
pub struct Constructor<I> {
    pub name: I,
    pub typ: TypeAnn,
    pub tag: u64,
    pub arity: u64,
}

/// A data definition: a list of constructors plus opaque metadata.
pub struct DataDefinition<I> {
    pub constructors: Vec<Constructor<I>>,
    pub typ: TypeAnn,
    pub parameters: Vec<Symbol>,
}

/// A type-class instance: a group of bindings plus opaque metadata. The
/// class name passes through renaming unchanged.
pub struct Instance<I> {
    pub bindings: Vec<Binding<I>>,
    pub constraints: Vec<Constraint>,
    pub typ: TypeAnn,
    pub classname: Symbol,
}

/// A whole compilation unit.
pub struct Module<I> {
    pub name: I,
    pub classes: Vec<ClassDecl>,
    pub data_definitions: Vec<DataDefinition<I>>,
    pub type_declarations: Vec<TypeDecl>,
    pub bindings: Vec<Binding<I>>,
    pub instances: Vec<Instance<I>>,
}

// ---------------------------------------------------------------------------
// Mirror types: the mathematical model of the trees above.
// ---------------------------------------------------------------------------

/// Mirror of [`TypedExpr`].
pub struct TypedExprX<I> {
    pub expr: ExprX<I>,
    pub typ: TypeAnn,
    pub location: Location,
}

/// Mirror of [`Expr`].
pub enum ExprX<I> {
    Number(i64),
    Rational(i64, i64),
    StringLit(Seq<char>),
    CharLit(char),
    Identifier(I),
    Apply(Box<TypedExprX<I>>, Box<TypedExprX<I>>),
    Lambda(I, Box<TypedExprX<I>>),
    Let(Seq<BindingX<I>>, Box<TypedExprX<I>>),
    Case(Box<TypedExprX<I>>, Seq<AlternativeX<I>>),
    Do(Seq<DoBindingX<I>>, Box<TypedExprX<I>>),
}

/// Mirror of [`Alternative`].
pub struct AlternativeX<I> {
    pub pattern: Located<PatternX<I>>,
    pub expression: TypedExprX<I>,
}

/// Mirror of [`Pattern`].
pub enum PatternX<I> {
    NumberPattern(i64),
    ConstructorPattern(I, Seq<PatternX<I>>),
    IdentifierPattern(I),
    WildCardPattern,
}

/// Mirror of [`DoBinding`].
pub enum DoBindingX<I> {
    DoExpr(TypedExprX<I>),
    DoLet(Seq<BindingX<I>>),
    DoBind(Located<PatternX<I>>, TypedExprX<I>),
}

/// Mirror of [`Binding`].
pub struct BindingX<I> {
    pub name: I,
    pub expression: TypedExprX<I>,
    pub type_decl: Option<TypeDecl>,
    pub arity: u64,
}

/// Mirror of [`DataDefinition`].
pub struct DataDefinitionX<I> {
    pub constructors: Seq<Constructor<I>>,
    pub typ: TypeAnn,
    pub parameters: Seq<Symbol>,
}

/// Mirror of [`Instance`].
pub struct InstanceX<I> {
    pub bindings: Seq<BindingX<I>>,
    pub constraints: Seq<Constraint>,
    pub typ: TypeAnn,
    pub classname: Symbol,
}

/// Mirror of [`Module`].
pub struct ModuleX<I> {
    pub name: I,
    pub classes: Seq<ClassDecl>,
    pub data_definitions: Seq<DataDefinitionX<I>>,
    pub type_declarations: Seq<TypeDecl>,
    pub bindings: Seq<BindingX<I>>,
    pub instances: Seq<InstanceX<I>>,
}

// ---------------------------------------------------------------------------
// Views: from an executable tree to its mirror.
// ---------------------------------------------------------------------------

/// The model of a typed expression.
pub open spec fn view_typed_expr<I>(e: TypedExpr<I>) -> TypedExprX<I>
    decreases e,
{
    TypedExprX { expr: view_expr(e.expr), typ: e.typ, location: e.location }
}

/// The model of an expression node.
pub open spec fn view_expr<I>(x: Expr<I>) -> ExprX<I>
    decreases x,
{
    match x {
        Expr::Number(n) => ExprX::Number(n),
        Expr::Rational(n, d) => ExprX::Rational(n, d),
        Expr::StringLit(s) => ExprX::StringLit(s@),
        Expr::CharLit(c) => ExprX::CharLit(c),
        Expr::Identifier(i) => ExprX::Identifier(i),
        Expr::Apply(f, a) => ExprX::Apply(
            Box::new(view_typed_expr(*f)),
            Box::new(view_typed_expr(*a)),
        ),
        Expr::Lambda(p, b) => ExprX::Lambda(p, Box::new(view_typed_expr(*b))),
        Expr::Let(bs, b) => ExprX::Let(view_bindings(bs@), Box::new(view_typed_expr(*b))),
        Expr::Case(s, alts) => ExprX::Case(
            Box::new(view_typed_expr(*s)),
            view_alternatives(alts@),
        ),
        Expr::Do(ds, b) => ExprX::Do(view_do_bindings(ds@), Box::new(view_typed_expr(*b))),
    }
}

/// The model of one binding.
pub open spec fn view_binding<I>(b: Binding<I>) -> BindingX<I>
    decreases b,
{
    BindingX {
        name: b.name,
        expression: view_typed_expr(b.expression),
        type_decl: b.type_decl,
        arity: b.arity,
    }
}

/// The model of a binding list, in order.
pub open spec fn view_bindings<I>(s: Seq<Binding<I>>) -> Seq<BindingX<I>>
    decreases s,
{
    if s.len() == 0 {
        Seq::empty()
    } else {
        view_bindings(s.drop_last()).push(view_binding(s.last()))
    }
}

/// The model of one case alternative.
pub open spec fn view_alternative<I>(a: Alternative<I>) -> AlternativeX<I>
    decreases a,
{
    AlternativeX {
        pattern: Located {
            location: a.pattern.location,
            node: view_pattern(a.pattern.node),
        },
        expression: view_typed_expr(a.expression),
    }
}

/// The model of an alternative list, in order.
pub open spec fn view_alternatives<I>(s: Seq<Alternative<I>>) -> Seq<AlternativeX<I>>
    decreases s,
{
    if s.len() == 0 {
        Seq::empty()
    } else {
        view_alternatives(s.drop_last()).push(view_alternative(s.last()))
    }
}

/// The model of one do-block statement.
pub open spec fn view_do_binding<I>(d: DoBinding<I>) -> DoBindingX<I>
    decreases d,
{
    match d {
        DoBinding::DoExpr(e) => DoBindingX::DoExpr(view_typed_expr(e)),
        DoBinding::DoLet(bs) => DoBindingX::DoLet(view_bindings(bs@)),
        DoBinding::DoBind(p, e) => DoBindingX::DoBind(
            Located { location: p.location, node: view_pattern(p.node) },
            view_typed_expr(e),
        ),
    }
}

/// The model of a do-block statement list, in order.
pub open spec fn view_do_bindings<I>(s: Seq<DoBinding<I>>) -> Seq<DoBindingX<I>>
    decreases s,
{
    if s.len() == 0 {
        Seq::empty()
    } else {
        view_do_bindings(s.drop_last()).push(view_do_binding(s.last()))
    }
}

/// The model of a pattern.
pub open spec fn view_pattern<I>(p: Pattern<I>) -> PatternX<I>
    decreases p,
{
    match p {
        Pattern::NumberPattern(n) => PatternX::NumberPattern(n),
        Pattern::ConstructorPattern(c, ps) => PatternX::ConstructorPattern(
            c,
            view_patterns(ps@),
        ),
        Pattern::IdentifierPattern(s) => PatternX::IdentifierPattern(s),
        Pattern::WildCardPattern => PatternX::WildCardPattern,
    }
}

/// The model of a pattern list, in order.
pub open spec fn view_patterns<I>(s: Seq<Pattern<I>>) -> Seq<PatternX<I>>
    decreases s,
{
    if s.len() == 0 {
        Seq::empty()
    } else {
        view_patterns(s.drop_last()).push(view_pattern(s.last()))
    }
}

/// The model of a data definition.
pub open spec fn view_data_definition<I>(d: DataDefinition<I>) -> DataDefinitionX<I> {
    DataDefinitionX { constructors: d.constructors@, typ: d.typ, parameters: d.parameters@ }
}

/// The model of a data-definition list, in order.
pub open spec fn view_data_definitions<I>(s: Seq<DataDefinition<I>>) -> Seq<DataDefinitionX<I>> {
    s.map_values(|d: DataDefinition<I>| view_data_definition(d))
}

/// The model of one instance.
pub open spec fn view_instance<I>(i: Instance<I>) -> InstanceX<I>
    decreases i,
{
    InstanceX {
        bindings: view_bindings(i.bindings@),
        constraints: i.constraints@,
        typ: i.typ,
        classname: i.classname,
    }
}

/// The model of an instance list, in order.
pub open spec fn view_instances<I>(s: Seq<Instance<I>>) -> Seq<InstanceX<I>>
    decreases s,
{
    if s.len() == 0 {
        Seq::empty()
    } else {
        view_instances(s.drop_last()).push(view_instance(s.last()))
    }
}

/// The model of a whole module.
pub open spec fn view_module<I>(m: Module<I>) -> ModuleX<I> {
    ModuleX {
        name: m.name,
        classes: m.classes@,
        data_definitions: view_data_definitions(m.data_definitions@),
        type_declarations: m.type_declarations@,
        bindings: view_bindings(m.bindings@),
        instances: view_instances(m.instances@),
    }
}


// ---------------------------------------------------------------------------
// Shape erasure: the tree with every identifier forgotten. Two trees have
// the same erasure exactly when they have the same node kinds, child counts,
// literals, type annotations and locations, differing only in identifiers.
// ---------------------------------------------------------------------------

/// The shape of a typed expression.
pub open spec fn erase_typed<I>(e: TypedExprX<I>) -> TypedExprX<()>
    decreases e,
{
    TypedExprX { expr: erase_expr(e.expr), typ: e.typ, location: e.location }
}

/// The shape of an expression node.
pub open spec fn erase_expr<I>(x: ExprX<I>) -> ExprX<()>
    decreases x,
{
    match x {
        ExprX::Number(n) => ExprX::Number(n),
        ExprX::Rational(n, d) => ExprX::Rational(n, d),
        ExprX::StringLit(s) => ExprX::StringLit(s),
        ExprX::CharLit(c) => ExprX::CharLit(c),
        ExprX::Identifier(_) => ExprX::Identifier(()),
        ExprX::Apply(f, a) => ExprX::Apply(
            Box::new(erase_typed(*f)),
            Box::new(erase_typed(*a)),
        ),
        ExprX::Lambda(_, b) => ExprX::Lambda((), Box::new(erase_typed(*b))),
        ExprX::Let(bs, b) => ExprX::Let(erase_bindings(bs), Box::new(erase_typed(*b))),
        ExprX::Case(s, alts) => ExprX::Case(
            Box::new(erase_typed(*s)),
            erase_alternatives(alts),
        ),
        ExprX::Do(ds, b) => ExprX::Do(erase_do_bindings(ds), Box::new(erase_typed(*b))),
    }
}

/// The shape of one binding.
pub open spec fn erase_binding<I>(b: BindingX<I>) -> BindingX<()>
    decreases b,
{
    BindingX {
        name: (),
        expression: erase_typed(b.expression),
        type_decl: b.type_decl,
        arity: b.arity,
    }
}

/// The shape of a binding list.
pub open spec fn erase_bindings<I>(s: Seq<BindingX<I>>) -> Seq<BindingX<()>>
    decreases s,
{
    if s.len() == 0 {
        Seq::empty()
    } else {
        erase_bindings(s.drop_last()).push(erase_binding(s.last()))
    }
}

/// The shape of one case alternative.
pub open spec fn erase_alternative<I>(a: AlternativeX<I>) -> AlternativeX<()>
    decreases a,
{
    AlternativeX {
        pattern: Located { location: a.pattern.location, node: erase_pattern(a.pattern.node) },
        expression: erase_typed(a.expression),
    }
}

/// The shape of an alternative list.
pub open spec fn erase_alternatives<I>(s: Seq<AlternativeX<I>>) -> Seq<AlternativeX<()>>
    decreases s,
{
    if s.len() == 0 {
        Seq::empty()
    } else {
        erase_alternatives(s.drop_last()).push(erase_alternative(s.last()))
    }
}

/// The shape of one do-block statement.
pub open spec fn erase_do_binding<I>(d: DoBindingX<I>) -> DoBindingX<()>
    decreases d,
{
    match d {
        DoBindingX::DoExpr(e) => DoBindingX::DoExpr(erase_typed(e)),
        DoBindingX::DoLet(bs) => DoBindingX::DoLet(erase_bindings(bs)),
        DoBindingX::DoBind(p, e) => DoBindingX::DoBind(
            Located { location: p.location, node: erase_pattern(p.node) },
            erase_typed(e),
        ),
    }
}

/// The shape of a do-block statement list.
pub open spec fn erase_do_bindings<I>(s: Seq<DoBindingX<I>>) -> Seq<DoBindingX<()>>
    decreases s,
{
    if s.len() == 0 {
        Seq::empty()
    } else {
        erase_do_bindings(s.drop_last()).push(erase_do_binding(s.last()))
    }
}

/// The shape of a pattern.
pub open spec fn erase_pattern<I>(p: PatternX<I>) -> PatternX<()>
    decreases p,
{
    match p {
        PatternX::NumberPattern(n) => PatternX::NumberPattern(n),
        PatternX::ConstructorPattern(_, ps) => PatternX::ConstructorPattern(
            (),
            erase_patterns(ps),
        ),
        PatternX::IdentifierPattern(_) => PatternX::IdentifierPattern(()),
        PatternX::WildCardPattern => PatternX::WildCardPattern,
    }
}

/// The shape of a pattern list.
pub open spec fn erase_patterns<I>(s: Seq<PatternX<I>>) -> Seq<PatternX<()>>
    decreases s,
{
    if s.len() == 0 {
        Seq::empty()
    } else {
        erase_patterns(s.drop_last()).push(erase_pattern(s.last()))
    }
}

/// The shape of a data definition.
pub open spec fn erase_data_definition<I>(d: DataDefinitionX<I>) -> DataDefinitionX<()> {
    DataDefinitionX {
        constructors: d.constructors.map_values(
            |c: Constructor<I>| Constructor { name: (), typ: c.typ, tag: c.tag, arity: c.arity },
        ),
        typ: d.typ,
        parameters: d.parameters,
    }
}

/// The shape of one instance.
pub open spec fn erase_instance<I>(i: InstanceX<I>) -> InstanceX<()>
    decreases i,
{
    InstanceX {
        bindings: erase_bindings(i.bindings),
        constraints: i.constraints,
        typ: i.typ,
        classname: i.classname,
    }
}

/// The shape of an instance list.
pub open spec fn erase_instances<I>(s: Seq<InstanceX<I>>) -> Seq<InstanceX<()>>
    decreases s,
{
    if s.len() == 0 {
        Seq::empty()
    } else {
        erase_instances(s.drop_last()).push(erase_instance(s.last()))
    }
}

/// The shape of a whole module.
pub open spec fn erase_module<I>(m: ModuleX<I>) -> ModuleX<()> {
    ModuleX {
        name: (),
        classes: m.classes,
        data_definitions: m.data_definitions.map_values(
            |d: DataDefinitionX<I>| erase_data_definition(d),
        ),
        type_declarations: m.type_declarations,
        bindings: erase_bindings(m.bindings),
        instances: erase_instances(m.instances),
    }
}

// ---------------------------------------------------------------------------
// The list views above are elementwise maps; these lemmas expose that.
// ---------------------------------------------------------------------------

/// `view_bindings` maps `view_binding` over the list, keeping length and order.
pub proof fn lemma_view_bindings_index<I>(s: Seq<Binding<I>>)
    ensures
        view_bindings(s).len() == s.len(),
        forall|i: int| 0 <= i < s.len() ==> #[trigger] view_bindings(s)[i] == view_binding(s[i]),
    decreases s,
{
    if s.len() > 0 {
        lemma_view_bindings_index(s.drop_last());
    }
}

/// `view_alternatives` maps `view_alternative` over the list.
pub proof fn lemma_view_alternatives_index<I>(s: Seq<Alternative<I>>)
    ensures
        view_alternatives(s).len() == s.len(),
        forall|i: int| 0 <= i < s.len()
            ==> #[trigger] view_alternatives(s)[i] == view_alternative(s[i]),
    decreases s,
{
    if s.len() > 0 {
        lemma_view_alternatives_index(s.drop_last());
    }
}

/// `view_do_bindings` maps `view_do_binding` over the list.
pub proof fn lemma_view_do_bindings_index<I>(s: Seq<DoBinding<I>>)
    ensures
        view_do_bindings(s).len() == s.len(),
        forall|i: int| 0 <= i < s.len()
            ==> #[trigger] view_do_bindings(s)[i] == view_do_binding(s[i]),
    decreases s,
{
    if s.len() > 0 {
        lemma_view_do_bindings_index(s.drop_last());
    }
}

/// `view_patterns` maps `view_pattern` over the list.
pub proof fn lemma_view_patterns_index<I>(s: Seq<Pattern<I>>)
    ensures
        view_patterns(s).len() == s.len(),
        forall|i: int| 0 <= i < s.len() ==> #[trigger] view_patterns(s)[i] == view_pattern(s[i]),
    decreases s,
{
    if s.len() > 0 {
        lemma_view_patterns_index(s.drop_last());
    }
}

/// `view_instances` maps `view_instance` over the list.
pub proof fn lemma_view_instances_index<I>(s: Seq<Instance<I>>)
    ensures
        view_instances(s).len() == s.len(),
        forall|i: int| 0 <= i < s.len() ==> #[trigger] view_instances(s)[i] == view_instance(s[i]),
    decreases s,
{
    if s.len() > 0 {
        lemma_view_instances_index(s.drop_last());
    }
}

} // verus!
