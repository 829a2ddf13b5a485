//! Alpha-renaming (scope resolution) for a small functional language.
//!
//! The library consumes an abstract syntax tree whose identifiers are plain
//! interned symbols and produces an isomorphic tree whose identifiers are
//! [`ast::Name`] values: the original symbol paired with an integer tag that
//! is unique within one renaming pass. `uid == 0` is reserved for global or
//! free references, which are identified by symbol text alone.

pub mod ast;
pub mod scoped_map;
pub mod semantics;
pub mod renamer;
pub mod laws;

pub use ast::Name;
pub use renamer::rename_expr;
pub use renamer::rename_module;
