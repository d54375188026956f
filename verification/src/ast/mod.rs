//! The syntax tree the parser builds.

use vstd::prelude::*;

pub mod arena;
pub mod expr;
pub mod generics;
pub mod item;
pub mod model;
pub mod pat;
pub mod stmt;
pub mod ty;

pub use arena::NodeArena;
pub use expr::Expr;
pub use item::Item;
pub use pat::Pattern;
pub use stmt::Stmt;
pub use ty::Type;

verus! {

/// Identifies one node of the tree; the parser hands them out in order.
#[derive(Copy, Clone, PartialEq, Eq, Hash, Debug, Structural)]
pub struct NodeId(pub u32);

} // verus!
