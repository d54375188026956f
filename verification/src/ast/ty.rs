use vstd::prelude::*;

use crate::ast::expr::{Expr, Path};
use crate::ast::NodeId;
use crate::span::Span;

verus! {

/// A type as written in the source.
#[derive(Debug)]
pub enum Type {
    Path(Path),
    Ref { mutable: bool, ty: Box<Type>, span: Span, id: NodeId },
    Ptr { mutable: bool, ty: Box<Type> },
    Array { elem: Box<Type>, len: Box<Expr> },
    Slice { elem: Box<Type> },
    Tuple(Vec<Type>),
    Fn { params: Vec<Type>, ret: Box<Type> },
    Infer,
}

} // verus!
