use vstd::prelude::*;

use crate::ast::expr::{GenericArg, Path};
use crate::ast::{NodeId, Type};
use crate::span::Span;

verus! {

/// The generic parameters of an item and its `where` clause.
#[derive(Debug)]
pub struct Generics {
    pub id: NodeId,
    pub span: Span,
    pub params: Vec<TypeParam>,
    pub where_clause: Option<WhereClause>,
}

/// `Name: Bound + Bound`.
#[derive(Debug)]
pub struct TypeParam {
    pub id: NodeId,
    pub span: Span,
    pub name: String,
    pub bounds: Vec<TraitBound>,
}

/// `where pred, pred`.
#[derive(Debug)]
pub struct WhereClause {
    pub id: NodeId,
    pub span: Span,
    pub predicates: Vec<WherePred>,
}

/// `Ty: Bound + Bound` inside a `where` clause.
#[derive(Debug)]
pub struct WherePred {
    pub id: NodeId,
    pub span: Span,
    pub ty: Type,
    pub bounds: Vec<TraitBound>,
}

/// A trait named as a bound.
#[derive(Debug)]
pub struct TraitBound {
    pub id: NodeId,
    pub span: Span,
    pub path: Path,
    pub generic_args: Vec<GenericArg>,
}

} // verus!
