use vstd::prelude::*;

use crate::ast::expr::{Block, Expr};
use crate::ast::generics::{Generics, TraitBound};
use crate::ast::ty::Type;
use crate::ast::NodeId;
use crate::span::Span;

verus! {

/// A function parameter; `is_self` marks the receiver.
#[derive(Debug)]
pub struct Param {
    pub id: NodeId,
    pub span: Span,
    pub name: String,
    pub ty: Type,
    pub is_self: bool,
}

/// A function definition.
#[derive(Debug)]
pub struct FnDef {
    pub id: NodeId,
    pub span: Span,
    pub name: String,
    pub params: Vec<Param>,
    pub ret_ty: Option<Type>,
    pub body: Block,
    pub is_const: bool,
    pub is_unsafe: bool,
    /// `None` = not `extern`. `Some(s)` = `extern` with named ABI string.
    /// An empty string denotes a bare `extern fn` with no ABI literal.
    pub extern_abi: Option<String>,
    pub generics: Option<Generics>,
}

/// A named field of a struct or struct-like variant; tuple fields are
/// named by their index.
#[derive(Debug)]
pub struct Field {
    pub id: NodeId,
    pub span: Span,
    pub name: String,
    pub ty: Type,
    pub is_pub: bool,
}

/// Which of the three struct forms was written.
#[derive(Debug, Clone)]
pub enum StructKind {
    Record,
    Tuple,
    Unit,
}

/// A struct definition.
#[derive(Debug)]
pub struct StructDef {
    pub id: NodeId,
    pub span: Span,
    pub name: String,
    pub generics: Option<Generics>,
    pub fields: Vec<Field>,
    pub kind: StructKind,
}

/// The payload of an enum variant.
#[derive(Debug)]
pub enum VariantKind {
    Unit,
    Tuple(Vec<Type>),
    Struct(Vec<Field>),
}

/// One variant of an enum, with its explicit discriminant if any.
#[derive(Debug)]
pub struct EnumVariant {
    pub id: NodeId,
    pub span: Span,
    pub name: String,
    pub kind: VariantKind,
    pub discriminant: Option<Expr>,
}

/// An enum definition.
#[derive(Debug)]
pub struct EnumDef {
    pub id: NodeId,
    pub span: Span,
    pub name: String,
    pub generics: Option<Generics>,
    pub variants: Vec<EnumVariant>,
}

/// An `impl` block; its contents are not recorded yet.
#[derive(Debug, Clone)]
pub struct ImplDef {
    pub id: NodeId,
    pub span: Span,
}

/// A method declared in a trait, with its default body if it has one.
#[derive(Debug)]
pub struct TraitItemFn {
    pub id: NodeId,
    pub span: Span,
    pub name: String,
    pub generics: Option<Generics>,
    pub params: Vec<Param>,
    pub ret_ty: Option<Type>,
    pub default: Option<Block>,
}

/// An associated type declared in a trait.
#[derive(Debug, Clone)]
pub struct TraitItemType {
    pub id: NodeId,
    pub span: Span,
    pub name: String,
}

/// An associated constant declared in a trait.
#[derive(Debug)]
pub struct TraitItemConst {
    pub id: NodeId,
    pub span: Span,
    pub name: String,
    pub ty: Type,
}

/// An item inside a trait.
#[derive(Debug)]
pub enum TraitItem {
    Fn(TraitItemFn),
    Type(TraitItemType),
    Const(TraitItemConst),
}

/// A trait definition.
#[derive(Debug)]
pub struct TraitDef {
    pub id: NodeId,
    pub span: Span,
    pub name: String,
    pub generics: Option<Generics>,
    pub supertraits: Vec<TraitBound>,
    pub items: Vec<TraitItem>,
}

/// `mod name;` or `mod name { items }`.
#[derive(Debug)]
pub enum ModKind {
    External,
    Inline(Vec<Item>),
}

/// A module declaration.
#[derive(Debug)]
pub struct ModDef {
    pub id: NodeId,
    pub span: Span,
    pub name: String,
    pub kind: ModKind,
}

/// The tree of paths a `use` imports.
#[derive(Debug)]
pub enum UseTree {
    Simple { segments: Vec<String>, alias: Option<String> },
    Glob { segments: Vec<String> },
    Nested { segments: Vec<String>, items: Vec<UseTree> },
}

/// A `use` declaration.
#[derive(Debug)]
pub struct UseDef {
    pub id: NodeId,
    pub span: Span,
    pub is_pub: bool,
    pub tree: UseTree,
}

/// `const NAME: Ty = value;`.
#[derive(Debug)]
pub struct ConstDef {
    pub id: NodeId,
    pub span: Span,
    pub name: String,
    pub ty: Type,
    pub value: Expr,
}

/// `static [mut] NAME: Ty = value;`.
#[derive(Debug)]
pub struct StaticDef {
    pub id: NodeId,
    pub span: Span,
    pub name: String,
    pub ty: Type,
    pub value: Expr,
    pub is_mut: bool,
}

/// `type Name<params> = Ty;`.
#[derive(Debug)]
pub struct TypeAliasDef {
    pub id: NodeId,
    pub span: Span,
    pub name: String,
    pub generics: Option<Generics>,
    pub ty: Type,
}

/// A top-level or module-level item.
#[derive(Debug)]
pub enum Item {
    Fn(FnDef),
    Struct(StructDef),
    Enum(EnumDef),
    Impl(ImplDef),
    Trait(TraitDef),
    Mod(ModDef),
    Use(UseDef),
    Const(ConstDef),
    Static(StaticDef),
    TypeAlias(TypeAliasDef),
}

impl Item {
    /// The id stored in the item.
    pub open spec fn node_id(&self) -> NodeId {
        match self {
            Item::Fn(i) => i.id,
            Item::Struct(i) => i.id,
            Item::Enum(i) => i.id,
            Item::Impl(i) => i.id,
            Item::Trait(i) => i.id,
            Item::Mod(i) => i.id,
            Item::Use(i) => i.id,
            Item::Const(i) => i.id,
            Item::Static(i) => i.id,
            Item::TypeAlias(i) => i.id,
        }
    }

    /// The span stored in the item.
    pub open spec fn node_span(&self) -> Span {
        match self {
            Item::Fn(i) => i.span,
            Item::Struct(i) => i.span,
            Item::Enum(i) => i.span,
            Item::Impl(i) => i.span,
            Item::Trait(i) => i.span,
            Item::Mod(i) => i.span,
            Item::Use(i) => i.span,
            Item::Const(i) => i.span,
            Item::Static(i) => i.span,
            Item::TypeAlias(i) => i.span,
        }
    }

    pub fn id(&self) -> (r: NodeId)
        ensures
            r == self.node_id(),
    {
        match self {
            Item::Fn(i) => i.id,
            Item::Struct(i) => i.id,
            Item::Enum(i) => i.id,
            Item::Impl(i) => i.id,
            Item::Trait(i) => i.id,
            Item::Mod(i) => i.id,
            Item::Use(i) => i.id,
            Item::Const(i) => i.id,
            Item::Static(i) => i.id,
            Item::TypeAlias(i) => i.id,
        }
    }

    pub fn span(&self) -> (r: Span)
        ensures
            r == self.node_span(),
    {
        match self {
            Item::Fn(i) => i.span,
            Item::Struct(i) => i.span,
            Item::Enum(i) => i.span,
            Item::Impl(i) => i.span,
            Item::Trait(i) => i.span,
            Item::Mod(i) => i.span,
            Item::Use(i) => i.span,
            Item::Const(i) => i.span,
            Item::Static(i) => i.span,
            Item::TypeAlias(i) => i.span,
        }
    }
}

} // verus!
