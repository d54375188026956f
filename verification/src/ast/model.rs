//! Mathematical models of the tree: the same shape with sequences in place
//! of vectors and character sequences in place of strings.  Statements and
//! types the parser never builds (`let`, items in blocks, function types,
//! `_`) collapse to `Other`.

use vstd::prelude::*;

use crate::ast::expr::{
    BinaryOp, Block, BoolLit, CharLit, ClosureParam, Expr, FloatLit, GenericArg, If, IntLit, Path,
    PathSegment, UnaryOp,
};
use crate::ast::generics::{Generics, TraitBound, TypeParam, WhereClause, WherePred};
use crate::ast::item::{
    EnumVariant, Field, ImplDef, Item, ModKind, Param, StructKind, TraitItem, UseTree, VariantKind,
};
use crate::ast::stmt::Stmt;
use crate::ast::ty::Type;
use crate::ast::NodeId;
use crate::span::{FileId, Span};

verus! {

/// A path segment: its name and generic arguments.
pub ghost struct SegmentM {
    pub ident: Seq<char>,
    pub generic_args: Seq<GenericArg>,
}

/// A path.
pub ghost struct PathM {
    pub id: NodeId,
    pub span: Span,
    pub segments: Seq<SegmentM>,
}

/// An expression.
pub ghost enum ExprM {
    IntLit(IntLit),
    FloatLit(FloatLit),
    CharLit(CharLit),
    StrLit { id: NodeId, span: Span, value: Seq<char> },
    BoolLit(BoolLit),
    Path(PathM),
    TupleLit { id: NodeId, span: Span, elems: Seq<ExprM> },
    ArrayLit { id: NodeId, span: Span, elems: Seq<ExprM> },
    ArrayRepeat { id: NodeId, span: Span, value: Box<ExprM>, count: Box<ExprM> },
    Block(BlockM),
    If { id: NodeId, span: Span, cond: Box<ExprM>, then: Box<ExprM>, else_branch: Option<Box<ExprM>> },
    Range { id: NodeId, span: Span, start: Option<Box<ExprM>>, end: Option<Box<ExprM>>, inclusive: bool },
    Binary { id: NodeId, span: Span, op: BinaryOp, lhs: Box<ExprM>, rhs: Box<ExprM> },
    Unary { id: NodeId, span: Span, op: UnaryOp, operand: Box<ExprM> },
    Cast { id: NodeId, span: Span, expr: Box<ExprM> },
    Call { id: NodeId, span: Span, callee: Box<ExprM>, args: Seq<ExprM> },
    MethodCall {
        id: NodeId,
        span: Span,
        receiver: Box<ExprM>,
        method: Seq<char>,
        args: Seq<ExprM>,
        generic_args: Seq<GenericArg>,
    },
    Field { id: NodeId, span: Span, receiver: Box<ExprM>, name: Seq<char> },
    TupleField { id: NodeId, span: Span, receiver: Box<ExprM>, idx: u32 },
    Index { id: NodeId, span: Span, receiver: Box<ExprM>, idx: Box<ExprM> },
    Try { id: NodeId, span: Span, expr: Box<ExprM> },
    Closure { id: NodeId, span: Span, params: Seq<ClosureParam>, body: Box<ExprM>, move_kw: bool },
    Error(NodeId, Span),
}

/// A block.
pub ghost struct BlockM {
    pub id: NodeId,
    pub span: Span,
    pub stmts: Seq<StmtM>,
    pub tail: Option<Box<ExprM>>,
}

/// A statement.
pub ghost enum StmtM {
    Expr { expr: ExprM, has_semi: bool },
    Other,
}

/// A type.
pub ghost enum TypeM {
    Path(PathM),
    Ref { mutable: bool, ty: Box<TypeM>, span: Span, id: NodeId },
    Ptr { mutable: bool, ty: Box<TypeM> },
    Array { elem: Box<TypeM>, len: Box<ExprM> },
    Slice { elem: Box<TypeM> },
    Tuple(Seq<TypeM>),
    Other,
}

pub open spec fn segment_model(s: PathSegment) -> SegmentM {
    SegmentM { ident: s.ident@, generic_args: s.generic_args@ }
}

pub open spec fn segments_model(s: Seq<PathSegment>) -> Seq<SegmentM> {
    s.map_values(|x: PathSegment| segment_model(x))
}

pub open spec fn path_model(p: Path) -> PathM {
    PathM { id: p.id, span: p.span, segments: segments_model(p.segments@) }
}

/// The model of an expression.
pub open spec fn expr_model(e: Expr) -> ExprM
    decreases e,
{
    match e {
        Expr::IntLit(l) => ExprM::IntLit(l),
        Expr::FloatLit(l) => ExprM::FloatLit(l),
        Expr::CharLit(l) => ExprM::CharLit(l),
        Expr::StrLit(l) => ExprM::StrLit { id: l.id, span: l.span, value: l.value@ },
        Expr::BoolLit(l) => ExprM::BoolLit(l),
        Expr::Path(p) => ExprM::Path(path_model(p)),
        Expr::TupleLit(t) => ExprM::TupleLit { id: t.id, span: t.span, elems: exprs_model(t.elems@) },
        Expr::ArrayLit(a) => ExprM::ArrayLit { id: a.id, span: a.span, elems: exprs_model(a.elems@) },
        Expr::ArrayRepeat(a) => ExprM::ArrayRepeat {
            id: a.id,
            span: a.span,
            value: Box::new(expr_model(*a.value)),
            count: Box::new(expr_model(*a.count)),
        },
        Expr::Block(b) => ExprM::Block(BlockM {
            id: b.id,
            span: b.span,
            stmts: stmts_model(b.stmts@),
            tail: match b.tail {
                Some(x) => Some(Box::new(expr_model(*x))),
                None => None,
            },
        }),
        Expr::If(If { id, span, cond, then: branch, else_branch }) => ExprM::If {
            id,
            span,
            cond: Box::new(expr_model(*cond)),
            then: Box::new(expr_model(*branch)),
            else_branch: match else_branch {
                Some(x) => Some(Box::new(expr_model(*x))),
                None => None,
            },
        },
        Expr::Range(r) => ExprM::Range {
            id: r.id,
            span: r.span,
            start: match r.start {
                Some(x) => Some(Box::new(expr_model(*x))),
                None => None,
            },
            end: match r.end {
                Some(x) => Some(Box::new(expr_model(*x))),
                None => None,
            },
            inclusive: r.inclusive,
        },
        Expr::Binary(b) => ExprM::Binary {
            id: b.id,
            span: b.span,
            op: b.op,
            lhs: Box::new(expr_model(*b.lhs)),
            rhs: Box::new(expr_model(*b.rhs)),
        },
        Expr::Unary(u) => ExprM::Unary { id: u.id, span: u.span, op: u.op, operand: Box::new(expr_model(*u.operand)) },
        Expr::Cast(c) => ExprM::Cast { id: c.id, span: c.span, expr: Box::new(expr_model(*c.expr)) },
        Expr::Call(c) => ExprM::Call {
            id: c.id,
            span: c.span,
            callee: Box::new(expr_model(*c.callee)),
            args: exprs_model(c.args@),
        },
        Expr::MethodCall(m) => ExprM::MethodCall {
            id: m.id,
            span: m.span,
            receiver: Box::new(expr_model(*m.receiver)),
            method: m.method@,
            args: exprs_model(m.args@),
            generic_args: m.generic_args@,
        },
        Expr::Field(f) => ExprM::Field { id: f.id, span: f.span, receiver: Box::new(expr_model(*f.receiver)), name: f.name@ },
        Expr::TupleField(f) => ExprM::TupleField { id: f.id, span: f.span, receiver: Box::new(expr_model(*f.receiver)), idx: f.idx },
        Expr::Index(i) => ExprM::Index {
            id: i.id,
            span: i.span,
            receiver: Box::new(expr_model(*i.receiver)),
            idx: Box::new(expr_model(*i.idx)),
        },
        Expr::Try(t) => ExprM::Try { id: t.id, span: t.span, expr: Box::new(expr_model(*t.expr)) },
        Expr::Closure(c) => ExprM::Closure {
            id: c.id,
            span: c.span,
            params: c.params@,
            body: Box::new(expr_model(*c.body)),
            move_kw: c.move_kw,
        },
        Expr::Error(id, span) => ExprM::Error(id, span),
    }
}

/// The model of an optional boxed expression.
pub open spec fn opt_expr_model(o: Option<Box<Expr>>) -> Option<Box<ExprM>> {
    match o {
        Some(e) => Some(Box::new(expr_model(*e))),
        None => None,
    }
}

/// The models of a sequence of expressions, in order.
pub open spec fn exprs_model(s: Seq<Expr>) -> Seq<ExprM>
    decreases s,
{
    if s.len() == 0 {
        Seq::empty()
    } else {
        exprs_model(s.drop_last()).push(expr_model(s.last()))
    }
}

/// The model of a block.
pub open spec fn block_model(b: Block) -> BlockM {
    BlockM { id: b.id, span: b.span, stmts: stmts_model(b.stmts@), tail: opt_expr_model(b.tail) }
}

/// The model of a statement.
pub open spec fn stmt_model(s: Stmt) -> StmtM
    decreases s,
{
    match s {
        Stmt::Expr { expr, has_semi } => StmtM::Expr { expr: expr_model(expr), has_semi },
        _ => StmtM::Other,
    }
}

/// The models of a sequence of statements, in order.
pub open spec fn stmts_model(s: Seq<Stmt>) -> Seq<StmtM>
    decreases s,
{
    if s.len() == 0 {
        Seq::empty()
    } else {
        stmts_model(s.drop_last()).push(stmt_model(s.last()))
    }
}

/// The model of a type.
pub open spec fn type_model(t: Type) -> TypeM
    decreases t,
{
    match t {
        Type::Path(p) => TypeM::Path(path_model(p)),
        Type::Ref { mutable, ty, span, id } => TypeM::Ref { mutable, ty: Box::new(type_model(*ty)), span, id },
        Type::Ptr { mutable, ty } => TypeM::Ptr { mutable, ty: Box::new(type_model(*ty)) },
        Type::Array { elem, len } => TypeM::Array { elem: Box::new(type_model(*elem)), len: Box::new(expr_model(*len)) },
        Type::Slice { elem } => TypeM::Slice { elem: Box::new(type_model(*elem)) },
        Type::Tuple(elems) => TypeM::Tuple(types_model(elems@)),
        _ => TypeM::Other,
    }
}

/// The models of a sequence of types, in order.
pub open spec fn types_model(s: Seq<Type>) -> Seq<TypeM>
    decreases s,
{
    if s.len() == 0 {
        Seq::empty()
    } else {
        types_model(s.drop_last()).push(type_model(s.last()))
    }
}

/// The span recorded in an expression model.
pub open spec fn expr_m_span(e: ExprM) -> Span {
    match e {
        ExprM::IntLit(l) => l.span,
        ExprM::FloatLit(l) => l.span,
        ExprM::CharLit(l) => l.span,
        ExprM::StrLit { span, .. } => span,
        ExprM::BoolLit(l) => l.span,
        ExprM::Path(p) => p.span,
        ExprM::TupleLit { span, .. } => span,
        ExprM::ArrayLit { span, .. } => span,
        ExprM::ArrayRepeat { span, .. } => span,
        ExprM::Block(b) => b.span,
        ExprM::If { span, .. } => span,
        ExprM::Range { span, .. } => span,
        ExprM::Binary { span, .. } => span,
        ExprM::Unary { span, .. } => span,
        ExprM::Cast { span, .. } => span,
        ExprM::Call { span, .. } => span,
        ExprM::MethodCall { span, .. } => span,
        ExprM::Field { span, .. } => span,
        ExprM::TupleField { span, .. } => span,
        ExprM::Index { span, .. } => span,
        ExprM::Try { span, .. } => span,
        ExprM::Closure { span, .. } => span,
        ExprM::Error(_, span) => span,
    }
}

/// The span a type model reports (as the parser computes it for types).
pub open spec fn type_m_span(t: TypeM) -> Span
    decreases t,
{
    match t {
        TypeM::Path(p) => p.span,
        TypeM::Ref { span, .. } => span,
        TypeM::Ptr { ty, .. } => type_m_span(*ty),
        TypeM::Array { elem, .. } => type_m_span(*elem),
        TypeM::Slice { elem } => type_m_span(*elem),
        TypeM::Tuple(elems) => if elems.len() > 0 {
            type_m_span(elems[0])
        } else {
            Span { file_id: FileId(0), start: 0, end: 0 }
        },
        TypeM::Other => Span { file_id: FileId(0), start: 0, end: 0 },
    }
}

/// A trait bound.
pub ghost struct TraitBoundM {
    pub id: NodeId,
    pub span: Span,
    pub path: PathM,
    pub generic_args: Seq<GenericArg>,
}

/// A generic parameter.
pub ghost struct TypeParamM {
    pub id: NodeId,
    pub span: Span,
    pub name: Seq<char>,
    pub bounds: Seq<TraitBoundM>,
}

/// A `where` predicate.
pub ghost struct WherePredM {
    pub id: NodeId,
    pub span: Span,
    pub ty: TypeM,
    pub bounds: Seq<TraitBoundM>,
}

/// A `where` clause.
pub ghost struct WhereClauseM {
    pub id: NodeId,
    pub span: Span,
    pub predicates: Seq<WherePredM>,
}

/// The generics of an item.
pub ghost struct GenericsM {
    pub id: NodeId,
    pub span: Span,
    pub params: Seq<TypeParamM>,
    pub where_clause: Option<WhereClauseM>,
}

/// A function parameter.
pub ghost struct ParamM {
    pub id: NodeId,
    pub span: Span,
    pub name: Seq<char>,
    pub ty: TypeM,
    pub is_self: bool,
}

/// A field.
pub ghost struct FieldM {
    pub id: NodeId,
    pub span: Span,
    pub name: Seq<char>,
    pub ty: TypeM,
    pub is_pub: bool,
}

/// The payload of an enum variant.
pub ghost enum VariantKindM {
    Unit,
    Tuple(Seq<TypeM>),
    Struct(Seq<FieldM>),
}

/// An enum variant.
pub ghost struct EnumVariantM {
    pub id: NodeId,
    pub span: Span,
    pub name: Seq<char>,
    pub kind: VariantKindM,
    pub discriminant: Option<ExprM>,
}

/// An item of a trait.
pub ghost enum TraitItemM {
    Fn {
        id: NodeId,
        span: Span,
        name: Seq<char>,
        generics: Option<GenericsM>,
        params: Seq<ParamM>,
        ret_ty: Option<TypeM>,
        default: Option<BlockM>,
    },
    Type { id: NodeId, span: Span, name: Seq<char> },
    Const { id: NodeId, span: Span, name: Seq<char>, ty: TypeM },
}

/// A use tree.
pub ghost enum UseTreeM {
    Simple { segments: Seq<Seq<char>>, alias: Option<Seq<char>> },
    Glob { segments: Seq<Seq<char>> },
    Nested { segments: Seq<Seq<char>>, items: Seq<UseTreeM> },
}

/// The contents of a module declaration.
pub ghost enum ModKindM {
    External,
    Inline(Seq<ItemM>),
}

/// An item.
pub ghost enum ItemM {
    Fn {
        id: NodeId,
        span: Span,
        name: Seq<char>,
        params: Seq<ParamM>,
        ret_ty: Option<TypeM>,
        body: BlockM,
        is_const: bool,
        is_unsafe: bool,
        extern_abi: Option<Seq<char>>,
        generics: Option<GenericsM>,
    },
    Struct {
        id: NodeId,
        span: Span,
        name: Seq<char>,
        generics: Option<GenericsM>,
        fields: Seq<FieldM>,
        kind: StructKind,
    },
    Enum { id: NodeId, span: Span, name: Seq<char>, generics: Option<GenericsM>, variants: Seq<EnumVariantM> },
    Impl(ImplDef),
    Trait {
        id: NodeId,
        span: Span,
        name: Seq<char>,
        generics: Option<GenericsM>,
        supertraits: Seq<TraitBoundM>,
        items: Seq<TraitItemM>,
    },
    Mod { id: NodeId, span: Span, name: Seq<char>, kind: ModKindM },
    Use { id: NodeId, span: Span, is_pub: bool, tree: UseTreeM },
    Const { id: NodeId, span: Span, name: Seq<char>, ty: TypeM, value: ExprM },
    Static { id: NodeId, span: Span, name: Seq<char>, ty: TypeM, value: ExprM, is_mut: bool },
    TypeAlias { id: NodeId, span: Span, name: Seq<char>, generics: Option<GenericsM>, ty: TypeM },
}

pub open spec fn bound_model(b: TraitBound) -> TraitBoundM {
    TraitBoundM { id: b.id, span: b.span, path: path_model(b.path), generic_args: b.generic_args@ }
}

pub open spec fn bounds_model(s: Seq<TraitBound>) -> Seq<TraitBoundM> {
    s.map_values(|b: TraitBound| bound_model(b))
}

pub open spec fn type_param_model(p: TypeParam) -> TypeParamM {
    TypeParamM { id: p.id, span: p.span, name: p.name@, bounds: bounds_model(p.bounds@) }
}

pub open spec fn type_params_model(s: Seq<TypeParam>) -> Seq<TypeParamM> {
    s.map_values(|p: TypeParam| type_param_model(p))
}

pub open spec fn where_pred_model(p: WherePred) -> WherePredM {
    WherePredM { id: p.id, span: p.span, ty: type_model(p.ty), bounds: bounds_model(p.bounds@) }
}

pub open spec fn where_preds_model(s: Seq<WherePred>) -> Seq<WherePredM> {
    s.map_values(|p: WherePred| where_pred_model(p))
}

pub open spec fn where_model(w: WhereClause) -> WhereClauseM {
    WhereClauseM { id: w.id, span: w.span, predicates: where_preds_model(w.predicates@) }
}

pub open spec fn opt_where_model(w: Option<WhereClause>) -> Option<WhereClauseM> {
    match w {
        Some(w) => Some(where_model(w)),
        None => None,
    }
}

pub open spec fn generics_model(g: Generics) -> GenericsM {
    GenericsM {
        id: g.id,
        span: g.span,
        params: type_params_model(g.params@),
        where_clause: opt_where_model(g.where_clause),
    }
}

pub open spec fn opt_generics_model(g: Option<Generics>) -> Option<GenericsM> {
    match g {
        Some(g) => Some(generics_model(g)),
        None => None,
    }
}

pub open spec fn param_model(p: Param) -> ParamM {
    ParamM { id: p.id, span: p.span, name: p.name@, ty: type_model(p.ty), is_self: p.is_self }
}

pub open spec fn params_model(s: Seq<Param>) -> Seq<ParamM> {
    s.map_values(|p: Param| param_model(p))
}

pub open spec fn opt_type_model(t: Option<Type>) -> Option<TypeM> {
    match t {
        Some(t) => Some(type_model(t)),
        None => None,
    }
}

pub open spec fn field_model(f: Field) -> FieldM {
    FieldM { id: f.id, span: f.span, name: f.name@, ty: type_model(f.ty), is_pub: f.is_pub }
}

pub open spec fn fields_model(s: Seq<Field>) -> Seq<FieldM> {
    s.map_values(|f: Field| field_model(f))
}

pub open spec fn variant_kind_model(k: VariantKind) -> VariantKindM {
    match k {
        VariantKind::Unit => VariantKindM::Unit,
        VariantKind::Tuple(tys) => VariantKindM::Tuple(types_model(tys@)),
        VariantKind::Struct(fields) => VariantKindM::Struct(fields_model(fields@)),
    }
}

pub open spec fn variant_model(v: EnumVariant) -> EnumVariantM {
    EnumVariantM {
        id: v.id,
        span: v.span,
        name: v.name@,
        kind: variant_kind_model(v.kind),
        discriminant: match v.discriminant {
            Some(e) => Some(expr_model(e)),
            None => None,
        },
    }
}

pub open spec fn variants_model(s: Seq<EnumVariant>) -> Seq<EnumVariantM> {
    s.map_values(|v: EnumVariant| variant_model(v))
}

pub open spec fn opt_block_model(b: Option<Block>) -> Option<BlockM> {
    match b {
        Some(b) => Some(block_model(b)),
        None => None,
    }
}

pub open spec fn trait_item_model(i: TraitItem) -> TraitItemM {
    match i {
        TraitItem::Fn(f) => TraitItemM::Fn {
            id: f.id,
            span: f.span,
            name: f.name@,
            generics: opt_generics_model(f.generics),
            params: params_model(f.params@),
            ret_ty: opt_type_model(f.ret_ty),
            default: opt_block_model(f.default),
        },
        TraitItem::Type(t) => TraitItemM::Type { id: t.id, span: t.span, name: t.name@ },
        TraitItem::Const(c) => TraitItemM::Const { id: c.id, span: c.span, name: c.name@, ty: type_model(c.ty) },
    }
}

pub open spec fn trait_items_model(s: Seq<TraitItem>) -> Seq<TraitItemM> {
    s.map_values(|i: TraitItem| trait_item_model(i))
}

/// The texts of a sequence of names.
pub open spec fn names_model(s: Seq<String>) -> Seq<Seq<char>> {
    s.map_values(|x: String| x@)
}

/// The model of a use tree.
pub open spec fn use_tree_model(u: UseTree) -> UseTreeM
    decreases u,
{
    match u {
        UseTree::Simple { segments, alias } => UseTreeM::Simple {
            segments: names_model(segments@),
            alias: match alias {
                Some(a) => Some(a@),
                None => None,
            },
        },
        UseTree::Glob { segments } => UseTreeM::Glob { segments: names_model(segments@) },
        UseTree::Nested { segments, items } => UseTreeM::Nested {
            segments: names_model(segments@),
            items: use_trees_model(items@),
        },
    }
}

/// The models of a sequence of use trees, in order.
pub open spec fn use_trees_model(s: Seq<UseTree>) -> Seq<UseTreeM>
    decreases s,
{
    if s.len() == 0 {
        Seq::empty()
    } else {
        use_trees_model(s.drop_last()).push(use_tree_model(s.last()))
    }
}

/// The model of an item.
pub open spec fn item_model(i: Item) -> ItemM
    decreases i,
{
    match i {
        Item::Fn(f) => ItemM::Fn {
            id: f.id,
            span: f.span,
            name: f.name@,
            params: params_model(f.params@),
            ret_ty: opt_type_model(f.ret_ty),
            body: block_model(f.body),
            is_const: f.is_const,
            is_unsafe: f.is_unsafe,
            extern_abi: match f.extern_abi {
                Some(a) => Some(a@),
                None => None,
            },
            generics: opt_generics_model(f.generics),
        },
        Item::Struct(d) => ItemM::Struct {
            id: d.id,
            span: d.span,
            name: d.name@,
            generics: opt_generics_model(d.generics),
            fields: fields_model(d.fields@),
            kind: d.kind,
        },
        Item::Enum(d) => ItemM::Enum {
            id: d.id,
            span: d.span,
            name: d.name@,
            generics: opt_generics_model(d.generics),
            variants: variants_model(d.variants@),
        },
        Item::Impl(d) => ItemM::Impl(d),
        Item::Trait(d) => ItemM::Trait {
            id: d.id,
            span: d.span,
            name: d.name@,
            generics: opt_generics_model(d.generics),
            supertraits: bounds_model(d.supertraits@),
            items: trait_items_model(d.items@),
        },
        Item::Mod(d) => ItemM::Mod {
            id: d.id,
            span: d.span,
            name: d.name@,
            kind: match d.kind {
                ModKind::External => ModKindM::External,
                ModKind::Inline(items) => ModKindM::Inline(items_model(items@)),
            },
        },
        Item::Use(d) => ItemM::Use { id: d.id, span: d.span, is_pub: d.is_pub, tree: use_tree_model(d.tree) },
        Item::Const(d) => ItemM::Const { id: d.id, span: d.span, name: d.name@, ty: type_model(d.ty), value: expr_model(d.value) },
        Item::Static(d) => ItemM::Static {
            id: d.id,
            span: d.span,
            name: d.name@,
            ty: type_model(d.ty),
            value: expr_model(d.value),
            is_mut: d.is_mut,
        },
        Item::TypeAlias(d) => ItemM::TypeAlias {
            id: d.id,
            span: d.span,
            name: d.name@,
            generics: opt_generics_model(d.generics),
            ty: type_model(d.ty),
        },
    }
}

/// The models of a sequence of items, in order.
pub open spec fn items_model(s: Seq<Item>) -> Seq<ItemM>
    decreases s,
{
    if s.len() == 0 {
        Seq::empty()
    } else {
        items_model(s.drop_last()).push(item_model(s.last()))
    }
}

/// Mapping over a sequence with one more element appends the image of it.
pub proof fn lemma_map_push<A, B>(s: Seq<A>, x: A, f: spec_fn(A) -> B)
    ensures
        s.push(x).map_values(f) == s.map_values(f).push(f(x)),
{
    assert(s.push(x).map_values(f) =~= s.map_values(f).push(f(x)));
}

/// Appending to a sequence of items appends to its models.
pub proof fn lemma_items_model_push(s: Seq<Item>, i: Item)
    ensures
        items_model(s.push(i)) == items_model(s).push(item_model(i)),
{
    assert(s.push(i).drop_last() =~= s);
}

/// Appending to a sequence of use trees appends to its models.
pub proof fn lemma_use_trees_model_push(s: Seq<UseTree>, u: UseTree)
    ensures
        use_trees_model(s.push(u)) == use_trees_model(s).push(use_tree_model(u)),
{
    assert(s.push(u).drop_last() =~= s);
}

/// Appending to a sequence of expressions appends to its models.
pub proof fn lemma_exprs_model_push(s: Seq<Expr>, e: Expr)
    ensures
        exprs_model(s.push(e)) == exprs_model(s).push(expr_model(e)),
{
    assert(s.push(e).drop_last() =~= s);
}

/// Appending to a sequence of statements appends to its models.
pub proof fn lemma_stmts_model_push(s: Seq<Stmt>, st: Stmt)
    ensures
        stmts_model(s.push(st)) == stmts_model(s).push(stmt_model(st)),
{
    assert(s.push(st).drop_last() =~= s);
}

/// Appending to a sequence of types appends to its models.
pub proof fn lemma_types_model_push(s: Seq<Type>, t: Type)
    ensures
        types_model(s.push(t)) == types_model(s).push(type_model(t)),
{
    assert(s.push(t).drop_last() =~= s);
}

/// The model keeps the span of an expression.
pub proof fn lemma_expr_model_span(e: Expr)
    ensures
        expr_m_span(expr_model(e)) == e.node_span(),
{
}

} // verus!
