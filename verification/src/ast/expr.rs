use vstd::prelude::*;

use crate::ast::stmt::Stmt;
use crate::ast::NodeId;
use crate::lexer::token::{FloatSuffix, IntSuffix};
use crate::span::Span;

verus! {

/// An integer literal with its suffix.
#[derive(Debug, Clone)]
pub struct IntLit {
    pub id: NodeId,
    pub span: Span,
    pub value: u64,
    pub suffix: IntSuffix,
}

/// A float literal; `value` holds the IEEE-754 bits of its `f64` value.
#[derive(Debug, Clone)]
pub struct FloatLit {
    pub id: NodeId,
    pub span: Span,
    pub value: u64,
    pub suffix: FloatSuffix,
}

/// A character literal.
#[derive(Debug, Clone)]
pub struct CharLit {
    pub id: NodeId,
    pub span: Span,
    pub value: char,
}

/// A string literal (plain or raw), escapes already decoded.
#[derive(Debug, Clone)]
pub struct StrLit {
    pub id: NodeId,
    pub span: Span,
    pub value: String,
}

/// `true` or `false`.
#[derive(Debug, Clone)]
pub struct BoolLit {
    pub id: NodeId,
    pub span: Span,
    pub value: bool,
}

/// A path such as `a::b::<T>`.
#[derive(Debug, Clone)]
pub struct Path {
    pub id: NodeId,
    pub span: Span,
    pub segments: Vec<PathSegment>,
}

/// One segment of a path and the generic arguments written on it.
#[derive(Debug, Clone)]
pub struct PathSegment {
    pub ident: String,
    pub generic_args: Vec<GenericArg>,
}

/// A generic argument; its contents are not recorded yet.
#[derive(Debug, Clone)]
pub enum GenericArg {
    Placeholder,
}

/// `()` or `(a, b, ...)`.
#[derive(Debug)]
pub struct TupleLit {
    pub id: NodeId,
    pub span: Span,
    pub elems: Vec<Expr>,
}

/// `[a, b, ...]`.
#[derive(Debug)]
pub struct ArrayLit {
    pub id: NodeId,
    pub span: Span,
    pub elems: Vec<Expr>,
}

/// `[value; count]`.
#[derive(Debug)]
pub struct ArrayRepeat {
    pub id: NodeId,
    pub span: Span,
    pub value: Box<Expr>,
    pub count: Box<Expr>,
}

/// `{ stmts tail }`: the value of the block is its tail expression, if any.
#[derive(Debug)]
pub struct Block {
    pub id: NodeId,
    pub span: Span,
    pub stmts: Vec<Stmt>,
    pub tail: Option<Box<Expr>>,
}

/// `if cond then else else_branch`; `else_branch` is a block or another `if`.
#[derive(Debug)]
pub struct If {
    pub id: NodeId,
    pub span: Span,
    pub cond: Box<Expr>,
    pub then: Box<Expr>,
    pub else_branch: Option<Box<Expr>>,
}

/// `start..end` or `start..=end`, each bound optional.
#[derive(Debug)]
pub struct Range {
    pub id: NodeId,
    pub span: Span,
    pub start: Option<Box<Expr>>,
    pub end: Option<Box<Expr>>,
    pub inclusive: bool,
}

/// The binary operators, assignments included.
#[derive(Debug, Clone, Copy, PartialEq, Eq, Structural)]
pub enum BinaryOp {
    Assign,
    AddAssign,
    SubAssign,
    MulAssign,
    DivAssign,
    RemAssign,
    Or,
    And,
    Eq,
    Ne,
    Lt,
    Gt,
    Le,
    Ge,
    BitOr,
    BitXor,
    BitAnd,
    Shl,
    Shr,
    Add,
    Sub,
    Mul,
    Div,
    Rem,
}

/// `lhs op rhs`.
#[derive(Debug)]
pub struct Binary {
    pub id: NodeId,
    pub span: Span,
    pub op: BinaryOp,
    pub lhs: Box<Expr>,
    pub rhs: Box<Expr>,
}

/// The prefix operators `-`, `not`, `*`, `&` and `&mut`.
#[derive(Debug, Clone, Copy, PartialEq, Eq, Structural)]
pub enum UnaryOp {
    Neg,
    Not,
    Deref,
    Ref,
    RefMut,
}

/// `op operand`.
#[derive(Debug)]
pub struct Unary {
    pub id: NodeId,
    pub span: Span,
    pub op: UnaryOp,
    pub operand: Box<Expr>,
}

/// The target type of a cast; not recorded yet.
#[derive(Debug, Clone)]
pub enum CastTy {
    Placeholder,
}

/// `expr as ty`.
#[derive(Debug)]
pub struct Cast {
    pub id: NodeId,
    pub span: Span,
    pub expr: Box<Expr>,
    pub ty: Box<CastTy>,
}

/// `callee(args)`.
#[derive(Debug)]
pub struct Call {
    pub id: NodeId,
    pub span: Span,
    pub callee: Box<Expr>,
    pub args: Vec<Expr>,
}

/// `receiver.method(args)`.
#[derive(Debug)]
pub struct MethodCall {
    pub id: NodeId,
    pub span: Span,
    pub receiver: Box<Expr>,
    pub method: String,
    pub args: Vec<Expr>,
    pub generic_args: Vec<GenericArg>,
}

/// `receiver.name`.
#[derive(Debug)]
pub struct FieldAccess {
    pub id: NodeId,
    pub span: Span,
    pub receiver: Box<Expr>,
    pub name: String,
}

/// `receiver.idx` with a numeric index.
#[derive(Debug)]
pub struct TupleFieldAccess {
    pub id: NodeId,
    pub span: Span,
    pub receiver: Box<Expr>,
    pub idx: u32,
}

/// `receiver[idx]`.
#[derive(Debug)]
pub struct Index {
    pub id: NodeId,
    pub span: Span,
    pub receiver: Box<Expr>,
    pub idx: Box<Expr>,
}

/// `expr?`.
#[derive(Debug)]
pub struct Try {
    pub id: NodeId,
    pub span: Span,
    pub expr: Box<Expr>,
}

/// A closure parameter; its pattern and type are not recorded yet.
#[derive(Debug, Clone)]
pub enum ClosureParam {
    Placeholder,
}

/// `move |params| body`.
#[derive(Debug)]
pub struct Closure {
    pub id: NodeId,
    pub span: Span,
    pub params: Vec<ClosureParam>,
    pub body: Box<Expr>,
    pub move_kw: bool,
}

/// An expression.  `Error` stands where a malformed expression was skipped.
#[derive(Debug)]
pub enum Expr {
    IntLit(IntLit),
    FloatLit(FloatLit),
    CharLit(CharLit),
    StrLit(StrLit),
    BoolLit(BoolLit),
    Path(Path),
    TupleLit(TupleLit),
    ArrayLit(ArrayLit),
    ArrayRepeat(ArrayRepeat),
    Block(Block),
    If(If),
    Range(Range),
    Binary(Binary),
    Unary(Unary),
    Cast(Cast),
    Call(Call),
    MethodCall(MethodCall),
    Field(FieldAccess),
    TupleField(TupleFieldAccess),
    Index(Index),
    Try(Try),
    Closure(Closure),
    Error(NodeId, Span),
}

impl Expr {
    /// The id stored in the node.
    pub open spec fn node_id(&self) -> NodeId {
        match self {
            Expr::IntLit(e) => e.id,
            Expr::FloatLit(e) => e.id,
            Expr::CharLit(e) => e.id,
            Expr::StrLit(e) => e.id,
            Expr::BoolLit(e) => e.id,
            Expr::Path(e) => e.id,
            Expr::TupleLit(e) => e.id,
            Expr::ArrayLit(e) => e.id,
            Expr::ArrayRepeat(e) => e.id,
            Expr::Block(e) => e.id,
            Expr::If(e) => e.id,
            Expr::Range(e) => e.id,
            Expr::Binary(e) => e.id,
            Expr::Unary(e) => e.id,
            Expr::Cast(e) => e.id,
            Expr::Call(e) => e.id,
            Expr::MethodCall(e) => e.id,
            Expr::Field(e) => e.id,
            Expr::TupleField(e) => e.id,
            Expr::Index(e) => e.id,
            Expr::Try(e) => e.id,
            Expr::Closure(e) => e.id,
            Expr::Error(id, _) => *id,
        }
    }

    /// The span stored in the node.
    pub open spec fn node_span(&self) -> Span {
        match self {
            Expr::IntLit(e) => e.span,
            Expr::FloatLit(e) => e.span,
            Expr::CharLit(e) => e.span,
            Expr::StrLit(e) => e.span,
            Expr::BoolLit(e) => e.span,
            Expr::Path(e) => e.span,
            Expr::TupleLit(e) => e.span,
            Expr::ArrayLit(e) => e.span,
            Expr::ArrayRepeat(e) => e.span,
            Expr::Block(e) => e.span,
            Expr::If(e) => e.span,
            Expr::Range(e) => e.span,
            Expr::Binary(e) => e.span,
            Expr::Unary(e) => e.span,
            Expr::Cast(e) => e.span,
            Expr::Call(e) => e.span,
            Expr::MethodCall(e) => e.span,
            Expr::Field(e) => e.span,
            Expr::TupleField(e) => e.span,
            Expr::Index(e) => e.span,
            Expr::Try(e) => e.span,
            Expr::Closure(e) => e.span,
            Expr::Error(_, span) => *span,
        }
    }

    pub fn id(&self) -> (r: NodeId)
        ensures
            r == self.node_id(),
    {
        match self {
            Expr::IntLit(e) => e.id,
            Expr::FloatLit(e) => e.id,
            Expr::CharLit(e) => e.id,
            Expr::StrLit(e) => e.id,
            Expr::BoolLit(e) => e.id,
            Expr::Path(e) => e.id,
            Expr::TupleLit(e) => e.id,
            Expr::ArrayLit(e) => e.id,
            Expr::ArrayRepeat(e) => e.id,
            Expr::Block(e) => e.id,
            Expr::If(e) => e.id,
            Expr::Range(e) => e.id,
            Expr::Binary(e) => e.id,
            Expr::Unary(e) => e.id,
            Expr::Cast(e) => e.id,
            Expr::Call(e) => e.id,
            Expr::MethodCall(e) => e.id,
            Expr::Field(e) => e.id,
            Expr::TupleField(e) => e.id,
            Expr::Index(e) => e.id,
            Expr::Try(e) => e.id,
            Expr::Closure(e) => e.id,
            Expr::Error(id, _) => *id,
        }
    }

    pub fn span(&self) -> (r: Span)
        ensures
            r == self.node_span(),
    {
        match self {
            Expr::IntLit(e) => e.span,
            Expr::FloatLit(e) => e.span,
            Expr::CharLit(e) => e.span,
            Expr::StrLit(e) => e.span,
            Expr::BoolLit(e) => e.span,
            Expr::Path(e) => e.span,
            Expr::TupleLit(e) => e.span,
            Expr::ArrayLit(e) => e.span,
            Expr::ArrayRepeat(e) => e.span,
            Expr::Block(e) => e.span,
            Expr::If(e) => e.span,
            Expr::Range(e) => e.span,
            Expr::Binary(e) => e.span,
            Expr::Unary(e) => e.span,
            Expr::Cast(e) => e.span,
            Expr::Call(e) => e.span,
            Expr::MethodCall(e) => e.span,
            Expr::Field(e) => e.span,
            Expr::TupleField(e) => e.span,
            Expr::Index(e) => e.span,
            Expr::Try(e) => e.span,
            Expr::Closure(e) => e.span,
            Expr::Error(_, span) => *span,
        }
    }
}

} // verus!
