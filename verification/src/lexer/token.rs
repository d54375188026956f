use vstd::prelude::*;

use crate::span::Span;

verus! {

/// The integer type a literal's suffix names.
#[derive(Debug, Clone, Copy, PartialEq, Eq, Hash, Structural)]
pub enum IntSuffix {
    I8,
    I16,
    I32,
    I64,
    ISize,
    U8,
    U16,
    U32,
    U64,
    USize,
    Unsuffixed,
}

/// The float type a literal's suffix names.
#[derive(Debug, Clone, Copy, PartialEq, Eq, Hash, Structural)]
pub enum FloatSuffix {
    F32,
    F64,
    Unsuffixed,
}

/// The kind of a token, with the payload of literals and identifiers.
#[derive(Debug, Clone, PartialEq)]
pub enum TokenKind {
    Break,
    Const,
    Continue,
    Else,
    Enum,
    Extern,
    False,
    Fn,
    For,
    If,
    Impl,
    In,
    Let,
    Loop,
    Match,
    Mod,
    Mut,
    Not,
    Or,
    Pub,
    Return,
    Static,
    SelfLower,
    SelfUpper,
    Struct,
    Trait,
    True,
    Type,
    Unsafe,
    Use,
    Where,
    While,
    And,
    IntLiteral(u64, IntSuffix),
    /// The IEEE-754 bit pattern of the literal's `f64` value.
    FloatLiteral(u64, FloatSuffix),
    CharLiteral(char),
    StringLiteral(String),
    RawStringLiteral(String),
    /// A doc comment: its text, and whether it documents the enclosing item.
    DocComment(String, bool),
    Ident(String),
    Plus,
    Minus,
    Star,
    Slash,
    Percent,
    EqEq,
    BangEq,
    Lt,
    Gt,
    Le,
    Ge,
    Amp,
    Pipe,
    Caret,
    Tilde,
    Shl,
    Shr,
    Eq,
    PlusEq,
    MinusEq,
    StarEq,
    SlashEq,
    PercentEq,
    Dot,
    ColonColon,
    LBracket,
    RBracket,
    LParen,
    RParen,
    LBrace,
    RBrace,
    Question,
    DotDot,
    DotDotEq,
    Arrow,
    FatArrow,
    Semi,
    Comma,
    Colon,
    Underscore,
    Eof,
    Error(String),
}

/// The variant of a token kind, payload ignored: two kinds have the same
/// tag exactly when they are the same variant.
pub open spec fn kind_tag(k: TokenKind) -> int {
    match k {
        TokenKind::Break => 0,
        TokenKind::Const => 1,
        TokenKind::Continue => 2,
        TokenKind::Else => 3,
        TokenKind::Enum => 4,
        TokenKind::Extern => 5,
        TokenKind::False => 6,
        TokenKind::Fn => 7,
        TokenKind::For => 8,
        TokenKind::If => 9,
        TokenKind::Impl => 10,
        TokenKind::In => 11,
        TokenKind::Let => 12,
        TokenKind::Loop => 13,
        TokenKind::Match => 14,
        TokenKind::Mod => 15,
        TokenKind::Mut => 16,
        TokenKind::Not => 17,
        TokenKind::Or => 18,
        TokenKind::Pub => 19,
        TokenKind::Return => 20,
        TokenKind::Static => 21,
        TokenKind::SelfLower => 22,
        TokenKind::SelfUpper => 23,
        TokenKind::Struct => 24,
        TokenKind::Trait => 25,
        TokenKind::True => 26,
        TokenKind::Type => 27,
        TokenKind::Unsafe => 28,
        TokenKind::Use => 29,
        TokenKind::Where => 30,
        TokenKind::While => 31,
        TokenKind::And => 32,
        TokenKind::IntLiteral(..) => 33,
        TokenKind::FloatLiteral(..) => 34,
        TokenKind::CharLiteral(..) => 35,
        TokenKind::StringLiteral(..) => 36,
        TokenKind::RawStringLiteral(..) => 37,
        TokenKind::DocComment(..) => 38,
        TokenKind::Ident(..) => 39,
        TokenKind::Plus => 40,
        TokenKind::Minus => 41,
        TokenKind::Star => 42,
        TokenKind::Slash => 43,
        TokenKind::Percent => 44,
        TokenKind::EqEq => 45,
        TokenKind::BangEq => 46,
        TokenKind::Lt => 47,
        TokenKind::Gt => 48,
        TokenKind::Le => 49,
        TokenKind::Ge => 50,
        TokenKind::Amp => 51,
        TokenKind::Pipe => 52,
        TokenKind::Caret => 53,
        TokenKind::Tilde => 54,
        TokenKind::Shl => 55,
        TokenKind::Shr => 56,
        TokenKind::Eq => 57,
        TokenKind::PlusEq => 58,
        TokenKind::MinusEq => 59,
        TokenKind::StarEq => 60,
        TokenKind::SlashEq => 61,
        TokenKind::PercentEq => 62,
        TokenKind::Dot => 63,
        TokenKind::ColonColon => 64,
        TokenKind::LBracket => 65,
        TokenKind::RBracket => 66,
        TokenKind::LParen => 67,
        TokenKind::RParen => 68,
        TokenKind::LBrace => 69,
        TokenKind::RBrace => 70,
        TokenKind::Question => 71,
        TokenKind::DotDot => 72,
        TokenKind::DotDotEq => 73,
        TokenKind::Arrow => 74,
        TokenKind::FatArrow => 75,
        TokenKind::Semi => 76,
        TokenKind::Comma => 77,
        TokenKind::Colon => 78,
        TokenKind::Underscore => 79,
        TokenKind::Eof => 80,
        TokenKind::Error(..) => 81,
    }
}

impl TokenKind {
    /// The variant number of this kind (see [`kind_tag`]).
    pub fn tag(&self) -> (t: u8)
        ensures
            t as int == kind_tag(*self),
    {
        match self {
            TokenKind::Break => 0,
            TokenKind::Const => 1,
            TokenKind::Continue => 2,
            TokenKind::Else => 3,
            TokenKind::Enum => 4,
            TokenKind::Extern => 5,
            TokenKind::False => 6,
            TokenKind::Fn => 7,
            TokenKind::For => 8,
            TokenKind::If => 9,
            TokenKind::Impl => 10,
            TokenKind::In => 11,
            TokenKind::Let => 12,
            TokenKind::Loop => 13,
            TokenKind::Match => 14,
            TokenKind::Mod => 15,
            TokenKind::Mut => 16,
            TokenKind::Not => 17,
            TokenKind::Or => 18,
            TokenKind::Pub => 19,
            TokenKind::Return => 20,
            TokenKind::Static => 21,
            TokenKind::SelfLower => 22,
            TokenKind::SelfUpper => 23,
            TokenKind::Struct => 24,
            TokenKind::Trait => 25,
            TokenKind::True => 26,
            TokenKind::Type => 27,
            TokenKind::Unsafe => 28,
            TokenKind::Use => 29,
            TokenKind::Where => 30,
            TokenKind::While => 31,
            TokenKind::And => 32,
            TokenKind::IntLiteral(..) => 33,
            TokenKind::FloatLiteral(..) => 34,
            TokenKind::CharLiteral(..) => 35,
            TokenKind::StringLiteral(..) => 36,
            TokenKind::RawStringLiteral(..) => 37,
            TokenKind::DocComment(..) => 38,
            TokenKind::Ident(..) => 39,
            TokenKind::Plus => 40,
            TokenKind::Minus => 41,
            TokenKind::Star => 42,
            TokenKind::Slash => 43,
            TokenKind::Percent => 44,
            TokenKind::EqEq => 45,
            TokenKind::BangEq => 46,
            TokenKind::Lt => 47,
            TokenKind::Gt => 48,
            TokenKind::Le => 49,
            TokenKind::Ge => 50,
            TokenKind::Amp => 51,
            TokenKind::Pipe => 52,
            TokenKind::Caret => 53,
            TokenKind::Tilde => 54,
            TokenKind::Shl => 55,
            TokenKind::Shr => 56,
            TokenKind::Eq => 57,
            TokenKind::PlusEq => 58,
            TokenKind::MinusEq => 59,
            TokenKind::StarEq => 60,
            TokenKind::SlashEq => 61,
            TokenKind::PercentEq => 62,
            TokenKind::Dot => 63,
            TokenKind::ColonColon => 64,
            TokenKind::LBracket => 65,
            TokenKind::RBracket => 66,
            TokenKind::LParen => 67,
            TokenKind::RParen => 68,
            TokenKind::LBrace => 69,
            TokenKind::RBrace => 70,
            TokenKind::Question => 71,
            TokenKind::DotDot => 72,
            TokenKind::DotDotEq => 73,
            TokenKind::Arrow => 74,
            TokenKind::FatArrow => 75,
            TokenKind::Semi => 76,
            TokenKind::Comma => 77,
            TokenKind::Colon => 78,
            TokenKind::Underscore => 79,
            TokenKind::Eof => 80,
            TokenKind::Error(..) => 81,
        }
    }

    /// A copy of this kind, payload included.
    pub fn duplicate(&self) -> (r: TokenKind)
        ensures
            r == *self,
    {
        match self {
            TokenKind::Break => TokenKind::Break,
            TokenKind::Const => TokenKind::Const,
            TokenKind::Continue => TokenKind::Continue,
            TokenKind::Else => TokenKind::Else,
            TokenKind::Enum => TokenKind::Enum,
            TokenKind::Extern => TokenKind::Extern,
            TokenKind::False => TokenKind::False,
            TokenKind::Fn => TokenKind::Fn,
            TokenKind::For => TokenKind::For,
            TokenKind::If => TokenKind::If,
            TokenKind::Impl => TokenKind::Impl,
            TokenKind::In => TokenKind::In,
            TokenKind::Let => TokenKind::Let,
            TokenKind::Loop => TokenKind::Loop,
            TokenKind::Match => TokenKind::Match,
            TokenKind::Mod => TokenKind::Mod,
            TokenKind::Mut => TokenKind::Mut,
            TokenKind::Not => TokenKind::Not,
            TokenKind::Or => TokenKind::Or,
            TokenKind::Pub => TokenKind::Pub,
            TokenKind::Return => TokenKind::Return,
            TokenKind::Static => TokenKind::Static,
            TokenKind::SelfLower => TokenKind::SelfLower,
            TokenKind::SelfUpper => TokenKind::SelfUpper,
            TokenKind::Struct => TokenKind::Struct,
            TokenKind::Trait => TokenKind::Trait,
            TokenKind::True => TokenKind::True,
            TokenKind::Type => TokenKind::Type,
            TokenKind::Unsafe => TokenKind::Unsafe,
            TokenKind::Use => TokenKind::Use,
            TokenKind::Where => TokenKind::Where,
            TokenKind::While => TokenKind::While,
            TokenKind::And => TokenKind::And,
            TokenKind::IntLiteral(a0, a1) => TokenKind::IntLiteral(*a0, *a1),
            TokenKind::FloatLiteral(a0, a1) => TokenKind::FloatLiteral(*a0, *a1),
            TokenKind::CharLiteral(a0) => TokenKind::CharLiteral(*a0),
            TokenKind::StringLiteral(a0) => TokenKind::StringLiteral(a0.clone()),
            TokenKind::RawStringLiteral(a0) => TokenKind::RawStringLiteral(a0.clone()),
            TokenKind::DocComment(a0, a1) => TokenKind::DocComment(a0.clone(), *a1),
            TokenKind::Ident(a0) => TokenKind::Ident(a0.clone()),
            TokenKind::Plus => TokenKind::Plus,
            TokenKind::Minus => TokenKind::Minus,
            TokenKind::Star => TokenKind::Star,
            TokenKind::Slash => TokenKind::Slash,
            TokenKind::Percent => TokenKind::Percent,
            TokenKind::EqEq => TokenKind::EqEq,
            TokenKind::BangEq => TokenKind::BangEq,
            TokenKind::Lt => TokenKind::Lt,
            TokenKind::Gt => TokenKind::Gt,
            TokenKind::Le => TokenKind::Le,
            TokenKind::Ge => TokenKind::Ge,
            TokenKind::Amp => TokenKind::Amp,
            TokenKind::Pipe => TokenKind::Pipe,
            TokenKind::Caret => TokenKind::Caret,
            TokenKind::Tilde => TokenKind::Tilde,
            TokenKind::Shl => TokenKind::Shl,
            TokenKind::Shr => TokenKind::Shr,
            TokenKind::Eq => TokenKind::Eq,
            TokenKind::PlusEq => TokenKind::PlusEq,
            TokenKind::MinusEq => TokenKind::MinusEq,
            TokenKind::StarEq => TokenKind::StarEq,
            TokenKind::SlashEq => TokenKind::SlashEq,
            TokenKind::PercentEq => TokenKind::PercentEq,
            TokenKind::Dot => TokenKind::Dot,
            TokenKind::ColonColon => TokenKind::ColonColon,
            TokenKind::LBracket => TokenKind::LBracket,
            TokenKind::RBracket => TokenKind::RBracket,
            TokenKind::LParen => TokenKind::LParen,
            TokenKind::RParen => TokenKind::RParen,
            TokenKind::LBrace => TokenKind::LBrace,
            TokenKind::RBrace => TokenKind::RBrace,
            TokenKind::Question => TokenKind::Question,
            TokenKind::DotDot => TokenKind::DotDot,
            TokenKind::DotDotEq => TokenKind::DotDotEq,
            TokenKind::Arrow => TokenKind::Arrow,
            TokenKind::FatArrow => TokenKind::FatArrow,
            TokenKind::Semi => TokenKind::Semi,
            TokenKind::Comma => TokenKind::Comma,
            TokenKind::Colon => TokenKind::Colon,
            TokenKind::Underscore => TokenKind::Underscore,
            TokenKind::Eof => TokenKind::Eof,
            TokenKind::Error(a0) => TokenKind::Error(a0.clone()),
        }
    }
}

/// A token and the span it was read from.
#[derive(Debug, Clone)]
pub struct Token {
    pub kind: TokenKind,
    pub span: Span,
}

impl Token {
    pub fn new(kind: TokenKind, span: Span) -> (t: Self)
        ensures
            t.kind == kind,
            t.span == span,
    {
        Token { kind, span }
    }

    /// A copy of this token, payload included.
    pub fn duplicate(&self) -> (r: Token)
        ensures
            r == *self,
    {
        Token { kind: self.kind.duplicate(), span: self.span }
    }
}

} // verus!
