#![allow(unused_imports, dead_code)]

use vertex_stage0::ast::expr::{Binary, BinaryOp, Block, CastTy, ClosureParam, Expr, UnaryOp};
use vertex_stage0::ast::item::{
    ConstDef, EnumDef, FnDef, Item, ModDef, ModKind, StaticDef, StructDef, StructKind, TraitDef,
    TraitItem, TypeAliasDef, UseDef, UseTree, VariantKind,
};
use vertex_stage0::ast::stmt::Stmt;
use vertex_stage0::ast::ty::Type;
use vertex_stage0::error::{ErrorCode, ErrorKind};
use vertex_stage0::lexer::token::{FloatSuffix, IntSuffix, Token, TokenKind};
use vertex_stage0::parser::Parser;
use vertex_stage0::span::{FileId, Span};

fn tok(kind: TokenKind) -> Token {
    Token::new(kind, Span::new(FileId(0), 0, 0))
}

fn ident_tok(s: &str) -> Token {
    tok(TokenKind::Ident(s.to_string()))
}

fn assert_path_ident(ty: &Type, expected: &str) {
    match ty {
        Type::Path(p) => {
            assert_eq!(p.segments.len(), 1, "expected single-segment path");
            assert!(
                p.segments[0].generic_args.is_empty(),
                "expected no generic args",
            );
            assert_eq!(p.segments[0].ident, expected);
        }
        other => panic!("expected Type::Path, got {:?}", other),
    }
}

#[test]
fn ref_types() {
    // &i32
    let mut p = Parser::new(vec![
        tok(TokenKind::Amp),
        ident_tok("i32"),
        tok(TokenKind::Eof),
    ]);
    let ty = p.parse_type().expect("parse_type &i32");
    match ty {
        Type::Ref { mutable, ty, .. } => {
            assert!(!mutable);
            assert_path_ident(&ty, "i32");
        }
        other => panic!("expected Type::Ref, got {:?}", other),
    }
    assert!(p.errors.is_empty());
    assert!(matches!(p.peek(), TokenKind::Eof));

    // &mut i32
    let mut p = Parser::new(vec![
        tok(TokenKind::Amp),
        tok(TokenKind::Mut),
        ident_tok("i32"),
        tok(TokenKind::Eof),
    ]);
    let ty = p.parse_type().expect("parse_type &mut i32");
    match ty {
        Type::Ref { mutable, ty, .. } => {
            assert!(mutable);
            assert_path_ident(&ty, "i32");
        }
        other => panic!("expected Type::Ref, got {:?}", other),
    }
    assert!(p.errors.is_empty());
    assert!(matches!(p.peek(), TokenKind::Eof));

    // &&i32
    let mut p = Parser::new(vec![
        tok(TokenKind::Amp),
        tok(TokenKind::Amp),
        ident_tok("i32"),
        tok(TokenKind::Eof),
    ]);
    let ty = p.parse_type().expect("parse_type &&i32");
    match ty {
        Type::Ref { mutable, ty, .. } => {
            assert!(!mutable);
            match *ty {
                Type::Ref {
                    mutable: inner_mut,
                    ty: inner_ty,
                    ..
                } => {
                    assert!(!inner_mut);
                    assert_path_ident(&inner_ty, "i32");
                }
                other => panic!("expected inner Type::Ref, got {:?}", other),
            }
        }
        other => panic!("expected outer Type::Ref, got {:?}", other),
    }
    assert!(p.errors.is_empty());
    assert!(matches!(p.peek(), TokenKind::Eof));
}

#[test]
fn raw_ptr_types() {
    // *const i32
    let mut p = Parser::new(vec![
        tok(TokenKind::Star),
        tok(TokenKind::Const),
        ident_tok("i32"),
        tok(TokenKind::Eof),
    ]);
    let ty = p.parse_type().expect("parse_type *const i32");
    match ty {
        Type::Ptr { mutable, ty } => {
            assert!(!mutable);
            assert_path_ident(&ty, "i32");
        }
        other => panic!("expected Type::Ptr, got {:?}", other),
    }
    assert!(p.errors.is_empty());
    assert!(matches!(p.peek(), TokenKind::Eof));

    // *mut i32
    let mut p = Parser::new(vec![
        tok(TokenKind::Star),
        tok(TokenKind::Mut),
        ident_tok("i32"),
        tok(TokenKind::Eof),
    ]);
    let ty = p.parse_type().expect("parse_type *mut i32");
    match ty {
        Type::Ptr { mutable, ty } => {
            assert!(mutable);
            assert_path_ident(&ty, "i32");
        }
        other => panic!("expected Type::Ptr, got {:?}", other),
    }
    assert!(p.errors.is_empty());
    assert!(matches!(p.peek(), TokenKind::Eof));

    // *const *mut i32
    let mut p = Parser::new(vec![
        tok(TokenKind::Star),
        tok(TokenKind::Const),
        tok(TokenKind::Star),
        tok(TokenKind::Mut),
        ident_tok("i32"),
        tok(TokenKind::Eof),
    ]);
    let ty = p.parse_type().expect("parse_type *const *mut i32");
    match ty {
        Type::Ptr { mutable, ty } => {
            assert!(!mutable);
            match *ty {
                Type::Ptr {
                    mutable: inner_mut,
                    ty: inner_ty,
                } => {
                    assert!(inner_mut);
                    assert_path_ident(&inner_ty, "i32");
                }
                other => panic!("expected inner Type::Ptr, got {:?}", other),
            }
        }
        other => panic!("expected outer Type::Ptr, got {:?}", other),
    }
    assert!(p.errors.is_empty());
    assert!(matches!(p.peek(), TokenKind::Eof));
}

#[test]
fn slice_and_array_types() {
    // &[i32]
    let mut p = Parser::new(vec![
        tok(TokenKind::Amp),
        tok(TokenKind::LBracket),
        ident_tok("i32"),
        tok(TokenKind::RBracket),
        tok(TokenKind::Eof),
    ]);
    let ty = p.parse_type().expect("parse_type &[i32]");
    match ty {
        Type::Ref { mutable, ty, .. } => {
            assert!(!mutable);
            match *ty {
                Type::Slice { elem } => {
                    assert_path_ident(&elem, "i32");
                }
                other => panic!("expected Type::Slice, got {:?}", other),
            }
        }
        other => panic!("expected Type::Ref, got {:?}", other),
    }
    assert!(p.errors.is_empty());
    assert!(matches!(p.peek(), TokenKind::Eof));

    // [i32; 4]
    let mut p = Parser::new(vec![
        tok(TokenKind::LBracket),
        ident_tok("i32"),
        tok(TokenKind::Semi),
        tok(TokenKind::IntLiteral(4, IntSuffix::Unsuffixed)),
        tok(TokenKind::RBracket),
        tok(TokenKind::Eof),
    ]);
    let ty = p.parse_type().expect("parse_type [i32; 4]");
    match ty {
        Type::Array { elem, len } => {
            assert_path_ident(&elem, "i32");
            match *len {
                Expr::IntLit(lit) => {
                    assert_eq!(lit.value, 4);
                }
                other => panic!("expected Expr::IntLit, got {:?}", other),
            }
        }
        other => panic!("expected Type::Array, got {:?}", other),
    }
    assert!(p.errors.is_empty());
    assert!(matches!(p.peek(), TokenKind::Eof));
}

#[test]
fn tuple_types() {
    // ()
    let mut p = Parser::new(vec![
        tok(TokenKind::LParen),
        tok(TokenKind::RParen),
        tok(TokenKind::Eof),
    ]);
    let ty = p.parse_type().expect("parse_type ()");
    match ty {
        Type::Tuple(elems) => {
            assert!(elems.is_empty(), "expected empty tuple");
        }
        other => panic!("expected Type::Tuple, got {:?}", other),
    }
    assert!(p.errors.is_empty());
    assert!(matches!(p.peek(), TokenKind::Eof));

    // (i32, u8, bool)
    let mut p = Parser::new(vec![
        tok(TokenKind::LParen),
        ident_tok("i32"),
        tok(TokenKind::Comma),
        ident_tok("u8"),
        tok(TokenKind::Comma),
        ident_tok("bool"),
        tok(TokenKind::RParen),
        tok(TokenKind::Eof),
    ]);
    let ty = p.parse_type().expect("parse_type (i32, u8, bool)");
    match ty {
        Type::Tuple(elems) => {
            assert_eq!(elems.len(), 3);
            assert_path_ident(&elems[0], "i32");
            assert_path_ident(&elems[1], "u8");
            assert_path_ident(&elems[2], "bool");
        }
        other => panic!("expected Type::Tuple, got {:?}", other),
    }
    assert!(p.errors.is_empty());
    assert!(matches!(p.peek(), TokenKind::Eof));

    // (i32) -- grouping, not a tuple
    let mut p = Parser::new(vec![
        tok(TokenKind::LParen),
        ident_tok("i32"),
        tok(TokenKind::RParen),
        tok(TokenKind::Eof),
    ]);
    let ty = p.parse_type().expect("parse_type (i32)");
    assert_path_ident(&ty, "i32");
    assert!(p.errors.is_empty());
    assert!(matches!(p.peek(), TokenKind::Eof));
}
