#![allow(unused_imports, dead_code)]

use vertex_stage0::ast::expr::{Binary, BinaryOp, Block, CastTy, ClosureParam, Expr, UnaryOp};
use vertex_stage0::ast::item::{
    ConstDef, EnumDef, FnDef, Item, ModDef, ModKind, StaticDef, StructDef, StructKind, TraitDef,
    TraitItem, TypeAliasDef, UseDef, UseTree, VariantKind,
};
use vertex_stage0::ast::stmt::Stmt;
use vertex_stage0::ast::ty::Type;
use vertex_stage0::error::{ErrorCode, ErrorKind};
use vertex_stage0::lexer::token::{FloatSuffix, IntSuffix, Token, TokenKind};
use vertex_stage0::parser::Parser;
use vertex_stage0::span::{FileId, Span};

fn tok(kind: TokenKind) -> Token {
    Token::new(kind, Span::new(FileId(0), 0, 0))
}

fn ident_tok(s: &str) -> Token {
    tok(TokenKind::Ident(s.to_string()))
}

fn int_tok(v: u64) -> Token {
    tok(TokenKind::IntLiteral(v, IntSuffix::I32))
}

fn as_fn(item: Item) -> FnDef {
    match item {
        Item::Fn(f) => f,
        other => panic!("expected Item::Fn, got {:?}", other),
    }
}

fn type_ident(ty: &Type) -> &str {
    match ty {
        Type::Path(p) => {
            assert_eq!(p.segments.len(), 1, "expected single-segment path type");
            let seg = &p.segments[0];
            assert!(seg.generic_args.is_empty(), "expected no generic args");
            seg.ident.as_str()
        }
        other => panic!("expected Type::Path, got {:?}", other),
    }
}

#[test]
fn plain_fn() {
    // fn f() {}
    let mut p = Parser::new(vec![
        tok(TokenKind::Fn),
        ident_tok("f"),
        tok(TokenKind::LParen),
        tok(TokenKind::RParen),
        tok(TokenKind::LBrace),
        tok(TokenKind::RBrace),
        tok(TokenKind::Eof),
    ]);
    let f = as_fn(p.parse_fn().expect("parse_fn"));
    assert_eq!(f.name, "f");
    assert!(f.params.is_empty());
    assert!(f.ret_ty.is_none());
    assert!(f.body.stmts.is_empty());
    assert!(f.body.tail.is_none());
    assert!(p.errors.is_empty());
    assert!(matches!(p.peek(), TokenKind::Eof));

    // fn k() -> i32 { 1i32 }
    let mut p = Parser::new(vec![
        tok(TokenKind::Fn),
        ident_tok("k"),
        tok(TokenKind::LParen),
        tok(TokenKind::RParen),
        tok(TokenKind::Arrow),
        ident_tok("i32"),
        tok(TokenKind::LBrace),
        int_tok(1),
        tok(TokenKind::RBrace),
        tok(TokenKind::Eof),
    ]);
    let f = as_fn(p.parse_fn().expect("parse_fn"));
    assert_eq!(f.name, "k");
    assert!(f.params.is_empty());
    assert_eq!(type_ident(f.ret_ty.as_ref().expect("ret_ty")), "i32");
    assert!(f.body.stmts.is_empty());
    let tail = f.body.tail.as_ref().expect("tail");
    match tail.as_ref() {
        Expr::IntLit(lit) => assert_eq!(lit.value, 1),
        other => panic!("expected IntLit tail, got {:?}", other),
    }
    assert!(p.errors.is_empty());
    assert!(matches!(p.peek(), TokenKind::Eof));

    // fn add(a: i32, b: i32,) -> i32 { 0i32 }
    let mut p = Parser::new(vec![
        tok(TokenKind::Fn),
        ident_tok("add"),
        tok(TokenKind::LParen),
        ident_tok("a"),
        tok(TokenKind::Colon),
        ident_tok("i32"),
        tok(TokenKind::Comma),
        ident_tok("b"),
        tok(TokenKind::Colon),
        ident_tok("i32"),
        tok(TokenKind::Comma),
        tok(TokenKind::RParen),
        tok(TokenKind::Arrow),
        ident_tok("i32"),
        tok(TokenKind::LBrace),
        int_tok(0),
        tok(TokenKind::RBrace),
        tok(TokenKind::Eof),
    ]);
    let f = as_fn(p.parse_fn().expect("parse_fn"));
    assert_eq!(f.name, "add");
    assert_eq!(f.params.len(), 2);
    assert_eq!(f.params[0].name, "a");
    assert_eq!(type_ident(&f.params[0].ty), "i32");
    assert_eq!(f.params[1].name, "b");
    assert_eq!(type_ident(&f.params[1].ty), "i32");
    assert_eq!(type_ident(f.ret_ty.as_ref().expect("ret_ty")), "i32");
    assert!(f.body.stmts.is_empty());
    let tail = f.body.tail.as_ref().expect("tail");
    match tail.as_ref() {
        Expr::IntLit(lit) => assert_eq!(lit.value, 0),
        other => panic!("expected IntLit tail, got {:?}", other),
    }
    assert!(p.errors.is_empty());
    assert!(matches!(p.peek(), TokenKind::Eof));
}

fn string_tok(s: &str) -> Token {
    tok(TokenKind::StringLiteral(s.to_string()))
}

#[test]
fn fn_modifiers() {
    // const fn f() {}
    let mut p = Parser::new(vec![
        tok(TokenKind::Const),
        tok(TokenKind::Fn),
        ident_tok("f"),
        tok(TokenKind::LParen),
        tok(TokenKind::RParen),
        tok(TokenKind::LBrace),
        tok(TokenKind::RBrace),
        tok(TokenKind::Eof),
    ]);
    let f = as_fn(p.parse_fn().expect("parse_fn"));
    assert_eq!(f.name, "f");
    assert!(f.is_const);
    assert!(!f.is_unsafe);
    assert!(f.extern_abi.is_none());
    assert!(p.errors.is_empty());
    assert!(matches!(p.peek(), TokenKind::Eof));

    // unsafe fn g() {}
    let mut p = Parser::new(vec![
        tok(TokenKind::Unsafe),
        tok(TokenKind::Fn),
        ident_tok("g"),
        tok(TokenKind::LParen),
        tok(TokenKind::RParen),
        tok(TokenKind::LBrace),
        tok(TokenKind::RBrace),
        tok(TokenKind::Eof),
    ]);
    let f = as_fn(p.parse_fn().expect("parse_fn"));
    assert_eq!(f.name, "g");
    assert!(!f.is_const);
    assert!(f.is_unsafe);
    assert!(f.extern_abi.is_none());
    assert!(p.errors.is_empty());
    assert!(matches!(p.peek(), TokenKind::Eof));

    // extern "C" fn h() {}
    let mut p = Parser::new(vec![
        tok(TokenKind::Extern),
        string_tok("C"),
        tok(TokenKind::Fn),
        ident_tok("h"),
        tok(TokenKind::LParen),
        tok(TokenKind::RParen),
        tok(TokenKind::LBrace),
        tok(TokenKind::RBrace),
        tok(TokenKind::Eof),
    ]);
    let f = as_fn(p.parse_fn().expect("parse_fn"));
    assert_eq!(f.name, "h");
    assert!(!f.is_const);
    assert!(!f.is_unsafe);
    assert_eq!(f.extern_abi.as_deref(), Some("C"));
    assert!(p.errors.is_empty());
    assert!(matches!(p.peek(), TokenKind::Eof));

    // extern fn i() {} (bare extern, no ABI literal)
    let mut p = Parser::new(vec![
        tok(TokenKind::Extern),
        tok(TokenKind::Fn),
        ident_tok("i"),
        tok(TokenKind::LParen),
        tok(TokenKind::RParen),
        tok(TokenKind::LBrace),
        tok(TokenKind::RBrace),
        tok(TokenKind::Eof),
    ]);
    let f = as_fn(p.parse_fn().expect("parse_fn"));
    assert_eq!(f.name, "i");
    assert_eq!(f.extern_abi.as_deref(), Some(""));
    assert!(p.errors.is_empty());
    assert!(matches!(p.peek(), TokenKind::Eof));

    // const unsafe extern "C" fn j() {}
    let mut p = Parser::new(vec![
        tok(TokenKind::Const),
        tok(TokenKind::Unsafe),
        tok(TokenKind::Extern),
        string_tok("C"),
        tok(TokenKind::Fn),
        ident_tok("j"),
        tok(TokenKind::LParen),
        tok(TokenKind::RParen),
        tok(TokenKind::LBrace),
        tok(TokenKind::RBrace),
        tok(TokenKind::Eof),
    ]);
    let f = as_fn(p.parse_fn().expect("parse_fn"));
    assert_eq!(f.name, "j");
    assert!(f.is_const);
    assert!(f.is_unsafe);
    assert_eq!(f.extern_abi.as_deref(), Some("C"));
    assert!(p.errors.is_empty());
    assert!(matches!(p.peek(), TokenKind::Eof));

    // unsafe const fn k() {} (any-order acceptance)
    let mut p = Parser::new(vec![
        tok(TokenKind::Unsafe),
        tok(TokenKind::Const),
        tok(TokenKind::Fn),
        ident_tok("k"),
        tok(TokenKind::LParen),
        tok(TokenKind::RParen),
        tok(TokenKind::LBrace),
        tok(TokenKind::RBrace),
        tok(TokenKind::Eof),
    ]);
    let f = as_fn(p.parse_fn().expect("parse_fn"));
    assert_eq!(f.name, "k");
    assert!(f.is_const);
    assert!(f.is_unsafe);
    assert!(f.extern_abi.is_none());
    assert!(p.errors.is_empty());

    // duplicate `const` produces an E0100 error but still parses
    let mut p = Parser::new(vec![
        tok(TokenKind::Const),
        tok(TokenKind::Const),
        tok(TokenKind::Fn),
        ident_tok("dup"),
        tok(TokenKind::LParen),
        tok(TokenKind::RParen),
        tok(TokenKind::LBrace),
        tok(TokenKind::RBrace),
        tok(TokenKind::Eof),
    ]);
    let f = as_fn(p.parse_fn().expect("parse_fn"));
    assert_eq!(f.name, "dup");
    assert!(f.is_const);
    assert_eq!(p.errors.len(), 1);
    let errs = std::mem::take(&mut p.errors)
        .into_result(())
        .expect_err("expected accumulated error");
    assert_eq!(errs[0].code, ErrorCode::E0100());
    assert_eq!(errs[0].kind, ErrorKind::Syntax);
}

fn assert_self_path(ty: &Type) {
    match ty {
        Type::Path(p) => {
            assert_eq!(p.segments.len(), 1, "expected single-segment Self path");
            assert_eq!(p.segments[0].ident, "Self");
            assert!(
                p.segments[0].generic_args.is_empty(),
                "expected no generic args on Self",
            );
        }
        other => panic!("expected Type::Path(Self), got {:?}", other),
    }
}

#[test]
fn self_params() {
    // fn m(self) {}
    let mut p = Parser::new(vec![
        tok(TokenKind::Fn),
        ident_tok("m"),
        tok(TokenKind::LParen),
        tok(TokenKind::SelfLower),
        tok(TokenKind::RParen),
        tok(TokenKind::LBrace),
        tok(TokenKind::RBrace),
        tok(TokenKind::Eof),
    ]);
    let f = as_fn(p.parse_fn().expect("parse_fn"));
    assert_eq!(f.params.len(), 1);
    assert_eq!(f.params[0].name, "self");
    assert!(f.params[0].is_self);
    assert_self_path(&f.params[0].ty);
    assert!(p.errors.is_empty());
    assert!(matches!(p.peek(), TokenKind::Eof));

    // fn m(&self) {}
    let mut p = Parser::new(vec![
        tok(TokenKind::Fn),
        ident_tok("m"),
        tok(TokenKind::LParen),
        tok(TokenKind::Amp),
        tok(TokenKind::SelfLower),
        tok(TokenKind::RParen),
        tok(TokenKind::LBrace),
        tok(TokenKind::RBrace),
        tok(TokenKind::Eof),
    ]);
    let f = as_fn(p.parse_fn().expect("parse_fn"));
    assert_eq!(f.params.len(), 1);
    assert_eq!(f.params[0].name, "self");
    assert!(f.params[0].is_self);
    match &f.params[0].ty {
        Type::Ref { mutable, ty, .. } => {
            assert!(!*mutable);
            assert_self_path(ty);
        }
        other => panic!("expected Type::Ref, got {:?}", other),
    }
    assert!(p.errors.is_empty());
    assert!(matches!(p.peek(), TokenKind::Eof));

    // fn m(&mut self) {}
    let mut p = Parser::new(vec![
        tok(TokenKind::Fn),
        ident_tok("m"),
        tok(TokenKind::LParen),
        tok(TokenKind::Amp),
        tok(TokenKind::Mut),
        tok(TokenKind::SelfLower),
        tok(TokenKind::RParen),
        tok(TokenKind::LBrace),
        tok(TokenKind::RBrace),
        tok(TokenKind::Eof),
    ]);
    let f = as_fn(p.parse_fn().expect("parse_fn"));
    assert_eq!(f.params.len(), 1);
    assert_eq!(f.params[0].name, "self");
    assert!(f.params[0].is_self);
    match &f.params[0].ty {
        Type::Ref { mutable, ty, .. } => {
            assert!(*mutable);
            assert_self_path(ty);
        }
        other => panic!("expected Type::Ref, got {:?}", other),
    }
    assert!(p.errors.is_empty());
    assert!(matches!(p.peek(), TokenKind::Eof));

    // fn m(self: Box<Self>) {}
    let mut p = Parser::new(vec![
        tok(TokenKind::Fn),
        ident_tok("m"),
        tok(TokenKind::LParen),
        tok(TokenKind::SelfLower),
        tok(TokenKind::Colon),
        ident_tok("Box"),
        tok(TokenKind::Lt),
        tok(TokenKind::SelfUpper),
        tok(TokenKind::Gt),
        tok(TokenKind::RParen),
        tok(TokenKind::LBrace),
        tok(TokenKind::RBrace),
        tok(TokenKind::Eof),
    ]);
    let f = as_fn(p.parse_fn().expect("parse_fn"));
    assert_eq!(f.params.len(), 1);
    assert_eq!(f.params[0].name, "self");
    assert!(f.params[0].is_self);
    match &f.params[0].ty {
        Type::Path(path) => {
            assert_eq!(path.segments.len(), 1);
            assert_eq!(path.segments[0].ident, "Box");
            assert_eq!(path.segments[0].generic_args.len(), 1);
        }
        other => panic!("expected Type::Path, got {:?}", other),
    }
    assert!(p.errors.is_empty());
    assert!(matches!(p.peek(), TokenKind::Eof));

    // fn m(self: Rc<Self>) {}
    let mut p = Parser::new(vec![
        tok(TokenKind::Fn),
        ident_tok("m"),
        tok(TokenKind::LParen),
        tok(TokenKind::SelfLower),
        tok(TokenKind::Colon),
        ident_tok("Rc"),
        tok(TokenKind::Lt),
        tok(TokenKind::SelfUpper),
        tok(TokenKind::Gt),
        tok(TokenKind::RParen),
        tok(TokenKind::LBrace),
        tok(TokenKind::RBrace),
        tok(TokenKind::Eof),
    ]);
    let f = as_fn(p.parse_fn().expect("parse_fn"));
    assert_eq!(f.params.len(), 1);
    assert_eq!(f.params[0].name, "self");
    assert!(f.params[0].is_self);
    match &f.params[0].ty {
        Type::Path(path) => {
            assert_eq!(path.segments.len(), 1);
            assert_eq!(path.segments[0].ident, "Rc");
            assert_eq!(path.segments[0].generic_args.len(), 1);
        }
        other => panic!("expected Type::Path, got {:?}", other),
    }
    assert!(p.errors.is_empty());
    assert!(matches!(p.peek(), TokenKind::Eof));

    // fn m(&self, x: i32) {}
    let mut p = Parser::new(vec![
        tok(TokenKind::Fn),
        ident_tok("m"),
        tok(TokenKind::LParen),
        tok(TokenKind::Amp),
        tok(TokenKind::SelfLower),
        tok(TokenKind::Comma),
        ident_tok("x"),
        tok(TokenKind::Colon),
        ident_tok("i32"),
        tok(TokenKind::RParen),
        tok(TokenKind::LBrace),
        tok(TokenKind::RBrace),
        tok(TokenKind::Eof),
    ]);
    let f = as_fn(p.parse_fn().expect("parse_fn"));
    assert_eq!(f.params.len(), 2);
    assert_eq!(f.params[0].name, "self");
    assert!(f.params[0].is_self);
    match &f.params[0].ty {
        Type::Ref { mutable, ty, .. } => {
            assert!(!*mutable);
            assert_self_path(ty);
        }
        other => panic!("expected Type::Ref, got {:?}", other),
    }
    assert_eq!(f.params[1].name, "x");
    assert!(!f.params[1].is_self);
    assert_eq!(type_ident(&f.params[1].ty), "i32");
    assert!(p.errors.is_empty());
    assert!(matches!(p.peek(), TokenKind::Eof));
}

fn as_struct(item: Item) -> StructDef {
    match item {
        Item::Struct(s) => s,
        other => panic!("expected Item::Struct, got {:?}", other),
    }
}

#[test]
fn struct_normal() {
    // struct Name<T> { field: Ty, pub field2: Ty }
    let mut p = Parser::new(vec![
        tok(TokenKind::Struct),
        ident_tok("Name"),
        tok(TokenKind::Lt),
        ident_tok("T"),
        tok(TokenKind::Gt),
        tok(TokenKind::LBrace),
        ident_tok("field"),
        tok(TokenKind::Colon),
        ident_tok("Ty"),
        tok(TokenKind::Comma),
        tok(TokenKind::Pub),
        ident_tok("field2"),
        tok(TokenKind::Colon),
        ident_tok("Ty"),
        tok(TokenKind::RBrace),
        tok(TokenKind::Eof),
    ]);
    let s = as_struct(p.parse_struct().expect("parse_struct"));
    assert_eq!(s.name, "Name");
    let generics = s.generics.as_ref().expect("generics");
    assert_eq!(generics.params.len(), 1);
    assert_eq!(generics.params[0].name, "T");
    assert!(generics.params[0].bounds.is_empty());
    assert_eq!(s.fields.len(), 2);
    assert_eq!(s.fields[0].name, "field");
    assert_eq!(type_ident(&s.fields[0].ty), "Ty");
    assert!(!s.fields[0].is_pub);
    assert_eq!(s.fields[1].name, "field2");
    assert_eq!(type_ident(&s.fields[1].ty), "Ty");
    assert!(s.fields[1].is_pub);
    assert!(p.errors.is_empty());
    assert!(matches!(p.peek(), TokenKind::Eof));
}

#[test]
fn struct_tuple_unit() {
    // struct Name<T>(T, T);
    let mut p = Parser::new(vec![
        tok(TokenKind::Struct),
        ident_tok("Name"),
        tok(TokenKind::Lt),
        ident_tok("T"),
        tok(TokenKind::Gt),
        tok(TokenKind::LParen),
        ident_tok("T"),
        tok(TokenKind::Comma),
        ident_tok("T"),
        tok(TokenKind::RParen),
        tok(TokenKind::Semi),
        tok(TokenKind::Eof),
    ]);
    let s = as_struct(p.parse_struct().expect("parse_struct"));
    assert_eq!(s.name, "Name");
    let generics = s.generics.as_ref().expect("generics");
    assert_eq!(generics.params.len(), 1);
    assert_eq!(generics.params[0].name, "T");
    assert!(matches!(s.kind, StructKind::Tuple));
    assert_eq!(s.fields.len(), 2);
    assert!(!s.fields[0].is_pub);
    assert_eq!(type_ident(&s.fields[0].ty), "T");
    assert_eq!(s.fields[0].name, "0");
    assert!(!s.fields[1].is_pub);
    assert_eq!(type_ident(&s.fields[1].ty), "T");
    assert_eq!(s.fields[1].name, "1");
    assert!(p.errors.is_empty());
    assert!(matches!(p.peek(), TokenKind::Eof));

    // struct Unit;
    let mut p = Parser::new(vec![
        tok(TokenKind::Struct),
        ident_tok("Unit"),
        tok(TokenKind::Semi),
        tok(TokenKind::Eof),
    ]);
    let s = as_struct(p.parse_struct().expect("parse_struct"));
    assert_eq!(s.name, "Unit");
    assert!(s.generics.is_none());
    assert!(matches!(s.kind, StructKind::Unit));
    assert!(s.fields.is_empty());
    assert!(p.errors.is_empty());
    assert!(matches!(p.peek(), TokenKind::Eof));
}

#[test]
fn fn_generics_and_where() {
    // fn foo<T, U>(x: T) -> U where T: Clone + Debug { }
    let mut p = Parser::new(vec![
        tok(TokenKind::Fn),
        ident_tok("foo"),
        tok(TokenKind::Lt),
        ident_tok("T"),
        tok(TokenKind::Comma),
        ident_tok("U"),
        tok(TokenKind::Gt),
        tok(TokenKind::LParen),
        ident_tok("x"),
        tok(TokenKind::Colon),
        ident_tok("T"),
        tok(TokenKind::RParen),
        tok(TokenKind::Arrow),
        ident_tok("U"),
        tok(TokenKind::Where),
        ident_tok("T"),
        tok(TokenKind::Colon),
        ident_tok("Clone"),
        tok(TokenKind::Plus),
        ident_tok("Debug"),
        tok(TokenKind::LBrace),
        tok(TokenKind::RBrace),
        tok(TokenKind::Eof),
    ]);
    let f = as_fn(p.parse_fn().expect("parse_fn"));
    assert_eq!(f.name, "foo");
    let generics = f.generics.as_ref().expect("generics");
    assert_eq!(generics.params.len(), 2);
    assert_eq!(generics.params[0].name, "T");
    assert!(generics.params[0].bounds.is_empty());
    assert_eq!(generics.params[1].name, "U");
    assert!(generics.params[1].bounds.is_empty());
    let wc = generics.where_clause.as_ref().expect("where_clause");
    assert_eq!(wc.predicates.len(), 1);
    let pred = &wc.predicates[0];
    assert_eq!(type_ident(&pred.ty), "T");
    assert_eq!(pred.bounds.len(), 2);
    assert_eq!(pred.bounds[0].path.segments.len(), 1);
    assert_eq!(pred.bounds[0].path.segments[0].ident, "Clone");
    assert_eq!(pred.bounds[1].path.segments.len(), 1);
    assert_eq!(pred.bounds[1].path.segments[0].ident, "Debug");
    assert_eq!(f.params.len(), 1);
    assert_eq!(f.params[0].name, "x");
    assert_eq!(type_ident(&f.params[0].ty), "T");
    assert!(p.errors.is_empty());
    assert!(matches!(p.peek(), TokenKind::Eof));
}

fn as_enum(item: Item) -> EnumDef {
    match item {
        Item::Enum(e) => e,
        other => panic!("expected Item::Enum, got {:?}", other),
    }
}

#[test]
fn enum_all_variant_kinds() {
    // enum E { A, B(i32, i32), C { x: i32, y: i32 } }
    let mut p = Parser::new(vec![
        tok(TokenKind::Enum),
        ident_tok("E"),
        tok(TokenKind::LBrace),
        ident_tok("A"),
        tok(TokenKind::Comma),
        ident_tok("B"),
        tok(TokenKind::LParen),
        ident_tok("i32"),
        tok(TokenKind::Comma),
        ident_tok("i32"),
        tok(TokenKind::RParen),
        tok(TokenKind::Comma),
        ident_tok("C"),
        tok(TokenKind::LBrace),
        ident_tok("x"),
        tok(TokenKind::Colon),
        ident_tok("i32"),
        tok(TokenKind::Comma),
        ident_tok("y"),
        tok(TokenKind::Colon),
        ident_tok("i32"),
        tok(TokenKind::RBrace),
        tok(TokenKind::RBrace),
        tok(TokenKind::Eof),
    ]);
    let e = as_enum(p.parse_enum().expect("parse_enum"));
    assert_eq!(e.name, "E");
    assert!(e.generics.is_none());
    assert_eq!(e.variants.len(), 3);
    assert_eq!(e.variants[0].name, "A");
    assert!(matches!(e.variants[0].kind, VariantKind::Unit));
    assert!(e.variants[0].discriminant.is_none());
    assert_eq!(e.variants[1].name, "B");
    match &e.variants[1].kind {
        VariantKind::Tuple(tys) => {
            assert_eq!(tys.len(), 2);
            assert_eq!(type_ident(&tys[0]), "i32");
            assert_eq!(type_ident(&tys[1]), "i32");
        }
        other => panic!("expected VariantKind::Tuple, got {:?}", other),
    }
    assert!(e.variants[1].discriminant.is_none());
    assert_eq!(e.variants[2].name, "C");
    match &e.variants[2].kind {
        VariantKind::Struct(fields) => {
            assert_eq!(fields.len(), 2);
            assert_eq!(fields[0].name, "x");
            assert_eq!(type_ident(&fields[0].ty), "i32");
            assert_eq!(fields[1].name, "y");
            assert_eq!(type_ident(&fields[1].ty), "i32");
        }
        other => panic!("expected VariantKind::Struct, got {:?}", other),
    }
    assert!(e.variants[2].discriminant.is_none());
    assert!(p.errors.is_empty());
    assert!(matches!(p.peek(), TokenKind::Eof));

    // enum E { Foo = 5, Bar = 7, }
    let mut p = Parser::new(vec![
        tok(TokenKind::Enum),
        ident_tok("E"),
        tok(TokenKind::LBrace),
        ident_tok("Foo"),
        tok(TokenKind::Eq),
        int_tok(5),
        tok(TokenKind::Comma),
        ident_tok("Bar"),
        tok(TokenKind::Eq),
        int_tok(7),
        tok(TokenKind::Comma),
        tok(TokenKind::RBrace),
        tok(TokenKind::Eof),
    ]);
    let e = as_enum(p.parse_enum().expect("parse_enum"));
    assert_eq!(e.name, "E");
    assert!(e.generics.is_none());
    assert_eq!(e.variants.len(), 2);
    assert_eq!(e.variants[0].name, "Foo");
    assert!(matches!(e.variants[0].kind, VariantKind::Unit));
    match e.variants[0].discriminant.as_ref().expect("discriminant Foo") {
        Expr::IntLit(lit) => assert_eq!(lit.value, 5),
        other => panic!("expected IntLit discriminant, got {:?}", other),
    }
    assert_eq!(e.variants[1].name, "Bar");
    assert!(matches!(e.variants[1].kind, VariantKind::Unit));
    match e.variants[1].discriminant.as_ref().expect("discriminant Bar") {
        Expr::IntLit(lit) => assert_eq!(lit.value, 7),
        other => panic!("expected IntLit discriminant, got {:?}", other),
    }
    assert!(p.errors.is_empty());
    assert!(matches!(p.peek(), TokenKind::Eof));

    // enum Result<T, E> { Ok(T), Err(E) }
    let mut p = Parser::new(vec![
        tok(TokenKind::Enum),
        ident_tok("Result"),
        tok(TokenKind::Lt),
        ident_tok("T"),
        tok(TokenKind::Comma),
        ident_tok("E"),
        tok(TokenKind::Gt),
        tok(TokenKind::LBrace),
        ident_tok("Ok"),
        tok(TokenKind::LParen),
        ident_tok("T"),
        tok(TokenKind::RParen),
        tok(TokenKind::Comma),
        ident_tok("Err"),
        tok(TokenKind::LParen),
        ident_tok("E"),
        tok(TokenKind::RParen),
        tok(TokenKind::RBrace),
        tok(TokenKind::Eof),
    ]);
    let e = as_enum(p.parse_enum().expect("parse_enum"));
    assert_eq!(e.name, "Result");
    let generics = e.generics.as_ref().expect("generics");
    assert_eq!(generics.params.len(), 2);
    assert_eq!(generics.params[0].name, "T");
    assert!(generics.params[0].bounds.is_empty());
    assert_eq!(generics.params[1].name, "E");
    assert!(generics.params[1].bounds.is_empty());
    assert!(generics.where_clause.is_none());
    assert_eq!(e.variants.len(), 2);
    assert_eq!(e.variants[0].name, "Ok");
    match &e.variants[0].kind {
        VariantKind::Tuple(tys) => {
            assert_eq!(tys.len(), 1);
            assert_eq!(type_ident(&tys[0]), "T");
        }
        other => panic!("expected VariantKind::Tuple, got {:?}", other),
    }
    assert!(e.variants[0].discriminant.is_none());
    assert_eq!(e.variants[1].name, "Err");
    match &e.variants[1].kind {
        VariantKind::Tuple(tys) => {
            assert_eq!(tys.len(), 1);
            assert_eq!(type_ident(&tys[0]), "E");
        }
        other => panic!("expected VariantKind::Tuple, got {:?}", other),
    }
    assert!(e.variants[1].discriminant.is_none());
    assert!(p.errors.is_empty());
    assert!(matches!(p.peek(), TokenKind::Eof));
}

fn as_trait(item: Item) -> TraitDef {
    match item {
        Item::Trait(t) => t,
        other => panic!("expected Item::Trait, got {:?}", other),
    }
}

#[test]
fn trait_with_assoc() {
    // trait Name<T>: Super + Super2 {
    //     fn req(&self);
    //     fn def(&self) { }
    //     type Item;
    //     const MAX: usize;
    // }
    let mut p = Parser::new(vec![
        tok(TokenKind::Trait),
        ident_tok("Name"),
        tok(TokenKind::Lt),
        ident_tok("T"),
        tok(TokenKind::Gt),
        tok(TokenKind::Colon),
        ident_tok("Super"),
        tok(TokenKind::Plus),
        ident_tok("Super2"),
        tok(TokenKind::LBrace),
        tok(TokenKind::Fn),
        ident_tok("req"),
        tok(TokenKind::LParen),
        tok(TokenKind::Amp),
        tok(TokenKind::SelfLower),
        tok(TokenKind::RParen),
        tok(TokenKind::Semi),
        tok(TokenKind::Fn),
        ident_tok("def"),
        tok(TokenKind::LParen),
        tok(TokenKind::Amp),
        tok(TokenKind::SelfLower),
        tok(TokenKind::RParen),
        tok(TokenKind::LBrace),
        tok(TokenKind::RBrace),
        tok(TokenKind::Type),
        ident_tok("Item"),
        tok(TokenKind::Semi),
        tok(TokenKind::Const),
        ident_tok("MAX"),
        tok(TokenKind::Colon),
        ident_tok("usize"),
        tok(TokenKind::Semi),
        tok(TokenKind::RBrace),
        tok(TokenKind::Eof),
    ]);
    let t = as_trait(p.parse_trait().expect("parse_trait"));
    assert_eq!(t.name, "Name");
    let generics = t.generics.as_ref().expect("generics");
    assert_eq!(generics.params.len(), 1);
    assert_eq!(generics.params[0].name, "T");
    assert!(generics.params[0].bounds.is_empty());
    assert!(generics.where_clause.is_none());
    assert_eq!(t.supertraits.len(), 2);
    assert_eq!(t.supertraits[0].path.segments.len(), 1);
    assert_eq!(t.supertraits[0].path.segments[0].ident, "Super");
    assert_eq!(t.supertraits[1].path.segments.len(), 1);
    assert_eq!(t.supertraits[1].path.segments[0].ident, "Super2");
    assert_eq!(t.items.len(), 4);
    match &t.items[0] {
        TraitItem::Fn(f) => {
            assert_eq!(f.name, "req");
            assert!(f.default.is_none());
        }
        other => panic!("expected TraitItem::Fn, got {:?}", other),
    }
    match &t.items[1] {
        TraitItem::Fn(f) => {
            assert_eq!(f.name, "def");
            assert!(f.default.is_some());
        }
        other => panic!("expected TraitItem::Fn, got {:?}", other),
    }
    match &t.items[2] {
        TraitItem::Type(ty) => {
            assert_eq!(ty.name, "Item");
        }
        other => panic!("expected TraitItem::Type, got {:?}", other),
    }
    match &t.items[3] {
        TraitItem::Const(c) => {
            assert_eq!(c.name, "MAX");
            assert_eq!(type_ident(&c.ty), "usize");
        }
        other => panic!("expected TraitItem::Const, got {:?}", other),
    }
    assert!(p.errors.is_empty());
    assert!(matches!(p.peek(), TokenKind::Eof));
}

fn as_mod(item: Item) -> ModDef {
    match item {
        Item::Mod(m) => m,
        other => panic!("expected Item::Mod, got {:?}", other),
    }
}

#[test]
fn mod_external_vs_inline() {
    // mod foo;
    let mut p = Parser::new(vec![
        tok(TokenKind::Mod),
        ident_tok("foo"),
        tok(TokenKind::Semi),
        tok(TokenKind::Eof),
    ]);
    let m = as_mod(p.parse_mod().expect("parse_mod"));
    assert_eq!(m.name, "foo");
    assert!(matches!(m.kind, ModKind::External));
    assert!(p.errors.is_empty());
    assert!(matches!(p.peek(), TokenKind::Eof));

    // mod bar { fn x() {} }
    let mut p = Parser::new(vec![
        tok(TokenKind::Mod),
        ident_tok("bar"),
        tok(TokenKind::LBrace),
        tok(TokenKind::Fn),
        ident_tok("x"),
        tok(TokenKind::LParen),
        tok(TokenKind::RParen),
        tok(TokenKind::LBrace),
        tok(TokenKind::RBrace),
        tok(TokenKind::RBrace),
        tok(TokenKind::Eof),
    ]);
    let m = as_mod(p.parse_mod().expect("parse_mod"));
    assert_eq!(m.name, "bar");
    match m.kind {
        ModKind::Inline(items) => {
            assert_eq!(items.len(), 1);
            match &items[0] {
                Item::Fn(f) => assert_eq!(f.name, "x"),
                other => panic!("expected Item::Fn, got {:?}", other),
            }
        }
        other => panic!("expected ModKind::Inline, got {:?}", other),
    }
    assert!(p.errors.is_empty());
    assert!(matches!(p.peek(), TokenKind::Eof));

    // mod outer { mod inner; }
    let mut p = Parser::new(vec![
        tok(TokenKind::Mod),
        ident_tok("outer"),
        tok(TokenKind::LBrace),
        tok(TokenKind::Mod),
        ident_tok("inner"),
        tok(TokenKind::Semi),
        tok(TokenKind::RBrace),
        tok(TokenKind::Eof),
    ]);
    let m = as_mod(p.parse_mod().expect("parse_mod"));
    assert_eq!(m.name, "outer");
    match m.kind {
        ModKind::Inline(items) => {
            assert_eq!(items.len(), 1);
            match &items[0] {
                Item::Mod(inner) => {
                    assert_eq!(inner.name, "inner");
                    assert!(matches!(inner.kind, ModKind::External));
                }
                other => panic!("expected Item::Mod, got {:?}", other),
            }
        }
        other => panic!("expected ModKind::Inline, got {:?}", other),
    }
    assert!(p.errors.is_empty());
    assert!(matches!(p.peek(), TokenKind::Eof));
}

fn as_use(item: Item) -> UseDef {
    match item {
        Item::Use(u) => u,
        other => panic!("expected Item::Use, got {:?}", other),
    }
}

#[test]
fn use_simple_and_alias() {
    // use foo::bar;
    let mut p = Parser::new(vec![
        tok(TokenKind::Use),
        ident_tok("foo"),
        tok(TokenKind::ColonColon),
        ident_tok("bar"),
        tok(TokenKind::Semi),
        tok(TokenKind::Eof),
    ]);
    let u = as_use(p.parse_use().expect("parse_use"));
    assert!(!u.is_pub);
    match &u.tree {
        UseTree::Simple { segments, alias } => {
            assert_eq!(*segments, vec!["foo".to_string(), "bar".to_string()]);
            assert!(alias.is_none());
        }
        other => panic!("expected UseTree::Simple, got {:?}", other),
    }
    assert!(p.errors.is_empty());
    assert!(matches!(p.peek(), TokenKind::Eof));

    // use foo::bar as baz;
    let mut p = Parser::new(vec![
        tok(TokenKind::Use),
        ident_tok("foo"),
        tok(TokenKind::ColonColon),
        ident_tok("bar"),
        ident_tok("as"),
        ident_tok("baz"),
        tok(TokenKind::Semi),
        tok(TokenKind::Eof),
    ]);
    let u = as_use(p.parse_use().expect("parse_use"));
    assert!(!u.is_pub);
    match &u.tree {
        UseTree::Simple { segments, alias } => {
            assert_eq!(*segments, vec!["foo".to_string(), "bar".to_string()]);
            assert_eq!(*alias, Some("baz".to_string()));
        }
        other => panic!("expected UseTree::Simple, got {:?}", other),
    }
    assert!(p.errors.is_empty());
    assert!(matches!(p.peek(), TokenKind::Eof));
}

#[test]
fn use_nested_glob_pub() {
    // use { a, b::c, d::{e, f} };
    let mut p = Parser::new(vec![
        tok(TokenKind::Use),
        tok(TokenKind::LBrace),
        ident_tok("a"),
        tok(TokenKind::Comma),
        ident_tok("b"),
        tok(TokenKind::ColonColon),
        ident_tok("c"),
        tok(TokenKind::Comma),
        ident_tok("d"),
        tok(TokenKind::ColonColon),
        tok(TokenKind::LBrace),
        ident_tok("e"),
        tok(TokenKind::Comma),
        ident_tok("f"),
        tok(TokenKind::RBrace),
        tok(TokenKind::RBrace),
        tok(TokenKind::Semi),
        tok(TokenKind::Eof),
    ]);
    let u = as_use(p.parse_use().expect("parse_use"));
    assert!(!u.is_pub);
    match &u.tree {
        UseTree::Nested { segments, items } => {
            assert!(segments.is_empty());
            assert_eq!(items.len(), 3);
            match &items[0] {
                UseTree::Simple { segments, alias } => {
                    assert_eq!(*segments, vec!["a".to_string()]);
                    assert!(alias.is_none());
                }
                other => panic!("expected items[0] UseTree::Simple, got {:?}", other),
            }
            match &items[1] {
                UseTree::Simple { segments, alias } => {
                    assert_eq!(*segments, vec!["b".to_string(), "c".to_string()]);
                    assert!(alias.is_none());
                }
                other => panic!("expected items[1] UseTree::Simple, got {:?}", other),
            }
            match &items[2] {
                UseTree::Nested { segments, items } => {
                    assert_eq!(*segments, vec!["d".to_string()]);
                    assert_eq!(items.len(), 2);
                    match &items[0] {
                        UseTree::Simple { segments, alias } => {
                            assert_eq!(*segments, vec!["e".to_string()]);
                            assert!(alias.is_none());
                        }
                        other => {
                            panic!("expected nested items[0] UseTree::Simple, got {:?}", other)
                        }
                    }
                    match &items[1] {
                        UseTree::Simple { segments, alias } => {
                            assert_eq!(*segments, vec!["f".to_string()]);
                            assert!(alias.is_none());
                        }
                        other => {
                            panic!("expected nested items[1] UseTree::Simple, got {:?}", other)
                        }
                    }
                }
                other => panic!("expected items[2] UseTree::Nested, got {:?}", other),
            }
        }
        other => panic!("expected UseTree::Nested, got {:?}", other),
    }
    assert!(p.errors.is_empty());
    assert!(matches!(p.peek(), TokenKind::Eof));

    // use foo::*;
    let mut p = Parser::new(vec![
        tok(TokenKind::Use),
        ident_tok("foo"),
        tok(TokenKind::ColonColon),
        tok(TokenKind::Star),
        tok(TokenKind::Semi),
        tok(TokenKind::Eof),
    ]);
    let u = as_use(p.parse_use().expect("parse_use"));
    assert!(!u.is_pub);
    match &u.tree {
        UseTree::Glob { segments } => {
            assert_eq!(*segments, vec!["foo".to_string()]);
        }
        other => panic!("expected UseTree::Glob, got {:?}", other),
    }
    assert!(p.errors.is_empty());
    assert!(matches!(p.peek(), TokenKind::Eof));

    // pub use bar;
    let mut p = Parser::new(vec![
        tok(TokenKind::Pub),
        tok(TokenKind::Use),
        ident_tok("bar"),
        tok(TokenKind::Semi),
        tok(TokenKind::Eof),
    ]);
    let u = as_use(p.parse_use().expect("parse_use"));
    assert!(u.is_pub);
    match &u.tree {
        UseTree::Simple { segments, alias } => {
            assert_eq!(*segments, vec!["bar".to_string()]);
            assert!(alias.is_none());
        }
        other => panic!("expected UseTree::Simple, got {:?}", other),
    }
    assert!(p.errors.is_empty());
    assert!(matches!(p.peek(), TokenKind::Eof));
}

fn as_const(item: Item) -> ConstDef {
    match item {
        Item::Const(c) => c,
        other => panic!("expected Item::Const, got {:?}", other),
    }
}

#[test]
fn const_item() {
    // const N: i32 = 1i32;
    let mut p = Parser::new(vec![
        tok(TokenKind::Const),
        ident_tok("N"),
        tok(TokenKind::Colon),
        ident_tok("i32"),
        tok(TokenKind::Eq),
        int_tok(1),
        tok(TokenKind::Semi),
        tok(TokenKind::Eof),
    ]);
    let c = as_const(p.parse_const().expect("parse_const"));
    assert_eq!(c.name, "N");
    assert_eq!(type_ident(&c.ty), "i32");
    match &c.value {
        Expr::IntLit(lit) => assert_eq!(lit.value, 1),
        other => panic!("expected Expr::IntLit, got {:?}", other),
    }
    assert!(p.errors.is_empty());
    assert!(matches!(p.peek(), TokenKind::Eof));
}

fn as_static(item: Item) -> StaticDef {
    match item {
        Item::Static(s) => s,
        other => panic!("expected Item::Static, got {:?}", other),
    }
}

#[test]
fn static_item() {
    // static N: i32 = 1i32;
    let mut p = Parser::new(vec![
        tok(TokenKind::Static),
        ident_tok("N"),
        tok(TokenKind::Colon),
        ident_tok("i32"),
        tok(TokenKind::Eq),
        int_tok(1),
        tok(TokenKind::Semi),
        tok(TokenKind::Eof),
    ]);
    let s = as_static(p.parse_static().expect("parse_static"));
    assert_eq!(s.name, "N");
    assert_eq!(type_ident(&s.ty), "i32");
    match &s.value {
        Expr::IntLit(lit) => assert_eq!(lit.value, 1),
        other => panic!("expected Expr::IntLit, got {:?}", other),
    }
    assert!(!s.is_mut);
    assert!(p.errors.is_empty());
    assert!(matches!(p.peek(), TokenKind::Eof));

    // static mut N: i32 = 1i32;
    let mut p = Parser::new(vec![
        tok(TokenKind::Static),
        tok(TokenKind::Mut),
        ident_tok("N"),
        tok(TokenKind::Colon),
        ident_tok("i32"),
        tok(TokenKind::Eq),
        int_tok(1),
        tok(TokenKind::Semi),
        tok(TokenKind::Eof),
    ]);
    let s = as_static(p.parse_static().expect("parse_static"));
    assert_eq!(s.name, "N");
    assert_eq!(type_ident(&s.ty), "i32");
    match &s.value {
        Expr::IntLit(lit) => assert_eq!(lit.value, 1),
        other => panic!("expected Expr::IntLit, got {:?}", other),
    }
    assert!(s.is_mut);
    assert!(p.errors.is_empty());
    assert!(matches!(p.peek(), TokenKind::Eof));
}

fn as_type_alias(item: Item) -> TypeAliasDef {
    match item {
        Item::TypeAlias(t) => t,
        other => panic!("expected Item::TypeAlias, got {:?}", other),
    }
}

#[test]
fn type_alias() {
    // type Alias = i32;
    let mut p = Parser::new(vec![
        tok(TokenKind::Type),
        ident_tok("Alias"),
        tok(TokenKind::Eq),
        ident_tok("i32"),
        tok(TokenKind::Semi),
        tok(TokenKind::Eof),
    ]);
    let t = as_type_alias(p.parse_type_alias().expect("parse_type_alias"));
    assert_eq!(t.name, "Alias");
    assert!(t.generics.is_none());
    assert_eq!(type_ident(&t.ty), "i32");
    assert!(p.errors.is_empty());
    assert!(matches!(p.peek(), TokenKind::Eof));

    // type Alias<T> = T;
    let mut p = Parser::new(vec![
        tok(TokenKind::Type),
        ident_tok("Alias"),
        tok(TokenKind::Lt),
        ident_tok("T"),
        tok(TokenKind::Gt),
        tok(TokenKind::Eq),
        ident_tok("T"),
        tok(TokenKind::Semi),
        tok(TokenKind::Eof),
    ]);
    let t = as_type_alias(p.parse_type_alias().expect("parse_type_alias"));
    assert_eq!(t.name, "Alias");
    let g = t.generics.expect("expected generics");
    assert_eq!(g.params.len(), 1);
    assert_eq!(g.params[0].name, "T");
    assert_eq!(type_ident(&t.ty), "T");
    assert!(p.errors.is_empty());
    assert!(matches!(p.peek(), TokenKind::Eof));
}
