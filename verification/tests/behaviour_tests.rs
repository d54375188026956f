use vertex_stage0::ast::item::{Item, TraitItem};
use vertex_stage0::ast::NodeArena;
use vertex_stage0::error::{CompileError, ErrorAccumulator, ErrorCode, ErrorKind};
use vertex_stage0::explain::explain;
use vertex_stage0::lexer::scan::Scanner;
use vertex_stage0::lexer::token::{FloatSuffix, Token, TokenKind};
use vertex_stage0::parser::Parser;
use vertex_stage0::span::{FileId, SourceMap, Span};

fn tok(kind: TokenKind) -> Token {
    Token::new(kind, Span::new(FileId(0), 0, 0))
}

fn tok_at(kind: TokenKind, start: u32) -> Token {
    Token::new(kind, Span::new(FileId(0), start, start + 1))
}

fn ident(s: &str) -> Token {
    tok(TokenKind::Ident(s.to_string()))
}

fn err_at(code: ErrorCode, file: u32, start: u32) -> CompileError {
    CompileError::new(code, ErrorKind::Other, Span::new(FileId(file), start, start), "x")
}

#[test]
fn explain_ignores_case() {
    let upper = explain("E0599").expect("registered");
    let lower = explain("e0599").expect("registered");
    assert_eq!(upper, lower);
    assert!(upper.contains("E0599"));
    assert_eq!(explain("E0080"), explain("e0080"));
    assert!(explain("E0080").is_some());
}

#[test]
fn explain_rejects_malformed_codes() {
    assert!(explain("").is_none());
    assert!(explain("E030").is_none());
    assert!(explain("E03088").is_none());
    assert!(explain("X0308").is_none());
    assert!(explain("E0100").is_none());
}

#[test]
fn accumulator_pushing_twice_keeps_one() {
    let mut acc = ErrorAccumulator::new();
    acc.push(err_at(ErrorCode::E0100(), 0, 4));
    acc.push(err_at(ErrorCode::E0100(), 0, 4));
    assert_eq!(acc.len(), 1);
    assert_eq!(acc.dropped(), 0);
    // same code and offset in another file is another diagnostic
    acc.push(err_at(ErrorCode::E0100(), 1, 4));
    assert_eq!(acc.len(), 2);
    assert!(!acc.is_empty());
}

#[test]
fn accumulator_counts_only_new_identities_past_the_cap() {
    let mut acc = ErrorAccumulator::default();
    for i in 0..100u32 {
        acc.push(err_at(ErrorCode::E0001(), 0, i));
    }
    assert_eq!(acc.len(), 100);
    // already held: neither kept nor counted
    acc.push(err_at(ErrorCode::E0001(), 0, 3));
    assert_eq!(acc.dropped(), 0);
    acc.push(err_at(ErrorCode::E0002(), 0, 3));
    assert_eq!(acc.len(), 100);
    assert_eq!(acc.dropped(), 1);
}

#[test]
fn accumulator_empty_gives_ok() {
    let acc = ErrorAccumulator::new();
    assert!(acc.is_empty());
    assert_eq!(acc.into_result(7u8).ok(), Some(7u8));
}

#[test]
fn error_builders_attach_in_order() {
    let e = CompileError::new(ErrorCode::E0308(), ErrorKind::Type, Span::new(FileId(0), 1, 2), "mismatch")
        .with_secondary_label(Span::new(FileId(0), 3, 4), "here")
        .with_note("first")
        .with_note("second");
    assert_eq!(e.code, ErrorCode(308));
    assert_eq!(e.message, "mismatch");
    assert_eq!(e.labels.len(), 1);
    assert!(!e.labels[0].primary);
    assert_eq!(e.labels[0].message, "here");
    assert_eq!(e.notes, vec!["first".to_string(), "second".to_string()]);
}

#[test]
fn recovery_stops_past_semicolon() {
    let mut p = Parser::new(vec![ident("a"), tok(TokenKind::Plus), tok(TokenKind::Semi), ident("b"), tok(TokenKind::Eof)]);
    p.recover_to_sync();
    assert_eq!(p.pos, 3);
}

#[test]
fn recovery_stops_on_brace_and_item_keyword() {
    let mut p = Parser::new(vec![ident("a"), tok(TokenKind::RBrace), tok(TokenKind::Eof)]);
    p.recover_to_sync();
    assert_eq!(p.pos, 1);

    let mut q = Parser::new(vec![tok(TokenKind::Plus), tok(TokenKind::Fn), tok(TokenKind::Eof)]);
    q.recover_to_sync();
    assert_eq!(q.pos, 1);

    let mut r = Parser::new(vec![tok(TokenKind::Plus), tok(TokenKind::Minus)]);
    r.recover_to_sync();
    assert_eq!(r.pos, 2);
}

#[test]
fn expected_one_of_error_records_and_recovers() {
    let mut p = Parser::new(vec![tok_at(TokenKind::Plus, 5), tok(TokenKind::Minus), tok(TokenKind::Semi), tok(TokenKind::Eof)]);
    p.expected_one_of_error(&[TokenKind::Comma, TokenKind::RParen]);
    assert_eq!(p.pos, 3);
    let errs = p.errors.into_result(()).unwrap_err();
    assert_eq!(errs.len(), 1);
    assert_eq!(errs[0].message, "expected `,` or `)`, found `+`");
    assert_eq!(errs[0].span, Span::new(FileId(0), 5, 6));
    assert_eq!(errs[0].code, ErrorCode(100));
}

#[test]
fn duplicate_fn_modifier_is_reported_and_parsing_goes_on() {
    let mut p = Parser::new(vec![
        tok_at(TokenKind::Const, 0),
        tok_at(TokenKind::Const, 6),
        tok_at(TokenKind::Fn, 12),
        ident("f"),
        tok(TokenKind::LParen),
        tok(TokenKind::RParen),
        tok(TokenKind::LBrace),
        tok(TokenKind::RBrace),
        tok(TokenKind::Eof),
    ]);
    match p.parse_fn().expect("parses") {
        Item::Fn(f) => {
            assert!(f.is_const);
            assert!(!f.is_unsafe);
            assert_eq!(f.name, "f");
        }
        other => panic!("expected a function, got {:?}", other),
    }
    let errs = p.errors.into_result(()).unwrap_err();
    assert_eq!(errs.len(), 1);
    assert_eq!(errs[0].message, "duplicate `const` modifier on function");
    assert_eq!(errs[0].span.start, 6);
}

#[test]
fn trait_body_recovers_from_a_stray_token() {
    let mut p = Parser::new(vec![
        tok(TokenKind::Trait),
        ident("T"),
        tok(TokenKind::LBrace),
        tok(TokenKind::Plus),
        tok(TokenKind::Minus),
        tok(TokenKind::RBrace),
        tok(TokenKind::Eof),
    ]);
    match p.parse_trait().expect("parses") {
        Item::Trait(t) => {
            assert_eq!(t.name, "T");
            assert!(t.items.is_empty());
        }
        other => panic!("expected a trait, got {:?}", other),
    }
    assert_eq!(p.pos, 6);
    let errs = p.errors.into_result(()).unwrap_err();
    assert_eq!(errs.len(), 1);
    assert_eq!(errs[0].message, "expected `fn`, `type`, `const`, or `}`, found `+`");
}

#[test]
fn trait_items_of_each_kind() {
    let mut p = Parser::new(vec![
        tok(TokenKind::Trait),
        ident("T"),
        tok(TokenKind::LBrace),
        tok(TokenKind::Type),
        ident("Out"),
        tok(TokenKind::Semi),
        tok(TokenKind::Const),
        ident("N"),
        tok(TokenKind::Colon),
        ident("u8"),
        tok(TokenKind::Semi),
        tok(TokenKind::Fn),
        ident("go"),
        tok(TokenKind::LParen),
        tok(TokenKind::Amp),
        tok(TokenKind::SelfLower),
        tok(TokenKind::RParen),
        tok(TokenKind::Semi),
        tok(TokenKind::RBrace),
        tok(TokenKind::Eof),
    ]);
    match p.parse_trait().expect("parses") {
        Item::Trait(t) => {
            assert_eq!(t.items.len(), 3);
            assert!(matches!(&t.items[0], TraitItem::Type(x) if x.name == "Out"));
            assert!(matches!(&t.items[1], TraitItem::Const(x) if x.name == "N"));
            match &t.items[2] {
                TraitItem::Fn(f) => {
                    assert_eq!(f.params.len(), 1);
                    assert!(f.params[0].is_self);
                    assert!(f.default.is_none());
                }
                other => panic!("expected a method, got {:?}", other),
            }
        }
        other => panic!("expected a trait, got {:?}", other),
    }
    assert!(p.errors.is_empty());
}

#[test]
fn failed_item_head_leaves_parser_unchanged() {
    let mut p = Parser::new(vec![tok(TokenKind::Plus), tok(TokenKind::Eof)]);
    let e = p.parse_struct().unwrap_err();
    assert_eq!(e.message, "expected `struct`, found `+`");
    assert_eq!(p.pos, 0);
    assert!(p.errors.is_empty());
    let e = p.parse_mod().unwrap_err();
    assert_eq!(e.message, "expected `mod`, found `+`");
    assert_eq!(p.pos, 0);
}

#[test]
fn static_with_mut_flag() {
    let mut p = Parser::new(vec![
        tok(TokenKind::Static),
        tok(TokenKind::Mut),
        ident("X"),
        tok(TokenKind::Colon),
        ident("u8"),
        tok(TokenKind::Eq),
        tok(TokenKind::IntLiteral(3, vertex_stage0::lexer::token::IntSuffix::Unsuffixed)),
        tok(TokenKind::Semi),
        tok(TokenKind::Eof),
    ]);
    match p.parse_static().expect("parses") {
        Item::Static(s) => {
            assert!(s.is_mut);
            assert_eq!(s.name, "X");
        }
        other => panic!("expected a static, got {:?}", other),
    }
    assert_eq!(p.pos, 8);
}

#[test]
fn merge_covers_both_in_either_order() {
    let a = Span::new(FileId(2), 4, 9);
    let b = Span::new(FileId(2), 1, 6);
    assert_eq!(a.merge(&b), Span::new(FileId(2), 1, 9));
    assert_eq!(b.merge(&a), Span::new(FileId(2), 1, 9));
    assert_eq!(a.merge(&a), a);
}

#[test]
fn source_map_ids_are_consecutive() {
    let mut map = SourceMap::new();
    assert_eq!(map.add_file("a", "x"), FileId(0));
    assert_eq!(map.add_file("b", ""), FileId(1));
    assert_eq!(map.add_file("c", "\n\n"), FileId(2));
    assert_eq!(map.file(FileId(1)).content, "");
    assert_eq!(map.file(FileId(2)).line_starts, vec![0, 1, 2]);
    assert_eq!(map.line_col(FileId(2), 2), (3, 1));
    assert_eq!(map.line_col(FileId(1), 0), (1, 1));
}

#[test]
fn float_text_drops_underscores_and_reads_suffix() {
    let mut s = Scanner::new("1_0.2_5E+3f32;", FileId(3));
    let (text, suffix, span) = s.scan_float_text().expect("a float");
    assert_eq!(text, b"10.25e+3".to_vec());
    assert_eq!(suffix, FloatSuffix::F32);
    assert_eq!(span, Span::new(FileId(3), 0, 13));
    assert_eq!(s.pos, 13);
}

#[test]
fn float_text_rejects_incomplete_forms() {
    for input in ["1.", "1.x", "1.5e", "1.5e+", "x1.5", ""] {
        let mut s = Scanner::new(input, FileId(0));
        assert!(s.scan_float_text().is_none(), "{:?}", input);
        assert_eq!(s.pos, 0, "{:?}", input);
    }
}

#[test]
fn unicode_escape_builds_its_char() {
    let mut s = Scanner::new("'\\u{41}'", FileId(0));
    let (c, _) = s.scan_char().expect("a char");
    assert_eq!(c, 'A');
    let mut t = Scanner::new("'\\u{D800}'", FileId(0));
    assert!(t.scan_char().is_none());
}

#[test]
fn string_escapes_are_decoded() {
    let mut s = Scanner::new("\"a\\nb\\u{3b1}\"", FileId(0));
    let (v, _) = s.scan_string().expect("a string");
    assert_eq!(v, "a\nb\u{3b1}");
}

#[test]
fn arena_starts_empty() {
    let _a = NodeArena::new();
    let _b = NodeArena::default();
}

#[test]
fn pointer_without_qualifier_is_reported_and_taken_as_const() {
    let mut p = Parser::new(vec![tok_at(TokenKind::Star, 2), ident("u8"), tok(TokenKind::Eof)]);
    match p.parse_type().expect("parses") {
        vertex_stage0::ast::ty::Type::Ptr { mutable, .. } => assert!(!mutable),
        other => panic!("expected a pointer type, got {:?}", other),
    }
    assert_eq!(p.pos, 2);
    let errs = p.errors.into_result(()).unwrap_err();
    assert_eq!(errs.len(), 1);
    assert_eq!(errs[0].message, "expected `const` or `mut` after `*`");
    assert_eq!(errs[0].span.start, 2);
}

#[test]
fn every_explanation_starts_with_its_code() {
    for code in [
        "E0080", "E0133", "E0277", "E0308", "E0369", "E0382", "E0425", "E0433", "E0499", "E0502", "E0503",
        "E0505", "E0599", "E0608",
    ] {
        let text = explain(&code.to_lowercase()).expect(code);
        assert!(text.starts_with(&format!("{}:", code)), "{}", code);
    }
}

#[test]
fn kept_plus_dropped_never_exceeds_pushes() {
    let mut acc = ErrorAccumulator::new();
    let mut pushes: usize = 0;
    for i in 0..130u32 {
        acc.push(err_at(ErrorCode::E0001(), 0, i % 120));
        pushes += 1;
        assert!(acc.len() + acc.dropped() as usize <= pushes);
        assert!(acc.len() <= ErrorAccumulator::MAX_ERRORS);
    }
    assert_eq!(acc.len(), 100);
    assert_eq!(acc.dropped(), 20);
}

#[test]
fn prefixed_ints_need_a_digit_after_the_prefix() {
    for input in ["0x", "0x_", "0x__g", "0b", "0b_2"] {
        let mut s = Scanner::new(input, FileId(0));
        let r = if input.starts_with("0x") { s.scan_int_hex() } else { s.scan_int_bin() };
        assert!(r.is_none(), "{:?}", input);
        assert_eq!(s.pos, 0, "{:?}", input);
    }
    let mut s = Scanner::new("0x_f_", FileId(0));
    assert_eq!(s.scan_int_hex().map(|(v, _, _)| v), Some(15));
    assert_eq!(s.pos, 5);
}

#[test]
fn string_and_char_refusals_leave_the_cursor() {
    for input in ["abc", "\"abc\\", "\"abc", "\"\\u{}\"", "\"\\u{1234567}\"", "\"\\u{41\"", "\"\\xF\"", "\"\\x80\""] {
        let mut s = Scanner::new(input, FileId(0));
        assert!(s.scan_string().is_none(), "{:?}", input);
        assert_eq!(s.pos, 0, "{:?}", input);
    }
    for input in ["a", "''", "'\n'", "'\\q'", "'ab'", "'a"] {
        let mut s = Scanner::new(input, FileId(0));
        assert!(s.scan_char().is_none(), "{:?}", input);
        assert_eq!(s.pos, 0, "{:?}", input);
    }
}
