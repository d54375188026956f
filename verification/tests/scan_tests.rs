use vertex_stage0::lexer::scan::Scanner;
use vertex_stage0::lexer::token::{FloatSuffix, IntSuffix};
use vertex_stage0::span::FileId;

#[test]
fn new_initializes_cursor_at_zero() {
    let s = Scanner::new("abc", FileId(0));
    assert_eq!(s.src, "abc");
    assert_eq!(s.bytes, b"abc");
    assert_eq!(s.pos, 0);
    assert_eq!(s.file_id, FileId(0));
}

#[test]
fn peek_and_peek_at_return_none_past_eof() {
    let s = Scanner::new("xy", FileId(1));
    assert_eq!(s.peek(), Some(b'x'));
    assert_eq!(s.peek_at(0), Some(b'x'));
    assert_eq!(s.peek_at(1), Some(b'y'));
    assert_eq!(s.peek_at(2), None);
    assert_eq!(s.peek_at(99), None);

    let empty = Scanner::new("", FileId(0));
    assert_eq!(empty.peek(), None);
    assert_eq!(empty.peek_at(0), None);
}

#[test]
fn bump_advances_pos_and_returns_none_at_eof() {
    let mut s = Scanner::new("ab", FileId(0));
    assert_eq!(s.bump(), Some(b'a'));
    assert_eq!(s.pos, 1);
    assert_eq!(s.bump(), Some(b'b'));
    assert_eq!(s.pos, 2);
    assert_eq!(s.bump(), None);
    assert_eq!(s.pos, 2);
}

#[test]
fn decimal_int_with_underscores_and_suffix() {
    let cases: &[(&str, u64, IntSuffix)] = &[
        ("123", 123, IntSuffix::Unsuffixed),
        ("1_000_000", 1_000_000, IntSuffix::Unsuffixed),
        ("42u32", 42, IntSuffix::U32),
        ("0i64", 0, IntSuffix::I64),
        ("9_isize", 9, IntSuffix::ISize),
        ("1_2_3u8", 123, IntSuffix::U8),
    ];

    for (input, expected_value, expected_suffix) in cases {
        let mut s = Scanner::new(input, FileId(7));
        let (value, suffix, span) = s.scan_int_decimal();
        assert_eq!(value, *expected_value, "value for {:?}", input);
        assert_eq!(suffix, *expected_suffix, "suffix for {:?}", input);
        assert_eq!(span.file_id, FileId(7), "file_id for {:?}", input);
        assert_eq!(span.start, 0, "span.start for {:?}", input);
        assert_eq!(
            span.end as usize,
            input.len(),
            "span.end for {:?}",
            input
        );
        assert_eq!(s.pos, input.len(), "pos for {:?}", input);
    }
}

#[test]
fn hex_and_bin_literals() {
    let happy_hex: &[(&str, u64, IntSuffix)] = &[
        ("0x1F", 31, IntSuffix::Unsuffixed),
        ("0xff_ffu32", 65535, IntSuffix::U32),
        ("0xDEAD_BEEFi64", 0xDEAD_BEEF, IntSuffix::I64),
        ("0xAbCd", 0xABCD, IntSuffix::Unsuffixed),
    ];
    for (input, expected_value, expected_suffix) in happy_hex {
        let mut s = Scanner::new(input, FileId(3));
        let (value, suffix, span) = s.scan_int_hex().expect(input);
        assert_eq!(value, *expected_value, "value for {:?}", input);
        assert_eq!(suffix, *expected_suffix, "suffix for {:?}", input);
        assert_eq!(span.file_id, FileId(3), "file_id for {:?}", input);
        assert_eq!(span.start, 0, "span.start for {:?}", input);
        assert_eq!(span.end as usize, input.len(), "span.end for {:?}", input);
        assert_eq!(s.pos, input.len(), "pos for {:?}", input);
    }

    let happy_bin: &[(&str, u64, IntSuffix)] = &[
        ("0b0", 0, IntSuffix::Unsuffixed),
        ("0b1010_1010", 170, IntSuffix::Unsuffixed),
        ("0b1111_1111u8", 255, IntSuffix::U8),
    ];
    for (input, expected_value, expected_suffix) in happy_bin {
        let mut s = Scanner::new(input, FileId(3));
        let (value, suffix, span) = s.scan_int_bin().expect(input);
        assert_eq!(value, *expected_value, "value for {:?}", input);
        assert_eq!(suffix, *expected_suffix, "suffix for {:?}", input);
        assert_eq!(span.file_id, FileId(3), "file_id for {:?}", input);
        assert_eq!(span.start, 0, "span.start for {:?}", input);
        assert_eq!(span.end as usize, input.len(), "span.end for {:?}", input);
        assert_eq!(s.pos, input.len(), "pos for {:?}", input);
    }

    for input in &["0x", "0xg", "0x_"] {
        let mut s = Scanner::new(input, FileId(0));
        assert!(s.scan_int_hex().is_none(), "expected None for {:?}", input);
        assert_eq!(s.pos, 0, "expected pos=0 after rejecting {:?}", input);
    }

    for input in &["0b", "0b2", "0b_"] {
        let mut s = Scanner::new(input, FileId(0));
        assert!(s.scan_int_bin().is_none(), "expected None for {:?}", input);
        assert_eq!(s.pos, 0, "expected pos=0 after rejecting {:?}", input);
    }

    let mut overflow = Scanner::new("0xFFFF_FFFF_FFFF_FFFF_F", FileId(0));
    let (value, suffix, _) = overflow.scan_int_hex().expect("overflow input");
    assert_eq!(value, u64::MAX);
    assert_eq!(suffix, IntSuffix::Unsuffixed);
}

#[test]
fn char_literal_escapes() {
    let happy: &[(&str, char)] = &[
        ("'a'", 'a'),
        ("' '", ' '),
        ("'!'", '!'),
        ("'é'", 'é'),
        ("'\\n'", '\n'),
        ("'\\t'", '\t'),
        ("'\\r'", '\r'),
        ("'\\\\'", '\\'),
        ("'\\''", '\''),
        ("'\\\"'", '"'),
        ("'\\0'", '\0'),
        ("'\\x7F'", '\x7F'),
        ("'\\u{1F600}'", '\u{1F600}'),
    ];

    for (input, expected) in happy {
        let mut s = Scanner::new(input, FileId(9));
        let (ch, span) = s.scan_char().expect(input);
        assert_eq!(ch, *expected, "char for {:?}", input);
        assert_eq!(span.file_id, FileId(9), "file_id for {:?}", input);
        assert_eq!(span.start, 0, "span.start for {:?}", input);
        assert_eq!(span.end as usize, input.len(), "span.end for {:?}", input);
        assert_eq!(s.pos, input.len(), "pos for {:?}", input);
    }

    let rejections: &[&str] = &[
        "''",
        "'ab'",
        "'a",
        "'",
        "'\n",
        "'\\q'",
        "'\\xZZ'",
        "'\\u{}'",
        "'\\u{D800}'",
        "'\\u{110000}'",
    ];

    for input in rejections {
        let mut s = Scanner::new(input, FileId(0));
        assert!(
            s.scan_char().is_none(),
            "expected None for {:?}",
            input
        );
        assert_eq!(s.pos, 0, "expected pos=0 after rejecting {:?}", input);
    }
}

#[test]
fn string_literal_escapes() {
    let happy: &[(&str, &str)] = &[
        ("\"\"", ""),
        ("\"hello\"", "hello"),
        ("\"\\n\"", "\n"),
        ("\"\\t\"", "\t"),
        ("\"\\r\"", "\r"),
        ("\"\\\\\"", "\\"),
        ("\"\\\"\"", "\""),
        ("\"\\'\"", "'"),
        ("\"\\0\"", "\0"),
        ("\"\\x7F\"", "\x7F"),
        ("\"\\u{0041}\"", "A"),
        ("\"\\u{1F600}\"", "\u{1F600}"),
        ("\"é\"", "é"),
        ("\"a\nb\"", "a\nb"),
    ];

    for (input, expected) in happy {
        let mut s = Scanner::new(input, FileId(11));
        let (value, span) = s.scan_string().expect(input);
        assert_eq!(value, *expected, "value for {:?}", input);
        assert_eq!(span.file_id, FileId(11), "file_id for {:?}", input);
        assert_eq!(span.start, 0, "span.start for {:?}", input);
        assert_eq!(span.end as usize, input.len(), "span.end for {:?}", input);
        assert_eq!(s.pos, input.len(), "pos for {:?}", input);
    }

    let rejections: &[&str] = &[
        "\"abc",
        "\"\\",
        "\"\\q\"",
        "\"\\xZZ\"",
        "\"\\xFF\"",
        "\"\\u{}\"",
        "\"\\u{D800}\"",
        "\"\\u{110000}\"",
    ];

    for input in rejections {
        let mut s = Scanner::new(input, FileId(0));
        assert!(
            s.scan_string().is_none(),
            "expected None for {:?}",
            input
        );
        assert_eq!(s.pos, 0, "expected pos=0 after rejecting {:?}", input);
    }

    let mut not_string = Scanner::new("abc", FileId(0));
    assert!(not_string.scan_string().is_none());
    assert_eq!(not_string.pos, 0);
}

#[test]
fn eat_while_consumes_run() {
    let mut s = Scanner::new("   \t\nrest", FileId(0));
    s.eat_while(|b| b == b' ' || b == b'\t' || b == b'\n');
    assert_eq!(s.pos, 5);
    assert_eq!(s.peek(), Some(b'r'));

    let mut none = Scanner::new("abc", FileId(0));
    none.eat_while(|b| b == b' ');
    assert_eq!(none.pos, 0);

    let mut all = Scanner::new("   ", FileId(0));
    all.eat_while(|b| b == b' ');
    assert_eq!(all.pos, 3);
    assert_eq!(all.peek(), None);
}

/// The float a literal's scanned text spells, as the command-line crate
/// reads it.
fn scan_float(s: &mut Scanner) -> Option<(f64, FloatSuffix, vertex_stage0::span::Span)> {
    let start = s.pos;
    let (text, suffix, span) = s.scan_float_text()?;
    match std::str::from_utf8(&text).ok().and_then(|t| t.parse::<f64>().ok()) {
        Some(v) => Some((v, suffix, span)),
        None => {
            s.pos = start;
            None
        }
    }
}

#[test]
fn float_literal_forms() {
    let happy: &[(&str, f64, FloatSuffix)] = &[
        ("1.0", 1.0, FloatSuffix::Unsuffixed),
        ("1.0e10", 1.0e10, FloatSuffix::Unsuffixed),
        ("1.0E-3", 1.0e-3, FloatSuffix::Unsuffixed),
        ("3.14f32", 3.14, FloatSuffix::F32),
        ("2.5f64", 2.5, FloatSuffix::F64),
        ("1_000.000_5", 1000.0005, FloatSuffix::Unsuffixed),
        ("1.0e+2", 100.0, FloatSuffix::Unsuffixed),
    ];

    for (input, expected_value, expected_suffix) in happy {
        let mut s = Scanner::new(input, FileId(5));
        let (value, suffix, span) = scan_float(&mut s).expect(input);
        assert!(
            (value - *expected_value).abs() < 1e-12,
            "value for {:?}: got {}, expected {}",
            input,
            value,
            expected_value
        );
        assert_eq!(suffix, *expected_suffix, "suffix for {:?}", input);
        assert_eq!(span.file_id, FileId(5), "file_id for {:?}", input);
        assert_eq!(span.start, 0, "span.start for {:?}", input);
        assert_eq!(span.end as usize, input.len(), "span.end for {:?}", input);
        assert_eq!(s.pos, input.len(), "pos for {:?}", input);
    }

    for input in &[".5", "1", "1.0e"] {
        let mut s = Scanner::new(input, FileId(0));
        assert!(scan_float(&mut s).is_none(), "expected None for {:?}", input);
        assert_eq!(s.pos, 0, "expected pos=0 after rejecting {:?}", input);
    }
}
