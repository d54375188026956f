use vstd::prelude::*;
use vstd::string::StringSliceAdditionalSpecFns;
use vstd::utf8::*;

use crate::lexer::token::FloatSuffix;
use crate::lexer::token::IntSuffix;
use crate::span::FileId;
use crate::span::Span;

verus! {

pub open spec fn is_dec_digit(b: u8) -> bool {
    48u8 <= b <= 57u8
}

pub open spec fn is_bin_digit(b: u8) -> bool {
    b == 48u8 || b == 49u8
}

pub open spec fn is_hex_digit(b: u8) -> bool {
    ||| 48u8 <= b <= 57u8
    ||| 97u8 <= b <= 102u8
    ||| 65u8 <= b <= 70u8
}

/// The value of a hexadecimal digit (either case).
pub open spec fn hex_value(b: u8) -> int {
    if 48u8 <= b <= 57u8 {
        b - 48
    } else if 97u8 <= b <= 102u8 {
        b - 97 + 10
    } else {
        b - 65 + 10
    }
}

fn is_hex_byte(b: u8) -> (r: bool)
    ensures
        r == is_hex_digit(b),
{
    (48u8 <= b && b <= 57u8) || (97u8 <= b && b <= 102u8) || (65u8 <= b && b <= 70u8)
}

fn hex_digit_value(b: u8) -> (v: u8)
    requires
        is_hex_digit(b),
    ensures
        v == hex_value(b),
        v < 16,
{
    if 48u8 <= b && b <= 57u8 {
        b - 48u8
    } else if 97u8 <= b && b <= 102u8 {
        b - 97u8 + 10
    } else {
        b - 65u8 + 10
    }
}

/// A digit of the given radix (2, 10 or 16).
pub open spec fn is_radix_digit(b: u8, radix: int) -> bool {
    if radix == 2 {
        is_bin_digit(b)
    } else if radix == 10 {
        is_dec_digit(b)
    } else {
        is_hex_digit(b)
    }
}

/// End of the run of radix digits and `_` separators that starts at `i`.
pub open spec fn digit_run_end(b: Seq<u8>, i: int, radix: int) -> int
    decreases b.len() - i,
{
    if i < 0 || i >= b.len() {
        i
    } else if is_radix_digit(b[i], radix) || b[i] == 95u8 {
        digit_run_end(b, i + 1, radix)
    } else {
        i
    }
}

/// The number that the digits in `b[from..to]` spell in `radix`, ignoring
/// `_` separators.
pub open spec fn digits_value(b: Seq<u8>, from: int, to: int, radix: int) -> nat
    decreases to - from,
{
    if to <= from {
        0
    } else if b[to - 1] == 95u8 {
        digits_value(b, from, to - 1, radix)
    } else {
        (digits_value(b, from, to - 1, radix) * radix + hex_value(b[to - 1])) as nat
    }
}

/// Whether `b[from..to]` holds at least one digit (besides separators).
pub open spec fn has_digit(b: Seq<u8>, from: int, to: int) -> bool {
    exists|k: int| from <= k < to && b[k] != 95u8
}

/// A value that does not fit in a `u64` saturates to `u64::MAX`.
pub open spec fn saturate(v: nat) -> u64 {
    if v > u64::MAX {
        u64::MAX
    } else {
        v as u64
    }
}

/// Whether `lit` appears in `b` at offset `i`.
pub open spec fn matches_at(b: Seq<u8>, i: int, lit: Seq<u8>) -> bool {
    0 <= i && i + lit.len() <= b.len() && b.subrange(i, i + lit.len()) == lit
}

/// The integer suffix that starts at `i` and its length in bytes; suffixes
/// are tried in the order `isize i64 i32 i16 i8 usize u64 u32 u16 u8`.
pub open spec fn int_suffix_at(b: Seq<u8>, i: int) -> (IntSuffix, int) {
    if matches_at(b, i, seq![105u8, 115u8, 105u8, 122u8, 101u8]) {
        (IntSuffix::ISize, 5)
    } else if matches_at(b, i, seq![105u8, 54u8, 52u8]) {
        (IntSuffix::I64, 3)
    } else if matches_at(b, i, seq![105u8, 51u8, 50u8]) {
        (IntSuffix::I32, 3)
    } else if matches_at(b, i, seq![105u8, 49u8, 54u8]) {
        (IntSuffix::I16, 3)
    } else if matches_at(b, i, seq![105u8, 56u8]) {
        (IntSuffix::I8, 2)
    } else if matches_at(b, i, seq![117u8, 115u8, 105u8, 122u8, 101u8]) {
        (IntSuffix::USize, 5)
    } else if matches_at(b, i, seq![117u8, 54u8, 52u8]) {
        (IntSuffix::U64, 3)
    } else if matches_at(b, i, seq![117u8, 51u8, 50u8]) {
        (IntSuffix::U32, 3)
    } else if matches_at(b, i, seq![117u8, 49u8, 54u8]) {
        (IntSuffix::U16, 3)
    } else if matches_at(b, i, seq![117u8, 56u8]) {
        (IntSuffix::U8, 2)
    } else {
        (IntSuffix::Unsuffixed, 0)
    }
}

/// How an integer suffix is spelled: the name of its type; nothing for an
/// unsuffixed literal.
pub open spec fn int_suffix_text(s: IntSuffix) -> Seq<u8> {
    match s {
        IntSuffix::I8 => seq![105u8, 56u8],
        IntSuffix::I16 => seq![105u8, 49u8, 54u8],
        IntSuffix::I32 => seq![105u8, 51u8, 50u8],
        IntSuffix::I64 => seq![105u8, 54u8, 52u8],
        IntSuffix::ISize => seq![105u8, 115u8, 105u8, 122u8, 101u8],
        IntSuffix::U8 => seq![117u8, 56u8],
        IntSuffix::U16 => seq![117u8, 49u8, 54u8],
        IntSuffix::U32 => seq![117u8, 51u8, 50u8],
        IntSuffix::U64 => seq![117u8, 54u8, 52u8],
        IntSuffix::USize => seq![117u8, 115u8, 105u8, 122u8, 101u8],
        IntSuffix::Unsuffixed => Seq::empty(),
    }
}

/// The suffix read at `i` is one whose spelling stands at `i`, and the
/// bytes taken are exactly that spelling; no suffix is read only when none
/// of the spellings stands there. So after a decimal literal's digits the
/// literal ends right after the spelling of its suffix.
pub proof fn lemma_int_suffix_read(b: Seq<u8>, i: int, start: int)
    requires
        0 <= i <= b.len(),
        0 <= start <= b.len(),
    ensures
        int_suffix_at(b, i).1 == int_suffix_text(int_suffix_at(b, i).0).len(),
        matches_at(b, i, int_suffix_text(int_suffix_at(b, i).0)),
        int_suffix_at(b, i).0 is Unsuffixed <==> forall|x: IntSuffix|
            !(x is Unsuffixed) ==> !matches_at(b, i, #[trigger] int_suffix_text(x)),
        decimal_int_at(b, start).2 == digit_run_end(b, start, 10) + int_suffix_text(decimal_int_at(b, start).1).len(),
        matches_at(b, digit_run_end(b, start, 10), int_suffix_text(decimal_int_at(b, start).1)),
{
    assert(b.subrange(i, i) =~= Seq::<u8>::empty());
    let e = digit_run_end(b, start, 10);
    lemma_digit_run(b, start, 10);
    assert(b.subrange(e, e) =~= Seq::<u8>::empty());
    if int_suffix_at(b, i).0 is Unsuffixed {
        assert forall|x: IntSuffix| !(x is Unsuffixed) implies !matches_at(b, i, #[trigger] int_suffix_text(x)) by {
            match x {
                IntSuffix::I8 => {},
                IntSuffix::I16 => {},
                IntSuffix::I32 => {},
                IntSuffix::I64 => {},
                IntSuffix::ISize => {},
                IntSuffix::U8 => {},
                IntSuffix::U16 => {},
                IntSuffix::U32 => {},
                IntSuffix::U64 => {},
                IntSuffix::USize => {},
                IntSuffix::Unsuffixed => {},
            }
        }
    } else {
        let x = int_suffix_at(b, i).0;
        assert(!(x is Unsuffixed) && matches_at(b, i, int_suffix_text(x)));
    }
}

/// The float suffix (`f32` or `f64`) that starts at `i`, and its length.
pub open spec fn float_suffix_at(b: Seq<u8>, i: int) -> (FloatSuffix, int) {
    if matches_at(b, i, seq![102u8, 51u8, 50u8]) {
        (FloatSuffix::F32, 3)
    } else if matches_at(b, i, seq![102u8, 54u8, 52u8]) {
        (FloatSuffix::F64, 3)
    } else {
        (FloatSuffix::Unsuffixed, 0)
    }
}

/// A decimal integer literal starting at `start`: its value (saturated at
/// `u64::MAX`), its suffix and the offset just past it.
pub open spec fn decimal_int_at(b: Seq<u8>, start: int) -> (u64, IntSuffix, int) {
    let e = digit_run_end(b, start, 10);
    let (suffix, n) = int_suffix_at(b, e);
    (saturate(digits_value(b, start, e, 10)), suffix, e + n)
}

/// An integer literal with a two-byte radix prefix (`0x`, `0b`) starting at
/// `start`: value (saturated), suffix and end; `None` when no digit follows
/// the prefix.
pub open spec fn prefixed_int_at(b: Seq<u8>, start: int, radix: int) -> Option<(u64, IntSuffix, int)> {
    let s = start + 2;
    if s > b.len() {
        None
    } else {
        let e = digit_run_end(b, s, radix);
        if !has_digit(b, s, e) {
            None
        } else {
            let (suffix, n) = int_suffix_at(b, e);
            Some((saturate(digits_value(b, s, e, radix)), suffix, e + n))
        }
    }
}

/// The bytes of `b[from..to]` other than `_` separators.
pub open spec fn digits_only(b: Seq<u8>, from: int, to: int) -> Seq<u8>
    decreases to - from,
{
    if to <= from {
        seq![]
    } else if b[to - 1] == 95u8 {
        digits_only(b, from, to - 1)
    } else {
        digits_only(b, from, to - 1).push(b[to - 1])
    }
}

/// A float literal starting at `start`: `digits . digits [e [sign] digits]
/// [f32|f64]` with `_` separators. Returns the literal's text without
/// separators and with the exponent marker written `e`, its suffix, and the
/// offset just past it.
pub open spec fn float_at(b: Seq<u8>, start: int) -> Option<(Seq<u8>, FloatSuffix, int)> {
    if start < 0 || start >= b.len() || !is_dec_digit(b[start]) {
        None
    } else {
        let e1 = digit_run_end(b, start, 10);
        if !(e1 + 1 < b.len() && b[e1] == 46u8 && is_dec_digit(b[e1 + 1])) {
            None
        } else {
            let e2 = digit_run_end(b, e1 + 1, 10);
            let mantissa = digits_only(b, start, e1).push(46u8) + digits_only(b, e1 + 1, e2);
            if e2 < b.len() && (b[e2] == 101u8 || b[e2] == 69u8) {
                let s = e2 + 1;
                let has_sign = s < b.len() && (b[s] == 43u8 || b[s] == 45u8);
                let s2 = if has_sign { s + 1 } else { s };
                let sign = if has_sign { seq![b[s]] } else { Seq::<u8>::empty() };
                let e3 = digit_run_end(b, s2, 10);
                if !has_digit(b, s2, e3) {
                    None
                } else {
                    let (suffix, n) = float_suffix_at(b, e3);
                    Some((mantissa.push(101u8) + sign + digits_only(b, s2, e3), suffix, e3 + n))
                }
            } else {
                let (suffix, n) = float_suffix_at(b, e2);
                Some((mantissa, suffix, e2 + n))
            }
        }
    }
}

/// The span of `file` from `start` to `end`.
pub open spec fn mk_span(file: FileId, start: u32, end: u32) -> Span {
    Span { file_id: file, start, end }
}

/// End of the run of hexadecimal digits that starts at `i`.
pub open spec fn hex_run_end(b: Seq<u8>, i: int) -> int
    decreases b.len() - i,
{
    if i < 0 || i >= b.len() {
        i
    } else if is_hex_digit(b[i]) {
        hex_run_end(b, i + 1)
    } else {
        i
    }
}

/// The character a `\u{...}` escape names whose digits start at `j0`, and
/// the offset past its `}`: one to six hex digits naming a Unicode scalar.
pub open spec fn unicode_escape_at(b: Seq<u8>, j0: int) -> Option<(char, int)> {
    let e = hex_run_end(b, j0);
    let v = digits_value(b, j0, e, 16);
    if e < b.len() && b[e] == 125u8 && 1 <= e - j0 <= 6 && v <= 0x10FFFF && !(0xD800 <= v
        <= 0xDFFF) {
        Some((v as u32 as char, e + 1))
    } else {
        None
    }
}

/// The character an escape sequence starting at the backslash at `i`
/// denotes, and the offset just past the sequence.
pub open spec fn escape_at(b: Seq<u8>, i: int) -> Option<(char, int)> {
    if i + 1 >= b.len() {
        None
    } else {
        let k = b[i + 1];
        if k == 110u8 {
            Some(('\n', i + 2))
        } else if k == 116u8 {
            Some(('\t', i + 2))
        } else if k == 114u8 {
            Some(('\r', i + 2))
        } else if k == 92u8 {
            Some(('\\', i + 2))
        } else if k == 39u8 {
            Some(('\'', i + 2))
        } else if k == 34u8 {
            Some(('"', i + 2))
        } else if k == 48u8 {
            Some(('\0', i + 2))
        } else if k == 120u8 {
            if i + 3 < b.len() && is_hex_digit(b[i + 2]) && is_hex_digit(b[i + 3]) && hex_value(
                b[i + 2],
            ) * 16 + hex_value(b[i + 3]) <= 0x7F {
                Some(((hex_value(b[i + 2]) * 16 + hex_value(b[i + 3])) as u32 as char, i + 4))
            } else {
                None
            }
        } else if k == 117u8 {
            if i + 2 < b.len() && b[i + 2] == 123u8 {
                unicode_escape_at(b, i + 3)
            } else {
                None
            }
        } else {
            None
        }
    }
}

/// The bytes from `i` on.
pub open spec fn rest_of(b: Seq<u8>, i: int) -> Seq<u8> {
    b.subrange(i, b.len() as int)
}

/// The character whose UTF-8 encoding starts at `i`, and its width.
pub open spec fn char_at(b: Seq<u8>, i: int) -> Option<(char, int)> {
    if 0 <= i < b.len() && valid_first_scalar(rest_of(b, i)) {
        Some(
            (
                decode_first_scalar(rest_of(b, i)) as char,
                i + length_of_first_scalar(rest_of(b, i)),
            ),
        )
    } else {
        None
    }
}

/// A character literal starting at `start`: `'c'` with `c` any character
/// but `'` and newline, or an escape sequence. Returns the character and
/// the offset past the closing quote.
pub open spec fn char_literal_at(b: Seq<u8>, start: int) -> Option<(char, int)> {
    let p = start + 1;
    if start < 0 || p >= b.len() || b[start] != 39u8 || b[p] == 39u8 || b[p] == 10u8 {
        None
    } else {
        let inner = if b[p] == 92u8 {
            escape_at(b, p)
        } else {
            char_at(b, p)
        };
        match inner {
            Some((c, q)) => if q < b.len() && b[q] == 39u8 {
                Some((c, q + 1))
            } else {
                None
            },
            None => None,
        }
    }
}

/// The rest of a string literal whose body continues at `i`: its
/// characters and the offset past the closing `"`.
pub open spec fn string_body_at(b: Seq<u8>, i: int) -> Option<(Seq<char>, int)>
    decreases b.len() - i,
{
    if i < 0 || i >= b.len() {
        None
    } else if b[i] == 34u8 {
        Some((Seq::<char>::empty(), i + 1))
    } else {
        let step = if b[i] == 92u8 {
            escape_at(b, i)
        } else {
            char_at(b, i)
        };
        match step {
            Some((c, j)) => if i < j <= b.len() {
                match string_body_at(b, j) {
                    Some((rest, end)) => Some((seq![c] + rest, end)),
                    None => None,
                }
            } else {
                None
            },
            None => None,
        }
    }
}

/// A string literal starting at `start`: its characters and the offset
/// past the closing quote.
pub open spec fn string_literal_at(b: Seq<u8>, start: int) -> Option<(Seq<char>, int)> {
    if 0 <= start < b.len() && b[start] == 34u8 {
        string_body_at(b, start + 1)
    } else {
        None
    }
}

/// The body result `o` with `pre` prepended to its characters.
pub open spec fn prepend_body(pre: Seq<char>, o: Option<(Seq<char>, int)>) -> Option<(Seq<char>, int)> {
    match o {
        Some((rest, end)) => Some((pre + rest, end)),
        None => None,
    }
}

/// Calls `char::from_u32`, taken to give the character whose scalar value
/// is `v` exactly when `v` is at most `0x10FFFF` and outside the surrogate
/// range `0xD800..=0xDFFF`, and `None` otherwise.
#[verifier::external_body]
fn char_from_u32(v: u32) -> (r: Option<char>)
    ensures
        r is Some <==> (v <= 0x10FFFF && !(0xD800 <= v <= 0xDFFF)),
        r matches Some(c) ==> c as u32 == v,
{
    char::from_u32(v)
}

/// Calls `String::push`, taken to append `c` to the characters of `s` and
/// change nothing else.
#[verifier::external_body]
pub(crate) fn string_push(s: &mut String, c: char)
    ensures
        final(s)@ == old(s)@.push(c),
{
    s.push(c)
}

/// A byte-level cursor over one source file.
pub struct Scanner<'a> {
    pub src: &'a str,
    pub bytes: &'a [u8],
    pub pos: usize,
    pub file_id: FileId,
}

impl<'a> Scanner<'a> {
    /// `bytes` are the UTF-8 bytes of `src`, the cursor is inside them, and
    /// every offset fits in a span.
    pub open spec fn wf(&self) -> bool {
        &&& self.bytes@ == self.src.spec_bytes()
        &&& self.pos <= self.bytes@.len()
        &&& self.bytes@.len() < u32::MAX
    }

    /// Everything but the cursor is as in `other`.
    pub open spec fn same_input(&self, other: &Scanner<'a>) -> bool {
        &&& self.src == other.src
        &&& self.bytes == other.bytes
        &&& self.file_id == other.file_id
    }

    pub fn new(src: &'a str, file_id: FileId) -> (s: Self)
        requires
            src.spec_bytes().len() < u32::MAX,
        ensures
            s.wf(),
            s.src == src,
            s.bytes@ == src.spec_bytes(),
            s.pos == 0,
            s.file_id == file_id,
    {
        Scanner { src, bytes: src.as_bytes(), pos: 0, file_id }
    }

    pub fn peek(&self) -> (r: Option<u8>)
        ensures
            r == (if self.pos < self.bytes@.len() {
                Some(self.bytes@[self.pos as int])
            } else {
                None
            }),
    {
        if self.pos < self.bytes.len() {
            Some(self.bytes[self.pos])
        } else {
            None
        }
    }

    pub fn peek_at(&self, offset: usize) -> (r: Option<u8>)
        requires
            self.pos + offset <= usize::MAX,
        ensures
            r == (if self.pos + offset < self.bytes@.len() {
                Some(self.bytes@[self.pos + offset])
            } else {
                None
            }),
    {
        let i = self.pos + offset;
        if i < self.bytes.len() {
            Some(self.bytes[i])
        } else {
            None
        }
    }

    pub fn bump(&mut self) -> (r: Option<u8>)
        ensures
            final(self).same_input(old(self)),
            old(self).pos < old(self).bytes@.len() ==> {
                &&& r == Some(old(self).bytes@[old(self).pos as int])
                &&& final(self).pos == old(self).pos + 1
            },
            old(self).pos >= old(self).bytes@.len() ==> {
                &&& r is None
                &&& final(self).pos == old(self).pos
            },
    {
        if self.pos < self.bytes.len() {
            let b = self.bytes[self.pos];
            self.pos = self.pos + 1;
            Some(b)
        } else {
            None
        }
    }

    /// Advances past the longest run of bytes that `pred` accepts.
    pub fn eat_while<F: Fn(u8) -> bool>(&mut self, pred: F)
        requires
            old(self).pos <= old(self).bytes@.len(),
            forall|b: u8| call_requires(pred, (b,)),
        ensures
            final(self).same_input(old(self)),
            old(self).pos <= final(self).pos <= final(self).bytes@.len(),
            forall|k: int|
                old(self).pos <= k < final(self).pos ==> call_ensures(
                    pred,
                    (#[trigger] final(self).bytes@[k],),
                    true,
                ),
            final(self).pos < final(self).bytes@.len() ==> call_ensures(
                pred,
                (final(self).bytes@[final(self).pos as int],),
                false,
            ),
    {
        let ghost start = self.pos;
        while self.pos < self.bytes.len()
            invariant
                self.same_input(old(self)),
                start == old(self).pos,
                start <= self.pos <= self.bytes@.len(),
                forall|b: u8| call_requires(pred, (b,)),
                forall|k: int|
                    start <= k < self.pos ==> call_ensures(pred, (#[trigger] self.bytes@[k],), true),
            decreases self.bytes@.len() - self.pos,
        {
            let b = self.bytes[self.pos];
            if !pred(b) {
                return;
            }
            self.pos = self.pos + 1;
        }
    }
}

/// Whether `lit` occurs in `bytes` at `pos`.
fn bytes_match_at(bytes: &[u8], pos: usize, lit: &[u8]) -> (r: bool)
    ensures
        r == matches_at(bytes@, pos as int, lit@),
{
    if pos > bytes.len() || lit.len() > bytes.len() - pos {
        return false;
    }
    let mut k: usize = 0;
    while k < lit.len()
        invariant
            pos + lit@.len() <= bytes@.len(),
            bytes@.len() == bytes.len(),
            lit@.len() == lit.len(),
            k <= lit@.len(),
            forall|j: int| 0 <= j < k ==> bytes@[pos + j] == lit@[j],
        decreases lit@.len() - k,
    {
        if bytes[pos + k] != lit[k] {
            proof {
                assert(bytes@.subrange(pos as int, pos + lit@.len())[k as int] != lit@[k as int]);
            }
            return false;
        }
        k = k + 1;
    }
    proof {
        assert(bytes@.subrange(pos as int, pos + lit@.len()) =~= lit@);
    }
    true
}

proof fn lemma_prepend_step(pre: Seq<char>, c: char, o: Option<(Seq<char>, int)>)
    ensures
        prepend_body(pre.push(c), o) == prepend_body(
            pre,
            match o {
                Some((rest, end)) => Some((seq![c] + rest, end)),
                None => None,
            },
        ),
{
    if let Some((rest, end)) = o {
        assert(pre.push(c) + rest =~= pre + (seq![c] + rest));
    }
}

/// An escape sequence consists of ASCII bytes, so the byte after it starts
/// a character.
proof fn lemma_escape_end_boundary(b: Seq<u8>, i: int)
    requires
        valid_utf8(b),
        0 <= i < b.len(),
        b[i] == 92u8,
        is_char_boundary(b, i),
        escape_at(b, i) is Some,
    ensures
        is_char_boundary(b, escape_at(b, i).unwrap().1),
        i < escape_at(b, i).unwrap().1 <= b.len(),
{
    let end = escape_at(b, i).unwrap().1;
    assert(end - 1 > i);
    assert(b[end - 1] < 0x80u8) by {
        let k = b[i + 1];
        if k == 117u8 {
            let e = hex_run_end(b, i + 3);
            assert(end - 1 == e);
        }
    }
    is_char_boundary_start_end_of_seq(b);
    is_char_boundary_iff_not_is_continuation_byte(b, end - 1);
    crate::span::lemma_boundary_step(b, end - 1);
    assert(rest_of(b, end - 1)[0] == b[end - 1]);
}

proof fn lemma_hex_run_end_ge(b: Seq<u8>, i: int)
    requires
        0 <= i,
    ensures
        hex_run_end(b, i) >= i,
    decreases b.len() - i,
{
    if i < b.len() && is_hex_digit(b[i]) {
        lemma_hex_run_end_ge(b, i + 1);
    }
}

/// The run of `radix` digits and `_` separators from `i` is the longest
/// one: every byte in it is a digit or `_`, and the byte after it, if any,
/// is neither.
pub proof fn lemma_digit_run(b: Seq<u8>, i: int, radix: int)
    requires
        0 <= i <= b.len(),
    ensures
        i <= digit_run_end(b, i, radix) <= b.len(),
        forall|k: int|
            i <= k < digit_run_end(b, i, radix) ==> is_radix_digit(#[trigger] b[k], radix) || b[k] == 95u8,
        digit_run_end(b, i, radix) < b.len() ==> !(is_radix_digit(b[digit_run_end(b, i, radix)], radix)
            || b[digit_run_end(b, i, radix)] == 95u8),
    decreases b.len() - i,
{
    if i < b.len() && (is_radix_digit(b[i], radix) || b[i] == 95u8) {
        lemma_digit_run(b, i + 1, radix);
    }
}

/// A literal with a two-byte radix prefix (`0x`, `0b`) is refused exactly
/// when nothing follows the prefix or when the longest run of digits and
/// `_` after it holds no digit (`0x`, `0xg`, `0x_`).
pub proof fn lemma_prefixed_int_refusal(b: Seq<u8>, start: int, radix: int)
    requires
        0 <= start,
    ensures
        start + 2 > b.len() ==> prefixed_int_at(b, start, radix) is None,
        start + 2 <= b.len() ==> {
            &&& prefixed_int_at(b, start, radix) is None <==> forall|k: int|
                start + 2 <= k < digit_run_end(b, start + 2, radix) ==> #[trigger] b[k] == 95u8
            &&& forall|k: int|
                start + 2 <= k < digit_run_end(b, start + 2, radix) ==> is_radix_digit(#[trigger] b[k], radix)
                    || b[k] == 95u8
            &&& digit_run_end(b, start + 2, radix) < b.len() ==> !(is_radix_digit(
                b[digit_run_end(b, start + 2, radix)],
                radix,
            ) || b[digit_run_end(b, start + 2, radix)] == 95u8)
        },
{
    if start + 2 <= b.len() {
        lemma_digit_run(b, start + 2, radix);
    }
}

/// The ways an escape sequence at the backslash at `i` is refused: a
/// backslash that ends the input; an unknown escape letter; `\x` without
/// two hex digits or above `0x7F`; `\u` without `{`; `\u{` with no digit,
/// more than six digits, no closing `}`, a surrogate or a value above
/// `0x10FFFF`.
pub proof fn lemma_escape_refusals(b: Seq<u8>, i: int)
    requires
        0 <= i < b.len(),
        b[i] == 92u8,
    ensures
        i + 1 == b.len() ==> escape_at(b, i) is None,
        i + 1 < b.len() && !(b[i + 1] == 110u8 || b[i + 1] == 116u8 || b[i + 1] == 114u8 || b[i + 1] == 92u8
            || b[i + 1] == 39u8 || b[i + 1] == 34u8 || b[i + 1] == 48u8 || b[i + 1] == 120u8 || b[i + 1]
            == 117u8) ==> escape_at(b, i) is None,
        i + 1 < b.len() && b[i + 1] == 120u8 && !(i + 3 < b.len() && is_hex_digit(b[i + 2]) && is_hex_digit(
            b[i + 3],
        )) ==> escape_at(b, i) is None,
        i + 3 < b.len() && b[i + 1] == 120u8 && hex_value(b[i + 2]) * 16 + hex_value(b[i + 3]) > 0x7F
            ==> escape_at(b, i) is None,
        i + 1 < b.len() && b[i + 1] == 117u8 && !(i + 2 < b.len() && b[i + 2] == 123u8) ==> escape_at(b, i) is None,
        i + 2 < b.len() && b[i + 1] == 117u8 && b[i + 2] == 123u8 ==> {
            let e = hex_run_end(b, i + 3);
            let v = digits_value(b, i + 3, e, 16);
            &&& e == i + 3 ==> escape_at(b, i) is None
            &&& e - (i + 3) > 6 ==> escape_at(b, i) is None
            &&& !(e < b.len() && b[e] == 125u8) ==> escape_at(b, i) is None
            &&& 0xD800 <= v <= 0xDFFF ==> escape_at(b, i) is None
            &&& v > 0x10FFFF ==> escape_at(b, i) is None
        },
{
}

/// A string body from `i` with no `"` anywhere after it is refused.
proof fn lemma_body_unterminated(b: Seq<u8>, i: int)
    requires
        forall|k: int| i <= k < b.len() ==> b[k] != 34u8,
    ensures
        string_body_at(b, i) is None,
    decreases b.len() - i,
{
    if 0 <= i < b.len() {
        let step = if b[i] == 92u8 {
            escape_at(b, i)
        } else {
            char_at(b, i)
        };
        if let Some((c, j)) = step {
            if i < j <= b.len() {
                lemma_body_unterminated(b, j);
            }
        }
    }
}

/// A string body from `i` that is read ends just past a `"`, beyond `i`.
proof fn lemma_body_terminated(b: Seq<u8>, i: int)
    requires
        string_body_at(b, i) is Some,
    ensures
        string_body_at(b, i) matches Some((_, end)) && i < end <= b.len() && b[end - 1] == 34u8,
    decreases b.len() - i,
{
    if b[i] != 34u8 {
        let step = if b[i] == 92u8 {
            escape_at(b, i)
        } else {
            char_at(b, i)
        };
        if let Some((c, j)) = step {
            lemma_body_terminated(b, j);
        }
    }
}

/// The ways a string literal at `start` is refused: no opening `"`; no
/// closing `"` after it (a trailing backslash included); an escape that is
/// refused wherever the body reaches it. A literal that is read ends just
/// past a closing `"`.
pub proof fn lemma_string_refusals(b: Seq<u8>, start: int)
    ensures
        !(0 <= start < b.len() && b[start] == 34u8) ==> string_literal_at(b, start) is None,
        (forall|k: int| start < k < b.len() ==> b[k] != 34u8) ==> string_literal_at(b, start) is None,
        forall|i: int|
            0 <= i < b.len() && b[i] == 92u8 && escape_at(b, i) is None ==> #[trigger] string_body_at(b, i) is None,
        string_literal_at(b, start) matches Some((_, end)) ==> start < end <= b.len() && b[end - 1] == 34u8,
{
    if 0 <= start < b.len() && b[start] == 34u8 {
        if forall|k: int| start < k < b.len() ==> b[k] != 34u8 {
            lemma_body_unterminated(b, start + 1);
        }
        if string_body_at(b, start + 1) is Some {
            lemma_body_terminated(b, start + 1);
        }
    }
}

/// The ways a character literal at `start` is refused: no opening `'`; an
/// empty `''` or a newline inside; a refused escape; no closing `'` right
/// after the character. A literal that is read ends just past a `'`.
pub proof fn lemma_char_refusals(b: Seq<u8>, start: int)
    requires
        0 <= start,
    ensures
        !(start < b.len() && b[start] == 39u8) ==> char_literal_at(b, start) is None,
        start + 1 >= b.len() ==> char_literal_at(b, start) is None,
        start + 1 < b.len() && (b[start + 1] == 39u8 || b[start + 1] == 10u8) ==> char_literal_at(b, start) is None,
        start + 1 < b.len() && b[start + 1] == 92u8 && escape_at(b, start + 1) is None ==> char_literal_at(
            b,
            start,
        ) is None,
        start + 1 < b.len() && b[start + 1] == 92u8 && (escape_at(b, start + 1) matches Some((_, q)) && !(q
            < b.len() && b[q] == 39u8)) ==> char_literal_at(b, start) is None,
        char_literal_at(b, start) matches Some((_, end)) ==> start < end <= b.len() && b[end - 1] == 39u8,
{
}

/// A digit value never shrinks as digits are appended.
proof fn lemma_digits_value_grows(b: Seq<u8>, from: int, to: int, radix: int)
    requires
        from < to,
        radix >= 2,
        b[to - 1] == 95u8 || is_hex_digit(b[to - 1]),
    ensures
        digits_value(b, from, to, radix) >= digits_value(b, from, to - 1, radix),
{
    let v = digits_value(b, from, to - 1, radix);
    if b[to - 1] != 95u8 {
        assert(v * radix >= v) by (nonlinear_arith)
            requires
                radix >= 2,
                v >= 0,
        ;
    }
}

impl<'a> Scanner<'a> {
    /// Consumes the run of `radix` digits and `_` at the cursor; returns the
    /// run's value (saturated) and whether it held a digit.
    fn scan_digit_run(&mut self, radix: u64) -> (r: (u64, bool))
        requires
            old(self).wf(),
            radix == 2 || radix == 10 || radix == 16,
        ensures
            final(self).wf(),
            final(self).same_input(old(self)),
            final(self).pos == digit_run_end(old(self).bytes@, old(self).pos as int, radix as int),
            r.0 == saturate(
                digits_value(old(self).bytes@, old(self).pos as int, final(self).pos as int, radix as int),
            ),
            r.1 == has_digit(old(self).bytes@, old(self).pos as int, final(self).pos as int),
    {
        let ghost start = self.pos as int;
        let ghost b = self.bytes@;
        let mut value: u64 = 0;
        let mut overflow = false;
        let mut saw_digit = false;
        while self.pos < self.bytes.len()
            invariant_except_break
                self.wf(),
                self.same_input(old(self)),
                b == self.bytes@,
                start <= self.pos,
                radix == 2 || radix == 10 || radix == 16,
                digit_run_end(b, start, radix as int) == digit_run_end(b, self.pos as int, radix as int),
                overflow ==> digits_value(b, start, self.pos as int, radix as int) > u64::MAX,
                !overflow ==> value == digits_value(b, start, self.pos as int, radix as int),
                saw_digit == has_digit(b, start, self.pos as int),
            ensures
                self.wf(),
                self.same_input(old(self)),
                b == self.bytes@,
                start <= self.pos,
                digit_run_end(b, start, radix as int) == self.pos,
                overflow ==> digits_value(b, start, self.pos as int, radix as int) > u64::MAX,
                !overflow ==> value == digits_value(b, start, self.pos as int, radix as int),
                saw_digit == has_digit(b, start, self.pos as int),
            decreases self.bytes@.len() - self.pos,
        {
            let c = self.bytes[self.pos];
            let is_digit = if radix == 2 {
                c == 48u8 || c == 49u8
            } else if radix == 10 {
                48u8 <= c && c <= 57u8
            } else {
                (48u8 <= c && c <= 57u8) || (97u8 <= c && c <= 102u8) || (65u8 <= c && c <= 70u8)
            };
            if is_digit {
                proof {
                    lemma_digits_value_grows(b, start, self.pos as int + 1, radix as int);
                }
                if !overflow {
                    let d = hex_digit_value(c) as u64;
                    match value.checked_mul(radix) {
                        Some(m) => match m.checked_add(d) {
                            Some(v) => {
                                value = v;
                            },
                            None => {
                                overflow = true;
                            },
                        },
                        None => {
                            proof {
                                assert(value * radix + d >= value * radix);
                            }
                            overflow = true;
                        },
                    }
                }
                saw_digit = true;
                proof {
                    assert(has_digit(b, start, self.pos as int + 1)) by {
                        assert(b[self.pos as int] != 95u8);
                    }
                }
                self.pos = self.pos + 1;
            } else if c == 95u8 {
                proof {
                    assert(has_digit(b, start, self.pos as int + 1) == has_digit(b, start, self.pos as int)) by {
                        if has_digit(b, start, self.pos as int + 1) {
                            let k = choose|k: int| start <= k < self.pos + 1 && b[k] != 95u8;
                            assert(k < self.pos);
                        }
                    }
                }
                self.pos = self.pos + 1;
            } else {
                break;
            }
        }
        if overflow {
            value = u64::MAX;
        }
        (value, saw_digit)
    }

    /// Scans a decimal integer literal (digits and `_`, then an optional
    /// suffix) at the cursor.
    pub fn scan_int_decimal(&mut self) -> (r: (u64, IntSuffix, Span))
        requires
            old(self).wf(),
        ensures
            final(self).wf(),
            final(self).same_input(old(self)),
            r.0 == decimal_int_at(old(self).bytes@, old(self).pos as int).0,
            r.1 == decimal_int_at(old(self).bytes@, old(self).pos as int).1,
            final(self).pos == decimal_int_at(old(self).bytes@, old(self).pos as int).2,
            r.2 == mk_span(old(self).file_id, old(self).pos as u32, final(self).pos as u32),
    {
        let start = self.pos as u32;
        let (value, _) = self.scan_digit_run(10);
        let suffix = self.scan_int_suffix();
        let end = self.pos as u32;
        (value, suffix, Span::new(self.file_id, start, end))
    }

    /// Scans a hexadecimal literal; the cursor is taken to be at its `0x`.
    /// On `None` the cursor does not move.
    pub fn scan_int_hex(&mut self) -> (r: Option<(u64, IntSuffix, Span)>)
        requires
            old(self).wf(),
        ensures
            final(self).wf(),
            final(self).same_input(old(self)),
            match prefixed_int_at(old(self).bytes@, old(self).pos as int, 16) {
                None => r is None && final(self).pos == old(self).pos,
                Some((v, suffix, end)) => final(self).pos == end && r == Some((v, suffix, mk_span(old(self).file_id, old(self).pos as u32, end as u32))),
            },
    {
        self.scan_prefixed_int(16)
    }

    /// Scans a binary literal; the cursor is taken to be at its `0b`.
    /// On `None` the cursor does not move.
    pub fn scan_int_bin(&mut self) -> (r: Option<(u64, IntSuffix, Span)>)
        requires
            old(self).wf(),
        ensures
            final(self).wf(),
            final(self).same_input(old(self)),
            match prefixed_int_at(old(self).bytes@, old(self).pos as int, 2) {
                None => r is None && final(self).pos == old(self).pos,
                Some((v, suffix, end)) => final(self).pos == end && r == Some((v, suffix, mk_span(old(self).file_id, old(self).pos as u32, end as u32))),
            },
    {
        self.scan_prefixed_int(2)
    }

    fn scan_prefixed_int(&mut self, radix: u64) -> (r: Option<(u64, IntSuffix, Span)>)
        requires
            old(self).wf(),
            radix == 2 || radix == 16,
        ensures
            final(self).wf(),
            final(self).same_input(old(self)),
            match prefixed_int_at(old(self).bytes@, old(self).pos as int, radix as int) {
                None => r is None && final(self).pos == old(self).pos,
                Some((v, suffix, end)) => final(self).pos == end && r == Some((v, suffix, mk_span(old(self).file_id, old(self).pos as u32, end as u32))),
            },
    {
        let start = self.pos;
        if self.bytes.len() < 2 || start > self.bytes.len() - 2 {
            return None;
        }
        self.pos = start + 2;
        let (value, saw_digit) = self.scan_digit_run(radix);
        if !saw_digit {
            self.pos = start;
            return None;
        }
        let suffix = self.scan_int_suffix();
        let end = self.pos as u32;
        Some((value, suffix, Span::new(self.file_id, start as u32, end)))
    }

    /// Consumes the run of decimal digits and `_` at the cursor, appending
    /// its digits to `buf`; returns whether the run held a digit.
    fn copy_digit_run(&mut self, buf: &mut Vec<u8>) -> (saw: bool)
        requires
            old(self).wf(),
        ensures
            final(self).wf(),
            final(self).same_input(old(self)),
            final(self).pos == digit_run_end(old(self).bytes@, old(self).pos as int, 10),
            final(buf)@ == old(buf)@ + digits_only(old(self).bytes@, old(self).pos as int, final(self).pos as int),
            saw == has_digit(old(self).bytes@, old(self).pos as int, final(self).pos as int),
    {
        let ghost start = self.pos as int;
        let ghost b = self.bytes@;
        let mut saw = false;
        while self.pos < self.bytes.len()
            invariant_except_break
                self.wf(),
                self.same_input(old(self)),
                b == self.bytes@,
                start <= self.pos,
                digit_run_end(b, start, 10) == digit_run_end(b, self.pos as int, 10),
                buf@ == old(buf)@ + digits_only(b, start, self.pos as int),
                saw == has_digit(b, start, self.pos as int),
            ensures
                self.wf(),
                self.same_input(old(self)),
                b == self.bytes@,
                digit_run_end(b, start, 10) == self.pos,
                buf@ == old(buf)@ + digits_only(b, start, self.pos as int),
                saw == has_digit(b, start, self.pos as int),
            decreases self.bytes@.len() - self.pos,
        {
            let c = self.bytes[self.pos];
            if 48u8 <= c && c <= 57u8 {
                buf.push(c);
                proof {
                    assert(has_digit(b, start, self.pos as int + 1)) by {
                        assert(b[self.pos as int] != 95u8);
                    }
                    assert(buf@ =~= old(buf)@ + digits_only(b, start, self.pos as int + 1));
                }
                saw = true;
                self.pos = self.pos + 1;
            } else if c == 95u8 {
                proof {
                    assert(has_digit(b, start, self.pos as int + 1) == has_digit(b, start, self.pos as int)) by {
                        if has_digit(b, start, self.pos as int + 1) {
                            let k = choose|k: int| start <= k < self.pos + 1 && b[k] != 95u8;
                            assert(k < self.pos);
                        }
                    }
                }
                self.pos = self.pos + 1;
            } else {
                break;
            }
        }
        saw
    }

    fn scan_float_suffix(&mut self) -> (suffix: FloatSuffix)
        requires
            old(self).wf(),
        ensures
            final(self).wf(),
            final(self).same_input(old(self)),
            suffix == float_suffix_at(old(self).bytes@, old(self).pos as int).0,
            final(self).pos == old(self).pos + float_suffix_at(old(self).bytes@, old(self).pos as int).1,
    {
        if self.peek() != Some(102u8) {
            proof {
                if matches_at(self.bytes@, self.pos as int, seq![102u8, 51u8, 50u8]) {
                    assert(self.bytes@.subrange(self.pos as int, self.pos + 3)[0] == 102u8);
                }
                if matches_at(self.bytes@, self.pos as int, seq![102u8, 54u8, 52u8]) {
                    assert(self.bytes@.subrange(self.pos as int, self.pos + 3)[0] == 102u8);
                }
            }
            return FloatSuffix::Unsuffixed;
        }
        let p = self.pos;
        if bytes_match_at(self.bytes, p, &[102u8, 51u8, 50u8]) {
            self.pos = p + 3;
            FloatSuffix::F32
        } else if bytes_match_at(self.bytes, p, &[102u8, 54u8, 52u8]) {
            self.pos = p + 3;
            FloatSuffix::F64
        } else {
            FloatSuffix::Unsuffixed
        }
    }

    /// Scans a float literal at the cursor and returns its text (digits, `.`,
    /// and an exponent written `e`, without `_` separators), its suffix and
    /// its span. On `None` the cursor does not move. The text always reads
    /// as a decimal floating-point number.
    pub fn scan_float_text(&mut self) -> (r: Option<(Vec<u8>, FloatSuffix, Span)>)
        requires
            old(self).wf(),
        ensures
            final(self).wf(),
            final(self).same_input(old(self)),
            match float_at(old(self).bytes@, old(self).pos as int) {
                None => r is None && final(self).pos == old(self).pos,
                Some((text, suffix, end)) => final(self).pos == end && (r matches Some(
                    (t, s, span),
                ) && t@ == text && s == suffix && span == mk_span(old(self).file_id, old(self).pos as u32, end as u32)),
            },
    {
        let ghost b = self.bytes@;
        let start = self.pos;
        match self.peek() {
            Some(c) => {
                if !(48u8 <= c && c <= 57u8) {
                    return None;
                }
            },
            None => {
                return None;
            },
        }
        let mut buf: Vec<u8> = Vec::new();
        self.copy_digit_run(&mut buf);
        let e1 = self.pos;
        let dot_followed_by_digit = match (self.peek(), self.peek_at(1)) {
            (Some(d), Some(n)) => d == 46u8 && 48u8 <= n && n <= 57u8,
            _ => false,
        };
        if !dot_followed_by_digit {
            self.pos = start;
            return None;
        }
        buf.push(46u8);
        self.pos = self.pos + 1;
        self.copy_digit_run(&mut buf);
        let e2 = self.pos;
        let ghost mantissa = buf@;
        match self.peek() {
            Some(c) => {
                if c == 101u8 || c == 69u8 {
                    buf.push(101u8);
                    self.pos = self.pos + 1;
                    let s = self.pos;
                    match self.peek() {
                        Some(sign) => {
                            if sign == 43u8 || sign == 45u8 {
                                buf.push(sign);
                                self.pos = self.pos + 1;
                            }
                        },
                        None => {},
                    }
                    let ghost s2 = self.pos;
                    let ghost before_exp = buf@;
                    let saw_exp_digit = self.copy_digit_run(&mut buf);
                    if !saw_exp_digit {
                        self.pos = start;
                        return None;
                    }
                    proof {
                        let sign = if s2 == s + 1 { seq![b[s as int]] } else { Seq::<u8>::empty() };
                        assert(before_exp =~= mantissa.push(101u8) + sign);
                    }
                }
            },
            None => {},
        }
        let suffix = self.scan_float_suffix();
        let span = Span::new(self.file_id, start as u32, self.pos as u32);
        proof {
            assert(mantissa =~= digits_only(b, start as int, e1 as int).push(46u8) + digits_only(
                b,
                e1 + 1,
                e2 as int,
            ));
        }
        Some((buf, suffix, span))
    }

    /// Decodes the escape sequence whose backslash is at the cursor. On
    /// success the cursor is past the sequence.
    fn scan_escape_char(&mut self) -> (r: Option<char>)
        requires
            old(self).wf(),
            old(self).pos < old(self).bytes@.len(),
            old(self).bytes@[old(self).pos as int] == 92u8,
        ensures
            final(self).wf(),
            final(self).same_input(old(self)),
            match escape_at(old(self).bytes@, old(self).pos as int) {
                Some((c, end)) => r == Some(c) && final(self).pos == end,
                None => r is None,
            },
    {
        let ghost b = self.bytes@;
        let ghost i = self.pos as int;
        self.pos = self.pos + 1;
        let kind = match self.bump() {
            Some(k) => k,
            None => {
                return None;
            },
        };
        if kind == 110u8 {
            Some('\n')
        } else if kind == 116u8 {
            Some('\t')
        } else if kind == 114u8 {
            Some('\r')
        } else if kind == 92u8 {
            Some('\\')
        } else if kind == 39u8 {
            Some('\'')
        } else if kind == 34u8 {
            Some('"')
        } else if kind == 48u8 {
            Some('\0')
        } else if kind == 120u8 {
            let h1 = match self.bump() {
                Some(h) => h,
                None => {
                    return None;
                },
            };
            let h2 = match self.bump() {
                Some(h) => h,
                None => {
                    return None;
                },
            };
            if !is_hex_byte(h1) || !is_hex_byte(h2) {
                return None;
            }
            let v = (hex_digit_value(h1) as u32) * 16 + hex_digit_value(h2) as u32;
            if v > 0x7F {
                return None;
            }
            let r = char_from_u32(v);
            proof {
                if let Some(c) = r {
                    char_u32_cast(c, v);
                }
            }
            r
        } else if kind == 117u8 {
            match self.bump() {
                Some(open) => {
                    if open != 123u8 {
                        return None;
                    }
                },
                None => {
                    return None;
                },
            }
            let ghost j0 = self.pos as int;
            let mut v: u32 = 0;
            let mut count: u32 = 0;
            loop
                invariant_except_break
                    self.wf(),
                    self.same_input(old(self)),
                    b == self.bytes@,
                    j0 == i + 3,
                    i == old(self).pos,
                    b == old(self).bytes@,
                    b[i + 1] == 117u8,
                    i + 2 < b.len(),
                    b[i + 2] == 123u8,
                    j0 <= self.pos,
                    count == self.pos - j0,
                    count <= 6,
                    forall|k: int| j0 <= k < self.pos ==> is_hex_digit(#[trigger] b[k]),
                    hex_run_end(b, j0) == hex_run_end(b, self.pos as int),
                    v == digits_value(b, j0, self.pos as int, 16),
                    count <= 0 ==> v < 0x1,
                    count <= 1 ==> v < 0x10,
                    count <= 2 ==> v < 0x100,
                    count <= 3 ==> v < 0x1000,
                    count <= 4 ==> v < 0x10000,
                    count <= 5 ==> v < 0x100000,
                    v < 0x1000000,
                ensures
                    self.wf(),
                    self.same_input(old(self)),
                    b == self.bytes@,
                    j0 == i + 3,
                    i == old(self).pos,
                    b == old(self).bytes@,
                    b[i + 1] == 117u8,
                    b[i + 2] == 123u8,
                    count == self.pos - j0,
                    count <= 6,
                    hex_run_end(b, j0) == self.pos,
                    self.pos < b.len(),
                    b[self.pos as int] == 125u8,
                    v == digits_value(b, j0, self.pos as int, 16),
                decreases b.len() - self.pos,
            {
                let c = match self.peek() {
                    Some(c) => c,
                    None => {
                        proof {
                            assert(hex_run_end(b, self.pos as int) == self.pos as int);
                        }
                        return None;
                    },
                };
                if c == 125u8 {
                    break;
                }
                if !is_hex_byte(c) {
                    proof {
                        assert(hex_run_end(b, self.pos as int) == self.pos as int);
                    }
                    return None;
                }
                if count >= 6 {
                    proof {
                        lemma_hex_run_end_ge(b, self.pos as int + 1);
                        assert(hex_run_end(b, self.pos as int) > self.pos);
                    }
                    return None;
                }
                v = v * 16 + hex_digit_value(c) as u32;
                count = count + 1;
                self.pos = self.pos + 1;
            }
            if count == 0 {
                return None;
            }
            self.pos = self.pos + 1;
            let r = char_from_u32(v);
            proof {
                if let Some(c) = r {
                    char_u32_cast(c, v);
                }
            }
            r
        } else {
            None
        }
    }

    /// Decodes the character whose encoding starts at the cursor.
    fn decode_char_at(&self) -> (r: (char, usize))
        requires
            self.wf(),
            self.pos < self.bytes@.len(),
            is_char_boundary(self.bytes@, self.pos as int),
        ensures
            char_at(self.bytes@, self.pos as int) == Some((r.0, self.pos + r.1)),
            r.1 >= 1,
            self.pos + r.1 <= self.bytes@.len(),
            is_char_boundary(self.bytes@, self.pos + r.1),
    {
        let ghost b = self.bytes@;
        proof {
            encode_utf8_valid_utf8(self.src@);
        }
        let (_, rest) = self.src.split_at(self.pos);
        proof {
            assert(rest.spec_bytes() =~= rest_of(b, self.pos as int));
            if rest@.len() == 0 {
                assert(encode_utf8(rest@) =~= Seq::<u8>::empty());
            }
        }
        let c = rest.get_char(0);
        let cu = c as u32;
        let w: usize = if cu < 0x80 {
            1
        } else if cu < 0x800 {
            2
        } else if cu < 0x10000 {
            3
        } else {
            4
        };
        proof {
            encode_utf8_first_scalar(rest@);
            char_is_scalar(c);
            char_u32_cast(c, cu);
            crate::span::lemma_boundary_step(b, self.pos as int);
        }
        (c, w)
    }

    /// Scans a character literal at the cursor. On `None` the cursor does
    /// not move.
    pub fn scan_char(&mut self) -> (r: Option<(char, Span)>)
        requires
            old(self).wf(),
        ensures
            final(self).wf(),
            final(self).same_input(old(self)),
            match char_literal_at(old(self).bytes@, old(self).pos as int) {
                None => r is None && final(self).pos == old(self).pos,
                Some((c, end)) => final(self).pos == end && r == Some(
                    (c, mk_span(old(self).file_id, old(self).pos as u32, end as u32)),
                ),
            },
    {
        let ghost b = self.bytes@;
        match self.peek() {
            Some(q) => {
                if q != 39u8 {
                    return None;
                }
            },
            None => {
                return None;
            },
        }
        let start = self.pos;
        proof {
            encode_utf8_valid_utf8(self.src@);
            is_char_boundary_iff_not_is_continuation_byte(b, start as int);
            crate::span::lemma_boundary_step(b, start as int);
        }
        self.pos = self.pos + 1;
        let ch = match self.peek() {
            None => {
                self.pos = start;
                return None;
            },
            Some(c) => {
                if c == 39u8 || c == 10u8 {
                    self.pos = start;
                    return None;
                } else if c == 92u8 {
                    match self.scan_escape_char() {
                        Some(e) => e,
                        None => {
                            self.pos = start;
                            return None;
                        },
                    }
                } else {
                    let (d, w) = self.decode_char_at();
                    self.pos = self.pos + w;
                    d
                }
            },
        };
        match self.peek() {
            Some(q) => {
                if q != 39u8 {
                    self.pos = start;
                    return None;
                }
            },
            None => {
                self.pos = start;
                return None;
            },
        }
        self.pos = self.pos + 1;
        Some((ch, Span::new(self.file_id, start as u32, self.pos as u32)))
    }

    /// Scans a string literal at the cursor, decoding its escapes. On
    /// `None` the cursor does not move.
    pub fn scan_string(&mut self) -> (r: Option<(String, Span)>)
        requires
            old(self).wf(),
        ensures
            final(self).wf(),
            final(self).same_input(old(self)),
            match string_literal_at(old(self).bytes@, old(self).pos as int) {
                None => r is None && final(self).pos == old(self).pos,
                Some((text, end)) => final(self).pos == end && (r matches Some((s, span)) && s@
                    == text && span == mk_span(old(self).file_id, old(self).pos as u32, end as u32)),
            },
    {
        let ghost b = self.bytes@;
        match self.peek() {
            Some(q) => {
                if q != 34u8 {
                    return None;
                }
            },
            None => {
                return None;
            },
        }
        let start = self.pos;
        proof {
            encode_utf8_valid_utf8(self.src@);
            is_char_boundary_iff_not_is_continuation_byte(b, start as int);
            crate::span::lemma_boundary_step(b, start as int);
        }
        self.pos = self.pos + 1;
        let mut buf = String::new();
        loop
            invariant
                self.wf(),
                self.same_input(old(self)),
                b == self.bytes@,
                b == old(self).bytes@,
                start == old(self).pos,
                start < b.len(),
                b[start as int] == 34u8,
                start < self.pos,
                valid_utf8(b),
                is_char_boundary(b, self.pos as int),
                string_body_at(b, start + 1) == prepend_body(buf@, string_body_at(b, self.pos as int)),
            decreases b.len() - self.pos,
        {
            let here = self.pos;
            match self.peek() {
                None => {
                    self.pos = start;
                    return None;
                },
                Some(c) => {
                    if c == 34u8 {
                        self.pos = self.pos + 1;
                        proof {
                            assert(buf@ + Seq::<char>::empty() =~= buf@);
                        }
                        let span = Span::new(self.file_id, start as u32, self.pos as u32);
                        return Some((buf, span));
                    } else if c == 92u8 {
                        match self.scan_escape_char() {
                            Some(e) => {
                                let ghost old_buf = buf@;
                                string_push(&mut buf, e);
                                proof {
                                    is_char_boundary_iff_not_is_continuation_byte(b, here as int);
                                    lemma_escape_end_boundary(b, here as int);
                                    lemma_prepend_step(old_buf, e, string_body_at(b, self.pos as int));
                                }
                            },
                            None => {
                                self.pos = start;
                                return None;
                            },
                        }
                    } else {
                        let (d, w) = self.decode_char_at();
                        self.pos = self.pos + w;
                        let ghost old_buf = buf@;
                        string_push(&mut buf, d);
                        proof {
                            lemma_prepend_step(old_buf, d, string_body_at(b, self.pos as int));
                        }
                    }
                },
            }
        }
    }

    fn scan_int_suffix(&mut self) -> (suffix: IntSuffix)
        requires
            old(self).wf(),
        ensures
            final(self).wf(),
            final(self).same_input(old(self)),
            suffix == int_suffix_at(old(self).bytes@, old(self).pos as int).0,
            final(self).pos == old(self).pos + int_suffix_at(old(self).bytes@, old(self).pos as int).1,
    {
        let lead = match self.peek() {
            Some(b) => b,
            None => {
                return IntSuffix::Unsuffixed;
            },
        };
        if lead != 105u8 && lead != 117u8 {
            return IntSuffix::Unsuffixed;
        }
        let p = self.pos;
        if bytes_match_at(self.bytes, p, &[105u8, 115u8, 105u8, 122u8, 101u8]) {
            self.pos = p + 5;
            IntSuffix::ISize
        } else if bytes_match_at(self.bytes, p, &[105u8, 54u8, 52u8]) {
            self.pos = p + 3;
            IntSuffix::I64
        } else if bytes_match_at(self.bytes, p, &[105u8, 51u8, 50u8]) {
            self.pos = p + 3;
            IntSuffix::I32
        } else if bytes_match_at(self.bytes, p, &[105u8, 49u8, 54u8]) {
            self.pos = p + 3;
            IntSuffix::I16
        } else if bytes_match_at(self.bytes, p, &[105u8, 56u8]) {
            self.pos = p + 2;
            IntSuffix::I8
        } else if bytes_match_at(self.bytes, p, &[117u8, 115u8, 105u8, 122u8, 101u8]) {
            self.pos = p + 5;
            IntSuffix::USize
        } else if bytes_match_at(self.bytes, p, &[117u8, 54u8, 52u8]) {
            self.pos = p + 3;
            IntSuffix::U64
        } else if bytes_match_at(self.bytes, p, &[117u8, 51u8, 50u8]) {
            self.pos = p + 3;
            IntSuffix::U32
        } else if bytes_match_at(self.bytes, p, &[117u8, 49u8, 54u8]) {
            self.pos = p + 3;
            IntSuffix::U16
        } else if bytes_match_at(self.bytes, p, &[117u8, 56u8]) {
            self.pos = p + 2;
            IntSuffix::U8
        } else {
            IntSuffix::Unsuffixed
        }
    }
}

} // verus!
