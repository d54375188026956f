use vstd::prelude::*;
use vstd::string::StringSliceAdditionalSpecFns;
use vstd::utf8::*;

use crate::error::{CompileError, Label};
use crate::span::{
    col_of, line_end_of, line_of, line_start_of, line_starts_of, SourceFile, SourceMap, Span,
};

verus! {

/// The character of a decimal digit.
pub open spec fn digit_char(d: nat) -> char {
    ((d + 48) as u32) as char
}

/// The decimal digits of `n`, without leading zeros.
pub open spec fn dec(n: nat) -> Seq<char>
    decreases n,
{
    if n < 10 {
        seq![digit_char(n)]
    } else {
        dec(n / 10).push(digit_char(n % 10))
    }
}

/// `k` copies of `c`.
pub open spec fn repeat_char(c: char, k: int) -> Seq<char> {
    Seq::new(if k > 0 { k as nat } else { 0 }, |_i: int| c)
}

/// `n` in decimal, padded on the left with zeros to four characters.
pub open spec fn zero_pad4(n: nat) -> Seq<char> {
    repeat_char('0', 4 - dec(n).len()) + dec(n)
}

/// `n` in decimal, padded on the left with spaces to four characters.
pub open spec fn space_pad4(n: nat) -> Seq<char> {
    repeat_char(' ', 4 - dec(n).len()) + dec(n)
}

/// Index of the first primary label at or after `i`.
pub open spec fn first_primary_from(labels: Seq<Label>, i: int) -> Option<int>
    decreases labels.len() - i,
{
    if i < 0 || i >= labels.len() {
        None
    } else if labels[i].primary {
        Some(i)
    } else {
        first_primary_from(labels, i + 1)
    }
}

/// Index of the first primary label.
pub open spec fn first_primary(labels: Seq<Label>) -> Option<int> {
    first_primary_from(labels, 0)
}

/// The span and message the diagnostic's caret line shows: the first
/// primary label's, else the diagnostic's own span with no message.
pub open spec fn primary_of(err: CompileError) -> (Span, Seq<char>) {
    match first_primary(err.labels@) {
        Some(i) => (err.labels@[i].span, err.labels@[i].message@),
        None => (err.span, Seq::<char>::empty()),
    }
}

/// `file:line:col` of an offset.
pub open spec fn location(f: SourceFile, off: int) -> Seq<char> {
    f.name@ + ":"@ + dec(line_of(f.bytes(), off) as nat) + ":"@ + dec(
        col_of(f.bytes(), off) as nat,
    )
}

/// Where the carets stop: the span's end, cut at the end of its first line.
pub open spec fn caret_stop(bytes: Seq<u8>, start: int, end: int) -> int {
    let le = line_end_of(bytes, start);
    if end <= le {
        end
    } else {
        le
    }
}

/// How many carets underline the primary span (at least one).
pub open spec fn caret_count(bytes: Seq<u8>, start: int, end: int) -> int {
    let ls = line_start_of(bytes, start);
    let e = caret_stop(bytes, start, end);
    let col = col_of(bytes, start);
    let end_col = if e > ls {
        decode_utf8(bytes.subrange(ls, e)).len() + 1int
    } else {
        col
    };
    if end_col - col >= 1 {
        end_col - col
    } else {
        1
    }
}

/// The carets underline each character of the span that lies on its first
/// line, one caret per character, and there is always at least one: for a
/// span within one line, as many carets as the span has characters.
pub proof fn lemma_caret_count_counts_chars(b: Seq<u8>, start: int, end: int)
    requires
        valid_utf8(b),
        b.len() < u32::MAX,
        0 <= start <= end,
        start <= b.len(),
        is_char_boundary(b, start),
        is_char_boundary(b, caret_stop(b, start, end)),
    ensures
        start <= caret_stop(b, start, end) <= b.len(),
        end <= line_end_of(b, start) ==> caret_stop(b, start, end) == end,
        forall|q: int| start <= q < caret_stop(b, start, end) ==> b[q] != 10u8,
        caret_stop(b, start, end) < end ==> caret_stop(b, start, end) == b.len() || b[caret_stop(
            b,
            start,
            end,
        )] == 10u8,
        caret_count(b, start, end) == {
            let n = decode_utf8(b.subrange(start, caret_stop(b, start, end))).len() as int;
            if n >= 1 {
                n
            } else {
                1
            }
        },
{
    crate::span::lemma_line_around(b, start);
    let ls = line_start_of(b, start);
    let e = caret_stop(b, start, end);
    if e > ls {
        crate::span::lemma_boundary_in_prefix(b, ls, e);
        let pre = b.take(e);
        valid_utf8_split(pre, ls);
        let sub = pre.subrange(ls, e);
        assert(sub =~= b.subrange(ls, e));
        let k = start - ls;
        if start < e {
            is_char_boundary_iff_not_is_continuation_byte(b, start);
            is_char_boundary_iff_not_is_continuation_byte(sub, k);
            assert(sub[k] == b[start]);
        } else {
            is_char_boundary_start_end_of_seq(sub);
        }
        decode_utf8_split(sub, k);
        assert(sub.subrange(0, k) =~= b.subrange(ls, start));
        assert(sub.subrange(k, sub.len() as int) =~= b.subrange(start, e));
    } else {
        assert(b.subrange(start, e) =~= Seq::<u8>::empty());
        assert(decode_utf8(Seq::<u8>::empty()) =~= Seq::<char>::empty());
    }
}

/// The `::: file:line:col: message` lines of the labels `0..n`, except
/// the primary one.
pub open spec fn secondary_lines(
    labels: Seq<Label>,
    primary: Option<int>,
    files: Seq<SourceFile>,
    n: int,
) -> Seq<char>
    decreases n,
{
    if n <= 0 {
        Seq::<char>::empty()
    } else {
        let before = secondary_lines(labels, primary, files, n - 1);
        let l = labels[n - 1];
        if primary == Some(n - 1) {
            before
        } else {
            before + "  ::: "@ + location(files[l.span.file_id.0 as int], l.span.start as int)
                + ": "@ + l.message@ + "\n"@
        }
    }
}

/// The `= note:` lines of the first `n` notes.
pub open spec fn note_lines(notes: Seq<String>, n: int) -> Seq<char>
    decreases n,
{
    if n <= 0 {
        Seq::<char>::empty()
    } else {
        note_lines(notes, n - 1) + "   = note: "@ + notes[n - 1]@ + "\n"@
    }
}

/// The `= help:` lines of the first `n` suggestions.
pub open spec fn help_lines(suggestions: Seq<crate::error::Suggestion>, n: int) -> Seq<char>
    decreases n,
{
    if n <= 0 {
        Seq::<char>::empty()
    } else {
        help_lines(suggestions, n - 1) + "   = help: "@ + suggestions[n - 1].message@ + "\n"@
    }
}

/// The full rendering of a diagnostic.
pub open spec fn rendered(err: CompileError, files: Seq<SourceFile>) -> Seq<char> {
    let (span, msg) = primary_of(err);
    "error[E"@ + zero_pad4(err.code.0 as nat) + "]: "@ + err.message@ + "\n"@ + primary_block(
        files[span.file_id.0 as int],
        span,
        msg,
    ) + secondary_lines(err.labels@, first_primary(err.labels@), files, err.labels@.len() as int)
        + note_lines(err.notes@, err.notes@.len() as int) + help_lines(
        err.suggestions@,
        err.suggestions@.len() as int,
    )
}

/// The offset is inside a registered file, on a character boundary.
pub open spec fn valid_position(files: Seq<SourceFile>, span: Span) -> bool {
    &&& span.file_id.0 < files.len()
    &&& span.start <= files[span.file_id.0 as int].bytes().len()
    &&& is_char_boundary(files[span.file_id.0 as int].bytes(), span.start as int)
}

/// What `render` needs of the diagnostic: every label's start, and the
/// diagnostic's primary span, lie on character boundaries of registered
/// files, and the carets end on a character boundary.
pub open spec fn renderable(err: CompileError, files: Seq<SourceFile>) -> bool {
    let (span, msg) = primary_of(err);
    let b = files[span.file_id.0 as int].bytes();
    &&& valid_position(files, span)
    &&& (caret_stop(b, span.start as int, span.end as int) > line_start_of(b, span.start as int)
        ==> is_char_boundary(b, caret_stop(b, span.start as int, span.end as int)))
    &&& forall|i: int| 0 <= i < err.labels@.len() ==> valid_position(files, #[trigger] err.labels@[i].span)
}

/// The decimal length of `n` grows with `n` as expected.
proof fn lemma_dec_len(n: nat)
    ensures
        n < 10 ==> dec(n).len() == 1,
        10 <= n < 100 ==> dec(n).len() == 2,
        100 <= n < 1000 ==> dec(n).len() == 3,
        n >= 1000 ==> dec(n).len() >= 4,
    decreases n,
{
    if n >= 10 {
        lemma_dec_len(n / 10);
    }
}

/// Appends `s`.
pub(crate) fn push_str(buf: &mut String, s: &str)
    ensures
        final(buf)@ == old(buf)@ + s@,
{
    buf.append(s);
}

/// Appends the decimal digits of `n`.
pub(crate) fn push_decimal(buf: &mut String, n: u64)
    ensures
        final(buf)@ == old(buf)@ + dec(n as nat),
    decreases n,
{
    if n >= 10 {
        push_decimal(buf, n / 10);
    }
    let d = n % 10;
    let c = char_of_digit(d as u8);
    crate::lexer::scan::string_push(buf, c);
    proof {
        assert(old(buf)@ + dec(n as nat) =~= (if n >= 10 { old(buf)@ + dec((n / 10) as nat) } else { old(buf)@ }).push(c));
    }
}

fn char_of_digit(d: u8) -> (c: char)
    requires
        d < 10,
    ensures
        c == digit_char(d as nat),
{
    let c = if d == 0 { '0' } else if d == 1 { '1' } else if d == 2 { '2' } else if d == 3 { '3' }
    else if d == 4 { '4' } else if d == 5 { '5' } else if d == 6 { '6' } else if d == 7 { '7' }
    else if d == 8 { '8' } else { '9' };
    c
}

/// Appends `k` copies of `c`.
fn push_repeat(buf: &mut String, c: char, k: usize)
    ensures
        final(buf)@ == old(buf)@ + repeat_char(c, k as int),
{
    let mut i: usize = 0;
    while i < k
        invariant
            i <= k,
            buf@ == old(buf)@ + repeat_char(c, i as int),
        decreases k - i,
    {
        crate::lexer::scan::string_push(buf, c);
        i = i + 1;
        proof {
            assert(buf@ =~= old(buf)@ + repeat_char(c, i as int));
        }
    }
}

/// Appends `n` padded to four characters with `pad`.
fn push_padded4(buf: &mut String, n: u64, pad: char)
    ensures
        final(buf)@ == old(buf)@ + repeat_char(pad, 4 - dec(n as nat).len()) + dec(n as nat),
{
    proof {
        lemma_dec_len(n as nat);
    }
    let k: usize = if n < 10 { 3 } else if n < 100 { 2 } else if n < 1000 { 1 } else { 0 };
    push_repeat(buf, pad, k);
    push_decimal(buf, n);
    proof {
        assert(repeat_char(pad, 4 - dec(n as nat).len()) =~= repeat_char(pad, k as int));
    }
}

/// The text of a file between two character boundaries.
fn text_between(f: &SourceFile, from: usize, to: usize) -> (t: &str)
    requires
        f.wf(),
        from <= to <= f.bytes().len(),
        is_char_boundary(f.bytes(), from as int),
        is_char_boundary(f.bytes(), to as int),
    ensures
        t@ == decode_utf8(f.bytes().subrange(from as int, to as int)),
        t@.len() <= to - from,
{
    let ghost bytes = f.bytes();
    proof {
        encode_utf8_valid_utf8(f.content@);
        crate::span::lemma_boundary_in_prefix(bytes, from as int, to as int);
    }
    let whole = f.content.as_str();
    let (head, _) = whole.split_at(to);
    let (_, text) = head.split_at(from);
    proof {
        assert(text.spec_bytes() =~= bytes.subrange(from as int, to as int));
        encode_utf8_valid_utf8(text@);
        encode_utf8_decode_utf8(text@);
        crate::span::lemma_decode_len(text.spec_bytes());
    }
    text
}

/// Offsets where the line holding `off` starts and ends.
fn line_bounds(f: &SourceFile, off: u32) -> (r: (usize, usize))
    requires
        f.wf(),
        off <= f.bytes().len(),
    ensures
        r.0 == line_start_of(f.bytes(), off as int),
        r.1 == line_end_of(f.bytes(), off as int),
        r.0 <= off <= r.1 <= f.bytes().len(),
        is_char_boundary(f.bytes(), r.0 as int),
        is_char_boundary(f.bytes(), r.1 as int),
{
    let ghost bytes = f.bytes();
    let ghost pre = line_starts_of(bytes.take(off as int));
    proof {
        crate::span::lemma_line_starts_shape(bytes);
        crate::span::lemma_line_starts_shape(bytes.take(off as int));
        crate::span::lemma_line_starts_prefix(bytes, off as int);
        encode_utf8_valid_utf8(f.content@);
        is_char_boundary_start_end_of_seq(bytes);
    }
    let k = line_index_of(f, off);
    let ls = f.line_starts[k - 1] as usize;
    proof {
        assert(pre[k - 1] == line_starts_of(bytes)[k - 1]);
        if k - 1 > 0 {
            crate::span::lemma_boundary_after_newline(bytes, ls - 1);
        }
    }
    let le: usize = if k < f.line_starts.len() {
        let next = f.line_starts[k] as usize;
        proof {
            is_char_boundary_iff_not_is_continuation_byte(bytes, next - 1);
        }
        next - 1
    } else {
        f.content.as_str().len()
    };
    (ls, le)
}

/// How many lines start at or before `off`.
fn line_index_of(f: &SourceFile, off: u32) -> (k: usize)
    requires
        f.wf(),
        off <= f.bytes().len(),
    ensures
        k == line_of(f.bytes(), off as int),
        1 <= k <= f.line_starts@.len(),
{
    let ghost bytes = f.bytes();
    let ghost pre_starts = line_starts_of(bytes.take(off as int));
    proof {
        crate::span::lemma_line_starts_shape(bytes);
        crate::span::lemma_line_starts_shape(bytes.take(off as int));
        crate::span::lemma_line_starts_prefix(bytes, off as int);
    }
    let mut k: usize = 0;
    while k < f.line_starts.len() && f.line_starts[k] <= off
        invariant
            k <= pre_starts.len(),
            f.line_starts@ == line_starts_of(bytes),
            pre_starts == line_starts_of(bytes).take(pre_starts.len() as int),
            pre_starts.len() <= line_starts_of(bytes).len(),
            forall|j: int|
                pre_starts.len() <= j < line_starts_of(bytes).len()
                    ==> line_starts_of(bytes)[j] > off,
        decreases f.line_starts@.len() - k,
    {
        proof {
            // the start just read is at most `off`, so it belongs to the prefix
            assert(k < pre_starts.len()) by {
                if k == pre_starts.len() {
                    assert(line_starts_of(bytes)[k as int] > off);
                }
            }
        }
        k = k + 1;
    }
    proof {
        if k < pre_starts.len() {
            assert(pre_starts[k as int] == line_starts_of(bytes)[k as int]);
            assert(pre_starts[k as int] <= off);
        }
    }
    k
}

/// The `-->` line of the primary location and the gutter after it.
pub open spec fn location_rows(f: SourceFile, start: int) -> Seq<char> {
    "  --> "@ + location(f, start) + "\n"@ + "   |\n"@
}

/// The numbered source line that holds `start`.
pub open spec fn source_row(f: SourceFile, start: int) -> Seq<char> {
    let b = f.bytes();
    space_pad4(line_of(b, start) as nat) + " | "@ + decode_utf8(
        b.subrange(line_start_of(b, start), line_end_of(b, start)),
    ) + "\n"@
}

/// The caret line under the source line, then the closing gutter.
pub open spec fn caret_rows(f: SourceFile, span: Span, msg: Seq<char>) -> Seq<char> {
    let b = f.bytes();
    let caret_tail = if msg.len() == 0 {
        "\n"@
    } else {
        " "@ + msg + "\n"@
    };
    "     | "@ + repeat_char(' ', col_of(b, span.start as int) - 1) + repeat_char(
        '^',
        caret_count(b, span.start as int, span.end as int),
    ) + caret_tail + "   |\n"@
}

/// The part of the rendering that shows the primary location and line.
pub open spec fn primary_block(f: SourceFile, span: Span, msg: Seq<char>) -> Seq<char> {
    location_rows(f, span.start as int) + source_row(f, span.start as int) + caret_rows(f, span, msg)
}

fn push_location(out: &mut String, src: &SourceMap, span: Span)
    requires
        src.wf(),
        valid_position(src@, span),
    ensures
        final(out)@ == old(out)@ + location(src@[span.file_id.0 as int], span.start as int),
{
    let f = src.file(span.file_id);
    let (line, col) = src.line_col(span.file_id, span.start);
    push_str(out, f.name.as_str());
    push_str(out, ":");
    push_decimal(out, line as u64);
    push_str(out, ":");
    push_decimal(out, col as u64);
    proof {
        assert(final(out)@ =~= old(out)@ + location(src@[span.file_id.0 as int], span.start as int));
    }
}

/// How many carets underline `span` on its line `ls..le`.
fn caret_len(f: &SourceFile, span: Span, ls: usize, le: usize, col: u32) -> (n: u32)
    requires
        f.wf(),
        span.start <= f.bytes().len(),
        ls == line_start_of(f.bytes(), span.start as int),
        le == line_end_of(f.bytes(), span.start as int),
        ls <= span.start <= le <= f.bytes().len(),
        is_char_boundary(f.bytes(), ls as int),
        col == col_of(f.bytes(), span.start as int),
        caret_stop(f.bytes(), span.start as int, span.end as int) > ls ==> is_char_boundary(
            f.bytes(),
            caret_stop(f.bytes(), span.start as int, span.end as int),
        ),
    ensures
        n == caret_count(f.bytes(), span.start as int, span.end as int),
{
    let stop: usize = if (span.end as usize) <= le { span.end as usize } else { le };
    let end_col: u32 = if stop > ls {
        let upto = text_between(f, ls, stop);
        upto.unicode_len() as u32 + 1
    } else {
        col
    };
    if end_col > col { end_col - col } else { 1 }
}

#[verifier::rlimit(40)]
fn push_primary_block(out: &mut String, src: &SourceMap, span: Span, msg: &str)
    requires
        src.wf(),
        valid_position(src@, span),
        ({
            let b = src@[span.file_id.0 as int].bytes();
            caret_stop(b, span.start as int, span.end as int) > line_start_of(b, span.start as int)
                ==> is_char_boundary(b, caret_stop(b, span.start as int, span.end as int))
        }),
    ensures
        final(out)@ == old(out)@ + primary_block(src@[span.file_id.0 as int], span, msg@),
{
    let ghost f0 = src@[span.file_id.0 as int];
    let f = src.file(span.file_id);
    let (line, col) = src.line_col(span.file_id, span.start);
    let ghost o0 = out@;
    push_str(out, "  --> ");
    push_location(out, src, span);
    push_str(out, "\n");
    push_str(out, "   |\n");
    proof {
        assert(out@ =~= o0 + location_rows(f0, span.start as int));
    }
    let ghost o1 = out@;
    let (ls, le) = line_bounds(f, span.start);
    let text = text_between(f, ls, le);
    push_padded4(out, line as u64, ' ');
    push_str(out, " | ");
    push_str(out, text);
    push_str(out, "\n");
    proof {
        assert(out@ =~= o1 + source_row(f0, span.start as int));
    }
    let ghost o2 = out@;
    let carets = caret_len(f, span, ls, le, col);
    push_str(out, "     | ");
    push_repeat(out, ' ', (col - 1) as usize);
    push_repeat(out, '^', carets as usize);
    if msg.is_empty() {
        push_str(out, "\n");
    } else {
        push_str(out, " ");
        push_str(out, msg);
        push_str(out, "\n");
    }
    push_str(out, "   |\n");
    proof {
        assert(out@ =~= o2 + caret_rows(f0, span, msg@));
        assert(out@ =~= o0 + primary_block(f0, span, msg@));
    }
}

fn push_secondary_lines(out: &mut String, err: &CompileError, src: &SourceMap, primary_idx: Option<usize>)
    requires
        src.wf(),
        renderable(*err, src@),
        first_primary(err.labels@) == match primary_idx {
            Some(k) => Some(k as int),
            None => None,
        },
    ensures
        final(out)@ == old(out)@ + secondary_lines(
            err.labels@,
            first_primary(err.labels@),
            src@,
            err.labels@.len() as int,
        ),
{
    let ghost files = src@;
    let mut j: usize = 0;
    while j < err.labels.len()
        invariant
            j <= err.labels@.len(),
            src.wf(),
            renderable(*err, src@),
            files == src@,
            first_primary(err.labels@) == match primary_idx {
                Some(k) => Some(k as int),
                None => None,
            },
            out@ == old(out)@ + secondary_lines(err.labels@, first_primary(err.labels@), files, j as int),
        decreases err.labels@.len() - j,
    {
        let is_primary = match primary_idx {
            Some(k) => k == j,
            None => false,
        };
        if !is_primary {
            let l = &err.labels[j];
            assert(valid_position(files, err.labels@[j as int].span));
            let ghost before = out@;
            push_str(out, "  ::: ");
            push_location(out, src, l.span);
            push_str(out, ": ");
            push_str(out, l.message.as_str());
            push_str(out, "\n");
            proof {
                assert(out@ =~= before + "  ::: "@ + location(files[l.span.file_id.0 as int], l.span.start as int)
                    + ": "@ + l.message@ + "\n"@);
            }
        }
        j = j + 1;
    }
}

/// Renders a diagnostic for the terminal: header, location, the source
/// line under a caret line, then secondary labels, notes and help.
#[verifier::rlimit(60)]
pub fn render(err: &CompileError, src: &SourceMap) -> (out: String)
    requires
        src.wf(),
        renderable(*err, src@),
    ensures
        out@ == rendered(*err, src@),
{
    let mut out = String::new();
    push_str(&mut out, "error[E");
    push_padded4(&mut out, err.code.0 as u64, '0');
    push_str(&mut out, "]: ");
    push_str(&mut out, err.message.as_str());
    push_str(&mut out, "\n");
    // The first primary label, if any, gives the caret line's span and message.
    let mut primary_idx: Option<usize> = None;
    let mut i: usize = 0;
    while i < err.labels.len()
        invariant_except_break
            i <= err.labels@.len(),
            primary_idx is None,
            first_primary(err.labels@) == first_primary_from(err.labels@, i as int),
        ensures
            first_primary(err.labels@) == match primary_idx {
                Some(k) => Some(k as int),
                None => None,
            },
            primary_idx matches Some(k) ==> k < err.labels@.len(),
        decreases err.labels@.len() - i,
    {
        if err.labels[i].primary {
            primary_idx = Some(i);
            break;
        }
        i = i + 1;
    }
    let (span, msg): (Span, &str) = match primary_idx {
        Some(k) => (err.labels[k].span, err.labels[k].message.as_str()),
        None => (err.span, ""),
    };
    proof {
        reveal_strlit("");
        assert(primary_of(*err) == (span, msg@));
    }
    push_primary_block(&mut out, src, span, msg);
    push_secondary_lines(&mut out, err, src, primary_idx);
    let ghost mid = out@;
    let mut n: usize = 0;
    while n < err.notes.len()
        invariant
            n <= err.notes@.len(),
            out@ == mid + note_lines(err.notes@, n as int),
        decreases err.notes@.len() - n,
    {
        push_str(&mut out, "   = note: ");
        push_str(&mut out, err.notes[n].as_str());
        push_str(&mut out, "\n");
        n = n + 1;
        proof {
            assert(out@ =~= mid + note_lines(err.notes@, n as int));
        }
    }
    let ghost tail = out@;
    let mut h: usize = 0;
    while h < err.suggestions.len()
        invariant
            h <= err.suggestions@.len(),
            out@ == tail + help_lines(err.suggestions@, h as int),
        decreases err.suggestions@.len() - h,
    {
        push_str(&mut out, "   = help: ");
        push_str(&mut out, err.suggestions[h].message.as_str());
        push_str(&mut out, "\n");
        h = h + 1;
        proof {
            assert(out@ =~= tail + help_lines(err.suggestions@, h as int));
        }
    }
    out
}

} // verus!
