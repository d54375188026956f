use vstd::prelude::*;
use vstd::string::StringSliceAdditionalSpecFns;
use vstd::utf8::*;

verus! {

/// Identifies one file registered in a [`SourceMap`]: its index there.
#[derive(Copy, Clone, PartialEq, Eq, Hash, Debug, Structural)]
pub struct FileId(pub u32);

/// A half-open byte range `start..end` inside one source file.
#[derive(Copy, Clone, PartialEq, Eq, Hash, Debug, Structural)]
pub struct Span {
    pub file_id: FileId,
    pub start: u32,
    pub end: u32,
}

impl Span {
    pub fn new(file: FileId, start: u32, end: u32) -> (s: Span)
        ensures
            s == (Span { file_id: file, start, end }),
    {
        Span { file_id: file, start, end }
    }

    /// The smallest span of `self`'s file that covers both spans.
    pub open spec fn spec_merge(self, other: Span) -> Span {
        Span {
            file_id: self.file_id,
            start: if self.start <= other.start { self.start } else { other.start },
            end: if self.end >= other.end { self.end } else { other.end },
        }
    }

    /// The span that covers both `self` and `other` (in `self`'s file).
    pub fn merge(&self, other: &Span) -> (s: Span)
        ensures
            s == self.spec_merge(*other),
    {
        Span {
            file_id: self.file_id,
            start: if self.start <= other.start { self.start } else { other.start },
            end: if self.end >= other.end { self.end } else { other.end },
        }
    }
}

/// Merging two spans of one file covers both, and does not depend on the
/// order of the two.
pub proof fn lemma_merge_covers(a: Span, b: Span)
    requires
        a.file_id == b.file_id,
    ensures
        a.spec_merge(b) == b.spec_merge(a),
        a.spec_merge(b).file_id == a.file_id,
        a.spec_merge(b).start <= a.start && a.spec_merge(b).start <= b.start,
        a.spec_merge(b).end >= a.end && a.spec_merge(b).end >= b.end,
        a.spec_merge(b).start == a.start || a.spec_merge(b).start == b.start,
        a.spec_merge(b).end == a.end || a.spec_merge(b).end == b.end,
{
}

/// Byte offsets at which the lines of `bytes` start: 0, then one past
/// every `\n`.
pub open spec fn line_starts_of(bytes: Seq<u8>) -> Seq<u32>
    decreases bytes.len(),
{
    if bytes.len() == 0 {
        seq![0u32]
    } else if bytes.last() == 10u8 {
        line_starts_of(bytes.drop_last()).push(bytes.len() as u32)
    } else {
        line_starts_of(bytes.drop_last())
    }
}

/// The 1-based line of a byte offset: how many lines start at or before it.
pub open spec fn line_of(bytes: Seq<u8>, off: int) -> int {
    line_starts_of(bytes.take(off)).len() as int
}

/// The offset at which the line holding `off` starts.
pub open spec fn line_start_of(bytes: Seq<u8>, off: int) -> int {
    line_starts_of(bytes.take(off)).last() as int
}

/// The 1-based column, in characters, of a byte offset.
pub open spec fn col_of(bytes: Seq<u8>, off: int) -> int {
    decode_utf8(bytes.subrange(line_start_of(bytes, off), off)).len() + 1int
}

/// The offset of the newline that ends the line holding `off`, or the end
/// of the text on the last line.
pub open spec fn line_end_of(bytes: Seq<u8>, off: int) -> int {
    let starts = line_starts_of(bytes);
    let k = line_of(bytes, off);
    if k < starts.len() {
        starts[k] - 1
    } else {
        bytes.len() as int
    }
}

/// Line starts are strictly increasing, start with 0 and never pass the end.
pub proof fn lemma_line_starts_shape(bytes: Seq<u8>)
    requires
        bytes.len() < u32::MAX,
    ensures
        1 <= line_starts_of(bytes).len() <= bytes.len() + 1,
        line_starts_of(bytes)[0] == 0,
        forall|i: int, j: int|
            0 <= i < j < line_starts_of(bytes).len() ==> line_starts_of(bytes)[i]
                < line_starts_of(bytes)[j],
        forall|i: int|
            0 <= i < line_starts_of(bytes).len() ==> line_starts_of(bytes)[i] <= bytes.len(),
        forall|i: int|
            0 < i < line_starts_of(bytes).len() ==> bytes[line_starts_of(bytes)[i] - 1] == 10u8,
    decreases bytes.len(),
{
    if bytes.len() > 0 {
        let pre = bytes.drop_last();
        lemma_line_starts_shape(pre);
        assert forall|i: int| 0 < i < line_starts_of(pre).len() implies bytes[line_starts_of(
            pre,
        )[i] - 1] == 10u8 by {
            assert(pre[line_starts_of(pre)[i] - 1] == 10u8);
        }
    }
}

/// The line starts of a prefix are a prefix of the line starts, and the
/// remaining starts lie beyond the prefix.
pub proof fn lemma_line_starts_prefix(bytes: Seq<u8>, n: int)
    requires
        bytes.len() < u32::MAX,
        0 <= n <= bytes.len(),
    ensures
        line_starts_of(bytes.take(n)).len() <= line_starts_of(bytes).len(),
        line_starts_of(bytes.take(n)) == line_starts_of(bytes).take(
            line_starts_of(bytes.take(n)).len() as int,
        ),
        forall|j: int|
            line_starts_of(bytes.take(n)).len() <= j < line_starts_of(bytes).len()
                ==> line_starts_of(bytes)[j] > n,
    decreases bytes.len(),
{
    if n == bytes.len() {
        assert(bytes.take(n) == bytes);
    } else {
        let pre = bytes.drop_last();
        lemma_line_starts_prefix(pre, n);
        assert(pre.take(n) == bytes.take(n));
        lemma_line_starts_shape(pre);
    }
}

/// Decoding never yields more characters than there are bytes.
pub proof fn lemma_decode_len(bytes: Seq<u8>)
    requires
        valid_utf8(bytes),
    ensures
        decode_utf8(bytes).len() <= bytes.len(),
    decreases bytes.len(),
{
    if bytes.len() > 0 {
        let rest = pop_first_scalar(bytes);
        assert(rest.len() < bytes.len());
        lemma_decode_len(rest);
    }
}

/// After a boundary, the next character boundary lies one character on.
pub proof fn lemma_boundary_step(bytes: Seq<u8>, i: int)
    requires
        valid_utf8(bytes),
        is_char_boundary(bytes, i),
        0 <= i < bytes.len(),
    ensures
        valid_first_scalar(bytes.subrange(i, bytes.len() as int)),
        is_char_boundary(
            bytes,
            i + length_of_first_scalar(bytes.subrange(i, bytes.len() as int)),
        ),
        i + length_of_first_scalar(bytes.subrange(i, bytes.len() as int)) <= bytes.len(),
{
    valid_utf8_split(bytes, i);
    let s = bytes.subrange(i, bytes.len() as int);
    assert(valid_utf8(s));
    assert(valid_first_scalar(s));
    let w = length_of_first_scalar(s);
    let rest = pop_first_scalar(s);
    assert(valid_utf8(rest));
    is_char_boundary_start_end_of_seq(bytes);
    if i + w < bytes.len() {
        assert(rest.len() > 0);
        assert(valid_first_scalar(rest));
        assert(rest[0] == bytes[i + w]);
        is_char_boundary_iff_not_is_continuation_byte(bytes, i + w);
    } else {
        assert(i + w == bytes.len());
    }
}

/// A byte right after a newline starts a character.
pub proof fn lemma_boundary_after_newline(bytes: Seq<u8>, p: int)
    requires
        valid_utf8(bytes),
        0 <= p < bytes.len(),
        bytes[p] == 10u8,
    ensures
        is_char_boundary(bytes, p + 1),
{
    is_char_boundary_iff_not_is_continuation_byte(bytes, p);
    lemma_boundary_step(bytes, p);
    let s = bytes.subrange(p, bytes.len() as int);
    assert(s[0] == 10u8);
}

/// After every newline a line starts.
pub proof fn lemma_newline_starts_line(bytes: Seq<u8>, q: int)
    requires
        bytes.len() < u32::MAX,
        0 <= q < bytes.len(),
        bytes[q] == 10u8,
    ensures
        exists|j: int| 0 <= j < line_starts_of(bytes).len() && line_starts_of(bytes)[j] == q + 1,
    decreases bytes.len(),
{
    let pre = bytes.drop_last();
    if q == bytes.len() - 1 {
        let j = line_starts_of(bytes).len() - 1;
        assert(line_starts_of(bytes)[j] == q + 1);
    } else {
        assert(pre[q] == bytes[q]);
        lemma_newline_starts_line(pre, q);
        let j = choose|j: int| 0 <= j < line_starts_of(pre).len() && line_starts_of(pre)[j] == q + 1;
        if bytes.last() == 10u8 {
            assert(line_starts_of(bytes) == line_starts_of(pre).push(bytes.len() as u32));
        } else {
            assert(line_starts_of(bytes) == line_starts_of(pre));
        }
        assert(line_starts_of(bytes)[j] == q + 1);
    }
}

/// The line holding `off` starts at or before it, on a character boundary,
/// and ends at or after it.
pub proof fn lemma_line_around(bytes: Seq<u8>, off: int)
    requires
        valid_utf8(bytes),
        bytes.len() < u32::MAX,
        0 <= off <= bytes.len(),
    ensures
        0 <= line_start_of(bytes, off) <= off <= line_end_of(bytes, off) <= bytes.len(),
        is_char_boundary(bytes, line_start_of(bytes, off)),
        forall|q: int| off <= q < line_end_of(bytes, off) ==> bytes[q] != 10u8,
        line_end_of(bytes, off) < bytes.len() ==> bytes[line_end_of(bytes, off)] == 10u8,
{
    let pre = line_starts_of(bytes.take(off));
    lemma_line_starts_shape(bytes.take(off));
    lemma_line_starts_shape(bytes);
    lemma_line_starts_prefix(bytes, off);
    let ls = pre.last() as int;
    assert(ls == pre[pre.len() - 1]);
    if pre.len() - 1 > 0 {
        assert(bytes.take(off)[ls - 1] == 10u8);
        assert(bytes[ls - 1] == 10u8);
        lemma_boundary_after_newline(bytes, ls - 1);
    } else {
        assert(ls == 0);
    }
    let starts = line_starts_of(bytes);
    let k = line_of(bytes, off);
    assert(k == pre.len());
    if k < starts.len() {
        assert(starts[k] > off);
        assert(bytes[starts[k] - 1] == 10u8);
    }
    let le = line_end_of(bytes, off);
    assert forall|q: int| off <= q < le implies bytes[q] != 10u8 by {
        if bytes[q] == 10u8 {
            lemma_newline_starts_line(bytes, q);
            let j = choose|j: int| 0 <= j < starts.len() && starts[j] == q + 1;
            if j < k {
                assert(pre[j] == starts[j]);
                assert(pre[j] <= off);
            } else if j > k {
                assert(starts[k] < starts[j]);
            }
        }
    }
}

/// Boundaries of a string are boundaries of each prefix that ends on one.
pub proof fn lemma_boundary_in_prefix(bytes: Seq<u8>, j: int, n: int)
    requires
        valid_utf8(bytes),
        is_char_boundary(bytes, n),
        is_char_boundary(bytes, j),
        0 <= j <= n <= bytes.len(),
    ensures
        valid_utf8(bytes.take(n)),
        is_char_boundary(bytes.take(n), j),
{
    valid_utf8_split(bytes, n);
    assert(bytes.take(n) == bytes.subrange(0, n));
    is_char_boundary_start_end_of_seq(bytes.take(n));
    if j < n {
        is_char_boundary_iff_not_is_continuation_byte(bytes, j);
        is_char_boundary_iff_not_is_continuation_byte(bytes.take(n), j);
    }
}

/// One registered source file.
#[derive(Debug, Clone)]
pub struct SourceFile {
    pub id: FileId,
    pub name: String,
    pub content: String,
    pub line_starts: Vec<u32>,
}

impl SourceFile {
    /// The UTF-8 bytes of the file's text.
    pub open spec fn bytes(&self) -> Seq<u8> {
        encode_utf8(self.content@)
    }

    /// `line_starts` indexes the lines of `content`, and every offset fits
    /// in a `u32`.
    pub open spec fn wf(&self) -> bool {
        &&& self.bytes().len() < u32::MAX
        &&& self.line_starts@ == line_starts_of(self.bytes())
    }
}

/// What registering a file does to the table, read back: the new file is
/// found under the id it was given, with its name and content, and every
/// file registered before is found as it was.
pub proof fn lemma_registered_file_found(
    before: Seq<SourceFile>,
    after: Seq<SourceFile>,
    id: FileId,
    name: Seq<char>,
    content: Seq<char>,
)
    requires
        id.0 == before.len(),
        after.len() == before.len() + 1,
        after.take(before.len() as int) == before,
        after.last().id == id,
        after.last().name@ == name,
        after.last().content@ == content,
    ensures
        after[id.0 as int].id == id,
        after[id.0 as int].name@ == name,
        after[id.0 as int].content@ == content,
        forall|i: int| 0 <= i < before.len() ==> #[trigger] after[i] == before[i],
{
    assert forall|i: int| 0 <= i < before.len() implies #[trigger] after[i] == before[i] by {
        assert(after.take(before.len() as int)[i] == after[i]);
    }
}

/// The table of all source files of a compilation.
#[derive(Debug)]
pub struct SourceMap {
    files: Vec<SourceFile>,
}

impl View for SourceMap {
    type V = Seq<SourceFile>;

    closed spec fn view(&self) -> Seq<SourceFile> {
        self.files@
    }
}

impl SourceMap {
    /// Every file is well formed and sits at the index its id names.
    pub closed spec fn wf(&self) -> bool {
        &&& self.files.len() <= u32::MAX
        &&& forall|i: int|
            0 <= i < self.files.len() ==> {
                &&& (#[trigger] self.files@[i]).wf()
                &&& self.files@[i].id.0 == i
            }
    }

    pub fn new() -> (m: Self)
        ensures
            m.wf(),
            m@ == Seq::<SourceFile>::empty(),
    {
        SourceMap { files: Vec::new() }
    }

    /// Registers a file and returns its id, the index it gets.
    pub fn add_file(&mut self, name: &str, content: &str) -> (id: FileId)
        requires
            old(self).wf(),
            old(self)@.len() < u32::MAX,
            content.spec_bytes().len() < u32::MAX,
        ensures
            final(self).wf(),
            id.0 == old(self)@.len(),
            final(self)@.len() == old(self)@.len() + 1,
            final(self)@.take(old(self)@.len() as int) == old(self)@,
            final(self)@.last().id == id,
            final(self)@.last().name@ == name@,
            final(self)@.last().content@ == content@,
    {
        let id = FileId(self.files.len() as u32);
        let line_starts = compute_line_starts(content);
        let file = SourceFile {
            id,
            name: String::from_str(name),
            content: String::from_str(content),
            line_starts,
        };
        self.files.push(file);
        proof {
            assert forall|i: int| 0 <= i < self.files.len() implies {
                &&& (#[trigger] self.files@[i]).wf()
                &&& self.files@[i].id.0 == i
            } by {
                if i < self.files.len() - 1 {
                    assert(self.files@[i] == old(self).files@[i]);
                }
            }
        }
        id
    }

    /// The file with the given id.
    pub fn file(&self, id: FileId) -> (f: &SourceFile)
        requires
            self.wf(),
            id.0 < self@.len(),
        ensures
            *f == self@[id.0 as int],
            f.wf(),
            f.id == id,
    {
        &self.files[id.0 as usize]
    }

    /// The text that `span` covers.
    pub fn snippet(&self, span: Span) -> (text: &str)
        requires
            self.wf(),
            span.file_id.0 < self@.len(),
            span.start <= span.end,
            span.end <= self@[span.file_id.0 as int].bytes().len(),
            is_char_boundary(self@[span.file_id.0 as int].bytes(), span.start as int),
            is_char_boundary(self@[span.file_id.0 as int].bytes(), span.end as int),
        ensures
            text.spec_bytes() == self@[span.file_id.0 as int].bytes().subrange(
                span.start as int,
                span.end as int,
            ),
            text@ == decode_utf8(
                self@[span.file_id.0 as int].bytes().subrange(span.start as int, span.end as int),
            ),
    {
        let f = self.file(span.file_id);
        let ghost bytes = f.bytes();
        proof {
            encode_utf8_valid_utf8(f.content@);
            lemma_boundary_in_prefix(bytes, span.start as int, span.end as int);
        }
        let whole = f.content.as_str();
        let (head, _) = whole.split_at(span.end as usize);
        let (_, text) = head.split_at(span.start as usize);
        proof {
            assert(text.spec_bytes() =~= bytes.subrange(span.start as int, span.end as int));
            encode_utf8_valid_utf8(text@);
            encode_utf8_decode_utf8(text@);
        }
        text
    }

    /// The 1-based line and column (in characters) of a byte offset.
    pub fn line_col(&self, file: FileId, byte_offset: u32) -> (lc: (u32, u32))
        requires
            self.wf(),
            file.0 < self@.len(),
            byte_offset <= self@[file.0 as int].bytes().len(),
            is_char_boundary(self@[file.0 as int].bytes(), byte_offset as int),
        ensures
            lc.0 == line_of(self@[file.0 as int].bytes(), byte_offset as int),
            lc.1 == col_of(self@[file.0 as int].bytes(), byte_offset as int),
    {
        let f = self.file(file);
        let ghost bytes = f.bytes();
        let ghost pre_starts = line_starts_of(bytes.take(byte_offset as int));
        proof {
            lemma_line_starts_shape(bytes);
            lemma_line_starts_shape(bytes.take(byte_offset as int));
            lemma_line_starts_prefix(bytes, byte_offset as int);
            assert forall|j: int| 0 <= j < pre_starts.len() implies line_starts_of(bytes)[j]
                <= byte_offset by {
                assert(pre_starts[j] == line_starts_of(bytes)[j]);
            }
        }
        // Binary search for the number of line starts at or before the offset.
        let mut lo: usize = 1;
        let mut hi: usize = f.line_starts.len();
        while lo < hi
            invariant
                1 <= lo <= hi <= f.line_starts.len(),
                f.line_starts@ == line_starts_of(bytes),
                lo <= pre_starts.len() <= hi,
                pre_starts == line_starts_of(bytes).take(pre_starts.len() as int),
                pre_starts.len() <= line_starts_of(bytes).len(),
                forall|j: int|
                    pre_starts.len() <= j < line_starts_of(bytes).len()
                        ==> line_starts_of(bytes)[j] > byte_offset,
                forall|j: int|
                    0 <= j < pre_starts.len() ==> line_starts_of(bytes)[j] <= byte_offset,
            decreases hi - lo,
        {
            let mid = lo + (hi - lo) / 2;
            if f.line_starts[mid] <= byte_offset {
                lo = mid + 1;
            } else {
                hi = mid;
            }
        }
        let line_idx = lo - 1;
        let line_start = f.line_starts[line_idx];
        proof {
            assert(line_start == pre_starts.last());
            encode_utf8_valid_utf8(f.content@);
            is_char_boundary_start_end_of_seq(bytes);
            if line_idx > 0 {
                lemma_boundary_after_newline(bytes, line_start - 1);
            }
            lemma_boundary_in_prefix(bytes, line_start as int, byte_offset as int);
        }
        let whole = f.content.as_str();
        let (head, _) = whole.split_at(byte_offset as usize);
        let (_, text) = head.split_at(line_start as usize);
        proof {
            assert(text.spec_bytes() =~= bytes.subrange(line_start as int, byte_offset as int));
            encode_utf8_valid_utf8(text@);
            encode_utf8_decode_utf8(text@);
            lemma_decode_len(text.spec_bytes());
        }
        let count = text.unicode_len();
        ((line_idx + 1) as u32, count as u32 + 1)
    }
}

/// Offsets of the line starts of `content`.
fn compute_line_starts(content: &str) -> (starts: Vec<u32>)
    requires
        content.spec_bytes().len() < u32::MAX,
    ensures
        starts@ == line_starts_of(content.spec_bytes()),
{
    let bytes = content.as_bytes();
    let mut starts: Vec<u32> = Vec::new();
    starts.push(0);
    let mut i: usize = 0;
    while i < bytes.len()
        invariant
            i <= bytes.len(),
            bytes@ == content.spec_bytes(),
            bytes.len() < u32::MAX,
            starts@ == line_starts_of(bytes@.take(i as int)),
        decreases bytes.len() - i,
    {
        let b = bytes[i];
        proof {
            let pre = bytes@.take(i as int + 1);
            assert(pre.drop_last() == bytes@.take(i as int));
            assert(pre.last() == b);
        }
        if b == 10u8 {
            starts.push((i + 1) as u32);
        }
        i = i + 1;
    }
    proof {
        assert(bytes@.take(i as int) == bytes@);
    }
    starts
}

} // verus!
