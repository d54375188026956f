use vstd::prelude::*;

use std::collections::HashSet;

use vstd::arithmetic::div_mod::lemma_fundamental_div_mod_converse;

use crate::span::{FileId, Span};

pub mod render;

verus! {

broadcast use vstd::std_specs::hash::group_hash_axioms;

/// A proposed fix attached to a diagnostic.
#[derive(Debug, Clone)]
pub struct Suggestion {
    pub message: String,
    pub replacement: Option<String>,
    pub span: Span,
}

/// A message pointing at a span; at most one label of a diagnostic is primary.
#[derive(Debug, Clone)]
pub struct Label {
    pub span: Span,
    pub message: String,
    pub primary: bool,
}

/// The numeric code of a diagnostic, shown as `E` and four digits.
#[derive(Copy, Clone, PartialEq, Eq, Hash, Debug, Structural)]
pub struct ErrorCode(pub u32);

impl ErrorCode {
    /// Invalid character in source.
    #[allow(non_snake_case)]
    pub fn E0001() -> (c: ErrorCode)
        ensures
            c.0 == 1,
    {
        ErrorCode(1)
    }

    /// Unterminated string literal.
    #[allow(non_snake_case)]
    pub fn E0002() -> (c: ErrorCode)
        ensures
            c.0 == 2,
    {
        ErrorCode(2)
    }

    /// Invalid numeric literal.
    #[allow(non_snake_case)]
    pub fn E0003() -> (c: ErrorCode)
        ensures
            c.0 == 3,
    {
        ErrorCode(3)
    }

    /// Unexpected token.
    #[allow(non_snake_case)]
    pub fn E0100() -> (c: ErrorCode)
        ensures
            c.0 == 100,
    {
        ErrorCode(100)
    }

    /// Unclosed delimiter.
    #[allow(non_snake_case)]
    pub fn E0101() -> (c: ErrorCode)
        ensures
            c.0 == 101,
    {
        ErrorCode(101)
    }

    /// Missing semicolon.
    #[allow(non_snake_case)]
    pub fn E0102() -> (c: ErrorCode)
        ensures
            c.0 == 102,
    {
        ErrorCode(102)
    }

    /// Trait bound not satisfied (rustc-style code; outside the type band).
    #[allow(non_snake_case)]
    pub fn E0277() -> (c: ErrorCode)
        ensures
            c.0 == 277,
    {
        ErrorCode(277)
    }

    /// Type mismatch (rustc-style code; outside the type band).
    #[allow(non_snake_case)]
    pub fn E0308() -> (c: ErrorCode)
        ensures
            c.0 == 308,
    {
        ErrorCode(308)
    }

    /// Binary operation not supported for these types.
    #[allow(non_snake_case)]
    pub fn E0369() -> (c: ErrorCode)
        ensures
            c.0 == 369,
    {
        ErrorCode(369)
    }

    /// Use of moved value.
    #[allow(non_snake_case)]
    pub fn E0382() -> (c: ErrorCode)
        ensures
            c.0 == 382,
    {
        ErrorCode(382)
    }

    /// Unresolved name.
    #[allow(non_snake_case)]
    pub fn E0425() -> (c: ErrorCode)
        ensures
            c.0 == 425,
    {
        ErrorCode(425)
    }

    /// Failed to resolve import.
    #[allow(non_snake_case)]
    pub fn E0433() -> (c: ErrorCode)
        ensures
            c.0 == 433,
    {
        ErrorCode(433)
    }

    /// Cannot borrow as mutable more than once at a time.
    #[allow(non_snake_case)]
    pub fn E0499() -> (c: ErrorCode)
        ensures
            c.0 == 499,
    {
        ErrorCode(499)
    }

    /// Cannot borrow as mutable because it is also borrowed as immutable.
    #[allow(non_snake_case)]
    pub fn E0502() -> (c: ErrorCode)
        ensures
            c.0 == 502,
    {
        ErrorCode(502)
    }

    /// Cannot use a value because it was mutably borrowed.
    #[allow(non_snake_case)]
    pub fn E0503() -> (c: ErrorCode)
        ensures
            c.0 == 503,
    {
        ErrorCode(503)
    }

    /// Cannot move out of a value because it is borrowed.
    #[allow(non_snake_case)]
    pub fn E0505() -> (c: ErrorCode)
        ensures
            c.0 == 505,
    {
        ErrorCode(505)
    }

    /// Method not found.
    #[allow(non_snake_case)]
    pub fn E0599() -> (c: ErrorCode)
        ensures
            c.0 == 599,
    {
        ErrorCode(599)
    }

    /// Cannot index into a value of type `str`.
    #[allow(non_snake_case)]
    pub fn E0608() -> (c: ErrorCode)
        ensures
            c.0 == 608,
    {
        ErrorCode(608)
    }

    /// Internal compiler error / placeholder.
    #[allow(non_snake_case)]
    pub fn E1000() -> (c: ErrorCode)
        ensures
            c.0 == 1000,
    {
        ErrorCode(1000)
    }

    /// Const evaluation failed.
    #[allow(non_snake_case)]
    pub fn E1001() -> (c: ErrorCode)
        ensures
            c.0 == 1001,
    {
        ErrorCode(1001)
    }

    /// Unsafe operation in const context.
    #[allow(non_snake_case)]
    pub fn E1002() -> (c: ErrorCode)
        ensures
            c.0 == 1002,
    {
        ErrorCode(1002)
    }

}

/// The compiler phase a diagnostic comes from.
#[derive(Copy, Clone, PartialEq, Eq, Debug, Structural)]
pub enum ErrorKind {
    Lexical,
    Syntax,
    NameResolution,
    Type,
    BorrowCheck,
    Other,
}

/// One diagnostic: code, phase, primary span, message and attachments.
#[derive(Debug, Clone)]
pub struct CompileError {
    pub code: ErrorCode,
    pub kind: ErrorKind,
    pub span: Span,
    pub message: String,
    pub labels: Vec<Label>,
    pub suggestions: Vec<Suggestion>,
    pub notes: Vec<String>,
}

impl CompileError {
    pub fn new(code: ErrorCode, kind: ErrorKind, span: Span, message: &str) -> (e: Self)
        ensures
            e.code == code,
            e.kind == kind,
            e.span == span,
            e.message@ == message@,
            e.labels@ == Seq::<Label>::empty(),
            e.suggestions@ == Seq::<Suggestion>::empty(),
            e.notes@ == Seq::<String>::empty(),
    {
        CompileError {
            code,
            kind,
            span,
            message: String::from_str(message),
            labels: Vec::new(),
            suggestions: Vec::new(),
            notes: Vec::new(),
        }
    }

    pub fn with_label(self, label: Label) -> (e: Self)
        ensures
            e == (CompileError { labels: e.labels, ..self }),
            e.labels@ == self.labels@.push(label),
    {
        let mut e = self;
        e.labels.push(label);
        e
    }

    pub fn with_secondary_label(self, span: Span, message: &str) -> (e: Self)
        ensures
            e == (CompileError { labels: e.labels, ..self }),
            e.labels@.len() == self.labels@.len() + 1,
            e.labels@.take(self.labels@.len() as int) == self.labels@,
            e.labels@.last().span == span,
            e.labels@.last().message@ == message@,
            !e.labels@.last().primary,
    {
        let mut e = self;
        e.labels.push(Label { span, message: String::from_str(message), primary: false });
        e
    }

    pub fn with_suggestion(self, suggestion: Suggestion) -> (e: Self)
        ensures
            e == (CompileError { suggestions: e.suggestions, ..self }),
            e.suggestions@ == self.suggestions@.push(suggestion),
    {
        let mut e = self;
        e.suggestions.push(suggestion);
        e
    }

    pub fn with_note(self, note: &str) -> (e: Self)
        ensures
            e == (CompileError { notes: e.notes, ..self }),
            e.notes@.len() == self.notes@.len() + 1,
            e.notes@.take(self.notes@.len() as int) == self.notes@,
            e.notes@.last()@ == note@,
    {
        let mut e = self;
        e.notes.push(String::from_str(note));
        e
    }
}

/// The identity under which the accumulator deduplicates a diagnostic:
/// its code, its file and its start offset.
pub open spec fn error_key(e: CompileError) -> (ErrorCode, FileId, u32) {
    (e.code, e.span.file_id, e.span.start)
}

/// True when some diagnostic of `errors` has the same identity as `e`.
pub open spec fn has_key(errors: Seq<CompileError>, e: CompileError) -> bool {
    exists|i: int| 0 <= i < errors.len() && error_key(#[trigger] errors[i]) == error_key(e)
}

/// The number under which the accumulator files a key: code, file and start
/// side by side, 32 bits each.
pub open spec fn key_number(k: (ErrorCode, FileId, u32)) -> int {
    k.0.0 * 0x1_0000_0000_0000_0000 + k.1.0 * 0x1_0000_0000 + k.2
}

/// Different keys are filed under different numbers.
pub proof fn lemma_key_number_injective(a: (ErrorCode, FileId, u32), b: (ErrorCode, FileId, u32))
    requires
        key_number(a) == key_number(b),
    ensures
        a == b,
{
    let low_a = a.1.0 * 0x1_0000_0000 + a.2;
    let low_b = b.1.0 * 0x1_0000_0000 + b.2;
    assert(0 <= low_a < 0x1_0000_0000_0000_0000) by (nonlinear_arith)
        requires
            low_a == a.1.0 * 0x1_0000_0000 + a.2,
            0 <= a.1.0 < 0x1_0000_0000,
            0 <= a.2 < 0x1_0000_0000,
    ;
    assert(0 <= low_b < 0x1_0000_0000_0000_0000) by (nonlinear_arith)
        requires
            low_b == b.1.0 * 0x1_0000_0000 + b.2,
            0 <= b.1.0 < 0x1_0000_0000,
            0 <= b.2 < 0x1_0000_0000,
    ;
    let x = key_number(a);
    lemma_fundamental_div_mod_converse(x, 0x1_0000_0000_0000_0000, a.0.0 as int, low_a);
    lemma_fundamental_div_mod_converse(x, 0x1_0000_0000_0000_0000, b.0.0 as int, low_b);
    lemma_fundamental_div_mod_converse(low_a, 0x1_0000_0000, a.1.0 as int, a.2 as int);
    lemma_fundamental_div_mod_converse(low_a, 0x1_0000_0000, b.1.0 as int, b.2 as int);
}

/// The number of `e`'s key.
fn key_number_of(e: &CompileError) -> (n: u128)
    ensures
        n == key_number(error_key(*e)),
{
    let c = e.code.0 as u128;
    let f = e.span.file_id.0 as u128;
    let s = e.span.start as u128;
    proof {
        assert(c * 0x1_0000_0000_0000_0000 <= 0xFFFF_FFFF_0000_0000_0000_0000) by (nonlinear_arith)
            requires
                c <= 0xFFFF_FFFF,
        ;
        assert(f * 0x1_0000_0000 <= 0xFFFF_FFFF_0000_0000) by (nonlinear_arith)
            requires
                f <= 0xFFFF_FFFF,
        ;
    }
    c * 0x1_0000_0000_0000_0000u128 + f * 0x1_0000_0000u128 + s
}

/// At most `MAX_ERRORS` diagnostics, no two sharing code, file and start.
pub open spec fn bounded_distinct(errors: Seq<CompileError>) -> bool {
    &&& errors.len() <= ErrorAccumulator::MAX_ERRORS
    &&& forall|i: int, j: int|
        0 <= i < j < errors.len() ==> error_key(#[trigger] errors[i]) != error_key(#[trigger] errors[j])
}

/// Collects the diagnostics of a phase: duplicates (same code, file and
/// start) are ignored, and past [`ErrorAccumulator::MAX_ERRORS`] further
/// diagnostics are only counted.
#[derive(Debug)]
pub struct ErrorAccumulator {
    errors: Vec<CompileError>,
    /// The keys of `errors`, each filed under its `key_number`: a number
    /// rather than the key tuple, since the hash-set specifications hold for
    /// integer keys.
    seen: HashSet<u128>,
    dropped: u32,
}

impl ErrorAccumulator {
    pub const MAX_ERRORS: usize = 100;

    /// The diagnostics kept so far, in the order they were pushed.
    pub closed spec fn errors(&self) -> Seq<CompileError> {
        self.errors@
    }

    /// How many distinct diagnostics were turned away once the cap was reached.
    pub closed spec fn dropped_count(&self) -> u32 {
        self.dropped
    }

    /// At most `MAX_ERRORS` diagnostics, no two with the same identity, and
    /// `seen` lists exactly their identities.
    #[verifier::type_invariant]
    closed spec fn wf(self) -> bool {
        &&& bounded_distinct(self.errors@)
        &&& forall|n: u128|
            #[trigger] self.seen@.contains(n) <==> exists|i: int|
                0 <= i < self.errors@.len() && n == key_number(error_key(#[trigger] self.errors@[i]))
    }

    /// `new` is what recording `e` makes of `self`: unchanged when a held
    /// diagnostic has its identity; once `MAX_ERRORS` are held only the drop
    /// count moves, and it stops at `u32::MAX`; otherwise `e` is appended.
    pub open spec fn records_into(&self, e: CompileError, new: &ErrorAccumulator) -> bool {
        if has_key(self.errors(), e) {
            &&& new.errors() == self.errors()
            &&& new.dropped_count() == self.dropped_count()
        } else if self.errors().len() >= Self::MAX_ERRORS {
            &&& new.errors() == self.errors()
            &&& new.dropped_count() == if self.dropped_count() < u32::MAX {
                (self.dropped_count() + 1) as u32
            } else {
                self.dropped_count()
            }
        } else {
            &&& new.errors() == self.errors().push(e)
            &&& new.dropped_count() == self.dropped_count()
        }
    }

    /// Every diagnostic of `old` is still held, in the same place.
    pub open spec fn extends(&self, old: &ErrorAccumulator) -> bool {
        &&& old.errors().len() <= self.errors().len()
        &&& forall|i: int|
            0 <= i < old.errors().len() ==> #[trigger] self.errors()[i] == old.errors()[i]
    }

    pub fn new() -> (acc: Self)
        ensures
            acc.errors() == Seq::<CompileError>::empty(),
            acc.dropped_count() == 0,
    {
        ErrorAccumulator { errors: Vec::new(), seen: HashSet::new(), dropped: 0 }
    }

    /// Records `e` unless a diagnostic with its identity is already held;
    /// once `MAX_ERRORS` are held, a new identity only bumps the drop count.
    pub fn push(&mut self, e: CompileError)
        requires
            !has_key(old(self).errors(), e) && old(self).errors().len() >= Self::MAX_ERRORS
                ==> old(self).dropped_count() < u32::MAX,
        ensures
            bounded_distinct(final(self).errors()),
            has_key(old(self).errors(), e) ==> {
                &&& final(self).errors() == old(self).errors()
                &&& final(self).dropped_count() == old(self).dropped_count()
            },
            !has_key(old(self).errors(), e) && old(self).errors().len() >= Self::MAX_ERRORS ==> {
                &&& final(self).errors() == old(self).errors()
                &&& final(self).dropped_count() == old(self).dropped_count() + 1
            },
            !has_key(old(self).errors(), e) && old(self).errors().len() < Self::MAX_ERRORS ==> {
                &&& final(self).errors() == old(self).errors().push(e)
                &&& final(self).dropped_count() == old(self).dropped_count()
            },
            old(self).records_into(e, &*final(self)),
    {
        proof {
            use_type_invariant(&*self);
        }
        let key = key_number_of(&e);
        if self.seen.contains(&key) {
            proof {
                assert(self.seen@.contains(key));
                let i = choose|i: int|
                    0 <= i < self.errors@.len() && key == key_number(error_key(#[trigger] self.errors@[i]));
                lemma_key_number_injective(error_key(self.errors@[i]), error_key(e));
                assert(has_key(self.errors@, e));
            }
            return;
        }
        proof {
            assert forall|k: int| 0 <= k < self.errors@.len() implies error_key(
                #[trigger] self.errors@[k],
            ) != error_key(e) by {
                if error_key(self.errors@[k]) == error_key(e) {
                    assert(self.seen@.contains(key));
                }
            }
        }
        if self.errors.len() >= Self::MAX_ERRORS {
            self.dropped = self.dropped + 1;
            return;
        }
        let mut taken = ErrorAccumulator::new();
        std::mem::swap(self, &mut taken);
        let ErrorAccumulator { mut errors, mut seen, dropped } = taken;
        let ghost before = errors@;
        let ghost seen_before = seen@;
        seen.insert(key);
        errors.push(e);
        proof {
            assert forall|i: int, j: int|
                0 <= i < j < errors@.len() implies error_key(#[trigger] errors@[i])
                != error_key(#[trigger] errors@[j]) by {
                assert(errors@[i] == before[i]);
                if j < before.len() {
                    assert(errors@[j] == before[j]);
                }
            }
            assert forall|n: u128|
                #[trigger] seen@.contains(n) <==> exists|i: int|
                    0 <= i < errors@.len() && n == key_number(error_key(#[trigger] errors@[i])) by {
                if n == key {
                    assert(errors@[before.len() as int] == e);
                } else {
                    if seen@.contains(n) {
                        assert(seen_before.contains(n));
                        let i = choose|i: int|
                            0 <= i < before.len() && n == key_number(error_key(#[trigger] before[i]));
                        assert(errors@[i] == before[i]);
                    }
                    if exists|i: int| 0 <= i < errors@.len() && n == key_number(error_key(#[trigger] errors@[i])) {
                        let i = choose|i: int|
                            0 <= i < errors@.len() && n == key_number(error_key(#[trigger] errors@[i]));
                        assert(i < before.len());
                        assert(errors@[i] == before[i]);
                        assert(seen_before.contains(n));
                    }
                }
            }
        }
        *self = ErrorAccumulator { errors, seen, dropped };
    }

    /// `Ok(ok)` when no diagnostic was kept, else all kept diagnostics.
    pub fn into_result<T>(self, ok: T) -> (r: Result<T, Vec<CompileError>>)
        ensures
            bounded_distinct(self.errors()),
            self.errors().len() == 0 ==> r == Ok::<T, Vec<CompileError>>(ok),
            self.errors().len() > 0 ==> (r matches Err(v) && v@ == self.errors()),
    {
        proof {
            use_type_invariant(&self);
        }
        if self.errors.len() == 0 {
            Ok(ok)
        } else {
            Err(self.errors)
        }
    }

    pub fn dropped(&self) -> (n: u32)
        ensures
            n == self.dropped_count(),
    {
        self.dropped
    }

    pub fn len(&self) -> (n: usize)
        ensures
            n == self.errors().len(),
            n <= Self::MAX_ERRORS,
    {
        proof {
            use_type_invariant(self);
        }
        self.errors.len()
    }

    pub fn is_empty(&self) -> (b: bool)
        ensures
            b == (self.errors().len() == 0),
    {
        self.errors.len() == 0
    }
}

impl Default for ErrorAccumulator {
    fn default() -> (acc: Self)
        ensures
            acc.errors() == Seq::<CompileError>::empty(),
            acc.dropped_count() == 0,
    {
        Self::new()
    }
}

/// Recording the same diagnostic twice keeps what recording it once kept,
/// as long as there was room for it the first time.
pub proof fn lemma_record_twice(a: &ErrorAccumulator, e: CompileError, b: &ErrorAccumulator, c: &ErrorAccumulator)
    requires
        a.records_into(e, b),
        b.records_into(e, c),
        a.errors().len() < ErrorAccumulator::MAX_ERRORS,
    ensures
        c.errors() == b.errors(),
        c.dropped_count() == b.dropped_count(),
{
    if !has_key(a.errors(), e) {
        let k = b.errors().len() - 1;
        assert(b.errors()[k] == e);
        assert(has_key(b.errors(), e));
    }
}

/// Over any run of pushes from an empty accumulator, every state holds at
/// most `MAX_ERRORS` diagnostics with pairwise distinct keys, what is kept
/// plus what was dropped never exceeds the number of pushes so far, and each
/// state keeps the diagnostics of every earlier one, in the same places.
pub proof fn lemma_push_run(states: Seq<ErrorAccumulator>, pushed: Seq<CompileError>)
    requires
        states.len() == pushed.len() + 1,
        states[0].errors().len() == 0,
        states[0].dropped_count() == 0,
        forall|i: int| 0 <= i < pushed.len() ==> #[trigger] states[i].records_into(pushed[i], &states[i + 1]),
    ensures
        forall|i: int|
            0 <= i < states.len() ==> {
                &&& bounded_distinct((#[trigger] states[i]).errors())
                &&& states[i].errors().len() + states[i].dropped_count() <= i
            },
        forall|i: int, j: int| 0 <= i <= j < states.len() ==> #[trigger] states[j].extends(&states[i]),
    decreases pushed.len(),
{
    if pushed.len() > 0 {
        let n = pushed.len() - 1;
        let ss = states.take(n + 1);
        let ps = pushed.take(n);
        assert forall|i: int| 0 <= i < ps.len() implies #[trigger] ss[i].records_into(ps[i], &ss[i + 1]) by {
            assert(states[i].records_into(pushed[i], &states[i + 1]));
        }
        lemma_push_run(ss, ps);
        assert(ss[n] == states[n]);
        assert(states[n].records_into(pushed[n], &states[n + 1]));
        assert forall|i: int|
            0 <= i < states.len() implies {
                &&& bounded_distinct((#[trigger] states[i]).errors())
                &&& states[i].errors().len() + states[i].dropped_count() <= i
            } by {
            if i <= n {
                assert(ss[i] == states[i]);
            } else {
                let p = states[n].errors();
                let q = states[i].errors();
                assert(bounded_distinct(ss[n].errors()));
                if !has_key(p, pushed[n]) && p.len() < ErrorAccumulator::MAX_ERRORS {
                    assert forall|a: int, b: int| 0 <= a < b < q.len() implies error_key(#[trigger] q[a])
                        != error_key(#[trigger] q[b]) by {
                        assert(q[a] == p[a]);
                        if b < p.len() {
                            assert(q[b] == p[b]);
                        } else {
                            assert(q[b] == pushed[n]);
                        }
                    }
                }
            }
        }
        assert forall|i: int, j: int| 0 <= i <= j < states.len() implies #[trigger] states[j].extends(&states[i]) by {
            if j <= n {
                assert(ss[i] == states[i]);
                assert(ss[j] == states[j]);
                assert(ss[j].extends(&ss[i]));
            } else if i <= n {
                assert(ss[i] == states[i]);
                assert(ss[n].extends(&ss[i]));
                assert forall|k: int| 0 <= k < states[i].errors().len() implies #[trigger] states[j].errors()[k]
                    == states[i].errors()[k] by {
                    assert(states[n].errors()[k] == states[i].errors()[k]);
                    if !has_key(states[n].errors(), pushed[n]) && states[n].errors().len() < ErrorAccumulator::MAX_ERRORS {
                        assert(states[j].errors() == states[n].errors().push(pushed[n]));
                    }
                }
            }
        }
    }
}

} // verus!
