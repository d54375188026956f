//! Recursive-descent parser over a token vector, with error recovery.

use vstd::prelude::*;

use crate::ast::NodeId;
use crate::ast::model::lemma_map_push;
use crate::error::render::push_str;
use crate::error::{error_key, has_key, CompileError, ErrorAccumulator, ErrorCode, ErrorKind};
use crate::lexer::token::{kind_tag, Token, TokenKind};
use crate::span::{FileId, Span};

pub mod expr;
pub mod item;
pub mod stmt;
pub mod ty;

verus! {

/// Two token kinds are the same variant, payloads aside.
pub open spec fn same_kind(a: TokenKind, b: TokenKind) -> bool {
    kind_tag(a) == kind_tag(b)
}

/// How a token kind is named in diagnostics.
pub open spec fn describe_text(k: TokenKind) -> Seq<char> {
    match k {
        TokenKind::Break => "`break`"@,
        TokenKind::Const => "`const`"@,
        TokenKind::Continue => "`continue`"@,
        TokenKind::Else => "`else`"@,
        TokenKind::Enum => "`enum`"@,
        TokenKind::Extern => "`extern`"@,
        TokenKind::False => "`false`"@,
        TokenKind::Fn => "`fn`"@,
        TokenKind::For => "`for`"@,
        TokenKind::If => "`if`"@,
        TokenKind::Impl => "`impl`"@,
        TokenKind::In => "`in`"@,
        TokenKind::Let => "`let`"@,
        TokenKind::Loop => "`loop`"@,
        TokenKind::Match => "`match`"@,
        TokenKind::Mod => "`mod`"@,
        TokenKind::Mut => "`mut`"@,
        TokenKind::Not => "`not`"@,
        TokenKind::Or => "`or`"@,
        TokenKind::Pub => "`pub`"@,
        TokenKind::Return => "`return`"@,
        TokenKind::Static => "`static`"@,
        TokenKind::SelfLower => "`self`"@,
        TokenKind::SelfUpper => "`Self`"@,
        TokenKind::Struct => "`struct`"@,
        TokenKind::Trait => "`trait`"@,
        TokenKind::True => "`true`"@,
        TokenKind::Type => "`type`"@,
        TokenKind::Unsafe => "`unsafe`"@,
        TokenKind::Use => "`use`"@,
        TokenKind::Where => "`where`"@,
        TokenKind::While => "`while`"@,
        TokenKind::And => "`and`"@,
        TokenKind::IntLiteral(..) => "integer literal"@,
        TokenKind::FloatLiteral(..) => "float literal"@,
        TokenKind::CharLiteral(..) => "char literal"@,
        TokenKind::StringLiteral(..) => "string literal"@,
        TokenKind::RawStringLiteral(..) => "raw string literal"@,
        TokenKind::DocComment(..) => "doc comment"@,
        TokenKind::Ident(..) => "identifier"@,
        TokenKind::Plus => "`+`"@,
        TokenKind::Minus => "`-`"@,
        TokenKind::Star => "`*`"@,
        TokenKind::Slash => "`/`"@,
        TokenKind::Percent => "`%`"@,
        TokenKind::EqEq => "`==`"@,
        TokenKind::BangEq => "`!=`"@,
        TokenKind::Lt => "`<`"@,
        TokenKind::Gt => "`>`"@,
        TokenKind::Le => "`<=`"@,
        TokenKind::Ge => "`>=`"@,
        TokenKind::Amp => "`&`"@,
        TokenKind::Pipe => "`|`"@,
        TokenKind::Caret => "`^`"@,
        TokenKind::Tilde => "`~`"@,
        TokenKind::Shl => "`<<`"@,
        TokenKind::Shr => "`>>`"@,
        TokenKind::Eq => "`=`"@,
        TokenKind::PlusEq => "`+=`"@,
        TokenKind::MinusEq => "`-=`"@,
        TokenKind::StarEq => "`*=`"@,
        TokenKind::SlashEq => "`/=`"@,
        TokenKind::PercentEq => "`%=`"@,
        TokenKind::Dot => "`.`"@,
        TokenKind::ColonColon => "`::`"@,
        TokenKind::LBracket => "`[`"@,
        TokenKind::RBracket => "`]`"@,
        TokenKind::LParen => "`(`"@,
        TokenKind::RParen => "`)`"@,
        TokenKind::LBrace => "`{`"@,
        TokenKind::RBrace => "`}`"@,
        TokenKind::Question => "`?`"@,
        TokenKind::DotDot => "`..`"@,
        TokenKind::DotDotEq => "`..=`"@,
        TokenKind::Arrow => "`->`"@,
        TokenKind::FatArrow => "`=>`"@,
        TokenKind::Semi => "`;`"@,
        TokenKind::Comma => "`,`"@,
        TokenKind::Colon => "`:`"@,
        TokenKind::Underscore => "`_`"@,
        TokenKind::Eof => "end of file"@,
        TokenKind::Error(..) => "lexer error"@,
    }
}

/// The tokens at which error recovery stops: `;`, `}`, end of file and the
/// keywords that start an item.
pub open spec fn is_sync_kind(k: TokenKind) -> bool {
    ||| k is Semi
    ||| k is RBrace
    ||| k is Eof
    ||| k is Fn
    ||| k is Struct
    ||| k is Enum
    ||| k is Trait
    ||| k is Impl
    ||| k is Mod
    ||| k is Use
    ||| k is Const
    ||| k is Type
    ||| k is Pub
    ||| k is Unsafe
    ||| k is Extern
}

/// `a, b, ` for the kinds of `ks`, each followed by a comma and a space.
pub open spec fn comma_prefix(ks: Seq<TokenKind>) -> Seq<char>
    decreases ks.len(),
{
    if ks.len() == 0 {
        Seq::empty()
    } else {
        comma_prefix(ks.drop_last()) + describe_text(ks.last()) + ", "@
    }
}

/// The candidates of a diagnostic in words: `a`, `a or b`, `a, b, or c`.
pub open spec fn candidate_list(ks: Seq<TokenKind>) -> Seq<char> {
    if ks.len() == 0 {
        "token"@
    } else if ks.len() == 1 {
        describe_text(ks[0])
    } else if ks.len() == 2 {
        describe_text(ks[0]) + " or "@ + describe_text(ks[1])
    } else {
        comma_prefix(ks.drop_last()) + "or "@ + describe_text(ks.last())
    }
}

/// `expected <what>, found <kind>`.
pub open spec fn expected_found(expected: Seq<char>, found: TokenKind) -> Seq<char> {
    "expected "@ + expected + ", found "@ + describe_text(found)
}

/// `e` is a syntax diagnostic (code E0100) at `span` saying `msg`, with
/// nothing attached.
pub open spec fn is_syntax_error(e: CompileError, span: Span, msg: Seq<char>) -> bool {
    &&& e.code == ErrorCode(100)
    &&& e.kind == ErrorKind::Syntax
    &&& e.span == span
    &&& e.message@ == msg
    &&& e.labels@.len() == 0
    &&& e.suggestions@.len() == 0
    &&& e.notes@.len() == 0
}

/// The first position at or after `p` that holds a recovery token, or the
/// end of the tokens.
pub open spec fn sync_stop(toks: Seq<Token>, p: int) -> int
    decreases toks.len() - p,
{
    if p < 0 || p >= toks.len() || is_sync_kind(toks[p].kind) {
        p
    } else {
        sync_stop(toks, p + 1)
    }
}

/// Where recovery from `p` leaves the cursor: on the recovery token, or just
/// past it when it is a `;`.
pub open spec fn sync_end(toks: Seq<Token>, p: int) -> int {
    let q = sync_stop(toks, p);
    if 0 <= q < toks.len() && toks[q].kind is Semi {
        q + 1
    } else {
        q
    }
}

/// Recovery from `p` stops at the first recovery token at or after `p`,
/// or at the end: every token it skips is no recovery token, and it never
/// moves backwards or past the end.
pub proof fn lemma_sync_stop(toks: Seq<Token>, p: int)
    requires
        0 <= p <= toks.len(),
    ensures
        p <= sync_stop(toks, p) <= toks.len(),
        sync_stop(toks, p) < toks.len() ==> is_sync_kind(toks[sync_stop(toks, p)].kind),
        forall|i: int| p <= i < sync_stop(toks, p) ==> !is_sync_kind(#[trigger] toks[i].kind),
        p <= sync_end(toks, p) <= toks.len(),
    decreases toks.len() - p,
{
    if p < toks.len() && !is_sync_kind(toks[p].kind) {
        lemma_sync_stop(toks, p + 1);
        assert forall|i: int| p <= i < sync_stop(toks, p) implies !is_sync_kind(#[trigger] toks[i].kind) by {
            if i > p {
                assert(p + 1 <= i < sync_stop(toks, p + 1));
            }
        }
    }
}

/// What a recorded diagnostic says: its code, kind, span and message, and
/// whether it carries no labels, suggestions or notes.
pub ghost struct DiagM {
    pub code: ErrorCode,
    pub kind: ErrorKind,
    pub span: Span,
    pub message: Seq<char>,
    pub plain: bool,
}

/// The model of a diagnostic.
pub open spec fn diag_model(e: CompileError) -> DiagM {
    DiagM {
        code: e.code,
        kind: e.kind,
        span: e.span,
        message: e.message@,
        plain: e.labels@.len() == 0 && e.suggestions@.len() == 0 && e.notes@.len() == 0,
    }
}

/// The model of a plain syntax diagnostic at `span` saying `msg`.
pub open spec fn syntax_diag(span: Span, msg: Seq<char>) -> DiagM {
    DiagM { code: ErrorCode(100), kind: ErrorKind::Syntax, span, message: msg, plain: true }
}

/// Two diagnostics the accumulator takes for one: same code, file and start.
pub open spec fn same_key(a: DiagM, b: DiagM) -> bool {
    a.code == b.code && a.span.file_id == b.span.file_id && a.span.start == b.span.start
}

/// Recovery stops on `}`, on an end-of-file token and on every keyword that
/// starts an item (`fn`, `struct`, `enum`, `trait`, `impl`, `mod`, `use`,
/// `const`, `type`, `pub`, `unsafe`, `extern`), steps past a `;`, stops at
/// the end of the tokens, and skips every other token.
pub proof fn lemma_recovery_stops(toks: Seq<Token>, p: int)
    requires
        0 <= p <= toks.len(),
    ensures
        p == toks.len() ==> sync_end(toks, p) == p,
        p < toks.len() && ({
            let k = toks[p].kind;
            ||| k is RBrace
            ||| k is Eof
            ||| k is Fn
            ||| k is Struct
            ||| k is Enum
            ||| k is Trait
            ||| k is Impl
            ||| k is Mod
            ||| k is Use
            ||| k is Const
            ||| k is Type
            ||| k is Pub
            ||| k is Unsafe
            ||| k is Extern
        }) ==> sync_end(toks, p) == p,
        p < toks.len() && toks[p].kind is Semi ==> sync_end(toks, p) == p + 1,
        p < toks.len() && !({
            let k = toks[p].kind;
            ||| k is Semi
            ||| k is RBrace
            ||| k is Eof
            ||| k is Fn
            ||| k is Struct
            ||| k is Enum
            ||| k is Trait
            ||| k is Impl
            ||| k is Mod
            ||| k is Use
            ||| k is Const
            ||| k is Type
            ||| k is Pub
            ||| k is Unsafe
            ||| k is Extern
        }) ==> sync_end(toks, p) == sync_end(toks, p + 1),
{
}

/// An accumulator holds a diagnostic with `e`'s key exactly when its models
/// hold one with the key of `e`'s model.
proof fn lemma_has_key_diags(acc: ErrorAccumulator, e: CompileError)
    ensures
        has_key(acc.errors(), e) == exists|i: int|
            0 <= i < diags_of(acc).len() && same_key(#[trigger] diags_of(acc)[i], diag_model(e)),
{
    if has_key(acc.errors(), e) {
        let i = choose|i: int| 0 <= i < acc.errors().len() && error_key(#[trigger] acc.errors()[i]) == error_key(e);
        assert(same_key(diags_of(acc)[i], diag_model(e)));
    }
    if exists|i: int| 0 <= i < diags_of(acc).len() && same_key(#[trigger] diags_of(acc)[i], diag_model(e)) {
        let i = choose|i: int| 0 <= i < diags_of(acc).len() && same_key(#[trigger] diags_of(acc)[i], diag_model(e));
        assert(error_key(acc.errors()[i]) == error_key(e));
    }
}

/// Where a parse stands: the cursor, the id the next node gets, and the
/// diagnostics recorded so far with the count of those turned away.
pub ghost struct PState {
    pub pos: int,
    pub nid: u32,
    pub diags: Seq<DiagM>,
    pub dropped: u32,
}

/// `s` after recording `d`: unchanged when a held diagnostic has its key;
/// once `MAX_ERRORS` are held only the drop count moves, and it stops at
/// `u32::MAX`; otherwise `d` is appended.
pub open spec fn record(s: PState, d: DiagM) -> PState {
    if exists|i: int| 0 <= i < s.diags.len() && same_key(#[trigger] s.diags[i], d) {
        s
    } else if s.diags.len() >= ErrorAccumulator::MAX_ERRORS {
        PState { dropped: if s.dropped < u32::MAX { (s.dropped + 1) as u32 } else { s.dropped }, ..s }
    } else {
        PState { diags: s.diags.push(d), ..s }
    }
}

/// Recording `d` at `s`, then recovering.
pub open spec fn recovered(t: Seq<Token>, s: PState, d: DiagM) -> PState {
    PState { pos: sync_end(t, s.pos), ..record(s, d) }
}

/// The diagnostics of an accumulator, as models.
pub open spec fn diags_of(acc: ErrorAccumulator) -> Seq<DiagM> {
    acc.errors().map_values(|e: CompileError| diag_model(e))
}

/// The outcome of a parse: a value, or a syntax diagnostic's span and
/// message.
pub ghost enum PRes<T> {
    Parsed(T),
    Failed(Span, Seq<char>),
}

/// The id after `n`; ids wrap around after `u32::MAX`.
pub open spec fn next_nid(n: u32) -> u32 {
    if n == u32::MAX {
        0
    } else {
        (n + 1) as u32
    }
}

/// The kind of token `i`; end of file outside the tokens.
pub open spec fn tk(t: Seq<Token>, i: int) -> TokenKind {
    if 0 <= i < t.len() {
        t[i].kind
    } else {
        TokenKind::Eof
    }
}

/// The span diagnostics at `i` point at: token `i`, else the last token,
/// else an empty span of file 0.
pub open spec fn span_at(t: Seq<Token>, i: int) -> Span {
    if 0 <= i < t.len() {
        t[i].span
    } else if t.len() > 0 {
        t.last().span
    } else {
        Span { file_id: FileId(0), start: 0, end: 0 }
    }
}

/// One token further.
pub open spec fn bumped(s: PState) -> PState {
    PState { pos: s.pos + 1, ..s }
}

/// One node id further.
pub open spec fn fresh(s: PState) -> PState {
    PState { nid: next_nid(s.nid), ..s }
}

/// `kind` was expected at `i`.
pub open spec fn expected_at<T>(t: Seq<Token>, i: int, kind: TokenKind) -> PRes<T> {
    PRes::Failed(span_at(t, i), expected_found(describe_text(kind), tk(t, i)))
}

/// The value `r` holds is `m`, with `model` applied to an `Ok` value.
pub open spec fn holds<T, M>(r: Result<T, CompileError>, m: PRes<M>, model: spec_fn(T) -> M) -> bool {
    match m {
        PRes::Parsed(x) => r matches Ok(v) && model(v) == x,
        PRes::Failed(sp, msg) => r matches Err(e) && is_syntax_error(e, sp, msg),
    }
}

/// A syntax diagnostic with the given span and message.
pub(crate) fn syntax_error(span: Span, message: &str) -> (e: CompileError)
    ensures
        is_syntax_error(e, span, message@),
{
    CompileError::new(ErrorCode::E0100(), ErrorKind::Syntax, span, message)
}

/// The state only the parser itself touches: the id the next node gets,
/// and the kind it reports past the last token.
pub struct ParserInternals {
    next_node_id: u32,
    eof: TokenKind,
}

impl ParserInternals {
    /// The id the next node will get.
    pub closed spec fn next_id(&self) -> u32 {
        self.next_node_id
    }

    /// Past the last token the parser reports end of file.
    pub closed spec fn eof_ok(&self) -> bool {
        self.eof is Eof
    }
}

/// The state of a parse: the tokens, the cursor and the diagnostics
/// recorded so far.
pub struct Parser {
    pub tokens: Vec<Token>,
    pub pos: usize,
    pub errors: ErrorAccumulator,
    pub internals: ParserInternals,
}

impl Parser {
    /// The id the next node will get.
    pub open spec fn next_id(&self) -> u32 {
        self.internals.next_id()
    }

    /// Past the last token the parser reports end of file.
    pub open spec fn eof_ok(&self) -> bool {
        self.internals.eof_ok()
    }

    /// The cursor is within the tokens and the diagnostics are well formed.
    pub open spec fn wf(&self) -> bool {
        &&& self.pos <= self.tokens@.len()
        &&& self.eof_ok()
    }

    /// The kind of the token at `i`; end of file past the last token.
    pub open spec fn kind_at(&self, i: int) -> TokenKind {
        tk(self.tokens@, i)
    }

    /// The cursor and the next node id.
    pub open spec fn state(&self) -> PState {
        PState {
            pos: self.pos as int,
            nid: self.next_id(),
            diags: diags_of(self.errors),
            dropped: self.errors.dropped_count(),
        }
    }

    /// The kind of the token under the cursor.
    pub open spec fn peek_kind(&self) -> TokenKind {
        self.kind_at(self.pos as int)
    }

    /// The span diagnostics point at: the token under the cursor, else the
    /// last token, else an empty span of file 0.
    pub open spec fn cur_span(&self) -> Span {
        span_at(self.tokens@, self.pos as int)
    }

    /// Only the cursor may differ from `old`.
    pub open spec fn moved_from(&self, old: &Parser) -> bool {
        &&& self.tokens == old.tokens
        &&& self.errors == old.errors
        &&& self.internals == old.internals
    }

    /// What every parsing step keeps: the state stays well formed, the tokens
    /// are untouched, the cursor never moves back (and moves forward when the
    /// step succeeds), and diagnostics are only ever added.
    pub open spec fn progressed(&self, old: &Parser, ok: bool) -> bool {
        &&& self.wf()
        &&& self.tokens == old.tokens
        &&& old.pos <= self.pos
        &&& ok ==> old.pos < self.pos
        &&& self.errors.extends(&old.errors)
    }

    pub fn new(tokens: Vec<Token>) -> (p: Self)
        ensures
            p.wf(),
            p.tokens == tokens,
            p.pos == 0,
            p.errors.errors().len() == 0,
            p.errors.dropped_count() == 0,
            p.next_id() == 0,
    {
        Parser {
            tokens,
            pos: 0,
            errors: ErrorAccumulator::new(),
            internals: ParserInternals { next_node_id: 0, eof: TokenKind::Eof },
        }
    }

    /// Hands out the next node id; ids wrap around after `u32::MAX`.
    pub(crate) fn new_node_id(&mut self) -> (id: NodeId)
        ensures
            id == NodeId(old(self).next_id()),
            final(self).next_id() == (if old(self).next_id() == u32::MAX {
                0
            } else {
                (old(self).next_id() + 1) as u32
            }),
            final(self).tokens == old(self).tokens,
            final(self).pos == old(self).pos,
            final(self).errors == old(self).errors,
            final(self).eof_ok() == old(self).eof_ok(),
    {
        let id = self.internals.next_node_id;
        self.internals.next_node_id = self.internals.next_node_id.wrapping_add(1);
        NodeId(id)
    }

    /// The kind of the token under the cursor; end of file past the last one.
    pub fn peek(&self) -> (k: &TokenKind)
        requires
            self.eof_ok(),
        ensures
            *k == self.peek_kind(),
    {
        if self.pos < self.tokens.len() {
            &self.tokens[self.pos].kind
        } else {
            &self.internals.eof
        }
    }

    /// The kind of the token `offset` places after the cursor.
    pub fn peek_at(&self, offset: usize) -> (k: &TokenKind)
        requires
            self.eof_ok(),
        ensures
            *k == self.kind_at(self.pos + offset),
    {
        let idx = self.pos.saturating_add(offset);
        if idx < self.tokens.len() {
            &self.tokens[idx].kind
        } else {
            &self.internals.eof
        }
    }

    /// Takes the token under the cursor and moves past it.
    pub fn bump(&mut self) -> (t: Token)
        requires
            old(self).pos < old(self).tokens@.len(),
        ensures
            t == old(self).tokens@[old(self).pos as int],
            final(self).pos == old(self).pos + 1,
            final(self).moved_from(old(self)),
    {
        let n = self.tokens.len();
        let tok = self.tokens[self.pos].duplicate();
        self.pos = self.pos + 1;
        proof {
            assert(self.pos <= n);
        }
        tok
    }

    /// Moves past the token under the cursor when it is of `kind`'s variant.
    pub fn eat(&mut self, kind: &TokenKind) -> (b: bool)
        requires
            old(self).eof_ok(),
            old(self).pos >= old(self).tokens@.len() ==> !(*kind is Eof),
        ensures
            b == same_kind(old(self).peek_kind(), *kind),
            final(self).pos == (if b { old(self).pos + 1 } else { old(self).pos as int }),
            final(self).moved_from(old(self)),
    {
        if self.peek().tag() == kind.tag() {
            self.bump();
            true
        } else {
            false
        }
    }

    /// Takes the token under the cursor when it is of `kind`'s variant;
    /// otherwise reports what was expected and what was found.
    pub fn expect(&mut self, kind: &TokenKind) -> (r: Result<Token, CompileError>)
        requires
            old(self).eof_ok(),
            old(self).pos >= old(self).tokens@.len() ==> !(*kind is Eof),
        ensures
            same_kind(old(self).peek_kind(), *kind) ==> {
                &&& r == Ok::<Token, CompileError>(old(self).tokens@[old(self).pos as int])
                &&& final(self).pos == old(self).pos + 1
                &&& final(self).moved_from(old(self))
            },
            !same_kind(old(self).peek_kind(), *kind) ==> {
                &&& r matches Err(e) && is_syntax_error(
                    e,
                    old(self).cur_span(),
                    expected_found(describe_text(*kind), old(self).peek_kind()),
                )
                &&& *final(self) == *old(self)
            },
    {
        if self.peek().tag() == kind.tag() {
            Ok(self.bump())
        } else {
            Err(self.expected_error(kind))
        }
    }

    /// The diagnostic for finding the current token where `kind` was expected.
    pub(crate) fn expected_error(&self, kind: &TokenKind) -> (e: CompileError)
        requires
            self.eof_ok(),
        ensures
            is_syntax_error(e, self.cur_span(), expected_found(describe_text(*kind), self.peek_kind())),
    {
        let found = self.peek();
        let span = self.current_span();
        let mut message = String::new();
        push_str(&mut message, "expected ");
        push_str(&mut message, describe(kind));
        push_str(&mut message, ", found ");
        push_str(&mut message, describe(found));
        syntax_error(span, message.as_str())
    }

    /// True when the current token is of one of the variants in `kinds`.
    fn peek_is_one_of(&self, kinds: &[TokenKind]) -> (b: bool)
        requires
            self.eof_ok(),
        ensures
            b == exists|i: int| 0 <= i < kinds@.len() && same_kind(#[trigger] kinds@[i], self.peek_kind()),
    {
        let peeked = self.peek().tag();
        let mut i: usize = 0;
        while i < kinds.len()
            invariant
                i <= kinds@.len(),
                peeked as int == kind_tag(self.peek_kind()),
                forall|j: int| 0 <= j < i ==> !same_kind(#[trigger] kinds@[j], self.peek_kind()),
            decreases kinds@.len() - i,
        {
            if kinds[i].tag() == peeked {
                return true;
            }
            i = i + 1;
        }
        false
    }

    /// The diagnostic for finding the current token where one of `kinds` was
    /// expected.
    pub(crate) fn one_of_error(&self, kinds: &[TokenKind]) -> (e: CompileError)
        requires
            self.eof_ok(),
            kinds@.len() > 0,
        ensures
            is_syntax_error(e, self.cur_span(), expected_found(candidate_list(kinds@), self.peek_kind())),
    {
        let found = self.peek();
        let span = self.current_span();
        let list = format_candidate_list(kinds);
        let mut message = String::new();
        push_str(&mut message, "expected ");
        push_str(&mut message, list.as_str());
        push_str(&mut message, ", found ");
        push_str(&mut message, describe(found));
        syntax_error(span, message.as_str())
    }

    /// Takes the token under the cursor when it is of one of the variants in
    /// `kinds`; otherwise reports the candidates and what was found.
    pub fn expect_one_of(&mut self, kinds: &[TokenKind]) -> (r: Result<Token, CompileError>)
        requires
            old(self).eof_ok(),
            kinds@.len() > 0,
            old(self).pos >= old(self).tokens@.len() ==> forall|i: int|
                0 <= i < kinds@.len() ==> !(#[trigger] kinds@[i] is Eof),
        ensures
            (exists|i: int| 0 <= i < kinds@.len() && same_kind(#[trigger] kinds@[i], old(self).peek_kind())) ==> {
                &&& r == Ok::<Token, CompileError>(old(self).tokens@[old(self).pos as int])
                &&& final(self).pos == old(self).pos + 1
                &&& final(self).moved_from(old(self))
            },
            !(exists|i: int| 0 <= i < kinds@.len() && same_kind(#[trigger] kinds@[i], old(self).peek_kind())) ==> {
                &&& r matches Err(e) && is_syntax_error(
                    e,
                    old(self).cur_span(),
                    expected_found(candidate_list(kinds@), old(self).peek_kind()),
                )
                &&& *final(self) == *old(self)
            },
    {
        if self.peek_is_one_of(kinds) {
            proof {
                if self.pos >= self.tokens@.len() {
                    let i = choose|i: int| 0 <= i < kinds@.len() && same_kind(#[trigger] kinds@[i], self.peek_kind());
                    assert(!(kinds@[i] is Eof));
                }
            }
            Ok(self.bump())
        } else {
            Err(self.one_of_error(kinds))
        }
    }

    /// Takes an identifier, giving its text and span; otherwise reports that
    /// an identifier was expected.
    pub(crate) fn expect_ident(&mut self) -> (r: Result<(String, Span), CompileError>)
        requires
            old(self).eof_ok(),
        ensures
            old(self).peek_kind() matches TokenKind::Ident(s) ==> {
                &&& r == Ok::<(String, Span), CompileError>((s, old(self).cur_span()))
                &&& final(self).pos == old(self).pos + 1
                &&& final(self).moved_from(old(self))
            },
            !(old(self).peek_kind() is Ident) ==> {
                &&& r matches Err(e) && is_syntax_error(
                    e,
                    old(self).cur_span(),
                    expected_found("identifier"@, old(self).peek_kind()),
                )
                &&& *final(self) == *old(self)
            },
    {
        let name = match self.peek() {
            TokenKind::Ident(s) => s.clone(),
            _ => {
                return Err(self.expected_error(&TokenKind::Ident(String::new())));
            },
        };
        let tok = self.bump();
        Ok((name, tok.span))
    }

    /// Records `e`; when the drop count could not grow any further the
    /// accumulator is left as it is.
    pub(crate) fn report(&mut self, e: CompileError)
        requires
            old(self).wf(),
        ensures
            final(self).wf(),
            final(self).tokens == old(self).tokens,
            final(self).pos == old(self).pos,
            final(self).internals == old(self).internals,
            old(self).errors.records_into(e, &final(self).errors),
            final(self).errors.extends(&old(self).errors),
            final(self).state() == record(old(self).state(), diag_model(e)),
    {
        proof {
            lemma_has_key_diags(self.errors, e);
        }
        if !(self.errors.len() >= ErrorAccumulator::MAX_ERRORS && self.errors.dropped() == u32::MAX) {
            self.errors.push(e);
        }
        proof {
            lemma_map_push(old(self).errors.errors(), e, |x: CompileError| diag_model(x));
            assert(diags_of(old(self).errors).len() == old(self).errors.errors().len());
        }
    }

    /// Records that `expected` was expected where the current token was
    /// found, then recovers.
    pub fn expected_token_error(&mut self, expected: &TokenKind)
        requires
            old(self).wf(),
        ensures
            final(self).wf(),
            final(self).tokens == old(self).tokens,
            final(self).internals == old(self).internals,
            final(self).pos == sync_end(old(self).tokens@, old(self).pos as int),
            old(self).pos <= final(self).pos,
            final(self).errors.extends(&old(self).errors),
            exists|e: CompileError|
                #[trigger] is_syntax_error(
                    e,
                    old(self).cur_span(),
                    expected_found(describe_text(*expected), old(self).peek_kind()),
                ) && old(self).errors.records_into(e, &final(self).errors),
            final(self).state() == recovered(
                old(self).tokens@,
                old(self).state(),
                syntax_diag(old(self).cur_span(), expected_found(describe_text(*expected), old(self).peek_kind())),
            ),
    {
        let err = self.expected_error(expected);
        self.report(err);
        self.recover_to_sync();
    }

    /// Records that one of `kinds` was expected where the current token was
    /// found, then recovers.
    pub fn expected_one_of_error(&mut self, kinds: &[TokenKind])
        requires
            old(self).wf(),
            kinds@.len() > 0,
        ensures
            final(self).wf(),
            final(self).tokens == old(self).tokens,
            final(self).internals == old(self).internals,
            final(self).pos == sync_end(old(self).tokens@, old(self).pos as int),
            old(self).pos <= final(self).pos,
            final(self).errors.extends(&old(self).errors),
            exists|e: CompileError|
                #[trigger] is_syntax_error(
                    e,
                    old(self).cur_span(),
                    expected_found(candidate_list(kinds@), old(self).peek_kind()),
                ) && old(self).errors.records_into(e, &final(self).errors),
            final(self).state() == recovered(
                old(self).tokens@,
                old(self).state(),
                syntax_diag(old(self).cur_span(), expected_found(candidate_list(kinds@), old(self).peek_kind())),
            ),
    {
        let err = self.one_of_error(kinds);
        self.report(err);
        self.recover_to_sync();
    }

    /// Skips to the next recovery token (`;`, `}`, end of file or an item
    /// keyword), and past it when it is a `;`.
    pub fn recover_to_sync(&mut self)
        requires
            old(self).eof_ok(),
        ensures
            final(self).pos == sync_end(old(self).tokens@, old(self).pos as int),
            old(self).pos <= final(self).pos,
            old(self).pos <= old(self).tokens@.len() ==> final(self).pos <= old(self).tokens@.len(),
            final(self).moved_from(old(self)),
    {
        while !is_sync_point(self.peek())
            invariant
                self.eof_ok(),
                self.moved_from(old(self)),
                old(self).pos <= self.pos,
                old(self).pos <= old(self).tokens@.len() ==> self.pos <= self.tokens@.len(),
                sync_stop(self.tokens@, self.pos as int) == sync_stop(self.tokens@, old(self).pos as int),
            decreases self.tokens@.len() - self.pos,
        {
            self.bump();
        }
        if self.peek().tag() == TokenKind::Semi.tag() {
            self.bump();
        }
    }

    /// The span of the current token, else of the last one, else empty.
    pub(crate) fn current_span(&self) -> (s: Span)
        ensures
            s == self.cur_span(),
    {
        if self.pos < self.tokens.len() {
            self.tokens[self.pos].span
        } else if self.tokens.len() > 0 {
            self.tokens[self.tokens.len() - 1].span
        } else {
            Span::new(FileId(0), 0, 0)
        }
    }
}

/// Whether error recovery stops at `kind`.
pub(crate) fn is_sync_point(kind: &TokenKind) -> (b: bool)
    ensures
        b == is_sync_kind(*kind),
{
    match kind {
        TokenKind::Semi | TokenKind::RBrace | TokenKind::Eof | TokenKind::Fn | TokenKind::Struct | TokenKind::Enum | TokenKind::Trait | TokenKind::Impl | TokenKind::Mod | TokenKind::Use | TokenKind::Const | TokenKind::Type | TokenKind::Pub | TokenKind::Unsafe | TokenKind::Extern => true,
        _ => false,
    }
}

/// The candidate kinds in words: `a`, `a or b`, `a, b, or c`.
pub(crate) fn format_candidate_list(kinds: &[TokenKind]) -> (s: String)
    requires
        kinds@.len() > 0,
    ensures
        s@ == candidate_list(kinds@),
{
    let n = kinds.len();
    if n == 1 {
        let mut out = String::new();
        push_str(&mut out, describe(&kinds[0]));
        return out;
    }
    if n == 2 {
        let mut out = String::new();
        push_str(&mut out, describe(&kinds[0]));
        push_str(&mut out, " or ");
        push_str(&mut out, describe(&kinds[1]));
        return out;
    }
    let mut out = String::new();
    let mut i: usize = 0;
    while i < n - 1
        invariant
            n == kinds@.len(),
            n >= 3,
            i <= n - 1,
            out@ == comma_prefix(kinds@.take(i as int)),
        decreases n - 1 - i,
    {
        proof {
            assert(kinds@.take(i + 1).drop_last() =~= kinds@.take(i as int));
        }
        push_str(&mut out, describe(&kinds[i]));
        push_str(&mut out, ", ");
        i = i + 1;
    }
    proof {
        assert(kinds@.take(n - 1) =~= kinds@.drop_last());
    }
    push_str(&mut out, "or ");
    push_str(&mut out, describe(&kinds[n - 1]));
    out
}

/// How a token kind is named in diagnostics.
pub(crate) fn describe(kind: &TokenKind) -> (s: &'static str)
    ensures
        s@ == describe_text(*kind),
{
    match kind {
        TokenKind::Break => "`break`",
        TokenKind::Const => "`const`",
        TokenKind::Continue => "`continue`",
        TokenKind::Else => "`else`",
        TokenKind::Enum => "`enum`",
        TokenKind::Extern => "`extern`",
        TokenKind::False => "`false`",
        TokenKind::Fn => "`fn`",
        TokenKind::For => "`for`",
        TokenKind::If => "`if`",
        TokenKind::Impl => "`impl`",
        TokenKind::In => "`in`",
        TokenKind::Let => "`let`",
        TokenKind::Loop => "`loop`",
        TokenKind::Match => "`match`",
        TokenKind::Mod => "`mod`",
        TokenKind::Mut => "`mut`",
        TokenKind::Not => "`not`",
        TokenKind::Or => "`or`",
        TokenKind::Pub => "`pub`",
        TokenKind::Return => "`return`",
        TokenKind::Static => "`static`",
        TokenKind::SelfLower => "`self`",
        TokenKind::SelfUpper => "`Self`",
        TokenKind::Struct => "`struct`",
        TokenKind::Trait => "`trait`",
        TokenKind::True => "`true`",
        TokenKind::Type => "`type`",
        TokenKind::Unsafe => "`unsafe`",
        TokenKind::Use => "`use`",
        TokenKind::Where => "`where`",
        TokenKind::While => "`while`",
        TokenKind::And => "`and`",
        TokenKind::IntLiteral(..) => "integer literal",
        TokenKind::FloatLiteral(..) => "float literal",
        TokenKind::CharLiteral(..) => "char literal",
        TokenKind::StringLiteral(..) => "string literal",
        TokenKind::RawStringLiteral(..) => "raw string literal",
        TokenKind::DocComment(..) => "doc comment",
        TokenKind::Ident(..) => "identifier",
        TokenKind::Plus => "`+`",
        TokenKind::Minus => "`-`",
        TokenKind::Star => "`*`",
        TokenKind::Slash => "`/`",
        TokenKind::Percent => "`%`",
        TokenKind::EqEq => "`==`",
        TokenKind::BangEq => "`!=`",
        TokenKind::Lt => "`<`",
        TokenKind::Gt => "`>`",
        TokenKind::Le => "`<=`",
        TokenKind::Ge => "`>=`",
        TokenKind::Amp => "`&`",
        TokenKind::Pipe => "`|`",
        TokenKind::Caret => "`^`",
        TokenKind::Tilde => "`~`",
        TokenKind::Shl => "`<<`",
        TokenKind::Shr => "`>>`",
        TokenKind::Eq => "`=`",
        TokenKind::PlusEq => "`+=`",
        TokenKind::MinusEq => "`-=`",
        TokenKind::StarEq => "`*=`",
        TokenKind::SlashEq => "`/=`",
        TokenKind::PercentEq => "`%=`",
        TokenKind::Dot => "`.`",
        TokenKind::ColonColon => "`::`",
        TokenKind::LBracket => "`[`",
        TokenKind::RBracket => "`]`",
        TokenKind::LParen => "`(`",
        TokenKind::RParen => "`)`",
        TokenKind::LBrace => "`{`",
        TokenKind::RBrace => "`}`",
        TokenKind::Question => "`?`",
        TokenKind::DotDot => "`..`",
        TokenKind::DotDotEq => "`..=`",
        TokenKind::Arrow => "`->`",
        TokenKind::FatArrow => "`=>`",
        TokenKind::Semi => "`;`",
        TokenKind::Comma => "`,`",
        TokenKind::Colon => "`:`",
        TokenKind::Underscore => "`_`",
        TokenKind::Eof => "end of file",
        TokenKind::Error(..) => "lexer error",
    }
}

} // verus!
