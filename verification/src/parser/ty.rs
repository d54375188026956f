use vstd::prelude::*;

use crate::ast::expr::{GenericArg, Path, PathSegment};
use crate::ast::ty::Type;
use crate::error::CompileError;
use crate::lexer::token::TokenKind;
use crate::ast::model::{
    lemma_types_model_push, segment_model, segments_model, type_m_span, type_model, types_model, PathM,
    SegmentM, TypeM,
};
use crate::ast::NodeId;
use crate::lexer::token::Token;
use crate::parser::expr::{sp_expr, unreachable_step, within};
use crate::parser::{
    bumped, record, syntax_diag, expected_at, expected_found, fresh, is_syntax_error, span_at, syntax_error, tk, PRes, PState, Parser,
};
use crate::span::{FileId, Span};

verus! {

/// The span a type reports: its own where it has one, else that of the type
/// it is built on; an empty tuple (and the forms the parser does not
/// produce) report an empty span of file 0.
pub open spec fn type_span_of(ty: Type) -> Span
    decreases ty,
{
    match ty {
        Type::Path(p) => p.span,
        Type::Ref { span, .. } => span,
        Type::Ptr { ty, .. } => type_span_of(*ty),
        Type::Array { elem, .. } => type_span_of(*elem),
        Type::Slice { elem } => type_span_of(*elem),
        Type::Tuple(elems) => if elems@.len() > 0 {
            type_span_of(elems@[0])
        } else {
            Span { file_id: FileId(0), start: 0, end: 0 }
        },
        _ => Span { file_id: FileId(0), start: 0, end: 0 },
    }
}

/// The span of a parsed type (see [`type_span_of`]).
pub(crate) fn type_span(ty: &Type) -> (s: Span)
    ensures
        s == type_span_of(*ty),
    decreases ty,
{
    match ty {
        Type::Path(p) => p.span,
        Type::Ref { span, .. } => *span,
        Type::Ptr { ty, .. } => type_span(ty),
        Type::Array { elem, .. } => type_span(elem),
        Type::Slice { elem } => type_span(elem),
        Type::Tuple(elems) => {
            if elems.len() > 0 {
                proof {
                    assert(decreases_to!(elems => elems@[0]));
                }
                type_span(&elems[0])
            } else {
                Span::new(FileId(0), 0, 0)
            }
        },
        _ => Span::new(FileId(0), 0, 0),
    }
}

/// `r` is the outcome `m`: a type with model `m`'s value, or the diagnostic
/// `m` describes.
pub open spec fn type_holds(r: Result<Type, CompileError>, m: PRes<TypeM>) -> bool {
    match m {
        PRes::Parsed(x) => r matches Ok(v) && type_model(v) == x,
        PRes::Failed(sp, msg) => r matches Err(e) && is_syntax_error(e, sp, msg),
    }
}

/// The one-segment path type named by the identifier at `s`.
pub open spec fn word_type(t: Seq<Token>, s: PState, name: Seq<char>) -> TypeM {
    TypeM::Path(PathM {
        id: NodeId(s.nid),
        span: t[s.pos].span,
        segments: seq![SegmentM { ident: name, generic_args: Seq::empty() }],
    })
}

/// What parsing a type at `s` gives.
#[verifier::opaque]
pub open spec fn sp_type(t: Seq<Token>, s: PState) -> (PRes<TypeM>, PState)
    decreases t.len() - s.pos, 1nat,
{
    let k = tk(t, s.pos);
    if k is Amp {
        sp_ref_type(t, s)
    } else if k is Star {
        sp_ptr_type(t, s)
    } else if k is LBracket {
        sp_bracketed_type(t, s)
    } else if k is LParen {
        sp_tuple_type(t, s)
    } else {
        match k {
            TokenKind::Ident(name) => (PRes::Parsed(word_type(t, s, name@)), fresh(bumped(s))),
            _ => (PRes::Failed(span_at(t, s.pos), expected_found("identifier"@, k)), s),
        }
    }
}

/// What parsing `*const T` or `*mut T` at `s` gives; a missing qualifier
/// reads as `const`.
#[verifier::opaque]
pub open spec fn sp_ptr_type(t: Seq<Token>, s: PState) -> (PRes<TypeM>, PState)
    decreases t.len() - s.pos, 0nat,
{
    if !(tk(t, s.pos) is Star) {
        (PRes::Failed(span_at(t, s.pos), Seq::empty()), s)
    } else {
        let s1 = bumped(s);
        let k = tk(t, s1.pos);
        let mutable = k is Mut;
        let s2 = if k is Mut || k is Const {
            bumped(s1)
        } else {
            record(s1, syntax_diag(t[s.pos].span, "expected `const` or `mut` after `*`"@))
        };
        let (r, s3) = sp_type(t, s2);
        match r {
            PRes::Failed(a, b) => (PRes::Failed(a, b), s3),
            PRes::Parsed(inner) => (PRes::Parsed(TypeM::Ptr { mutable, ty: Box::new(inner) }), s3),
        }
    }
}

/// What parsing `[T]` or `[T; n]` at `s` gives.
#[verifier::opaque]
pub open spec fn sp_bracketed_type(t: Seq<Token>, s: PState) -> (PRes<TypeM>, PState)
    decreases t.len() - s.pos, 0nat,
{
    if !(tk(t, s.pos) is LBracket) {
        (PRes::Failed(span_at(t, s.pos), Seq::empty()), s)
    } else {
        let s1 = bumped(s);
        let (r, s2) = sp_type(t, s1);
        match r {
            PRes::Failed(a, b) => (PRes::Failed(a, b), s2),
            PRes::Parsed(elem) => if tk(t, s2.pos) is Semi {
                let (rl, s3) = sp_expr(t, bumped(s2));
                match rl {
                    PRes::Failed(a, b) => (PRes::Failed(a, b), s3),
                    PRes::Parsed(len) => if tk(t, s3.pos) is RBracket {
                        (PRes::Parsed(TypeM::Array { elem: Box::new(elem), len: Box::new(len) }), bumped(s3))
                    } else {
                        (expected_at(t, s3.pos, TokenKind::RBracket), s3)
                    },
                }
            } else if tk(t, s2.pos) is RBracket {
                (PRes::Parsed(TypeM::Slice { elem: Box::new(elem) }), bumped(s2))
            } else {
                (expected_at(t, s2.pos, TokenKind::RBracket), s2)
            },
        }
    }
}

/// Closing a tuple type at `s`: `)` ends it.
pub open spec fn close_tuple_type(t: Seq<Token>, s: PState, elems: Seq<TypeM>) -> (PRes<TypeM>, PState) {
    if tk(t, s.pos) is RParen {
        (PRes::Parsed(TypeM::Tuple(elems)), bumped(s))
    } else {
        (expected_at(t, s.pos, TokenKind::RParen), s)
    }
}

/// The rest of a tuple type from `s`, `elems` already parsed.
#[verifier::opaque]
pub open spec fn sp_tuple_type_rest(t: Seq<Token>, s: PState, elems: Seq<TypeM>) -> (PRes<TypeM>, PState)
    decreases t.len() - s.pos, 2nat,
{
    if tk(t, s.pos) is RParen {
        close_tuple_type(t, s, elems)
    } else {
        let (r, s1) = sp_type(t, s);
        match r {
            PRes::Failed(a, b) => (PRes::Failed(a, b), s1),
            PRes::Parsed(e) => if !within(t, s, s1) {
                unreachable_step(t, s1)
            } else if tk(t, s1.pos) is Comma {
                sp_tuple_type_rest(t, bumped(s1), elems.push(e))
            } else {
                close_tuple_type(t, s1, elems.push(e))
            },
        }
    }
}

/// What parsing `()`, `(T)` or `(T, ...)` at `s` gives.
#[verifier::opaque]
pub open spec fn sp_tuple_type(t: Seq<Token>, s: PState) -> (PRes<TypeM>, PState)
    decreases t.len() - s.pos, 0nat,
{
    if !(tk(t, s.pos) is LParen) {
        (PRes::Failed(span_at(t, s.pos), Seq::empty()), s)
    } else {
        let s1 = bumped(s);
        if tk(t, s1.pos) is RParen {
            (PRes::Parsed(TypeM::Tuple(Seq::empty())), bumped(s1))
        } else {
            let (r, s2) = sp_type(t, s1);
            match r {
                PRes::Failed(a, b) => (PRes::Failed(a, b), s2),
                PRes::Parsed(first) => if !within(t, s1, s2) {
                    unreachable_step(t, s2)
                } else if tk(t, s2.pos) is RParen {
                    (PRes::Parsed(first), bumped(s2))
                } else if !(tk(t, s2.pos) is Comma) {
                    (expected_at(t, s2.pos, TokenKind::Comma), s2)
                } else {
                    sp_tuple_type_rest(t, bumped(s2), seq![first])
                },
            }
        }
    }
}

/// What parsing `&T` or `&mut T` at `s` gives; an identifier starting with
/// `'` right after `&` is skipped.
#[verifier::opaque]
pub open spec fn sp_ref_type(t: Seq<Token>, s: PState) -> (PRes<TypeM>, PState)
    decreases t.len() - s.pos, 0nat,
{
    if !(tk(t, s.pos) is Amp) {
        (PRes::Failed(span_at(t, s.pos), Seq::empty()), s)
    } else {
        let start = t[s.pos].span;
        let s1 = bumped(s);
        let s2 = if is_lifetime_word(tk(t, s1.pos)) { bumped(s1) } else { s1 };
        let mutable = tk(t, s2.pos) is Mut;
        let s3 = if mutable { bumped(s2) } else { s2 };
        let (r, s4) = sp_type(t, s3);
        match r {
            PRes::Failed(a, b) => (PRes::Failed(a, b), s4),
            PRes::Parsed(inner) => (
                PRes::Parsed(TypeM::Ref {
                    mutable,
                    ty: Box::new(inner),
                    span: start.spec_merge(type_m_span(inner)),
                    id: NodeId(s4.nid),
                }),
                fresh(s4),
            ),
        }
    }
}

/// The model of a type reports the span the parser computes for it.
pub proof fn lemma_type_span_model(ty: Type)
    ensures
        type_m_span(type_model(ty)) == type_span_of(ty),
    decreases ty,
{
    match ty {
        Type::Ptr { ty: inner, .. } => lemma_type_span_model(*inner),
        Type::Array { elem, .. } => lemma_type_span_model(*elem),
        Type::Slice { elem } => lemma_type_span_model(*elem),
        Type::Tuple(elems) => {
            if elems@.len() > 0 {
                assert(decreases_to!(elems => elems@[0]));
                lemma_type_span_model(elems@[0]);
                assert(types_model(elems@)[0] == type_model(elems@[0])) by {
                    lemma_types_model_index(elems@, 0);
                }
            }
        },
        _ => {},
    }
}

/// The models of a sequence of types are the types' models, one by one.
pub proof fn lemma_types_model_index(s: Seq<Type>, i: int)
    requires
        0 <= i < s.len(),
    ensures
        types_model(s).len() == s.len(),
        types_model(s)[i] == type_model(s[i]),
    decreases s.len(),
{
    if i < s.len() - 1 {
        lemma_types_model_index(s.drop_last(), i);
    } else {
        lemma_types_model_len(s.drop_last());
    }
}

/// There are as many type models as types.
pub proof fn lemma_types_model_len(s: Seq<Type>)
    ensures
        types_model(s).len() == s.len(),
    decreases s.len(),
{
    if s.len() > 0 {
        lemma_types_model_len(s.drop_last());
    }
}

impl Parser {
    /// A type: `&T`, `*const T`, `*mut T`, `[T]`, `[T; n]`, a tuple, or a
    /// one-word path.
    pub fn parse_type(&mut self) -> (r: Result<Type, CompileError>)
        requires
            old(self).wf(),
        ensures
            final(self).progressed(old(self), r is Ok),
            type_holds(r, sp_type(old(self).tokens@, old(self).state()).0),
            final(self).state() == sp_type(old(self).tokens@, old(self).state()).1,
        decreases old(self).tokens@.len() - old(self).pos, 1nat,
    {
        proof {
            reveal_with_fuel(sp_type, 1);
            reveal_with_fuel(sp_ref_type, 1);
            reveal_with_fuel(sp_ptr_type, 1);
            reveal_with_fuel(sp_bracketed_type, 1);
            reveal_with_fuel(sp_tuple_type, 1);
        }
        if matches!(self.peek(), TokenKind::Amp) {
            return self.parse_ref_type();
        }
        if matches!(self.peek(), TokenKind::Star) {
            return self.parse_ptr_type();
        }
        if matches!(self.peek(), TokenKind::LBracket) {
            return self.parse_bracketed_type();
        }
        if matches!(self.peek(), TokenKind::LParen) {
            return self.parse_tuple_or_grouped_type();
        }
        let (ident, span) = self.expect_ident()?;
        let id = self.new_node_id();
        let mut segments: Vec<PathSegment> = Vec::new();
        let seg = PathSegment { ident, generic_args: Vec::new() };
        segments.push(seg);
        proof {
            assert(segments_model(segments@) =~= seq![segment_model(segments@[0])]);
            assert(segments@[0].generic_args@ =~= Seq::<GenericArg>::empty());
        }
        Ok(Type::Path(Path { id, span, segments }))
    }

    /// `*const T` or `*mut T`; a missing qualifier is recorded and the
    /// pointer taken as `const`.
    fn parse_ptr_type(&mut self) -> (r: Result<Type, CompileError>)
        requires
            old(self).wf(),
            old(self).peek_kind() is Star,
        ensures
            final(self).progressed(old(self), r is Ok),
            type_holds(r, sp_ptr_type(old(self).tokens@, old(self).state()).0),
            final(self).state() == sp_ptr_type(old(self).tokens@, old(self).state()).1,
        decreases old(self).tokens@.len() - old(self).pos, 0nat,
    {
        proof {
            reveal_with_fuel(sp_ptr_type, 1);
            reveal_with_fuel(sp_type, 1);
        }
        let star_tok = self.bump();

        let mutable = if matches!(self.peek(), TokenKind::Mut) {
            self.bump();
            true
        } else if matches!(self.peek(), TokenKind::Const) {
            self.bump();
            false
        } else {
            let err = syntax_error(star_tok.span, "expected `const` or `mut` after `*`");
            self.report(err);
            false
        };

        let inner = self.parse_type()?;
        Ok(Type::Ptr { mutable, ty: Box::new(inner) })
    }

    /// `[T]` or `[T; n]`.
    fn parse_bracketed_type(&mut self) -> (r: Result<Type, CompileError>)
        requires
            old(self).wf(),
            old(self).peek_kind() is LBracket,
        ensures
            final(self).progressed(old(self), r is Ok),
            type_holds(r, sp_bracketed_type(old(self).tokens@, old(self).state()).0),
            final(self).state() == sp_bracketed_type(old(self).tokens@, old(self).state()).1,
        decreases old(self).tokens@.len() - old(self).pos, 0nat,
    {
        proof {
            reveal_with_fuel(sp_bracketed_type, 1);
            reveal_with_fuel(sp_type, 1);
        }
        self.bump();
        let elem = self.parse_type()?;
        if matches!(self.peek(), TokenKind::Semi) {
            self.bump();
            let len = self.parse_expr()?;
            self.expect(&TokenKind::RBracket)?;
            return Ok(Type::Array { elem: Box::new(elem), len: Box::new(len) });
        }
        self.expect(&TokenKind::RBracket)?;
        Ok(Type::Slice { elem: Box::new(elem) })
    }

    /// `()`, `(T)` (which is `T` itself), or a tuple type `(T, ...)`.
    fn parse_tuple_or_grouped_type(&mut self) -> (r: Result<Type, CompileError>)
        requires
            old(self).wf(),
            old(self).peek_kind() is LParen,
        ensures
            final(self).progressed(old(self), r is Ok),
            type_holds(r, sp_tuple_type(old(self).tokens@, old(self).state()).0),
            final(self).state() == sp_tuple_type(old(self).tokens@, old(self).state()).1,
        decreases old(self).tokens@.len() - old(self).pos, 0nat,
    {
        proof {
            reveal_with_fuel(sp_tuple_type, 1);
            reveal_with_fuel(sp_type, 1);
            reveal_with_fuel(sp_tuple_type_rest, 1);
        }
        self.bump();

        if matches!(self.peek(), TokenKind::RParen) {
            self.bump();
            proof {
                assert(types_model(Seq::<Type>::empty()) == Seq::<TypeM>::empty());
            }
            return Ok(Type::Tuple(Vec::new()));
        }

        let first = self.parse_type()?;

        if matches!(self.peek(), TokenKind::RParen) {
            self.bump();
            return Ok(first);
        }

        self.expect(&TokenKind::Comma)?;

        let mut elems: Vec<Type> = Vec::new();
        elems.push(first);
        proof {
            lemma_types_model_push(Seq::<Type>::empty(), first);
            assert(Seq::<Type>::empty().push(first) =~= elems@);
            assert(Seq::<TypeM>::empty().push(type_model(first)) =~= seq![type_model(first)]);
        }
        self.parse_tuple_type_rest(elems)
    }

    /// The rest of a tuple type: more types separated by commas, then `)`.
    fn parse_tuple_type_rest(&mut self, start: Vec<Type>) -> (r: Result<Type, CompileError>)
        requires
            old(self).wf(),
        ensures
            final(self).progressed(old(self), false),
            type_holds(r, sp_tuple_type_rest(old(self).tokens@, old(self).state(), types_model(start@)).0),
            final(self).state() == sp_tuple_type_rest(old(self).tokens@, old(self).state(), types_model(start@)).1,
        decreases old(self).tokens@.len() - old(self).pos, 2nat,
    {
        proof {
            reveal_with_fuel(sp_tuple_type_rest, 1);
            reveal_with_fuel(sp_type, 1);
        }
        let ghost t = self.tokens@;
        let ghost total = sp_tuple_type_rest(t, self.state(), types_model(start@));
        let mut elems = start;
        loop
            invariant_except_break
                sp_tuple_type_rest(t, self.state(), types_model(elems@)) == total,
            invariant
                total == sp_tuple_type_rest(old(self).tokens@, old(self).state(), types_model(start@)),
                self.progressed(old(self), false),
                t == self.tokens@,
            ensures
                close_tuple_type(t, self.state(), types_model(elems@)) == total,
            decreases self.tokens@.len() - self.pos,
        {
            proof {
                reveal_with_fuel(sp_tuple_type_rest, 1);
                reveal_with_fuel(sp_type, 1);
            }
            if matches!(self.peek(), TokenKind::RParen) {
                break;
            }
            let elem = self.parse_type()?;
            proof {
                lemma_types_model_push(elems@, elem);
            }
            elems.push(elem);
            if matches!(self.peek(), TokenKind::Comma) {
                self.bump();
                continue;
            }
            break;
        }
        self.expect(&TokenKind::RParen)?;
        Ok(Type::Tuple(elems))
    }

    /// `&T` or `&mut T`; an identifier starting with `'` right after `&` is
    /// taken as a lifetime and skipped.
    fn parse_ref_type(&mut self) -> (r: Result<Type, CompileError>)
        requires
            old(self).wf(),
            old(self).peek_kind() is Amp,
        ensures
            final(self).progressed(old(self), r is Ok),
            type_holds(r, sp_ref_type(old(self).tokens@, old(self).state()).0),
            final(self).state() == sp_ref_type(old(self).tokens@, old(self).state()).1,
        decreases old(self).tokens@.len() - old(self).pos, 0nat,
    {
        proof {
            reveal_with_fuel(sp_ref_type, 1);
            reveal_with_fuel(sp_type, 1);
        }
        let amp_tok = self.bump();
        let start_span = amp_tok.span;

        if starts_with_quote(self.peek()) {
            self.bump();
        }

        let mutable = self.eat(&TokenKind::Mut);
        let inner = self.parse_type()?;
        let inner_span = type_span(&inner);
        proof {
            lemma_type_span_model(inner);
        }
        let span = start_span.merge(&inner_span);
        let id = self.new_node_id();
        Ok(Type::Ref { mutable, ty: Box::new(inner), span, id })
    }
}

/// The token is an identifier whose first character is `'`.
pub open spec fn is_lifetime_word(k: TokenKind) -> bool {
    k matches TokenKind::Ident(s) && s@.len() > 0 && s@[0] == '\''
}

/// Whether `kind` is an identifier starting with `'`.
fn starts_with_quote(kind: &TokenKind) -> (b: bool)
    ensures
        b == is_lifetime_word(*kind),
{
    match kind {
        TokenKind::Ident(s) => {
            let text = s.as_str();
            text.unicode_len() > 0 && text.get_char(0) == '\''
        },
        _ => false,
    }
}

} // verus!
