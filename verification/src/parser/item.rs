use vstd::prelude::*;

use crate::ast::expr::{Block, Expr, GenericArg, IntLit, Path, PathSegment};
use crate::ast::generics::{Generics, TraitBound, TypeParam, WhereClause, WherePred};
use crate::ast::item::{
    ConstDef, EnumDef, EnumVariant, Field, FnDef, Item, ModDef, ModKind, Param, StaticDef,
    StructDef, StructKind, TraitDef, TraitItem, TraitItemConst, TraitItemFn, TraitItemType,
    TypeAliasDef, UseDef, UseTree, VariantKind,
};
use crate::ast::ty::Type;
use crate::error::render::{dec, push_decimal};
use crate::error::CompileError;
use crate::lexer::token::{IntSuffix, TokenKind};
use crate::parser::expr::{ident_is, is_word};
use crate::parser::ty::type_span;
use crate::parser::{describe_text, expected_found, is_syntax_error, syntax_error, Parser};
use crate::span::Span;
use crate::ast::model::{
    bound_model, bounds_model, generics_model, opt_generics_model, opt_where_model, path_model, segments_model,
    type_m_span, type_model, type_param_model, type_params_model, GenericsM, PathM, SegmentM, TraitBoundM,
    TypeParamM, WhereClauseM, lemma_map_push, param_model, params_model, ParamM, TypeM, opt_type_model,
    where_model, where_pred_model, where_preds_model, WherePredM, block_model, BlockM, ExprM,
    field_model, fields_model, FieldM, types_model, lemma_types_model_push, variant_kind_model, VariantKindM,
    expr_model, variant_model, variants_model, EnumVariantM, item_model, ItemM, trait_item_model,
    trait_items_model, TraitItemM, items_model, lemma_items_model_push, ModKindM, names_model, use_tree_model,
    use_trees_model, lemma_use_trees_model_push, UseTreeM,
};
use crate::ast::NodeId;
use crate::lexer::token::Token;
use crate::parser::ty::{lemma_type_span_model, sp_type, type_holds, type_span_of};
use crate::parser::expr::{sp_block, unexpected_at, unreachable_step, within};
use crate::parser::{bumped, record, recovered, syntax_diag, candidate_list, expected_at, fresh, holds, span_at, sync_end, tk, PRes, PState};
use crate::parser::expr::sp_expr;

verus! {

/// `head` is the first token of a function, modifiers included.
pub open spec fn fn_start(k: TokenKind) -> bool {
    k is Const || k is Unsafe || k is Extern || k is Fn
}

// What taking an identifier at `s` gives: its text and span.
pub open spec fn sp_ident(t: Seq<Token>, s: PState) -> (PRes<(Seq<char>, Span)>, PState) {
    match tk(t, s.pos) {
        TokenKind::Ident(name) => (PRes::Parsed((name@, t[s.pos].span)), bumped(s)),
        _ => (PRes::Failed(span_at(t, s.pos), expected_found("identifier"@, tk(t, s.pos))), s),
    }
}

/// The diagnostic for a token that is none of `kinds`.
pub open spec fn one_of_at<T>(t: Seq<Token>, i: int, kinds: Seq<TokenKind>) -> PRes<T> {
    PRes::Failed(span_at(t, i), expected_found(candidate_list(kinds), tk(t, i)))
}

/// The one-segment path `name`, its segment carrying `args`.
pub open spec fn one_segment_path(id: NodeId, span: Span, name: Seq<char>, args: Seq<GenericArg>) -> PathM {
    PathM { id, span, segments: seq![SegmentM { ident: name, generic_args: args }] }
}

/// What parsing a one-word trait bound at `s` gives.
pub open spec fn sp_trait_bound(t: Seq<Token>, s: PState) -> (PRes<TraitBoundM>, PState) {
    let (ri, s1) = sp_ident(t, s);
    match ri {
        PRes::Failed(a, b) => (PRes::Failed(a, b), s1),
        PRes::Parsed((name, span)) => {
            let s2 = fresh(s1);
            (
                PRes::Parsed(TraitBoundM {
                    id: NodeId(s2.nid),
                    span,
                    path: one_segment_path(NodeId(s1.nid), span, name, Seq::empty()),
                    generic_args: Seq::empty(),
                }),
                fresh(s2),
            )
        },
    }
}

/// More `+ Bound` from `s`, `acc` already parsed.
#[verifier::opaque]
pub open spec fn sp_bounds_rest(t: Seq<Token>, s: PState, acc: Seq<TraitBoundM>) -> (PRes<Seq<TraitBoundM>>, PState)
    decreases t.len() - s.pos,
{
    if !(tk(t, s.pos) is Plus) {
        (PRes::Parsed(acc), s)
    } else {
        let (r, s1) = sp_trait_bound(t, bumped(s));
        match r {
            PRes::Failed(a, b) => (PRes::Failed(a, b), s1),
            PRes::Parsed(b) => if !within(t, bumped(s), s1) {
                unreachable_step(t, s1)
            } else {
                sp_bounds_rest(t, s1, acc.push(b))
            },
        }
    }
}

/// What parsing `Bound + Bound + ...` at `s` gives.
pub open spec fn sp_bounds(t: Seq<Token>, s: PState) -> (PRes<Seq<TraitBoundM>>, PState) {
    let (r, s1) = sp_trait_bound(t, s);
    match r {
        PRes::Failed(a, b) => (PRes::Failed(a, b), s1),
        PRes::Parsed(b) => sp_bounds_rest(t, s1, seq![b]),
    }
}

/// Generic parameters from `s` to the closing `>`, `acc` already parsed:
/// the parameters and the span of the `>`.
#[verifier::opaque]
pub open spec fn sp_gparams_loop(t: Seq<Token>, s: PState, acc: Seq<TypeParamM>) -> (PRes<(Seq<TypeParamM>, Span)>, PState)
    decreases t.len() - s.pos,
{
    if tk(t, s.pos) is Gt {
        (PRes::Parsed((acc, t[s.pos].span)), bumped(s))
    } else {
        let (ri, s1) = sp_ident(t, s);
        match ri {
            PRes::Failed(a, b) => (PRes::Failed(a, b), s1),
            PRes::Parsed((name, name_span)) => {
                let (rb, s2) = if tk(t, s1.pos) is Colon {
                    sp_bounds(t, bumped(s1))
                } else {
                    (PRes::Parsed(Seq::empty()), s1)
                };
                match rb {
                    PRes::Failed(a, b) => (PRes::Failed(a, b), s2),
                    PRes::Parsed(bounds) => {
                        let end = if bounds.len() > 0 { bounds.last().span } else { name_span };
                        let p = TypeParamM { id: NodeId(s2.nid), span: name_span.spec_merge(end), name, bounds };
                        let s3 = fresh(s2);
                        if tk(t, s3.pos) is Comma {
                            if !within(t, s, s3) {
                                unreachable_step(t, s3)
                            } else {
                                sp_gparams_loop(t, bumped(s3), acc.push(p))
                            }
                        } else if tk(t, s3.pos) is Gt {
                            (PRes::Parsed((acc.push(p), t[s3.pos].span)), bumped(s3))
                        } else {
                            (one_of_at(t, s3.pos, seq![TokenKind::Comma, TokenKind::Gt]), s3)
                        }
                    },
                }
            },
        }
    }
}

/// What parsing `<...>` at `s` gives, if a `<` is there: the parameters and
/// the span of the list.
pub open spec fn sp_opt_generics(t: Seq<Token>, s: PState) -> (PRes<(Seq<TypeParamM>, Option<Span>)>, PState) {
    if tk(t, s.pos) is Lt {
        let (r, s1) = sp_gparams_loop(t, bumped(s), Seq::empty());
        match r {
            PRes::Failed(a, b) => (PRes::Failed(a, b), s1),
            PRes::Parsed((params, gt)) => (PRes::Parsed((params, Some(t[s.pos].span.spec_merge(gt)))), s1),
        }
    } else {
        (PRes::Parsed((Seq::empty(), None)), s)
    }
}

/// The generics record of an item and the state after it: present when a
/// parameter list or a `where` clause was written, spanning both.
pub open spec fn gen_node(
    s: PState,
    params: Seq<TypeParamM>,
    list_span: Option<Span>,
    where_clause: Option<WhereClauseM>,
) -> (Option<GenericsM>, PState) {
    match list_span {
        Some(a) => {
            let span = match where_clause {
                Some(w) => a.spec_merge(w.span),
                None => a,
            };
            (Some(GenericsM { id: NodeId(s.nid), span, params, where_clause }), fresh(s))
        },
        None => match where_clause {
            Some(w) => (Some(GenericsM { id: NodeId(s.nid), span: w.span, params, where_clause: Some(w) }), fresh(s)),
            None => (None, s),
        },
    }
}

/// What parsing the explicit type of a `self` parameter at `s` gives: a word,
/// optionally with one argument that is a word or `Self`.
#[verifier::opaque]
pub open spec fn sp_self_explicit_type(t: Seq<Token>, s: PState) -> (PRes<TypeM>, PState) {
    let (ri, s1) = sp_ident(t, s);
    match ri {
        PRes::Failed(a, b) => (PRes::Failed(a, b), s1),
        PRes::Parsed((name, head)) => if tk(t, s1.pos) is Lt {
            let s2 = bumped(s1);
            if tk(t, s2.pos) is Ident || tk(t, s2.pos) is SelfUpper {
                let s3 = bumped(s2);
                if tk(t, s3.pos) is Gt {
                    let s4 = bumped(s3);
                    (
                        PRes::Parsed(TypeM::Path(one_segment_path(NodeId(s4.nid), head.spec_merge(t[s3.pos].span), name, seq![GenericArg::Placeholder]))),
                        fresh(s4),
                    )
                } else {
                    (expected_at(t, s3.pos, TokenKind::Gt), s3)
                }
            } else {
                (PRes::Failed(span_at(t, s2.pos), expected_found("identifier"@ + " or "@ + "`Self`"@, tk(t, s2.pos))), s2)
            }
        } else {
            (PRes::Parsed(TypeM::Path(one_segment_path(NodeId(s1.nid), head.spec_merge(head), name, Seq::empty()))), fresh(s1))
        },
    }
}

/// The path type `Self` at `span`, with the id of `s`.
pub open spec fn self_type(s: PState, span: Span) -> TypeM {
    TypeM::Path(one_segment_path(NodeId(s.nid), span, "Self"@, Seq::empty()))
}

/// What parsing `self` or `self: Ty` at `s` gives.
#[verifier::opaque]
pub open spec fn sp_self_param_value(t: Seq<Token>, s: PState) -> (PRes<ParamM>, PState) {
    let self_span = t[s.pos].span;
    let s1 = bumped(s);
    if tk(t, s1.pos) is Colon {
        let (rt, s2) = sp_self_explicit_type(t, bumped(s1));
        match rt {
            PRes::Failed(a, b) => (PRes::Failed(a, b), s2),
            PRes::Parsed(ty) => (
                PRes::Parsed(ParamM {
                    id: NodeId(s2.nid),
                    span: self_span.spec_merge(type_m_span(ty)),
                    name: "self"@,
                    ty,
                    is_self: true,
                }),
                fresh(s2),
            ),
        }
    } else {
        let ty = self_type(s1, self_span);
        let s2 = fresh(s1);
        (
            PRes::Parsed(ParamM { id: NodeId(s2.nid), span: self_span.spec_merge(self_span), name: "self"@, ty, is_self: true }),
            fresh(s2),
        )
    }
}

/// What parsing `&self` or `&mut self` at `s` gives.
#[verifier::opaque]
pub open spec fn sp_self_param_ref(t: Seq<Token>, s: PState, mutable: bool) -> (PRes<ParamM>, PState) {
    let start = t[s.pos].span;
    let s1 = bumped(s);
    let s2 = if mutable { bumped(s1) } else { s1 };
    let self_span = t[s2.pos].span;
    let s3 = bumped(s2);
    let inner = self_type(s3, self_span);
    let s4 = fresh(s3);
    let ref_span = start.spec_merge(self_span);
    let ty = TypeM::Ref { mutable, ty: Box::new(inner), span: ref_span, id: NodeId(s4.nid) };
    let s5 = fresh(s4);
    (PRes::Parsed(ParamM { id: NodeId(s5.nid), span: ref_span, name: "self"@, ty, is_self: true }), fresh(s5))
}

/// The receiver at `s`, if one starts there.
pub open spec fn sp_try_self_param(t: Seq<Token>, s: PState) -> Option<(PRes<ParamM>, PState)> {
    if tk(t, s.pos) is SelfLower {
        Some(sp_self_param_value(t, s))
    } else if tk(t, s.pos) is Amp {
        if tk(t, s.pos + 1) is SelfLower {
            Some(sp_self_param_ref(t, s, false))
        } else if tk(t, s.pos + 1) is Mut && tk(t, s.pos + 2) is SelfLower {
            Some(sp_self_param_ref(t, s, true))
        } else {
            None
        }
    } else {
        None
    }
}

/// Closing a `where` clause at `s`.
pub open spec fn where_node(s: PState, where_span: Span, end: Span, preds: Seq<WherePredM>) -> (PRes<WhereClauseM>, PState) {
    (PRes::Parsed(WhereClauseM { id: NodeId(s.nid), span: where_span.spec_merge(end), predicates: preds }), fresh(s))
}

/// `where` predicates from `s`, `preds` already parsed.
#[verifier::opaque]
pub open spec fn sp_where_loop(
    t: Seq<Token>,
    s: PState,
    preds: Seq<WherePredM>,
    where_span: Span,
    end: Span,
) -> (PRes<WhereClauseM>, PState)
    decreases t.len() - s.pos,
{
    if tk(t, s.pos) is LBrace || tk(t, s.pos) is Semi {
        where_node(s, where_span, end, preds)
    } else {
        let (rt, s1) = sp_type(t, s);
        match rt {
            PRes::Failed(a, b) => (PRes::Failed(a, b), s1),
            PRes::Parsed(ty) => if !(tk(t, s1.pos) is Colon) {
                (expected_at(t, s1.pos, TokenKind::Colon), s1)
            } else {
                let (rb, s2) = sp_bounds(t, bumped(s1));
                match rb {
                    PRes::Failed(a, b) => (PRes::Failed(a, b), s2),
                    PRes::Parsed(bounds) => {
                        let last = if bounds.len() > 0 { bounds.last().span } else { type_m_span(ty) };
                        let pspan = type_m_span(ty).spec_merge(last);
                        let pred = WherePredM { id: NodeId(s2.nid), span: pspan, ty, bounds };
                        let s3 = fresh(s2);
                        if tk(t, s3.pos) is Comma {
                            if !within(t, s, s3) {
                                unreachable_step(t, s3)
                            } else {
                                sp_where_loop(t, bumped(s3), preds.push(pred), where_span, pspan)
                            }
                        } else {
                            where_node(s3, where_span, pspan, preds.push(pred))
                        }
                    },
                }
            },
        }
    }
}

/// What parsing a `where` clause at `s` gives.
pub open spec fn sp_where_clause(t: Seq<Token>, s: PState) -> (PRes<WhereClauseM>, PState) {
    sp_where_loop(t, bumped(s), Seq::empty(), t[s.pos].span, t[s.pos].span)
}

/// The end of a signature at `s`: `)`, an optional `-> Ty`, and an optional
/// `where` clause.
pub open spec fn sp_sig_close(t: Seq<Token>, s: PState, params: Seq<ParamM>) -> (PRes<(Seq<ParamM>, Option<TypeM>, Option<WhereClauseM>)>, PState) {
    if !(tk(t, s.pos) is RParen) {
        (expected_at(t, s.pos, TokenKind::RParen), s)
    } else {
        let s1 = bumped(s);
        let (rr, s2) = if tk(t, s1.pos) is Arrow {
            let (rt, s2) = sp_type(t, bumped(s1));
            match rt {
                PRes::Failed(a, b) => (PRes::Failed(a, b), s2),
                PRes::Parsed(ty) => (PRes::Parsed(Some(ty)), s2),
            }
        } else {
            (PRes::Parsed(None), s1)
        };
        match rr {
            PRes::Failed(a, b) => (PRes::Failed(a, b), s2),
            PRes::Parsed(ret) => if tk(t, s2.pos) is Where {
                let (rw, s3) = sp_where_clause(t, s2);
                match rw {
                    PRes::Failed(a, b) => (PRes::Failed(a, b), s3),
                    PRes::Parsed(w) => (PRes::Parsed((params, ret, Some(w))), s3),
                }
            } else {
                (PRes::Parsed((params, ret, None)), s2)
            },
        }
    }
}

/// Named parameters from `s` to the closing `)`, `acc` already parsed.
#[verifier::opaque]
pub open spec fn sp_params_loop(t: Seq<Token>, s: PState, acc: Seq<ParamM>) -> (PRes<(Seq<ParamM>, Option<TypeM>, Option<WhereClauseM>)>, PState)
    decreases t.len() - s.pos,
{
    if tk(t, s.pos) is RParen {
        sp_sig_close(t, s, acc)
    } else {
        let (ri, s1) = sp_ident(t, s);
        match ri {
            PRes::Failed(a, b) => (PRes::Failed(a, b), s1),
            PRes::Parsed((name, name_span)) => if !(tk(t, s1.pos) is Colon) {
                (expected_at(t, s1.pos, TokenKind::Colon), s1)
            } else {
                let (rt, s2) = sp_type(t, bumped(s1));
                match rt {
                    PRes::Failed(a, b) => (PRes::Failed(a, b), s2),
                    PRes::Parsed(ty) => {
                        let p = ParamM { id: NodeId(s2.nid), span: name_span.spec_merge(type_m_span(ty)), name, ty, is_self: false };
                        let s3 = fresh(s2);
                        if tk(t, s3.pos) is Comma {
                            if !within(t, s, s3) {
                                unreachable_step(t, s3)
                            } else {
                                sp_params_loop(t, bumped(s3), acc.push(p))
                            }
                        } else {
                            sp_sig_close(t, s3, acc.push(p))
                        }
                    },
                }
            },
        }
    }
}

/// What parsing `(params) -> Ret where ...` at `s` gives.
pub open spec fn sp_sig_tail(t: Seq<Token>, s: PState) -> (PRes<(Seq<ParamM>, Option<TypeM>, Option<WhereClauseM>)>, PState) {
    if !(tk(t, s.pos) is LParen) {
        (expected_at(t, s.pos, TokenKind::LParen), s)
    } else {
        let s1 = bumped(s);
        match sp_try_self_param(t, s1) {
            Some((rp, s2)) => match rp {
                PRes::Failed(a, b) => (PRes::Failed(a, b), s2),
                PRes::Parsed(p) => if tk(t, s2.pos) is Comma {
                    sp_params_loop(t, bumped(s2), seq![p])
                } else {
                    sp_sig_close(t, s2, seq![p])
                },
            },
            None => sp_params_loop(t, s1, Seq::empty()),
        }
    }
}

/// A block parsed where a function body stands.
pub open spec fn sp_body(t: Seq<Token>, s: PState) -> (PRes<BlockM>, PState) {
    let (r, s1) = sp_block(t, s);
    match r {
        PRes::Failed(a, b) => (PRes::Failed(a, b), s1),
        PRes::Parsed(e) => match e {
            ExprM::Block(b) => (PRes::Parsed(b), s1),
            _ => (unexpected_at(t, s1.pos, "block"@), s1),
        },
    }
}

/// A function after its modifiers, from the `fn` keyword at `s`.
pub open spec fn sp_fn_rest(
    t: Seq<Token>,
    s: PState,
    is_const: bool,
    is_unsafe: bool,
    extern_abi: Option<Seq<char>>,
    first: Option<Span>,
) -> (PRes<ItemM>, PState) {
    if !(tk(t, s.pos) is Fn) {
        (expected_at(t, s.pos, TokenKind::Fn), s)
    } else {
        let start = match first {
            Some(sp) => sp,
            None => t[s.pos].span,
        };
        let (rn, s1) = sp_ident(t, bumped(s));
        match rn {
            PRes::Failed(a, b) => (PRes::Failed(a, b), s1),
            PRes::Parsed((name, _)) => {
                let (rg, s2) = sp_opt_generics(t, s1);
                match rg {
                    PRes::Failed(a, b) => (PRes::Failed(a, b), s2),
                    PRes::Parsed((gparams, gspan)) => {
                        let (rs, s3) = sp_sig_tail(t, s2);
                        match rs {
                            PRes::Failed(a, b) => (PRes::Failed(a, b), s3),
                            PRes::Parsed((params, ret_ty, wc)) => {
                                let (rb, s4) = sp_body(t, s3);
                                match rb {
                                    PRes::Failed(a, b) => (PRes::Failed(a, b), s4),
                                    PRes::Parsed(body) => {
                                        let (generics, s5) = gen_node(s4, gparams, gspan, wc);
                                        (
                                            PRes::Parsed(ItemM::Fn {
                                                id: NodeId(s5.nid),
                                                span: start.spec_merge(body.span),
                                                name,
                                                params,
                                                ret_ty,
                                                body,
                                                is_const,
                                                is_unsafe,
                                                extern_abi,
                                                generics,
                                            }),
                                            fresh(s5),
                                        )
                                    },
                                }
                            },
                        }
                    },
                }
            },
        }
    }
}

/// Function modifiers from `s`: `const`, `unsafe` and `extern "abi"` in any
/// order; a repeated one changes nothing (it is only reported).
#[verifier::opaque]
pub open spec fn sp_fn_mods(
    t: Seq<Token>,
    s: PState,
    is_const: bool,
    is_unsafe: bool,
    extern_abi: Option<Seq<char>>,
    first: Option<Span>,
) -> (PRes<ItemM>, PState)
    decreases t.len() - s.pos,
{
    let k = tk(t, s.pos);
    if k is Const || k is Unsafe || k is Extern {
        let first2 = match first {
            Some(sp) => Some(sp),
            None => Some(t[s.pos].span),
        };
        let s1 = bumped(s);
        let here = t[s.pos].span;
        if k is Const {
            let s2 = if is_const { record(s1, syntax_diag(here, "duplicate `const` modifier on function"@)) } else { s1 };
            sp_fn_mods(t, s2, true, is_unsafe, extern_abi, first2)
        } else if k is Unsafe {
            let s2 = if is_unsafe { record(s1, syntax_diag(here, "duplicate `unsafe` modifier on function"@)) } else { s1 };
            sp_fn_mods(t, s2, is_const, true, extern_abi, first2)
        } else {
            let (abi, s2) = match tk(t, s1.pos) {
                TokenKind::StringLiteral(x) => (x@, bumped(s1)),
                _ => (Seq::<char>::empty(), s1),
            };
            let (abi2, s3) = match extern_abi {
                Some(a) => (Some(a), record(s2, syntax_diag(here, "duplicate `extern` modifier on function"@))),
                None => (Some(abi), s2),
            };
            sp_fn_mods(t, s3, is_const, is_unsafe, abi2, first2)
        }
    } else {
        sp_fn_rest(t, s, is_const, is_unsafe, extern_abi, first)
    }
}

/// What parsing a function at `s` gives.
pub open spec fn sp_fn(t: Seq<Token>, s: PState) -> (PRes<ItemM>, PState) {
    sp_fn_mods(t, s, false, false, None, None)
}

/// Named fields from `s` up to the closing `}`, `acc` already parsed.
#[verifier::opaque]
pub open spec fn sp_named_fields(t: Seq<Token>, s: PState, acc: Seq<FieldM>) -> (PRes<Seq<FieldM>>, PState)
    decreases t.len() - s.pos,
{
    if tk(t, s.pos) is RBrace {
        (PRes::Parsed(acc), s)
    } else {
        let is_pub = tk(t, s.pos) is Pub;
        let s1 = if is_pub { bumped(s) } else { s };
        let (ri, s2) = sp_ident(t, s1);
        match ri {
            PRes::Failed(a, b) => (PRes::Failed(a, b), s2),
            PRes::Parsed((name, name_span)) => if !(tk(t, s2.pos) is Colon) {
                (expected_at(t, s2.pos, TokenKind::Colon), s2)
            } else {
                let (rt, s3) = sp_type(t, bumped(s2));
                match rt {
                    PRes::Failed(a, b) => (PRes::Failed(a, b), s3),
                    PRes::Parsed(ty) => {
                        let f = FieldM { id: NodeId(s3.nid), span: name_span.spec_merge(type_m_span(ty)), name, ty, is_pub };
                        let s4 = fresh(s3);
                        if tk(t, s4.pos) is Comma {
                            if !within(t, s, s4) {
                                unreachable_step(t, s4)
                            } else {
                                sp_named_fields(t, bumped(s4), acc.push(f))
                            }
                        } else {
                            (PRes::Parsed(acc.push(f)), s4)
                        }
                    },
                }
            },
        }
    }
}

/// Tuple fields from `s` up to the closing `)`, `acc` already parsed; each is
/// named by its position.
#[verifier::opaque]
pub open spec fn sp_tuple_fields(t: Seq<Token>, s: PState, acc: Seq<FieldM>) -> (PRes<Seq<FieldM>>, PState)
    decreases t.len() - s.pos,
{
    if tk(t, s.pos) is RParen {
        (PRes::Parsed(acc), s)
    } else {
        let is_pub = tk(t, s.pos) is Pub;
        let s1 = if is_pub { bumped(s) } else { s };
        let (rt, s2) = sp_type(t, s1);
        match rt {
            PRes::Failed(a, b) => (PRes::Failed(a, b), s2),
            PRes::Parsed(ty) => {
                let fspan = if is_pub { t[s.pos].span.spec_merge(type_m_span(ty)) } else { type_m_span(ty) };
                let f = FieldM { id: NodeId(s2.nid), span: fspan, name: dec(acc.len()), ty, is_pub };
                let s3 = fresh(s2);
                if tk(t, s3.pos) is Comma {
                    if !within(t, s, s3) {
                        unreachable_step(t, s3)
                    } else {
                        sp_tuple_fields(t, bumped(s3), acc.push(f))
                    }
                } else {
                    (PRes::Parsed(acc.push(f)), s3)
                }
            },
        }
    }
}

/// A named field is public exactly when a `pub` token stands right before
/// its name, and it is named by the identifier there: of the fields read
/// from `s`, the first is public exactly when the token at `s` is `pub`; the
/// fields read before stay in front, in order.
pub proof fn lemma_named_field_visibility(t: Seq<Token>, s: PState, acc: Seq<FieldM>)
    ensures
        match sp_named_fields(t, s, acc).0 {
            PRes::Parsed(fs) => {
                &&& acc.len() <= fs.len()
                &&& fs.take(acc.len() as int) == acc
                &&& fs.len() > acc.len() ==> (fs[acc.len() as int].is_pub <==> tk(t, s.pos) is Pub)
                &&& fs.len() > acc.len() ==> {
                    let at = if tk(t, s.pos) is Pub { s.pos + 1 } else { s.pos };
                    tk(t, at) matches TokenKind::Ident(n) && fs[acc.len() as int].name == n@
                }
            },
            PRes::Failed(_, _) => true,
        },
    decreases t.len() - s.pos,
{
    reveal_with_fuel(sp_named_fields, 1);
    if !(tk(t, s.pos) is RBrace) {
        let is_pub = tk(t, s.pos) is Pub;
        let s1 = if is_pub { bumped(s) } else { s };
        let (ri, s2) = sp_ident(t, s1);
        if let PRes::Parsed((name, name_span)) = ri {
            if tk(t, s2.pos) is Colon {
                let (rt, s3) = sp_type(t, bumped(s2));
                if let PRes::Parsed(ty) = rt {
                    let f = FieldM { id: NodeId(s3.nid), span: name_span.spec_merge(type_m_span(ty)), name, ty, is_pub };
                    let s4 = fresh(s3);
                    if tk(t, s4.pos) is Comma && within(t, s, s4) {
                        lemma_named_field_visibility(t, bumped(s4), acc.push(f));
                        if let PRes::Parsed(fs) = sp_named_fields(t, s, acc).0 {
                            assert(fs.take(acc.len() as int + 1) == acc.push(f));
                            assert(fs[acc.len() as int] == fs.take(acc.len() as int + 1)[acc.len() as int]);
                            assert(fs.take(acc.len() as int) =~= fs.take(acc.len() as int + 1).take(acc.len() as int));
                            assert(acc.push(f).take(acc.len() as int) =~= acc);
                        }
                    } else {
                        assert(acc.push(f).take(acc.len() as int) =~= acc);
                    }
                }
            }
        }
    } else {
        assert(acc.take(acc.len() as int) =~= acc);
    }
}

/// A tuple-struct field is public exactly when a `pub` token stands right
/// before its type: of the fields read from `s`, the first is public exactly
/// when the token at `s` is `pub`; the fields read before stay in front, in
/// order, and each field is named by its position.
pub proof fn lemma_tuple_field_visibility(t: Seq<Token>, s: PState, acc: Seq<FieldM>)
    ensures
        match sp_tuple_fields(t, s, acc).0 {
            PRes::Parsed(fs) => {
                &&& acc.len() <= fs.len()
                &&& fs.take(acc.len() as int) == acc
                &&& fs.len() > acc.len() ==> (fs[acc.len() as int].is_pub <==> tk(t, s.pos) is Pub)
                &&& fs.len() > acc.len() ==> fs[acc.len() as int].name == dec(acc.len())
            },
            PRes::Failed(_, _) => true,
        },
    decreases t.len() - s.pos,
{
    reveal_with_fuel(sp_tuple_fields, 1);
    if !(tk(t, s.pos) is RParen) {
        let is_pub = tk(t, s.pos) is Pub;
        let s1 = if is_pub { bumped(s) } else { s };
        let (rt, s2) = sp_type(t, s1);
        if let PRes::Parsed(ty) = rt {
            let fspan = if is_pub { t[s.pos].span.spec_merge(type_m_span(ty)) } else { type_m_span(ty) };
            let f = FieldM { id: NodeId(s2.nid), span: fspan, name: dec(acc.len()), ty, is_pub };
            let s3 = fresh(s2);
            if tk(t, s3.pos) is Comma && within(t, s, s3) {
                lemma_tuple_field_visibility(t, bumped(s3), acc.push(f));
                if let PRes::Parsed(fs) = sp_tuple_fields(t, s, acc).0 {
                    assert(fs.take(acc.len() as int + 1) == acc.push(f));
                    assert(fs[acc.len() as int] == fs.take(acc.len() as int + 1)[acc.len() as int]);
                    assert(fs.take(acc.len() as int) =~= fs.take(acc.len() as int + 1).take(acc.len() as int));
                    assert(acc.push(f).take(acc.len() as int) =~= acc);
                }
            } else {
                assert(acc.push(f).take(acc.len() as int) =~= acc);
            }
        }
    } else {
        assert(acc.take(acc.len() as int) =~= acc);
    }
}

/// A struct, once its body is parsed: `s` is past the body, which ended
/// with `end`.
pub open spec fn struct_node(
    s: PState,
    start: Span,
    end: Span,
    name: Seq<char>,
    gparams: Seq<TypeParamM>,
    gspan: Option<Span>,
    fields: Seq<FieldM>,
    kind: StructKind,
) -> (PRes<ItemM>, PState) {
    let (generics, s1) = gen_node(s, gparams, gspan, None);
    (PRes::Parsed(ItemM::Struct { id: NodeId(s1.nid), span: start.spec_merge(end), name, generics, fields, kind }), fresh(s1))
}

/// What parsing a struct at `s` gives.
pub open spec fn sp_struct(t: Seq<Token>, s: PState) -> (PRes<ItemM>, PState) {
    if !(tk(t, s.pos) is Struct) {
        (expected_at(t, s.pos, TokenKind::Struct), s)
    } else {
        let start = t[s.pos].span;
        let (rn, s1) = sp_ident(t, bumped(s));
        match rn {
            PRes::Failed(a, b) => (PRes::Failed(a, b), s1),
            PRes::Parsed((name, _)) => {
                let (rg, s2) = sp_opt_generics(t, s1);
                match rg {
                    PRes::Failed(a, b) => (PRes::Failed(a, b), s2),
                    PRes::Parsed((gparams, gspan)) => if tk(t, s2.pos) is LBrace {
                        let (rf, s3) = sp_named_fields(t, bumped(s2), Seq::empty());
                        match rf {
                            PRes::Failed(a, b) => (PRes::Failed(a, b), s3),
                            PRes::Parsed(fields) => if !(tk(t, s3.pos) is RBrace) {
                                (expected_at(t, s3.pos, TokenKind::RBrace), s3)
                            } else {
                                struct_node(bumped(s3), start, t[s3.pos].span, name, gparams, gspan, fields, StructKind::Record)
                            },
                        }
                    } else if tk(t, s2.pos) is LParen {
                        let (rf, s3) = sp_tuple_fields(t, bumped(s2), Seq::empty());
                        match rf {
                            PRes::Failed(a, b) => (PRes::Failed(a, b), s3),
                            PRes::Parsed(fields) => if !(tk(t, s3.pos) is RParen) {
                                (expected_at(t, s3.pos, TokenKind::RParen), s3)
                            } else if !(tk(t, s3.pos + 1) is Semi) {
                                (expected_at(t, s3.pos + 1, TokenKind::Semi), bumped(s3))
                            } else {
                                struct_node(bumped(bumped(s3)), start, t[s3.pos + 1].span, name, gparams, gspan, fields, StructKind::Tuple)
                            },
                        }
                    } else if tk(t, s2.pos) is Semi {
                        struct_node(bumped(s2), start, t[s2.pos].span, name, gparams, gspan, Seq::empty(), StructKind::Unit)
                    } else {
                        (one_of_at(t, s2.pos, seq![TokenKind::LBrace, TokenKind::LParen, TokenKind::Semi]), s2)
                    },
                }
            },
        }
    }
}

/// Types of a tuple variant from `s` up to the closing `)`, `acc` already
/// parsed.
#[verifier::opaque]
pub open spec fn sp_variant_types(t: Seq<Token>, s: PState, acc: Seq<TypeM>) -> (PRes<Seq<TypeM>>, PState)
    decreases t.len() - s.pos,
{
    if tk(t, s.pos) is RParen {
        (PRes::Parsed(acc), s)
    } else {
        let (rt, s1) = sp_type(t, s);
        match rt {
            PRes::Failed(a, b) => (PRes::Failed(a, b), s1),
            PRes::Parsed(ty) => if tk(t, s1.pos) is Comma {
                if !within(t, s, s1) {
                    unreachable_step(t, s1)
                } else {
                    sp_variant_types(t, bumped(s1), acc.push(ty))
                }
            } else {
                (PRes::Parsed(acc.push(ty)), s1)
            },
        }
    }
}

/// The payload of a variant at `s` and where it ends (`name_span` when there
/// is none).
pub open spec fn sp_variant_kind(t: Seq<Token>, s: PState, name_span: Span) -> (PRes<(VariantKindM, Span)>, PState) {
    if tk(t, s.pos) is LParen {
        let (rt, s1) = sp_variant_types(t, bumped(s), Seq::empty());
        match rt {
            PRes::Failed(a, b) => (PRes::Failed(a, b), s1),
            PRes::Parsed(tys) => if tk(t, s1.pos) is RParen {
                (PRes::Parsed((VariantKindM::Tuple(tys), t[s1.pos].span)), bumped(s1))
            } else {
                (expected_at(t, s1.pos, TokenKind::RParen), s1)
            },
        }
    } else if tk(t, s.pos) is LBrace {
        let (rf, s1) = sp_named_fields(t, bumped(s), Seq::empty());
        match rf {
            PRes::Failed(a, b) => (PRes::Failed(a, b), s1),
            PRes::Parsed(fields) => if tk(t, s1.pos) is RBrace {
                (PRes::Parsed((VariantKindM::Struct(fields), t[s1.pos].span)), bumped(s1))
            } else {
                (expected_at(t, s1.pos, TokenKind::RBrace), s1)
            },
        }
    } else {
        (PRes::Parsed((VariantKindM::Unit, name_span)), s)
    }
}

/// An optional `= n` at `s` and where the variant then ends.
pub open spec fn sp_discriminant(t: Seq<Token>, s: PState, end: Span) -> (PRes<(Option<ExprM>, Span)>, PState) {
    if tk(t, s.pos) is Eq {
        let s1 = bumped(s);
        match tk(t, s1.pos) {
            TokenKind::IntLiteral(v, x) => (
                PRes::Parsed((
                    Some(ExprM::IntLit(IntLit { id: NodeId(s1.nid), span: t[s1.pos].span, value: v, suffix: x })),
                    t[s1.pos].span,
                )),
                fresh(bumped(s1)),
            ),
            _ => (PRes::Failed(span_at(t, s1.pos), expected_found("integer literal"@, tk(t, s1.pos))), s1),
        }
    } else {
        (PRes::Parsed((None, end)), s)
    }
}

/// Enum variants from `s` up to the closing `}`, `acc` already parsed.
#[verifier::opaque]
pub open spec fn sp_variants(t: Seq<Token>, s: PState, acc: Seq<EnumVariantM>) -> (PRes<Seq<EnumVariantM>>, PState)
    decreases t.len() - s.pos,
{
    if tk(t, s.pos) is RBrace {
        (PRes::Parsed(acc), s)
    } else {
        let (ri, s1) = sp_ident(t, s);
        match ri {
            PRes::Failed(a, b) => (PRes::Failed(a, b), s1),
            PRes::Parsed((name, name_span)) => {
                let (rk, s2) = sp_variant_kind(t, s1, name_span);
                match rk {
                    PRes::Failed(a, b) => (PRes::Failed(a, b), s2),
                    PRes::Parsed((kind, end)) => {
                        let (rd, s3) = sp_discriminant(t, s2, end);
                        match rd {
                            PRes::Failed(a, b) => (PRes::Failed(a, b), s3),
                            PRes::Parsed((discriminant, end2)) => {
                                let v = EnumVariantM { id: NodeId(s3.nid), span: name_span.spec_merge(end2), name, kind, discriminant };
                                let s4 = fresh(s3);
                                if tk(t, s4.pos) is Comma {
                                    if !within(t, s, s4) {
                                        unreachable_step(t, s4)
                                    } else {
                                        sp_variants(t, bumped(s4), acc.push(v))
                                    }
                                } else {
                                    (PRes::Parsed(acc.push(v)), s4)
                                }
                            },
                        }
                    },
                }
            },
        }
    }
}

/// What parsing an enum at `s` gives.
pub open spec fn sp_enum(t: Seq<Token>, s: PState) -> (PRes<ItemM>, PState) {
    if !(tk(t, s.pos) is Enum) {
        (expected_at(t, s.pos, TokenKind::Enum), s)
    } else {
        let start = t[s.pos].span;
        let (rn, s1) = sp_ident(t, bumped(s));
        match rn {
            PRes::Failed(a, b) => (PRes::Failed(a, b), s1),
            PRes::Parsed((name, _)) => {
                let (rg, s2) = sp_opt_generics(t, s1);
                match rg {
                    PRes::Failed(a, b) => (PRes::Failed(a, b), s2),
                    PRes::Parsed((gparams, gspan)) => if !(tk(t, s2.pos) is LBrace) {
                        (expected_at(t, s2.pos, TokenKind::LBrace), s2)
                    } else {
                        let (rv, s3) = sp_variants(t, bumped(s2), Seq::empty());
                        match rv {
                            PRes::Failed(a, b) => (PRes::Failed(a, b), s3),
                            PRes::Parsed(variants) => if !(tk(t, s3.pos) is RBrace) {
                                (expected_at(t, s3.pos, TokenKind::RBrace), s3)
                            } else {
                                let (generics, s4) = gen_node(bumped(s3), gparams, gspan, None);
                                (
                                    PRes::Parsed(ItemM::Enum {
                                        id: NodeId(s4.nid),
                                        span: start.spec_merge(t[s3.pos].span),
                                        name,
                                        generics,
                                        variants,
                                    }),
                                    fresh(s4),
                                )
                            },
                        }
                    },
                }
            },
        }
    }
}

/// `r` is the outcome `m`: an item with model `m`'s value, or the diagnostic
/// `m` describes.
pub open spec fn item_holds(r: Result<Item, CompileError>, m: PRes<ItemM>) -> bool {
    match m {
        PRes::Parsed(x) => r matches Ok(v) && item_model(v) == x,
        PRes::Failed(sp, msg) => r matches Err(e) && is_syntax_error(e, sp, msg),
    }
}

/// What parsing a trait method at `s` gives.
pub open spec fn sp_trait_method(t: Seq<Token>, s: PState) -> (PRes<TraitItemM>, PState) {
    if !(tk(t, s.pos) is Fn) {
        (expected_at(t, s.pos, TokenKind::Fn), s)
    } else {
        let start = t[s.pos].span;
        let (rn, s1) = sp_ident(t, bumped(s));
        match rn {
            PRes::Failed(a, b) => (PRes::Failed(a, b), s1),
            PRes::Parsed((name, _)) => {
                let (rg, s2) = sp_opt_generics(t, s1);
                match rg {
                    PRes::Failed(a, b) => (PRes::Failed(a, b), s2),
                    PRes::Parsed((gparams, gspan)) => {
                        let (rs, s3) = sp_sig_tail(t, s2);
                        match rs {
                            PRes::Failed(a, b) => (PRes::Failed(a, b), s3),
                            PRes::Parsed((params, ret_ty, wc)) => {
                                let (rd, s4) = if tk(t, s3.pos) is Semi {
                                    (PRes::Parsed((None, t[s3.pos].span)), bumped(s3))
                                } else if tk(t, s3.pos) is LBrace {
                                    let (rb, s4) = sp_body(t, s3);
                                    match rb {
                                        PRes::Failed(a, b) => (PRes::Failed(a, b), s4),
                                        PRes::Parsed(b) => (PRes::Parsed((Some(b), b.span)), s4),
                                    }
                                } else {
                                    (one_of_at(t, s3.pos, seq![TokenKind::Semi, TokenKind::LBrace]), s3)
                                };
                                match rd {
                                    PRes::Failed(a, b) => (PRes::Failed(a, b), s4),
                                    PRes::Parsed((default, end)) => {
                                        let (generics, s5) = gen_node(s4, gparams, gspan, wc);
                                        (
                                            PRes::Parsed(TraitItemM::Fn {
                                                id: NodeId(s5.nid),
                                                span: start.spec_merge(end),
                                                name,
                                                generics,
                                                params,
                                                ret_ty,
                                                default,
                                            }),
                                            fresh(s5),
                                        )
                                    },
                                }
                            },
                        }
                    },
                }
            },
        }
    }
}

/// Trait items from `s` up to the closing `}`, `acc` already parsed; on a
/// token that starts no item the parser recovers and the items end.
#[verifier::opaque]
pub open spec fn sp_trait_items(t: Seq<Token>, s: PState, acc: Seq<TraitItemM>) -> (PRes<Seq<TraitItemM>>, PState)
    decreases t.len() - s.pos,
{
    let k = tk(t, s.pos);
    if k is RBrace {
        (PRes::Parsed(acc), s)
    } else if k is Fn {
        let (r, s1) = sp_trait_method(t, s);
        match r {
            PRes::Failed(a, b) => (PRes::Failed(a, b), s1),
            PRes::Parsed(m) => if !(s.pos < s1.pos <= t.len()) {
                unreachable_step(t, s1)
            } else {
                sp_trait_items(t, s1, acc.push(m))
            },
        }
    } else if k is Type {
        let type_span = t[s.pos].span;
        let (ri, s1) = sp_ident(t, bumped(s));
        match ri {
            PRes::Failed(a, b) => (PRes::Failed(a, b), s1),
            PRes::Parsed((name, _)) => if !(tk(t, s1.pos) is Semi) {
                (expected_at(t, s1.pos, TokenKind::Semi), s1)
            } else {
                let item = TraitItemM::Type { id: NodeId(s1.nid), span: type_span.spec_merge(t[s1.pos].span), name };
                sp_trait_items(t, fresh(bumped(s1)), acc.push(item))
            },
        }
    } else if k is Const {
        let const_span = t[s.pos].span;
        let (ri, s1) = sp_ident(t, bumped(s));
        match ri {
            PRes::Failed(a, b) => (PRes::Failed(a, b), s1),
            PRes::Parsed((name, _)) => if !(tk(t, s1.pos) is Colon) {
                (expected_at(t, s1.pos, TokenKind::Colon), s1)
            } else {
                let (rt, s2) = sp_type(t, bumped(s1));
                match rt {
                    PRes::Failed(a, b) => (PRes::Failed(a, b), s2),
                    PRes::Parsed(ty) => if !(tk(t, s2.pos) is Semi) {
                        (expected_at(t, s2.pos, TokenKind::Semi), s2)
                    } else if !within(t, s, s2) {
                        unreachable_step(t, s2)
                    } else {
                        let item = TraitItemM::Const { id: NodeId(s2.nid), span: const_span.spec_merge(t[s2.pos].span), name, ty };
                        sp_trait_items(t, fresh(bumped(s2)), acc.push(item))
                    },
                }
            },
        }
    } else {
        let d = syntax_diag(
            span_at(t, s.pos),
            expected_found(candidate_list(seq![TokenKind::Fn, TokenKind::Type, TokenKind::Const, TokenKind::RBrace]), k),
        );
        (PRes::Parsed(acc), recovered(t, s, d))
    }
}

/// What parsing a trait at `s` gives.
pub open spec fn sp_trait(t: Seq<Token>, s: PState) -> (PRes<ItemM>, PState) {
    if !(tk(t, s.pos) is Trait) {
        (expected_at(t, s.pos, TokenKind::Trait), s)
    } else {
        let start = t[s.pos].span;
        let (rn, s1) = sp_ident(t, bumped(s));
        match rn {
            PRes::Failed(a, b) => (PRes::Failed(a, b), s1),
            PRes::Parsed((name, _)) => {
                let (rg, s2) = sp_opt_generics(t, s1);
                match rg {
                    PRes::Failed(a, b) => (PRes::Failed(a, b), s2),
                    PRes::Parsed((gparams, gspan)) => {
                        let (rsup, s3) = if tk(t, s2.pos) is Colon {
                            sp_bounds(t, bumped(s2))
                        } else {
                            (PRes::Parsed(Seq::empty()), s2)
                        };
                        match rsup {
                            PRes::Failed(a, b) => (PRes::Failed(a, b), s3),
                            PRes::Parsed(supertraits) => {
                                let (rw, s4) = if tk(t, s3.pos) is Where {
                                    match sp_where_clause(t, s3) {
                                        (PRes::Failed(a, b), s4) => (PRes::Failed(a, b), s4),
                                        (PRes::Parsed(w), s4) => (PRes::Parsed(Some(w)), s4),
                                    }
                                } else {
                                    (PRes::Parsed(None), s3)
                                };
                                match rw {
                                    PRes::Failed(a, b) => (PRes::Failed(a, b), s4),
                                    PRes::Parsed(wc) => if !(tk(t, s4.pos) is LBrace) {
                                        (expected_at(t, s4.pos, TokenKind::LBrace), s4)
                                    } else {
                                        let (ri, s5) = sp_trait_items(t, bumped(s4), Seq::empty());
                                        match ri {
                                            PRes::Failed(a, b) => (PRes::Failed(a, b), s5),
                                            PRes::Parsed(items) => if !(tk(t, s5.pos) is RBrace) {
                                                (expected_at(t, s5.pos, TokenKind::RBrace), s5)
                                            } else {
                                                let (generics, s6) = gen_node(bumped(s5), gparams, gspan, wc);
                                                (
                                                    PRes::Parsed(ItemM::Trait {
                                                        id: NodeId(s6.nid),
                                                        span: start.spec_merge(t[s5.pos].span),
                                                        name,
                                                        generics,
                                                        supertraits,
                                                        items,
                                                    }),
                                                    fresh(s6),
                                                )
                                            },
                                        }
                                    },
                                }
                            },
                        }
                    },
                }
            },
        }
    }
}

/// What parsing a module at `s` gives.
#[verifier::opaque]
pub open spec fn sp_mod(t: Seq<Token>, s: PState) -> (PRes<ItemM>, PState)
    decreases t.len() - s.pos, 0nat,
{
    if !(tk(t, s.pos) is Mod) {
        (expected_at(t, s.pos, TokenKind::Mod), s)
    } else {
        let start = t[s.pos].span;
        let (rn, s1) = sp_ident(t, bumped(s));
        match rn {
            PRes::Failed(a, b) => (PRes::Failed(a, b), s1),
            PRes::Parsed((name, _)) => if tk(t, s1.pos) is Semi {
                let s2 = bumped(s1);
                (
                    PRes::Parsed(ItemM::Mod { id: NodeId(s2.nid), span: start.spec_merge(t[s1.pos].span), name, kind: ModKindM::External }),
                    fresh(s2),
                )
            } else if tk(t, s1.pos) is LBrace {
                let (ri, s2) = sp_mod_items(t, bumped(s1), Seq::empty());
                match ri {
                    PRes::Failed(a, b) => (PRes::Failed(a, b), s2),
                    PRes::Parsed(items) => if !(tk(t, s2.pos) is RBrace) {
                        (expected_at(t, s2.pos, TokenKind::RBrace), s2)
                    } else {
                        let s3 = bumped(s2);
                        (
                            PRes::Parsed(ItemM::Mod {
                                id: NodeId(s3.nid),
                                span: start.spec_merge(t[s2.pos].span),
                                name,
                                kind: ModKindM::Inline(items),
                            }),
                            fresh(s3),
                        )
                    },
                }
            } else {
                (one_of_at(t, s1.pos, seq![TokenKind::Semi, TokenKind::LBrace]), s1)
            },
        }
    }
}

/// Items of an inline module from `s` up to the closing `}`, `acc` already
/// parsed.
#[verifier::opaque]
pub open spec fn sp_mod_items(t: Seq<Token>, s: PState, acc: Seq<ItemM>) -> (PRes<Seq<ItemM>>, PState)
    decreases t.len() - s.pos, 2nat,
{
    if tk(t, s.pos) is RBrace {
        (PRes::Parsed(acc), s)
    } else {
        let (r, s1) = sp_mod_inline_item(t, s);
        match r {
            PRes::Failed(a, b) => (PRes::Failed(a, b), s1),
            PRes::Parsed(i) => if !(s.pos < s1.pos <= t.len()) {
                unreachable_step(t, s1)
            } else {
                sp_mod_items(t, s1, acc.push(i))
            },
        }
    }
}

/// What parsing an item of an inline module at `s` gives.
#[verifier::opaque]
pub open spec fn sp_mod_inline_item(t: Seq<Token>, s: PState) -> (PRes<ItemM>, PState)
    decreases t.len() - s.pos, 1nat,
{
    let k = tk(t, s.pos);
    if k is Fn {
        sp_fn(t, s)
    } else if k is Struct {
        sp_struct(t, s)
    } else if k is Enum {
        sp_enum(t, s)
    } else if k is Trait {
        sp_trait(t, s)
    } else if k is Mod {
        sp_mod(t, s)
    } else {
        (
            one_of_at(
                t,
                s.pos,
                seq![TokenKind::Fn, TokenKind::Struct, TokenKind::Enum, TokenKind::Trait, TokenKind::Mod, TokenKind::RBrace],
            ),
            s,
        )
    }
}

/// Closing a group of use trees at `s`.
pub open spec fn close_group(t: Seq<Token>, s: PState, acc: Seq<UseTreeM>) -> (PRes<Seq<UseTreeM>>, PState) {
    if tk(t, s.pos) is RBrace {
        (PRes::Parsed(acc), bumped(s))
    } else {
        (expected_at(t, s.pos, TokenKind::RBrace), s)
    }
}

/// Use trees of a group from `s`, `acc` already parsed.
#[verifier::opaque]
pub open spec fn sp_group_items(t: Seq<Token>, s: PState, acc: Seq<UseTreeM>) -> (PRes<Seq<UseTreeM>>, PState)
    decreases t.len() - s.pos, 2nat,
{
    let (r, s1) = sp_use_tree(t, s);
    match r {
        PRes::Failed(a, b) => (PRes::Failed(a, b), s1),
        PRes::Parsed(tree) => if !within(t, s, s1) {
            unreachable_step(t, s1)
        } else if !(tk(t, s1.pos) is Comma) {
            close_group(t, s1, acc.push(tree))
        } else if tk(t, s1.pos + 1) is RBrace {
            close_group(t, bumped(s1), acc.push(tree))
        } else {
            sp_group_items(t, bumped(s1), acc.push(tree))
        },
    }
}

/// What parsing `{ tree, ... }` at `s` gives.
#[verifier::opaque]
pub open spec fn sp_use_group(t: Seq<Token>, s: PState) -> (PRes<Seq<UseTreeM>>, PState)
    decreases t.len() - s.pos, 0nat,
{
    if !(tk(t, s.pos) is LBrace) {
        (expected_at(t, s.pos, TokenKind::LBrace), s)
    } else if tk(t, s.pos + 1) is RBrace {
        close_group(t, bumped(s), Seq::empty())
    } else {
        sp_group_items(t, bumped(s), Seq::empty())
    }
}

/// The rest of a use path from `s`, `segments` already read.
#[verifier::opaque]
pub open spec fn sp_use_path(t: Seq<Token>, s: PState, segments: Seq<Seq<char>>) -> (PRes<UseTreeM>, PState)
    decreases t.len() - s.pos, 3nat,
{
    if tk(t, s.pos) is ColonColon {
        let s1 = bumped(s);
        if tk(t, s1.pos) is Star {
            (PRes::Parsed(UseTreeM::Glob { segments }), bumped(s1))
        } else if tk(t, s1.pos) is LBrace {
            let (rg, s2) = sp_use_group(t, s1);
            match rg {
                PRes::Failed(a, b) => (PRes::Failed(a, b), s2),
                PRes::Parsed(items) => (PRes::Parsed(UseTreeM::Nested { segments, items }), s2),
            }
        } else {
            let (ri, s2) = sp_ident(t, s1);
            match ri {
                PRes::Failed(a, b) => (PRes::Failed(a, b), s2),
                PRes::Parsed((seg, _)) => sp_use_path(t, s2, segments.push(seg)),
            }
        }
    } else if is_word(tk(t, s.pos), "as"@) {
        let (ri, s1) = sp_ident(t, bumped(s));
        match ri {
            PRes::Failed(a, b) => (PRes::Failed(a, b), s1),
            PRes::Parsed((alias, _)) => (PRes::Parsed(UseTreeM::Simple { segments, alias: Some(alias) }), s1),
        }
    } else {
        (PRes::Parsed(UseTreeM::Simple { segments, alias: None }), s)
    }
}

/// What parsing a use tree at `s` gives.
#[verifier::opaque]
pub open spec fn sp_use_tree(t: Seq<Token>, s: PState) -> (PRes<UseTreeM>, PState)
    decreases t.len() - s.pos, 1nat,
{
    if tk(t, s.pos) is LBrace {
        let (rg, s1) = sp_use_group(t, s);
        match rg {
            PRes::Failed(a, b) => (PRes::Failed(a, b), s1),
            PRes::Parsed(items) => (PRes::Parsed(UseTreeM::Nested { segments: Seq::empty(), items }), s1),
        }
    } else {
        let (ri, s1) = sp_ident(t, s);
        match ri {
            PRes::Failed(a, b) => (PRes::Failed(a, b), s1),
            PRes::Parsed((head, _)) => sp_use_path(t, s1, seq![head]),
        }
    }
}

/// What parsing a `use` declaration at `s` gives.
pub open spec fn sp_use(t: Seq<Token>, s: PState) -> (PRes<ItemM>, PState) {
    let is_pub = tk(t, s.pos) is Pub;
    let s1 = if is_pub { bumped(s) } else { s };
    if !(tk(t, s1.pos) is Use) {
        (expected_at(t, s1.pos, TokenKind::Use), s1)
    } else {
        let start = t[s.pos].span;
        let (rt, s2) = sp_use_tree(t, bumped(s1));
        match rt {
            PRes::Failed(a, b) => (PRes::Failed(a, b), s2),
            PRes::Parsed(tree) => if !(tk(t, s2.pos) is Semi) {
                (expected_at(t, s2.pos, TokenKind::Semi), s2)
            } else {
                let s3 = bumped(s2);
                (
                    PRes::Parsed(ItemM::Use { id: NodeId(s3.nid), span: start.spec_merge(t[s2.pos].span), is_pub, tree }),
                    fresh(s3),
                )
            },
        }
    }
}

/// `NAME: Ty = value;` from `s`: the name, type and value, and the span of
/// the `;`.
pub open spec fn sp_binding(t: Seq<Token>, s: PState) -> (PRes<(Seq<char>, TypeM, ExprM, Span)>, PState) {
    let (rn, s1) = sp_ident(t, s);
    match rn {
        PRes::Failed(a, b) => (PRes::Failed(a, b), s1),
        PRes::Parsed((name, _)) => if !(tk(t, s1.pos) is Colon) {
            (expected_at(t, s1.pos, TokenKind::Colon), s1)
        } else {
            let (rt, s2) = sp_type(t, bumped(s1));
            match rt {
                PRes::Failed(a, b) => (PRes::Failed(a, b), s2),
                PRes::Parsed(ty) => if !(tk(t, s2.pos) is Eq) {
                    (expected_at(t, s2.pos, TokenKind::Eq), s2)
                } else {
                    let (rv, s3) = sp_expr(t, bumped(s2));
                    match rv {
                        PRes::Failed(a, b) => (PRes::Failed(a, b), s3),
                        PRes::Parsed(value) => if !(tk(t, s3.pos) is Semi) {
                            (expected_at(t, s3.pos, TokenKind::Semi), s3)
                        } else {
                            (PRes::Parsed((name, ty, value, t[s3.pos].span)), bumped(s3))
                        },
                    }
                },
            }
        },
    }
}

/// What parsing `const NAME: Ty = value;` at `s` gives.
pub open spec fn sp_const(t: Seq<Token>, s: PState) -> (PRes<ItemM>, PState) {
    if !(tk(t, s.pos) is Const) {
        (expected_at(t, s.pos, TokenKind::Const), s)
    } else {
        let (rb, s1) = sp_binding(t, bumped(s));
        match rb {
            PRes::Failed(a, b) => (PRes::Failed(a, b), s1),
            PRes::Parsed((name, ty, value, end)) => (
                PRes::Parsed(ItemM::Const { id: NodeId(s1.nid), span: t[s.pos].span.spec_merge(end), name, ty, value }),
                fresh(s1),
            ),
        }
    }
}

/// What parsing `static [mut] NAME: Ty = value;` at `s` gives.
pub open spec fn sp_static(t: Seq<Token>, s: PState) -> (PRes<ItemM>, PState) {
    if !(tk(t, s.pos) is Static) {
        (expected_at(t, s.pos, TokenKind::Static), s)
    } else {
        let s1 = bumped(s);
        let is_mut = tk(t, s1.pos) is Mut;
        let s2 = if is_mut { bumped(s1) } else { s1 };
        let (rb, s3) = sp_binding(t, s2);
        match rb {
            PRes::Failed(a, b) => (PRes::Failed(a, b), s3),
            PRes::Parsed((name, ty, value, end)) => (
                PRes::Parsed(ItemM::Static { id: NodeId(s3.nid), span: t[s.pos].span.spec_merge(end), name, ty, value, is_mut }),
                fresh(s3),
            ),
        }
    }
}

/// What parsing `type Name<params> = Ty;` at `s` gives.
pub open spec fn sp_type_alias(t: Seq<Token>, s: PState) -> (PRes<ItemM>, PState) {
    if !(tk(t, s.pos) is Type) {
        (expected_at(t, s.pos, TokenKind::Type), s)
    } else {
        let start = t[s.pos].span;
        let (rn, s1) = sp_ident(t, bumped(s));
        match rn {
            PRes::Failed(a, b) => (PRes::Failed(a, b), s1),
            PRes::Parsed((name, _)) => {
                let (rg, s2) = sp_opt_generics(t, s1);
                match rg {
                    PRes::Failed(a, b) => (PRes::Failed(a, b), s2),
                    PRes::Parsed((gparams, gspan)) => if !(tk(t, s2.pos) is Eq) {
                        (expected_at(t, s2.pos, TokenKind::Eq), s2)
                    } else {
                        let (rt, s3) = sp_type(t, bumped(s2));
                        match rt {
                            PRes::Failed(a, b) => (PRes::Failed(a, b), s3),
                            PRes::Parsed(ty) => if !(tk(t, s3.pos) is Semi) {
                                (expected_at(t, s3.pos, TokenKind::Semi), s3)
                            } else {
                                let (generics, s4) = gen_node(bumped(s3), gparams, gspan, None);
                                (
                                    PRes::Parsed(ItemM::TypeAlias {
                                        id: NodeId(s4.nid),
                                        span: start.spec_merge(t[s3.pos].span),
                                        name,
                                        generics,
                                        ty,
                                    }),
                                    fresh(s4),
                                )
                            },
                        }
                    },
                }
            },
        }
    }
}

/// The model of an `extern` ABI, when one was written.
pub open spec fn abi_model(a: Option<String>) -> Option<Seq<char>> {
    match a {
        Some(x) => Some(x@),
        None => None,
    }
}

/// The model of a variant's discriminant, when one was written.
pub open spec fn disc_model(d: Option<Expr>) -> Option<ExprM> {
    match d {
        Some(e) => Some(expr_model(e)),
        None => None,
    }
}

/// The model of a parsed signature: parameters, return type and `where`
/// clause.
pub open spec fn sig_model(v: (Vec<Param>, Option<Type>, Option<WhereClause>)) -> (Seq<ParamM>, Option<TypeM>, Option<WhereClauseM>) {
    (params_model(v.0@), opt_type_model(v.1), opt_where_model(v.2))
}

/// The decimal name of tuple field `index`.
fn index_name(index: usize) -> (s: String)
    ensures
        s@ == dec(index as nat),
{
    let mut out = String::new();
    push_decimal(&mut out, index as u64);
    out
}

/// The generics record of an item: present when a parameter list or a
/// `where` clause was written, spanning both.
fn make_generics(
    parser: &mut Parser,
    params: Vec<TypeParam>,
    list_span: Option<Span>,
    where_clause: Option<WhereClause>,
) -> (g: Option<Generics>)
    requires
        old(parser).wf(),
    ensures
        final(parser).wf(),
        final(parser).tokens == old(parser).tokens,
        final(parser).pos == old(parser).pos,
        final(parser).errors == old(parser).errors,
        ({
            let (m, s) = gen_node(old(parser).state(), type_params_model(params@), list_span, opt_where_model(where_clause));
            &&& opt_generics_model(g) == m
            &&& final(parser).state() == s
        }),
{
    match list_span {
        Some(a) => {
            let span = match &where_clause {
                Some(w) => a.merge(&w.span),
                None => a,
            };
            let id = parser.new_node_id();
            Some(Generics { id, span, params, where_clause })
        },
        None => match where_clause {
            Some(w) => {
                let span = w.span;
                let id = parser.new_node_id();
                Some(Generics { id, span, params, where_clause: Some(w) })
            },
            None => None,
        },
    }
}

impl Parser {
    /// The explicit type of a `self` parameter: one word, optionally with
    /// one generic argument that is a word or `Self` (`Box<Self>`).
    fn parse_self_explicit_type(&mut self) -> (r: Result<Type, CompileError>)
        requires
            old(self).wf(),
        ensures
            final(self).progressed(old(self), r is Ok),
            final(self).errors == old(self).errors,
            type_holds(r, sp_self_explicit_type(old(self).tokens@, old(self).state()).0),
            final(self).state() == sp_self_explicit_type(old(self).tokens@, old(self).state()).1,
    {
        proof {
            reveal(sp_self_explicit_type);
        }
        let (ident, head_span) = self.expect_ident()?;
        let mut generic_args: Vec<GenericArg> = Vec::new();
        let mut end_span = head_span;
        if matches!(self.peek(), TokenKind::Lt) {
            self.bump();
            let kinds = [TokenKind::Ident(String::new()), TokenKind::SelfUpper];
            proof {
                assert(kinds@.len() == 2 && kinds@[0] is Ident && kinds@[1] is SelfUpper);
                assert(candidate_list(kinds@) == "identifier"@ + " or "@ + "`Self`"@);
            }
            let _arg_tok = self.expect_one_of(&kinds)?;
            generic_args.push(GenericArg::Placeholder);
            let gt_tok = self.expect(&TokenKind::Gt)?;
            end_span = gt_tok.span;
            proof {
                assert(generic_args@ =~= seq![GenericArg::Placeholder]);
            }
        } else {
            proof {
                assert(generic_args@ =~= Seq::<GenericArg>::empty());
            }
        }
        let span = head_span.merge(&end_span);
        let id = self.new_node_id();
        let mut segments: Vec<PathSegment> = Vec::new();
        segments.push(PathSegment { ident, generic_args });
        proof {
            assert(segments_model(segments@) =~= seq![SegmentM { ident: ident@, generic_args: generic_args@ }]);
        }
        Ok(Type::Path(Path { id, span, segments }))
    }

    /// The path type `Self`, at `span`.
    fn synth_self_path_type(&mut self, span: Span) -> (t: Type)
        requires
            old(self).wf(),
        ensures
            final(self).wf(),
            final(self).tokens == old(self).tokens,
            final(self).pos == old(self).pos,
            final(self).errors == old(self).errors,
            type_model(t) == self_type(old(self).state(), span),
            final(self).state() == fresh(old(self).state()),
            type_span_of(t) == span,
    {
        let id = self.new_node_id();
        let mut segments: Vec<PathSegment> = Vec::new();
        let ident = String::from_str("Self");
        segments.push(PathSegment { ident, generic_args: Vec::new() });
        proof {
            assert(segments_model(segments@) =~= seq![SegmentM { ident: "Self"@, generic_args: Seq::empty() }]);
        }
        Type::Path(Path { id, span, segments })
    }

    /// The receiver at the start of a parameter list, if one is there:
    /// `self`, `self: Ty`, `&self` or `&mut self`.  Nothing is taken when
    /// none is.
    fn try_parse_self_param(&mut self) -> (r: Option<Result<Param, CompileError>>)
        requires
            old(self).wf(),
        ensures
            final(self).progressed(old(self), r matches Some(Ok(_))),
            final(self).errors == old(self).errors,
            match sp_try_self_param(old(self).tokens@, old(self).state()) {
                None => r is None && *final(self) == *old(self),
                Some((m, s)) => r matches Some(x) && holds(x, m, |p: Param| param_model(p)) && final(self).state() == s,
            },
    {
        if matches!(self.peek(), TokenKind::SelfLower) {
            Some(self.parse_self_param_value())
        } else if matches!(self.peek(), TokenKind::Amp) {
            if matches!(self.peek_at(1), TokenKind::SelfLower) {
                Some(self.parse_self_param_ref(false))
            } else if matches!(self.peek_at(1), TokenKind::Mut) {
                if matches!(self.peek_at(2), TokenKind::SelfLower) {
                    Some(self.parse_self_param_ref(true))
                } else {
                    None
                }
            } else {
                None
            }
        } else {
            None
        }
    }

    /// `self`, or `self: Ty`; a plain `self` has the type `Self`.
    fn parse_self_param_value(&mut self) -> (r: Result<Param, CompileError>)
        requires
            old(self).wf(),
            old(self).peek_kind() is SelfLower,
        ensures
            final(self).progressed(old(self), r is Ok),
            final(self).errors == old(self).errors,
            holds(r, sp_self_param_value(old(self).tokens@, old(self).state()).0, |p: Param| param_model(p)),
            final(self).state() == sp_self_param_value(old(self).tokens@, old(self).state()).1,
    {
        proof {
            reveal(sp_self_param_value);
        }
        let self_tok = self.bump();
        let self_span = self_tok.span;
        let (ty, end_span) = if matches!(self.peek(), TokenKind::Colon) {
            self.bump();
            let ty = self.parse_self_explicit_type()?;
            let ty_span = type_span(&ty);
            proof {
                lemma_type_span_model(ty);
            }
            (ty, ty_span)
        } else {
            let ty = self.synth_self_path_type(self_span);
            (ty, self_span)
        };
        let span = self_span.merge(&end_span);
        let id = self.new_node_id();
        Ok(Param { id, span, name: String::from_str("self"), ty, is_self: true })
    }

    /// `&self` or `&mut self`, typed `&Self` or `&mut Self`.
    fn parse_self_param_ref(&mut self, mutable: bool) -> (r: Result<Param, CompileError>)
        requires
            old(self).wf(),
            old(self).peek_kind() is Amp,
            mutable ==> old(self).kind_at(old(self).pos + 1) is Mut && old(self).kind_at(old(self).pos + 2) is SelfLower,
            !mutable ==> old(self).kind_at(old(self).pos + 1) is SelfLower,
        ensures
            final(self).progressed(old(self), r is Ok),
            final(self).errors == old(self).errors,
            holds(r, sp_self_param_ref(old(self).tokens@, old(self).state(), mutable).0, |p: Param| param_model(p)),
            final(self).state() == sp_self_param_ref(old(self).tokens@, old(self).state(), mutable).1,
    {
        proof {
            reveal(sp_self_param_ref);
        }
        let amp_tok = self.bump();
        let start_span = amp_tok.span;
        if mutable {
            self.bump();
        }
        let self_tok = self.bump();
        let self_span = self_tok.span;
        let inner = self.synth_self_path_type(self_span);
        let ref_span = start_span.merge(&self_span);
        let ref_id = self.new_node_id();
        let ty = Type::Ref { mutable, ty: Box::new(inner), span: ref_span, id: ref_id };
        let id = self.new_node_id();
        Ok(Param { id, span: ref_span, name: String::from_str("self"), ty, is_self: true })
    }

    /// A trait bound: one word.
    fn parse_trait_bound(&mut self) -> (r: Result<TraitBound, CompileError>)
        requires
            old(self).wf(),
        ensures
            final(self).progressed(old(self), r is Ok),
            final(self).errors == old(self).errors,
            holds(r, sp_trait_bound(old(self).tokens@, old(self).state()).0, |b: TraitBound| bound_model(b)),
            final(self).state() == sp_trait_bound(old(self).tokens@, old(self).state()).1,
    {
        let (ident, span) = self.expect_ident()?;
        let path_id = self.new_node_id();
        let mut segments: Vec<PathSegment> = Vec::new();
        segments.push(PathSegment { ident, generic_args: Vec::new() });
        let path = Path { id: path_id, span, segments };
        let id = self.new_node_id();
        let b = TraitBound { id, span, path, generic_args: Vec::new() };
        proof {
            assert(segments_model(b.path.segments@) =~= seq![SegmentM { ident: b.path.segments@[0].ident@, generic_args: Seq::empty() }]);
            assert(b.generic_args@ =~= Seq::<GenericArg>::empty());
        }
        Ok(b)
    }

    /// `Bound + Bound + ...`.
    fn parse_bounds(&mut self) -> (r: Result<Vec<TraitBound>, CompileError>)
        requires
            old(self).wf(),
        ensures
            final(self).progressed(old(self), r is Ok),
            final(self).errors == old(self).errors,
            holds(r, sp_bounds(old(self).tokens@, old(self).state()).0, |v: Vec<TraitBound>| bounds_model(v@)),
            final(self).state() == sp_bounds(old(self).tokens@, old(self).state()).1,
            r matches Ok(v) ==> v@.len() > 0,
    {
        let first = self.parse_trait_bound()?;
        let mut bounds: Vec<TraitBound> = Vec::new();
        bounds.push(first);
        proof {
            assert(bounds_model(bounds@) =~= seq![bound_model(first)]);
        }
        self.parse_bounds_rest(bounds)
    }

    /// More `+ Bound` after the bounds in `start`.
    fn parse_bounds_rest(&mut self, start: Vec<TraitBound>) -> (r: Result<Vec<TraitBound>, CompileError>)
        requires
            old(self).wf(),
        ensures
            final(self).progressed(old(self), false),
            final(self).errors == old(self).errors,
            holds(r, sp_bounds_rest(old(self).tokens@, old(self).state(), bounds_model(start@)).0, |v: Vec<TraitBound>| bounds_model(v@)),
            final(self).state() == sp_bounds_rest(old(self).tokens@, old(self).state(), bounds_model(start@)).1,
            r matches Ok(v) ==> v@.len() >= start@.len(),
    {
        proof {
            reveal_with_fuel(sp_bounds_rest, 1);
        }
        let ghost t = self.tokens@;
        let ghost total = sp_bounds_rest(t, self.state(), bounds_model(start@));
        let mut bounds = start;
        loop
            invariant_except_break
                sp_bounds_rest(t, self.state(), bounds_model(bounds@)) == total,
            invariant
                total == sp_bounds_rest(old(self).tokens@, old(self).state(), bounds_model(start@)),
                self.progressed(old(self), false),
                self.errors == old(self).errors,
                t == self.tokens@,
                bounds@.len() >= start@.len(),
            ensures
                (PRes::Parsed(bounds_model(bounds@)), self.state()) == total,
            decreases self.tokens@.len() - self.pos,
        {
            proof {
                reveal_with_fuel(sp_bounds_rest, 1);
            }
            if !self.eat(&TokenKind::Plus) {
                break;
            }
            let b = self.parse_trait_bound()?;
            proof {
                lemma_map_push(bounds@, b, |x: TraitBound| bound_model(x));
            }
            bounds.push(b);
        }
        Ok(bounds)
    }

    /// `<T: Bound, U, ...>` if a `<` is under the cursor: the parameters and
    /// the span of the list.
    fn parse_opt_generics(&mut self) -> (r: Result<(Vec<TypeParam>, Option<Span>), CompileError>)
        requires
            old(self).wf(),
        ensures
            final(self).progressed(old(self), false),
            final(self).errors == old(self).errors,
            holds(
                r,
                sp_opt_generics(old(self).tokens@, old(self).state()).0,
                |v: (Vec<TypeParam>, Option<Span>)| (type_params_model(v.0@), v.1),
            ),
            final(self).state() == sp_opt_generics(old(self).tokens@, old(self).state()).1,
    {
        if matches!(self.peek(), TokenKind::Lt) {
            let lt_span = self.current_span();
            let (params, gt_span) = self.parse_generics_params()?;
            Ok((params, Some(lt_span.merge(&gt_span))))
        } else {
            let params: Vec<TypeParam> = Vec::new();
            proof {
                assert(type_params_model(params@) =~= Seq::<TypeParamM>::empty());
            }
            Ok((params, None))
        }
    }

    /// `<T: Bound, U, ...>`: the parameters and the span of the closing `>`.
    fn parse_generics_params(&mut self) -> (r: Result<(Vec<TypeParam>, Span), CompileError>)
        requires
            old(self).wf(),
            old(self).peek_kind() is Lt,
        ensures
            final(self).progressed(old(self), r is Ok),
            final(self).errors == old(self).errors,
            holds(
                r,
                sp_gparams_loop(old(self).tokens@, bumped(old(self).state()), Seq::empty()).0,
                |v: (Vec<TypeParam>, Span)| (type_params_model(v.0@), v.1),
            ),
            final(self).state() == sp_gparams_loop(old(self).tokens@, bumped(old(self).state()), Seq::empty()).1,
    {
        proof {
            reveal_with_fuel(sp_gparams_loop, 1);
        }
        self.bump();
        let ghost t = self.tokens@;
        let ghost total = sp_gparams_loop(t, self.state(), Seq::empty());
        let mut params: Vec<TypeParam> = Vec::new();
        proof {
            assert(type_params_model(params@) =~= Seq::<TypeParamM>::empty());
        }
        let gt_span;
        loop
            invariant_except_break
                sp_gparams_loop(t, self.state(), type_params_model(params@)) == total,
            invariant
                total == sp_gparams_loop(old(self).tokens@, bumped(old(self).state()), Seq::empty()),
                self.progressed(old(self), true),
                self.errors == old(self).errors,
                t == self.tokens@,
            ensures
                (PRes::Parsed((type_params_model(params@), gt_span)), self.state()) == total,
            decreases self.tokens@.len() - self.pos,
        {
            proof {
                reveal_with_fuel(sp_gparams_loop, 1);
            }
            let ghost s0 = self.state();
            if matches!(self.peek(), TokenKind::Gt) {
                let gt_tok = self.bump();
                gt_span = gt_tok.span;
                break;
            }
            let (name, name_span) = self.expect_ident()?;
            let mut bounds: Vec<TraitBound> = Vec::new();
            let mut end_span = name_span;
            if self.eat(&TokenKind::Colon) {
                let parsed = self.parse_bounds()?;
                end_span = parsed[parsed.len() - 1].span;
                bounds = parsed;
            } else {
                proof {
                    assert(bounds_model(bounds@) =~= Seq::<TraitBoundM>::empty());
                }
            }
            let span = name_span.merge(&end_span);
            let id = self.new_node_id();
            let p = TypeParam { id, span, name, bounds };
            proof {
                lemma_map_push(params@, p, |x: TypeParam| type_param_model(x));
            }
            params.push(p);
            let kinds = [TokenKind::Comma, TokenKind::Gt];
            proof {
                assert(kinds@ =~= seq![TokenKind::Comma, TokenKind::Gt]);
            }
            let term = self.expect_one_of(&kinds)?;
            if matches!(term.kind, TokenKind::Gt) {
                gt_span = term.span;
                break;
            }
        }
        Ok((params, gt_span))
    }

    /// `where Ty: Bound + ..., ...`, ending before `{` or `;`.
    fn parse_where_clause(&mut self) -> (r: Result<WhereClause, CompileError>)
        requires
            old(self).wf(),
            old(self).peek_kind() is Where,
        ensures
            final(self).progressed(old(self), r is Ok),
            holds(r, sp_where_clause(old(self).tokens@, old(self).state()).0, |w: WhereClause| where_model(w)),
            final(self).state() == sp_where_clause(old(self).tokens@, old(self).state()).1,
    {
        proof {
            reveal_with_fuel(sp_where_loop, 1);
        }
        let where_tok = self.bump();
        let where_span = where_tok.span;
        let ghost t = self.tokens@;
        let ghost total = sp_where_loop(t, self.state(), Seq::empty(), where_span, where_span);
        let mut predicates: Vec<WherePred> = Vec::new();
        proof {
            assert(where_preds_model(predicates@) =~= Seq::<WherePredM>::empty());
        }
        let mut end_span = where_span;
        loop
            invariant_except_break
                sp_where_loop(t, self.state(), where_preds_model(predicates@), where_span, end_span) == total,
            invariant
                total == sp_where_clause(old(self).tokens@, old(self).state()),
                self.progressed(old(self), true),
                t == self.tokens@,
            ensures
                where_node(self.state(), where_span, end_span, where_preds_model(predicates@)) == total,
            decreases self.tokens@.len() - self.pos,
        {
            proof {
                reveal_with_fuel(sp_where_loop, 1);
            }
            if matches!(self.peek(), TokenKind::LBrace | TokenKind::Semi) {
                break;
            }
            let ty = self.parse_type()?;
            let ty_span = type_span(&ty);
            proof {
                lemma_type_span_model(ty);
            }
            self.expect(&TokenKind::Colon)?;
            let bounds = self.parse_bounds()?;
            let last_bound_span = bounds[bounds.len() - 1].span;
            let pred_span = ty_span.merge(&last_bound_span);
            let pred_id = self.new_node_id();
            end_span = pred_span;
            let pred = WherePred { id: pred_id, span: pred_span, ty, bounds };
            proof {
                lemma_map_push(predicates@, pred, |x: WherePred| where_pred_model(x));
            }
            predicates.push(pred);
            if !self.eat(&TokenKind::Comma) {
                break;
            }
        }
        let id = self.new_node_id();
        let span = where_span.merge(&end_span);
        Ok(WhereClause { id, span, predicates })
    }

    /// `(params) -> Ret where ...` after a function's name and generics.
    fn parse_fn_signature_tail(&mut self) -> (r: Result<(Vec<Param>, Option<Type>, Option<WhereClause>), CompileError>)
        requires
            old(self).wf(),
        ensures
            final(self).progressed(old(self), r is Ok),
            holds(r, sp_sig_tail(old(self).tokens@, old(self).state()).0, |v: (Vec<Param>, Option<Type>, Option<WhereClause>)| sig_model(v)),
            final(self).state() == sp_sig_tail(old(self).tokens@, old(self).state()).1,
    {
        self.expect(&TokenKind::LParen)?;
        let mut params: Vec<Param> = Vec::new();
        match self.try_parse_self_param() {
            Some(res) => {
                let p = res?;
                params.push(p);
                proof {
                    assert(params_model(params@) =~= seq![param_model(p)]);
                }
                if self.eat(&TokenKind::Comma) {
                    self.parse_params_rest(params)
                } else {
                    self.finish_signature(params)
                }
            },
            None => {
                proof {
                    assert(params_model(params@) =~= Seq::<ParamM>::empty());
                }
                self.parse_params_rest(params)
            },
        }
    }

    /// Named parameters after those in `start`, up to the closing `)`, and
    /// the rest of the signature.
    fn parse_params_rest(&mut self, start: Vec<Param>) -> (r: Result<(Vec<Param>, Option<Type>, Option<WhereClause>), CompileError>)
        requires
            old(self).wf(),
        ensures
            final(self).progressed(old(self), false),
            holds(
                r,
                sp_params_loop(old(self).tokens@, old(self).state(), params_model(start@)).0,
                |v: (Vec<Param>, Option<Type>, Option<WhereClause>)| sig_model(v),
            ),
            final(self).state() == sp_params_loop(old(self).tokens@, old(self).state(), params_model(start@)).1,
    {
        proof {
            reveal_with_fuel(sp_params_loop, 1);
        }
        let ghost t = self.tokens@;
        let ghost total = sp_params_loop(t, self.state(), params_model(start@));
        let mut params = start;
        loop
            invariant_except_break
                sp_params_loop(t, self.state(), params_model(params@)) == total,
            invariant
                total == sp_params_loop(old(self).tokens@, old(self).state(), params_model(start@)),
                self.progressed(old(self), false),
                t == self.tokens@,
            ensures
                sp_sig_close(t, self.state(), params_model(params@)) == total,
            decreases self.tokens@.len() - self.pos,
        {
            proof {
                reveal_with_fuel(sp_params_loop, 1);
            }
            if matches!(self.peek(), TokenKind::RParen) {
                break;
            }
            let (pname, pname_span) = self.expect_ident()?;
            self.expect(&TokenKind::Colon)?;
            let pty = self.parse_type()?;
            proof {
                lemma_type_span_model(pty);
            }
            let pspan = pname_span.merge(&type_span(&pty));
            let pid = self.new_node_id();
            let p = Param { id: pid, span: pspan, name: pname, ty: pty, is_self: false };
            proof {
                lemma_map_push(params@, p, |x: Param| param_model(x));
            }
            params.push(p);
            if !self.eat(&TokenKind::Comma) {
                break;
            }
        }
        self.finish_signature(params)
    }

    /// `)`, an optional `-> Ret` and an optional `where` clause, after the
    /// parameters `params`.
    fn finish_signature(&mut self, params: Vec<Param>) -> (r: Result<(Vec<Param>, Option<Type>, Option<WhereClause>), CompileError>)
        requires
            old(self).wf(),
        ensures
            final(self).progressed(old(self), r is Ok),
            holds(
                r,
                sp_sig_close(old(self).tokens@, old(self).state(), params_model(params@)).0,
                |v: (Vec<Param>, Option<Type>, Option<WhereClause>)| sig_model(v),
            ),
            final(self).state() == sp_sig_close(old(self).tokens@, old(self).state(), params_model(params@)).1,
    {
        self.expect(&TokenKind::RParen)?;

        let ret_ty = if self.eat(&TokenKind::Arrow) {
            Some(self.parse_type()?)
        } else {
            None
        };

        let where_clause = if matches!(self.peek(), TokenKind::Where) {
            Some(self.parse_where_clause()?)
        } else {
            None
        };

        Ok((params, ret_ty, where_clause))
    }

    /// A block body, unwrapped.
    fn parse_body(&mut self) -> (r: Result<Block, CompileError>)
        requires
            old(self).wf(),
        ensures
            final(self).progressed(old(self), r is Ok),
            holds(r, sp_body(old(self).tokens@, old(self).state()).0, |b: Block| block_model(b)),
            final(self).state() == sp_body(old(self).tokens@, old(self).state()).1,
    {
        match self.parse_block()? {
            Expr::Block(b) => Ok(b),
            _ => Err(self.unexpected_token_error("block")),
        }
    }

    /// A function: `const`, `unsafe` and `extern "abi"` in any order, then
    /// `fn name<generics>(params) -> Ret where ... { body }`.  A repeated
    /// modifier is recorded as a diagnostic and parsing goes on.
    pub fn parse_fn(&mut self) -> (r: Result<Item, CompileError>)
        requires
            old(self).wf(),
        ensures
            final(self).progressed(old(self), r is Ok),
            item_holds(r, sp_fn(old(self).tokens@, old(self).state()).0),
            final(self).state() == sp_fn(old(self).tokens@, old(self).state()).1,
            !fn_start(old(self).peek_kind()) ==> *final(self) == *old(self),
    {
        proof {
            reveal_with_fuel(sp_fn_mods, 1);
        }
        let ghost t = self.tokens@;
        let ghost total = sp_fn(t, self.state());
        let mut is_const = false;
        let mut is_unsafe = false;
        let mut extern_abi: Option<String> = None;
        let mut first_modifier_span: Option<Span> = None;

        loop
            invariant_except_break
                sp_fn_mods(t, self.state(), is_const, is_unsafe, abi_model(extern_abi), first_modifier_span) == total,
            invariant
                total == sp_fn(old(self).tokens@, old(self).state()),
                self.progressed(old(self), false),
                t == self.tokens@,
                !fn_start(old(self).peek_kind()) ==> *self == *old(self),
            ensures
                sp_fn_rest(t, self.state(), is_const, is_unsafe, abi_model(extern_abi), first_modifier_span) == total,
            decreases self.tokens@.len() - self.pos,
        {
            proof {
                reveal_with_fuel(sp_fn_mods, 1);
            }
            if matches!(self.peek(), TokenKind::Const) {
                let t = self.bump();
                if first_modifier_span.is_none() {
                    first_modifier_span = Some(t.span);
                }
                if is_const {
                    let err = syntax_error(t.span, "duplicate `const` modifier on function");
                    self.report(err);
                } else {
                    is_const = true;
                }
            } else if matches!(self.peek(), TokenKind::Unsafe) {
                let t = self.bump();
                if first_modifier_span.is_none() {
                    first_modifier_span = Some(t.span);
                }
                if is_unsafe {
                    let err = syntax_error(t.span, "duplicate `unsafe` modifier on function");
                    self.report(err);
                } else {
                    is_unsafe = true;
                }
            } else if matches!(self.peek(), TokenKind::Extern) {
                let t = self.bump();
                if first_modifier_span.is_none() {
                    first_modifier_span = Some(t.span);
                }
                let abi = match self.peek() {
                    TokenKind::StringLiteral(s) => Some(s.clone()),
                    _ => None,
                };
                let abi = match abi {
                    Some(s) => {
                        self.bump();
                        s
                    },
                    None => String::new(),
                };
                if extern_abi.is_some() {
                    let err = syntax_error(t.span, "duplicate `extern` modifier on function");
                    self.report(err);
                } else {
                    extern_abi = Some(abi);
                }
            } else {
                break;
            }
        }

        let fn_kw = self.expect(&TokenKind::Fn)?;
        let start_span = match first_modifier_span {
            Some(s) => s,
            None => fn_kw.span,
        };

        let (name, _name_span) = self.expect_ident()?;

        let (generic_params, generics_list_span) = self.parse_opt_generics()?;

        let (params, ret_ty, where_clause) = self.parse_fn_signature_tail()?;

        let body = self.parse_body()?;

        let generics = make_generics(self, generic_params, generics_list_span, where_clause);

        let span = start_span.merge(&body.span);
        let id = self.new_node_id();
        Ok(Item::Fn(FnDef { id, span, name, params, ret_ty, body, is_const, is_unsafe, extern_abi, generics }))
    }

    /// `name: Ty` fields separated by commas, each optionally `pub`, up to
    /// (not including) the closing `}`.
    fn parse_named_fields(&mut self) -> (r: Result<Vec<Field>, CompileError>)
        requires
            old(self).wf(),
        ensures
            final(self).progressed(old(self), false),
            holds(r, sp_named_fields(old(self).tokens@, old(self).state(), Seq::empty()).0, |v: Vec<Field>| fields_model(v@)),
            final(self).state() == sp_named_fields(old(self).tokens@, old(self).state(), Seq::empty()).1,
    {
        proof {
            reveal_with_fuel(sp_named_fields, 1);
        }
        let ghost t = self.tokens@;
        let ghost total = sp_named_fields(t, self.state(), Seq::empty());
        let mut fields: Vec<Field> = Vec::new();
        proof {
            assert(fields_model(fields@) =~= Seq::<FieldM>::empty());
        }
        loop
            invariant_except_break
                sp_named_fields(t, self.state(), fields_model(fields@)) == total,
            invariant
                total == sp_named_fields(old(self).tokens@, old(self).state(), Seq::empty()),
                self.progressed(old(self), false),
                t == self.tokens@,
            ensures
                (PRes::Parsed(fields_model(fields@)), self.state()) == total,
            decreases self.tokens@.len() - self.pos,
        {
            proof {
                reveal_with_fuel(sp_named_fields, 1);
            }
            if matches!(self.peek(), TokenKind::RBrace) {
                break;
            }
            let is_pub = self.eat(&TokenKind::Pub);
            let (fname, fname_span) = self.expect_ident()?;
            self.expect(&TokenKind::Colon)?;
            let fty = self.parse_type()?;
            proof {
                lemma_type_span_model(fty);
            }
            let fspan = fname_span.merge(&type_span(&fty));
            let fid = self.new_node_id();
            let f = Field { id: fid, span: fspan, name: fname, ty: fty, is_pub };
            proof {
                lemma_map_push(fields@, f, |x: Field| field_model(x));
            }
            fields.push(f);
            if !self.eat(&TokenKind::Comma) {
                break;
            }
        }
        Ok(fields)
    }

    /// Tuple fields separated by commas, each optionally `pub`, up to (not
    /// including) the closing `)`; each is named by its position.
    fn parse_tuple_fields(&mut self) -> (r: Result<Vec<Field>, CompileError>)
        requires
            old(self).wf(),
        ensures
            final(self).progressed(old(self), false),
            holds(r, sp_tuple_fields(old(self).tokens@, old(self).state(), Seq::empty()).0, |v: Vec<Field>| fields_model(v@)),
            final(self).state() == sp_tuple_fields(old(self).tokens@, old(self).state(), Seq::empty()).1,
    {
        proof {
            reveal_with_fuel(sp_tuple_fields, 1);
        }
        let ghost t = self.tokens@;
        let ghost total = sp_tuple_fields(t, self.state(), Seq::empty());
        let mut fields: Vec<Field> = Vec::new();
        proof {
            assert(fields_model(fields@) =~= Seq::<FieldM>::empty());
        }
        loop
            invariant_except_break
                sp_tuple_fields(t, self.state(), fields_model(fields@)) == total,
            invariant
                total == sp_tuple_fields(old(self).tokens@, old(self).state(), Seq::empty()),
                self.progressed(old(self), false),
                t == self.tokens@,
                fields@.len() <= self.pos,
            ensures
                (PRes::Parsed(fields_model(fields@)), self.state()) == total,
            decreases self.tokens@.len() - self.pos,
        {
            proof {
                reveal_with_fuel(sp_tuple_fields, 1);
            }
            if matches!(self.peek(), TokenKind::RParen) {
                break;
            }
            let pub_span = if matches!(self.peek(), TokenKind::Pub) {
                let t = self.bump();
                Some(t.span)
            } else {
                None
            };
            let is_pub = pub_span.is_some();
            let fty = self.parse_type()?;
            let ty_span = type_span(&fty);
            proof {
                lemma_type_span_model(fty);
            }
            let fspan = match pub_span {
                Some(ps) => ps.merge(&ty_span),
                None => ty_span,
            };
            let fid = self.new_node_id();
            let f = Field { id: fid, span: fspan, name: index_name(fields.len()), ty: fty, is_pub };
            proof {
                lemma_map_push(fields@, f, |x: Field| field_model(x));
            }
            fields.push(f);
            if !self.eat(&TokenKind::Comma) {
                break;
            }
        }
        Ok(fields)
    }

    /// A struct: `struct Name<generics>` then `{ fields }`, `(types);` or `;`.
    /// Tuple fields are named by their position.
    pub fn parse_struct(&mut self) -> (r: Result<Item, CompileError>)
        requires
            old(self).wf(),
        ensures
            final(self).progressed(old(self), r is Ok),
            item_holds(r, sp_struct(old(self).tokens@, old(self).state()).0),
            final(self).state() == sp_struct(old(self).tokens@, old(self).state()).1,
            !(old(self).peek_kind() is Struct) ==> *final(self) == *old(self),
    {
        let struct_kw = self.expect(&TokenKind::Struct)?;
        let start_span = struct_kw.span;

        let (name, _name_span) = self.expect_ident()?;

        let (generic_params, generics_list_span) = self.parse_opt_generics()?;

        let fields: Vec<Field>;
        let kind: StructKind;
        let end_span: Span;
        if matches!(self.peek(), TokenKind::LBrace) {
            self.bump();
            fields = self.parse_named_fields()?;
            let rbrace_tok = self.expect(&TokenKind::RBrace)?;
            end_span = rbrace_tok.span;
            kind = StructKind::Record;
        } else if matches!(self.peek(), TokenKind::LParen) {
            self.bump();
            fields = self.parse_tuple_fields()?;
            self.expect(&TokenKind::RParen)?;
            let semi_tok = self.expect(&TokenKind::Semi)?;
            end_span = semi_tok.span;
            kind = StructKind::Tuple;
        } else if matches!(self.peek(), TokenKind::Semi) {
            let semi_tok = self.bump();
            end_span = semi_tok.span;
            kind = StructKind::Unit;
            fields = Vec::new();
            proof {
                assert(fields_model(fields@) =~= Seq::<FieldM>::empty());
            }
        } else {
            let kinds = [TokenKind::LBrace, TokenKind::LParen, TokenKind::Semi];
            proof {
                assert(kinds@ =~= seq![TokenKind::LBrace, TokenKind::LParen, TokenKind::Semi]);
            }
            return Err(self.one_of_error(&kinds));
        }

        let generics = make_generics(self, generic_params, generics_list_span, None);

        let span = start_span.merge(&end_span);
        let id = self.new_node_id();
        Ok(Item::Struct(StructDef { id, span, name, generics, fields, kind }))
    }

    /// The types of a tuple variant, separated by commas, up to (not
    /// including) the closing `)`.
    fn parse_variant_types(&mut self) -> (r: Result<Vec<Type>, CompileError>)
        requires
            old(self).wf(),
        ensures
            final(self).progressed(old(self), false),
            holds(r, sp_variant_types(old(self).tokens@, old(self).state(), Seq::empty()).0, |v: Vec<Type>| types_model(v@)),
            final(self).state() == sp_variant_types(old(self).tokens@, old(self).state(), Seq::empty()).1,
    {
        proof {
            reveal_with_fuel(sp_variant_types, 1);
        }
        let ghost t = self.tokens@;
        let ghost total = sp_variant_types(t, self.state(), Seq::empty());
        let mut tys: Vec<Type> = Vec::new();
        proof {
            assert(types_model(tys@) =~= Seq::<TypeM>::empty());
        }
        loop
            invariant_except_break
                sp_variant_types(t, self.state(), types_model(tys@)) == total,
            invariant
                total == sp_variant_types(old(self).tokens@, old(self).state(), Seq::empty()),
                self.progressed(old(self), false),
                t == self.tokens@,
            ensures
                (PRes::Parsed(types_model(tys@)), self.state()) == total,
            decreases self.tokens@.len() - self.pos,
        {
            proof {
                reveal_with_fuel(sp_variant_types, 1);
            }
            if matches!(self.peek(), TokenKind::RParen) {
                break;
            }
            let ty = self.parse_type()?;
            proof {
                lemma_types_model_push(tys@, ty);
            }
            tys.push(ty);
            if !self.eat(&TokenKind::Comma) {
                break;
            }
        }
        Ok(tys)
    }

    /// The payload of a variant, if any, and the span it ends with
    /// (`name_span` when there is none).
    fn parse_variant_kind(&mut self, name_span: Span) -> (r: Result<(VariantKind, Span), CompileError>)
        requires
            old(self).wf(),
        ensures
            final(self).progressed(old(self), false),
            holds(
                r,
                sp_variant_kind(old(self).tokens@, old(self).state(), name_span).0,
                |v: (VariantKind, Span)| (variant_kind_model(v.0), v.1),
            ),
            final(self).state() == sp_variant_kind(old(self).tokens@, old(self).state(), name_span).1,
    {
        if matches!(self.peek(), TokenKind::LParen) {
            self.bump();
            let tys = self.parse_variant_types()?;
            let rparen_tok = self.expect(&TokenKind::RParen)?;
            Ok((VariantKind::Tuple(tys), rparen_tok.span))
        } else if matches!(self.peek(), TokenKind::LBrace) {
            self.bump();
            let fields = self.parse_named_fields()?;
            let rbrace_tok = self.expect(&TokenKind::RBrace)?;
            Ok((VariantKind::Struct(fields), rbrace_tok.span))
        } else {
            Ok((VariantKind::Unit, name_span))
        }
    }

    /// An optional `= n` after a variant, and the span the variant then ends
    /// with (`end` when there is none).
    fn parse_discriminant(&mut self, end: Span) -> (r: Result<(Option<Expr>, Span), CompileError>)
        requires
            old(self).wf(),
        ensures
            final(self).progressed(old(self), false),
            holds(
                r,
                sp_discriminant(old(self).tokens@, old(self).state(), end).0,
                |v: (Option<Expr>, Span)| (disc_model(v.0), v.1),
            ),
            final(self).state() == sp_discriminant(old(self).tokens@, old(self).state(), end).1,
    {
        if self.eat(&TokenKind::Eq) {
            let lit = match self.peek() {
                TokenKind::IntLiteral(v, s) => Some((*v, *s)),
                _ => None,
            };
            let (value, suffix) = match lit {
                Some(vs) => vs,
                None => {
                    return Err(self.expected_error(&TokenKind::IntLiteral(0, IntSuffix::Unsuffixed)));
                },
            };
            let lit_tok = self.bump();
            let lit_span = lit_tok.span;
            let lit_id = self.new_node_id();
            Ok((Some(Expr::IntLit(IntLit { id: lit_id, span: lit_span, value, suffix })), lit_span))
        } else {
            Ok((None, end))
        }
    }

    /// Enum variants separated by commas, up to (not including) the closing
    /// `}`.
    fn parse_variants(&mut self) -> (r: Result<Vec<EnumVariant>, CompileError>)
        requires
            old(self).wf(),
        ensures
            final(self).progressed(old(self), false),
            holds(r, sp_variants(old(self).tokens@, old(self).state(), Seq::empty()).0, |v: Vec<EnumVariant>| variants_model(v@)),
            final(self).state() == sp_variants(old(self).tokens@, old(self).state(), Seq::empty()).1,
    {
        proof {
            reveal_with_fuel(sp_variants, 1);
        }
        let ghost t = self.tokens@;
        let ghost total = sp_variants(t, self.state(), Seq::empty());
        let mut variants: Vec<EnumVariant> = Vec::new();
        proof {
            assert(variants_model(variants@) =~= Seq::<EnumVariantM>::empty());
        }
        loop
            invariant_except_break
                sp_variants(t, self.state(), variants_model(variants@)) == total,
            invariant
                total == sp_variants(old(self).tokens@, old(self).state(), Seq::empty()),
                self.progressed(old(self), false),
                t == self.tokens@,
            ensures
                (PRes::Parsed(variants_model(variants@)), self.state()) == total,
            decreases self.tokens@.len() - self.pos,
        {
            proof {
                reveal_with_fuel(sp_variants, 1);
            }
            if matches!(self.peek(), TokenKind::RBrace) {
                break;
            }
            let (vname, vname_span) = self.expect_ident()?;
            let (kind, kind_end) = self.parse_variant_kind(vname_span)?;
            let (discriminant, variant_end_span) = self.parse_discriminant(kind_end)?;
            let variant_span = vname_span.merge(&variant_end_span);
            let variant_id = self.new_node_id();
            let v = EnumVariant { id: variant_id, span: variant_span, name: vname, kind, discriminant };
            proof {
                lemma_map_push(variants@, v, |x: EnumVariant| variant_model(x));
            }
            variants.push(v);
            if !self.eat(&TokenKind::Comma) {
                break;
            }
        }
        Ok(variants)
    }

    /// An enum: `enum Name<generics> { Variant, Variant(types),
    /// Variant { fields }, Variant = n, ... }`.
    pub fn parse_enum(&mut self) -> (r: Result<Item, CompileError>)
        requires
            old(self).wf(),
        ensures
            final(self).progressed(old(self), r is Ok),
            item_holds(r, sp_enum(old(self).tokens@, old(self).state()).0),
            final(self).state() == sp_enum(old(self).tokens@, old(self).state()).1,
            !(old(self).peek_kind() is Enum) ==> *final(self) == *old(self),
    {
        let enum_kw = self.expect(&TokenKind::Enum)?;
        let start_span = enum_kw.span;

        let (name, _name_span) = self.expect_ident()?;

        let (generic_params, generics_list_span) = self.parse_opt_generics()?;

        self.expect(&TokenKind::LBrace)?;
        let variants = self.parse_variants()?;
        let rbrace_tok = self.expect(&TokenKind::RBrace)?;
        let end_span = rbrace_tok.span;

        let generics = make_generics(self, generic_params, generics_list_span, None);

        let span = start_span.merge(&end_span);
        let id = self.new_node_id();
        Ok(Item::Enum(EnumDef { id, span, name, generics, variants }))
    }

    /// A trait: `trait Name<generics>: Supertraits where ... { items }` with
    /// methods, associated types and associated constants.  Anything else in
    /// the body is recorded as a diagnostic, after which the parser recovers
    /// and expects the closing `}`.
    pub fn parse_trait(&mut self) -> (r: Result<Item, CompileError>)
        requires
            old(self).wf(),
        ensures
            final(self).progressed(old(self), r is Ok),
            item_holds(r, sp_trait(old(self).tokens@, old(self).state()).0),
            final(self).state() == sp_trait(old(self).tokens@, old(self).state()).1,
            !(old(self).peek_kind() is Trait) ==> *final(self) == *old(self),
    {
        let trait_kw = self.expect(&TokenKind::Trait)?;
        let start_span = trait_kw.span;

        let (name, _name_span) = self.expect_ident()?;

        let (generic_params, generics_list_span) = self.parse_opt_generics()?;

        let supertraits = if self.eat(&TokenKind::Colon) {
            self.parse_bounds()?
        } else {
            let none: Vec<TraitBound> = Vec::new();
            proof {
                assert(bounds_model(none@) =~= Seq::<TraitBoundM>::empty());
            }
            none
        };

        let where_clause = if matches!(self.peek(), TokenKind::Where) {
            Some(self.parse_where_clause()?)
        } else {
            None
        };

        self.expect(&TokenKind::LBrace)?;
        let items = self.parse_trait_items()?;
        let rbrace_tok = self.expect(&TokenKind::RBrace)?;
        let end_span = rbrace_tok.span;

        let generics = make_generics(self, generic_params, generics_list_span, where_clause);

        let span = start_span.merge(&end_span);
        let id = self.new_node_id();
        Ok(Item::Trait(TraitDef { id, span, name, generics, supertraits, items }))
    }

    /// The items of a trait body up to (not including) the closing `}`; on a
    /// token that starts no trait item, a diagnostic is recorded, the parser
    /// recovers, and the items end there.
    fn parse_trait_items(&mut self) -> (r: Result<Vec<TraitItem>, CompileError>)
        requires
            old(self).wf(),
        ensures
            final(self).progressed(old(self), false),
            holds(r, sp_trait_items(old(self).tokens@, old(self).state(), Seq::empty()).0, |v: Vec<TraitItem>| trait_items_model(v@)),
            final(self).state() == sp_trait_items(old(self).tokens@, old(self).state(), Seq::empty()).1,
    {
        proof {
            reveal_with_fuel(sp_trait_items, 1);
        }
        let ghost t = self.tokens@;
        let ghost total = sp_trait_items(t, self.state(), Seq::empty());
        let mut items: Vec<TraitItem> = Vec::new();
        proof {
            assert(trait_items_model(items@) =~= Seq::<TraitItemM>::empty());
        }
        loop
            invariant_except_break
                sp_trait_items(t, self.state(), trait_items_model(items@)) == total,
            invariant
                total == sp_trait_items(old(self).tokens@, old(self).state(), Seq::empty()),
                self.progressed(old(self), false),
                t == self.tokens@,
            ensures
                (PRes::Parsed(trait_items_model(items@)), self.state()) == total,
            decreases self.tokens@.len() - self.pos,
        {
            proof {
                reveal_with_fuel(sp_trait_items, 1);
            }
            if matches!(self.peek(), TokenKind::RBrace) {
                break;
            } else if matches!(self.peek(), TokenKind::Fn) {
                let m = self.parse_trait_method()?;
                proof {
                    lemma_map_push(items@, m, |x: TraitItem| trait_item_model(x));
                }
                items.push(m);
            } else if matches!(self.peek(), TokenKind::Type) {
                let type_kw = self.bump();
                let type_span_kw = type_kw.span;
                let (ident, _ident_span) = self.expect_ident()?;
                let semi_tok = self.expect(&TokenKind::Semi)?;
                let span = type_span_kw.merge(&semi_tok.span);
                let id = self.new_node_id();
                let item = TraitItem::Type(TraitItemType { id, span, name: ident });
                proof {
                    lemma_map_push(items@, item, |x: TraitItem| trait_item_model(x));
                }
                items.push(item);
            } else if matches!(self.peek(), TokenKind::Const) {
                let const_kw = self.bump();
                let const_span = const_kw.span;
                let (ident, _ident_span) = self.expect_ident()?;
                self.expect(&TokenKind::Colon)?;
                let ty = self.parse_type()?;
                let semi_tok = self.expect(&TokenKind::Semi)?;
                let span = const_span.merge(&semi_tok.span);
                let id = self.new_node_id();
                let item = TraitItem::Const(TraitItemConst { id, span, name: ident, ty });
                proof {
                    lemma_map_push(items@, item, |x: TraitItem| trait_item_model(x));
                }
                items.push(item);
            } else {
                let kinds = [TokenKind::Fn, TokenKind::Type, TokenKind::Const, TokenKind::RBrace];
                proof {
                    assert(kinds@ =~= seq![TokenKind::Fn, TokenKind::Type, TokenKind::Const, TokenKind::RBrace]);
                }
                self.expected_one_of_error(&kinds);
                break;
            }
        }
        Ok(items)
    }

    /// A trait method: a signature ending in `;`, or with a default body.
    fn parse_trait_method(&mut self) -> (r: Result<TraitItem, CompileError>)
        requires
            old(self).wf(),
        ensures
            final(self).progressed(old(self), r is Ok),
            holds(r, sp_trait_method(old(self).tokens@, old(self).state()).0, |i: TraitItem| trait_item_model(i)),
            final(self).state() == sp_trait_method(old(self).tokens@, old(self).state()).1,
    {
        let fn_kw = self.expect(&TokenKind::Fn)?;
        let start_span = fn_kw.span;

        let (name, _name_span) = self.expect_ident()?;

        let (generic_params, generics_list_span) = self.parse_opt_generics()?;

        let (params, ret_ty, where_clause) = self.parse_fn_signature_tail()?;

        let (default, end_span) = if matches!(self.peek(), TokenKind::Semi) {
            let semi_tok = self.bump();
            (None, semi_tok.span)
        } else if matches!(self.peek(), TokenKind::LBrace) {
            let block = self.parse_body()?;
            let block_span = block.span;
            (Some(block), block_span)
        } else {
            let kinds = [TokenKind::Semi, TokenKind::LBrace];
            proof {
                assert(kinds@ =~= seq![TokenKind::Semi, TokenKind::LBrace]);
            }
            return Err(self.one_of_error(&kinds));
        };

        let generics = make_generics(self, generic_params, generics_list_span, where_clause);

        let span = start_span.merge(&end_span);
        let id = self.new_node_id();
        Ok(TraitItem::Fn(TraitItemFn { id, span, name, generics, params, ret_ty, default }))
    }

    /// A module: `mod name;` or `mod name { items }`.
    pub fn parse_mod(&mut self) -> (r: Result<Item, CompileError>)
        requires
            old(self).wf(),
        ensures
            final(self).progressed(old(self), r is Ok),
            item_holds(r, sp_mod(old(self).tokens@, old(self).state()).0),
            final(self).state() == sp_mod(old(self).tokens@, old(self).state()).1,
            !(old(self).peek_kind() is Mod) ==> *final(self) == *old(self),
        decreases old(self).tokens@.len() - old(self).pos, 0nat,
    {
        proof {
            reveal_with_fuel(sp_mod, 1);
            reveal_with_fuel(sp_mod_items, 1);
            reveal_with_fuel(sp_mod_inline_item, 1);
        }
        let mod_kw = self.expect(&TokenKind::Mod)?;
        let start_span = mod_kw.span;

        let (name, _name_span) = self.expect_ident()?;

        let (kind, end_span) = if matches!(self.peek(), TokenKind::Semi) {
            let semi_tok = self.bump();
            (ModKind::External, semi_tok.span)
        } else if matches!(self.peek(), TokenKind::LBrace) {
            self.bump();
            let items = self.parse_mod_items()?;
            let rbrace_tok = self.expect(&TokenKind::RBrace)?;
            (ModKind::Inline(items), rbrace_tok.span)
        } else {
            let kinds = [TokenKind::Semi, TokenKind::LBrace];
            proof {
                assert(kinds@ =~= seq![TokenKind::Semi, TokenKind::LBrace]);
            }
            return Err(self.one_of_error(&kinds));
        };

        let span = start_span.merge(&end_span);
        let id = self.new_node_id();
        Ok(Item::Mod(ModDef { id, span, name, kind }))
    }

    /// The items of an inline module up to (not including) the closing `}`.
    fn parse_mod_items(&mut self) -> (r: Result<Vec<Item>, CompileError>)
        requires
            old(self).wf(),
        ensures
            final(self).progressed(old(self), false),
            holds(r, sp_mod_items(old(self).tokens@, old(self).state(), Seq::empty()).0, |v: Vec<Item>| items_model(v@)),
            final(self).state() == sp_mod_items(old(self).tokens@, old(self).state(), Seq::empty()).1,
        decreases old(self).tokens@.len() - old(self).pos, 2nat,
    {
        proof {
            reveal_with_fuel(sp_mod, 1);
            reveal_with_fuel(sp_mod_items, 1);
            reveal_with_fuel(sp_mod_inline_item, 1);
        }
        let ghost t = self.tokens@;
        let ghost total = sp_mod_items(t, self.state(), Seq::empty());
        let mut items: Vec<Item> = Vec::new();
        proof {
            assert(items_model(items@) =~= Seq::<ItemM>::empty());
        }
        loop
            invariant_except_break
                sp_mod_items(t, self.state(), items_model(items@)) == total,
            invariant
                total == sp_mod_items(old(self).tokens@, old(self).state(), Seq::empty()),
                self.progressed(old(self), false),
                t == self.tokens@,
            ensures
                (PRes::Parsed(items_model(items@)), self.state()) == total,
            decreases self.tokens@.len() - self.pos,
        {
            proof {
                reveal_with_fuel(sp_mod, 1);
                reveal_with_fuel(sp_mod_items, 1);
                reveal_with_fuel(sp_mod_inline_item, 1);
            }
            if matches!(self.peek(), TokenKind::RBrace) {
                break;
            }
            let item = self.parse_mod_inline_item()?;
            proof {
                lemma_items_model_push(items@, item);
            }
            items.push(item);
        }
        Ok(items)
    }

    /// A `use` declaration, optionally `pub`.
    pub fn parse_use(&mut self) -> (r: Result<Item, CompileError>)
        requires
            old(self).wf(),
        ensures
            final(self).progressed(old(self), r is Ok),
            item_holds(r, sp_use(old(self).tokens@, old(self).state()).0),
            final(self).state() == sp_use(old(self).tokens@, old(self).state()).1,
            !(old(self).peek_kind() is Pub || old(self).peek_kind() is Use) ==> *final(self) == *old(self),
    {
        let mut is_pub = false;
        let mut start_span: Option<Span> = None;
        if matches!(self.peek(), TokenKind::Pub) {
            let pub_tok = self.bump();
            is_pub = true;
            start_span = Some(pub_tok.span);
        }
        let use_kw = self.expect(&TokenKind::Use)?;
        let start_span = match start_span {
            Some(s) => s,
            None => use_kw.span,
        };

        let tree = self.parse_use_tree()?;

        let semi_tok = self.expect(&TokenKind::Semi)?;
        let end_span = semi_tok.span;

        let span = start_span.merge(&end_span);
        let id = self.new_node_id();
        Ok(Item::Use(UseDef { id, span, is_pub, tree }))
    }

    /// A use tree: `{ trees }`, `a::b::*`, `a::b::{ trees }`, or `a::b`
    /// optionally `as alias`.
    fn parse_use_tree(&mut self) -> (r: Result<UseTree, CompileError>)
        requires
            old(self).wf(),
        ensures
            final(self).progressed(old(self), r is Ok),
            holds(r, sp_use_tree(old(self).tokens@, old(self).state()).0, |u: UseTree| use_tree_model(u)),
            final(self).state() == sp_use_tree(old(self).tokens@, old(self).state()).1,
        decreases old(self).tokens@.len() - old(self).pos, 1nat,
    {
        proof {
            reveal_with_fuel(sp_use_tree, 1);
            reveal_with_fuel(sp_use_path, 1);
            reveal_with_fuel(sp_use_group, 1);
            reveal_with_fuel(sp_group_items, 1);
        }
        if matches!(self.peek(), TokenKind::LBrace) {
            let items = self.parse_use_tree_group()?;
            let none: Vec<String> = Vec::new();
            proof {
                assert(names_model(none@) =~= Seq::<Seq<char>>::empty());
            }
            return Ok(UseTree::Nested { segments: none, items });
        }

        let ghost t = self.tokens@;
        let ghost total = sp_use_tree(t, self.state());
        let mut segments: Vec<String> = Vec::new();
        let (head, _head_span) = self.expect_ident()?;
        segments.push(head);
        proof {
            assert(names_model(segments@) =~= seq![head@]);
        }
        loop
            invariant_except_break
                sp_use_path(t, self.state(), names_model(segments@)) == total,
            invariant
                total == sp_use_tree(old(self).tokens@, old(self).state()),
                self.progressed(old(self), true),
                t == self.tokens@,
            ensures
                !(tk(t, self.pos as int) is ColonColon),
                sp_use_path(t, self.state(), names_model(segments@)) == total,
            decreases self.tokens@.len() - self.pos,
        {
            proof {
                reveal_with_fuel(sp_use_path, 1);
                reveal_with_fuel(sp_use_tree, 1);
                reveal_with_fuel(sp_use_group, 1);
                reveal_with_fuel(sp_group_items, 1);
            }
            if !self.eat(&TokenKind::ColonColon) {
                break;
            }
            if matches!(self.peek(), TokenKind::Star) {
                self.bump();
                return Ok(UseTree::Glob { segments });
            } else if matches!(self.peek(), TokenKind::LBrace) {
                let items = self.parse_use_tree_group()?;
                return Ok(UseTree::Nested { segments, items });
            } else {
                let (seg, _seg_span) = self.expect_ident()?;
                proof {
                    lemma_map_push(segments@, seg, |x: String| x@);
                }
                segments.push(seg);
            }
        }

        let mut alias: Option<String> = None;
        if ident_is(self.peek(), "as") {
            self.bump();
            let (name, _alias_span) = self.expect_ident()?;
            alias = Some(name);
        }

        Ok(UseTree::Simple { segments, alias })
    }

    /// `{ tree, tree, ... }`, a trailing comma allowed.
    fn parse_use_tree_group(&mut self) -> (r: Result<Vec<UseTree>, CompileError>)
        requires
            old(self).wf(),
        ensures
            final(self).progressed(old(self), r is Ok),
            holds(r, sp_use_group(old(self).tokens@, old(self).state()).0, |v: Vec<UseTree>| use_trees_model(v@)),
            final(self).state() == sp_use_group(old(self).tokens@, old(self).state()).1,
        decreases old(self).tokens@.len() - old(self).pos, 0nat,
    {
        proof {
            reveal_with_fuel(sp_use_tree, 1);
            reveal_with_fuel(sp_use_path, 1);
            reveal_with_fuel(sp_use_group, 1);
            reveal_with_fuel(sp_group_items, 1);
        }
        let ghost t = self.tokens@;
        let ghost total = sp_use_group(t, self.state());
        self.expect(&TokenKind::LBrace)?;
        let mut items: Vec<UseTree> = Vec::new();
        proof {
            assert(use_trees_model(items@) =~= Seq::<UseTreeM>::empty());
        }
        if !matches!(self.peek(), TokenKind::RBrace) {
            loop
                invariant_except_break
                    sp_group_items(t, self.state(), use_trees_model(items@)) == total,
                invariant
                    total == sp_use_group(old(self).tokens@, old(self).state()),
                    self.progressed(old(self), true),
                    t == self.tokens@,
                ensures
                    close_group(t, self.state(), use_trees_model(items@)) == total,
                decreases self.tokens@.len() - self.pos,
            {
                proof {
                    reveal_with_fuel(sp_group_items, 1);
                    reveal_with_fuel(sp_use_tree, 1);
                    reveal_with_fuel(sp_use_path, 1);
                    reveal_with_fuel(sp_use_group, 1);
                }
                let item = self.parse_use_tree()?;
                proof {
                    lemma_use_trees_model_push(items@, item);
                }
                items.push(item);
                if !self.eat(&TokenKind::Comma) {
                    break;
                }
                if matches!(self.peek(), TokenKind::RBrace) {
                    break;
                }
            }
        }
        self.expect(&TokenKind::RBrace)?;
        Ok(items)
    }

    /// An item inside an inline module: a function, struct, enum, trait or
    /// module.
    fn parse_mod_inline_item(&mut self) -> (r: Result<Item, CompileError>)
        requires
            old(self).wf(),
        ensures
            final(self).progressed(old(self), r is Ok),
            item_holds(r, sp_mod_inline_item(old(self).tokens@, old(self).state()).0),
            final(self).state() == sp_mod_inline_item(old(self).tokens@, old(self).state()).1,
        decreases old(self).tokens@.len() - old(self).pos, 1nat,
    {
        proof {
            reveal_with_fuel(sp_mod, 1);
            reveal_with_fuel(sp_mod_items, 1);
            reveal_with_fuel(sp_mod_inline_item, 1);
        }
        if matches!(self.peek(), TokenKind::Fn) {
            self.parse_fn()
        } else if matches!(self.peek(), TokenKind::Struct) {
            self.parse_struct()
        } else if matches!(self.peek(), TokenKind::Enum) {
            self.parse_enum()
        } else if matches!(self.peek(), TokenKind::Trait) {
            self.parse_trait()
        } else if matches!(self.peek(), TokenKind::Mod) {
            self.parse_mod()
        } else {
            let kinds = [
                TokenKind::Fn,
                TokenKind::Struct,
                TokenKind::Enum,
                TokenKind::Trait,
                TokenKind::Mod,
                TokenKind::RBrace,
            ];
            proof {
                assert(kinds@ =~= seq![TokenKind::Fn, TokenKind::Struct, TokenKind::Enum, TokenKind::Trait, TokenKind::Mod, TokenKind::RBrace]);
            }
            Err(self.one_of_error(&kinds))
        }
    }

    /// `const NAME: Ty = value;`.
    pub fn parse_const(&mut self) -> (r: Result<Item, CompileError>)
        requires
            old(self).wf(),
        ensures
            final(self).progressed(old(self), r is Ok),
            item_holds(r, sp_const(old(self).tokens@, old(self).state()).0),
            final(self).state() == sp_const(old(self).tokens@, old(self).state()).1,
            !(old(self).peek_kind() is Const) ==> *final(self) == *old(self),
    {
        let const_kw = self.expect(&TokenKind::Const)?;
        let start_span = const_kw.span;

        let (name, _name_span) = self.expect_ident()?;

        self.expect(&TokenKind::Colon)?;
        let ty = self.parse_type()?;
        self.expect(&TokenKind::Eq)?;
        let value = self.parse_expr()?;
        let semi_tok = self.expect(&TokenKind::Semi)?;
        let end_span = semi_tok.span;

        let span = start_span.merge(&end_span);
        let id = self.new_node_id();
        Ok(Item::Const(ConstDef { id, span, name, ty, value }))
    }

    /// `static [mut] NAME: Ty = value;`.
    pub fn parse_static(&mut self) -> (r: Result<Item, CompileError>)
        requires
            old(self).wf(),
        ensures
            final(self).progressed(old(self), r is Ok),
            item_holds(r, sp_static(old(self).tokens@, old(self).state()).0),
            final(self).state() == sp_static(old(self).tokens@, old(self).state()).1,
            !(old(self).peek_kind() is Static) ==> *final(self) == *old(self),
    {
        let static_kw = self.expect(&TokenKind::Static)?;
        let start_span = static_kw.span;

        let is_mut = self.eat(&TokenKind::Mut);

        let (name, _name_span) = self.expect_ident()?;

        self.expect(&TokenKind::Colon)?;
        let ty = self.parse_type()?;
        self.expect(&TokenKind::Eq)?;
        let value = self.parse_expr()?;
        let semi_tok = self.expect(&TokenKind::Semi)?;
        let end_span = semi_tok.span;

        let span = start_span.merge(&end_span);
        let id = self.new_node_id();
        Ok(Item::Static(StaticDef { id, span, name, ty, value, is_mut }))
    }

    /// `type Name<generics> = Ty;`.
    pub fn parse_type_alias(&mut self) -> (r: Result<Item, CompileError>)
        requires
            old(self).wf(),
        ensures
            final(self).progressed(old(self), r is Ok),
            item_holds(r, sp_type_alias(old(self).tokens@, old(self).state()).0),
            final(self).state() == sp_type_alias(old(self).tokens@, old(self).state()).1,
            !(old(self).peek_kind() is Type) ==> *final(self) == *old(self),
    {
        let type_kw = self.expect(&TokenKind::Type)?;
        let start_span = type_kw.span;

        let (name, _name_span) = self.expect_ident()?;

        let (generic_params, generics_list_span) = self.parse_opt_generics()?;

        self.expect(&TokenKind::Eq)?;
        let ty = self.parse_type()?;
        let semi_tok = self.expect(&TokenKind::Semi)?;
        let end_span = semi_tok.span;

        let generics = make_generics(self, generic_params, generics_list_span, None);

        let span = start_span.merge(&end_span);
        let id = self.new_node_id();
        Ok(Item::TypeAlias(TypeAliasDef { id, span, name, generics, ty }))
    }
}

} // verus!
