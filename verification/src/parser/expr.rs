use vstd::prelude::*;

use crate::ast::expr::{
    ArrayLit, ArrayRepeat, Binary, BinaryOp, Block, BoolLit, Call, Cast, CastTy, CharLit, Closure,
    ClosureParam, Expr, FieldAccess, FloatLit, If, Index, IntLit, MethodCall, Range, StrLit, Try,
    TupleFieldAccess, TupleLit, Unary, UnaryOp,
};
use crate::ast::stmt::Stmt;
use crate::ast::NodeId;
use crate::error::render::push_str;
use crate::error::CompileError;
use crate::lexer::token::TokenKind;
use crate::ast::expr::GenericArg;
use crate::ast::model::{
    block_model, expr_m_span, expr_model, exprs_model, lemma_expr_model_span, lemma_exprs_model_push,
    lemma_stmts_model_push, stmt_model, stmts_model, BlockM, ExprM, StmtM,
};
use crate::lexer::token::Token;
use crate::span::Span;
use crate::ast::model::opt_expr_model;
use crate::parser::{
    bumped, recovered, syntax_diag, describe_text, expected_at, expected_found, fresh, is_syntax_error, next_nid, span_at,
    sync_end, syntax_error, tk, PRes, PState, Parser,
};

verus! {

/// Whether an operator compares, assigns, or does neither.
#[derive(Debug, Clone, Copy, PartialEq, Eq, Structural)]
pub enum OpClass {
    Comparison,
    Assignment,
    Other,
}

/// How the expression parser names the token it did not expect: literals,
/// `true`, `false`, identifiers and end of file by name, anything else as
/// "token".
pub open spec fn short_text(k: TokenKind) -> Seq<char> {
    match k {
        TokenKind::IntLiteral(..) => "integer literal"@,
        TokenKind::FloatLiteral(..) => "float literal"@,
        TokenKind::CharLiteral(..) => "char literal"@,
        TokenKind::StringLiteral(..) => "string literal"@,
        TokenKind::RawStringLiteral(..) => "raw string literal"@,
        TokenKind::True => "`true`"@,
        TokenKind::False => "`false`"@,
        TokenKind::Ident(..) => "identifier"@,
        TokenKind::Eof => "end of file"@,
        _ => "token"@,
    }
}

/// `expected <what>, found <kind>` in the expression parser's words.
pub open spec fn unexpected_msg(expected: Seq<char>, found: TokenKind) -> Seq<char> {
    "expected "@ + expected + ", found "@ + short_text(found)
}

/// The tokens after which `..` is read as having an upper bound.
pub open spec fn range_rhs_start(k: TokenKind) -> bool {
    ||| k is IntLiteral
    ||| k is FloatLiteral
    ||| k is CharLiteral
    ||| k is StringLiteral
    ||| k is RawStringLiteral
    ||| k is True
    ||| k is False
    ||| k is LParen
    ||| k is Minus
    ||| k is Not
    ||| k is Star
    ||| k is Amp
    ||| k is If
}

/// The comparison operators, which do not chain.
pub open spec fn is_comparison(op: BinaryOp) -> bool {
    ||| op == BinaryOp::Eq
    ||| op == BinaryOp::Ne
    ||| op == BinaryOp::Lt
    ||| op == BinaryOp::Gt
    ||| op == BinaryOp::Le
    ||| op == BinaryOp::Ge
}

/// Left and right binding power, operator and class of an infix token.
/// Assignments bind loosest and associate to the right; then `or`, `and`,
/// comparisons, `|`, `^`, `&`, shifts, `+ -`, and `* / %`, all to the left.
pub open spec fn binding_power(k: TokenKind) -> Option<(u8, u8, BinaryOp, OpClass)> {
    match k {
        TokenKind::Eq => Some((2u8, 1u8, BinaryOp::Assign, OpClass::Assignment)),
        TokenKind::PlusEq => Some((2u8, 1u8, BinaryOp::AddAssign, OpClass::Assignment)),
        TokenKind::MinusEq => Some((2u8, 1u8, BinaryOp::SubAssign, OpClass::Assignment)),
        TokenKind::StarEq => Some((2u8, 1u8, BinaryOp::MulAssign, OpClass::Assignment)),
        TokenKind::SlashEq => Some((2u8, 1u8, BinaryOp::DivAssign, OpClass::Assignment)),
        TokenKind::PercentEq => Some((2u8, 1u8, BinaryOp::RemAssign, OpClass::Assignment)),
        TokenKind::Or => Some((3u8, 4u8, BinaryOp::Or, OpClass::Other)),
        TokenKind::And => Some((5u8, 6u8, BinaryOp::And, OpClass::Other)),
        TokenKind::EqEq => Some((7u8, 8u8, BinaryOp::Eq, OpClass::Comparison)),
        TokenKind::BangEq => Some((7u8, 8u8, BinaryOp::Ne, OpClass::Comparison)),
        TokenKind::Lt => Some((7u8, 8u8, BinaryOp::Lt, OpClass::Comparison)),
        TokenKind::Gt => Some((7u8, 8u8, BinaryOp::Gt, OpClass::Comparison)),
        TokenKind::Le => Some((7u8, 8u8, BinaryOp::Le, OpClass::Comparison)),
        TokenKind::Ge => Some((7u8, 8u8, BinaryOp::Ge, OpClass::Comparison)),
        TokenKind::Pipe => Some((9u8, 10u8, BinaryOp::BitOr, OpClass::Other)),
        TokenKind::Caret => Some((11u8, 12u8, BinaryOp::BitXor, OpClass::Other)),
        TokenKind::Amp => Some((13u8, 14u8, BinaryOp::BitAnd, OpClass::Other)),
        TokenKind::Shl => Some((15u8, 16u8, BinaryOp::Shl, OpClass::Other)),
        TokenKind::Shr => Some((15u8, 16u8, BinaryOp::Shr, OpClass::Other)),
        TokenKind::Plus => Some((17u8, 18u8, BinaryOp::Add, OpClass::Other)),
        TokenKind::Minus => Some((17u8, 18u8, BinaryOp::Sub, OpClass::Other)),
        TokenKind::Star => Some((19u8, 20u8, BinaryOp::Mul, OpClass::Other)),
        TokenKind::Slash => Some((19u8, 20u8, BinaryOp::Div, OpClass::Other)),
        TokenKind::Percent => Some((19u8, 20u8, BinaryOp::Rem, OpClass::Other)),
        _ => None,
    }
}

/// `*`, `/` and `%` share one binding power, `+` and `-` share another,
/// the first is stronger than the second (so `a + b / c` groups as
/// `a + (b / c)` and `a / b + c` as `(a / b) + c`), and all five associate
/// to the left: each binds more tightly on its right than on its left.
pub proof fn lemma_arithmetic_precedence()
    ensures
        binding_power(TokenKind::Star) matches Some((l, r, op, _)) && op == BinaryOp::Mul && r == l + 1,
        binding_power(TokenKind::Slash) matches Some((l, r, op, _)) && op == BinaryOp::Div && r == l + 1,
        binding_power(TokenKind::Percent) matches Some((l, r, op, _)) && op == BinaryOp::Rem && r == l + 1,
        binding_power(TokenKind::Plus) matches Some((l, r, op, _)) && op == BinaryOp::Add && r == l + 1,
        binding_power(TokenKind::Minus) matches Some((l, r, op, _)) && op == BinaryOp::Sub && r == l + 1,
        binding_power(TokenKind::Slash).unwrap().0 == binding_power(TokenKind::Star).unwrap().0,
        binding_power(TokenKind::Percent).unwrap().0 == binding_power(TokenKind::Star).unwrap().0,
        binding_power(TokenKind::Minus).unwrap().0 == binding_power(TokenKind::Plus).unwrap().0,
        binding_power(TokenKind::Star).unwrap().0 > binding_power(TokenKind::Plus).unwrap().1,
{
}

/// The left binding power of an infix token.
pub open spec fn left_power(k: TokenKind) -> int {
    binding_power(k).unwrap().0 as int
}

/// The right binding power of an infix token.
pub open spec fn right_power(k: TokenKind) -> int {
    binding_power(k).unwrap().1 as int
}

/// The whole precedence ladder of infix operators, loosest first:
/// assignments (`=`, `+=`, `-=`, `*=`, `/=`, `%=`), `or`, `and`, comparisons
/// (`==`, `!=`, `<`, `>`, `<=`, `>=`), `|`, `^`, `&`, shifts (`<<`, `>>`),
/// `+ -`, and `* / %`. Operators on one rung share their binding power;
/// each rung binds more tightly than every operand the rung below takes on
/// its right; assignments associate to the right and all others to the left;
/// comparisons are marked as such, assignments as assignments.
pub proof fn lemma_precedence_ladder()
    ensures
        ({
            let assign = seq![TokenKind::Eq, TokenKind::PlusEq, TokenKind::MinusEq, TokenKind::StarEq, TokenKind::SlashEq, TokenKind::PercentEq];
            let cmp = seq![TokenKind::EqEq, TokenKind::BangEq, TokenKind::Lt, TokenKind::Gt, TokenKind::Le, TokenKind::Ge];
            let rungs = seq![
                assign,
                seq![TokenKind::Or],
                seq![TokenKind::And],
                cmp,
                seq![TokenKind::Pipe],
                seq![TokenKind::Caret],
                seq![TokenKind::Amp],
                seq![TokenKind::Shl, TokenKind::Shr],
                seq![TokenKind::Plus, TokenKind::Minus],
                seq![TokenKind::Star, TokenKind::Slash, TokenKind::Percent]
            ];
            &&& forall|i: int, j: int| 0 <= i < rungs.len() && 0 <= j < rungs[i].len() ==> binding_power(#[trigger] rungs[i][j]) is Some
            &&& forall|i: int, j: int| 0 <= i < rungs.len() && 0 <= j < rungs[i].len() ==> left_power(#[trigger] rungs[i][j]) == left_power(rungs[i][0])
            &&& forall|i: int| 0 < i < rungs.len() ==> left_power(#[trigger] rungs[i][0]) > right_power(rungs[i - 1][0])
            &&& forall|j: int| 0 <= j < assign.len() ==> right_power(#[trigger] assign[j]) < left_power(assign[j])
                && binding_power(assign[j]).unwrap().3 == OpClass::Assignment
            &&& forall|i: int, j: int| 0 < i < rungs.len() && 0 <= j < rungs[i].len() ==> right_power(#[trigger] rungs[i][j]) == left_power(rungs[i][j]) + 1
            &&& forall|j: int| 0 <= j < cmp.len() ==> binding_power(#[trigger] cmp[j]).unwrap().3 == OpClass::Comparison
        }),
{
    let assign = seq![TokenKind::Eq, TokenKind::PlusEq, TokenKind::MinusEq, TokenKind::StarEq, TokenKind::SlashEq, TokenKind::PercentEq];
    let cmp = seq![TokenKind::EqEq, TokenKind::BangEq, TokenKind::Lt, TokenKind::Gt, TokenKind::Le, TokenKind::Ge];
    let rungs = seq![
        assign,
        seq![TokenKind::Or],
        seq![TokenKind::And],
        cmp,
        seq![TokenKind::Pipe],
        seq![TokenKind::Caret],
        seq![TokenKind::Amp],
        seq![TokenKind::Shl, TokenKind::Shr],
        seq![TokenKind::Plus, TokenKind::Minus],
        seq![TokenKind::Star, TokenKind::Slash, TokenKind::Percent]
    ];
    assert(rungs.len() == 10);
    assert forall|i: int, j: int| 0 <= i < rungs.len() && 0 <= j < rungs[i].len() implies {
        &&& binding_power(#[trigger] rungs[i][j]) is Some
        &&& left_power(rungs[i][j]) == left_power(rungs[i][0])
        &&& i > 0 ==> right_power(rungs[i][j]) == left_power(rungs[i][j]) + 1
    } by {
        if i == 0 { assert(rungs[i] == assign); }
        else if i == 1 { assert(rungs[i] == seq![TokenKind::Or]); }
        else if i == 2 { assert(rungs[i] == seq![TokenKind::And]); }
        else if i == 3 { assert(rungs[i] == cmp); }
        else if i == 4 { assert(rungs[i] == seq![TokenKind::Pipe]); }
        else if i == 5 { assert(rungs[i] == seq![TokenKind::Caret]); }
        else if i == 6 { assert(rungs[i] == seq![TokenKind::Amp]); }
        else if i == 7 { assert(rungs[i] == seq![TokenKind::Shl, TokenKind::Shr]); }
        else if i == 8 { assert(rungs[i] == seq![TokenKind::Plus, TokenKind::Minus]); }
        else { assert(rungs[i] == seq![TokenKind::Star, TokenKind::Slash, TokenKind::Percent]); }
    }
    assert forall|i: int| 0 < i < rungs.len() implies left_power(#[trigger] rungs[i][0]) > right_power(rungs[i - 1][0]) by {
        assert(rungs[0][0] == TokenKind::Eq);
        assert(rungs[1][0] == TokenKind::Or);
        assert(rungs[2][0] == TokenKind::And);
        assert(rungs[3][0] == TokenKind::EqEq);
        assert(rungs[4][0] == TokenKind::Pipe);
        assert(rungs[5][0] == TokenKind::Caret);
        assert(rungs[6][0] == TokenKind::Amp);
        assert(rungs[7][0] == TokenKind::Shl);
        assert(rungs[8][0] == TokenKind::Plus);
        assert(rungs[9][0] == TokenKind::Star);
    }
}

/// The operator an additive token (`+`, `-`) stands for.
pub open spec fn additive_op(k: TokenKind) -> Option<BinaryOp> {
    match k {
        TokenKind::Plus => Some(BinaryOp::Add),
        TokenKind::Minus => Some(BinaryOp::Sub),
        _ => None,
    }
}

/// The operator a multiplicative token (`*`, `/`, `%`) stands for.
pub open spec fn multiplicative_op(k: TokenKind) -> Option<BinaryOp> {
    match k {
        TokenKind::Star => Some(BinaryOp::Mul),
        TokenKind::Slash => Some(BinaryOp::Div),
        TokenKind::Percent => Some(BinaryOp::Rem),
        _ => None,
    }
}

/// `e` is the integer literal written by token `i`.
pub open spec fn is_lit_of(e: ExprM, t: Seq<Token>, i: int) -> bool {
    e matches ExprM::IntLit(l) && tk(t, i) == TokenKind::IntLiteral(l.value, l.suffix) && l.span == t[i].span
}

/// `e` applies `op` to a left operand of which `left` holds and a right
/// operand of which `right` holds.
pub open spec fn applies(e: ExprM, op: BinaryOp, left: spec_fn(ExprM) -> bool, right: spec_fn(ExprM) -> bool) -> bool {
    match e {
        ExprM::Binary { op: o, lhs, rhs, .. } => o == op && left(*lhs) && right(*rhs),
        _ => false,
    }
}

/// The expression a successful outcome holds.
pub open spec fn parsed_expr(r: PRes<ExprM>) -> ExprM {
    match r {
        PRes::Parsed(e) => e,
        PRes::Failed(sp, _) => ExprM::Error(NodeId(0), sp),
    }
}

/// An integer literal followed by an operator or the end is an operand by
/// itself.
proof fn lemma_lit_operand(t: Seq<Token>, s: PState)
    requires
        0 <= s.pos,
        tk(t, s.pos) is IntLiteral,
        binding_power(tk(t, s.pos + 1)) is Some || tk(t, s.pos + 1) is Eof,
    ensures
        sp_cast(t, s).0 is Parsed,
        is_lit_of(parsed_expr(sp_cast(t, s).0), t, s.pos),
        sp_cast(t, s).1 == fresh(bumped(s)),
{
    reveal(sp_cast);
    reveal(sp_unary);
    reveal(sp_postfix);
    reveal(sp_primary);
    reveal(sp_int_lit);
    reveal_with_fuel(sp_postfix_loop, 1);
    reveal_with_fuel(sp_cast_loop, 1);
    assert(sp_unary(t, s) == sp_postfix(t, s));
    let s1 = fresh(bumped(s));
    assert(sp_primary(t, s) == sp_int_lit(t, s));
    let e = parsed_expr(sp_int_lit(t, s).0);
    assert(sp_postfix_loop(t, s1, e) == (PRes::Parsed(e), s1));
    assert(sp_cast_loop(t, s1, e) == (PRes::Parsed(e), s1));
}

/// The binary loop at the end of the tokens gives back what it holds.
proof fn lemma_loop_at_end(t: Seq<Token>, s: PState, min_bp: u8, lhs: ExprM)
    requires
        tk(t, s.pos) is Eof,
    ensures
        sp_binary_loop(t, s, min_bp, lhs) == (PRes::Parsed(lhs), s),
{
    reveal_with_fuel(sp_binary_loop, 3);
    reveal_with_fuel(sp_binary, 3);
}

/// A binary expression starts with its first operand.
proof fn lemma_binary_unfold(t: Seq<Token>, s: PState, min_bp: u8)
    requires
        sp_cast(t, s).0 is Parsed,
        s.pos <= sp_cast(t, s).1.pos <= t.len(),
    ensures
        sp_binary(t, s, min_bp) == sp_binary_loop(t, sp_cast(t, s).1, min_bp, parsed_expr(sp_cast(t, s).0)),
{
    reveal_with_fuel(sp_binary, 1);
    reveal_with_fuel(sp_binary_loop, 1);
    reveal_with_fuel(sp_cast, 1);
}

/// An operator binding less tightly than `min_bp` ends the loop.
proof fn lemma_loop_stop(t: Seq<Token>, s: PState, min_bp: u8, lhs: ExprM)
    requires
        binding_power(tk(t, s.pos)) matches Some((l, _, _, _)) && l < min_bp,
    ensures
        sp_binary_loop(t, s, min_bp, lhs) == (PRes::Parsed(lhs), s),
{
    reveal_with_fuel(sp_binary_loop, 1);
}

/// An arithmetic operator binding at least as tightly as `min_bp` takes
/// the operand parsed after it at its right binding power.
proof fn lemma_loop_take(t: Seq<Token>, s: PState, min_bp: u8, lhs: ExprM)
    requires
        0 <= s.pos,
        binding_power(tk(t, s.pos)) matches Some((l, _, _, c)) && l >= min_bp && c == OpClass::Other,
        sp_binary(t, bumped(s), binding_power(tk(t, s.pos)).unwrap().1).0 is Parsed,
        s.pos + 1 <= sp_binary(t, bumped(s), binding_power(tk(t, s.pos)).unwrap().1).1.pos <= t.len(),
    ensures
        ({
            let (_, r, op, _) = binding_power(tk(t, s.pos)).unwrap();
            let (rr, s2) = sp_binary(t, bumped(s), r);
            let rhs = parsed_expr(rr);
            sp_binary_loop(t, s, min_bp, lhs) == sp_binary_loop(
                t,
                fresh(s2),
                min_bp,
                ExprM::Binary {
                    id: NodeId(s2.nid),
                    span: expr_m_span(lhs).spec_merge(expr_m_span(rhs)),
                    op,
                    lhs: Box::new(lhs),
                    rhs: Box::new(rhs),
                },
            )
        }),
{
    reveal_with_fuel(sp_binary_loop, 1);
    reveal_with_fuel(sp_binary, 1);
    reveal_with_fuel(sp_cast, 1);
}

/// An expression that starts with an integer literal and whose binary part
/// is followed by no range operator is that binary part.
proof fn lemma_expr_is_binary(t: Seq<Token>, s: PState)
    requires
        0 <= s.pos,
        tk(t, s.pos) is IntLiteral,
        sp_binary(t, s, 0).0 is Parsed,
        s.pos <= sp_binary(t, s, 0).1.pos <= t.len(),
        tk(t, sp_binary(t, s, 0).1.pos) is Eof,
    ensures
        sp_expr(t, s) == sp_binary(t, s, 0),
{
    reveal_with_fuel(sp_expr, 1);
    reveal_with_fuel(sp_range, 1);
    reveal_with_fuel(sp_binary, 1);
    assert(sp_range(t, s) == sp_binary(t, s, 0));
}

/// How three integer literals joined by two arithmetic operators group,
/// read as a whole expression: `*`, `/` and `%` bind more tightly than `+`
/// and `-` (`a + b / c` is `a + (b / c)`, `a / b + c` is `(a / b) + c`),
/// and operators of one level associate to the left (`a - b + c` is
/// `(a - b) + c`, `a / b * c` is `(a / b) * c`).
pub proof fn lemma_arithmetic_grouping(t: Seq<Token>, s: PState)
    requires
        0 <= s.pos,
        s.pos + 5 <= t.len(),
        tk(t, s.pos) is IntLiteral,
        tk(t, s.pos + 2) is IntLiteral,
        tk(t, s.pos + 4) is IntLiteral,
        additive_op(tk(t, s.pos + 1)) is Some || multiplicative_op(tk(t, s.pos + 1)) is Some,
        additive_op(tk(t, s.pos + 3)) is Some || multiplicative_op(tk(t, s.pos + 3)) is Some,
        tk(t, s.pos + 5) is Eof,
    ensures
        ({
            let p = s.pos;
            let k1 = tk(t, p + 1);
            let k3 = tk(t, p + 3);
            let op1 = if additive_op(k1) is Some { additive_op(k1).unwrap() } else { multiplicative_op(k1).unwrap() };
            let op3 = if additive_op(k3) is Some { additive_op(k3).unwrap() } else { multiplicative_op(k3).unwrap() };
            let lit0 = |x: ExprM| is_lit_of(x, t, p);
            let lit2 = |x: ExprM| is_lit_of(x, t, p + 2);
            let lit4 = |x: ExprM| is_lit_of(x, t, p + 4);
            &&& sp_expr(t, s).0 is Parsed
            &&& (additive_op(k1) is Some && multiplicative_op(k3) is Some) ==> applies(
                parsed_expr(sp_expr(t, s).0),
                op1,
                lit0,
                |x: ExprM| applies(x, op3, lit2, lit4),
            )
            &&& !(additive_op(k1) is Some && multiplicative_op(k3) is Some) ==> applies(
                parsed_expr(sp_expr(t, s).0),
                op3,
                |x: ExprM| applies(x, op1, lit0, lit2),
                lit4,
            )
        }),
{
    let p = s.pos;
    let k1 = tk(t, p + 1);
    let k3 = tk(t, p + 3);
    let b1 = binding_power(k1).unwrap();
    let b3 = binding_power(k3).unwrap();
    lemma_lit_operand(t, s);
    let s1 = fresh(bumped(s));
    let l0 = parsed_expr(sp_cast(t, s).0);
    let sa = bumped(s1);
    lemma_lit_operand(t, sa);
    let s2 = fresh(bumped(sa));
    let l2 = parsed_expr(sp_cast(t, sa).0);
    lemma_binary_unfold(t, s, 0);
    lemma_binary_unfold(t, sa, b1.1);
    let result;
    if additive_op(k1) is Some && multiplicative_op(k3) is Some {
        // `a + b * c`: the right operand of `+` takes the whole product
        let sb = bumped(s2);
        lemma_lit_operand(t, sb);
        let s3 = fresh(bumped(sb));
        let l4 = parsed_expr(sp_cast(t, sb).0);
        lemma_binary_unfold(t, sb, b3.1);
        lemma_loop_at_end(t, s3, b3.1, l4);
        lemma_loop_take(t, s2, b1.1, l2);
        let inner = ExprM::Binary {
            id: NodeId(s3.nid),
            span: expr_m_span(l2).spec_merge(expr_m_span(l4)),
            op: b3.2,
            lhs: Box::new(l2),
            rhs: Box::new(l4),
        };
        lemma_loop_at_end(t, fresh(s3), b1.1, inner);
        lemma_loop_take(t, s1, 0, l0);
        let outer = ExprM::Binary {
            id: NodeId(fresh(s3).nid),
            span: expr_m_span(l0).spec_merge(expr_m_span(inner)),
            op: b1.2,
            lhs: Box::new(l0),
            rhs: Box::new(inner),
        };
        lemma_loop_at_end(t, fresh(fresh(s3)), 0, outer);
        result = (PRes::Parsed(outer), fresh(fresh(s3)));
    } else {
        // the first operator takes only the middle literal
        lemma_loop_stop(t, s2, b1.1, l2);
        lemma_loop_take(t, s1, 0, l0);
        let first = ExprM::Binary {
            id: NodeId(s2.nid),
            span: expr_m_span(l0).spec_merge(expr_m_span(l2)),
            op: b1.2,
            lhs: Box::new(l0),
            rhs: Box::new(l2),
        };
        let sc = bumped(fresh(s2));
        lemma_lit_operand(t, sc);
        let s3 = fresh(bumped(sc));
        let l4 = parsed_expr(sp_cast(t, sc).0);
        lemma_binary_unfold(t, sc, b3.1);
        lemma_loop_at_end(t, s3, b3.1, l4);
        lemma_loop_take(t, fresh(s2), 0, first);
        let whole = ExprM::Binary {
            id: NodeId(s3.nid),
            span: expr_m_span(first).spec_merge(expr_m_span(l4)),
            op: b3.2,
            lhs: Box::new(first),
            rhs: Box::new(l4),
        };
        lemma_loop_at_end(t, fresh(s3), 0, whole);
        result = (PRes::Parsed(whole), fresh(s3));
    }
    assert(sp_binary(t, s, 0) == result);
    lemma_expr_is_binary(t, s);
}

/// The token is the identifier `word`.
pub open spec fn is_word(k: TokenKind, word: Seq<char>) -> bool {
    k matches TokenKind::Ident(s) && s@ == word
}

/// Whether `kind` is the identifier `word`.
pub(crate) fn ident_is(kind: &TokenKind, word: &str) -> (b: bool)
    ensures
        b == is_word(*kind, word@),
{
    match kind {
        TokenKind::Ident(s) => {
            let w = String::from_str(word);
            *s == w
        },
        _ => false,
    }
}

/// `what` was expected at `i`, in the expression parser's words.
pub open spec fn unexpected_at<T>(t: Seq<Token>, i: int, what: Seq<char>) -> PRes<T> {
    PRes::Failed(span_at(t, i), unexpected_msg(what, tk(t, i)))
}

/// `r` is the outcome `m`: an expression with model `m`'s value, or the
/// diagnostic `m` describes.
pub open spec fn expr_holds(r: Result<Expr, CompileError>, m: PRes<ExprM>) -> bool {
    match m {
        PRes::Parsed(x) => r matches Ok(v) && expr_model(v) == x,
        PRes::Failed(sp, msg) => r matches Err(e) && is_syntax_error(e, sp, msg),
    }
}

/// `a` and `b` are ordered positions within the tokens: `a <= b <= len`.
pub open spec fn within(t: Seq<Token>, a: PState, b: PState) -> bool {
    a.pos <= b.pos <= t.len()
}

/// A diagnostic that no parse produces; it stands in branches that cannot
/// be reached because every successful step moves forward.
pub open spec fn unreachable_step<T>(t: Seq<Token>, s: PState) -> (PRes<T>, PState) {
    (PRes::Failed(span_at(t, s.pos), Seq::empty()), s)
}

/// What parsing an integer literal at `s` gives.
#[verifier::opaque]
pub open spec fn sp_int_lit(t: Seq<Token>, s: PState) -> (PRes<ExprM>, PState) {
    match tk(t, s.pos) {
        TokenKind::IntLiteral(v, x) => (
            PRes::Parsed(ExprM::IntLit(IntLit { id: NodeId(s.nid), span: t[s.pos].span, value: v, suffix: x })),
            fresh(bumped(s)),
        ),
        _ => (unexpected_at(t, s.pos, "integer literal"@), s),
    }
}

/// What parsing a float literal at `s` gives.
#[verifier::opaque]
pub open spec fn sp_float_lit(t: Seq<Token>, s: PState) -> (PRes<ExprM>, PState) {
    match tk(t, s.pos) {
        TokenKind::FloatLiteral(v, x) => (
            PRes::Parsed(ExprM::FloatLit(FloatLit { id: NodeId(s.nid), span: t[s.pos].span, value: v, suffix: x })),
            fresh(bumped(s)),
        ),
        _ => (unexpected_at(t, s.pos, "float literal"@), s),
    }
}

/// What parsing a character literal at `s` gives.
#[verifier::opaque]
pub open spec fn sp_char_lit(t: Seq<Token>, s: PState) -> (PRes<ExprM>, PState) {
    match tk(t, s.pos) {
        TokenKind::CharLiteral(c) => (
            PRes::Parsed(ExprM::CharLit(CharLit { id: NodeId(s.nid), span: t[s.pos].span, value: c })),
            fresh(bumped(s)),
        ),
        _ => (unexpected_at(t, s.pos, "char literal"@), s),
    }
}

/// What parsing a string literal at `s` gives.
#[verifier::opaque]
pub open spec fn sp_str_lit(t: Seq<Token>, s: PState) -> (PRes<ExprM>, PState) {
    match tk(t, s.pos) {
        TokenKind::StringLiteral(v) => (
            PRes::Parsed(ExprM::StrLit { id: NodeId(s.nid), span: t[s.pos].span, value: v@ }),
            fresh(bumped(s)),
        ),
        TokenKind::RawStringLiteral(v) => (
            PRes::Parsed(ExprM::StrLit { id: NodeId(s.nid), span: t[s.pos].span, value: v@ }),
            fresh(bumped(s)),
        ),
        _ => (unexpected_at(t, s.pos, "string literal"@), s),
    }
}

/// What parsing `true` or `false` at `s` gives.
#[verifier::opaque]
pub open spec fn sp_bool_lit(t: Seq<Token>, s: PState) -> (PRes<ExprM>, PState) {
    match tk(t, s.pos) {
        TokenKind::True => (
            PRes::Parsed(ExprM::BoolLit(BoolLit { id: NodeId(s.nid), span: t[s.pos].span, value: true })),
            fresh(bumped(s)),
        ),
        TokenKind::False => (
            PRes::Parsed(ExprM::BoolLit(BoolLit { id: NodeId(s.nid), span: t[s.pos].span, value: false })),
            fresh(bumped(s)),
        ),
        _ => (unexpected_at(t, s.pos, "`true` or `false`"@), s),
    }
}

/// Closing a tuple at `s`: `)` ends it.
#[verifier::opaque]
pub open spec fn close_tuple(t: Seq<Token>, s: PState, elems: Seq<ExprM>, open: Span) -> (PRes<ExprM>, PState) {
    if tk(t, s.pos) is RParen {
        (
            PRes::Parsed(ExprM::TupleLit { id: NodeId(s.nid), span: open.spec_merge(t[s.pos].span), elems }),
            fresh(bumped(s)),
        )
    } else {
        (expected_at(t, s.pos, TokenKind::RParen), s)
    }
}

/// The rest of a tuple from `s`, `elems` already parsed.
#[verifier::opaque]
pub open spec fn sp_tuple_rest(t: Seq<Token>, s: PState, elems: Seq<ExprM>, open: Span) -> (PRes<ExprM>, PState)
    decreases t.len() - s.pos,
{
    if tk(t, s.pos) is RParen || tk(t, s.pos) is Eof {
        close_tuple(t, s, elems, open)
    } else {
        let (r, s1) = sp_primary(t, s);
        match r {
            PRes::Failed(a, b) => (PRes::Failed(a, b), s1),
            PRes::Parsed(e) => if !within(t, s, s1) {
                unreachable_step(t, s1)
            } else if tk(t, s1.pos) is Comma {
                sp_tuple_rest(t, bumped(s1), elems.push(e), open)
            } else {
                close_tuple(t, s1, elems.push(e), open)
            },
        }
    }
}

/// What parsing `()`, `(e)` or `(e, ...)` at `s` gives.
#[verifier::opaque]
pub open spec fn sp_paren_or_tuple(t: Seq<Token>, s: PState) -> (PRes<ExprM>, PState) {
    if !(tk(t, s.pos) is LParen) {
        (unexpected_at(t, s.pos, "`(`"@), s)
    } else {
        let open = t[s.pos].span;
        let s1 = bumped(s);
        if tk(t, s1.pos) is RParen {
            (
                PRes::Parsed(ExprM::TupleLit { id: NodeId(s1.nid), span: open.spec_merge(t[s1.pos].span), elems: Seq::empty() }),
                fresh(bumped(s1)),
            )
        } else {
            let (r, s2) = sp_primary(t, s1);
            match r {
                PRes::Failed(a, b) => (PRes::Failed(a, b), s2),
                PRes::Parsed(first) => if !within(t, s1, s2) {
                    unreachable_step(t, s2)
                } else if tk(t, s2.pos) is RParen {
                    (PRes::Parsed(first), bumped(s2))
                } else if tk(t, s2.pos) is Comma {
                    sp_tuple_rest(t, bumped(s2), seq![first], open)
                } else {
                    (unexpected_at(t, s2.pos, "`,` or `)`"@), s2)
                },
            }
        }
    }
}

/// Closing an array at `s`: `]` ends it.
#[verifier::opaque]
pub open spec fn close_array(t: Seq<Token>, s: PState, elems: Seq<ExprM>, open: Span) -> (PRes<ExprM>, PState) {
    if tk(t, s.pos) is RBracket {
        (
            PRes::Parsed(ExprM::ArrayLit { id: NodeId(s.nid), span: open.spec_merge(t[s.pos].span), elems }),
            fresh(bumped(s)),
        )
    } else {
        (expected_at(t, s.pos, TokenKind::RBracket), s)
    }
}

/// The rest of an array from `s`, `elems` already parsed.
#[verifier::opaque]
pub open spec fn sp_array_rest(t: Seq<Token>, s: PState, elems: Seq<ExprM>, open: Span) -> (PRes<ExprM>, PState)
    decreases t.len() - s.pos, 11nat,
{
    if tk(t, s.pos) is RBracket || tk(t, s.pos) is Eof {
        close_array(t, s, elems, open)
    } else {
        let (r, s1) = sp_expr(t, s);
        match r {
            PRes::Failed(a, b) => (PRes::Failed(a, b), s1),
            PRes::Parsed(e) => if !within(t, s, s1) {
                unreachable_step(t, s1)
            } else if tk(t, s1.pos) is Comma {
                sp_array_rest(t, bumped(s1), elems.push(e), open)
            } else {
                close_array(t, s1, elems.push(e), open)
            },
        }
    }
}

/// What parsing `[]`, `[e, ...]` or `[value; count]` at `s` gives.
#[verifier::opaque]
pub open spec fn sp_array(t: Seq<Token>, s: PState) -> (PRes<ExprM>, PState)
    decreases t.len() - s.pos, 0nat,
{
    if !(tk(t, s.pos) is LBracket) {
        (unexpected_at(t, s.pos, "`[`"@), s)
    } else {
        let open = t[s.pos].span;
        let s1 = bumped(s);
        if tk(t, s1.pos) is RBracket {
            (
                PRes::Parsed(ExprM::ArrayLit { id: NodeId(s1.nid), span: open.spec_merge(t[s1.pos].span), elems: Seq::empty() }),
                fresh(bumped(s1)),
            )
        } else {
            let (r, s2) = sp_expr(t, s1);
            match r {
                PRes::Failed(a, b) => (PRes::Failed(a, b), s2),
                PRes::Parsed(first) => if !within(t, s1, s2) {
                    unreachable_step(t, s2)
                } else if tk(t, s2.pos) is Semi {
                    let (rc, s3) = sp_expr(t, bumped(s2));
                    match rc {
                        PRes::Failed(a, b) => (PRes::Failed(a, b), s3),
                        PRes::Parsed(count) => if tk(t, s3.pos) is RBracket {
                            (
                                PRes::Parsed(ExprM::ArrayRepeat {
                                    id: NodeId(s3.nid),
                                    span: open.spec_merge(t[s3.pos].span),
                                    value: Box::new(first),
                                    count: Box::new(count),
                                }),
                                fresh(bumped(s3)),
                            )
                        } else {
                            (expected_at(t, s3.pos, TokenKind::RBracket), s3)
                        },
                    }
                } else if tk(t, s2.pos) is Comma {
                    sp_array_rest(t, bumped(s2), seq![first], open)
                } else if tk(t, s2.pos) is RBracket {
                    (
                        PRes::Parsed(ExprM::ArrayLit { id: NodeId(s2.nid), span: open.spec_merge(t[s2.pos].span), elems: seq![first] }),
                        fresh(bumped(s2)),
                    )
                } else {
                    (unexpected_at(t, s2.pos, "`,`, `;`, or `]`"@), s2)
                },
            }
        }
    }
}

/// What parsing an expression at `s` gives.
#[verifier::opaque]
pub open spec fn sp_expr(t: Seq<Token>, s: PState) -> (PRes<ExprM>, PState)
    decreases t.len() - s.pos, 9nat,
{
    if tk(t, s.pos) is Pipe {
        sp_closure(t, s)
    } else if is_word(tk(t, s.pos), "move"@) && tk(t, s.pos + 1) is Pipe {
        sp_closure(t, s)
    } else {
        sp_range(t, s)
    }
}

/// What parsing one closure parameter at `s` gives.
#[verifier::opaque]
pub open spec fn sp_closure_param(t: Seq<Token>, s: PState) -> (PRes<ClosureParam>, PState) {
    if !(tk(t, s.pos) is Ident) {
        (unexpected_at(t, s.pos, "identifier"@), s)
    } else {
        let s1 = bumped(s);
        if tk(t, s1.pos) is Colon {
            let s2 = bumped(s1);
            if tk(t, s2.pos) is Ident || tk(t, s2.pos) is SelfUpper {
                (PRes::Parsed(ClosureParam::Placeholder), bumped(s2))
            } else {
                (unexpected_at(t, s2.pos, "type after `:`"@), s2)
            }
        } else {
            (PRes::Parsed(ClosureParam::Placeholder), s1)
        }
    }
}

/// The closure parameters from `s` up to the closing `|`, `acc` already
/// parsed.
#[verifier::opaque]
pub open spec fn sp_closure_params(t: Seq<Token>, s: PState, acc: Seq<ClosureParam>) -> (PRes<Seq<ClosureParam>>, PState)
    decreases t.len() - s.pos,
{
    if tk(t, s.pos) is Pipe || tk(t, s.pos) is Eof {
        (PRes::Parsed(acc), s)
    } else {
        let (r, s1) = sp_closure_param(t, s);
        match r {
            PRes::Failed(a, b) => (PRes::Failed(a, b), s1),
            PRes::Parsed(p) => if !within(t, s, s1) {
                unreachable_step(t, s1)
            } else if tk(t, s1.pos) is Comma {
                sp_closure_params(t, bumped(s1), acc.push(p))
            } else {
                (PRes::Parsed(acc.push(p)), s1)
            },
        }
    }
}

/// The body of a closure at `s`, and the closure built from it.
#[verifier::opaque]
pub open spec fn sp_closure_body(
    t: Seq<Token>,
    s: PState,
    start: Span,
    params: Seq<ClosureParam>,
    move_kw: bool,
) -> (PRes<ExprM>, PState)
    decreases t.len() - s.pos, 12nat,
{
    let (r, s1) = if tk(t, s.pos) is LBrace {
        sp_block(t, s)
    } else {
        sp_expr(t, s)
    };
    match r {
        PRes::Failed(a, b) => (PRes::Failed(a, b), s1),
        PRes::Parsed(body) => (
            PRes::Parsed(ExprM::Closure {
                id: NodeId(s1.nid),
                span: start.spec_merge(expr_m_span(body)),
                params,
                body: Box::new(body),
                move_kw,
            }),
            fresh(s1),
        ),
    }
}

/// What parsing a closure at `s` gives.
#[verifier::opaque]
pub open spec fn sp_closure(t: Seq<Token>, s: PState) -> (PRes<ExprM>, PState)
    decreases t.len() - s.pos, 2nat,
{
    let start = span_at(t, s.pos);
    let move_kw = is_word(tk(t, s.pos), "move"@);
    let s1 = if move_kw { bumped(s) } else { s };
    if !(tk(t, s1.pos) is Pipe) {
        (expected_at(t, s1.pos, TokenKind::Pipe), s1)
    } else {
        let s2 = bumped(s1);
        let (rp, s3) = sp_closure_params(t, s2, Seq::empty());
        match rp {
            PRes::Failed(a, b) => (PRes::Failed(a, b), s3),
            PRes::Parsed(params) => if !within(t, s2, s3) {
                unreachable_step(t, s3)
            } else if !(tk(t, s3.pos) is Pipe) {
                (expected_at(t, s3.pos, TokenKind::Pipe), s3)
            } else {
                let s4 = bumped(s3);
                if tk(t, s4.pos) is Arrow {
                    let s5 = bumped(s4);
                    if tk(t, s5.pos) is Ident || tk(t, s5.pos) is SelfUpper {
                        sp_closure_body(t, bumped(s5), start, params, move_kw)
                    } else {
                        (unexpected_at(t, s5.pos, "type after `->`"@), s5)
                    }
                } else {
                    sp_closure_body(t, s4, start, params, move_kw)
                }
            },
        }
    }
}

/// Builds an `if` whose `else` branch, if any, has been parsed.
pub open spec fn if_node(
    s: PState,
    start: Span,
    cond: ExprM,
    branch: ExprM,
    else_branch: Option<Box<ExprM>>,
) -> (PRes<ExprM>, PState) {
    let end_span = match else_branch {
        Some(b) => expr_m_span(*b),
        None => expr_m_span(branch),
    };
    (
        PRes::Parsed(ExprM::If {
            id: NodeId(s.nid),
            span: start.spec_merge(end_span),
            cond: Box::new(cond),
            then: Box::new(branch),
            else_branch,
        }),
        fresh(s),
    )
}

/// What parsing an `if` at `s` gives.
#[verifier::opaque]
pub open spec fn sp_if(t: Seq<Token>, s: PState) -> (PRes<ExprM>, PState)
    decreases t.len() - s.pos, 0nat,
{
    if !(tk(t, s.pos) is If) {
        (expected_at(t, s.pos, TokenKind::If), s)
    } else {
        let start = t[s.pos].span;
        let s1 = bumped(s);
        let (rc, s2) = sp_expr(t, s1);
        match rc {
            PRes::Failed(a, b) => (PRes::Failed(a, b), s2),
            PRes::Parsed(cond) => if !within(t, s1, s2) {
                unreachable_step(t, s2)
            } else {
                let (rt, s3) = sp_block(t, s2);
                match rt {
                    PRes::Failed(a, b) => (PRes::Failed(a, b), s3),
                    PRes::Parsed(branch) => if !within(t, s2, s3) {
                        unreachable_step(t, s3)
                    } else if tk(t, s3.pos) is Else {
                        let s4 = bumped(s3);
                        if tk(t, s4.pos) is If {
                            let (re, s5) = sp_if(t, s4);
                            match re {
                                PRes::Failed(a, b) => (PRes::Failed(a, b), s5),
                                PRes::Parsed(eb) => if_node(s5, start, cond, branch, Some(Box::new(eb))),
                            }
                        } else if tk(t, s4.pos) is LBrace {
                            let (re, s5) = sp_block(t, s4);
                            match re {
                                PRes::Failed(a, b) => (PRes::Failed(a, b), s5),
                                PRes::Parsed(eb) => if_node(s5, start, cond, branch, Some(Box::new(eb))),
                            }
                        } else {
                            (unexpected_at(t, s4.pos, "`{` or `if`"@), s4)
                        }
                    } else {
                        if_node(s3, start, cond, branch, None)
                    },
                }
            },
        }
    }
}

/// Closing a block at `s`: `}` ends it.
#[verifier::opaque]
pub open spec fn close_block(
    t: Seq<Token>,
    s: PState,
    stmts: Seq<StmtM>,
    tail: Option<Box<ExprM>>,
    open: Span,
) -> (PRes<ExprM>, PState) {
    if tk(t, s.pos) is RBrace {
        (
            PRes::Parsed(ExprM::Block(BlockM { id: NodeId(s.nid), span: open.spec_merge(t[s.pos].span), stmts, tail })),
            fresh(bumped(s)),
        )
    } else {
        (expected_at(t, s.pos, TokenKind::RBrace), s)
    }
}

/// The statements of a block from `s`, `stmts` already parsed.  A failed
/// expression becomes an error statement, the parser resumes after the next
/// recovery token, and skips one token more if that did not move it.
#[verifier::opaque]
pub open spec fn sp_block_loop(t: Seq<Token>, s: PState, stmts: Seq<StmtM>, open: Span) -> (PRes<ExprM>, PState)
    decreases t.len() - s.pos, 10nat,
{
    if tk(t, s.pos) is RBrace || tk(t, s.pos) is Eof {
        close_block(t, s, stmts, None, open)
    } else {
        let (r, s1) = sp_expr(t, s);
        match r {
            PRes::Parsed(e) => if !(s.pos < s1.pos <= t.len()) {
                unreachable_step(t, s1)
            } else if tk(t, s1.pos) is Semi {
                sp_block_loop(t, bumped(s1), stmts.push(StmtM::Expr { expr: e, has_semi: true }), open)
            } else if tk(t, s1.pos) is RBrace {
                close_block(t, s1, stmts, Some(Box::new(e)), open)
            } else {
                sp_block_loop(t, s1, stmts.push(StmtM::Expr { expr: e, has_semi: false }), open)
            },
            PRes::Failed(sp, msg) => {
                let p2 = sync_end(t, s1.pos);
                let s2 = fresh(recovered(t, s1, syntax_diag(sp, msg)));
                let stmts2 = stmts.push(StmtM::Expr { expr: ExprM::Error(NodeId(s1.nid), sp), has_semi: true });
                if p2 == s.pos {
                    if tk(t, p2) is RBrace || tk(t, p2) is Eof {
                        close_block(t, s2, stmts2, None, open)
                    } else {
                        sp_block_loop(t, bumped(s2), stmts2, open)
                    }
                } else if !(s.pos < p2 <= t.len()) {
                    unreachable_step(t, s2)
                } else {
                    sp_block_loop(t, s2, stmts2, open)
                }
            },
        }
    }
}

/// What parsing a block at `s` gives.
#[verifier::opaque]
pub open spec fn sp_block(t: Seq<Token>, s: PState) -> (PRes<ExprM>, PState)
    decreases t.len() - s.pos, 0nat,
{
    if !(tk(t, s.pos) is LBrace) {
        (expected_at(t, s.pos, TokenKind::LBrace), s)
    } else {
        sp_block_loop(t, bumped(s), Seq::empty(), t[s.pos].span)
    }
}

/// What parsing a range, or a plain binary expression, at `s` gives.
#[verifier::opaque]
pub open spec fn sp_range(t: Seq<Token>, s: PState) -> (PRes<ExprM>, PState)
    decreases t.len() - s.pos, 8nat,
{
    if tk(t, s.pos) is DotDot || tk(t, s.pos) is DotDotEq {
        let inclusive = tk(t, s.pos) is DotDotEq;
        let op_span = t[s.pos].span;
        let s1 = bumped(s);
        if range_rhs_start(tk(t, s1.pos)) {
            let (re, s2) = sp_binary(t, s1, 0);
            match re {
                PRes::Failed(a, b) => (PRes::Failed(a, b), s2),
                PRes::Parsed(end) => (
                    PRes::Parsed(ExprM::Range {
                        id: NodeId(s2.nid),
                        span: op_span.spec_merge(expr_m_span(end)),
                        start: None,
                        end: Some(Box::new(end)),
                        inclusive,
                    }),
                    fresh(s2),
                ),
            }
        } else {
            (
                PRes::Parsed(ExprM::Range { id: NodeId(s1.nid), span: op_span, start: None, end: None, inclusive }),
                fresh(s1),
            )
        }
    } else {
        let (rl, s1) = sp_binary(t, s, 0);
        match rl {
            PRes::Failed(a, b) => (PRes::Failed(a, b), s1),
            PRes::Parsed(lhs) => if !(tk(t, s1.pos) is DotDot || tk(t, s1.pos) is DotDotEq) {
                (PRes::Parsed(lhs), s1)
            } else if !within(t, s, s1) {
                unreachable_step(t, s1)
            } else {
                let inclusive = tk(t, s1.pos) is DotDotEq;
                let op_span = t[s1.pos].span;
                let s2 = bumped(s1);
                if range_rhs_start(tk(t, s2.pos)) {
                    let (re, s3) = sp_binary(t, s2, 0);
                    match re {
                        PRes::Failed(a, b) => (PRes::Failed(a, b), s3),
                        PRes::Parsed(end) => (
                            PRes::Parsed(ExprM::Range {
                                id: NodeId(s3.nid),
                                span: expr_m_span(lhs).spec_merge(expr_m_span(end)),
                                start: Some(Box::new(lhs)),
                                end: Some(Box::new(end)),
                                inclusive,
                            }),
                            fresh(s3),
                        ),
                    }
                } else {
                    (
                        PRes::Parsed(ExprM::Range {
                            id: NodeId(s2.nid),
                            span: expr_m_span(lhs).spec_merge(op_span),
                            start: Some(Box::new(lhs)),
                            end: None,
                            inclusive,
                        }),
                        fresh(s2),
                    )
                }
            },
        }
    }
}

/// The left side is itself a comparison.
pub open spec fn is_comparison_node(e: ExprM) -> bool {
    e matches ExprM::Binary { op, .. } && is_comparison(op)
}

/// Binary operators from `s` with `lhs` already parsed, by precedence
/// climbing from binding power `min_bp`.
#[verifier::opaque]
pub open spec fn sp_binary_loop(t: Seq<Token>, s: PState, min_bp: u8, lhs: ExprM) -> (PRes<ExprM>, PState)
    decreases t.len() - s.pos, 6nat,
{
    match binding_power(tk(t, s.pos)) {
        None => (PRes::Parsed(lhs), s),
        Some((left_bp, right_bp, op, class)) => if left_bp < min_bp {
            (PRes::Parsed(lhs), s)
        } else if class == OpClass::Comparison && is_comparison_node(lhs) {
            (PRes::Failed(span_at(t, s.pos), "chained comparison operators require parentheses"@), s)
        } else {
            let s1 = bumped(s);
            let (rr, s2) = sp_binary(t, s1, right_bp);
            match rr {
                PRes::Failed(a, b) => (PRes::Failed(a, b), s2),
                PRes::Parsed(rhs) => if !within(t, s1, s2) {
                    unreachable_step(t, s2)
                } else {
                    sp_binary_loop(
                        t,
                        fresh(s2),
                        min_bp,
                        ExprM::Binary {
                            id: NodeId(s2.nid),
                            span: expr_m_span(lhs).spec_merge(expr_m_span(rhs)),
                            op,
                            lhs: Box::new(lhs),
                            rhs: Box::new(rhs),
                        },
                    )
                },
            }
        },
    }
}

/// What parsing binary operators of binding power at least `min_bp` at `s`
/// gives.
#[verifier::opaque]
pub open spec fn sp_binary(t: Seq<Token>, s: PState, min_bp: u8) -> (PRes<ExprM>, PState)
    decreases t.len() - s.pos, 7nat,
{
    let (r, s1) = sp_cast(t, s);
    match r {
        PRes::Failed(a, b) => (PRes::Failed(a, b), s1),
        PRes::Parsed(lhs) => if !within(t, s, s1) {
            unreachable_step(t, s1)
        } else {
            sp_binary_loop(t, s1, min_bp, lhs)
        },
    }
}

/// `as Ty` suffixes from `s`, `lhs` already parsed.
#[verifier::opaque]
pub open spec fn sp_cast_loop(t: Seq<Token>, s: PState, lhs: ExprM) -> (PRes<ExprM>, PState)
    decreases t.len() - s.pos,
{
    if !is_word(tk(t, s.pos), "as"@) {
        (PRes::Parsed(lhs), s)
    } else {
        let s1 = bumped(s);
        if tk(t, s1.pos) is Ident || tk(t, s1.pos) is SelfUpper {
            let s2 = bumped(s1);
            sp_cast_loop(
                t,
                fresh(s2),
                ExprM::Cast { id: NodeId(s2.nid), span: expr_m_span(lhs).spec_merge(t[s1.pos].span), expr: Box::new(lhs) },
            )
        } else {
            (unexpected_at(t, s1.pos, "type after `as`"@), s1)
        }
    }
}

/// What parsing a cast expression at `s` gives.
#[verifier::opaque]
pub open spec fn sp_cast(t: Seq<Token>, s: PState) -> (PRes<ExprM>, PState)
    decreases t.len() - s.pos, 5nat,
{
    let (r, s1) = sp_unary(t, s);
    match r {
        PRes::Failed(a, b) => (PRes::Failed(a, b), s1),
        PRes::Parsed(lhs) => sp_cast_loop(t, s1, lhs),
    }
}

/// What parsing a prefix-operator expression at `s` gives.
#[verifier::opaque]
pub open spec fn sp_unary(t: Seq<Token>, s: PState) -> (PRes<ExprM>, PState)
    decreases t.len() - s.pos, 4nat,
{
    let k = tk(t, s.pos);
    if k is Minus || k is Not || k is Star || k is Amp {
        let op_span = t[s.pos].span;
        let (op, s1) = if k is Minus {
            (UnaryOp::Neg, bumped(s))
        } else if k is Not {
            (UnaryOp::Not, bumped(s))
        } else if k is Star {
            (UnaryOp::Deref, bumped(s))
        } else if tk(t, s.pos + 1) is Mut {
            (UnaryOp::RefMut, bumped(bumped(s)))
        } else {
            (UnaryOp::Ref, bumped(s))
        };
        let (r, s2) = sp_unary(t, s1);
        match r {
            PRes::Failed(a, b) => (PRes::Failed(a, b), s2),
            PRes::Parsed(operand) => (
                PRes::Parsed(ExprM::Unary {
                    id: NodeId(s2.nid),
                    span: op_span.spec_merge(expr_m_span(operand)),
                    op,
                    operand: Box::new(operand),
                }),
                fresh(s2),
            ),
        }
    } else {
        sp_postfix(t, s)
    }
}

/// Closing a call's arguments at `s`: `)` ends them.
#[verifier::opaque]
pub open spec fn close_args(t: Seq<Token>, s: PState, args: Seq<ExprM>) -> (PRes<(Seq<ExprM>, Span)>, PState) {
    if tk(t, s.pos) is RParen {
        (PRes::Parsed((args, t[s.pos].span)), bumped(s))
    } else {
        (expected_at(t, s.pos, TokenKind::RParen), s)
    }
}

/// Call arguments from `s` to the closing `)`, `acc` already parsed: the
/// arguments and the span of the `)`.
#[verifier::opaque]
pub open spec fn sp_args(t: Seq<Token>, s: PState, acc: Seq<ExprM>) -> (PRes<(Seq<ExprM>, Span)>, PState)
    decreases t.len() - s.pos, 13nat,
{
    if tk(t, s.pos) is RParen || tk(t, s.pos) is Eof {
        close_args(t, s, acc)
    } else {
        let (r, s1) = sp_expr(t, s);
        match r {
            PRes::Failed(a, b) => (PRes::Failed(a, b), s1),
            PRes::Parsed(arg) => if !within(t, s, s1) {
                unreachable_step(t, s1)
            } else if tk(t, s1.pos) is Comma {
                sp_args(t, bumped(s1), acc.push(arg))
            } else {
                close_args(t, s1, acc.push(arg))
            },
        }
    }
}

/// Postfix operations from `s` on `e`: calls, indexing, `?`, method calls,
/// fields and tuple fields.
#[verifier::opaque]
pub open spec fn sp_postfix_loop(t: Seq<Token>, s: PState, e: ExprM) -> (PRes<ExprM>, PState)
    decreases t.len() - s.pos, 2nat,
{
    let k = tk(t, s.pos);
    if k is LParen {
        let (ra, s2) = sp_args(t, bumped(s), Seq::empty());
        match ra {
            PRes::Failed(a, b) => (PRes::Failed(a, b), s2),
            PRes::Parsed((args, close)) => if !within(t, bumped(s), s2) {
                unreachable_step(t, s2)
            } else {
                sp_postfix_loop(
                    t,
                    fresh(s2),
                    ExprM::Call { id: NodeId(s2.nid), span: expr_m_span(e).spec_merge(close), callee: Box::new(e), args },
                )
            },
        }
    } else if k is LBracket {
        let (ri, s2) = sp_expr(t, bumped(s));
        match ri {
            PRes::Failed(a, b) => (PRes::Failed(a, b), s2),
            PRes::Parsed(idx) => if !within(t, bumped(s), s2) {
                unreachable_step(t, s2)
            } else if tk(t, s2.pos) is RBracket {
                let s3 = bumped(s2);
                sp_postfix_loop(
                    t,
                    fresh(s3),
                    ExprM::Index {
                        id: NodeId(s3.nid),
                        span: expr_m_span(e).spec_merge(t[s2.pos].span),
                        receiver: Box::new(e),
                        idx: Box::new(idx),
                    },
                )
            } else {
                (expected_at(t, s2.pos, TokenKind::RBracket), s2)
            },
        }
    } else if k is Question {
        let s1 = bumped(s);
        sp_postfix_loop(
            t,
            fresh(s1),
            ExprM::Try { id: NodeId(s1.nid), span: expr_m_span(e).spec_merge(t[s.pos].span), expr: Box::new(e) },
        )
    } else if k is Dot {
        let s1 = bumped(s);
        match tk(t, s1.pos) {
            TokenKind::Ident(name) => {
                let ident_span = t[s1.pos].span;
                let s2 = bumped(s1);
                if tk(t, s2.pos) is LParen {
                    let (ra, s3) = sp_args(t, bumped(s2), Seq::empty());
                    match ra {
                        PRes::Failed(a, b) => (PRes::Failed(a, b), s3),
                        PRes::Parsed((args, close)) => if !within(t, bumped(s2), s3) {
                            unreachable_step(t, s3)
                        } else {
                            sp_postfix_loop(
                                t,
                                fresh(s3),
                                ExprM::MethodCall {
                                    id: NodeId(s3.nid),
                                    span: expr_m_span(e).spec_merge(close),
                                    receiver: Box::new(e),
                                    method: name@,
                                    args,
                                    generic_args: Seq::empty(),
                                },
                            )
                        },
                    }
                } else {
                    sp_postfix_loop(
                        t,
                        fresh(s2),
                        ExprM::Field { id: NodeId(s2.nid), span: expr_m_span(e).spec_merge(ident_span), receiver: Box::new(e), name: name@ },
                    )
                }
            },
            TokenKind::IntLiteral(v, _) => {
                let lit_span = t[s1.pos].span;
                let s2 = bumped(s1);
                if v > 0xFFFF_FFFFu64 {
                    (PRes::Failed(lit_span, "tuple field index exceeds u32::MAX"@), s2)
                } else {
                    sp_postfix_loop(
                        t,
                        fresh(s2),
                        ExprM::TupleField {
                            id: NodeId(s2.nid),
                            span: expr_m_span(e).spec_merge(lit_span),
                            receiver: Box::new(e),
                            idx: v as u32,
                        },
                    )
                }
            },
            _ => (unexpected_at(t, s1.pos, "identifier or integer literal"@), s1),
        }
    } else {
        (PRes::Parsed(e), s)
    }
}

/// What parsing a postfix expression at `s` gives.
#[verifier::opaque]
pub open spec fn sp_postfix(t: Seq<Token>, s: PState) -> (PRes<ExprM>, PState)
    decreases t.len() - s.pos, 3nat,
{
    let (r, s1) = sp_primary(t, s);
    match r {
        PRes::Failed(a, b) => (PRes::Failed(a, b), s1),
        PRes::Parsed(e) => if !(s.pos < s1.pos <= t.len()) {
            unreachable_step(t, s1)
        } else {
            sp_postfix_loop(t, s1, e)
        },
    }
}

/// What parsing a primary expression at `s` gives.
#[verifier::opaque]
pub open spec fn sp_primary(t: Seq<Token>, s: PState) -> (PRes<ExprM>, PState)
    decreases t.len() - s.pos, 1nat,
{
    let k = tk(t, s.pos);
    if k is IntLiteral {
        sp_int_lit(t, s)
    } else if k is FloatLiteral {
        sp_float_lit(t, s)
    } else if k is CharLiteral {
        sp_char_lit(t, s)
    } else if k is StringLiteral || k is RawStringLiteral {
        sp_str_lit(t, s)
    } else if k is True || k is False {
        sp_bool_lit(t, s)
    } else if k is LBracket {
        sp_array(t, s)
    } else if k is LBrace {
        sp_block(t, s)
    } else if k is If {
        sp_if(t, s)
    } else {
        (unexpected_at(t, s.pos, "expression"@), s)
    }
}

impl Parser {
    /// The diagnostic for finding the current token where `expected` was
    /// wanted.
    pub(crate) fn unexpected_token_error(&self, expected: &str) -> (e: CompileError)
        requires
            self.eof_ok(),
        ensures
            is_syntax_error(e, self.cur_span(), unexpected_msg(expected@, self.peek_kind())),
    {
        let span = self.current_span();
        let mut message = String::new();
        push_str(&mut message, "expected ");
        push_str(&mut message, expected);
        push_str(&mut message, ", found ");
        push_str(&mut message, describe_kind(self.peek()));
        syntax_error(span, message.as_str())
    }

    /// An integer literal.
    pub fn parse_int_lit(&mut self) -> (r: Result<Expr, CompileError>)
        requires
            old(self).wf(),
        ensures
            final(self).progressed(old(self), r is Ok),
            final(self).errors == old(self).errors,
            expr_holds(r, sp_int_lit(old(self).tokens@, old(self).state()).0),
            final(self).state() == sp_int_lit(old(self).tokens@, old(self).state()).1,
    {
        proof {
            reveal(sp_int_lit);
        }
        let (value, suffix) = match self.peek() {
            TokenKind::IntLiteral(v, s) => (*v, *s),
            _ => {
                return Err(self.unexpected_token_error("integer literal"));
            },
        };
        let tok = self.bump();
        let id = self.new_node_id();
        Ok(Expr::IntLit(IntLit { id, span: tok.span, value, suffix }))
    }

    /// A float literal.
    pub fn parse_float_lit(&mut self) -> (r: Result<Expr, CompileError>)
        requires
            old(self).wf(),
        ensures
            final(self).progressed(old(self), r is Ok),
            final(self).errors == old(self).errors,
            expr_holds(r, sp_float_lit(old(self).tokens@, old(self).state()).0),
            final(self).state() == sp_float_lit(old(self).tokens@, old(self).state()).1,
    {
        proof {
            reveal(sp_float_lit);
        }
        let (value, suffix) = match self.peek() {
            TokenKind::FloatLiteral(v, s) => (*v, *s),
            _ => {
                return Err(self.unexpected_token_error("float literal"));
            },
        };
        let tok = self.bump();
        let id = self.new_node_id();
        Ok(Expr::FloatLit(FloatLit { id, span: tok.span, value, suffix }))
    }

    /// A character literal.
    pub fn parse_char_lit(&mut self) -> (r: Result<Expr, CompileError>)
        requires
            old(self).wf(),
        ensures
            final(self).progressed(old(self), r is Ok),
            final(self).errors == old(self).errors,
            expr_holds(r, sp_char_lit(old(self).tokens@, old(self).state()).0),
            final(self).state() == sp_char_lit(old(self).tokens@, old(self).state()).1,
    {
        proof {
            reveal(sp_char_lit);
        }
        let value = match self.peek() {
            TokenKind::CharLiteral(c) => *c,
            _ => {
                return Err(self.unexpected_token_error("char literal"));
            },
        };
        let tok = self.bump();
        let id = self.new_node_id();
        Ok(Expr::CharLit(CharLit { id, span: tok.span, value }))
    }

    /// A string literal, plain or raw.
    pub fn parse_str_lit(&mut self) -> (r: Result<Expr, CompileError>)
        requires
            old(self).wf(),
        ensures
            final(self).progressed(old(self), r is Ok),
            final(self).errors == old(self).errors,
            expr_holds(r, sp_str_lit(old(self).tokens@, old(self).state()).0),
            final(self).state() == sp_str_lit(old(self).tokens@, old(self).state()).1,
    {
        proof {
            reveal(sp_str_lit);
        }
        let value = match self.peek() {
            TokenKind::StringLiteral(s) => s.clone(),
            TokenKind::RawStringLiteral(s) => s.clone(),
            _ => {
                return Err(self.unexpected_token_error("string literal"));
            },
        };
        let tok = self.bump();
        let id = self.new_node_id();
        Ok(Expr::StrLit(StrLit { id, span: tok.span, value }))
    }

    /// `true` or `false`.
    pub fn parse_bool_lit(&mut self) -> (r: Result<Expr, CompileError>)
        requires
            old(self).wf(),
        ensures
            final(self).progressed(old(self), r is Ok),
            final(self).errors == old(self).errors,
            expr_holds(r, sp_bool_lit(old(self).tokens@, old(self).state()).0),
            final(self).state() == sp_bool_lit(old(self).tokens@, old(self).state()).1,
    {
        proof {
            reveal(sp_bool_lit);
        }
        let value = match self.peek() {
            TokenKind::True => true,
            TokenKind::False => false,
            _ => {
                return Err(self.unexpected_token_error("`true` or `false`"));
            },
        };
        let tok = self.bump();
        let id = self.new_node_id();
        Ok(Expr::BoolLit(BoolLit { id, span: tok.span, value }))
    }

    /// `()`, `(e)` (which is `e` itself), or a tuple `(e, ...)`; the elements
    /// are literals, arrays, blocks or `if`s.
    pub fn parse_paren_or_tuple(&mut self) -> (r: Result<Expr, CompileError>)
        requires
            old(self).wf(),
        ensures
            final(self).progressed(old(self), r is Ok),
            expr_holds(r, sp_paren_or_tuple(old(self).tokens@, old(self).state()).0),
            final(self).state() == sp_paren_or_tuple(old(self).tokens@, old(self).state()).1,
    {
        proof {
            reveal(sp_paren_or_tuple);
        }
        let ghost t = self.tokens@;
        let ghost total = sp_paren_or_tuple(t, self.state());
        if !matches!(self.peek(), TokenKind::LParen) {
            return Err(self.unexpected_token_error("`(`"));
        }
        let lparen_tok = self.bump();
        let lparen_span = lparen_tok.span;

        if matches!(self.peek(), TokenKind::RParen) {
            let rparen_tok = self.bump();
            let id = self.new_node_id();
            proof {
                assert(exprs_model(Seq::<Expr>::empty()) == Seq::<ExprM>::empty());
            }
            return Ok(Expr::TupleLit(TupleLit { id, span: lparen_span.merge(&rparen_tok.span), elems: Vec::new() }));
        }

        let first = self.parse_primary_for_paren()?;

        if matches!(self.peek(), TokenKind::RParen) {
            self.bump();
            Ok(first)
        } else if matches!(self.peek(), TokenKind::Comma) {
            self.bump();
            let mut elems: Vec<Expr> = Vec::new();
            elems.push(first);
            proof {
                lemma_exprs_model_push(Seq::<Expr>::empty(), first);
                assert(Seq::<Expr>::empty().push(first) =~= elems@);
                assert(Seq::<ExprM>::empty().push(expr_model(first)) =~= seq![expr_model(first)]);
            }
            self.parse_tuple_rest(elems, lparen_span)
        } else {
            Err(self.unexpected_token_error("`,` or `)`"))
        }
    }
}

impl Parser {
    /// The rest of a tuple: more elements separated by commas, then `)`.
    fn parse_tuple_rest(&mut self, start: Vec<Expr>, open: Span) -> (r: Result<Expr, CompileError>)
        requires
            old(self).wf(),
        ensures
            final(self).progressed(old(self), false),
            expr_holds(r, sp_tuple_rest(old(self).tokens@, old(self).state(), exprs_model(start@), open).0),
            final(self).state() == sp_tuple_rest(old(self).tokens@, old(self).state(), exprs_model(start@), open).1,
    {
        proof {
            reveal_with_fuel(sp_tuple_rest, 1);
            reveal(close_tuple);
        }
        let ghost t = self.tokens@;
        let ghost total = sp_tuple_rest(t, self.state(), exprs_model(start@), open);
        let mut elems = start;
        loop
            invariant_except_break
                sp_tuple_rest(t, self.state(), exprs_model(elems@), open) == total,
            invariant
                total == sp_tuple_rest(old(self).tokens@, old(self).state(), exprs_model(start@), open),
                self.progressed(old(self), false),
                t == self.tokens@,
            ensures
                close_tuple(t, self.state(), exprs_model(elems@), open) == total,
            decreases self.tokens@.len() - self.pos,
        {
            proof {
                reveal_with_fuel(sp_tuple_rest, 1);
                reveal(close_tuple);
            }
            if matches!(self.peek(), TokenKind::RParen | TokenKind::Eof) {
                break;
            }
            let elem = self.parse_primary_for_paren()?;
            proof {
                lemma_exprs_model_push(elems@, elem);
            }
            elems.push(elem);
            if matches!(self.peek(), TokenKind::Comma) {
                self.bump();
            } else {
                break;
            }
        }
        let rparen_tok = self.expect(&TokenKind::RParen)?;
        let id = self.new_node_id();
        Ok(Expr::TupleLit(TupleLit { id, span: open.merge(&rparen_tok.span), elems }))
    }

    /// The rest of an array: more elements separated by commas, then `]`.
    fn parse_array_rest(&mut self, start: Vec<Expr>, open: Span) -> (r: Result<Expr, CompileError>)
        requires
            old(self).wf(),
        ensures
            final(self).progressed(old(self), false),
            expr_holds(r, sp_array_rest(old(self).tokens@, old(self).state(), exprs_model(start@), open).0),
            final(self).state() == sp_array_rest(old(self).tokens@, old(self).state(), exprs_model(start@), open).1,
        decreases old(self).tokens@.len() - old(self).pos, 11nat,
    {
        proof {
            reveal_with_fuel(sp_array_rest, 1);
            reveal_with_fuel(sp_expr, 1);
            reveal(close_array);
        }
        let ghost t = self.tokens@;
        let ghost total = sp_array_rest(t, self.state(), exprs_model(start@), open);
        let mut elems = start;
        loop
            invariant_except_break
                sp_array_rest(t, self.state(), exprs_model(elems@), open) == total,
            invariant
                total == sp_array_rest(old(self).tokens@, old(self).state(), exprs_model(start@), open),
                self.progressed(old(self), false),
                t == self.tokens@,
            ensures
                close_array(t, self.state(), exprs_model(elems@), open) == total,
            decreases self.tokens@.len() - self.pos,
        {
            proof {
                reveal_with_fuel(sp_array_rest, 1);
                reveal_with_fuel(sp_expr, 1);
                reveal(close_array);
            }
            if matches!(self.peek(), TokenKind::RBracket | TokenKind::Eof) {
                break;
            }
            let elem = self.parse_expr()?;
            proof {
                lemma_exprs_model_push(elems@, elem);
            }
            elems.push(elem);
            if matches!(self.peek(), TokenKind::Comma) {
                self.bump();
            } else {
                break;
            }
        }
        let rbracket_tok = self.expect(&TokenKind::RBracket)?;
        let id = self.new_node_id();
        Ok(Expr::ArrayLit(ArrayLit { id, span: open.merge(&rbracket_tok.span), elems }))
    }

    /// `[]`, `[e, ...]` or `[value; count]`.
    #[verifier::rlimit(80)]
    fn parse_array_literal(&mut self) -> (r: Result<Expr, CompileError>)
        requires
            old(self).wf(),
        ensures
            final(self).progressed(old(self), r is Ok),
            expr_holds(r, sp_array(old(self).tokens@, old(self).state()).0),
            final(self).state() == sp_array(old(self).tokens@, old(self).state()).1,
        decreases old(self).tokens@.len() - old(self).pos, 0nat,
    {
        proof {
            reveal_with_fuel(sp_array, 1);
            reveal_with_fuel(sp_expr, 1);
            reveal_with_fuel(sp_array_rest, 1);
        }
        let ghost t = self.tokens@;
        let ghost total = sp_array(t, self.state());
        if !matches!(self.peek(), TokenKind::LBracket) {
            return Err(self.unexpected_token_error("`[`"));
        }
        let lbracket_tok = self.bump();
        let lbracket_span = lbracket_tok.span;

        if matches!(self.peek(), TokenKind::RBracket) {
            let rbracket_tok = self.bump();
            let id = self.new_node_id();
            proof {
                assert(exprs_model(Seq::<Expr>::empty()) == Seq::<ExprM>::empty());
            }
            return Ok(Expr::ArrayLit(ArrayLit { id, span: lbracket_span.merge(&rbracket_tok.span), elems: Vec::new() }));
        }

        let first = self.parse_expr()?;

        if matches!(self.peek(), TokenKind::Semi) {
            self.bump();
            let count = self.parse_expr()?;
            let rbracket_tok = self.expect(&TokenKind::RBracket)?;
            let id = self.new_node_id();
            Ok(Expr::ArrayRepeat(ArrayRepeat {
                id,
                span: lbracket_span.merge(&rbracket_tok.span),
                value: Box::new(first),
                count: Box::new(count),
            }))
        } else if matches!(self.peek(), TokenKind::Comma) {
            self.bump();
            let mut elems: Vec<Expr> = Vec::new();
            elems.push(first);
            proof {
                lemma_exprs_model_push(Seq::<Expr>::empty(), first);
                assert(Seq::<Expr>::empty().push(first) =~= elems@);
                assert(Seq::<ExprM>::empty().push(expr_model(first)) =~= seq![expr_model(first)]);
            }
            self.parse_array_rest(elems, lbracket_span)
        } else if matches!(self.peek(), TokenKind::RBracket) {
            let rbracket_tok = self.bump();
            let id = self.new_node_id();
            let mut elems: Vec<Expr> = Vec::new();
            elems.push(first);
            proof {
                lemma_exprs_model_push(Seq::<Expr>::empty(), first);
                assert(Seq::<Expr>::empty().push(first) =~= elems@);
                assert(Seq::<ExprM>::empty().push(expr_model(first)) =~= seq![expr_model(first)]);
            }
            Ok(Expr::ArrayLit(ArrayLit { id, span: lbracket_span.merge(&rbracket_tok.span), elems }))
        } else {
            Err(self.unexpected_token_error("`,`, `;`, or `]`"))
        }
    }

    /// An expression: a closure, or a range over binary operations.
    pub fn parse_expr(&mut self) -> (r: Result<Expr, CompileError>)
        requires
            old(self).wf(),
        ensures
            final(self).progressed(old(self), r is Ok),
            expr_holds(r, sp_expr(old(self).tokens@, old(self).state()).0),
            final(self).state() == sp_expr(old(self).tokens@, old(self).state()).1,
        decreases old(self).tokens@.len() - old(self).pos, 9nat,
    {
        proof {
            reveal_with_fuel(sp_expr, 1);
            reveal_with_fuel(sp_closure, 1);
            reveal_with_fuel(sp_range, 1);
        }
        if matches!(self.peek(), TokenKind::Pipe) {
            return self.parse_closure();
        }
        if ident_is(self.peek(), "move") && matches!(self.peek_at(1), TokenKind::Pipe) {
            return self.parse_closure();
        }
        self.parse_range()
    }

    /// `move |params| -> Ty body`, the `move`, the return type and the
    /// parameter types optional.
    fn parse_closure(&mut self) -> (r: Result<Expr, CompileError>)
        requires
            old(self).wf(),
        ensures
            final(self).progressed(old(self), r is Ok),
            expr_holds(r, sp_closure(old(self).tokens@, old(self).state()).0),
            final(self).state() == sp_closure(old(self).tokens@, old(self).state()).1,
        decreases old(self).tokens@.len() - old(self).pos, 2nat,
    {
        proof {
            reveal_with_fuel(sp_closure, 1);
            reveal_with_fuel(sp_closure_body, 1);
            reveal_with_fuel(sp_block, 1);
            reveal_with_fuel(sp_expr, 1);
        }
        let ghost t = self.tokens@;
        let ghost s0 = self.state();
        let start_span = self.current_span();

        let move_kw = if ident_is(self.peek(), "move") {
            self.bump();
            true
        } else {
            false
        };

        self.expect(&TokenKind::Pipe)?;

        let params = self.parse_closure_params()?;

        self.expect(&TokenKind::Pipe)?;

        if matches!(self.peek(), TokenKind::Arrow) {
            self.bump();
            if matches!(self.peek(), TokenKind::Ident(_) | TokenKind::SelfUpper) {
                self.bump();
            } else {
                return Err(self.unexpected_token_error("type after `->`"));
            }
        }

        let body = if matches!(self.peek(), TokenKind::LBrace) {
            self.parse_block()?
        } else {
            self.parse_expr()?
        };

        proof {
            lemma_expr_model_span(body);
        }
        let span = start_span.merge(&body.span());
        let id = self.new_node_id();
        Ok(Expr::Closure(Closure { id, span, params, body: Box::new(body), move_kw }))
    }

    /// Closure parameters separated by commas, up to the closing `|`.
    fn parse_closure_params(&mut self) -> (r: Result<Vec<ClosureParam>, CompileError>)
        requires
            old(self).wf(),
        ensures
            final(self).progressed(old(self), false),
            ({
                let (m, s) = sp_closure_params(old(self).tokens@, old(self).state(), Seq::empty());
                &&& final(self).state() == s
                &&& match m {
                    PRes::Parsed(ps) => r matches Ok(v) && v@ == ps,
                    PRes::Failed(sp, msg) => r matches Err(e) && is_syntax_error(e, sp, msg),
                }
            }),
    {
        proof {
            reveal_with_fuel(sp_closure_params, 1);
        }
        let ghost t = self.tokens@;
        let ghost total = sp_closure_params(t, self.state(), Seq::empty());
        let mut params: Vec<ClosureParam> = Vec::new();
        proof {
            assert(params@ =~= Seq::<ClosureParam>::empty());
        }
        loop
            invariant_except_break
                sp_closure_params(t, self.state(), params@) == total,
            invariant
                total == sp_closure_params(old(self).tokens@, old(self).state(), Seq::empty()),
                self.progressed(old(self), false),
                t == self.tokens@,
            ensures
                (PRes::Parsed(params@), self.state()) == total,
            decreases self.tokens@.len() - self.pos,
        {
            proof {
                reveal_with_fuel(sp_closure_params, 1);
            }
            if matches!(self.peek(), TokenKind::Pipe | TokenKind::Eof) {
                break;
            }
            let param = self.parse_closure_param()?;
            params.push(param);
            if matches!(self.peek(), TokenKind::Comma) {
                self.bump();
            } else {
                break;
            }
        }
        Ok(params)
    }

    /// A closure parameter: a name, optionally `: Ty` with a one-word type.
    fn parse_closure_param(&mut self) -> (r: Result<ClosureParam, CompileError>)
        requires
            old(self).wf(),
        ensures
            final(self).progressed(old(self), r is Ok),
            final(self).errors == old(self).errors,
            ({
                let (m, s) = sp_closure_param(old(self).tokens@, old(self).state());
                &&& final(self).state() == s
                &&& match m {
                    PRes::Parsed(x) => r == Ok::<ClosureParam, CompileError>(x),
                    PRes::Failed(sp, msg) => r matches Err(e) && is_syntax_error(e, sp, msg),
                }
            }),
    {
        proof {
            reveal(sp_closure_param);
        }
        if matches!(self.peek(), TokenKind::Ident(_)) {
            self.bump();
        } else {
            return Err(self.unexpected_token_error("identifier"));
        }
        if matches!(self.peek(), TokenKind::Colon) {
            self.bump();
            if matches!(self.peek(), TokenKind::Ident(_) | TokenKind::SelfUpper) {
                self.bump();
            } else {
                return Err(self.unexpected_token_error("type after `:`"));
            }
        }
        Ok(ClosureParam::Placeholder)
    }

    /// `if cond { .. }`, optionally followed by `else { .. }` or `else if ..`.
    fn parse_if(&mut self) -> (r: Result<Expr, CompileError>)
        requires
            old(self).wf(),
        ensures
            final(self).progressed(old(self), r is Ok),
            expr_holds(r, sp_if(old(self).tokens@, old(self).state()).0),
            final(self).state() == sp_if(old(self).tokens@, old(self).state()).1,
        decreases old(self).tokens@.len() - old(self).pos, 0nat,
    {
        proof {
            reveal_with_fuel(sp_if, 1);
            reveal_with_fuel(sp_expr, 1);
            reveal_with_fuel(sp_block, 1);
        }
        let if_tok = self.expect(&TokenKind::If)?;
        let start_span = if_tok.span;
        let cond = self.parse_expr()?;
        let then = self.parse_block()?;
        let else_branch = if matches!(self.peek(), TokenKind::Else) {
            self.bump();
            if matches!(self.peek(), TokenKind::If) {
                Some(Box::new(self.parse_if()?))
            } else if matches!(self.peek(), TokenKind::LBrace) {
                Some(Box::new(self.parse_block()?))
            } else {
                return Err(self.unexpected_token_error("`{` or `if`"));
            }
        } else {
            None
        };
        let end_span = match &else_branch {
            Some(b) => b.span(),
            None => then.span(),
        };
        proof {
            lemma_expr_model_span(then);
            if else_branch is Some {
                lemma_expr_model_span(*else_branch->Some_0);
            }
        }
        let span = start_span.merge(&end_span);
        let id = self.new_node_id();
        Ok(Expr::If(If { id, span, cond: Box::new(cond), then: Box::new(then), else_branch }))
    }

    /// `{ stmt; ... tail }`.  An expression that fails to parse is recorded
    /// as a diagnostic, the parser skips to the next recovery token (one
    /// token more when that did not move it), and an error statement takes
    /// its place.
    pub fn parse_block(&mut self) -> (r: Result<Expr, CompileError>)
        requires
            old(self).wf(),
        ensures
            final(self).progressed(old(self), r is Ok),
            expr_holds(r, sp_block(old(self).tokens@, old(self).state()).0),
            final(self).state() == sp_block(old(self).tokens@, old(self).state()).1,
        decreases old(self).tokens@.len() - old(self).pos, 0nat,
    {
        proof {
            reveal_with_fuel(sp_block, 1);
            reveal_with_fuel(sp_block_loop, 1);
            reveal_with_fuel(sp_expr, 1);
            reveal(close_block);
        }
        let ghost t = self.tokens@;
        let ghost total = sp_block(t, self.state());
        let lbrace_tok = self.expect(&TokenKind::LBrace)?;
        let lbrace_span = lbrace_tok.span;

        let mut stmts: Vec<Stmt> = Vec::new();
        let mut tail: Option<Box<Expr>> = None;
        proof {
            assert(stmts_model(stmts@) == Seq::<StmtM>::empty());
        }
        loop
            invariant_except_break
                sp_block_loop(t, self.state(), stmts_model(stmts@), lbrace_span) == total,
                tail is None,
            invariant
                total == sp_block(old(self).tokens@, old(self).state()),
                self.progressed(old(self), true),
                t == self.tokens@,
            ensures
                close_block(t, self.state(), stmts_model(stmts@), opt_expr_model(tail), lbrace_span) == total,
            decreases self.tokens@.len() - self.pos,
        {
            proof {
                reveal_with_fuel(sp_block, 1);
                reveal_with_fuel(sp_block_loop, 1);
                reveal_with_fuel(sp_expr, 1);
                reveal(close_block);
            }
            if matches!(self.peek(), TokenKind::RBrace | TokenKind::Eof) {
                break;
            }
            let start = self.pos;
            match self.parse_expr() {
                Ok(expr) => {
                    if matches!(self.peek(), TokenKind::Semi) {
                        self.bump();
                        let st = Stmt::Expr { expr, has_semi: true };
                        proof {
                            lemma_stmts_model_push(stmts@, st);
                        }
                        stmts.push(st);
                    } else if matches!(self.peek(), TokenKind::RBrace) {
                        tail = Some(Box::new(expr));
                        break;
                    } else {
                        let st = Stmt::Expr { expr, has_semi: false };
                        proof {
                            lemma_stmts_model_push(stmts@, st);
                        }
                        stmts.push(st);
                    }
                },
                Err(e) => {
                    let span = e.span;
                    self.report(e);
                    self.recover_to_sync();
                    let id = self.new_node_id();
                    let st = Stmt::Expr { expr: Expr::Error(id, span), has_semi: true };
                    proof {
                        lemma_stmts_model_push(stmts@, st);
                    }
                    stmts.push(st);
                    if self.pos == start {
                        if matches!(self.peek(), TokenKind::RBrace | TokenKind::Eof) {
                            break;
                        }
                        self.bump();
                    }
                },
            }
        }

        let rbrace_tok = self.expect(&TokenKind::RBrace)?;
        let span = lbrace_span.merge(&rbrace_tok.span);
        let id = self.new_node_id();
        Ok(Expr::Block(Block { id, span, stmts, tail }))
    }

    /// `a..b`, `a..=b`, `a..`, `..b`, `..`, or a plain binary expression.
    #[verifier::rlimit(40)]
    fn parse_range(&mut self) -> (r: Result<Expr, CompileError>)
        requires
            old(self).wf(),
        ensures
            final(self).progressed(old(self), r is Ok),
            expr_holds(r, sp_range(old(self).tokens@, old(self).state()).0),
            final(self).state() == sp_range(old(self).tokens@, old(self).state()).1,
        decreases old(self).tokens@.len() - old(self).pos, 8nat,
    {
        proof {
            reveal_with_fuel(sp_range, 1);
            reveal_with_fuel(sp_binary, 1);
        }
        if matches!(self.peek(), TokenKind::DotDot | TokenKind::DotDotEq) {
            let inclusive = matches!(self.peek(), TokenKind::DotDotEq);
            let op_tok = self.bump();
            let op_span = op_tok.span;
            if range_rhs_starts_here(self.peek()) {
                let end = self.parse_binary(0)?;
                proof {
                    lemma_expr_model_span(end);
                }
                let span = op_span.merge(&end.span());
                let id = self.new_node_id();
                return Ok(Expr::Range(Range { id, span, start: None, end: Some(Box::new(end)), inclusive }));
            } else {
                let id = self.new_node_id();
                return Ok(Expr::Range(Range { id, span: op_span, start: None, end: None, inclusive }));
            }
        }

        let lhs = self.parse_binary(0)?;
        if matches!(self.peek(), TokenKind::DotDot | TokenKind::DotDotEq) {
            let inclusive = matches!(self.peek(), TokenKind::DotDotEq);
            let op_tok = self.bump();
            let op_span = op_tok.span;
            proof {
                lemma_expr_model_span(lhs);
            }
            if range_rhs_starts_here(self.peek()) {
                let end = self.parse_binary(0)?;
                proof {
                    lemma_expr_model_span(end);
                }
                let span = lhs.span().merge(&end.span());
                let id = self.new_node_id();
                Ok(Expr::Range(Range {
                    id,
                    span,
                    start: Some(Box::new(lhs)),
                    end: Some(Box::new(end)),
                    inclusive,
                }))
            } else {
                let span = lhs.span().merge(&op_span);
                let id = self.new_node_id();
                Ok(Expr::Range(Range { id, span, start: Some(Box::new(lhs)), end: None, inclusive }))
            }
        } else {
            Ok(lhs)
        }
    }

    /// Binary operators by precedence climbing, from binding power
    /// `min_bp` up; a comparison whose left side is a comparison is
    /// rejected.
    fn parse_binary(&mut self, min_bp: u8) -> (r: Result<Expr, CompileError>)
        requires
            old(self).wf(),
        ensures
            final(self).progressed(old(self), r is Ok),
            expr_holds(r, sp_binary(old(self).tokens@, old(self).state(), min_bp).0),
            final(self).state() == sp_binary(old(self).tokens@, old(self).state(), min_bp).1,
        decreases old(self).tokens@.len() - old(self).pos, 7nat,
    {
        proof {
            reveal_with_fuel(sp_binary, 1);
            reveal_with_fuel(sp_binary_loop, 1);
            reveal_with_fuel(sp_cast, 1);
        }
        let ghost t = self.tokens@;
        let ghost total = sp_binary(t, self.state(), min_bp);
        let mut lhs = self.parse_cast()?;

        loop
            invariant_except_break
                sp_binary_loop(t, self.state(), min_bp, expr_model(lhs)) == total,
            invariant
                total == sp_binary(old(self).tokens@, old(self).state(), min_bp),
                self.progressed(old(self), true),
                t == self.tokens@,
            ensures
                (PRes::Parsed(expr_model(lhs)), self.state()) == total,
            decreases self.tokens@.len() - self.pos,
        {
            proof {
                reveal_with_fuel(sp_binary, 1);
                reveal_with_fuel(sp_binary_loop, 1);
                reveal_with_fuel(sp_cast, 1);
            }
            let (left_bp, right_bp, op, class) = match infix_binding_power(self.peek()) {
                Some(info) => info,
                None => {
                    break;
                },
            };
            if left_bp < min_bp {
                break;
            }

            if class == OpClass::Comparison {
                if let Expr::Binary(b) = &lhs {
                    if is_comparison_op(b.op) {
                        let op_span = self.current_span();
                        return Err(syntax_error(op_span, "chained comparison operators require parentheses"));
                    }
                }
            }

            self.bump();
            let rhs = self.parse_binary(right_bp)?;
            proof {
                lemma_expr_model_span(lhs);
                lemma_expr_model_span(rhs);
            }
            let span = lhs.span().merge(&rhs.span());
            let id = self.new_node_id();
            lhs = Expr::Binary(Binary { id, span, op, lhs: Box::new(lhs), rhs: Box::new(rhs) });
        }

        Ok(lhs)
    }

    /// `e as Ty` with a one-word type, repeated.
    fn parse_cast(&mut self) -> (r: Result<Expr, CompileError>)
        requires
            old(self).wf(),
        ensures
            final(self).progressed(old(self), r is Ok),
            expr_holds(r, sp_cast(old(self).tokens@, old(self).state()).0),
            final(self).state() == sp_cast(old(self).tokens@, old(self).state()).1,
        decreases old(self).tokens@.len() - old(self).pos, 6nat,
    {
        proof {
            reveal_with_fuel(sp_cast, 1);
            reveal_with_fuel(sp_cast_loop, 1);
            reveal_with_fuel(sp_unary, 1);
        }
        let ghost t = self.tokens@;
        let ghost total = sp_cast(t, self.state());
        let mut lhs = self.parse_unary()?;
        while ident_is(self.peek(), "as")
            invariant
                sp_cast_loop(t, self.state(), expr_model(lhs)) == total,
                total == sp_cast(old(self).tokens@, old(self).state()),
                self.progressed(old(self), true),
                t == self.tokens@,
            decreases self.tokens@.len() - self.pos,
        {
            proof {
                reveal_with_fuel(sp_cast, 1);
                reveal_with_fuel(sp_cast_loop, 1);
                reveal_with_fuel(sp_unary, 1);
            }
            self.bump();
            let ty_tok = if matches!(self.peek(), TokenKind::Ident(_) | TokenKind::SelfUpper) {
                self.bump()
            } else {
                return Err(self.unexpected_token_error("type after `as`"));
            };
            proof {
                lemma_expr_model_span(lhs);
            }
            let span = lhs.span().merge(&ty_tok.span);
            let id = self.new_node_id();
            lhs = Expr::Cast(Cast { id, span, expr: Box::new(lhs), ty: Box::new(CastTy::Placeholder) });
        }
        Ok(lhs)
    }

    /// Prefix operators `-`, `not`, `*`, `&` and `&mut`, then a postfix
    /// expression.
    pub fn parse_unary(&mut self) -> (r: Result<Expr, CompileError>)
        requires
            old(self).wf(),
        ensures
            final(self).progressed(old(self), r is Ok),
            expr_holds(r, sp_unary(old(self).tokens@, old(self).state()).0),
            final(self).state() == sp_unary(old(self).tokens@, old(self).state()).1,
        decreases old(self).tokens@.len() - old(self).pos, 5nat,
    {
        proof {
            reveal_with_fuel(sp_unary, 1);
            reveal_with_fuel(sp_postfix, 1);
        }
        let op_span = self.current_span();
        let op = if matches!(self.peek(), TokenKind::Minus) {
            self.bump();
            UnaryOp::Neg
        } else if matches!(self.peek(), TokenKind::Not) {
            self.bump();
            UnaryOp::Not
        } else if matches!(self.peek(), TokenKind::Star) {
            self.bump();
            UnaryOp::Deref
        } else if matches!(self.peek(), TokenKind::Amp) {
            self.bump();
            if matches!(self.peek(), TokenKind::Mut) {
                self.bump();
                UnaryOp::RefMut
            } else {
                UnaryOp::Ref
            }
        } else {
            return self.parse_postfix();
        };
        let operand = self.parse_unary()?;
        proof {
            lemma_expr_model_span(operand);
        }
        let span = op_span.merge(&operand.span());
        let id = self.new_node_id();
        Ok(Expr::Unary(Unary { id, span, op, operand: Box::new(operand) }))
    }

    /// The call arguments after `(`: expressions separated by commas, a
    /// trailing comma allowed, then `)`; also gives the span of the `)`.
    fn parse_call_args(&mut self) -> (r: Result<(Vec<Expr>, Span), CompileError>)
        requires
            old(self).wf(),
        ensures
            final(self).progressed(old(self), r is Ok),
            ({
                let (m, s) = sp_args(old(self).tokens@, old(self).state(), Seq::empty());
                &&& final(self).state() == s
                &&& match m {
                    PRes::Parsed((args, close)) => r matches Ok((v, sp)) && exprs_model(v@) == args && sp == close,
                    PRes::Failed(sp, msg) => r matches Err(e) && is_syntax_error(e, sp, msg),
                }
            }),
        decreases old(self).tokens@.len() - old(self).pos, 10nat,
    {
        proof {
            reveal_with_fuel(sp_args, 1);
            reveal_with_fuel(sp_expr, 1);
            reveal(close_args);
        }
        let ghost t = self.tokens@;
        let ghost total = sp_args(t, self.state(), Seq::empty());
        let mut args: Vec<Expr> = Vec::new();
        proof {
            assert(exprs_model(args@) == Seq::<ExprM>::empty());
        }
        loop
            invariant_except_break
                sp_args(t, self.state(), exprs_model(args@)) == total,
            invariant
                total == sp_args(old(self).tokens@, old(self).state(), Seq::empty()),
                self.progressed(old(self), false),
                t == self.tokens@,
            ensures
                close_args(t, self.state(), exprs_model(args@)) == total,
            decreases self.tokens@.len() - self.pos,
        {
            proof {
                reveal_with_fuel(sp_args, 1);
                reveal_with_fuel(sp_expr, 1);
                reveal(close_args);
            }
            if matches!(self.peek(), TokenKind::RParen | TokenKind::Eof) {
                break;
            }
            let arg = self.parse_expr()?;
            proof {
                lemma_exprs_model_push(args@, arg);
            }
            args.push(arg);
            if matches!(self.peek(), TokenKind::Comma) {
                self.bump();
            } else {
                break;
            }
        }
        let rparen_tok = self.expect(&TokenKind::RParen)?;
        Ok((args, rparen_tok.span))
    }

    /// A primary expression followed by calls `(..)`, indexing `[..]`,
    /// `?`, method calls `.m(..)`, fields `.f` and tuple fields `.0`.
    #[verifier::rlimit(80)]
    fn parse_postfix(&mut self) -> (r: Result<Expr, CompileError>)
        requires
            old(self).wf(),
        ensures
            final(self).progressed(old(self), r is Ok),
            expr_holds(r, sp_postfix(old(self).tokens@, old(self).state()).0),
            final(self).state() == sp_postfix(old(self).tokens@, old(self).state()).1,
        decreases old(self).tokens@.len() - old(self).pos, 4nat,
    {
        proof {
            reveal_with_fuel(sp_postfix, 1);
            reveal_with_fuel(sp_postfix_loop, 1);
            reveal_with_fuel(sp_primary, 1);
            reveal_with_fuel(sp_args, 1);
            reveal_with_fuel(sp_expr, 1);
        }
        let ghost t = self.tokens@;
        let ghost total = sp_postfix(t, self.state());
        let mut expr = self.parse_primary_for_paren()?;
        loop
            invariant
                sp_postfix_loop(t, self.state(), expr_model(expr)) == total,
                total == sp_postfix(old(self).tokens@, old(self).state()),
                self.progressed(old(self), true),
                t == self.tokens@,
            decreases self.tokens@.len() - self.pos,
        {
            proof {
                reveal_with_fuel(sp_postfix, 1);
                reveal_with_fuel(sp_postfix_loop, 1);
                reveal_with_fuel(sp_primary, 1);
                reveal_with_fuel(sp_args, 1);
                reveal_with_fuel(sp_expr, 1);
            }
            proof {
                lemma_expr_model_span(expr);
            }
            if matches!(self.peek(), TokenKind::LParen) {
                self.bump();
                let (args, rparen_span) = self.parse_call_args()?;
                let span = expr.span().merge(&rparen_span);
                let id = self.new_node_id();
                expr = Expr::Call(Call { id, span, callee: Box::new(expr), args });
            } else if matches!(self.peek(), TokenKind::LBracket) {
                self.bump();
                let idx = self.parse_expr()?;
                let rbracket_tok = self.expect(&TokenKind::RBracket)?;
                let span = expr.span().merge(&rbracket_tok.span);
                let id = self.new_node_id();
                expr = Expr::Index(Index { id, span, receiver: Box::new(expr), idx: Box::new(idx) });
            } else if matches!(self.peek(), TokenKind::Question) {
                let q_tok = self.bump();
                let span = expr.span().merge(&q_tok.span);
                let id = self.new_node_id();
                expr = Expr::Try(Try { id, span, expr: Box::new(expr) });
            } else if matches!(self.peek(), TokenKind::Dot) {
                self.bump();
                let name = match self.peek() {
                    TokenKind::Ident(s) => Some(s.clone()),
                    _ => None,
                };
                let index = match self.peek() {
                    TokenKind::IntLiteral(v, _) => Some(*v),
                    _ => None,
                };
                if let Some(name) = name {
                    let ident_span = self.current_span();
                    self.bump();
                    if matches!(self.peek(), TokenKind::LParen) {
                        self.bump();
                        let (args, rparen_span) = self.parse_call_args()?;
                        let span = expr.span().merge(&rparen_span);
                        let id = self.new_node_id();
                        expr = Expr::MethodCall(MethodCall {
                            id,
                            span,
                            receiver: Box::new(expr),
                            method: name,
                            args,
                            generic_args: Vec::new(),
                        });
                    } else {
                        let span = expr.span().merge(&ident_span);
                        let id = self.new_node_id();
                        expr = Expr::Field(FieldAccess { id, span, receiver: Box::new(expr), name });
                    }
                } else if let Some(v) = index {
                    let intlit_span = self.current_span();
                    self.bump();
                    if v > 0xFFFF_FFFFu64 {
                        return Err(syntax_error(intlit_span, "tuple field index exceeds u32::MAX"));
                    }
                    let span = expr.span().merge(&intlit_span);
                    let id = self.new_node_id();
                    expr = Expr::TupleField(TupleFieldAccess { id, span, receiver: Box::new(expr), idx: v as u32 });
                } else {
                    return Err(self.unexpected_token_error("identifier or integer literal"));
                }
            } else {
                return Ok(expr);
            }
        }
    }

    /// A literal, an array, a block or an `if`.
    fn parse_primary_for_paren(&mut self) -> (r: Result<Expr, CompileError>)
        requires
            old(self).wf(),
        ensures
            final(self).progressed(old(self), r is Ok),
            expr_holds(r, sp_primary(old(self).tokens@, old(self).state()).0),
            final(self).state() == sp_primary(old(self).tokens@, old(self).state()).1,
        decreases old(self).tokens@.len() - old(self).pos, 3nat,
    {
        proof {
            reveal_with_fuel(sp_primary, 1);
            reveal_with_fuel(sp_array, 1);
            reveal_with_fuel(sp_block, 1);
            reveal_with_fuel(sp_if, 1);
        }
        match self.peek() {
            TokenKind::IntLiteral(..) => self.parse_int_lit(),
            TokenKind::FloatLiteral(..) => self.parse_float_lit(),
            TokenKind::CharLiteral(..) => self.parse_char_lit(),
            TokenKind::StringLiteral(..) | TokenKind::RawStringLiteral(..) => self.parse_str_lit(),
            TokenKind::True | TokenKind::False => self.parse_bool_lit(),
            TokenKind::LBracket => self.parse_array_literal(),
            TokenKind::LBrace => self.parse_block(),
            TokenKind::If => self.parse_if(),
            _ => Err(self.unexpected_token_error("expression")),
        }
    }
}

/// Whether `..` followed by `kind` has an upper bound.
fn range_rhs_starts_here(kind: &TokenKind) -> (b: bool)
    ensures
        b == range_rhs_start(*kind),
{
    matches!(
        kind,
        TokenKind::IntLiteral(..) | TokenKind::FloatLiteral(..) | TokenKind::CharLiteral(..)
            | TokenKind::StringLiteral(..) | TokenKind::RawStringLiteral(..) | TokenKind::True
            | TokenKind::False | TokenKind::LParen | TokenKind::Minus | TokenKind::Not
            | TokenKind::Star | TokenKind::Amp | TokenKind::If
    )
}

/// Whether `op` is a comparison.
fn is_comparison_op(op: BinaryOp) -> (b: bool)
    ensures
        b == is_comparison(op),
{
    matches!(op, BinaryOp::Eq | BinaryOp::Ne | BinaryOp::Lt | BinaryOp::Gt | BinaryOp::Le | BinaryOp::Ge)
}

/// Binding powers, operator and class of an infix token, if it is one.
fn infix_binding_power(kind: &TokenKind) -> (r: Option<(u8, u8, BinaryOp, OpClass)>)
    ensures
        r == binding_power(*kind),
{
    match kind {
        TokenKind::Eq => Some((2, 1, BinaryOp::Assign, OpClass::Assignment)),
        TokenKind::PlusEq => Some((2, 1, BinaryOp::AddAssign, OpClass::Assignment)),
        TokenKind::MinusEq => Some((2, 1, BinaryOp::SubAssign, OpClass::Assignment)),
        TokenKind::StarEq => Some((2, 1, BinaryOp::MulAssign, OpClass::Assignment)),
        TokenKind::SlashEq => Some((2, 1, BinaryOp::DivAssign, OpClass::Assignment)),
        TokenKind::PercentEq => Some((2, 1, BinaryOp::RemAssign, OpClass::Assignment)),
        TokenKind::Or => Some((3, 4, BinaryOp::Or, OpClass::Other)),
        TokenKind::And => Some((5, 6, BinaryOp::And, OpClass::Other)),
        TokenKind::EqEq => Some((7, 8, BinaryOp::Eq, OpClass::Comparison)),
        TokenKind::BangEq => Some((7, 8, BinaryOp::Ne, OpClass::Comparison)),
        TokenKind::Lt => Some((7, 8, BinaryOp::Lt, OpClass::Comparison)),
        TokenKind::Gt => Some((7, 8, BinaryOp::Gt, OpClass::Comparison)),
        TokenKind::Le => Some((7, 8, BinaryOp::Le, OpClass::Comparison)),
        TokenKind::Ge => Some((7, 8, BinaryOp::Ge, OpClass::Comparison)),
        TokenKind::Pipe => Some((9, 10, BinaryOp::BitOr, OpClass::Other)),
        TokenKind::Caret => Some((11, 12, BinaryOp::BitXor, OpClass::Other)),
        TokenKind::Amp => Some((13, 14, BinaryOp::BitAnd, OpClass::Other)),
        TokenKind::Shl => Some((15, 16, BinaryOp::Shl, OpClass::Other)),
        TokenKind::Shr => Some((15, 16, BinaryOp::Shr, OpClass::Other)),
        TokenKind::Plus => Some((17, 18, BinaryOp::Add, OpClass::Other)),
        TokenKind::Minus => Some((17, 18, BinaryOp::Sub, OpClass::Other)),
        TokenKind::Star => Some((19, 20, BinaryOp::Mul, OpClass::Other)),
        TokenKind::Slash => Some((19, 20, BinaryOp::Div, OpClass::Other)),
        TokenKind::Percent => Some((19, 20, BinaryOp::Rem, OpClass::Other)),
        _ => None,
    }
}

/// How the expression parser names a token it did not expect.
fn describe_kind(kind: &TokenKind) -> (s: &'static str)
    ensures
        s@ == short_text(*kind),
{
    match kind {
        TokenKind::IntLiteral(..) => "integer literal",
        TokenKind::FloatLiteral(..) => "float literal",
        TokenKind::CharLiteral(..) => "char literal",
        TokenKind::StringLiteral(..) => "string literal",
        TokenKind::RawStringLiteral(..) => "raw string literal",
        TokenKind::True => "`true`",
        TokenKind::False => "`false`",
        TokenKind::Ident(..) => "identifier",
        TokenKind::Eof => "end of file",
        _ => "token",
    }
}

} // verus!
