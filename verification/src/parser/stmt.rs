use vstd::prelude::*;

use crate::ast::expr::Expr;
use crate::ast::stmt::Stmt;
use crate::error::CompileError;
use crate::lexer::token::TokenKind;
use crate::ast::model::{stmt_model, StmtM};
use crate::lexer::token::Token;
use crate::parser::expr::sp_expr;
use crate::parser::{bumped, is_syntax_error, tk, PRes, PState, Parser};

verus! {

/// The statement made of `expr`, with or without a terminating `;`.
pub fn expr_stmt_from(expr: Expr, has_semi: bool) -> (s: Stmt)
    ensures
        s == (Stmt::Expr { expr, has_semi }),
{
    Stmt::Expr { expr, has_semi }
}

/// What parsing an expression statement at `s` gives: the expression, and
/// whether a `;` follows (it is taken).
#[verifier::opaque]
pub open spec fn sp_expr_stmt(t: Seq<Token>, s: PState) -> (PRes<StmtM>, PState) {
    let (r, s1) = sp_expr(t, s);
    match r {
        PRes::Failed(a, b) => (PRes::Failed(a, b), s1),
        PRes::Parsed(e) => if tk(t, s1.pos) is Semi {
            (PRes::Parsed(StmtM::Expr { expr: e, has_semi: true }), bumped(s1))
        } else {
            (PRes::Parsed(StmtM::Expr { expr: e, has_semi: false }), s1)
        },
    }
}

impl Parser {
    /// An expression statement; a following `;` is taken and recorded.
    pub fn parse_expr_stmt(&mut self) -> (r: Result<Stmt, CompileError>)
        requires
            old(self).wf(),
        ensures
            final(self).progressed(old(self), r is Ok),
            ({
                let (m, s) = sp_expr_stmt(old(self).tokens@, old(self).state());
                &&& final(self).state() == s
                &&& match m {
                    PRes::Parsed(x) => r matches Ok(v) && stmt_model(v) == x,
                    PRes::Failed(sp, msg) => r matches Err(e) && is_syntax_error(e, sp, msg),
                }
            }),
    {
        proof {
            reveal(sp_expr_stmt);
        }
        let expr = self.parse_expr()?;
        let has_semi = self.eat(&TokenKind::Semi);
        Ok(expr_stmt_from(expr, has_semi))
    }
}

} // verus!
