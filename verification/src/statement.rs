//! Statements of the language, as the parser builds them.
use crate::expression::{expr_view, ExprV, Expression};
use crate::token::{Token, TokenV};
use vstd::prelude::*;

verus! {

broadcast use vstd::std_specs::vec::axiom_vec_index_decreases;

/// A statement node.
#[derive(Debug)]
pub enum Statement {
    /// An expression evaluated for its effect, its value discarded.
    Expr(Expression),
    /// `print` of the value of an expression.
    Print(Expression),
    /// `if` with a condition, a then branch and an optional else branch.
    If(Expression, Box<Statement>, Option<Box<Statement>>),
    /// A variable declaration, with an optional initializer.
    Var(Token, Option<Expression>),
    /// A braced sequence of statements in a scope of its own.
    Block(Vec<Statement>),
    /// `while` with a condition and a body.
    While(Expression, Box<Statement>),
    /// `break` out of the nearest loop.
    Break,
}

/// Mathematical model of a statement.
pub enum StmtV {
    Expr(ExprV),
    Print(ExprV),
    If(ExprV, Box<StmtV>, Option<Box<StmtV>>),
    Var(TokenV, Option<ExprV>),
    Block(Seq<StmtV>),
    While(ExprV, Box<StmtV>),
    Break,
}

/// The model behind a statement node.
pub open spec fn stmt_view(s: &Statement) -> StmtV
    decreases s,
{
    match s {
        Statement::Expr(e) => StmtV::Expr(expr_view(e)),
        Statement::Print(e) => StmtV::Print(expr_view(e)),
        Statement::If(c, t, e) => StmtV::If(
            expr_view(c),
            Box::new(stmt_view(t)),
            match e {
                Option::Some(b) => Option::Some(Box::new(stmt_view(b))),
                Option::None => Option::None,
            },
        ),
        Statement::Var(t, init) => StmtV::Var(
            t@,
            match init {
                Option::Some(e) => Option::Some(expr_view(e)),
                Option::None => Option::None,
            },
        ),
        Statement::Block(ss) => StmtV::Block(
            Seq::new(
                ss@.len(),
                |i: int|
                    if 0 <= i < ss@.len() {
                        stmt_view(&ss[i])
                    } else {
                        StmtV::Break
                    },
            ),
        ),
        Statement::While(c, b) => StmtV::While(expr_view(c), Box::new(stmt_view(b))),
        Statement::Break => StmtV::Break,
    }
}

impl View for Statement {
    type V = StmtV;

    open spec fn view(&self) -> StmtV {
        stmt_view(self)
    }
}

/// The models behind a vector of statement nodes.
pub open spec fn stmts_view(ss: Seq<Statement>) -> Seq<StmtV> {
    ss.map(|i: int, s: Statement| stmt_view(&s))
}

} // verus!
