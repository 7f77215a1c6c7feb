//! Recursive-descent parser with one-token lookahead. The `p_*` spec
//! functions state exactly what each production returns and where it leaves
//! the reading position; the methods of `Parser` are proved to match them.
//!
//! Precedence, low to high: assignment, `or`, `and`, equality, comparison,
//! term, factor, unary, primary. All binary operators associate to the left,
//! assignment and unary to the right.
use crate::errors::{ParseErrorKind, ParserError};
use crate::expression::{ExprV, Expression};
use crate::statement::{stmt_view, stmts_view, Statement, StmtV};
use crate::token::{LitV, Literal, Token, TokenV};
use crate::token_type::TokenType;
use crate::LocationInfo;
use vstd::prelude::*;

verus! {

/// Result of a production: the node and the position after it, or the error
/// and the position where it was found.
pub enum PRes<T> {
    Hit { v: T, pos: int },
    Miss { e: ParserError, pos: int },
}

/// Whether the token at `pos` matches the kind; the end marker matches
/// nothing.
pub open spec fn t_at(ts: Seq<TokenV>, pos: int, ty: TokenType) -> bool {
    0 <= pos < ts.len() && ts[pos].token_type == ty && ty != TokenType::Eof
}

/// A position moved properly forward, still within the tokens.
pub open spec fn ok_step(lo: int, p: int, hi: int) -> bool {
    lo < p <= hi
}

/// The token that a missing semicolon stands in for when the parser is
/// lenient.
pub open spec fn default_token() -> TokenV {
    TokenV {
        token_type: TokenType::Identifier,
        lexeme: Seq::empty(),
        literal: LitV::String(Seq::empty()),
        loc: LocationInfo { column: 0, line: 0, len: 0 },
    }
}

/// Consuming one expected token: the token itself on a match; a synthesized
/// token, without moving, for a missing semicolon in lenient mode; the given
/// error otherwise.
pub open spec fn p_consume(
    ts: Seq<TokenV>,
    pos: int,
    ty: TokenType,
    strict: bool,
    kind: ParseErrorKind,
) -> PRes<TokenV> {
    if t_at(ts, pos, ty) {
        PRes::Hit { v: ts[pos], pos: pos + 1 }
    } else if !strict && ty == TokenType::Semicolon {
        PRes::Hit { v: default_token(), pos }
    } else {
        PRes::Miss { e: ParserError { cause: kind, location: ts[pos].loc }, pos }
    }
}

pub open spec fn p_primary(ts: Seq<TokenV>, pos: int, strict: bool) -> PRes<ExprV>
    decreases ts.len() - pos, 16int,
{
    if t_at(ts, pos, TokenType::False) {
        PRes::Hit { v: ExprV::Literal(LitV::Boolean(false)), pos: pos + 1 }
    } else if t_at(ts, pos, TokenType::True) {
        PRes::Hit { v: ExprV::Literal(LitV::Boolean(true)), pos: pos + 1 }
    } else if t_at(ts, pos, TokenType::Nil) {
        PRes::Hit { v: ExprV::Literal(LitV::Nil), pos: pos + 1 }
    } else if t_at(ts, pos, TokenType::Number) || t_at(ts, pos, TokenType::String) {
        PRes::Hit { v: ExprV::Literal(ts[pos].literal), pos: pos + 1 }
    } else if t_at(ts, pos, TokenType::LeftParen) {
        match p_expression(ts, pos + 1, strict) {
            PRes::Hit { v, pos: p2 } => match p_consume(
                ts,
                p2,
                TokenType::RightParen,
                strict,
                ParseErrorKind::ExpectRightParenAfterExpression,
            ) {
                PRes::Hit { pos: p3, .. } => PRes::Hit { v: ExprV::Group(Box::new(v)), pos: p3 },
                PRes::Miss { e, .. } => PRes::Miss { e, pos: p2 },
            },
            PRes::Miss { e, pos: p2 } => PRes::Miss { e, pos: p2 },
        }
    } else if t_at(ts, pos, TokenType::Identifier) {
        PRes::Hit { v: ExprV::Variable(ts[pos]), pos: pos + 1 }
    } else {
        PRes::Miss { e: ParserError { cause: ParseErrorKind::ExpectExpression, location: ts[pos].loc }, pos }
    }
}

#[verifier::opaque]
pub open spec fn p_unary(ts: Seq<TokenV>, pos: int, strict: bool) -> PRes<ExprV>
    decreases ts.len() - pos, 17int,
{
    if t_at(ts, pos, TokenType::Bang) || t_at(ts, pos, TokenType::Minus) {
        let op = ts[pos];
        match p_unary(ts, pos + 1, strict) {
            PRes::Hit { v, pos: p2 } => PRes::Hit { v: ExprV::Unary(op, Box::new(v)), pos: p2 },
            PRes::Miss { e, pos: p2 } => PRes::Miss { e, pos: p2 },
        }
    } else {
        p_primary(ts, pos, strict)
    }
}

pub open spec fn p_factor_more(ts: Seq<TokenV>, pos: int, acc: ExprV, strict: bool) -> PRes<ExprV>
    decreases ts.len() - pos, 18int,
{
    if t_at(ts, pos, TokenType::Slash) || t_at(ts, pos, TokenType::Star) {
        let op = ts[pos];
        match p_unary(ts, pos + 1, strict) {
            PRes::Hit { v, pos: p2 } => if ok_step(pos, p2, ts.len() as int) {
                p_factor_more(ts, p2, ExprV::Binary(Box::new(acc), op, Box::new(v)), strict)
            } else {
                PRes::Miss { e: ParserError { cause: ParseErrorKind::ExpectExpression, location: ts[p2].loc }, pos: p2 }
            },
            PRes::Miss { e, pos: p2 } => PRes::Miss { e, pos: p2 },
        }
    } else {
        PRes::Hit { v: acc, pos }
    }
}

#[verifier::opaque]
pub open spec fn p_factor(ts: Seq<TokenV>, pos: int, strict: bool) -> PRes<ExprV>
    decreases ts.len() - pos, 19int,
{
    match p_unary(ts, pos, strict) {
        PRes::Hit { v, pos: p2 } => if ok_step(pos, p2, ts.len() as int) {
            p_factor_more(ts, p2, v, strict)
        } else {
            PRes::Miss { e: ParserError { cause: ParseErrorKind::ExpectExpression, location: ts[p2].loc }, pos: p2 }
        },
        PRes::Miss { e, pos: p2 } => PRes::Miss { e, pos: p2 },
    }
}

pub open spec fn p_term_more(ts: Seq<TokenV>, pos: int, acc: ExprV, strict: bool) -> PRes<ExprV>
    decreases ts.len() - pos, 20int,
{
    if t_at(ts, pos, TokenType::Minus) || t_at(ts, pos, TokenType::Plus) {
        let op = ts[pos];
        match p_factor(ts, pos + 1, strict) {
            PRes::Hit { v, pos: p2 } => if ok_step(pos, p2, ts.len() as int) {
                p_term_more(ts, p2, ExprV::Binary(Box::new(acc), op, Box::new(v)), strict)
            } else {
                PRes::Miss { e: ParserError { cause: ParseErrorKind::ExpectExpression, location: ts[p2].loc }, pos: p2 }
            },
            PRes::Miss { e, pos: p2 } => PRes::Miss { e, pos: p2 },
        }
    } else {
        PRes::Hit { v: acc, pos }
    }
}

#[verifier::opaque]
pub open spec fn p_term(ts: Seq<TokenV>, pos: int, strict: bool) -> PRes<ExprV>
    decreases ts.len() - pos, 21int,
{
    match p_factor(ts, pos, strict) {
        PRes::Hit { v, pos: p2 } => if ok_step(pos, p2, ts.len() as int) {
            p_term_more(ts, p2, v, strict)
        } else {
            PRes::Miss { e: ParserError { cause: ParseErrorKind::ExpectExpression, location: ts[p2].loc }, pos: p2 }
        },
        PRes::Miss { e, pos: p2 } => PRes::Miss { e, pos: p2 },
    }
}

pub open spec fn p_comparison_more(
    ts: Seq<TokenV>,
    pos: int,
    acc: ExprV,
    strict: bool,
) -> PRes<ExprV>
    decreases ts.len() - pos, 22int,
{
    if t_at(ts, pos, TokenType::GreaterEqual) || t_at(ts, pos, TokenType::Greater) || t_at(
        ts,
        pos,
        TokenType::LessEqual,
    ) || t_at(ts, pos, TokenType::Less) {
        let op = ts[pos];
        match p_term(ts, pos + 1, strict) {
            PRes::Hit { v, pos: p2 } => if ok_step(pos, p2, ts.len() as int) {
                p_comparison_more(ts, p2, ExprV::Binary(Box::new(acc), op, Box::new(v)), strict)
            } else {
                PRes::Miss { e: ParserError { cause: ParseErrorKind::ExpectExpression, location: ts[p2].loc }, pos: p2 }
            },
            PRes::Miss { e, pos: p2 } => PRes::Miss { e, pos: p2 },
        }
    } else {
        PRes::Hit { v: acc, pos }
    }
}

#[verifier::opaque]
pub open spec fn p_comparison(ts: Seq<TokenV>, pos: int, strict: bool) -> PRes<ExprV>
    decreases ts.len() - pos, 23int,
{
    match p_term(ts, pos, strict) {
        PRes::Hit { v, pos: p2 } => if ok_step(pos, p2, ts.len() as int) {
            p_comparison_more(ts, p2, v, strict)
        } else {
            PRes::Miss { e: ParserError { cause: ParseErrorKind::ExpectExpression, location: ts[p2].loc }, pos: p2 }
        },
        PRes::Miss { e, pos: p2 } => PRes::Miss { e, pos: p2 },
    }
}

pub open spec fn p_equality_more(ts: Seq<TokenV>, pos: int, acc: ExprV, strict: bool) -> PRes<
    ExprV,
>
    decreases ts.len() - pos, 24int,
{
    if t_at(ts, pos, TokenType::BangEqual) || t_at(ts, pos, TokenType::EqualEqual) {
        let op = ts[pos];
        match p_comparison(ts, pos + 1, strict) {
            PRes::Hit { v, pos: p2 } => if ok_step(pos, p2, ts.len() as int) {
                p_equality_more(ts, p2, ExprV::Binary(Box::new(acc), op, Box::new(v)), strict)
            } else {
                PRes::Miss { e: ParserError { cause: ParseErrorKind::ExpectExpression, location: ts[p2].loc }, pos: p2 }
            },
            PRes::Miss { e, pos: p2 } => PRes::Miss { e, pos: p2 },
        }
    } else {
        PRes::Hit { v: acc, pos }
    }
}

#[verifier::opaque]
pub open spec fn p_equality(ts: Seq<TokenV>, pos: int, strict: bool) -> PRes<ExprV>
    decreases ts.len() - pos, 25int,
{
    match p_comparison(ts, pos, strict) {
        PRes::Hit { v, pos: p2 } => if ok_step(pos, p2, ts.len() as int) {
            p_equality_more(ts, p2, v, strict)
        } else {
            PRes::Miss { e: ParserError { cause: ParseErrorKind::ExpectExpression, location: ts[p2].loc }, pos: p2 }
        },
        PRes::Miss { e, pos: p2 } => PRes::Miss { e, pos: p2 },
    }
}

pub open spec fn p_and_more(ts: Seq<TokenV>, pos: int, acc: ExprV, strict: bool) -> PRes<ExprV>
    decreases ts.len() - pos, 26int,
{
    if t_at(ts, pos, TokenType::And) {
        let op = ts[pos];
        match p_equality(ts, pos + 1, strict) {
            PRes::Hit { v, pos: p2 } => if ok_step(pos, p2, ts.len() as int) {
                p_and_more(ts, p2, ExprV::Logical(Box::new(acc), op, Box::new(v)), strict)
            } else {
                PRes::Miss { e: ParserError { cause: ParseErrorKind::ExpectExpression, location: ts[p2].loc }, pos: p2 }
            },
            PRes::Miss { e, pos: p2 } => PRes::Miss { e, pos: p2 },
        }
    } else {
        PRes::Hit { v: acc, pos }
    }
}

#[verifier::opaque]
pub open spec fn p_and(ts: Seq<TokenV>, pos: int, strict: bool) -> PRes<ExprV>
    decreases ts.len() - pos, 27int,
{
    match p_equality(ts, pos, strict) {
        PRes::Hit { v, pos: p2 } => if ok_step(pos, p2, ts.len() as int) {
            p_and_more(ts, p2, v, strict)
        } else {
            PRes::Miss { e: ParserError { cause: ParseErrorKind::ExpectExpression, location: ts[p2].loc }, pos: p2 }
        },
        PRes::Miss { e, pos: p2 } => PRes::Miss { e, pos: p2 },
    }
}

pub open spec fn p_or_more(ts: Seq<TokenV>, pos: int, acc: ExprV, strict: bool) -> PRes<ExprV>
    decreases ts.len() - pos, 28int,
{
    if t_at(ts, pos, TokenType::Or) {
        let op = ts[pos];
        match p_and(ts, pos + 1, strict) {
            PRes::Hit { v, pos: p2 } => if ok_step(pos, p2, ts.len() as int) {
                p_or_more(ts, p2, ExprV::Logical(Box::new(acc), op, Box::new(v)), strict)
            } else {
                PRes::Miss { e: ParserError { cause: ParseErrorKind::ExpectExpression, location: ts[p2].loc }, pos: p2 }
            },
            PRes::Miss { e, pos: p2 } => PRes::Miss { e, pos: p2 },
        }
    } else {
        PRes::Hit { v: acc, pos }
    }
}

#[verifier::opaque]
pub open spec fn p_or(ts: Seq<TokenV>, pos: int, strict: bool) -> PRes<ExprV>
    decreases ts.len() - pos, 29int,
{
    match p_and(ts, pos, strict) {
        PRes::Hit { v, pos: p2 } => if ok_step(pos, p2, ts.len() as int) {
            p_or_more(ts, p2, v, strict)
        } else {
            PRes::Miss { e: ParserError { cause: ParseErrorKind::ExpectExpression, location: ts[p2].loc }, pos: p2 }
        },
        PRes::Miss { e, pos: p2 } => PRes::Miss { e, pos: p2 },
    }
}

/// Assignment associates to the right; its target must be a plain variable.
#[verifier::opaque]
pub open spec fn p_assign(ts: Seq<TokenV>, pos: int, strict: bool) -> PRes<ExprV>
    decreases ts.len() - pos, 30int,
{
    match p_or(ts, pos, strict) {
        PRes::Hit { v, pos: p2 } => if ok_step(pos, p2, ts.len() as int) {
            if t_at(ts, p2, TokenType::Equal) {
                let eq = ts[p2];
                match p_assign(ts, p2 + 1, strict) {
                    PRes::Hit { v: val, pos: p3 } => match v {
                        ExprV::Variable(name) => PRes::Hit {
                            v: ExprV::Assignment(name, Box::new(val)),
                            pos: p3,
                        },
                        _ => PRes::Miss {
                            e: ParserError {
                                cause: ParseErrorKind::InvalidAssignmentTarget,
                                location: eq.loc,
                            },
                            pos: p3,
                        },
                    },
                    PRes::Miss { e, pos: p3 } => PRes::Miss { e, pos: p3 },
                }
            } else {
                PRes::Hit { v, pos: p2 }
            }
        } else {
            PRes::Miss { e: ParserError { cause: ParseErrorKind::ExpectExpression, location: ts[p2].loc }, pos: p2 }
        },
        PRes::Miss { e, pos: p2 } => PRes::Miss { e, pos: p2 },
    }
}

#[verifier::opaque]
pub open spec fn p_expression(ts: Seq<TokenV>, pos: int, strict: bool) -> PRes<ExprV>
    decreases ts.len() - pos, 31int,
{
    p_assign(ts, pos, strict)
}

/// A variable declaration, entered after the `var` keyword.
pub open spec fn p_var_decl(ts: Seq<TokenV>, pos: int, strict: bool) -> PRes<StmtV>
    decreases ts.len() - pos, 32int,
{
    match p_consume(ts, pos, TokenType::Identifier, strict, ParseErrorKind::ExpectVariableName) {
        PRes::Hit { v: name, pos: p1 } => {
            if t_at(ts, p1, TokenType::Equal) {
                match p_expression(ts, p1 + 1, strict) {
                    PRes::Hit { v, pos: p2 } => match p_consume(
                        ts,
                        p2,
                        TokenType::Semicolon,
                        strict,
                        ParseErrorKind::ExpectSemicolonAfterDeclaration,
                    ) {
                        PRes::Hit { pos: p3, .. } => PRes::Hit {
                            v: StmtV::Var(name, Option::Some(v)),
                            pos: p3,
                        },
                        PRes::Miss { e, .. } => PRes::Miss { e, pos: p2 },
                    },
                    PRes::Miss { e, pos: p2 } => PRes::Miss { e, pos: p2 },
                }
            } else {
                match p_consume(
                    ts,
                    p1,
                    TokenType::Semicolon,
                    strict,
                    ParseErrorKind::ExpectSemicolonAfterDeclaration,
                ) {
                    PRes::Hit { pos: p3, .. } => PRes::Hit {
                        v: StmtV::Var(name, Option::None),
                        pos: p3,
                    },
                    PRes::Miss { e, .. } => PRes::Miss { e, pos: p1 },
                }
            }
        },
        PRes::Miss { e, .. } => PRes::Miss { e, pos },
    }
}

pub open spec fn p_print(ts: Seq<TokenV>, pos: int, strict: bool) -> PRes<StmtV>
    decreases ts.len() - pos, 32int,
{
    match p_expression(ts, pos, strict) {
        PRes::Hit { v, pos: p2 } => match p_consume(
            ts,
            p2,
            TokenType::Semicolon,
            strict,
            ParseErrorKind::ExpectSemicolonAfterExpression,
        ) {
            PRes::Hit { pos: p3, .. } => PRes::Hit { v: StmtV::Print(v), pos: p3 },
            PRes::Miss { e, .. } => PRes::Miss { e, pos: p2 },
        },
        PRes::Miss { e, pos: p2 } => PRes::Miss { e, pos: p2 },
    }
}

pub open spec fn p_expr_statement(ts: Seq<TokenV>, pos: int, strict: bool) -> PRes<StmtV>
    decreases ts.len() - pos, 33int,
{
    match p_expression(ts, pos, strict) {
        PRes::Hit { v, pos: p2 } => match p_consume(
            ts,
            p2,
            TokenType::Semicolon,
            strict,
            ParseErrorKind::ExpectSemicolonAfterExpression,
        ) {
            PRes::Hit { pos: p3, .. } => PRes::Hit { v: StmtV::Expr(v), pos: p3 },
            PRes::Miss { e, .. } => PRes::Miss { e, pos: p2 },
        },
        PRes::Miss { e, pos: p2 } => PRes::Miss { e, pos: p2 },
    }
}

/// An `if` statement, entered after the `if` keyword.
pub open spec fn p_if(ts: Seq<TokenV>, pos: int, strict: bool, in_loop: bool) -> PRes<StmtV>
    decreases ts.len() - pos, 34int,
{
    match p_consume(ts, pos, TokenType::LeftParen, strict, ParseErrorKind::ExpectLeftParenAfterIf) {
        PRes::Hit { pos: p1, .. } => match p_expression(ts, p1, strict) {
            PRes::Hit { v: cond, pos: p2 } => if ok_step(p1, p2, ts.len() as int) {
                match p_consume(
                    ts,
                    p2,
                    TokenType::RightParen,
                    strict,
                    ParseErrorKind::ExpectRightParenAfterIf,
                ) {
                    PRes::Hit { pos: p3, .. } => match p_statement(ts, p3, strict, in_loop) {
                        PRes::Hit { v: then, pos: p4 } => if ok_step(p3, p4, ts.len() as int) {
                            if t_at(ts, p4, TokenType::Else) {
                                match p_statement(ts, p4 + 1, strict, in_loop) {
                                    PRes::Hit { v: els, pos: p5 } => PRes::Hit {
                                        v: StmtV::If(
                                            cond,
                                            Box::new(then),
                                            Option::Some(Box::new(els)),
                                        ),
                                        pos: p5,
                                    },
                                    PRes::Miss { e, pos: p5 } => PRes::Miss { e, pos: p5 },
                                }
                            } else {
                                PRes::Hit {
                                    v: StmtV::If(cond, Box::new(then), Option::None),
                                    pos: p4,
                                }
                            }
                        } else {
                            PRes::Miss { e: ParserError { cause: ParseErrorKind::ExpectExpression, location: ts[p4].loc }, pos: p4 }
                        },
                        PRes::Miss { e, pos: p4 } => PRes::Miss { e, pos: p4 },
                    },
                    PRes::Miss { e, .. } => PRes::Miss { e, pos: p2 },
                }
            } else {
                PRes::Miss { e: ParserError { cause: ParseErrorKind::ExpectExpression, location: ts[p2].loc }, pos: p2 }
            },
            PRes::Miss { e, pos: p2 } => PRes::Miss { e, pos: p2 },
        },
        PRes::Miss { e, .. } => PRes::Miss { e, pos },
    }
}

/// A `while` statement, entered after the `while` keyword. Its body parses
/// with `break` allowed.
pub open spec fn p_while(ts: Seq<TokenV>, pos: int, strict: bool) -> PRes<StmtV>
    decreases ts.len() - pos, 34int,
{
    match p_consume(
        ts,
        pos,
        TokenType::LeftParen,
        strict,
        ParseErrorKind::ExpectLeftParenAfterWhile,
    ) {
        PRes::Hit { pos: p1, .. } => match p_expression(ts, p1, strict) {
            PRes::Hit { v: cond, pos: p2 } => if ok_step(p1, p2, ts.len() as int) {
                match p_consume(
                    ts,
                    p2,
                    TokenType::RightParen,
                    strict,
                    ParseErrorKind::ExpectRightParenAfterWhile,
                ) {
                    PRes::Hit { pos: p3, .. } => match p_statement(ts, p3, strict, true) {
                        PRes::Hit { v: body, pos: p4 } => PRes::Hit {
                            v: StmtV::While(cond, Box::new(body)),
                            pos: p4,
                        },
                        PRes::Miss { e, pos: p4 } => PRes::Miss { e, pos: p4 },
                    },
                    PRes::Miss { e, .. } => PRes::Miss { e, pos: p2 },
                }
            } else {
                PRes::Miss { e: ParserError { cause: ParseErrorKind::ExpectExpression, location: ts[p2].loc }, pos: p2 }
            },
            PRes::Miss { e, pos: p2 } => PRes::Miss { e, pos: p2 },
        },
        PRes::Miss { e, .. } => PRes::Miss { e, pos },
    }
}

/// The initializer clause of a `for` statement: nothing, a variable
/// declaration, or an expression statement.
pub open spec fn p_for_init(ts: Seq<TokenV>, pos: int, strict: bool) -> PRes<Option<StmtV>>
    decreases ts.len() - pos, 34int,
{
    if t_at(ts, pos, TokenType::Semicolon) {
        PRes::Hit { v: Option::None, pos: pos + 1 }
    } else if t_at(ts, pos, TokenType::Var) {
        match p_var_decl(ts, pos + 1, strict) {
            PRes::Hit { v, pos: p } => PRes::Hit { v: Option::Some(v), pos: p },
            PRes::Miss { e, pos: p } => PRes::Miss { e, pos: p },
        }
    } else {
        match p_expr_statement(ts, pos, strict) {
            PRes::Hit { v, pos: p } => PRes::Hit { v: Option::Some(v), pos: p },
            PRes::Miss { e, pos: p } => PRes::Miss { e, pos: p },
        }
    }
}

/// The condition clause of a `for` statement; absent, it is the literal
/// `true`.
pub open spec fn p_for_cond(ts: Seq<TokenV>, pos: int, strict: bool) -> PRes<ExprV>
    decreases ts.len() - pos, 34int,
{
    if !t_at(ts, pos, TokenType::Semicolon) {
        p_expression(ts, pos, strict)
    } else {
        PRes::Hit { v: ExprV::Literal(LitV::Boolean(true)), pos }
    }
}

/// The increment clause of a `for` statement, if any.
pub open spec fn p_for_inc(ts: Seq<TokenV>, pos: int, strict: bool) -> PRes<Option<ExprV>>
    decreases ts.len() - pos, 34int,
{
    if !t_at(ts, pos, TokenType::RightParen) {
        match p_expression(ts, pos, strict) {
            PRes::Hit { v, pos: p } => PRes::Hit { v: Option::Some(v), pos: p },
            PRes::Miss { e, pos: p } => PRes::Miss { e, pos: p },
        }
    } else {
        PRes::Hit { v: Option::None, pos }
    }
}

/// A `for` statement, entered after the `for` keyword. It desugars into a
/// while loop: the body and the increment form a block, the loop runs while
/// the condition (or `true`, if absent) holds, and the initializer, if any,
/// runs once before it in a block of its own.
pub open spec fn p_for(ts: Seq<TokenV>, pos: int, strict: bool) -> PRes<StmtV>
    decreases ts.len() - pos, 35int,
{
    match p_consume(
        ts,
        pos,
        TokenType::LeftParen,
        strict,
        ParseErrorKind::ExpectLeftParenAfterFor,
    ) {
        PRes::Hit { pos: p1, .. } => match p_for_init(ts, p1, strict) {
            PRes::Hit { v: init, pos: pi } => if ok_step(pos, pi, ts.len() as int) {
                match p_for_cond(ts, pi, strict) {
                    PRes::Hit { v: cond, pos: pc0 } => if ok_step(pos, pc0, ts.len() as int) {
                        match p_consume(
                            ts,
                            pc0,
                            TokenType::Semicolon,
                            strict,
                            ParseErrorKind::ExpectSemicolonAfterLoopCondition,
                        ) {
                            PRes::Hit { pos: pc, .. } => match p_for_inc(ts, pc, strict) {
                                PRes::Hit { v: inc, pos: pin } => if ok_step(
                                    pos,
                                    pin,
                                    ts.len() as int,
                                ) {
                                    match p_consume(
                                        ts,
                                        pin,
                                        TokenType::RightParen,
                                        strict,
                                        ParseErrorKind::ExpectRightParenAfterForClauses,
                                    ) {
                                        PRes::Hit { pos: pr, .. } => match p_statement(
                                            ts,
                                            pr,
                                            strict,
                                            true,
                                        ) {
                                            PRes::Hit { v: body, pos: pb } => PRes::Hit {
                                                v: for_desugar(init, cond, inc, body),
                                                pos: pb,
                                            },
                                            PRes::Miss { e, pos: pb } => PRes::Miss { e, pos: pb },
                                        },
                                        PRes::Miss { e, .. } => PRes::Miss { e, pos: pin },
                                    }
                                } else {
                                    PRes::Miss { e: ParserError { cause: ParseErrorKind::ExpectExpression, location: ts[pin].loc }, pos: pin }
                                },
                                PRes::Miss { e, pos: p } => PRes::Miss { e, pos: p },
                            },
                            PRes::Miss { e, .. } => PRes::Miss { e, pos: pc0 },
                        }
                    } else {
                        PRes::Miss { e: ParserError { cause: ParseErrorKind::ExpectExpression, location: ts[pc0].loc }, pos: pc0 }
                    },
                    PRes::Miss { e, pos: p } => PRes::Miss { e, pos: p },
                }
            } else {
                PRes::Miss { e: ParserError { cause: ParseErrorKind::ExpectExpression, location: ts[pi].loc }, pos: pi }
            },
            PRes::Miss { e, pos: p } => PRes::Miss { e, pos: p },
        },
        PRes::Miss { e, .. } => PRes::Miss { e, pos },
    }
}

/// The desugared shape of a `for` statement.
pub open spec fn for_desugar(
    init: Option<StmtV>,
    cond: ExprV,
    inc: Option<ExprV>,
    body: StmtV,
) -> StmtV {
    let inner = match inc {
        Option::Some(i) => StmtV::Block(seq![body, StmtV::Expr(i)]),
        Option::None => body,
    };
    let looped = StmtV::While(cond, Box::new(inner));
    match init {
        Option::Some(s) => StmtV::Block(seq![s, looped]),
        Option::None => looped,
    }
}

/// The statements of a block, entered after the opening brace, up to and
/// including the closing brace.
pub open spec fn p_block_items(ts: Seq<TokenV>, pos: int, strict: bool, in_loop: bool) -> PRes<
    Seq<StmtV>,
>
    decreases ts.len() - pos, 38int,
{
    if 0 <= pos < ts.len() && !t_at(ts, pos, TokenType::RightBrace) && ts[pos].token_type
        != TokenType::Eof {
        match p_declaration(ts, pos, strict, in_loop) {
            PRes::Hit { v, pos: p2 } => if ok_step(pos, p2, ts.len() as int) {
                match p_block_items(ts, p2, strict, in_loop) {
                    PRes::Hit { v: rest, pos: p3 } => PRes::Hit { v: seq![v] + rest, pos: p3 },
                    PRes::Miss { e, pos: p3 } => PRes::Miss { e, pos: p3 },
                }
            } else {
                PRes::Miss { e: ParserError { cause: ParseErrorKind::ExpectExpression, location: ts[p2].loc }, pos: p2 }
            },
            PRes::Miss { e, pos: p2 } => PRes::Miss { e, pos: p2 },
        }
    } else {
        match p_consume(
            ts,
            pos,
            TokenType::RightBrace,
            strict,
            ParseErrorKind::ExpectRightBraceAfterBlock,
        ) {
            PRes::Hit { pos: p, .. } => PRes::Hit { v: Seq::empty(), pos: p },
            PRes::Miss { e, .. } => PRes::Miss { e, pos },
        }
    }
}

pub open spec fn p_statement(ts: Seq<TokenV>, pos: int, strict: bool, in_loop: bool) -> PRes<StmtV>
    decreases ts.len() - pos, 36int,
{
    if t_at(ts, pos, TokenType::Print) {
        p_print(ts, pos + 1, strict)
    } else if t_at(ts, pos, TokenType::If) {
        p_if(ts, pos + 1, strict, in_loop)
    } else if t_at(ts, pos, TokenType::For) {
        p_for(ts, pos + 1, strict)
    } else if t_at(ts, pos, TokenType::While) {
        p_while(ts, pos + 1, strict)
    } else if t_at(ts, pos, TokenType::LeftBrace) {
        match p_block_items(ts, pos + 1, strict, in_loop) {
            PRes::Hit { v, pos: p } => PRes::Hit { v: StmtV::Block(v), pos: p },
            PRes::Miss { e, pos: p } => PRes::Miss { e, pos: p },
        }
    } else if t_at(ts, pos, TokenType::Break) {
        if !in_loop {
            PRes::Miss {
                e: ParserError { cause: ParseErrorKind::BreakOutsideLoop, location: ts[pos].loc },
                pos: pos + 1,
            }
        } else {
            match p_consume(
                ts,
                pos + 1,
                TokenType::Semicolon,
                strict,
                ParseErrorKind::ExpectSemicolonAfterBreak,
            ) {
                PRes::Hit { pos: p, .. } => PRes::Hit { v: StmtV::Break, pos: p },
                PRes::Miss { e, .. } => PRes::Miss { e, pos: pos + 1 },
            }
        }
    } else {
        p_expr_statement(ts, pos, strict)
    }
}

pub open spec fn p_declaration(ts: Seq<TokenV>, pos: int, strict: bool, in_loop: bool) -> PRes<
    StmtV,
>
    decreases ts.len() - pos, 37int,
{
    if t_at(ts, pos, TokenType::Var) {
        p_var_decl(ts, pos + 1, strict)
    } else {
        p_statement(ts, pos, strict, in_loop)
    }
}

/// The keywords at which panic-mode recovery resumes parsing.
pub open spec fn is_sync_point(ty: TokenType) -> bool {
    ||| ty == TokenType::Class
    ||| ty == TokenType::Var
    ||| ty == TokenType::For
    ||| ty == TokenType::Fun
    ||| ty == TokenType::If
    ||| ty == TokenType::While
    ||| ty == TokenType::Print
    ||| ty == TokenType::Return
}

/// One guarded step forward, stopping at the end marker.
pub open spec fn adv1(ts: Seq<TokenV>, pos: int) -> int {
    if 0 <= pos < ts.len() && ts[pos].token_type != TokenType::Eof {
        pos + 1
    } else {
        pos
    }
}

pub open spec fn sync_scan(ts: Seq<TokenV>, pos: int) -> int
    decreases ts.len() - pos,
{
    if 0 <= pos < ts.len() && ts[pos].token_type != TokenType::Eof && !is_sync_point(
        ts[pos].token_type,
    ) {
        sync_scan(ts, pos + 1)
    } else {
        pos
    }
}

/// Where the parser stands after panic-mode recovery from an error at `pos`:
/// one token is discarded, then everything up to the next statement-starting
/// keyword or the end.
pub open spec fn p_sync(ts: Seq<TokenV>, pos: int) -> int {
    sync_scan(ts, adv1(ts, pos))
}

proof fn lemma_sync_scan_bounds(ts: Seq<TokenV>, pos: int)
    requires
        0 <= pos <= ts.len(),
    ensures
        pos <= sync_scan(ts, pos) <= ts.len(),
    decreases ts.len() - pos,
{
    if 0 <= pos < ts.len() && ts[pos].token_type != TokenType::Eof && !is_sync_point(
        ts[pos].token_type,
    ) {
        lemma_sync_scan_bounds(ts, pos + 1);
    }
}

/// Everything one parse of a whole program yields: the statements and the
/// errors that panic-mode recovery gathered.
#[verifier::ext_equal]
pub struct ProgV {
    pub stmts: Seq<StmtV>,
    pub errors: Seq<ParserError>,
}

/// The program from `pos` on: declarations until the end marker, with
/// panic-mode recovery after each error.
#[verifier::opaque]
pub open spec fn p_program(ts: Seq<TokenV>, pos: int, strict: bool) -> ProgV
    decreases ts.len() - pos, 39int,
    via p_program_dec
{
    if !(0 <= pos < ts.len()) || ts[pos].token_type == TokenType::Eof {
        ProgV { stmts: Seq::empty(), errors: Seq::empty() }
    } else {
        match p_declaration(ts, pos, strict, false) {
            PRes::Hit { v, pos: p2 } => if ok_step(pos, p2, ts.len() as int) {
                let rest = p_program(ts, p2, strict);
                ProgV { stmts: seq![v] + rest.stmts, errors: rest.errors }
            } else {
                ProgV { stmts: seq![v], errors: Seq::empty() }
            },
            PRes::Miss { e, pos: ep } => if pos <= ep <= ts.len() {
                let sp = p_sync(ts, ep);
                if ok_step(pos, sp, ts.len() as int) {
                    let rest = p_program(ts, sp, strict);
                    ProgV { stmts: rest.stmts, errors: seq![e] + rest.errors }
                } else {
                    ProgV { stmts: Seq::empty(), errors: seq![e] }
                }
            } else {
                ProgV { stmts: Seq::empty(), errors: seq![e] }
            },
        }
    }
}

#[via_fn]
proof fn p_program_dec(ts: Seq<TokenV>, pos: int, strict: bool) {
    if 0 <= pos < ts.len() && ts[pos].token_type != TokenType::Eof {
        match p_declaration(ts, pos, strict, false) {
            PRes::Hit { .. } => {},
            PRes::Miss { e, pos: ep } => {
                if 0 <= ep <= ts.len() {
                    lemma_sync_scan_bounds(ts, adv1(ts, ep));
                }
            },
        }
    }
}

} // verus!

verus! {


/// The defining equation of `p_unary`, for callers that keep it opaque.
#[verifier::rlimit(100)]
#[verifier::spinoff_prover]
proof fn lemma_unary_def(ts: Seq<TokenV>, pos: int, strict: bool)
    ensures
        p_unary(ts, pos, strict) == (if t_at(ts, pos, TokenType::Bang) || t_at(
            ts,
            pos,
            TokenType::Minus,
        ) {
            let op = ts[pos];
            match p_unary(ts, pos + 1, strict) {
                PRes::Hit { v, pos: p2 } => PRes::Hit {
                    v: ExprV::Unary(op, Box::new(v)),
                    pos: p2,
                },
                PRes::Miss { e, pos: p2 } => PRes::Miss { e, pos: p2 },
            }
        } else {
            p_primary(ts, pos, strict)
        }),
{
    reveal_with_fuel(p_unary, 1);
}

/// The defining equation of `p_factor`, for callers that keep it opaque.
#[verifier::rlimit(100)]
#[verifier::spinoff_prover]
proof fn lemma_factor_def(ts: Seq<TokenV>, pos: int, strict: bool)
    ensures
        p_factor(ts, pos, strict) == (match p_unary(ts, pos, strict) {
            PRes::Hit { v, pos: p2 } => if ok_step(pos, p2, ts.len() as int) {
                p_factor_more(ts, p2, v, strict)
            } else {
                PRes::Miss {
                    e: ParserError {
                        cause: ParseErrorKind::ExpectExpression,
                        location: ts[p2].loc,
                    },
                    pos: p2,
                }
            },
            PRes::Miss { e, pos: p2 } => PRes::Miss { e, pos: p2 },
        }),
{
    reveal_with_fuel(p_factor, 1);
}

/// The defining equation of `p_term`, for callers that keep it opaque.
#[verifier::rlimit(100)]
#[verifier::spinoff_prover]
proof fn lemma_term_def(ts: Seq<TokenV>, pos: int, strict: bool)
    ensures
        p_term(ts, pos, strict) == (match p_factor(ts, pos, strict) {
            PRes::Hit { v, pos: p2 } => if ok_step(pos, p2, ts.len() as int) {
                p_term_more(ts, p2, v, strict)
            } else {
                PRes::Miss {
                    e: ParserError {
                        cause: ParseErrorKind::ExpectExpression,
                        location: ts[p2].loc,
                    },
                    pos: p2,
                }
            },
            PRes::Miss { e, pos: p2 } => PRes::Miss { e, pos: p2 },
        }),
{
    reveal_with_fuel(p_term, 1);
}

/// The defining equation of `p_comparison`, for callers that keep it opaque.
#[verifier::rlimit(100)]
#[verifier::spinoff_prover]
proof fn lemma_comparison_def(ts: Seq<TokenV>, pos: int, strict: bool)
    ensures
        p_comparison(ts, pos, strict) == (match p_term(ts, pos, strict) {
            PRes::Hit { v, pos: p2 } => if ok_step(pos, p2, ts.len() as int) {
                p_comparison_more(ts, p2, v, strict)
            } else {
                PRes::Miss {
                    e: ParserError {
                        cause: ParseErrorKind::ExpectExpression,
                        location: ts[p2].loc,
                    },
                    pos: p2,
                }
            },
            PRes::Miss { e, pos: p2 } => PRes::Miss { e, pos: p2 },
        }),
{
    reveal_with_fuel(p_comparison, 1);
}

/// The defining equation of `p_equality`, for callers that keep it opaque.
#[verifier::rlimit(100)]
#[verifier::spinoff_prover]
proof fn lemma_equality_def(ts: Seq<TokenV>, pos: int, strict: bool)
    ensures
        p_equality(ts, pos, strict) == (match p_comparison(ts, pos, strict) {
            PRes::Hit { v, pos: p2 } => if ok_step(pos, p2, ts.len() as int) {
                p_equality_more(ts, p2, v, strict)
            } else {
                PRes::Miss {
                    e: ParserError {
                        cause: ParseErrorKind::ExpectExpression,
                        location: ts[p2].loc,
                    },
                    pos: p2,
                }
            },
            PRes::Miss { e, pos: p2 } => PRes::Miss { e, pos: p2 },
        }),
{
    reveal_with_fuel(p_equality, 1);
}

/// The defining equation of `p_and`, for callers that keep it opaque.
#[verifier::rlimit(100)]
#[verifier::spinoff_prover]
proof fn lemma_and_def(ts: Seq<TokenV>, pos: int, strict: bool)
    ensures
        p_and(ts, pos, strict) == (match p_equality(ts, pos, strict) {
            PRes::Hit { v, pos: p2 } => if ok_step(pos, p2, ts.len() as int) {
                p_and_more(ts, p2, v, strict)
            } else {
                PRes::Miss {
                    e: ParserError {
                        cause: ParseErrorKind::ExpectExpression,
                        location: ts[p2].loc,
                    },
                    pos: p2,
                }
            },
            PRes::Miss { e, pos: p2 } => PRes::Miss { e, pos: p2 },
        }),
{
    reveal_with_fuel(p_and, 1);
}

/// The defining equation of `p_or`, for callers that keep it opaque.
#[verifier::rlimit(100)]
#[verifier::spinoff_prover]
proof fn lemma_or_def(ts: Seq<TokenV>, pos: int, strict: bool)
    ensures
        p_or(ts, pos, strict) == (match p_and(ts, pos, strict) {
            PRes::Hit { v, pos: p2 } => if ok_step(pos, p2, ts.len() as int) {
                p_or_more(ts, p2, v, strict)
            } else {
                PRes::Miss {
                    e: ParserError {
                        cause: ParseErrorKind::ExpectExpression,
                        location: ts[p2].loc,
                    },
                    pos: p2,
                }
            },
            PRes::Miss { e, pos: p2 } => PRes::Miss { e, pos: p2 },
        }),
{
    reveal_with_fuel(p_or, 1);
}

/// The defining equation of `p_assign`, for callers that keep it opaque.
#[verifier::rlimit(100)]
#[verifier::spinoff_prover]
proof fn lemma_assign_def(ts: Seq<TokenV>, pos: int, strict: bool)
    ensures
        p_assign(ts, pos, strict) == (match p_or(ts, pos, strict) {
            PRes::Hit { v, pos: p2 } => if ok_step(pos, p2, ts.len() as int) {
                if t_at(ts, p2, TokenType::Equal) {
                    let eq = ts[p2];
                    match p_assign(ts, p2 + 1, strict) {
                        PRes::Hit { v: val, pos: p3 } => match v {
                            ExprV::Variable(name) => PRes::Hit {
                                v: ExprV::Assignment(name, Box::new(val)),
                                pos: p3,
                            },
                            _ => PRes::Miss {
                                e: ParserError {
                                    cause: ParseErrorKind::InvalidAssignmentTarget,
                                    location: eq.loc,
                                },
                                pos: p3,
                            },
                        },
                        PRes::Miss { e, pos: p3 } => PRes::Miss { e, pos: p3 },
                    }
                } else {
                    PRes::Hit { v, pos: p2 }
                }
            } else {
                PRes::Miss {
                    e: ParserError {
                        cause: ParseErrorKind::ExpectExpression,
                        location: ts[p2].loc,
                    },
                    pos: p2,
                }
            },
            PRes::Miss { e, pos: p2 } => PRes::Miss { e, pos: p2 },
        }),
{
    reveal_with_fuel(p_assign, 1);
}

/// The defining equation of `p_expression`, for callers that keep it opaque.
#[verifier::rlimit(100)]
#[verifier::spinoff_prover]
proof fn lemma_expression_def(ts: Seq<TokenV>, pos: int, strict: bool)
    ensures
        p_expression(ts, pos, strict) == p_assign(ts, pos, strict),
{
    reveal_with_fuel(p_expression, 1);
}

/// Unchanged parser configuration: the same tokens, mode, loop context and
/// gathered errors.
pub open spec fn same_config(a: Parser, b: Parser) -> bool {
    &&& a.tokens@ == b.tokens@
    &&& a.strict == b.strict
    &&& a.in_loop == b.in_loop
    &&& a.errors@ == b.errors@
}

/// The token models that the parser reads.
pub open spec fn tv(p: Parser) -> Seq<TokenV> {
    crate::scanner::toks_view(p.tokens@)
}

/// Symbol parser. Turns the scanner's tokens into statements; parse errors
/// are gathered in `errors`, and when any arose the parsed statements are
/// withheld.
pub struct Parser {
    pub tokens: Vec<Token>,
    pub curr: usize,
    pub errors: Vec<ParserError>,
    pub in_loop: bool,
    /// Whether a missing semicolon at a statement end is an error; when
    /// false, one is synthesized.
    pub strict: bool,
}


/// One successful declaration peels off the front of the program.
proof fn lemma_prog_ok(ts: Seq<TokenV>, pos: int, strict: bool, v: StmtV, p2: int)
    requires
        0 <= pos < ts.len(),
        ts[pos].token_type != TokenType::Eof,
        p_declaration(ts, pos, strict, false) == (PRes::Hit { v, pos: p2 }),
        ok_step(pos, p2, ts.len() as int),
    ensures
        p_program(ts, pos, strict).stmts == seq![v] + p_program(ts, p2, strict).stmts,
        p_program(ts, pos, strict).errors == p_program(ts, p2, strict).errors,
{
    reveal(p_program);
}

/// One failed declaration records its error and resumes after recovery.
proof fn lemma_prog_err(ts: Seq<TokenV>, pos: int, strict: bool, e: ParserError, ep: int)
    requires
        0 <= pos < ts.len(),
        ts[pos].token_type != TokenType::Eof,
        ts.last().token_type == TokenType::Eof,
        p_declaration(ts, pos, strict, false) == (PRes::<StmtV>::Miss { e, pos: ep }),
        pos <= ep <= ts.len(),
    ensures
        ok_step(pos, p_sync(ts, ep), ts.len() as int),
        p_program(ts, pos, strict).stmts == p_program(ts, p_sync(ts, ep), strict).stmts,
        p_program(ts, pos, strict).errors == seq![e] + p_program(
            ts,
            p_sync(ts, ep),
            strict,
        ).errors,
{
    reveal(p_program);
    lemma_sync_scan_bounds(ts, adv1(ts, ep));
    if ep == pos {
        assert(adv1(ts, ep) == ep + 1);
    } else {
        if ep < ts.len() && ts[ep].token_type != TokenType::Eof {
            assert(adv1(ts, ep) == ep + 1);
        } else {
            assert(adv1(ts, ep) == ep);
        }
    }
}

/// Builds the desugared shape of a `for` statement, as `for_desugar` says.
fn desugar_for(
    initializer: Option<Statement>,
    condition: Expression,
    increment: Option<Expression>,
    body: Statement,
) -> (r: Statement)
    ensures
        r@ == for_desugar(
            match initializer {
                Option::Some(s) => Option::Some(s@),
                Option::None => Option::<StmtV>::None,
            },
            condition@,
            match increment {
                Option::Some(e) => Option::Some(e@),
                Option::None => Option::<ExprV>::None,
            },
            body@,
        ),
{
    let mut out = body;
    if let Option::Some(incr) = increment {
        let mut inner: Vec<Statement> = Vec::new();
        inner.push(out);
        inner.push(Statement::Expr(incr));
        proof {
            assert(stmt_view(&Statement::Block(inner)) matches StmtV::Block(b) && b =~= seq![
                inner@[0]@,
                inner@[1]@,
            ]);
        }
        out = Statement::Block(inner);
    }
    out = Statement::While(condition, Box::new(out));
    if let Option::Some(init) = initializer {
        let mut outer: Vec<Statement> = Vec::new();
        outer.push(init);
        outer.push(out);
        proof {
            assert(stmt_view(&Statement::Block(outer)) matches StmtV::Block(b) && b =~= seq![
                outer@[0]@,
                outer@[1]@,
            ]);
        }
        out = Statement::Block(outer);
    }
    out
}

impl Parser {
    /// Sound to read from: tokens end with the end marker and the reading
    /// position is within them.
    pub open spec fn wf(&self) -> bool {
        &&& self.tokens@.len() > 0
        &&& self.tokens@.last().token_type == TokenType::Eof
        &&& self.curr < self.tokens@.len()
    }

    /// The reading position.
    pub open spec fn pos(&self) -> int {
        self.curr as int
    }

    /// Whether the parser stands inside a loop body.
    pub open spec fn loop_ctx(&self) -> bool {
        self.in_loop
    }

    /// The errors gathered so far.
    pub open spec fn errs(&self) -> Seq<ParserError> {
        self.errors@
    }

    /// A parser over the given tokens. `strict` selects file mode, where a
    /// missing semicolon is an error.
    pub fn new(tokens: Vec<Token>, strict: bool) -> (p: Parser)
        requires
            tokens@.len() > 0 ==> tokens@.last().token_type == TokenType::Eof,
        ensures
            p.tokens@ == tokens@,
            p.strict == strict,
            p.pos() == 0,
            p.loop_ctx() == false,
            p.errs() == Seq::<ParserError>::empty(),
            tokens@.len() > 0 ==> p.wf(),
    {
        Parser { tokens, curr: 0, errors: Vec::new(), in_loop: false, strict }
    }

    /// The errors gathered by `parse`.
    pub fn errors(&self) -> (r: &Vec<ParserError>)
        ensures
            r@ == self.errs(),
    {
        &self.errors
    }

    fn is_at_end(&self) -> (r: bool)
        requires
            self.wf(),
        ensures
            r == (tv(*self)[self.pos()].token_type == TokenType::Eof),
    {
        self.tokens[self.curr].token_type == TokenType::Eof
    }

    fn check(&self, ty: TokenType) -> (r: bool)
        requires
            self.wf(),
        ensures
            r == t_at(tv(*self), self.pos(), ty),
    {
        let t = self.tokens[self.curr].token_type;
        t == ty && !(t == TokenType::Eof)
    }

    fn check2(&self, a: TokenType, b: TokenType) -> (r: bool)
        requires
            self.wf(),
        ensures
            r == (t_at(tv(*self), self.pos(), a) || t_at(tv(*self), self.pos(), b)),
    {
        self.check(a) || self.check(b)
    }

    fn check4(&self, a: TokenType, b: TokenType, c: TokenType, d: TokenType) -> (r: bool)
        requires
            self.wf(),
        ensures
            r == (t_at(tv(*self), self.pos(), a) || t_at(tv(*self), self.pos(), b) || t_at(
                tv(*self),
                self.pos(),
                c,
            ) || t_at(tv(*self), self.pos(), d)),
    {
        self.check(a) || self.check(b) || self.check(c) || self.check(d)
    }

    /// Takes the token under the cursor, which must not be the end marker,
    /// and moves past it.
    fn advance_tok(&mut self) -> (t: Token)
        requires
            old(self).wf(),
            tv(*old(self))[old(self).pos()].token_type != TokenType::Eof,
        ensures
            final(self).wf(),
            same_config(*old(self), *final(self)),
            final(self).pos() == old(self).pos() + 1,
            t@ == tv(*old(self))[old(self).pos()],
    {
        proof {
            assert(tv(*self)[self.pos()] == self.tokens@[self.pos()]@);
            assert(self.curr as int != self.tokens@.len() - 1);
        }
        let n = self.tokens.len();
        let t = self.tokens[self.curr].dup();
        proof {
            assert(self.curr < n);
        }
        self.curr += 1;
        t
    }

    /// Consumes one expected token, as `p_consume` says: on a match the
    /// token; for a missing semicolon in lenient mode a synthesized token,
    /// without moving; otherwise the given error, without moving.
    fn consume(&mut self, ty: TokenType, kind: ParseErrorKind) -> (r: Result<Token, ParserError>)
        requires
            old(self).wf(),
        ensures
            final(self).wf(),
            same_config(*old(self), *final(self)),
            old(self).pos() <= final(self).pos(),
            match r {
                Ok(t) => p_consume(tv(*old(self)), old(self).pos(), ty, old(self).strict, kind)
                    == (PRes::Hit { v: t@, pos: final(self).pos() }),
                Err(pe) => p_consume(tv(*old(self)), old(self).pos(), ty, old(self).strict, kind)
                    == (PRes::<TokenV>::Miss { e: pe, pos: old(self).pos() }) && *final(self) == *old(self),
            },
    {
        if self.check(ty) {
            Ok(self.advance_tok())
        } else if !self.strict && ty == TokenType::Semicolon {
            let t = Token {
                token_type: TokenType::Identifier,
                lexeme: Vec::new(),
                literal: Literal::String(Vec::new()),
                loc: LocationInfo { column: 0, line: 0, len: 0 },
            };
            proof {
                assert(t@.lexeme =~= default_token().lexeme);
                assert(t@.literal->String_0 =~= default_token().literal->String_0);
            }
            Ok(t)
        } else {
            Err(ParserError { cause: kind, location: self.tokens[self.curr].loc })
        }
    }

    #[verifier::rlimit(100)]
    #[verifier::spinoff_prover]
    fn primary(&mut self) -> (r: Result<Expression, ParserError>)
        requires
            old(self).wf(),
        ensures
            final(self).wf(),
            same_config(*old(self), *final(self)),
            old(self).pos() <= final(self).pos() <= tv(*old(self)).len(),
            match r {
                Ok(e) => p_primary(tv(*old(self)), old(self).pos(), old(self).strict) == (PRes::Hit {
                    v: e@,
                    pos: final(self).pos(),
                }) && old(self).pos() < final(self).pos(),
                Err(pe) => p_primary(tv(*old(self)), old(self).pos(), old(self).strict)
                    == (PRes::<ExprV>::Miss { e: pe, pos: final(self).pos() }),
            },
        decreases self.tokens@.len() - self.curr, 16int,
    {
        if self.check(TokenType::False) {
            let _ = self.advance_tok();
            Ok(Expression::Literal(Literal::Boolean(false)))
        } else if self.check(TokenType::True) {
            let _ = self.advance_tok();
            Ok(Expression::Literal(Literal::Boolean(true)))
        } else if self.check(TokenType::Nil) {
            let _ = self.advance_tok();
            Ok(Expression::Literal(Literal::Nil))
        } else if self.check2(TokenType::Number, TokenType::String) {
            let t = self.advance_tok();
            Ok(Expression::Literal(t.literal))
        } else if self.check(TokenType::LeftParen) {
            let _ = self.advance_tok();
            let inner = match self.expression() {
                Ok(e) => e,
                Err(pe) => {
                    return Err(pe);
                },
            };
            match self.consume(
                TokenType::RightParen,
                ParseErrorKind::ExpectRightParenAfterExpression,
            ) {
                Ok(_) => Ok(Expression::Group(Box::new(inner))),
                Err(pe) => Err(pe),
            }
        } else if self.check(TokenType::Identifier) {
            let t = self.advance_tok();
            Ok(Expression::Variable(t))
        } else {
            Err(
                ParserError {
                    cause: ParseErrorKind::ExpectExpression,
                    location: self.tokens[self.curr].loc,
                },
            )
        }
    }

    fn unary(&mut self) -> (r: Result<Expression, ParserError>)
        requires
            old(self).wf(),
        ensures
            final(self).wf(),
            same_config(*old(self), *final(self)),
            old(self).pos() <= final(self).pos() <= tv(*old(self)).len(),
            match r {
                Ok(e) => p_unary(tv(*old(self)), old(self).pos(), old(self).strict) == (PRes::Hit {
                    v: e@,
                    pos: final(self).pos(),
                }) && old(self).pos() < final(self).pos(),
                Err(pe) => p_unary(tv(*old(self)), old(self).pos(), old(self).strict)
                    == (PRes::<ExprV>::Miss { e: pe, pos: final(self).pos() }),
            },
        decreases self.tokens@.len() - self.curr, 17int,
    {
        proof {
            lemma_unary_def(tv(*self), self.pos(), self.strict);
        }
        if self.check2(TokenType::Bang, TokenType::Minus) {
            let op = self.advance_tok();
            match self.unary() {
                Ok(right) => Ok(Expression::Unary(op, Box::new(right))),
                Err(pe) => Err(pe),
            }
        } else {
            self.primary()
        }
    }

    #[verifier::rlimit(100)]
    #[verifier::spinoff_prover]
    fn factor(&mut self) -> (r: Result<Expression, ParserError>)
        requires
            old(self).wf(),
        ensures
            final(self).wf(),
            same_config(*old(self), *final(self)),
            old(self).pos() <= final(self).pos() <= tv(*old(self)).len(),
            match r {
                Ok(e) => p_factor(tv(*old(self)), old(self).pos(), old(self).strict) == (PRes::Hit {
                    v: e@,
                    pos: final(self).pos(),
                }) && old(self).pos() < final(self).pos(),
                Err(pe) => p_factor(tv(*old(self)), old(self).pos(), old(self).strict)
                    == (PRes::<ExprV>::Miss { e: pe, pos: final(self).pos() }),
            },
        decreases self.tokens@.len() - self.curr, 19int,
    {
        let ghost ts = tv(*old(self));
        let ghost pos0 = old(self).pos();
        let ghost strict = old(self).strict;
        proof {
            lemma_factor_def(ts, pos0, strict);
        }
        let mut expr = match self.unary() {
            Ok(e) => e,
            Err(pe) => {
                return Err(pe);
            },
        };
        while self.check2(TokenType::Slash, TokenType::Star)
            invariant
                self.wf(),
                same_config(*old(self), *self),
                ts == tv(*self),
                ts == tv(*old(self)),
                pos0 == old(self).pos(),
                strict == self.strict,
                strict == old(self).strict,
                pos0 < self.pos() <= ts.len(),
                p_factor(ts, pos0, strict) == p_factor_more(ts, self.pos(), expr@, strict),
            decreases ts.len() - self.pos(),
        {
            let op = self.advance_tok();
            let right = match self.unary() {
                Ok(e) => e,
                Err(pe) => {
                    return Err(pe);
                },
            };
            expr = Expression::Binary(Box::new(expr), op, Box::new(right));
        }
        Ok(expr)
    }

    #[verifier::rlimit(100)]
    #[verifier::spinoff_prover]
    fn term(&mut self) -> (r: Result<Expression, ParserError>)
        requires
            old(self).wf(),
        ensures
            final(self).wf(),
            same_config(*old(self), *final(self)),
            old(self).pos() <= final(self).pos() <= tv(*old(self)).len(),
            match r {
                Ok(e) => p_term(tv(*old(self)), old(self).pos(), old(self).strict) == (PRes::Hit {
                    v: e@,
                    pos: final(self).pos(),
                }) && old(self).pos() < final(self).pos(),
                Err(pe) => p_term(tv(*old(self)), old(self).pos(), old(self).strict)
                    == (PRes::<ExprV>::Miss { e: pe, pos: final(self).pos() }),
            },
        decreases self.tokens@.len() - self.curr, 21int,
    {
        let ghost ts = tv(*old(self));
        let ghost pos0 = old(self).pos();
        let ghost strict = old(self).strict;
        proof {
            lemma_term_def(ts, pos0, strict);
        }
        let mut expr = match self.factor() {
            Ok(e) => e,
            Err(pe) => {
                return Err(pe);
            },
        };
        while self.check2(TokenType::Minus, TokenType::Plus)
            invariant
                self.wf(),
                same_config(*old(self), *self),
                ts == tv(*self),
                ts == tv(*old(self)),
                pos0 == old(self).pos(),
                strict == self.strict,
                strict == old(self).strict,
                pos0 < self.pos() <= ts.len(),
                p_term(ts, pos0, strict) == p_term_more(ts, self.pos(), expr@, strict),
            decreases ts.len() - self.pos(),
        {
            let op = self.advance_tok();
            let right = match self.factor() {
                Ok(e) => e,
                Err(pe) => {
                    return Err(pe);
                },
            };
            expr = Expression::Binary(Box::new(expr), op, Box::new(right));
        }
        Ok(expr)
    }

    #[verifier::rlimit(100)]
    #[verifier::spinoff_prover]
    fn comparison(&mut self) -> (r: Result<Expression, ParserError>)
        requires
            old(self).wf(),
        ensures
            final(self).wf(),
            same_config(*old(self), *final(self)),
            old(self).pos() <= final(self).pos() <= tv(*old(self)).len(),
            match r {
                Ok(e) => p_comparison(tv(*old(self)), old(self).pos(), old(self).strict)
                    == (PRes::Hit { v: e@, pos: final(self).pos() }) && old(self).pos() < final(self).pos(),
                Err(pe) => p_comparison(tv(*old(self)), old(self).pos(), old(self).strict)
                    == (PRes::<ExprV>::Miss { e: pe, pos: final(self).pos() }),
            },
        decreases self.tokens@.len() - self.curr, 23int,
    {
        let ghost ts = tv(*old(self));
        let ghost pos0 = old(self).pos();
        let ghost strict = old(self).strict;
        proof {
            lemma_comparison_def(ts, pos0, strict);
        }
        let mut expr = match self.term() {
            Ok(e) => e,
            Err(pe) => {
                return Err(pe);
            },
        };
        while self.check4(
            TokenType::GreaterEqual,
            TokenType::Greater,
            TokenType::LessEqual,
            TokenType::Less,
        )
            invariant
                self.wf(),
                same_config(*old(self), *self),
                ts == tv(*self),
                ts == tv(*old(self)),
                pos0 == old(self).pos(),
                strict == self.strict,
                strict == old(self).strict,
                pos0 < self.pos() <= ts.len(),
                p_comparison(ts, pos0, strict) == p_comparison_more(ts, self.pos(), expr@, strict),
            decreases ts.len() - self.pos(),
        {
            let op = self.advance_tok();
            let right = match self.term() {
                Ok(e) => e,
                Err(pe) => {
                    return Err(pe);
                },
            };
            expr = Expression::Binary(Box::new(expr), op, Box::new(right));
        }
        Ok(expr)
    }

    #[verifier::rlimit(100)]
    #[verifier::spinoff_prover]
    fn equality(&mut self) -> (r: Result<Expression, ParserError>)
        requires
            old(self).wf(),
        ensures
            final(self).wf(),
            same_config(*old(self), *final(self)),
            old(self).pos() <= final(self).pos() <= tv(*old(self)).len(),
            match r {
                Ok(e) => p_equality(tv(*old(self)), old(self).pos(), old(self).strict)
                    == (PRes::Hit { v: e@, pos: final(self).pos() }) && old(self).pos() < final(self).pos(),
                Err(pe) => p_equality(tv(*old(self)), old(self).pos(), old(self).strict)
                    == (PRes::<ExprV>::Miss { e: pe, pos: final(self).pos() }),
            },
        decreases self.tokens@.len() - self.curr, 25int,
    {
        let ghost ts = tv(*old(self));
        let ghost pos0 = old(self).pos();
        let ghost strict = old(self).strict;
        proof {
            lemma_equality_def(ts, pos0, strict);
        }
        let mut expr = match self.comparison() {
            Ok(e) => e,
            Err(pe) => {
                return Err(pe);
            },
        };
        while self.check2(TokenType::BangEqual, TokenType::EqualEqual)
            invariant
                self.wf(),
                same_config(*old(self), *self),
                ts == tv(*self),
                ts == tv(*old(self)),
                pos0 == old(self).pos(),
                strict == self.strict,
                strict == old(self).strict,
                pos0 < self.pos() <= ts.len(),
                p_equality(ts, pos0, strict) == p_equality_more(ts, self.pos(), expr@, strict),
            decreases ts.len() - self.pos(),
        {
            let op = self.advance_tok();
            let right = match self.comparison() {
                Ok(e) => e,
                Err(pe) => {
                    return Err(pe);
                },
            };
            expr = Expression::Binary(Box::new(expr), op, Box::new(right));
        }
        Ok(expr)
    }

    #[verifier::rlimit(100)]
    #[verifier::spinoff_prover]
    fn logical_and(&mut self) -> (r: Result<Expression, ParserError>)
        requires
            old(self).wf(),
        ensures
            final(self).wf(),
            same_config(*old(self), *final(self)),
            old(self).pos() <= final(self).pos() <= tv(*old(self)).len(),
            match r {
                Ok(e) => p_and(tv(*old(self)), old(self).pos(), old(self).strict) == (PRes::Hit {
                    v: e@,
                    pos: final(self).pos(),
                }) && old(self).pos() < final(self).pos(),
                Err(pe) => p_and(tv(*old(self)), old(self).pos(), old(self).strict) == (PRes::<ExprV>::Miss {
                    e: pe,
                    pos: final(self).pos(),
                }),
            },
        decreases self.tokens@.len() - self.curr, 27int,
    {
        let ghost ts = tv(*old(self));
        let ghost pos0 = old(self).pos();
        let ghost strict = old(self).strict;
        proof {
            lemma_and_def(ts, pos0, strict);
        }
        let mut expr = match self.equality() {
            Ok(e) => e,
            Err(pe) => {
                return Err(pe);
            },
        };
        while self.check(TokenType::And)
            invariant
                self.wf(),
                same_config(*old(self), *self),
                ts == tv(*self),
                ts == tv(*old(self)),
                pos0 == old(self).pos(),
                strict == self.strict,
                strict == old(self).strict,
                pos0 < self.pos() <= ts.len(),
                p_and(ts, pos0, strict) == p_and_more(ts, self.pos(), expr@, strict),
            decreases ts.len() - self.pos(),
        {
            let op = self.advance_tok();
            let right = match self.equality() {
                Ok(e) => e,
                Err(pe) => {
                    return Err(pe);
                },
            };
            expr = Expression::Logical(Box::new(expr), op, Box::new(right));
        }
        Ok(expr)
    }

    #[verifier::rlimit(100)]
    #[verifier::spinoff_prover]
    fn logical_or(&mut self) -> (r: Result<Expression, ParserError>)
        requires
            old(self).wf(),
        ensures
            final(self).wf(),
            same_config(*old(self), *final(self)),
            old(self).pos() <= final(self).pos() <= tv(*old(self)).len(),
            match r {
                Ok(e) => p_or(tv(*old(self)), old(self).pos(), old(self).strict) == (PRes::Hit {
                    v: e@,
                    pos: final(self).pos(),
                }) && old(self).pos() < final(self).pos(),
                Err(pe) => p_or(tv(*old(self)), old(self).pos(), old(self).strict) == (PRes::<ExprV>::Miss {
                    e: pe,
                    pos: final(self).pos(),
                }),
            },
        decreases self.tokens@.len() - self.curr, 29int,
    {
        let ghost ts = tv(*old(self));
        let ghost pos0 = old(self).pos();
        let ghost strict = old(self).strict;
        proof {
            lemma_or_def(ts, pos0, strict);
        }
        let mut expr = match self.logical_and() {
            Ok(e) => e,
            Err(pe) => {
                return Err(pe);
            },
        };
        while self.check(TokenType::Or)
            invariant
                self.wf(),
                same_config(*old(self), *self),
                ts == tv(*self),
                ts == tv(*old(self)),
                pos0 == old(self).pos(),
                strict == self.strict,
                strict == old(self).strict,
                pos0 < self.pos() <= ts.len(),
                p_or(ts, pos0, strict) == p_or_more(ts, self.pos(), expr@, strict),
            decreases ts.len() - self.pos(),
        {
            let op = self.advance_tok();
            let right = match self.logical_and() {
                Ok(e) => e,
                Err(pe) => {
                    return Err(pe);
                },
            };
            expr = Expression::Logical(Box::new(expr), op, Box::new(right));
        }
        Ok(expr)
    }

    fn assignment(&mut self) -> (r: Result<Expression, ParserError>)
        requires
            old(self).wf(),
        ensures
            final(self).wf(),
            same_config(*old(self), *final(self)),
            old(self).pos() <= final(self).pos() <= tv(*old(self)).len(),
            match r {
                Ok(e) => p_assign(tv(*old(self)), old(self).pos(), old(self).strict) == (PRes::Hit {
                    v: e@,
                    pos: final(self).pos(),
                }) && old(self).pos() < final(self).pos(),
                Err(pe) => p_assign(tv(*old(self)), old(self).pos(), old(self).strict)
                    == (PRes::<ExprV>::Miss { e: pe, pos: final(self).pos() }),
            },
        decreases self.tokens@.len() - self.curr, 30int,
    {
        proof {
            lemma_assign_def(tv(*self), self.pos(), self.strict);
        }
        let expr = match self.logical_or() {
            Ok(e) => e,
            Err(pe) => {
                return Err(pe);
            },
        };
        if self.check(TokenType::Equal) {
            let equals = self.advance_tok();
            let value = match self.assignment() {
                Ok(e) => e,
                Err(pe) => {
                    return Err(pe);
                },
            };
            match expr {
                Expression::Variable(name) => Ok(Expression::Assignment(name, Box::new(value))),
                _ => Err(
                    ParserError {
                        cause: ParseErrorKind::InvalidAssignmentTarget,
                        location: equals.loc,
                    },
                ),
            }
        } else {
            Ok(expr)
        }
    }

    fn expression(&mut self) -> (r: Result<Expression, ParserError>)
        requires
            old(self).wf(),
        ensures
            final(self).wf(),
            same_config(*old(self), *final(self)),
            old(self).pos() <= final(self).pos() <= tv(*old(self)).len(),
            match r {
                Ok(e) => p_expression(tv(*old(self)), old(self).pos(), old(self).strict)
                    == (PRes::Hit { v: e@, pos: final(self).pos() }) && old(self).pos() < final(self).pos(),
                Err(pe) => p_expression(tv(*old(self)), old(self).pos(), old(self).strict)
                    == (PRes::<ExprV>::Miss { e: pe, pos: final(self).pos() }),
            },
        decreases self.tokens@.len() - self.curr, 31int,
    {
        proof {
            lemma_expression_def(tv(*self), self.pos(), self.strict);
        }
        self.assignment()
    }
}

} // verus!

verus! {

/// A block-items result extended on the left with already parsed statements.
pub open spec fn block_concat(prefix: Seq<StmtV>, rest: PRes<Seq<StmtV>>) -> PRes<Seq<StmtV>> {
    match rest {
        PRes::Hit { v, pos } => PRes::Hit { v: prefix + v, pos },
        PRes::Miss { e, pos } => PRes::Miss { e, pos },
    }
}

/// A program result extended on the left with already parsed statements and
/// already gathered errors.
pub open spec fn prog_concat(stmts: Seq<StmtV>, errors: Seq<ParserError>, rest: ProgV) -> ProgV {
    ProgV { stmts: stmts + rest.stmts, errors: errors + rest.errors }
}

impl Parser {
    /// Parses a variable declaration, entered after the `var` keyword.
    fn var_declaration(&mut self) -> (r: Result<Statement, ParserError>)
        requires
            old(self).wf(),
        ensures
            final(self).wf(),
            same_config(*old(self), *final(self)),
            old(self).pos() <= final(self).pos() <= tv(*old(self)).len(),
            match r {
                Ok(s) => p_var_decl(tv(*old(self)), old(self).pos(), old(self).strict)
                    == (PRes::Hit { v: s@, pos: final(self).pos() }),
                Err(pe) => p_var_decl(tv(*old(self)), old(self).pos(), old(self).strict)
                    == (PRes::<StmtV>::Miss { e: pe, pos: final(self).pos() }),
            },
        decreases self.tokens@.len() - self.curr, 32int,
    {
        let name = match self.consume(TokenType::Identifier, ParseErrorKind::ExpectVariableName) {
            Ok(t) => t,
            Err(pe) => {
                return Err(pe);
            },
        };
        if self.check(TokenType::Equal) {
            let _ = self.advance_tok();
            let init = match self.expression() {
                Ok(e) => e,
                Err(pe) => {
                    return Err(pe);
                },
            };
            match self.consume(
                TokenType::Semicolon,
                ParseErrorKind::ExpectSemicolonAfterDeclaration,
            ) {
                Ok(_) => Ok(Statement::Var(name, Option::Some(init))),
                Err(pe) => Err(pe),
            }
        } else {
            match self.consume(
                TokenType::Semicolon,
                ParseErrorKind::ExpectSemicolonAfterDeclaration,
            ) {
                Ok(_) => Ok(Statement::Var(name, Option::None)),
                Err(pe) => Err(pe),
            }
        }
    }

    /// Parses a print statement, entered after the `print` keyword.
    fn print_statement(&mut self) -> (r: Result<Statement, ParserError>)
        requires
            old(self).wf(),
        ensures
            final(self).wf(),
            same_config(*old(self), *final(self)),
            old(self).pos() <= final(self).pos() <= tv(*old(self)).len(),
            match r {
                Ok(s) => p_print(tv(*old(self)), old(self).pos(), old(self).strict) == (PRes::Hit {
                    v: s@,
                    pos: final(self).pos(),
                }) && old(self).pos() < final(self).pos(),
                Err(pe) => p_print(tv(*old(self)), old(self).pos(), old(self).strict)
                    == (PRes::<StmtV>::Miss { e: pe, pos: final(self).pos() }),
            },
        decreases self.tokens@.len() - self.curr, 32int,
    {
        let value = match self.expression() {
            Ok(e) => e,
            Err(pe) => {
                return Err(pe);
            },
        };
        match self.consume(TokenType::Semicolon, ParseErrorKind::ExpectSemicolonAfterExpression) {
            Ok(_) => Ok(Statement::Print(value)),
            Err(pe) => Err(pe),
        }
    }

    /// Parses an expression statement.
    fn expr_statement(&mut self) -> (r: Result<Statement, ParserError>)
        requires
            old(self).wf(),
        ensures
            final(self).wf(),
            same_config(*old(self), *final(self)),
            old(self).pos() <= final(self).pos() <= tv(*old(self)).len(),
            match r {
                Ok(s) => p_expr_statement(tv(*old(self)), old(self).pos(), old(self).strict)
                    == (PRes::Hit { v: s@, pos: final(self).pos() }) && old(self).pos() < final(self).pos(),
                Err(pe) => p_expr_statement(tv(*old(self)), old(self).pos(), old(self).strict)
                    == (PRes::<StmtV>::Miss { e: pe, pos: final(self).pos() }),
            },
        decreases self.tokens@.len() - self.curr, 33int,
    {
        let value = match self.expression() {
            Ok(e) => e,
            Err(pe) => {
                return Err(pe);
            },
        };
        match self.consume(TokenType::Semicolon, ParseErrorKind::ExpectSemicolonAfterExpression) {
            Ok(_) => Ok(Statement::Expr(value)),
            Err(pe) => Err(pe),
        }
    }

    /// Parses an `if` statement, entered after the `if` keyword.
    #[verifier::rlimit(100)]
    fn if_statement(&mut self) -> (r: Result<Statement, ParserError>)
        requires
            old(self).wf(),
        ensures
            final(self).wf(),
            same_config(*old(self), *final(self)),
            old(self).pos() <= final(self).pos() <= tv(*old(self)).len(),
            match r {
                Ok(s) => p_if(tv(*old(self)), old(self).pos(), old(self).strict, old(self).in_loop)
                    == (PRes::Hit { v: s@, pos: final(self).pos() }) && old(self).pos() < final(self).pos(),
                Err(pe) => p_if(
                    tv(*old(self)),
                    old(self).pos(),
                    old(self).strict,
                    old(self).in_loop,
                ) == (PRes::<StmtV>::Miss { e: pe, pos: final(self).pos() }),
            },
        decreases self.tokens@.len() - self.curr, 34int,
    {
        let _ = match self.consume(TokenType::LeftParen, ParseErrorKind::ExpectLeftParenAfterIf) {
            Ok(t) => t,
            Err(pe) => {
                return Err(pe);
            },
        };
        let cond = match self.expression() {
            Ok(e) => e,
            Err(pe) => {
                return Err(pe);
            },
        };
        let _ = match self.consume(TokenType::RightParen, ParseErrorKind::ExpectRightParenAfterIf) {
            Ok(t) => t,
            Err(pe) => {
                return Err(pe);
            },
        };
        let then_branch = match self.statement() {
            Ok(s) => s,
            Err(pe) => {
                return Err(pe);
            },
        };
        if self.check(TokenType::Else) {
            let _ = self.advance_tok();
            let else_branch = match self.statement() {
                Ok(s) => s,
                Err(pe) => {
                    return Err(pe);
                },
            };
            Ok(
                Statement::If(
                    cond,
                    Box::new(then_branch),
                    Option::Some(Box::new(else_branch)),
                ),
            )
        } else {
            Ok(Statement::If(cond, Box::new(then_branch), Option::None))
        }
    }

    /// Parses a `while` statement, entered after the `while` keyword. Its
    /// body parses with `break` allowed; the surrounding loop context is
    /// restored on every way out.
    #[verifier::rlimit(100)]
    fn while_statement(&mut self) -> (r: Result<Statement, ParserError>)
        requires
            old(self).wf(),
        ensures
            final(self).wf(),
            same_config(*old(self), *final(self)),
            old(self).pos() <= final(self).pos() <= tv(*old(self)).len(),
            match r {
                Ok(s) => p_while(tv(*old(self)), old(self).pos(), old(self).strict) == (PRes::Hit {
                    v: s@,
                    pos: final(self).pos(),
                }) && old(self).pos() < final(self).pos(),
                Err(pe) => p_while(tv(*old(self)), old(self).pos(), old(self).strict)
                    == (PRes::<StmtV>::Miss { e: pe, pos: final(self).pos() }),
            },
        decreases self.tokens@.len() - self.curr, 34int,
    {
        let prev_in_loop = self.in_loop;
        self.in_loop = true;
        let result = self.while_statement_inner();
        self.in_loop = prev_in_loop;
        result
    }

    /// The body of `while_statement`, run with the loop context set.
    #[verifier::rlimit(100)]
    fn while_statement_inner(&mut self) -> (r: Result<Statement, ParserError>)
        requires
            old(self).wf(),
            old(self).in_loop,
        ensures
            final(self).wf(),
            same_config(*old(self), *final(self)),
            old(self).pos() <= final(self).pos() <= tv(*old(self)).len(),
            match r {
                Ok(s) => p_while(tv(*old(self)), old(self).pos(), old(self).strict) == (PRes::Hit {
                    v: s@,
                    pos: final(self).pos(),
                }) && old(self).pos() < final(self).pos(),
                Err(pe) => p_while(tv(*old(self)), old(self).pos(), old(self).strict)
                    == (PRes::<StmtV>::Miss { e: pe, pos: final(self).pos() }),
            },
        decreases self.tokens@.len() - self.curr, 33int,
    {
        let _ = match self.consume(
            TokenType::LeftParen,
            ParseErrorKind::ExpectLeftParenAfterWhile,
        ) {
            Ok(t) => t,
            Err(pe) => {
                return Err(pe);
            },
        };
        let cond = match self.expression() {
            Ok(e) => e,
            Err(pe) => {
                return Err(pe);
            },
        };
        let _ = match self.consume(
            TokenType::RightParen,
            ParseErrorKind::ExpectRightParenAfterWhile,
        ) {
            Ok(t) => t,
            Err(pe) => {
                return Err(pe);
            },
        };
        let body = match self.statement() {
            Ok(s) => s,
            Err(pe) => {
                return Err(pe);
            },
        };
        Ok(Statement::While(cond, Box::new(body)))
    }

    /// Parses a `for` statement, entered after the `for` keyword, and
    /// desugars it into a while loop as `for_desugar` says. Its clauses and
    /// body parse with `break` allowed; the surrounding loop context is
    /// restored on every way out.
    #[verifier::rlimit(100)]
    fn for_statement(&mut self) -> (r: Result<Statement, ParserError>)
        requires
            old(self).wf(),
        ensures
            final(self).wf(),
            same_config(*old(self), *final(self)),
            old(self).pos() <= final(self).pos() <= tv(*old(self)).len(),
            match r {
                Ok(s) => p_for(tv(*old(self)), old(self).pos(), old(self).strict) == (PRes::Hit {
                    v: s@,
                    pos: final(self).pos(),
                }) && old(self).pos() < final(self).pos(),
                Err(pe) => p_for(tv(*old(self)), old(self).pos(), old(self).strict)
                    == (PRes::<StmtV>::Miss { e: pe, pos: final(self).pos() }),
            },
        decreases self.tokens@.len() - self.curr, 34int,
    {
        let prev_in_loop = self.in_loop;
        self.in_loop = true;
        let result = self.for_statement_inner();
        self.in_loop = prev_in_loop;
        result
    }

    /// The body of `for_statement`, run with the loop context set.
    #[verifier::rlimit(100)]
    fn for_statement_inner(&mut self) -> (r: Result<Statement, ParserError>)
        requires
            old(self).wf(),
            old(self).in_loop,
        ensures
            final(self).wf(),
            same_config(*old(self), *final(self)),
            old(self).pos() <= final(self).pos() <= tv(*old(self)).len(),
            match r {
                Ok(s) => p_for(tv(*old(self)), old(self).pos(), old(self).strict) == (PRes::Hit {
                    v: s@,
                    pos: final(self).pos(),
                }) && old(self).pos() < final(self).pos(),
                Err(pe) => p_for(tv(*old(self)), old(self).pos(), old(self).strict)
                    == (PRes::<StmtV>::Miss { e: pe, pos: final(self).pos() }),
            },
        decreases self.tokens@.len() - self.curr, 33int,
    {
        let _ = match self.consume(TokenType::LeftParen, ParseErrorKind::ExpectLeftParenAfterFor) {
            Ok(t) => t,
            Err(pe) => {
                return Err(pe);
            },
        };
        let initializer = match self.for_initializer() {
            Ok(o) => o,
            Err(pe) => {
                return Err(pe);
            },
        };
        let condition = match self.for_condition() {
            Ok(e) => e,
            Err(pe) => {
                return Err(pe);
            },
        };
        let _ = match self.consume(
            TokenType::Semicolon,
            ParseErrorKind::ExpectSemicolonAfterLoopCondition,
        ) {
            Ok(t) => t,
            Err(pe) => {
                return Err(pe);
            },
        };
        let increment = match self.for_increment() {
            Ok(o) => o,
            Err(pe) => {
                return Err(pe);
            },
        };
        self.for_statement_tail(initializer, condition, increment)
    }

    /// The initializer clause of a `for` statement.
    fn for_initializer(&mut self) -> (r: Result<Option<Statement>, ParserError>)
        requires
            old(self).wf(),
        ensures
            final(self).wf(),
            same_config(*old(self), *final(self)),
            old(self).pos() <= final(self).pos() <= tv(*old(self)).len(),
            match r {
                Ok(o) => p_for_init(tv(*old(self)), old(self).pos(), old(self).strict)
                    == (PRes::Hit {
                    v: match o {
                        Option::Some(s) => Option::Some(s@),
                        Option::None => Option::<StmtV>::None,
                    },
                    pos: final(self).pos(),
                }) && old(self).pos() < final(self).pos(),
                Err(pe) => p_for_init(tv(*old(self)), old(self).pos(), old(self).strict)
                    == (PRes::<Option<StmtV>>::Miss { e: pe, pos: final(self).pos() }),
            },
        decreases self.tokens@.len() - self.curr, 34int,
    {
        if self.check(TokenType::Semicolon) {
            let _ = self.advance_tok();
            Ok(Option::None)
        } else if self.check(TokenType::Var) {
            let _ = self.advance_tok();
            match self.var_declaration() {
                Ok(s) => Ok(Option::Some(s)),
                Err(pe) => Err(pe),
            }
        } else {
            match self.expr_statement() {
                Ok(s) => Ok(Option::Some(s)),
                Err(pe) => Err(pe),
            }
        }
    }

    /// The condition clause of a `for` statement; absent, the literal `true`.
    fn for_condition(&mut self) -> (r: Result<Expression, ParserError>)
        requires
            old(self).wf(),
        ensures
            final(self).wf(),
            same_config(*old(self), *final(self)),
            old(self).pos() <= final(self).pos() <= tv(*old(self)).len(),
            match r {
                Ok(e) => p_for_cond(tv(*old(self)), old(self).pos(), old(self).strict)
                    == (PRes::Hit { v: e@, pos: final(self).pos() }),
                Err(pe) => p_for_cond(tv(*old(self)), old(self).pos(), old(self).strict)
                    == (PRes::<ExprV>::Miss { e: pe, pos: final(self).pos() }),
            },
        decreases self.tokens@.len() - self.curr, 34int,
    {
        if !self.check(TokenType::Semicolon) {
            self.expression()
        } else {
            Ok(Expression::Literal(Literal::Boolean(true)))
        }
    }

    /// The increment clause of a `for` statement, if any.
    fn for_increment(&mut self) -> (r: Result<Option<Expression>, ParserError>)
        requires
            old(self).wf(),
        ensures
            final(self).wf(),
            same_config(*old(self), *final(self)),
            old(self).pos() <= final(self).pos() <= tv(*old(self)).len(),
            match r {
                Ok(o) => p_for_inc(tv(*old(self)), old(self).pos(), old(self).strict)
                    == (PRes::Hit {
                    v: match o {
                        Option::Some(e) => Option::Some(e@),
                        Option::None => Option::<ExprV>::None,
                    },
                    pos: final(self).pos(),
                }),
                Err(pe) => p_for_inc(tv(*old(self)), old(self).pos(), old(self).strict)
                    == (PRes::<Option<ExprV>>::Miss { e: pe, pos: final(self).pos() }),
            },
        decreases self.tokens@.len() - self.curr, 34int,
    {
        if !self.check(TokenType::RightParen) {
            match self.expression() {
                Ok(e) => Ok(Option::Some(e)),
                Err(pe) => Err(pe),
            }
        } else {
            Ok(Option::None)
        }
    }

    /// The last clauses of a `for` statement: the closing parenthesis, the
    /// body, and the desugaring.
    #[verifier::rlimit(100)]
    fn for_statement_tail(
        &mut self,
        initializer: Option<Statement>,
        condition: Expression,
        increment: Option<Expression>,
    ) -> (r: Result<Statement, ParserError>)
        requires
            old(self).wf(),
            old(self).in_loop,
        ensures
            final(self).wf(),
            same_config(*old(self), *final(self)),
            old(self).pos() <= final(self).pos() <= tv(*old(self)).len(),
            ({
                let iv = match initializer {
                    Option::Some(s) => Option::Some(s@),
                    Option::None => Option::<StmtV>::None,
                };
                let nv = match increment {
                    Option::Some(e) => Option::Some(e@),
                    Option::None => Option::<ExprV>::None,
                };
                match r {
                    Ok(s) => (match p_consume(
                        tv(*old(self)),
                        old(self).pos(),
                        TokenType::RightParen,
                        old(self).strict,
                        ParseErrorKind::ExpectRightParenAfterForClauses,
                    ) {
                        PRes::Hit { pos: pr, .. } => match p_statement(
                            tv(*old(self)),
                            pr,
                            old(self).strict,
                            true,
                        ) {
                            PRes::Hit { v: body, pos: pb } => s@ == for_desugar(
                                iv,
                                condition@,
                                nv,
                                body,
                            ) && final(self).pos() == pb && old(self).pos() < pb,
                            PRes::Miss { .. } => false,
                        },
                        PRes::Miss { .. } => false,
                    }),
                    Err(pe) => (match p_consume(
                        tv(*old(self)),
                        old(self).pos(),
                        TokenType::RightParen,
                        old(self).strict,
                        ParseErrorKind::ExpectRightParenAfterForClauses,
                    ) {
                        PRes::Hit { pos: pr, .. } => p_statement(
                            tv(*old(self)),
                            pr,
                            old(self).strict,
                            true,
                        ) == (PRes::<StmtV>::Miss { e: pe, pos: final(self).pos() }),
                        PRes::Miss { e, .. } => pe == e && final(self).pos() == old(
                            self,
                        ).pos(),
                    }),
                }
            }),
        decreases self.tokens@.len() - self.curr, 34int,
    {
        let _ = match self.consume(
            TokenType::RightParen,
            ParseErrorKind::ExpectRightParenAfterForClauses,
        ) {
            Ok(t) => t,
            Err(pe) => {
                return Err(pe);
            },
        };
        let body = match self.statement() {
            Ok(s) => s,
            Err(pe) => {
                return Err(pe);
            },
        };
        Ok(desugar_for(initializer, condition, increment, body))
    }

    /// Parses a braced block, entered after the opening brace.
    #[verifier::rlimit(100)]
    fn block(&mut self) -> (r: Result<Statement, ParserError>)
        requires
            old(self).wf(),
        ensures
            final(self).wf(),
            same_config(*old(self), *final(self)),
            old(self).pos() <= final(self).pos() <= tv(*old(self)).len(),
            match r {
                Ok(s) => (match p_block_items(
                    tv(*old(self)),
                    old(self).pos(),
                    old(self).strict,
                    old(self).in_loop,
                ) {
                    PRes::Hit { v, pos } => s@ == StmtV::Block(v) && final(self).pos() == pos
                        && old(self).pos() < pos,
                    PRes::Miss { .. } => false,
                }),
                Err(pe) => p_block_items(
                    tv(*old(self)),
                    old(self).pos(),
                    old(self).strict,
                    old(self).in_loop,
                ) == (PRes::<Seq<StmtV>>::Miss { e: pe, pos: final(self).pos() }),
            },
        decreases self.tokens@.len() - self.curr, 38int,
    {
        let ghost ts = tv(*old(self));
        let ghost pos0 = old(self).pos();
        let ghost strict = old(self).strict;
        let ghost il = old(self).in_loop;
        let mut stmts: Vec<Statement> = Vec::new();
        proof {
            assert(stmts_view(stmts@) =~= Seq::<StmtV>::empty());
            match p_block_items(ts, pos0, strict, il) {
                PRes::Hit { v, pos } => {
                    assert(Seq::<StmtV>::empty() + v =~= v);
                },
                PRes::Miss { .. } => {},
            }
        }
        while !self.check(TokenType::RightBrace) && !self.is_at_end()
            invariant
                self.wf(),
                same_config(*old(self), *self),
                ts == tv(*self),
                ts == tv(*old(self)),
                pos0 == old(self).pos(),
                strict == self.strict,
                il == self.in_loop,
                pos0 <= self.pos() <= ts.len(),
                p_block_items(ts, pos0, strict, il) == block_concat(
                    stmts_view(stmts@),
                    p_block_items(ts, self.pos(), strict, il),
                ),
            decreases ts.len() - self.pos(),
        {
            let ghost pre_stmts = stmts_view(stmts@);
            match self.declaration() {
                Ok(s) => {
                    stmts.push(s);
                    proof {
                        assert(stmts_view(stmts@) =~= pre_stmts.push(stmts@.last()@));
                        match p_block_items(ts, self.pos(), strict, il) {
                            PRes::Hit { v, pos } => {
                                assert(pre_stmts + (seq![stmts@.last()@] + v) =~= stmts_view(
                                    stmts@,
                                ) + v);
                            },
                            PRes::Miss { .. } => {},
                        }
                    }
                },
                Err(pe) => {
                    return Err(pe);
                },
            }
        }
        match self.consume(TokenType::RightBrace, ParseErrorKind::ExpectRightBraceAfterBlock) {
            Ok(_) => {
                proof {
                    match p_block_items(ts, pos0, strict, il) {
                        PRes::Hit { v, pos } => {
                            assert(stmts_view(stmts@) + Seq::<StmtV>::empty() =~= stmts_view(
                                stmts@,
                            ));
                            assert(v =~= stmts_view(stmts@));
                        },
                        PRes::Miss { .. } => {},
                    }
                }
                proof {
                    assert(stmt_view(&Statement::Block(stmts)) matches StmtV::Block(b) && b
                        =~= stmts_view(stmts@));
                }
                Ok(Statement::Block(stmts))
            },
            Err(pe) => Err(pe),
        }
    }

    /// Parses one statement of any kind.
    fn statement(&mut self) -> (r: Result<Statement, ParserError>)
        requires
            old(self).wf(),
        ensures
            final(self).wf(),
            same_config(*old(self), *final(self)),
            old(self).pos() <= final(self).pos() <= tv(*old(self)).len(),
            match r {
                Ok(s) => p_statement(
                    tv(*old(self)),
                    old(self).pos(),
                    old(self).strict,
                    old(self).in_loop,
                ) == (PRes::Hit { v: s@, pos: final(self).pos() }) && old(self).pos() < final(self).pos(),
                Err(pe) => p_statement(
                    tv(*old(self)),
                    old(self).pos(),
                    old(self).strict,
                    old(self).in_loop,
                ) == (PRes::<StmtV>::Miss { e: pe, pos: final(self).pos() }),
            },
        decreases self.tokens@.len() - self.curr, 36int,
    {
        if self.check(TokenType::Print) {
            let _ = self.advance_tok();
            self.print_statement()
        } else if self.check(TokenType::If) {
            let _ = self.advance_tok();
            self.if_statement()
        } else if self.check(TokenType::For) {
            let _ = self.advance_tok();
            self.for_statement()
        } else if self.check(TokenType::While) {
            let _ = self.advance_tok();
            self.while_statement()
        } else if self.check(TokenType::LeftBrace) {
            let _ = self.advance_tok();
            self.block()
        } else if self.check(TokenType::Break) {
            let bt = self.advance_tok();
            if !self.in_loop {
                return Err(
                    ParserError { cause: ParseErrorKind::BreakOutsideLoop, location: bt.loc },
                );
            }
            match self.consume(TokenType::Semicolon, ParseErrorKind::ExpectSemicolonAfterBreak) {
                Ok(_) => Ok(Statement::Break),
                Err(pe) => Err(pe),
            }
        } else {
            self.expr_statement()
        }
    }

    /// Parses one declaration: a variable declaration or a statement.
    fn declaration(&mut self) -> (r: Result<Statement, ParserError>)
        requires
            old(self).wf(),
        ensures
            final(self).wf(),
            same_config(*old(self), *final(self)),
            old(self).pos() <= final(self).pos() <= tv(*old(self)).len(),
            match r {
                Ok(s) => p_declaration(
                    tv(*old(self)),
                    old(self).pos(),
                    old(self).strict,
                    old(self).in_loop,
                ) == (PRes::Hit { v: s@, pos: final(self).pos() }) && old(self).pos() < final(self).pos(),
                Err(pe) => p_declaration(
                    tv(*old(self)),
                    old(self).pos(),
                    old(self).strict,
                    old(self).in_loop,
                ) == (PRes::<StmtV>::Miss { e: pe, pos: final(self).pos() }),
            },
        decreases self.tokens@.len() - self.curr, 37int,
    {
        if self.check(TokenType::Var) {
            let _ = self.advance_tok();
            self.var_declaration()
        } else {
            self.statement()
        }
    }

    /// Discards tokens after an error until the next statement-starting
    /// keyword or the end, as `p_sync` says.
    fn synchronize(&mut self)
        requires
            old(self).wf(),
        ensures
            final(self).wf(),
            same_config(*old(self), *final(self)),
            final(self).pos() == p_sync(tv(*old(self)), old(self).pos()),
            old(self).pos() <= final(self).pos() <= tv(*old(self)).len(),
            tv(*old(self))[old(self).pos()].token_type != TokenType::Eof ==> old(self).pos()
                < final(self).pos(),
    {
        let ghost ts = tv(*old(self));
        if !self.is_at_end() {
            let _ = self.advance_tok();
        }
        while !self.is_at_end() && !self.at_sync_point()
            invariant
                self.wf(),
                same_config(*old(self), *self),
                ts == tv(*self),
                adv1(ts, old(self).pos()) <= self.pos() <= ts.len(),
                sync_scan(ts, adv1(ts, old(self).pos())) == sync_scan(ts, self.pos()),
            decreases ts.len() - self.pos(),
        {
            let _ = self.advance_tok();
        }
    }

    fn at_sync_point(&self) -> (r: bool)
        requires
            self.wf(),
        ensures
            r == is_sync_point(tv(*self)[self.pos()].token_type),
    {
        proof {
            assert(tv(*self)[self.pos()] == self.tokens@[self.pos()]@);
        }
        let t = self.tokens[self.curr].token_type;
        t == TokenType::Class || t == TokenType::Var || t == TokenType::For || t == TokenType::Fun
            || t == TokenType::If || t == TokenType::While || t == TokenType::Print || t
            == TokenType::Return
    }

    /// One round of the top-level loop: a declaration, or an error recorded
    /// and recovered from. Stated over `p_program` alone, so that the caller
    /// need not look into the grammar.
    #[verifier::rlimit(100)]
    fn parse_one(&mut self) -> (r: Result<Statement, ParserError>)
        requires
            old(self).wf(),
            !old(self).in_loop,
            tv(*old(self))[old(self).pos()].token_type != TokenType::Eof,
        ensures
            final(self).wf(),
            final(self).tokens@ == old(self).tokens@,
            final(self).strict == old(self).strict,
            final(self).in_loop == old(self).in_loop,
            old(self).pos() < final(self).pos() <= tv(*old(self)).len(),
            match r {
                Ok(s) => final(self).errors@ == old(self).errors@ && p_program(
                    tv(*old(self)),
                    old(self).pos(),
                    old(self).strict,
                ).stmts == seq![s@] + p_program(
                    tv(*old(self)),
                    final(self).pos(),
                    old(self).strict,
                ).stmts && p_program(
                    tv(*old(self)),
                    old(self).pos(),
                    old(self).strict,
                ).errors == p_program(
                    tv(*old(self)),
                    final(self).pos(),
                    old(self).strict,
                ).errors,
                Err(pe) => final(self).errors@ == old(self).errors@.push(pe) && p_program(tv(*old(self)), old(self).pos(), old(self).strict).stmts
                    == p_program(tv(*old(self)), final(self).pos(), old(self).strict).stmts
                    && p_program(tv(*old(self)), old(self).pos(), old(self).strict).errors
                    == seq![pe] + p_program(
                    tv(*old(self)),
                    final(self).pos(),
                    old(self).strict,
                ).errors,
            },
    {
        let ghost ts = tv(*old(self));
        let ghost pos0 = old(self).pos();
        let ghost strict = old(self).strict;
        match self.declaration() {
            Ok(s) => {
                proof {
                    lemma_prog_ok(ts, pos0, strict, s@, self.pos());
                }
                Ok(s)
            },
            Err(pe) => {
                let ghost ep = self.pos();
                self.errors.push(pe);
                self.synchronize();
                proof {
                    lemma_prog_err(ts, pos0, strict, pe, ep);
                }
                Err(pe)
            },
        }
    }

    /// Parses the whole program. Returns the statements, or an empty list if
    /// any statement failed to parse; the errors are gathered in order.
    #[verifier::rlimit(100)]
    pub fn parse(&mut self) -> (r: Vec<Statement>)
        requires
            old(self).tokens@.len() > 0 ==> old(self).wf(),
            old(self).loop_ctx() == false,
        ensures
            final(self).tokens@ == old(self).tokens@,
            final(self).strict == old(self).strict,
            final(self).loop_ctx() == false,
            ({
                let pr = p_program(
                    crate::scanner::toks_view(old(self).tokens@),
                    old(self).pos(),
                    old(self).strict,
                );
                &&& final(self).errs() == old(self).errs() + pr.errors
                &&& (pr.errors.len() == 0 ==> stmts_view(r@) == pr.stmts)
                &&& (pr.errors.len() > 0 ==> r@.len() == 0)
            }),
    {
        let mut statements: Vec<Statement> = Vec::new();
        if self.tokens.len() == 0 {
            proof {
                reveal(p_program);
                assert(stmts_view(statements@) =~= Seq::<StmtV>::empty());
                assert(final(self).errs() =~= old(self).errs() + Seq::<ParserError>::empty());
            }
            return statements;
        }
        let ghost ts = tv(*old(self));
        let ghost pos0 = old(self).pos();
        let ghost strict = old(self).strict;
        let ghost pr = p_program(ts, pos0, strict);
        let ghost mut acc_errs: Seq<ParserError> = Seq::empty();
        let mut error = false;
        proof {
            assert(stmts_view(statements@) =~= Seq::<StmtV>::empty());
            assert(self.errs() =~= old(self).errs() + acc_errs);
            assert(stmts_view(statements@) + pr.stmts =~= pr.stmts);
            assert(acc_errs + pr.errors =~= pr.errors);
            assert(pr =~= prog_concat(stmts_view(statements@), acc_errs, pr));
        }
        while !self.is_at_end()
            invariant
                self.wf(),
                self.tokens@ == old(self).tokens@,
                self.strict == old(self).strict,
                self.in_loop == false,
                ts == tv(*self),
                pos0 == old(self).pos(),
                strict == self.strict,
                pr == p_program(ts, pos0, strict),
                self.errs() == old(self).errs() + acc_errs,
                error == (acc_errs.len() > 0),
                pr == prog_concat(
                    stmts_view(statements@),
                    acc_errs,
                    p_program(ts, self.pos(), strict),
                ),
            decreases ts.len() - self.pos(),
        {
            let ghost pre_stmts = stmts_view(statements@);
            let ghost pre_errs = self.errs();
            match self.parse_one() {
                Ok(s) => {
                    statements.push(s);
                    proof {
                        let rest = p_program(ts, self.pos(), strict);
                        assert(stmts_view(statements@) =~= pre_stmts.push(statements@.last()@));
                        assert(pre_stmts + (seq![statements@.last()@] + rest.stmts)
                            =~= stmts_view(statements@) + rest.stmts);
                        assert(pr =~= prog_concat(stmts_view(statements@), acc_errs, rest));
                    }
                },
                Err(pe) => {
                    error = true;
                    proof {
                        assert(self.errs() =~= pre_errs.push(pe));
                        acc_errs = acc_errs.push(pe);
                        assert(self.errs() =~= old(self).errs() + acc_errs);
                        let rest = p_program(ts, self.pos(), strict);
                        assert(acc_errs.drop_last() + (seq![pe] + rest.errors) =~= acc_errs
                            + rest.errors);
                        assert(pr =~= prog_concat(stmts_view(statements@), acc_errs, rest));
                    }
                },
            }
        }
        proof {
            reveal(p_program);
            let rest = p_program(ts, self.pos(), strict);
            assert(rest.stmts =~= Seq::<StmtV>::empty());
            assert(rest.errors =~= Seq::<ParserError>::empty());
            assert(pr.stmts =~= stmts_view(statements@) + Seq::<StmtV>::empty());
            assert(pr.stmts =~= stmts_view(statements@));
            assert(pr.errors =~= acc_errs + Seq::<ParserError>::empty());
            assert(pr.errors =~= acc_errs);
            assert(self.errs() =~= old(self).errs() + pr.errors);
        }
        if !error {
            statements
        } else {
            let empty: Vec<Statement> = Vec::new();
            empty
        }
    }
}

} // verus!
