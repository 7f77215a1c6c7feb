//! Expressions of the language, as the parser builds them.
use crate::token::{clone_chars, lit_text, LitV, Literal, Token, TokenV};
use vstd::prelude::*;

verus! {

/// An expression node. Operator nodes keep the operator token so that the
/// evaluator can pin errors to the source.
#[derive(Debug)]
pub enum Expression {
    Binary(Box<Expression>, Token, Box<Expression>),
    Logical(Box<Expression>, Token, Box<Expression>),
    Group(Box<Expression>),
    Literal(Literal),
    Unary(Token, Box<Expression>),
    Variable(Token),
    Assignment(Token, Box<Expression>),
}

/// Mathematical model of an expression.
pub enum ExprV {
    Binary(Box<ExprV>, TokenV, Box<ExprV>),
    Logical(Box<ExprV>, TokenV, Box<ExprV>),
    Group(Box<ExprV>),
    Literal(LitV),
    Unary(TokenV, Box<ExprV>),
    Variable(TokenV),
    Assignment(TokenV, Box<ExprV>),
}

/// The model behind an expression node.
pub open spec fn expr_view(e: &Expression) -> ExprV
    decreases e,
{
    match e {
        Expression::Binary(l, op, r) => ExprV::Binary(
            Box::new(expr_view(l)),
            op@,
            Box::new(expr_view(r)),
        ),
        Expression::Logical(l, op, r) => ExprV::Logical(
            Box::new(expr_view(l)),
            op@,
            Box::new(expr_view(r)),
        ),
        Expression::Group(g) => ExprV::Group(Box::new(expr_view(g))),
        Expression::Literal(l) => ExprV::Literal(l@),
        Expression::Unary(op, r) => ExprV::Unary(op@, Box::new(expr_view(r))),
        Expression::Variable(t) => ExprV::Variable(t@),
        Expression::Assignment(t, r) => ExprV::Assignment(t@, Box::new(expr_view(r))),
    }
}

impl View for Expression {
    type V = ExprV;

    open spec fn view(&self) -> ExprV {
        expr_view(self)
    }
}

} // verus!

verus! {

/// The fully parenthesized text of an expression, prefix style: each
/// operator node prints as `(op operands...)`, so precedence and
/// associativity can be read off the text.
pub open spec fn expr_text(e: ExprV) -> Seq<char>
    decreases e,
{
    match e {
        ExprV::Variable(t) => seq!['(', 'v', 'a', 'r', ' '] + t.lexeme + seq![')'],
        ExprV::Group(g) => seq!['(', 'g', 'r', 'o', 'u', 'p', ' '] + expr_text(*g) + seq![')'],
        ExprV::Literal(l) => lit_text(l),
        ExprV::Unary(op, r) => seq!['('] + op.lexeme + seq![' '] + expr_text(*r) + seq![')'],
        ExprV::Assignment(t, r) => seq!['('] + t.lexeme + seq![' ', '=', ' '] + expr_text(*r)
            + seq![')'],
        ExprV::Binary(l, op, r) => seq!['('] + op.lexeme + seq![' '] + expr_text(*l) + seq![' ']
            + expr_text(*r) + seq![')'],
        ExprV::Logical(l, op, r) => seq!['('] + op.lexeme + seq![' '] + expr_text(*l) + seq![' ']
            + expr_text(*r) + seq![')'],
    }
}

/// Appends the characters of `src` to `dst`.
fn push_all(dst: &mut Vec<char>, src: &Vec<char>)
    ensures
        final(dst)@ == old(dst)@ + src@,
{
    let mut i: usize = 0;
    while i < src.len()
        invariant
            i <= src@.len(),
            dst@ == old(dst)@ + src@.subrange(0, i as int),
        decreases src@.len() - i,
    {
        dst.push(src[i]);
        proof {
            assert(dst@ =~= old(dst)@ + src@.subrange(0, i + 1 as int));
        }
        i += 1;
    }
    proof {
        assert(old(dst)@ + src@.subrange(0, src@.len() as int) =~= old(dst)@ + src@);
    }
}

impl Expression {
    /// The fully parenthesized text of this expression, as `expr_text` says.
    pub fn display_text(&self) -> (r: Vec<char>)
        ensures
            r@ == expr_text(self@),
        decreases self,
    {
        match self {
            Expression::Variable(t) => {
                let mut out: Vec<char> = vec!['(', 'v', 'a', 'r', ' '];
                push_all(&mut out, &t.lexeme);
                out.push(')');
                proof {
                    assert(out@ =~= expr_text(expr_view(self)));
                }
                out
            },
            Expression::Group(g) => {
                let mut out: Vec<char> = vec!['(', 'g', 'r', 'o', 'u', 'p', ' '];
                let inner = g.display_text();
                push_all(&mut out, &inner);
                out.push(')');
                proof {
                    assert(out@ =~= expr_text(expr_view(self)));
                }
                out
            },
            Expression::Literal(l) => l.to_text(),
            Expression::Unary(op, r0) => {
                let mut out: Vec<char> = vec!['('];
                push_all(&mut out, &op.lexeme);
                out.push(' ');
                let inner = r0.display_text();
                push_all(&mut out, &inner);
                out.push(')');
                proof {
                    assert(out@ =~= expr_text(expr_view(self)));
                }
                out
            },
            Expression::Assignment(t, r0) => {
                let mut out: Vec<char> = vec!['('];
                push_all(&mut out, &t.lexeme);
                out.push(' ');
                out.push('=');
                out.push(' ');
                let inner = r0.display_text();
                push_all(&mut out, &inner);
                out.push(')');
                proof {
                    assert(out@ =~= expr_text(expr_view(self)));
                }
                out
            },
            Expression::Binary(l, op, r0) => {
                let mut out: Vec<char> = vec!['('];
                push_all(&mut out, &op.lexeme);
                out.push(' ');
                let left = l.display_text();
                push_all(&mut out, &left);
                out.push(' ');
                let right = r0.display_text();
                push_all(&mut out, &right);
                out.push(')');
                proof {
                    assert(out@ =~= expr_text(expr_view(self)));
                }
                out
            },
            Expression::Logical(l, op, r0) => {
                let mut out: Vec<char> = vec!['('];
                push_all(&mut out, &op.lexeme);
                out.push(' ');
                let left = l.display_text();
                push_all(&mut out, &left);
                out.push(' ');
                let right = r0.display_text();
                push_all(&mut out, &right);
                out.push(')');
                proof {
                    assert(out@ =~= expr_text(expr_view(self)));
                }
                out
            },
        }
    }
}

} // verus!
