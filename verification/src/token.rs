//! Tokens and the value domain. The same `Literal` type serves as the
//! literal slot of a token and as the runtime value of the evaluator.
use crate::num::{eq_bits, num_eq, num_text, number_of, number_text};
use crate::token_type::TokenType;
use crate::LocationInfo;
use vstd::prelude::*;

verus! {

/// A runtime value: nothing, a boolean, an IEEE double (as its bit pattern),
/// or a string of characters.
#[derive(Debug, Clone)]
pub enum Literal {
    Number(u64),
    Boolean(bool),
    String(Vec<char>),
    Nil,
}

/// Mathematical model of a `Literal`.
pub enum LitV {
    Number(u64),
    Boolean(bool),
    String(Seq<char>),
    Nil,
}

impl View for Literal {
    type V = LitV;

    open spec fn view(&self) -> LitV {
        match self {
            Literal::Number(b) => LitV::Number(*b),
            Literal::Boolean(v) => LitV::Boolean(*v),
            Literal::String(s) => LitV::String(s@),
            Literal::Nil => LitV::Nil,
        }
    }
}

/// Value equality of the language: equal only within one variant, numbers by
/// IEEE equality, strings by their characters; `nil` equals `nil`.
pub open spec fn lit_eq(a: LitV, b: LitV) -> bool {
    match (a, b) {
        (LitV::Number(x), LitV::Number(y)) => eq_bits(x, y),
        (LitV::Boolean(x), LitV::Boolean(y)) => x == y,
        (LitV::String(x), LitV::String(y)) => x == y,
        (LitV::Nil, LitV::Nil) => true,
        _ => false,
    }
}

/// Truthiness: `nil` is false, a boolean is itself, every other value is
/// true.
pub open spec fn truthy(v: LitV) -> bool {
    match v {
        LitV::Nil => false,
        LitV::Boolean(b) => b,
        _ => true,
    }
}

pub open spec fn true_text() -> Seq<char> {
    seq!['t', 'r', 'u', 'e']
}

pub open spec fn false_text() -> Seq<char> {
    seq!['f', 'a', 'l', 's', 'e']
}

/// Canonical text of a value: `nil` prints as `nil`; numbers print as their
/// shortest positional decimal, the special values by name; booleans as
/// `true`/`false`; strings print their raw characters.
pub open spec fn lit_text(v: LitV) -> Seq<char> {
    match v {
        LitV::Number(b) => number_text(b),
        LitV::Boolean(b) => if b {
            true_text()
        } else {
            false_text()
        },
        LitV::String(s) => s,
        LitV::Nil => seq!['n', 'i', 'l'],
    }
}

/// Character-for-character equality of two character vectors.
pub fn chars_eq(a: &Vec<char>, b: &Vec<char>) -> (r: bool)
    ensures
        r == (a@ == b@),
{
    if a.len() != b.len() {
        return false;
    }
    let mut i: usize = 0;
    while i < a.len()
        invariant
            i <= a.len(),
            a.len() == b.len(),
            forall|k: int| 0 <= k < i ==> a@[k] == b@[k],
        decreases a.len() - i,
    {
        if a[i] != b[i] {
            return false;
        }
        i += 1;
    }
    proof {
        assert(a@ =~= b@);
    }
    true
}

/// A copy of a character vector.
pub fn clone_chars(v: &Vec<char>) -> (r: Vec<char>)
    ensures
        r@ == v@,
{
    let mut r: Vec<char> = Vec::new();
    let mut i: usize = 0;
    while i < v.len()
        invariant
            i <= v.len(),
            r@ == v@.subrange(0, i as int),
        decreases v.len() - i,
    {
        r.push(v[i]);
        proof {
            assert(r@ =~= v@.subrange(0, i + 1 as int));
        }
        i += 1;
    }
    proof {
        assert(v@.subrange(0, v@.len() as int) =~= v@);
    }
    r
}

impl Literal {
    /// A copy of the value.
    pub fn dup(&self) -> (r: Literal)
        ensures
            r@ == self@,
    {
        match self {
            Literal::Number(b) => Literal::Number(*b),
            Literal::Boolean(v) => Literal::Boolean(*v),
            Literal::String(s) => Literal::String(clone_chars(s)),
            Literal::Nil => Literal::Nil,
        }
    }

    /// Value equality of the language.
    pub fn equals(&self, other: &Literal) -> (r: bool)
        ensures
            r == lit_eq(self@, other@),
    {
        match (self, other) {
            (Literal::Number(x), Literal::Number(y)) => num_eq(*x, *y),
            (Literal::Boolean(x), Literal::Boolean(y)) => *x == *y,
            (Literal::String(x), Literal::String(y)) => chars_eq(x, y),
            (Literal::Nil, Literal::Nil) => true,
            _ => false,
        }
    }

    /// Whether the value counts as true in a condition.
    pub fn is_truthy(&self) -> (r: bool)
        ensures
            r == truthy(self@),
    {
        match self {
            Literal::Nil => false,
            Literal::Boolean(b) => *b,
            _ => true,
        }
    }

    /// The canonical text of the value.
    pub fn to_text(&self) -> (r: Vec<char>)
        ensures
            r@ == lit_text(self@),
    {
        match self {
            Literal::Number(b) => num_text(*b),
            Literal::Boolean(b) => {
                if *b {
                    let r = vec!['t', 'r', 'u', 'e'];
                    proof {
                        assert(r@ =~= true_text());
                    }
                    r
                } else {
                    let r = vec!['f', 'a', 'l', 's', 'e'];
                    proof {
                        assert(r@ =~= false_text());
                    }
                    r
                }
            },
            Literal::String(s) => clone_chars(s),
            Literal::Nil => {
                let r = vec!['n', 'i', 'l'];
                proof {
                    assert(r@ =~= seq!['n', 'i', 'l']);
                }
                r
            },
        }
    }
}

impl PartialEq for Literal {
    fn eq(&self, other: &Self) -> (r: bool) {
        self.equals(other)
    }
}

impl vstd::std_specs::cmp::PartialEqSpecImpl for Literal {
    open spec fn obeys_eq_spec() -> bool {
        true
    }

    open spec fn eq_spec(&self, other: &Self) -> bool {
        lit_eq(self@, other@)
    }
}

/// A classified word of the source text.
#[derive(Debug, Clone)]
pub struct Token {
    pub token_type: TokenType,
    pub lexeme: Vec<char>,
    pub literal: Literal,
    pub loc: LocationInfo,
}

/// Mathematical model of a `Token`.
pub struct TokenV {
    pub token_type: TokenType,
    pub lexeme: Seq<char>,
    pub literal: LitV,
    pub loc: LocationInfo,
}

impl View for Token {
    type V = TokenV;

    open spec fn view(&self) -> TokenV {
        TokenV {
            token_type: self.token_type,
            lexeme: self.lexeme@,
            literal: self.literal@,
            loc: self.loc,
        }
    }
}

/// The literal slot that belongs to a token of the given kind and lexeme:
/// `true`/`false` carry a boolean, a number carries its parsed double, the
/// end marker carries nothing, and every other kind carries its lexeme.
pub open spec fn literal_for(ty: TokenType, lexeme: Seq<char>) -> LitV {
    if ty == TokenType::True || ty == TokenType::False {
        LitV::Boolean(ty == TokenType::True)
    } else if ty == TokenType::Number {
        LitV::Number(number_of(lexeme))
    } else if ty == TokenType::Eof {
        LitV::Nil
    } else {
        LitV::String(lexeme)
    }
}

impl Token {
    /// A copy of the token.
    pub fn dup(&self) -> (r: Token)
        ensures
            r@ == self@,
    {
        Token {
            token_type: self.token_type,
            lexeme: clone_chars(&self.lexeme),
            literal: self.literal.dup(),
            loc: self.loc,
        }
    }
}

impl PartialEq for Token {
    fn eq(&self, other: &Self) -> (r: bool) {
        self.loc == other.loc && chars_eq(&self.lexeme, &other.lexeme) && self.token_type
            == other.token_type
    }
}

impl vstd::std_specs::cmp::PartialEqSpecImpl for Token {
    open spec fn obeys_eq_spec() -> bool {
        true
    }

    open spec fn eq_spec(&self, other: &Self) -> bool {
        self.loc == other.loc && self.lexeme@ == other.lexeme@ && self.token_type
            == other.token_type
    }
}

} // verus!
