//! Lexical analyzer. A single left-to-right pass over the source characters
//! turns them into tokens; `scan_step` is the specification of one step of
//! that pass, `scan_from` of the whole rest of it.
use crate::errors::{ScanErrorKind, ScannerError};
use crate::num::{is_ascii_digit, is_number_lexeme, parse_double};
use crate::token::{chars_eq, clone_chars, literal_for, Literal, Token, TokenV};
use crate::token_type::TokenType;
use crate::LocationInfo;
use vstd::prelude::*;

verus! {

/// Whether the character is alphabetic in the Unicode sense.
pub uninterp spec fn unicode_alphabetic(c: char) -> bool;

/// Whether the character is alphabetic or numeric in the Unicode sense.
pub uninterp spec fn unicode_alphanumeric(c: char) -> bool;

/// Relies on char::is_alphabetic (core): a fixed classification of the
/// character alone.
#[verifier::external_body]
fn char_is_alphabetic(c: char) -> (r: bool)
    ensures
        r == unicode_alphabetic(c),
{
    c.is_alphabetic()
}

/// Relies on char::is_alphanumeric (core): a fixed classification of the
/// character alone.
#[verifier::external_body]
fn char_is_alphanumeric(c: char) -> (r: bool)
    ensures
        r == unicode_alphanumeric(c),
{
    c.is_alphanumeric()
}

/// What may start an identifier: a letter or an underscore.
pub open spec fn is_ident_start(c: char) -> bool {
    unicode_alphabetic(c) || c == '_'
}

/// What may continue an identifier: a letter, a digit or an underscore.
pub open spec fn is_ident_cont(c: char) -> bool {
    unicode_alphanumeric(c) || c == '_'
}

fn is_digit_char(c: char) -> (r: bool)
    ensures
        r == is_ascii_digit(c),
{
    '0' <= c && c <= '9'
}

fn is_ident_start_char(c: char) -> (r: bool)
    ensures
        r == is_ident_start(c),
{
    char_is_alphabetic(c) || c == '_'
}

fn is_ident_cont_char(c: char) -> (r: bool)
    ensures
        r == is_ident_cont(c),
{
    char_is_alphanumeric(c) || c == '_'
}

/// The keyword that the lexeme spells, or `Identifier` if none.
pub open spec fn keyword_type(lex: Seq<char>) -> TokenType {
    if lex == seq!['a', 'n', 'd'] {
        TokenType::And
    } else if lex == seq!['b', 'r', 'e', 'a', 'k'] {
        TokenType::Break
    } else if lex == seq!['c', 'l', 'a', 's', 's'] {
        TokenType::Class
    } else if lex == seq!['e', 'l', 's', 'e'] {
        TokenType::Else
    } else if lex == seq!['f', 'a', 'l', 's', 'e'] {
        TokenType::False
    } else if lex == seq!['f', 'o', 'r'] {
        TokenType::For
    } else if lex == seq!['f', 'u', 'n'] {
        TokenType::Fun
    } else if lex == seq!['i', 'f'] {
        TokenType::If
    } else if lex == seq!['n', 'i', 'l'] {
        TokenType::Nil
    } else if lex == seq!['o', 'r'] {
        TokenType::Or
    } else if lex == seq!['p', 'r', 'i', 'n', 't'] {
        TokenType::Print
    } else if lex == seq!['r', 'e', 't', 'u', 'r', 'n'] {
        TokenType::Return
    } else if lex == seq!['s', 'u', 'p', 'e', 'r'] {
        TokenType::Super
    } else if lex == seq!['t', 'h', 'i', 's'] {
        TokenType::This
    } else if lex == seq!['t', 'r', 'u', 'e'] {
        TokenType::True
    } else if lex == seq!['v', 'a', 'r'] {
        TokenType::Var
    } else if lex == seq!['w', 'h', 'i', 'l', 'e'] {
        TokenType::While
    } else {
        TokenType::Identifier
    }
}

/// The first position at or after `p` that does not hold a digit.
pub open spec fn skip_digits(s: Seq<char>, p: int) -> int
    decreases s.len() - p,
{
    if 0 <= p < s.len() && is_ascii_digit(s[p]) {
        skip_digits(s, p + 1)
    } else {
        p
    }
}

/// The first position at or after `p` that cannot continue an identifier.
pub open spec fn skip_ident(s: Seq<char>, p: int) -> int
    decreases s.len() - p,
{
    if 0 <= p < s.len() && is_ident_cont(s[p]) {
        skip_ident(s, p + 1)
    } else {
        p
    }
}

/// The first position at or after `p` that holds a newline, or the end.
pub open spec fn skip_comment(s: Seq<char>, p: int) -> int
    decreases s.len() - p,
{
    if 0 <= p < s.len() && s[p] != '\n' {
        skip_comment(s, p + 1)
    } else {
        p
    }
}

/// The first position at or after `p` that holds a double quote, or the end.
pub open spec fn string_close(s: Seq<char>, p: int) -> int
    decreases s.len() - p,
{
    if 0 <= p < s.len() && s[p] != '"' {
        string_close(s, p + 1)
    } else {
        p
    }
}

/// Line and column after reading the characters of `s` in `[a, b)`, starting
/// at the given line and column: a newline starts the next line at column 1,
/// any other character moves one column to the right.
pub open spec fn adv_range(s: Seq<char>, a: int, b: int, line: int, col: int) -> (int, int)
    decreases b - a,
{
    if a < b {
        if s[a] == '\n' {
            adv_range(s, a + 1, b, line + 1, 1)
        } else {
            adv_range(s, a + 1, b, line, col + 1)
        }
    } else {
        (line, col)
    }
}

pub open spec fn mk_loc(line: int, col: int, len: int) -> LocationInfo {
    LocationInfo { column: col as usize, line: line as usize, len: len as usize }
}

/// The token of the given kind and lexeme, located at the given line and
/// column, with the literal slot that belongs to the kind.
pub open spec fn mk_tok(ty: TokenType, lexeme: Seq<char>, line: int, col: int) -> TokenV {
    TokenV {
        token_type: ty,
        lexeme: lexeme,
        literal: literal_for(ty, lexeme),
        loc: mk_loc(line, col, lexeme.len() as int),
    }
}

/// Outcome of one scanning step: characters skipped, a token emitted, or a
/// scan error.
pub enum StepV {
    Skip { pos: int, line: int, col: int },
    Emit { tok: TokenV, pos: int, line: int, col: int },
    Fail { err: ScannerError },
}

/// One step of the scanner at position `pos` (which must hold a character),
/// reading at line `line` and column `col`.
pub open spec fn scan_step(s: Seq<char>, pos: int, line: int, col: int) -> StepV
    recommends
        0 <= pos < s.len(),
{
    let c = s[pos];
    if c == ' ' || c == '\r' || c == '\t' {
        StepV::Skip { pos: pos + 1, line, col: col + 1 }
    } else if c == '\n' {
        StepV::Skip { pos: pos + 1, line: line + 1, col: 1 }
    } else if c == '(' {
        StepV::Emit { tok: mk_tok(TokenType::LeftParen, seq![c], line, col), pos: pos + 1, line, col: col + 1 }
    } else if c == ')' {
        StepV::Emit { tok: mk_tok(TokenType::RightParen, seq![c], line, col), pos: pos + 1, line, col: col + 1 }
    } else if c == '{' {
        StepV::Emit { tok: mk_tok(TokenType::LeftBrace, seq![c], line, col), pos: pos + 1, line, col: col + 1 }
    } else if c == '}' {
        StepV::Emit { tok: mk_tok(TokenType::RightBrace, seq![c], line, col), pos: pos + 1, line, col: col + 1 }
    } else if c == ',' {
        StepV::Emit { tok: mk_tok(TokenType::Comma, seq![c], line, col), pos: pos + 1, line, col: col + 1 }
    } else if c == '.' {
        StepV::Emit { tok: mk_tok(TokenType::Dot, seq![c], line, col), pos: pos + 1, line, col: col + 1 }
    } else if c == '-' {
        StepV::Emit { tok: mk_tok(TokenType::Minus, seq![c], line, col), pos: pos + 1, line, col: col + 1 }
    } else if c == '+' {
        StepV::Emit { tok: mk_tok(TokenType::Plus, seq![c], line, col), pos: pos + 1, line, col: col + 1 }
    } else if c == ';' {
        StepV::Emit { tok: mk_tok(TokenType::Semicolon, seq![c], line, col), pos: pos + 1, line, col: col + 1 }
    } else if c == '*' {
        StepV::Emit { tok: mk_tok(TokenType::Star, seq![c], line, col), pos: pos + 1, line, col: col + 1 }
    } else if c == '!' {
        if pos + 1 < s.len() && s[pos + 1] == '=' {
            StepV::Emit { tok: mk_tok(TokenType::BangEqual, seq!['!', '='], line, col), pos: pos + 2, line, col: col + 2 }
        } else {
            StepV::Emit { tok: mk_tok(TokenType::Bang, seq![c], line, col), pos: pos + 1, line, col: col + 1 }
        }
    } else if c == '=' {
        if pos + 1 < s.len() && s[pos + 1] == '=' {
            StepV::Emit { tok: mk_tok(TokenType::EqualEqual, seq!['=', '='], line, col), pos: pos + 2, line, col: col + 2 }
        } else {
            StepV::Emit { tok: mk_tok(TokenType::Equal, seq![c], line, col), pos: pos + 1, line, col: col + 1 }
        }
    } else if c == '<' {
        if pos + 1 < s.len() && s[pos + 1] == '=' {
            StepV::Emit { tok: mk_tok(TokenType::LessEqual, seq!['<', '='], line, col), pos: pos + 2, line, col: col + 2 }
        } else {
            StepV::Emit { tok: mk_tok(TokenType::Less, seq![c], line, col), pos: pos + 1, line, col: col + 1 }
        }
    } else if c == '>' {
        if pos + 1 < s.len() && s[pos + 1] == '=' {
            StepV::Emit { tok: mk_tok(TokenType::GreaterEqual, seq!['>', '='], line, col), pos: pos + 2, line, col: col + 2 }
        } else {
            StepV::Emit { tok: mk_tok(TokenType::Greater, seq![c], line, col), pos: pos + 1, line, col: col + 1 }
        }
    } else if c == '/' {
        if pos + 1 < s.len() && s[pos + 1] == '/' {
            let ce = skip_comment(s, pos + 2);
            StepV::Skip { pos: ce, line, col: col + (ce - pos) }
        } else {
            StepV::Emit { tok: mk_tok(TokenType::Slash, seq![c], line, col), pos: pos + 1, line, col: col + 1 }
        }
    } else if c == '"' {
        let close = string_close(s, pos + 1);
        if close == s.len() {
            StepV::Fail {
                err: ScannerError {
                    cause: ScanErrorKind::UnterminatedString,
                    location: mk_loc(line, col + 1, s.len() - (pos + 1)),
                },
            }
        } else {
            let lex = s.subrange(pos + 1, close);
            let lc = adv_range(s, pos + 1, close, line, col + 1);
            StepV::Emit {
                tok: mk_tok(TokenType::String, lex, line, col + 1),
                pos: close + 1,
                line: lc.0,
                col: lc.1 + 1,
            }
        }
    } else if is_ascii_digit(c) {
        let de = skip_digits(s, pos + 1);
        let end = if de < s.len() && s[de] == '.' && de + 1 < s.len() && is_ascii_digit(
            s[de + 1],
        ) {
            skip_digits(s, de + 2)
        } else {
            de
        };
        StepV::Emit {
            tok: mk_tok(TokenType::Number, s.subrange(pos, end), line, col),
            pos: end,
            line,
            col: col + (end - pos),
        }
    } else if is_ident_start(c) {
        let ie = skip_ident(s, pos + 1);
        let lex = s.subrange(pos, ie);
        StepV::Emit {
            tok: mk_tok(keyword_type(lex), lex, line, col),
            pos: ie,
            line,
            col: col + (ie - pos),
        }
    } else {
        StepV::Fail {
            err: ScannerError {
                cause: ScanErrorKind::UnexpectedCharacter(c),
                location: mk_loc(line, col, 0),
            },
        }
    }
}

/// Everything the rest of the scan produces: the tokens up to the error if
/// any, ending with the end marker if none, and the final reading position.
pub struct ScanResultV {
    pub toks: Seq<TokenV>,
    pub err: Option<ScannerError>,
    pub pos: int,
    pub line: int,
    pub col: int,
}

proof fn lemma_skip_digits_bounds(s: Seq<char>, p: int)
    requires
        0 <= p <= s.len(),
    ensures
        p <= skip_digits(s, p) <= s.len(),
        forall|k: int| p <= k < skip_digits(s, p) ==> is_ascii_digit(s[k]),
        skip_digits(s, p) < s.len() ==> !is_ascii_digit(s[skip_digits(s, p)]),
    decreases s.len() - p,
{
    if p < s.len() && is_ascii_digit(s[p]) {
        lemma_skip_digits_bounds(s, p + 1);
    }
}

proof fn lemma_skip_ident_bounds(s: Seq<char>, p: int)
    requires
        0 <= p <= s.len(),
    ensures
        p <= skip_ident(s, p) <= s.len(),
        forall|k: int| p <= k < skip_ident(s, p) ==> is_ident_cont(s[k]),
        skip_ident(s, p) < s.len() ==> !is_ident_cont(s[skip_ident(s, p)]),
    decreases s.len() - p,
{
    if p < s.len() && is_ident_cont(s[p]) {
        lemma_skip_ident_bounds(s, p + 1);
    }
}

proof fn lemma_skip_comment_bounds(s: Seq<char>, p: int)
    requires
        0 <= p <= s.len(),
    ensures
        p <= skip_comment(s, p) <= s.len(),
    decreases s.len() - p,
{
    if p < s.len() && s[p] != '\n' {
        lemma_skip_comment_bounds(s, p + 1);
    }
}

proof fn lemma_string_close_bounds(s: Seq<char>, p: int)
    requires
        0 <= p <= s.len(),
    ensures
        p <= string_close(s, p) <= s.len(),
        string_close(s, p) < s.len() ==> s[string_close(s, p)] == '"',
    decreases s.len() - p,
{
    if p < s.len() && s[p] != '"' {
        lemma_string_close_bounds(s, p + 1);
    }
}

/// Every step of the scanner moves the reading position forward.
proof fn lemma_scan_step_advances(s: Seq<char>, pos: int, line: int, col: int)
    requires
        0 <= pos < s.len(),
    ensures
        match scan_step(s, pos, line, col) {
            StepV::Skip { pos: p, .. } => pos < p <= s.len(),
            StepV::Emit { pos: p, .. } => pos < p <= s.len(),
            StepV::Fail { .. } => true,
        },
{
    lemma_skip_digits_bounds(s, pos + 1);
    lemma_skip_ident_bounds(s, pos + 1);
    if pos + 2 <= s.len() {
        lemma_skip_comment_bounds(s, pos + 2);
        let de = skip_digits(s, pos + 1);
        if de + 2 <= s.len() {
            lemma_skip_digits_bounds(s, de + 2);
        }
    }
    lemma_string_close_bounds(s, pos + 1);
    let de = skip_digits(s, pos + 1);
    if de + 2 <= s.len() {
        lemma_skip_digits_bounds(s, de + 2);
    }
}

/// The tokens, error and end position of scanning the rest of the source
/// from position `pos` at line `line`, column `col`.
pub open spec fn scan_from(s: Seq<char>, pos: int, line: int, col: int) -> ScanResultV
    decreases s.len() - pos,
    via scan_from_dec
{
    if !(0 <= pos < s.len()) {
        ScanResultV {
            toks: seq![mk_tok(TokenType::Eof, Seq::empty(), line, col)],
            err: Option::None,
            pos,
            line,
            col,
        }
    } else {
        match scan_step(s, pos, line, col) {
            StepV::Skip { pos: p, line: l, col: c } => scan_from(s, p, l, c),
            StepV::Emit { tok, pos: p, line: l, col: c } => {
                let r = scan_from(s, p, l, c);
                ScanResultV {
                    toks: seq![tok] + r.toks,
                    err: r.err,
                    pos: r.pos,
                    line: r.line,
                    col: r.col,
                }
            },
            StepV::Fail { err } => ScanResultV {
                toks: Seq::empty(),
                err: Option::Some(err),
                pos,
                line,
                col,
            },
        }
    }
}

#[via_fn]
proof fn scan_from_dec(s: Seq<char>, pos: int, line: int, col: int) {
    if 0 <= pos < s.len() {
        lemma_scan_step_advances(s, pos, line, col);
    }
}

/// The sequence of token models behind a vector of tokens.
pub open spec fn toks_view(ts: Seq<Token>) -> Seq<TokenV> {
    ts.map(|i: int, t: Token| t@)
}

fn find_digits_end(s: &Vec<char>, p: usize) -> (e: usize)
    requires
        p <= s@.len(),
    ensures
        e == skip_digits(s@, p as int),
        p <= e <= s@.len(),
        forall|k: int| p <= k < e ==> is_ascii_digit(s@[k]),
{
    proof {
        lemma_skip_digits_bounds(s@, p as int);
    }
    let mut e = p;
    while e < s.len() && is_digit_char(s[e])
        invariant
            p <= e <= s@.len(),
            skip_digits(s@, p as int) == skip_digits(s@, e as int),
            forall|k: int| p <= k < e ==> is_ascii_digit(s@[k]),
        decreases s@.len() - e,
    {
        e += 1;
    }
    e
}

fn find_ident_end(s: &Vec<char>, p: usize) -> (e: usize)
    requires
        p <= s@.len(),
    ensures
        e == skip_ident(s@, p as int),
        p <= e <= s@.len(),
{
    let mut e = p;
    while e < s.len() && is_ident_cont_char(s[e])
        invariant
            p <= e <= s@.len(),
            skip_ident(s@, p as int) == skip_ident(s@, e as int),
        decreases s@.len() - e,
    {
        e += 1;
    }
    e
}

fn find_comment_end(s: &Vec<char>, p: usize) -> (e: usize)
    requires
        p <= s@.len(),
    ensures
        e == skip_comment(s@, p as int),
        p <= e <= s@.len(),
{
    let mut e = p;
    while e < s.len() && s[e] != '\n'
        invariant
            p <= e <= s@.len(),
            skip_comment(s@, p as int) == skip_comment(s@, e as int),
        decreases s@.len() - e,
    {
        e += 1;
    }
    e
}

fn find_string_close(s: &Vec<char>, p: usize) -> (e: usize)
    requires
        p <= s@.len(),
    ensures
        e == string_close(s@, p as int),
        p <= e <= s@.len(),
{
    let mut e = p;
    while e < s.len() && s[e] != '"'
        invariant
            p <= e <= s@.len(),
            string_close(s@, p as int) == string_close(s@, e as int),
        decreases s@.len() - e,
    {
        e += 1;
    }
    e
}

/// A copy of the characters of `s` in `[a, b)`.
fn copy_range(s: &Vec<char>, a: usize, b: usize) -> (r: Vec<char>)
    requires
        a <= b <= s@.len(),
    ensures
        r@ == s@.subrange(a as int, b as int),
{
    let mut r: Vec<char> = Vec::new();
    let mut i = a;
    while i < b
        invariant
            a <= i <= b <= s@.len(),
            r@ == s@.subrange(a as int, i as int),
        decreases b - i,
    {
        r.push(s[i]);
        proof {
            assert(r@ =~= s@.subrange(a as int, i + 1 as int));
        }
        i += 1;
    }
    r
}

/// Line and column after reading the characters of `s` in `[a, b)`.
fn advance_over(s: &Vec<char>, a: usize, b: usize, line: usize, col: usize) -> (lc: (usize, usize))
    requires
        a <= b <= s@.len(),
        s@.len() < usize::MAX,
        line <= 1 + a,
        1 <= col <= 1 + a,
        1 <= line,
    ensures
        (lc.0 as int, lc.1 as int) == adv_range(s@, a as int, b as int, line as int, col as int),
        1 <= lc.0 <= 1 + b,
        1 <= lc.1 <= 1 + b,
{
    let mut i = a;
    let mut l = line;
    let mut c = col;
    while i < b
        invariant
            a <= i <= b <= s@.len(),
            s@.len() < usize::MAX,
            1 <= l <= 1 + i,
            1 <= c <= 1 + i,
            adv_range(s@, a as int, b as int, line as int, col as int) == adv_range(
                s@,
                i as int,
                b as int,
                l as int,
                c as int,
            ),
        decreases b - i,
    {
        if s[i] == '\n' {
            l += 1;
            c = 1;
        } else {
            c += 1;
        }
        i += 1;
    }
    (l, c)
}

fn keyword_lookup(lex: &Vec<char>) -> (t: TokenType)
    ensures
        t == keyword_type(lex@),
{
    let kw_and = vec!['a', 'n', 'd'];
    let kw_break = vec!['b', 'r', 'e', 'a', 'k'];
    let kw_class = vec!['c', 'l', 'a', 's', 's'];
    let kw_else = vec!['e', 'l', 's', 'e'];
    let kw_false = vec!['f', 'a', 'l', 's', 'e'];
    let kw_for = vec!['f', 'o', 'r'];
    let kw_fun = vec!['f', 'u', 'n'];
    let kw_if = vec!['i', 'f'];
    let kw_nil = vec!['n', 'i', 'l'];
    let kw_or = vec!['o', 'r'];
    let kw_print = vec!['p', 'r', 'i', 'n', 't'];
    let kw_return = vec!['r', 'e', 't', 'u', 'r', 'n'];
    let kw_super = vec!['s', 'u', 'p', 'e', 'r'];
    let kw_this = vec!['t', 'h', 'i', 's'];
    let kw_true = vec!['t', 'r', 'u', 'e'];
    let kw_var = vec!['v', 'a', 'r'];
    let kw_while = vec!['w', 'h', 'i', 'l', 'e'];
    proof {
        assert(kw_and@ =~= seq!['a', 'n', 'd']);
        assert(kw_break@ =~= seq!['b', 'r', 'e', 'a', 'k']);
        assert(kw_class@ =~= seq!['c', 'l', 'a', 's', 's']);
        assert(kw_else@ =~= seq!['e', 'l', 's', 'e']);
        assert(kw_false@ =~= seq!['f', 'a', 'l', 's', 'e']);
        assert(kw_for@ =~= seq!['f', 'o', 'r']);
        assert(kw_fun@ =~= seq!['f', 'u', 'n']);
        assert(kw_if@ =~= seq!['i', 'f']);
        assert(kw_nil@ =~= seq!['n', 'i', 'l']);
        assert(kw_or@ =~= seq!['o', 'r']);
        assert(kw_print@ =~= seq!['p', 'r', 'i', 'n', 't']);
        assert(kw_return@ =~= seq!['r', 'e', 't', 'u', 'r', 'n']);
        assert(kw_super@ =~= seq!['s', 'u', 'p', 'e', 'r']);
        assert(kw_this@ =~= seq!['t', 'h', 'i', 's']);
        assert(kw_true@ =~= seq!['t', 'r', 'u', 'e']);
        assert(kw_var@ =~= seq!['v', 'a', 'r']);
        assert(kw_while@ =~= seq!['w', 'h', 'i', 'l', 'e']);
    }
    if chars_eq(lex, &kw_and) {
        TokenType::And
    } else if chars_eq(lex, &kw_break) {
        TokenType::Break
    } else if chars_eq(lex, &kw_class) {
        TokenType::Class
    } else if chars_eq(lex, &kw_else) {
        TokenType::Else
    } else if chars_eq(lex, &kw_false) {
        TokenType::False
    } else if chars_eq(lex, &kw_for) {
        TokenType::For
    } else if chars_eq(lex, &kw_fun) {
        TokenType::Fun
    } else if chars_eq(lex, &kw_if) {
        TokenType::If
    } else if chars_eq(lex, &kw_nil) {
        TokenType::Nil
    } else if chars_eq(lex, &kw_or) {
        TokenType::Or
    } else if chars_eq(lex, &kw_print) {
        TokenType::Print
    } else if chars_eq(lex, &kw_return) {
        TokenType::Return
    } else if chars_eq(lex, &kw_super) {
        TokenType::Super
    } else if chars_eq(lex, &kw_this) {
        TokenType::This
    } else if chars_eq(lex, &kw_true) {
        TokenType::True
    } else if chars_eq(lex, &kw_var) {
        TokenType::Var
    } else if chars_eq(lex, &kw_while) {
        TokenType::While
    } else {
        TokenType::Identifier
    }
}

/// The literal slot for a token of the given kind and lexeme.
fn make_literal(ty: TokenType, lexeme: &Vec<char>) -> (l: Literal)
    requires
        ty == TokenType::Number ==> is_number_lexeme(lexeme@),
    ensures
        l@ == literal_for(ty, lexeme@),
{
    match ty {
        TokenType::True => Literal::Boolean(true),
        TokenType::False => Literal::Boolean(false),
        TokenType::Number => match parse_double(lexeme) {
            Option::Some(b) => Literal::Number(b),
            Option::None => Literal::Number(0),
        },
        TokenType::Eof => Literal::Nil,
        _ => Literal::String(clone_chars(lexeme)),
    }
}

/// Lexical scanner. Reads through `source` and gathers the tokens it spells;
/// `loc` is the reading position: `len` characters consumed so far, about to
/// read at `line` and `column`.
pub struct Scanner {
    pub source: Vec<char>,
    pub tokens: Vec<Token>,
    pub loc: LocationInfo,
}

impl Scanner {
    /// The reading position is sound: within the source, line and column
    /// 1-based and no further along than the characters consumed allow.
    pub open spec fn cursor_wf(&self) -> bool {
        &&& self.source@.len() < usize::MAX
        &&& self.loc.len <= self.source@.len()
        &&& 1 <= self.loc.line <= 1 + self.loc.len
        &&& 1 <= self.loc.column <= 1 + self.loc.len
    }

    /// A scanner over the given source, at its start.
    pub fn new(source: Vec<char>) -> (s: Scanner)
        requires
            source@.len() < usize::MAX,
        ensures
            s.cursor_wf(),
            s.source == source,
            s.tokens@ == Seq::<Token>::empty(),
            s.loc == (LocationInfo { column: 1, line: 1, len: 0 }),
    {
        Scanner {
            source,
            tokens: Vec::new(),
            loc: LocationInfo { column: 1, line: 1, len: 0 },
        }
    }

    /// Scans one token (or skips blank space or a comment) at the current
    /// position, exactly as `scan_step` says.
    fn scan_token(&mut self) -> (r: Result<(), ScannerError>)
        requires
            old(self).cursor_wf(),
            old(self).loc.len < old(self).source@.len(),
        ensures
            final(self).source == old(self).source,
            final(self).cursor_wf(),
            match scan_step(
                old(self).source@,
                old(self).loc.len as int,
                old(self).loc.line as int,
                old(self).loc.column as int,
            ) {
                StepV::Skip { pos, line, col } => r is Ok && final(self).tokens@ == old(
                    self,
                ).tokens@ && final(self).loc.len as int == pos && final(self).loc.line as int
                    == line && final(self).loc.column as int == col,
                StepV::Emit { tok, pos, line, col } => r is Ok && toks_view(final(self).tokens@)
                    == toks_view(old(self).tokens@).push(tok) && final(self).loc.len as int == pos
                    && final(self).loc.line as int == line && final(self).loc.column as int
                    == col,
                StepV::Fail { err } => r == Err::<(), ScannerError>(err) && final(self).tokens@
                    == old(self).tokens@,
            },
            r is Ok ==> final(self).loc.len > old(self).loc.len,
    {
        let pos = self.loc.len;
        let line = self.loc.line;
        let col = self.loc.column;
        let c = self.source[pos];
        proof {
            lemma_scan_step_advances(self.source@, pos as int, line as int, col as int);
        }
        if c == ' ' || c == '\r' || c == '\t' {
            self.loc.len = pos + 1;
            self.loc.column = col + 1;
            Ok(())
        } else if c == '\n' {
            self.loc.len = pos + 1;
            self.loc.line = line + 1;
            self.loc.column = 1;
            Ok(())
        } else if c == '!' || c == '=' || c == '<' || c == '>' {
            let two = pos + 1 < self.source.len() && self.source[pos + 1] == '=';
            let ty = if c == '!' {
                if two {
                    TokenType::BangEqual
                } else {
                    TokenType::Bang
                }
            } else if c == '=' {
                if two {
                    TokenType::EqualEqual
                } else {
                    TokenType::Equal
                }
            } else if c == '<' {
                if two {
                    TokenType::LessEqual
                } else {
                    TokenType::Less
                }
            } else {
                if two {
                    TokenType::GreaterEqual
                } else {
                    TokenType::Greater
                }
            };
            let mut lexeme: Vec<char> = Vec::new();
            lexeme.push(c);
            if two {
                lexeme.push('=');
            }
            proof {
                if two {
                    assert(lexeme@ =~= seq![c, '=']);
                } else {
                    assert(lexeme@ =~= seq![c]);
                }
            }
            let width = lexeme.len();
            self.emit(ty, lexeme, line, col);
            self.loc.len = pos + width;
            self.loc.column = col + width;
            Ok(())
        } else if c == '/' && pos + 1 < self.source.len() && self.source[pos + 1] == '/' {
            let ce = find_comment_end(&self.source, pos + 2);
            self.loc.column = col + (ce - pos);
            self.loc.len = ce;
            Ok(())
        } else if c == '(' || c == ')' || c == '{' || c == '}' || c == ',' || c == '.' || c == '-'
            || c == '+' || c == ';' || c == '*' || c == '/' {
            let ty = if c == '(' {
                TokenType::LeftParen
            } else if c == ')' {
                TokenType::RightParen
            } else if c == '{' {
                TokenType::LeftBrace
            } else if c == '}' {
                TokenType::RightBrace
            } else if c == ',' {
                TokenType::Comma
            } else if c == '.' {
                TokenType::Dot
            } else if c == '-' {
                TokenType::Minus
            } else if c == '+' {
                TokenType::Plus
            } else if c == ';' {
                TokenType::Semicolon
            } else if c == '*' {
                TokenType::Star
            } else {
                TokenType::Slash
            };
            let mut lexeme: Vec<char> = Vec::new();
            lexeme.push(c);
            proof {
                assert(lexeme@ =~= seq![c]);
            }
            self.emit(ty, lexeme, line, col);
            self.loc.len = pos + 1;
            self.loc.column = col + 1;
            Ok(())
        } else if c == '"' {
            let close = find_string_close(&self.source, pos + 1);
            if close == self.source.len() {
                return Err(
                    ScannerError {
                        cause: ScanErrorKind::UnterminatedString,
                        location: LocationInfo {
                            column: col + 1,
                            line,
                            len: self.source.len() - (pos + 1),
                        },
                    },
                );
            }
            let lexeme = copy_range(&self.source, pos + 1, close);
            let lc = advance_over(&self.source, pos + 1, close, line, col + 1);
            self.emit(TokenType::String, lexeme, line, col + 1);
            self.loc.len = close + 1;
            self.loc.line = lc.0;
            self.loc.column = lc.1 + 1;
            Ok(())
        } else if is_digit_char(c) {
            let de = find_digits_end(&self.source, pos + 1);
            let end = if de < self.source.len() && self.source[de] == '.' && de + 1
                < self.source.len() && is_digit_char(self.source[de + 1]) {
                find_digits_end(&self.source, de + 2)
            } else {
                de
            };
            let lexeme = copy_range(&self.source, pos, end);
            proof {
                let lex = lexeme@;
                assert(is_ascii_digit(lex[0]));
                assert(is_ascii_digit(lex[lex.len() - 1]));
                assert forall|i: int| 0 <= i < lex.len() implies (is_ascii_digit(lex[i]) || lex[i]
                    == '.') by {
                    assert(lex[i] == self.source@[pos + i]);
                }
                assert forall|i: int, j: int|
                    0 <= i < j < lex.len() && lex[i] == '.' implies lex[j] != '.' by {
                    assert(lex[i] == self.source@[pos + i]);
                    assert(lex[j] == self.source@[pos + j]);
                }
                assert(is_number_lexeme(lex));
            }
            self.emit(TokenType::Number, lexeme, line, col);
            self.loc.len = end;
            self.loc.column = col + (end - pos);
            Ok(())
        } else if is_ident_start_char(c) {
            let ie = find_ident_end(&self.source, pos + 1);
            let lexeme = copy_range(&self.source, pos, ie);
            let ty = keyword_lookup(&lexeme);
            self.emit(ty, lexeme, line, col);
            self.loc.len = ie;
            self.loc.column = col + (ie - pos);
            Ok(())
        } else {
            Err(
                ScannerError {
                    cause: ScanErrorKind::UnexpectedCharacter(c),
                    location: LocationInfo { column: col, line, len: 0 },
                },
            )
        }
    }

    /// Appends the token of the given kind, lexeme and location.
    fn emit(&mut self, ty: TokenType, lexeme: Vec<char>, line: usize, col: usize)
        requires
            ty == TokenType::Number ==> is_number_lexeme(lexeme@),
        ensures
            final(self).source == old(self).source,
            final(self).loc == old(self).loc,
            toks_view(final(self).tokens@) == toks_view(old(self).tokens@).push(
                mk_tok(ty, lexeme@, line as int, col as int),
            ),
    {
        let ghost lexv = lexeme@;
        let literal = make_literal(ty, &lexeme);
        let loc = LocationInfo { column: col, line, len: lexeme.len() };
        self.tokens.push(Token { token_type: ty, lexeme, literal, loc });
        proof {
            assert(toks_view(self.tokens@) =~= toks_view(old(self).tokens@).push(
                mk_tok(ty, lexv, line as int, col as int),
            ));
        }
    }

    /// Whether every character has been consumed.
    pub fn is_at_end(&self) -> (r: bool)
        ensures
            r == (self.loc.len == self.source@.len()),
    {
        self.loc.len == self.source.len()
    }

    /// Scans the whole rest of the source. On success the gathered tokens
    /// gain everything `scan_from` lists, ending with the end marker; on a
    /// scan error the tokens before the error are kept and the error is
    /// returned. A scanner whose tokens already end with the end marker is
    /// left as it is.
    pub fn run(&mut self) -> (r: Result<(), ScannerError>)
        requires
            old(self).cursor_wf(),
        ensures
            final(self).source == old(self).source,
            final(self).cursor_wf(),
            (old(self).tokens@.len() > 0 && old(self).tokens@.last().token_type == TokenType::Eof)
                ==> (r is Ok && *final(self) == *old(self)),
            !(old(self).tokens@.len() > 0 && old(self).tokens@.last().token_type == TokenType::Eof)
                ==> {
                let sr = scan_from(
                    old(self).source@,
                    old(self).loc.len as int,
                    old(self).loc.line as int,
                    old(self).loc.column as int,
                );
                match r {
                    Ok(_) => sr.err is None && toks_view(final(self).tokens@) == toks_view(
                        old(self).tokens@,
                    ) + sr.toks && final(self).loc.len as int == sr.pos && final(self).loc.line as int == sr.line && final(self).loc.column as int == sr.col,
                    Err(e) => sr.err == Option::Some(e) && toks_view(final(self).tokens@)
                        == toks_view(old(self).tokens@) + sr.toks,
                }
            },
    {
        if self.tokens.len() > 0 {
            let last = self.tokens.len() - 1;
            if self.tokens[last].token_type == TokenType::Eof {
                return Ok(());
            }
        }
        let ghost sr = scan_from(
            self.source@,
            self.loc.len as int,
            self.loc.line as int,
            self.loc.column as int,
        );
        let ghost base = toks_view(self.tokens@);
        proof {
            assert(toks_view(self.tokens@).skip(base.len() as int) =~= Seq::<TokenV>::empty());
            assert(sr.toks =~= toks_view(self.tokens@).skip(base.len() as int) + sr.toks);
            assert(toks_view(self.tokens@).take(base.len() as int) =~= base);
        }
        loop
            invariant
                self.cursor_wf(),
                self.source == old(self).source,
                base == toks_view(old(self).tokens@),
                sr == scan_from(
                    old(self).source@,
                    old(self).loc.len as int,
                    old(self).loc.line as int,
                    old(self).loc.column as int,
                ),
                !(old(self).tokens@.len() > 0 && old(self).tokens@.last().token_type
                    == TokenType::Eof),
                scan_from(
                    self.source@,
                    self.loc.len as int,
                    self.loc.line as int,
                    self.loc.column as int,
                ).err == sr.err,
                sr.toks == toks_view(self.tokens@).skip(base.len() as int) + scan_from(
                    self.source@,
                    self.loc.len as int,
                    self.loc.line as int,
                    self.loc.column as int,
                ).toks,
                toks_view(self.tokens@).take(base.len() as int) == base,
                base.len() <= toks_view(self.tokens@).len(),
                scan_from(
                    self.source@,
                    self.loc.len as int,
                    self.loc.line as int,
                    self.loc.column as int,
                ).pos == sr.pos,
                scan_from(
                    self.source@,
                    self.loc.len as int,
                    self.loc.line as int,
                    self.loc.column as int,
                ).line == sr.line,
                scan_from(
                    self.source@,
                    self.loc.len as int,
                    self.loc.line as int,
                    self.loc.column as int,
                ).col == sr.col,
            decreases self.source@.len() - self.loc.len,
        {
            if self.is_at_end() {
                let line = self.loc.line;
                let col = self.loc.column;
                let ghost pre_toks = toks_view(self.tokens@);
                proof {
                    let s = self.source@;
                    let cp = self.loc.len as int;
                    let cl = self.loc.line as int;
                    let cc = self.loc.column as int;
                    assert(cp == s.len());
                    assert(scan_from(s, cp, cl, cc).toks =~= seq![
                        mk_tok(TokenType::Eof, Seq::empty(), cl, cc),
                    ]);
                    assert(sr.err is None);
                    assert(sr.pos == cp && sr.line == cl && sr.col == cc);
                    assert(sr.toks =~= pre_toks.skip(base.len() as int) + seq![
                        mk_tok(TokenType::Eof, Seq::empty(), cl, cc),
                    ]);
                }
                let empty_lex: Vec<char> = Vec::new();
                self.emit(TokenType::Eof, empty_lex, line, col);
                proof {
                    assert(empty_lex@ == Seq::<char>::empty());
                    assert(toks_view(self.tokens@) =~= pre_toks.push(
                        mk_tok(TokenType::Eof, Seq::empty(), line as int, col as int),
                    ));
                    assert(pre_toks =~= pre_toks.take(base.len() as int) + pre_toks.skip(
                        base.len() as int,
                    ));
                    assert(toks_view(self.tokens@) =~= toks_view(old(self).tokens@) + sr.toks);
                }
                return Ok(());
            }
            let ghost pre = *self;
            match self.scan_token() {
                Ok(()) => {
                    proof {
                        assert(toks_view(self.tokens@).take(base.len() as int) =~= base);
                        match scan_step(
                            pre.source@,
                            pre.loc.len as int,
                            pre.loc.line as int,
                            pre.loc.column as int,
                        ) {
                            StepV::Skip { .. } => {},
                            StepV::Emit { tok, .. } => {
                                assert(toks_view(self.tokens@).skip(base.len() as int)
                                    =~= toks_view(pre.tokens@).skip(base.len() as int).push(tok));
                                assert(sr.toks =~= toks_view(self.tokens@).skip(
                                    base.len() as int,
                                ) + scan_from(
                                    self.source@,
                                    self.loc.len as int,
                                    self.loc.line as int,
                                    self.loc.column as int,
                                ).toks);
                            },
                            StepV::Fail { .. } => {},
                        }
                    }
                },
                Err(e) => {
                    proof {
                        let s = pre.source@;
                        let pp = pre.loc.len as int;
                        let pl = pre.loc.line as int;
                        let pc = pre.loc.column as int;
                        assert(scan_step(s, pp, pl, pc) is Fail);
                        assert(scan_from(s, pp, pl, pc).toks =~= Seq::<TokenV>::empty());
                        assert(sr.err == Option::Some(e));
                        assert(sr.toks =~= toks_view(self.tokens@).skip(base.len() as int));
                        assert(toks_view(self.tokens@) =~= toks_view(self.tokens@).take(
                            base.len() as int,
                        ) + toks_view(self.tokens@).skip(base.len() as int));
                        assert(toks_view(self.tokens@) =~= toks_view(old(self).tokens@) + sr.toks);
                    }
                    return Err(e);
                },
            }
        }
    }
}

} // verus!
verus! {

/// One source location is no later than another: on an earlier line, or on
/// the same line no further right.
pub open spec fn loc_le(a: LocationInfo, b: LocationInfo) -> bool {
    a.line < b.line || (a.line == b.line && a.column <= b.column)
}

/// A successful scan emits the end marker as its last token, and emits no
/// other end marker.
pub proof fn lemma_scan_eof(s: Seq<char>, pos: int, line: int, col: int)
    requires
        scan_from(s, pos, line, col).err is None,
    ensures
        scan_from(s, pos, line, col).toks.len() > 0,
        scan_from(s, pos, line, col).toks.last().token_type == TokenType::Eof,
        forall|i: int|
            0 <= i < scan_from(s, pos, line, col).toks.len() - 1 ==> scan_from(
                s,
                pos,
                line,
                col,
            ).toks[i].token_type != TokenType::Eof,
    decreases s.len() - pos,
{
    if 0 <= pos < s.len() {
        lemma_scan_step_advances(s, pos, line, col);
        match scan_step(s, pos, line, col) {
            StepV::Skip { pos: p, line: l, col: c } => {
                lemma_scan_eof(s, p, l, c);
            },
            StepV::Emit { tok, pos: p, line: l, col: c } => {
                lemma_scan_eof(s, p, l, c);
                assert(tok.token_type != TokenType::Eof);
            },
            StepV::Fail { .. } => {},
        }
    }
}

proof fn lemma_adv_range_bounds(s: Seq<char>, a: int, b: int, line: int, col: int)
    requires
        a <= b,
        1 <= line,
        1 <= col,
    ensures
        line <= adv_range(s, a, b, line, col).0 <= line + (b - a),
        1 <= adv_range(s, a, b, line, col).1,
        adv_range(s, a, b, line, col).1 <= col + (b - a),
        adv_range(s, a, b, line, col).0 == line ==> col <= adv_range(s, a, b, line, col).1,
    decreases b - a,
{
    if a < b {
        if s[a] == '\n' {
            lemma_adv_range_bounds(s, a + 1, b, line + 1, 1);
        } else {
            lemma_adv_range_bounds(s, a + 1, b, line, col + 1);
        }
    }
}

/// Every token of a scan carries a 1-based line and column, and the
/// locations never move backwards in emission order.
pub proof fn lemma_scan_locations(s: Seq<char>, pos: int, line: int, col: int)
    requires
        0 <= pos <= s.len(),
        1 <= line,
        1 <= col,
        line + (s.len() - pos) + 2 <= usize::MAX,
        col + (s.len() - pos) + 2 <= usize::MAX,
    ensures
        forall|i: int|
            0 <= i < scan_from(s, pos, line, col).toks.len() ==> {
                &&& (#[trigger] scan_from(s, pos, line, col).toks[i]).loc.line >= 1
                &&& scan_from(s, pos, line, col).toks[i].loc.column >= 1
                &&& loc_le(mk_loc(line, col, 0), scan_from(s, pos, line, col).toks[i].loc)
            },
        forall|i: int, j: int|
            0 <= i < j < scan_from(s, pos, line, col).toks.len() ==> loc_le(
                #[trigger] scan_from(s, pos, line, col).toks[i].loc,
                #[trigger] scan_from(s, pos, line, col).toks[j].loc,
            ),
    decreases s.len() - pos,
{
    if 0 <= pos < s.len() {
        lemma_scan_step_advances(s, pos, line, col);
        let c0 = s[pos];
        if c0 == '"' {
            let close = string_close(s, pos + 1);
            lemma_string_close_bounds(s, pos + 1);
            if close < s.len() {
                lemma_adv_range_bounds(s, pos + 1, close, line, col + 1);
            }
        }
        if c0 == '/' && pos + 1 < s.len() && s[pos + 1] == '/' {
            lemma_skip_comment_bounds(s, pos + 2);
        }
        lemma_skip_digits_bounds(s, pos + 1);
        let de = skip_digits(s, pos + 1);
        if de + 2 <= s.len() {
            lemma_skip_digits_bounds(s, de + 2);
        }
        lemma_skip_ident_bounds(s, pos + 1);
        match scan_step(s, pos, line, col) {
            StepV::Skip { pos: p, line: l, col: c } => {
                lemma_scan_locations(s, p, l, c);
            },
            StepV::Emit { tok, pos: p, line: l, col: c } => {
                lemma_scan_locations(s, p, l, c);
                assert(loc_le(mk_loc(line, col, 0), tok.loc));
                assert(loc_le(tok.loc, mk_loc(l, c, 0)));
            },
            StepV::Fail { .. } => {},
        }
    }
}

} // verus!
