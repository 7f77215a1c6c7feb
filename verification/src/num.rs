//! The language's numbers are IEEE-754 double-precision values, held here as
//! their 64-bit patterns. Negation, equality and ordering are computed and
//! specified directly over the bit patterns; the rounding operations
//! (arithmetic, decimal parsing, and rendering at a given precision) are
//! delegated to the `rustc_apfloat` software implementation of the same
//! format. The canonical text of a number — the shortest positional decimal
//! that reads back as the same double — is chosen here, in verified code,
//! from those renderings.
use rustc_apfloat::Float;
use vstd::prelude::*;

verus! {

/// Bit pattern of the sign bit of a double.
pub const SIGN_MASK: u64 = 0x8000_0000_0000_0000;

/// Bit pattern of positive infinity; anything above it (ignoring the sign
/// bit) is a NaN.
pub const INF_BITS: u64 = 0x7ff0_0000_0000_0000;

/// The bit pattern with the sign bit cleared.
pub open spec fn abs_bits(x: u64) -> u64 {
    if x >= SIGN_MASK {
        (x - SIGN_MASK) as u64
    } else {
        x
    }
}

pub open spec fn is_nan_bits(x: u64) -> bool {
    abs_bits(x) > INF_BITS
}

pub open spec fn is_neg_bits(x: u64) -> bool {
    x >= SIGN_MASK
}

/// Where a double stands in the IEEE ordering: magnitude bits, negated for
/// negative values. Both zeros map to 0, so `-0.0` and `0.0` compare equal.
pub open spec fn order_key(x: u64) -> int {
    if is_neg_bits(x) {
        -(abs_bits(x) as int)
    } else {
        abs_bits(x) as int
    }
}

/// IEEE equality of two doubles: false if either is a NaN, otherwise by
/// position in the ordering (so the two zeros are equal).
pub open spec fn eq_bits(a: u64, b: u64) -> bool {
    !is_nan_bits(a) && !is_nan_bits(b) && order_key(a) == order_key(b)
}

pub open spec fn lt_bits(a: u64, b: u64) -> bool {
    !is_nan_bits(a) && !is_nan_bits(b) && order_key(a) < order_key(b)
}

pub open spec fn le_bits(a: u64, b: u64) -> bool {
    !is_nan_bits(a) && !is_nan_bits(b) && order_key(a) <= order_key(b)
}

pub open spec fn gt_bits(a: u64, b: u64) -> bool {
    lt_bits(b, a)
}

pub open spec fn ge_bits(a: u64, b: u64) -> bool {
    le_bits(b, a)
}

/// IEEE negation: the sign bit flipped, whatever the value.
pub open spec fn neg_bits(x: u64) -> u64 {
    if x >= SIGN_MASK {
        (x - SIGN_MASK) as u64
    } else {
        (x + SIGN_MASK) as u64
    }
}

/// IEEE-754 double-precision sum (round to nearest, ties to even) of two
/// doubles given as bit patterns.
pub uninterp spec fn add_bits(a: u64, b: u64) -> u64;

/// IEEE-754 double-precision difference of two doubles given as bit patterns.
pub uninterp spec fn sub_bits(a: u64, b: u64) -> u64;

/// IEEE-754 double-precision product of two doubles given as bit patterns.
pub uninterp spec fn mul_bits(a: u64, b: u64) -> u64;

/// IEEE-754 double-precision quotient of two doubles given as bit patterns.
pub uninterp spec fn div_bits(a: u64, b: u64) -> u64;

/// The correctly rounded double that the decimal text spells, if it spells
/// one.
pub uninterp spec fn double_of(s: Seq<char>) -> Option<u64>;

/// The double nearest to the decimal number that a number lexeme spells.
pub open spec fn number_of(s: Seq<char>) -> u64 {
    match double_of(s) {
        Option::Some(b) => b,
        Option::None => 0,
    }
}

/// The decimal text of the double with the given bit pattern at `p`
/// significant digits.
pub uninterp spec fn formatted_at(x: u64, p: usize) -> Seq<char>;

/// Positional decimal text: no exponent marker.
pub open spec fn is_positional(s: Seq<char>) -> bool {
    forall|i: int| 0 <= i < s.len() ==> s[i] != 'E'
}

/// Whether the rendering at `p` significant digits is positional and reads
/// back as the very same double.
pub open spec fn round_trips(x: u64, p: usize) -> bool {
    is_positional(formatted_at(x, p)) && double_of(formatted_at(x, p)) == Option::Some(x)
}

/// The rendering at the fewest significant digits that is positional and
/// reads back as the same double; past every sensible precision, the
/// rendering at the widest one.
pub open spec fn shortest_text(x: u64, p: int) -> Seq<char>
    decreases 400 - p,
{
    if p < 1 || p >= 400 {
        formatted_at(x, 400)
    } else if round_trips(x, p as usize) {
        formatted_at(x, p as usize)
    } else {
        shortest_text(x, p + 1)
    }
}

pub open spec fn is_inf_bits(x: u64) -> bool {
    abs_bits(x) == INF_BITS
}

/// The canonical text of a number: `NaN` and `inf`/`-inf` for the special
/// values, otherwise the shortest positional decimal that reads back as the
/// same double (an integer therefore prints without a fraction).
pub open spec fn number_text(x: u64) -> Seq<char> {
    if is_nan_bits(x) {
        seq!['N', 'a', 'N']
    } else if is_inf_bits(x) {
        if is_neg_bits(x) {
            seq!['-', 'i', 'n', 'f']
        } else {
            seq!['i', 'n', 'f']
        }
    } else {
        shortest_text(x, 1)
    }
}

/// A run of decimal digits, at most one interior dot.
pub open spec fn is_number_lexeme(s: Seq<char>) -> bool {
    &&& s.len() > 0
    &&& forall|i: int| 0 <= i < s.len() ==> (is_ascii_digit(s[i]) || s[i] == '.')
    &&& is_ascii_digit(s[0])
    &&& is_ascii_digit(s[s.len() - 1])
    &&& forall|i: int, j: int| 0 <= i < j < s.len() && s[i] == '.' ==> s[j] != '.'
}

pub open spec fn is_ascii_digit(c: char) -> bool {
    '0' <= c && c <= '9'
}

/// Relies on rustc_apfloat's `ieee::Double` addition (round to nearest, ties
/// to even): the sum is a function of the operand bit patterns alone.
#[verifier::external_body]
pub(crate) fn num_add(a: u64, b: u64) -> (r: u64)
    ensures
        r == add_bits(a, b),
{
    let x = rustc_apfloat::ieee::Double::from_bits(a as u128);
    let y = rustc_apfloat::ieee::Double::from_bits(b as u128);
    (x + y).value.to_bits() as u64
}

/// Relies on rustc_apfloat's `ieee::Double` subtraction: a function of the
/// operand bit patterns alone.
#[verifier::external_body]
pub(crate) fn num_sub(a: u64, b: u64) -> (r: u64)
    ensures
        r == sub_bits(a, b),
{
    let x = rustc_apfloat::ieee::Double::from_bits(a as u128);
    let y = rustc_apfloat::ieee::Double::from_bits(b as u128);
    (x - y).value.to_bits() as u64
}

/// Relies on rustc_apfloat's `ieee::Double` multiplication: a function of the
/// operand bit patterns alone.
#[verifier::external_body]
pub(crate) fn num_mul(a: u64, b: u64) -> (r: u64)
    ensures
        r == mul_bits(a, b),
{
    let x = rustc_apfloat::ieee::Double::from_bits(a as u128);
    let y = rustc_apfloat::ieee::Double::from_bits(b as u128);
    (x * y).value.to_bits() as u64
}

/// Relies on rustc_apfloat's `ieee::Double` division: a function of the
/// operand bit patterns alone. Division by zero yields an infinity or NaN,
/// never a failure.
#[verifier::external_body]
pub(crate) fn num_div(a: u64, b: u64) -> (r: u64)
    ensures
        r == div_bits(a, b),
{
    let x = rustc_apfloat::ieee::Double::from_bits(a as u128);
    let y = rustc_apfloat::ieee::Double::from_bits(b as u128);
    (x / y).value.to_bits() as u64
}

/// Relies on rustc_apfloat's `FromStr` for `ieee::Double`: the correctly
/// rounded double that the decimal text spells, or nothing for text that
/// spells no number.
#[verifier::external_body]
pub(crate) fn parse_double(s: &Vec<char>) -> (r: Option<u64>)
    ensures
        r == double_of(s@),
{
    let text: String = s.iter().collect();
    match text.parse::<rustc_apfloat::ieee::Double>() {
        Ok(d) => Some(d.to_bits() as u64),
        Err(_) => None,
    }
}

/// Relies on rustc_apfloat's `Display` for `ieee::Double` at `p` significant
/// digits. The width argument is set beyond the largest decimal exponent of
/// a double (308), so the text stays positional whenever the precision
/// covers the digits; the result is a function of the bits and the precision
/// alone.
#[verifier::external_body]
fn fmt_at(x: u64, p: usize) -> (r: Vec<char>)
    ensures
        r@ == formatted_at(x, p),
{
    let d = rustc_apfloat::ieee::Double::from_bits(x as u128);
    format!("{:400.*}", p, d).chars().collect()
}

fn is_positional_text(s: &Vec<char>) -> (r: bool)
    ensures
        r == is_positional(s@),
{
    let mut i: usize = 0;
    while i < s.len()
        invariant
            i <= s@.len(),
            forall|k: int| 0 <= k < i ==> s@[k] != 'E',
        decreases s@.len() - i,
    {
        if s[i] == 'E' {
            return false;
        }
        i += 1;
    }
    true
}

/// The canonical text of a number, as `number_text` says: the special values
/// by name, any other double as the shortest positional decimal that reads
/// back as the same bit pattern.
pub(crate) fn num_text(x: u64) -> (r: Vec<char>)
    ensures
        r@ == number_text(x),
{
    if num_is_nan(x) {
        let r = vec!['N', 'a', 'N'];
        proof {
            assert(r@ =~= seq!['N', 'a', 'N']);
        }
        r
    } else if num_abs(x) == INF_BITS {
        if x >= SIGN_MASK {
            let r = vec!['-', 'i', 'n', 'f'];
            proof {
                assert(r@ =~= seq!['-', 'i', 'n', 'f']);
            }
            r
        } else {
            let r = vec!['i', 'n', 'f'];
            proof {
                assert(r@ =~= seq!['i', 'n', 'f']);
            }
            r
        }
    } else {
        let mut p: usize = 1;
        while p < 400
            invariant
                1 <= p <= 400,
                !is_nan_bits(x),
                !is_inf_bits(x),
                shortest_text(x, 1) == shortest_text(x, p as int),
            decreases 400 - p,
        {
            let s = fmt_at(x, p);
            if is_positional_text(&s) {
                let hit = match parse_double(&s) {
                    Option::Some(b) => b == x,
                    Option::None => false,
                };
                if hit {
                    proof {
                        assert(double_of(s@) == Option::Some(x));
                        assert(round_trips(x, p));
                        assert(shortest_text(x, p as int) == formatted_at(x, p));
                    }
                    return s;
                }
            }
            p += 1;
        }
        fmt_at(x, 400)
    }
}

/// IEEE negation, computed on the bit pattern: the sign bit flips.
pub fn num_neg(a: u64) -> (r: u64)
    ensures
        r == neg_bits(a),
{
    if a >= SIGN_MASK {
        a - SIGN_MASK
    } else {
        a + SIGN_MASK
    }
}

fn num_abs(a: u64) -> (r: u64)
    ensures
        r == abs_bits(a),
{
    if a >= SIGN_MASK {
        a - SIGN_MASK
    } else {
        a
    }
}

fn num_is_nan(a: u64) -> (r: bool)
    ensures
        r == is_nan_bits(a),
{
    num_abs(a) > INF_BITS
}

/// IEEE equality, computed on the bit patterns.
pub fn num_eq(a: u64, b: u64) -> (r: bool)
    ensures
        r == eq_bits(a, b),
{
    if num_is_nan(a) || num_is_nan(b) {
        false
    } else {
        let aa = num_abs(a);
        let ba = num_abs(b);
        let an = a >= SIGN_MASK;
        let bn = b >= SIGN_MASK;
        if aa == 0 && ba == 0 {
            true
        } else {
            an == bn && aa == ba
        }
    }
}

/// IEEE strict order, computed on the bit patterns.
pub fn num_lt(a: u64, b: u64) -> (r: bool)
    ensures
        r == lt_bits(a, b),
{
    if num_is_nan(a) || num_is_nan(b) {
        false
    } else {
        let aa = num_abs(a);
        let ba = num_abs(b);
        let an = a >= SIGN_MASK;
        let bn = b >= SIGN_MASK;
        if an && bn {
            ba < aa
        } else if an {
            !(aa == 0 && ba == 0)
        } else if bn {
            false
        } else {
            aa < ba
        }
    }
}

pub fn num_le(a: u64, b: u64) -> (r: bool)
    ensures
        r == le_bits(a, b),
{
    num_lt(a, b) || num_eq(a, b)
}

pub fn num_gt(a: u64, b: u64) -> (r: bool)
    ensures
        r == gt_bits(a, b),
{
    num_lt(b, a)
}

pub fn num_ge(a: u64, b: u64) -> (r: bool)
    ensures
        r == ge_bits(a, b),
{
    num_le(b, a)
}

} // verus!
