//! Double-precision numbers as the library holds them: the IEEE 754 bit
//! pattern, by which they are ordered and truncated, and the decimal text
//! that prints them.
//!
//! Nothing here computes in floating point. Order, truncation to an integer
//! and the widening of an integer are integer arithmetic on the bit pattern.

use crate::text::{first_char, has_sign, owned, same_no_case, skip_chars, str_eq_no_case};
use core::cmp::Ordering;
use vstd::arithmetic::power2::{lemma2_to64, lemma2_to64_rest, lemma_pow2_unfold, pow2};
use vstd::prelude::*;

verus! {

/// The bit that holds the sign.
pub const SIGN_BIT: u64 = 0x8000_0000_0000_0000;

/// The bits of positive infinity: every larger magnitude is a NaN.
pub const INFINITY_BITS: u64 = 0x7FF0_0000_0000_0000;

/// Two to the power 52: one more than the largest fraction field.
pub const FRACTION_SPAN: u64 = 0x10_0000_0000_0000;

/// The exponent field of the number one.
pub const EXPONENT_BIAS: u64 = 1023;

/// The bit pattern without its sign.
pub open spec fn magnitude(bits: u64) -> int {
    if bits >= SIGN_BIT {
        bits - SIGN_BIT
    } else {
        bits as int
    }
}

/// Whether the sign bit is set.
pub open spec fn is_negative(bits: u64) -> bool {
    bits >= SIGN_BIT
}

/// Whether the bits stand for no number.
pub open spec fn is_nan(bits: u64) -> bool {
    magnitude(bits) > INFINITY_BITS
}

/// An integer that orders the numbers as their values do. Both zeros have
/// the key zero. A NaN has no place in the order, whatever its key.
pub open spec fn sort_key(bits: u64) -> int {
    if is_negative(bits) {
        -magnitude(bits)
    } else {
        magnitude(bits)
    }
}

/// How two doubles compare: not at all where one is a NaN, else as their
/// values do, so that the two zeros are equal.
pub open spec fn float_order(a: u64, b: u64) -> Option<Ordering> {
    if is_nan(a) || is_nan(b) {
        None
    } else if sort_key(a) < sort_key(b) {
        Some(Ordering::Less)
    } else if sort_key(a) > sort_key(b) {
        Some(Ordering::Greater)
    } else {
        Some(Ordering::Equal)
    }
}

/// The value cut off toward zero and held to the range of a 64-bit integer;
/// zero for a NaN.
pub open spec fn truncated(bits: u64) -> int {
    let exponent = magnitude(bits) / (FRACTION_SPAN as int);
    let significand = FRACTION_SPAN + magnitude(bits) % (FRACTION_SPAN as int);
    if is_nan(bits) || exponent < EXPONENT_BIAS {
        0
    } else if exponent >= EXPONENT_BIAS + 63 {
        if is_negative(bits) {
            i64::MIN as int
        } else {
            i64::MAX as int
        }
    } else {
        let whole = if exponent >= EXPONENT_BIAS + 52 {
            significand * (pow2((exponent - EXPONENT_BIAS - 52) as nat) as int)
        } else {
            significand / (pow2((EXPONENT_BIAS + 52 - exponent) as nat) as int)
        };
        if is_negative(bits) {
            -whole
        } else {
            whole
        }
    }
}

/// The place of the highest set bit of a positive number.
pub open spec fn top_bit(m: nat) -> nat
    decreases m,
{
    if m < 2 {
        0
    } else {
        1 + top_bit(m / 2)
    }
}

/// The 53-bit significand of the double nearest to the positive integer `m`,
/// ties going to the even one. It may come out as two to the power 53, which
/// stands for the next exponent.
pub open spec fn rounded_significand(m: int) -> int {
    let top = top_bit(m as nat);
    if top <= 52 {
        m * (pow2((52 - top) as nat) as int)
    } else {
        let unit = pow2((top - 52) as nat) as int;
        let kept = m / unit;
        let dropped = m % unit;
        if 2 * dropped > unit || (2 * dropped == unit && kept % 2 == 1) {
            kept + 1
        } else {
            kept
        }
    }
}

/// The bits of the double nearest to the integer `n`.
pub open spec fn widened(n: int) -> u64 {
    if n == 0 {
        0
    } else {
        let m = if n < 0 {
            -n
        } else {
            n
        };
        let unsigned = (top_bit(m as nat) + EXPONENT_BIAS) * FRACTION_SPAN + (rounded_significand(
            m,
        ) - FRACTION_SPAN);
        (if n < 0 {
            unsigned + SIGN_BIT
        } else {
            unsigned
        }) as u64
    }
}

/// A positive number lies between the power of two of its highest bit and
/// the next power of two.
pub proof fn lemma_top_bit_bounds(m: nat)
    requires
        m >= 1,
    ensures
        pow2(top_bit(m)) <= m < 2 * pow2(top_bit(m)),
    decreases m,
{
    lemma2_to64();
    if m >= 2 {
        lemma_top_bit_bounds(m / 2);
        lemma_pow2_unfold(top_bit(m));
    }
}

/// A larger exponent gives no smaller power of two.
pub proof fn lemma_pow2_monotonic(a: nat, b: nat)
    requires
        a <= b,
    ensures
        pow2(a) <= pow2(b),
    decreases b - a,
{
    if a < b {
        lemma_pow2_monotonic(a, (b - 1) as nat);
        lemma_pow2_unfold(b);
    }
}

/// An integer of at most 53 bits is a double: widened and cut off again it
/// is the same integer.
pub proof fn lemma_small_integer_is_exact(n: i64)
    requires
        -0x20_0000_0000_0000 <= n <= 0x20_0000_0000_0000,
    ensures
        truncated(widened(n as int)) == n,
{
    if n != 0 {
        let m = if n < 0 {
            -n
        } else {
            n as int
        };
        let top = top_bit(m as nat);
        let span = FRACTION_SPAN as int;
        lemma_top_bit_bounds(m as nat);
        lemma2_to64();
        lemma2_to64_rest();
        if top > 53 {
            lemma_pow2_monotonic(54, top);
        }
        let significand = rounded_significand(m);
        if top <= 52 {
            let scale = pow2((52 - top) as nat) as int;
            vstd::arithmetic::power2::lemma_pow2_adds(top, (52 - top) as nat);
            vstd::arithmetic::power2::lemma_pow2_pos((52 - top) as nat);
            assert(m * scale >= pow2(top) * scale) by (nonlinear_arith)
                requires
                    m >= pow2(top),
                    scale > 0,
            ;
            assert(m * scale < 2 * (pow2(top) * scale)) by (nonlinear_arith)
                requires
                    m < 2 * pow2(top),
                    scale > 0,
            ;
            vstd::arithmetic::div_mod::lemma_fundamental_div_mod_converse(
                m * scale,
                scale,
                m,
                0,
            );
        } else {
            lemma_pow2_monotonic(top, 53);
            assert(m == 0x20_0000_0000_0000);
            assert(pow2(1) == 2);
        }
        assert(span <= significand < 2 * span);
        let unsigned = (top + EXPONENT_BIAS) * span + (significand - span);
        vstd::arithmetic::div_mod::lemma_fundamental_div_mod_converse(
            unsigned,
            span,
            top + EXPONENT_BIAS,
            significand - span,
        );
        assert(unsigned < SIGN_BIT) by (nonlinear_arith)
            requires
                unsigned == (top + 1023) * span + (significand - span),
                top <= 53,
                significand < 2 * span,
                span == 0x10_0000_0000_0000,
        ;
        assert(unsigned <= INFINITY_BITS) by (nonlinear_arith)
            requires
                unsigned == (top + 1023) * span + (significand - span),
                top <= 53,
                significand < 2 * span,
                span == 0x10_0000_0000_0000,
        ;
        let bits = widened(n as int);
        assert(magnitude(bits) == unsigned);
        assert(is_negative(bits) == (n < 0));
        assert(magnitude(bits) / span == top + EXPONENT_BIAS);
        assert(magnitude(bits) % span == significand - span);
        assert(!is_nan(bits));
        let exponent = top + EXPONENT_BIAS;
        if top >= 52 {
            assert(pow2(0) == 1);
            assert(significand * (pow2((exponent - EXPONENT_BIAS - 52) as nat) as int) == m) by {
                if top == 52 {
                    assert(significand == m * 1);
                } else {
                    assert(significand == 0x10_0000_0000_0000);
                    assert(pow2(1) == 2);
                }
            }
        } else {
            assert(significand / (pow2((EXPONENT_BIAS + 52 - exponent) as nat) as int) == m);
        }
    }
}

/// Two to the power `k`.
pub fn power_of_two(k: u64) -> (p: u64)
    requires
        k < 64,
    ensures
        p == pow2(k as nat),
{
    let mut p: u64 = 1;
    let mut i: u64 = 0;
    proof {
        lemma2_to64();
    }
    while i < k
        invariant
            i <= k < 64,
            p == pow2(i as nat),
        decreases k - i,
    {
        proof {
            lemma_pow2_unfold((i + 1) as nat);
            lemma_pow2_monotonic((i + 1) as nat, 63);
            lemma2_to64_rest();
        }
        p = p * 2;
        i += 1;
    }
    p
}

/// The bit pattern without its sign.
pub fn bits_magnitude(bits: u64) -> (m: u64)
    ensures
        m == magnitude(bits),
{
    if bits >= SIGN_BIT {
        bits - SIGN_BIT
    } else {
        bits
    }
}

/// Whether the bits stand for no number.
pub fn bits_are_nan(bits: u64) -> (nan: bool)
    ensures
        nan == is_nan(bits),
{
    bits_magnitude(bits) > INFINITY_BITS
}

/// The integer by which the double is ordered.
pub fn bits_sort_key(bits: u64) -> (key: i128)
    ensures
        key == sort_key(bits),
{
    if bits >= SIGN_BIT {
        -(bits_magnitude(bits) as i128)
    } else {
        bits as i128
    }
}

/// Compares two doubles by their bit patterns.
pub fn compare_bits(a: u64, b: u64) -> (r: Option<Ordering>)
    ensures
        r == float_order(a, b),
{
    if bits_are_nan(a) || bits_are_nan(b) {
        None
    } else {
        let x = bits_sort_key(a);
        let y = bits_sort_key(b);
        if x < y {
            Some(Ordering::Less)
        } else if x > y {
            Some(Ordering::Greater)
        } else {
            Some(Ordering::Equal)
        }
    }
}

/// Cuts a double off toward zero, as a cast to a 64-bit integer does: a NaN
/// gives zero, a value out of range the nearest end of the range.
pub fn truncate_bits(bits: u64) -> (n: i64)
    ensures
        n == truncated(bits),
{
    let negative = bits >= SIGN_BIT;
    let mag = bits_magnitude(bits);
    let exponent = mag / FRACTION_SPAN;
    let significand = FRACTION_SPAN + mag % FRACTION_SPAN;
    if mag > INFINITY_BITS || exponent < EXPONENT_BIAS {
        0
    } else if exponent >= EXPONENT_BIAS + 63 {
        if negative {
            i64::MIN
        } else {
            i64::MAX
        }
    } else {
        let whole: u64 = if exponent >= EXPONENT_BIAS + 52 {
            let scale = power_of_two(exponent - EXPONENT_BIAS - 52);
            proof {
                lemma_pow2_monotonic((exponent - EXPONENT_BIAS - 52) as nat, 10);
                lemma2_to64();
                assert(significand * scale < 0x8000_0000_0000_0000) by (nonlinear_arith)
                    requires
                        significand < 0x20_0000_0000_0000,
                        scale <= 1024,
                ;
            }
            significand * scale
        } else {
            let scale = power_of_two(EXPONENT_BIAS + 52 - exponent);
            proof {
                vstd::arithmetic::power2::lemma_pow2_pos((EXPONENT_BIAS + 52 - exponent) as nat);
            }
            significand / scale
        };
        if negative {
            -(whole as i64)
        } else {
            whole as i64
        }
    }
}

/// The bits of the double nearest to `n`, ties going to the even significand:
/// what a cast of the integer to a double gives.
pub fn widen_to_bits(n: i64) -> (bits: u64)
    ensures
        bits == widened(n as int),
{
    if n == 0 {
        return 0;
    }
    let m: u64 = if n < 0 {
        (-(n as i128)) as u64
    } else {
        n as u64
    };
    let mut top: u64 = 0;
    let mut rest: u64 = m;
    proof {
        lemma2_to64();
    }
    while rest >= 2
        invariant
            rest >= 1,
            top_bit(m as nat) == top + top_bit(rest as nat),
            rest * pow2(top as nat) <= m,
            top <= 63,
            m <= 0x8000_0000_0000_0000,
        decreases rest,
    {
        proof {
            lemma_pow2_unfold((top + 1) as nat);
            let half = (rest / 2) as int;
            let scale = pow2(top as nat) as int;
            assert(half * (2 * scale) <= rest * scale) by (nonlinear_arith)
                requires
                    2 * half <= rest,
                    scale >= 0,
            ;
            if top == 63 {
                lemma2_to64_rest();
                assert(rest * scale >= 2 * scale) by (nonlinear_arith)
                    requires
                        rest >= 2,
                        scale >= 0,
                ;
            }
        }
        rest = rest / 2;
        top += 1;
    }
    proof {
        lemma_top_bit_bounds(m as nat);
        lemma2_to64();
    }
    let significand: u64 = if top <= 52 {
        let scale = power_of_two(52 - top);
        proof {
            vstd::arithmetic::power2::lemma_pow2_adds(top as nat, (52 - top) as nat);
            lemma2_to64_rest();
            assert(m * scale < 2 * (pow2(top as nat) * scale)) by (nonlinear_arith)
                requires
                    m < 2 * pow2(top as nat),
                    scale > 0,
            ;
            assert(m * scale >= pow2(top as nat) * scale) by (nonlinear_arith)
                requires
                    m >= pow2(top as nat),
                    scale > 0,
            ;
        }
        m * scale
    } else {
        let unit = power_of_two(top - 52);
        proof {
            vstd::arithmetic::power2::lemma_pow2_pos((top - 52) as nat);
            vstd::arithmetic::power2::lemma_pow2_adds((top - 52) as nat, 52);
            lemma2_to64_rest();
            let u = unit as int;
            let q = (m / unit) as int;
            vstd::arithmetic::div_mod::lemma_fundamental_div_mod(m as int, u);
            vstd::arithmetic::div_mod::lemma_mod_pos_bound(m as int, u);
            assert(q * u == u * q) by (nonlinear_arith);
            assert(q < 0x20_0000_0000_0000) by (nonlinear_arith)
                requires
                    u > 0,
                    q * u <= m,
                    m < 2 * (u * 0x10_0000_0000_0000),
            ;
            assert(q >= 0x10_0000_0000_0000) by (nonlinear_arith)
                requires
                    u > 0,
                    q * u + u > m,
                    m >= u * 0x10_0000_0000_0000,
            ;
        }
        let kept = m / unit;
        let dropped = m % unit;
        if dropped > unit - dropped || (dropped == unit - dropped && kept % 2 == 1) {
            kept + 1
        } else {
            kept
        }
    };
    let unsigned = (top + EXPONENT_BIAS) * FRACTION_SPAN + (significand - FRACTION_SPAN);
    if n < 0 {
        unsigned + SIGN_BIT
    } else {
        unsigned
    }
}

/// The bits of the NaN that a text writes.
pub const NAN_BITS: u64 = 0x7FF8_0000_0000_0000;

/// The double that `inf`, `infinity` or `nan` behind a sign writes, each in
/// any case: the infinity of that sign, printed `inf` or `-inf`, or the NaN
/// of that sign, printed `NaN`.
pub open spec fn signed_special(s: Seq<char>) -> Option<FloatView> {
    let word = s.skip(1);
    let negative = s[0] == '-';
    if !has_sign(s) {
        None
    } else if same_no_case(word, "inf"@) || same_no_case(word, "infinity"@) {
        Some(
            if negative {
                FloatView { bits: (INFINITY_BITS + SIGN_BIT) as u64, text: "-inf"@ }
            } else {
                FloatView { bits: INFINITY_BITS, text: "inf"@ }
            },
        )
    } else if same_no_case(word, "nan"@) {
        Some(
            FloatView {
                bits: if negative {
                    (NAN_BITS + SIGN_BIT) as u64
                } else {
                    NAN_BITS
                },
                text: "NaN"@,
            },
        )
    } else {
        None
    }
}

/// What `nom::number::complete::double` makes of a text: on success the bit
/// pattern of the double it read, the decimal text that prints that double,
/// and the input left over; else whether the failure is final (`true`) or
/// leaves other readings of the text open (`false`).
pub uninterp spec fn double_prefix(input: Seq<char>) -> Result<(u64, Seq<char>, Seq<char>), bool>;

/// A double-precision number: its bit pattern and the text that prints it.
#[derive(Clone, Debug)]
pub struct Float {
    bits: u64,
    text: String,
}

/// A `Float` as a plain value.
pub struct FloatView {
    pub bits: u64,
    pub text: Seq<char>,
}

impl View for Float {
    type V = FloatView;

    open spec fn view(&self) -> FloatView {
        FloatView { bits: self.spec_bits(), text: self.spec_text() }
    }
}

impl Float {
    /// The bit pattern.
    pub closed spec fn spec_bits(&self) -> u64 {
        self.bits
    }

    /// The text that prints the number.
    pub closed spec fn spec_text(&self) -> Seq<char> {
        self.text@
    }

    /// The double with the given bit pattern, printed as `text`.
    pub fn new(bits: u64, text: String) -> (f: Float)
        ensures
            f@ == (FloatView { bits, text: text@ }),
    {
        Float { bits, text }
    }

    /// The bit pattern.
    #[verifier::when_used_as_spec(spec_bits)]
    pub fn bits(&self) -> (bits: u64)
        ensures
            bits == self@.bits,
    {
        self.bits
    }

    /// The text that prints the number.
    pub fn text(&self) -> (text: &str)
        ensures
            text@ == self@.text,
    {
        self.text.as_str()
    }

    /// Reads `inf`, `infinity` or `nan` behind a sign.
    pub fn read_signed_special(text: &str) -> (r: Option<Float>)
        ensures
            match r {
                Some(f) => signed_special(text@) == Some(f@),
                None => signed_special(text@) is None,
            },
    {
        let negative = match first_char(text) {
            Some(c) => if c == '-' {
                true
            } else if c == '+' {
                false
            } else {
                return None;
            },
            None => {
                return None;
            },
        };
        let word = skip_chars(text, 1);
        if str_eq_no_case(word, "inf") || str_eq_no_case(word, "infinity") {
            if negative {
                Some(Float { bits: INFINITY_BITS + SIGN_BIT, text: owned("-inf") })
            } else {
                Some(Float { bits: INFINITY_BITS, text: owned("inf") })
            }
        } else if str_eq_no_case(word, "nan") {
            Some(
                Float {
                    bits: if negative {
                        NAN_BITS + SIGN_BIT
                    } else {
                        NAN_BITS
                    },
                    text: owned("NaN"),
                },
            )
        } else {
            None
        }
    }

    /// A copy of this number.
    pub fn duplicate(&self) -> (f: Float)
        ensures
            f == *self,
    {
        Float { bits: self.bits, text: self.text.clone() }
    }

    /// The number cut off toward zero.
    pub fn truncate(&self) -> (n: i64)
        ensures
            n == truncated(self@.bits),
    {
        truncate_bits(self.bits)
    }
}

/// Reads a double from the front of `input` with
/// `nom::number::complete::double`. The double that nom returns is handed on
/// as its bit pattern and its decimal text. The contract names the outcome
/// and adds what nom's source shows of every success: the text left over is
/// the end of the input, and something was read.
#[verifier::external_body]
pub(crate) fn read_double(input: &str) -> (r: Result<(Float, &str), bool>)
    ensures
        match r {
            Ok((number, rest)) => double_prefix(input@) == Ok::<_, bool>(
                (number@.bits, number@.text, rest@),
            ) && rest@.len() < input@.len() && rest@ == input@.skip(input@.len() - rest@.len()),
            Err(fatal) => double_prefix(input@) == Err::<(u64, Seq<char>, Seq<char>), _>(fatal),
        },
{
    match nom::number::complete::double::<&str, nom::error::Error<&str>>(input) {
        Ok((rest, value)) => Ok((Float { bits: value.to_bits(), text: value.to_string() }, rest)),
        Err(nom::Err::Failure(_)) => Err(true),
        Err(_) => Err(false),
    }
}

} // verus!
