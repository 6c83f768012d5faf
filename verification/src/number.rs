//! Numbers of the source language: IEEE 754 binary64 values, carried as
//! their 64-bit patterns so that the rest of the library works on plain
//! integers.
//!
//! All floating-point computation is done by the `rustc_apfloat` crate,
//! which implements IEEE 754 arithmetic (round to nearest, ties to even),
//! decimal decoding and decimal rendering on bit patterns. Each operation's
//! result is named by an uninterpreted spec function; the display routine on
//! top of them is verified: it returns the shortest decimal form that
//! decodes back to the same bit pattern.
use vstd::prelude::*;

verus! {

/// The bit pattern `rustc_apfloat::ieee::Double::from_str` (IEEE 754
/// correctly-rounded decimal to binary64 conversion) decodes from the text,
/// or `None` where the text is not a numeral it accepts.
pub uninterp spec fn decoded_number(s: Seq<char>) -> Option<u64>;

/// The text `rustc_apfloat::ieee::Double`'s `Display` renders for the bit
/// pattern with the given number of significant digits.
pub uninterp spec fn rendered_digits(bits: u64, digits: usize) -> Seq<char>;

/// The bit pattern of the IEEE 754 binary64 sum of the two operands.
pub uninterp spec fn num_add(a: u64, b: u64) -> u64;

/// The bit pattern of the IEEE 754 binary64 difference of the two operands.
pub uninterp spec fn num_sub(a: u64, b: u64) -> u64;

/// The bit pattern of the IEEE 754 binary64 product of the two operands.
pub uninterp spec fn num_mul(a: u64, b: u64) -> u64;

/// The bit pattern of the IEEE 754 binary64 quotient of the two operands.
pub uninterp spec fn num_div(a: u64, b: u64) -> u64;

/// IEEE 754 "less than" on the values the two bit patterns denote
/// (false whenever either is NaN).
pub uninterp spec fn num_lt(a: u64, b: u64) -> bool;

/// IEEE 754 equality on the values the two bit patterns denote: +0 equals
/// -0, NaN equals nothing, and otherwise the denoted values must coincide.
pub uninterp spec fn num_eq(a: u64, b: u64) -> bool;

/// The exponent field of a binary64 bit pattern.
pub open spec fn exponent_field(bits: u64) -> u64 {
    (bits >> 52) & 0x7ff
}

/// The significand field of a binary64 bit pattern.
pub open spec fn significand_field(bits: u64) -> u64 {
    bits & 0xf_ffff_ffff_ffff
}

/// Whether the bit pattern denotes a NaN.
pub open spec fn is_nan_bits(bits: u64) -> bool {
    exponent_field(bits) == 0x7ff && significand_field(bits) != 0
}

/// Whether the bit pattern denotes an infinity.
pub open spec fn is_inf_bits(bits: u64) -> bool {
    exponent_field(bits) == 0x7ff && significand_field(bits) == 0
}

/// Whether the sign bit is set.
pub open spec fn is_negative_bits(bits: u64) -> bool {
    (bits >> 63) == 1
}

/// Negation of a binary64 value: the sign bit flips, nothing else moves.
pub open spec fn num_neg(bits: u64) -> u64 {
    bits ^ 0x8000_0000_0000_0000
}

/// IEEE 754 "less than or equal": less or equal under the partial order.
pub open spec fn num_le(a: u64, b: u64) -> bool {
    num_lt(a, b) || num_eq(a, b)
}

/// IEEE 754 "greater than": the partial order gives exactly one of less,
/// equal and greater on values that are not NaN, and nothing on NaNs.
pub open spec fn num_gt(a: u64, b: u64) -> bool {
    !num_lt(a, b) && !num_eq(a, b) && !is_nan_bits(a) && !is_nan_bits(b)
}

/// IEEE 754 "greater than or equal": greater or equal under the partial
/// order.
pub open spec fn num_ge(a: u64, b: u64) -> bool {
    num_gt(a, b) || num_eq(a, b)
}

/// Whether the character is a decimal digit.
pub open spec fn is_digit_char(c: char) -> bool {
    '0' <= c <= '9'
}

/// Relies on `rustc_apfloat::ieee::Double::from_str`: correctly-rounded
/// decimal-to-binary64 decoding, a function of the text alone.
#[verifier::external_body]
pub(crate) fn apf_parse(s: &str) -> (r: Option<u64>)
    ensures
        r == decoded_number(s@),
{
    match <rustc_apfloat::ieee::Double as core::str::FromStr>::from_str(s) {
        Ok(v) => Some(rustc_apfloat::Float::to_bits(v) as u64),
        Err(_) => None,
    }
}

/// Relies on `rustc_apfloat::ieee::Double`'s `Display`: decimal rendering
/// with the given number of significant digits, a function of the bit
/// pattern and the digit count alone. The fixed width exceeds any binary64
/// decimal exponent, so scientific notation is used only where the digit
/// count would otherwise overstate the value's precision.
#[verifier::external_body]
pub(crate) fn apf_render(bits: u64, digits: usize) -> (r: String)
    ensures
        r@ == rendered_digits(bits, digits),
{
    let v = <rustc_apfloat::ieee::Double as rustc_apfloat::Float>::from_bits(bits as u128);
    format!("{:400.*}", digits, v)
}

/// Relies on `rustc_apfloat::ieee::Double`'s addition: IEEE 754 binary64,
/// round to nearest with ties to even, a function of the operand bits alone.
#[verifier::external_body]
pub(crate) fn num_add_exec(a: u64, b: u64) -> (r: u64)
    ensures
        r == num_add(a, b),
{
    let x = <rustc_apfloat::ieee::Double as rustc_apfloat::Float>::from_bits(a as u128);
    let y = <rustc_apfloat::ieee::Double as rustc_apfloat::Float>::from_bits(b as u128);
    rustc_apfloat::Float::to_bits((x + y).value) as u64
}

/// Relies on `rustc_apfloat::ieee::Double`'s subtraction: IEEE 754 binary64,
/// round to nearest with ties to even, a function of the operand bits alone.
#[verifier::external_body]
pub(crate) fn num_sub_exec(a: u64, b: u64) -> (r: u64)
    ensures
        r == num_sub(a, b),
{
    let x = <rustc_apfloat::ieee::Double as rustc_apfloat::Float>::from_bits(a as u128);
    let y = <rustc_apfloat::ieee::Double as rustc_apfloat::Float>::from_bits(b as u128);
    rustc_apfloat::Float::to_bits((x - y).value) as u64
}

/// Relies on `rustc_apfloat::ieee::Double`'s multiplication: IEEE 754
/// binary64, round to nearest with ties to even, a function of the operand
/// bits alone.
#[verifier::external_body]
pub(crate) fn num_mul_exec(a: u64, b: u64) -> (r: u64)
    ensures
        r == num_mul(a, b),
{
    let x = <rustc_apfloat::ieee::Double as rustc_apfloat::Float>::from_bits(a as u128);
    let y = <rustc_apfloat::ieee::Double as rustc_apfloat::Float>::from_bits(b as u128);
    rustc_apfloat::Float::to_bits((x * y).value) as u64
}

/// Relies on `rustc_apfloat::ieee::Double`'s division: IEEE 754 binary64,
/// round to nearest with ties to even, a function of the operand bits alone
/// (division by zero gives an infinity or NaN, never a fault).
#[verifier::external_body]
pub(crate) fn num_div_exec(a: u64, b: u64) -> (r: u64)
    ensures
        r == num_div(a, b),
{
    let x = <rustc_apfloat::ieee::Double as rustc_apfloat::Float>::from_bits(a as u128);
    let y = <rustc_apfloat::ieee::Double as rustc_apfloat::Float>::from_bits(b as u128);
    rustc_apfloat::Float::to_bits((x / y).value) as u64
}

/// Relies on `rustc_apfloat::ieee::Double`'s `partial_cmp`: the IEEE 754
/// ordering, `None` exactly when either operand is NaN.
#[verifier::external_body]
pub(crate) fn num_lt_exec(a: u64, b: u64) -> (r: bool)
    ensures
        r == num_lt(a, b),
{
    let x = <rustc_apfloat::ieee::Double as rustc_apfloat::Float>::from_bits(a as u128);
    let y = <rustc_apfloat::ieee::Double as rustc_apfloat::Float>::from_bits(b as u128);
    matches!(x.partial_cmp(&y), Some(core::cmp::Ordering::Less))
}

/// Relies on `rustc_apfloat::ieee::Double`'s `partial_cmp`: the IEEE 754
/// ordering, `None` exactly when either operand is NaN, else exactly one of
/// less, equal and greater.
#[verifier::external_body]
pub(crate) fn num_le_exec(a: u64, b: u64) -> (r: bool)
    ensures
        r == num_le(a, b),
{
    let x = <rustc_apfloat::ieee::Double as rustc_apfloat::Float>::from_bits(a as u128);
    let y = <rustc_apfloat::ieee::Double as rustc_apfloat::Float>::from_bits(b as u128);
    matches!(x.partial_cmp(&y), Some(core::cmp::Ordering::Less) | Some(core::cmp::Ordering::Equal))
}

/// Relies on `rustc_apfloat::ieee::Double`'s `partial_cmp`: the IEEE 754
/// ordering, `None` exactly when either operand is NaN, else exactly one of
/// less, equal and greater.
#[verifier::external_body]
pub(crate) fn num_gt_exec(a: u64, b: u64) -> (r: bool)
    ensures
        r == num_gt(a, b),
{
    let x = <rustc_apfloat::ieee::Double as rustc_apfloat::Float>::from_bits(a as u128);
    let y = <rustc_apfloat::ieee::Double as rustc_apfloat::Float>::from_bits(b as u128);
    matches!(x.partial_cmp(&y), Some(core::cmp::Ordering::Greater))
}

/// Relies on `rustc_apfloat::ieee::Double`'s `partial_cmp`: the IEEE 754
/// ordering, `None` exactly when either operand is NaN, else exactly one of
/// less, equal and greater.
#[verifier::external_body]
pub(crate) fn num_ge_exec(a: u64, b: u64) -> (r: bool)
    ensures
        r == num_ge(a, b),
{
    let x = <rustc_apfloat::ieee::Double as rustc_apfloat::Float>::from_bits(a as u128);
    let y = <rustc_apfloat::ieee::Double as rustc_apfloat::Float>::from_bits(b as u128);
    matches!(x.partial_cmp(&y), Some(core::cmp::Ordering::Greater) | Some(core::cmp::Ordering::Equal))
}

/// Relies on `rustc_apfloat::ieee::Double`'s `partial_cmp`: IEEE 754
/// equality (+0 equals -0, NaN equals nothing).
#[verifier::external_body]
pub(crate) fn num_eq_exec(a: u64, b: u64) -> (r: bool)
    ensures
        r == num_eq(a, b),
{
    let x = <rustc_apfloat::ieee::Double as rustc_apfloat::Float>::from_bits(a as u128);
    let y = <rustc_apfloat::ieee::Double as rustc_apfloat::Float>::from_bits(b as u128);
    matches!(x.partial_cmp(&y), Some(core::cmp::Ordering::Equal))
}

/// Negation of a binary64 bit pattern: flip the sign bit.
pub fn num_neg_exec(bits: u64) -> (r: u64)
    ensures
        r == num_neg(bits),
{
    bits ^ 0x8000_0000_0000_0000
}

/// Whether the text holds the character.
pub open spec fn has_char(s: Seq<char>, c: char) -> bool {
    exists|i: int| 0 <= i < s.len() && s[i] == c
}

/// Whether the text holds the character.
pub fn str_has_char(s: &str, c: char) -> (r: bool)
    ensures
        r == has_char(s@, c),
{
    let n = s.unicode_len();
    let mut i: usize = 0;
    while i < n
        invariant
            i <= n,
            n == s@.len(),
            forall|j: int| 0 <= j < i ==> s@[j] != c,
        decreases n - i,
    {
        if s.get_char(i) == c {
            return true;
        }
        i = i + 1;
    }
    false
}

/// The shortest-first search the display of a finite number performs: the
/// plain (non-scientific) rendering with the fewest significant digits, up
/// to 17, that decodes back to the same bit pattern; where no such short
/// plain form exists, the plain rendering at full precision (the value's
/// exact decimal expansion, for values of great magnitude).
pub open spec fn shortest_rendering_from(bits: u64, k: usize) -> Seq<char>
    decreases 18 - k,
{
    if k >= 18 {
        rendered_digits(bits, 400)
    } else if !has_char(rendered_digits(bits, k), 'E')
        && decoded_number(rendered_digits(bits, k)) == Some(bits) {
        rendered_digits(bits, k)
    } else {
        shortest_rendering_from(bits, (k + 1) as usize)
    }
}

/// The display form of a number: `NaN` for NaNs, `inf`/`-inf` for
/// infinities, and for every finite value the shortest plain decimal form
/// that decodes back to the same bit pattern (the full-precision form where
/// no plain form of at most 17 significant digits decodes back).
pub open spec fn number_display(bits: u64) -> Seq<char> {
    if is_nan_bits(bits) {
        "NaN"@
    } else if is_inf_bits(bits) {
        if is_negative_bits(bits) {
            "-inf"@
        } else {
            "inf"@
        }
    } else {
        shortest_rendering_from(bits, 1)
    }
}

/// Render a number for output: the shortest decimal form that decodes back
/// to the same bit pattern (so rendering is deterministic and as short as
/// the decimal notation allows).
pub fn display_number(bits: u64) -> (r: String)
    ensures
        r@ == number_display(bits),
{
    let exponent: u64 = (bits >> 52) & 0x7ff;
    let significand: u64 = bits & 0xf_ffff_ffff_ffff;
    if exponent == 0x7ff {
        if significand != 0 {
            String::from_str("NaN")
        } else if (bits >> 63) == 1 {
            String::from_str("-inf")
        } else {
            String::from_str("inf")
        }
    } else {
        let mut k: usize = 1;
        while k < 18
            invariant
                1 <= k <= 18,
                !is_nan_bits(bits) && !is_inf_bits(bits),
                shortest_rendering_from(bits, k) == shortest_rendering_from(bits, 1),
            decreases 18 - k,
        {
            let s = apf_render(bits, k);
            if !str_has_char(s.as_str(), 'E') {
                match apf_parse(s.as_str()) {
                    Some(back) => {
                        if back == bits {
                            return s;
                        }
                    },
                    None => {},
                }
            }
            k = k + 1;
        }
        apf_render(bits, 400)
    }
}

} // verus!
