//! The two conversion formulas, over truncating integer division.

use vstd::prelude::*;

use crate::reading::{TemperatureUnit, TemperatureWithUnit};

verus! {

/// Integer division truncating toward zero — the semantics of Rust's `/`
/// operator — for a positive divisor. (In specifications, `/` alone is
/// Euclidean division, which rounds down instead for negative dividends.)
pub open spec fn div_trunc(a: int, b: int) -> int {
    if a >= 0 {
        a / b
    } else {
        -((-a) / b)
    }
}

/// Fahrenheit to Celsius: `(f - 32) * 5 / 9`, truncating toward zero.
pub open spec fn f_to_c_spec(f: int) -> int {
    div_trunc((f - 32) * 5, 9)
}

/// Celsius to Fahrenheit: `c * 9 / 5 + 32`, truncating toward zero.
pub open spec fn c_to_f_spec(c: int) -> int {
    div_trunc(c * 9, 5) + 32
}

/// Converts a Fahrenheit reading's degree value to Celsius.
///
/// The precondition keeps the intermediate product `(f - 32) * 5` inside
/// the `i32` range; the quotient itself always fits.
pub fn f_to_c(f: i32) -> (c: i32)
    requires
        i32::MIN <= (f - 32) * 5 <= i32::MAX,
    ensures
        c == f_to_c_spec(f as int),
{
    let num: i64 = (f as i64 - 32) * 5;
    if num >= 0 {
        ((num as u64) / 9) as i32
    } else {
        -((((-num) as u64) / 9) as i32)
    }
}

/// Converts a Celsius reading's degree value to Fahrenheit.
///
/// The precondition keeps the intermediate product `c * 9` inside the
/// `i32` range; the final sum then fits as well.
pub fn c_to_f(c: i32) -> (f: i32)
    requires
        i32::MIN <= c * 9 <= i32::MAX,
    ensures
        f == c_to_f_spec(c as int),
{
    let num: i64 = c as i64 * 9;
    let q: i32 = if num >= 0 {
        ((num as u64) / 5) as i32
    } else {
        -((((-num) as u64) / 5) as i32)
    };
    q + 32
}

/// Truncating division rounds toward zero: the product `b * div_trunc(a, b)`
/// falls within `b - 1` of `a`, on `a`'s own side of zero.
proof fn lemma_div_trunc_bounds(a: int, b: int)
    requires
        b > 0,
    ensures
        a >= 0 ==> div_trunc(a, b) >= 0 && a - b < b * div_trunc(a, b) <= a,
        a <= 0 ==> div_trunc(a, b) <= 0 && a <= b * div_trunc(a, b) < a + b,
{
    if a >= 0 {
        vstd::arithmetic::div_mod::lemma_fundamental_div_mod(a, b);
        vstd::arithmetic::div_mod::lemma_mod_bound(a, b);
        vstd::arithmetic::div_mod::lemma_div_pos_is_pos(a, b);
    } else {
        let q = (-a) / b;
        vstd::arithmetic::div_mod::lemma_fundamental_div_mod(-a, b);
        vstd::arithmetic::div_mod::lemma_mod_bound(-a, b);
        vstd::arithmetic::div_mod::lemma_div_pos_is_pos(-a, b);
        vstd::arithmetic::mul::lemma_mul_unary_negation(b, q);
    }
}

/// One Fahrenheit → Celsius → Fahrenheit round trip is not exactly
/// idempotent: truncation moves the temperature by up to two degrees, always
/// toward 32 °F and never past it. Repeating the round trip therefore keeps
/// every iterate between the starting temperature and 32.
pub proof fn lemma_f_round_trip_bound(f: int)
    ensures
        f - 2 <= c_to_f_spec(f_to_c_spec(f)) <= f + 2,
        f >= 32 ==> 32 <= c_to_f_spec(f_to_c_spec(f)) <= f,
        f <= 32 ==> f <= c_to_f_spec(f_to_c_spec(f)) <= 32,
{
    let a = f - 32;
    let c = div_trunc(a * 5, 9);
    lemma_div_trunc_bounds(a * 5, 9);
    lemma_div_trunc_bounds(c * 9, 5);
}

/// Converts a reading to the opposite scale.
pub fn convert(reading: TemperatureWithUnit) -> (converted: TemperatureWithUnit)
    requires
        reading.unit is F ==> i32::MIN <= (reading.temp - 32) * 5 <= i32::MAX,
        reading.unit is C ==> i32::MIN <= reading.temp * 9 <= i32::MAX,
    ensures
        converted.unit == reading.unit.opposite(),
        reading.unit is F ==> converted.temp == f_to_c_spec(reading.temp as int),
        reading.unit is C ==> converted.temp == c_to_f_spec(reading.temp as int),
{
    match reading.unit {
        TemperatureUnit::F => TemperatureWithUnit { temp: f_to_c(reading.temp), unit: TemperatureUnit::C },
        TemperatureUnit::C => TemperatureWithUnit { temp: c_to_f(reading.temp), unit: TemperatureUnit::F },
    }
}

} // verus!
