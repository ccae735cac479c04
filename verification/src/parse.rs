//! The input grammar and the verified scanner that decodes one line.

use vstd::prelude::*;

use crate::reading::{ParseError, TemperatureUnit, TemperatureWithUnit};

verus! {

/// An ASCII decimal digit.
pub open spec fn is_digit(c: char) -> bool {
    '0' <= c && c <= '9'
}

/// The numeric value of one digit character.
pub open spec fn digit_val(c: char) -> int {
    c as int - '0' as int
}

/// Every character of `s` is a decimal digit.
pub open spec fn all_digits(s: Seq<char>) -> bool {
    forall|i: int| 0 <= i < s.len() ==> is_digit(#[trigger] s[i])
}

/// The value of a run of decimal digits, most significant first.
pub open spec fn digits_value(s: Seq<char>) -> int
    decreases s.len(),
{
    if s.len() == 0 {
        0
    } else {
        digits_value(s.drop_last()) * 10 + digit_val(s.last())
    }
}

/// The accepted grammar, anchored at both ends: an optional minus sign,
/// one or more decimal digits, then exactly one unit letter, `F` or `C`.
pub open spec fn matches_grammar(s: Seq<char>) -> bool {
    &&& s.len() >= 2
    &&& (s.last() == 'F' || s.last() == 'C')
    &&& {
        let num = s.drop_last();
        if num[0] == '-' {
            num.len() >= 2 && all_digits(num.subrange(1, num.len() as int))
        } else {
            all_digits(num)
        }
    }
}

/// The signed integer named by the numeric part of a grammatical input.
pub open spec fn input_value(s: Seq<char>) -> int {
    let num = s.drop_last();
    if num[0] == '-' {
        -digits_value(num.subrange(1, num.len() as int))
    } else {
        digits_value(num)
    }
}

/// The unit named by the trailing letter of a grammatical input.
pub open spec fn input_unit(s: Seq<char>) -> TemperatureUnit {
    if s.last() == 'F' {
        TemperatureUnit::F
    } else {
        TemperatureUnit::C
    }
}

/// Decodes one line (already stripped of surrounding whitespace) into a
/// reading.
///
/// Exactly the lines matching the grammar whose digit run names a value in
/// the `i32` range succeed; a line that does not match is rejected as
/// `Format`, and a matching line whose value does not fit as
/// `NumericParse`.
pub fn parse_input(input: &str) -> (r: Result<TemperatureWithUnit, ParseError>)
    ensures
        r is Ok <==> matches_grammar(input@) && i32::MIN <= input_value(input@) <= i32::MAX,
        r is Ok ==> r->Ok_0.temp == input_value(input@) && r->Ok_0.unit == input_unit(input@),
        !matches_grammar(input@) ==> r == Err::<TemperatureWithUnit, ParseError>(ParseError::Format),
        matches_grammar(input@) && !(i32::MIN <= input_value(input@) <= i32::MAX)
            ==> r == Err::<TemperatureWithUnit, ParseError>(ParseError::NumericParse),
{
    let n = input.unicode_len();
    if n < 2 {
        return Err(ParseError::Format);
    }
    let unit_char = input.get_char(n - 1);
    if unit_char != 'F' && unit_char != 'C' {
        return Err(ParseError::Format);
    }
    let negative = input.get_char(0) == '-';
    let start: usize = if negative {
        1
    } else {
        0
    };
    if n - 1 == start {
        // a lone minus sign before the unit letter: no digits
        return Err(ParseError::Format);
    }

    let mut i = start;
    let mut acc: u64 = 0;
    let mut overflow = false;
    while i < n - 1
        invariant
            n == input@.len(),
            2 <= n <= usize::MAX,
            start <= i < n,
            i <= n - 1,
            negative <==> input@[0] == '-',
            negative ==> start == 1,
            !negative ==> start == 0,
            start < n - 1,
            forall|j: int| start <= j < i ==> is_digit(#[trigger] input@[j]),
            !overflow ==> acc <= 0x8000_0000u64
                && acc == digits_value(input@.subrange(start as int, i as int)),
            overflow ==> digits_value(input@.subrange(start as int, i as int)) > 0x8000_0000,
        decreases n - 1 - i,
    {
        let ch = input.get_char(i);
        if ch < '0' || ch > '9' {
            proof {
                lemma_not_grammar_at(input@, start as int, i as int);
            }
            return Err(ParseError::Format);
        }
        let d: u64 = (ch as u64) - 48;
        proof {
            assert(input@.subrange(start as int, i + 1 as int).drop_last()
                =~= input@.subrange(start as int, i as int));
        }
        if !overflow {
            let next: u64 = acc * 10 + d;
            if next > 0x8000_0000 {
                overflow = true;
            } else {
                acc = next;
            }
        }
        i += 1;
    }

    proof {
        lemma_grammar_holds(input@, start as int);
    }

    let unit = if unit_char == 'F' {
        TemperatureUnit::F
    } else if unit_char == 'C' {
        TemperatureUnit::C
    } else {
        // structurally unreachable: the unit letter was checked above;
        // kept as a defensive fallback rather than a panic
        return Err(ParseError::InvalidUnit);
    };

    if overflow {
        return Err(ParseError::NumericParse);
    }
    if negative {
        let temp: i32 = (-(acc as i64)) as i32;
        Ok(TemperatureWithUnit { temp, unit })
    } else {
        if acc > 0x7fff_ffff {
            return Err(ParseError::NumericParse);
        }
        let temp: i32 = acc as i32;
        Ok(TemperatureWithUnit { temp, unit })
    }
}

/// A non-digit inside the digit run refutes the grammar.
proof fn lemma_not_grammar_at(s: Seq<char>, start: int, i: int)
    requires
        s.len() >= 2,
        start == 0 ==> s[0] != '-',
        start == 1 ==> s[0] == '-',
        start == 0 || start == 1,
        start <= i < s.len() - 1,
        !is_digit(s[i]),
    ensures
        !matches_grammar(s),
{
    let num = s.drop_last();
    if matches_grammar(s) {
        if num[0] == '-' {
            assert(start == 1);
            assert(num.subrange(1, num.len() as int)[i - 1] == s[i]);
        } else {
            assert(start == 0);
            assert(num[i] == s[i]);
        }
    }
}

/// A validated digit run establishes the grammar, and ties the input's
/// value and unit to the digits and the trailing letter.
proof fn lemma_grammar_holds(s: Seq<char>, start: int)
    requires
        s.len() >= 2,
        s.last() == 'F' || s.last() == 'C',
        start == 0 || (start == 1 && s[0] == '-'),
        start < s.len() - 1,
        forall|j: int| start <= j < s.len() - 1 ==> is_digit(#[trigger] s[j]),
        start == 0 ==> s[0] != '-',
    ensures
        matches_grammar(s),
        input_value(s) == if start == 1 {
            -digits_value(s.subrange(start, s.len() - 1))
        } else {
            digits_value(s.subrange(start, s.len() - 1))
        },
{
    let num = s.drop_last();
    if start == 1 {
        assert(num.subrange(1, num.len() as int) =~= s.subrange(start, s.len() - 1));
    } else {
        assert(num =~= s.subrange(start, s.len() - 1));
    }
}

} // verus!
