//! The temperature reading record, its unit, and the parser's errors.

use vstd::prelude::*;

verus! {

/// The two supported temperature scales.
#[derive(Debug, Clone, Copy, PartialEq, Eq, Structural)]
pub enum TemperatureUnit {
    F,
    C,
}

impl TemperatureUnit {
    /// The scale a reading of this unit is converted to.
    pub open spec fn opposite(self) -> TemperatureUnit {
        match self {
            TemperatureUnit::F => TemperatureUnit::C,
            TemperatureUnit::C => TemperatureUnit::F,
        }
    }

    /// The single-letter label printed after the degree value.
    pub fn label(&self) -> (r: &'static str)
        ensures
            *self is F ==> r@ == "F"@,
            *self is C ==> r@ == "C"@,
    {
        match self {
            TemperatureUnit::F => "F",
            TemperatureUnit::C => "C",
        }
    }
}

/// An integer degree value paired with its scale.
#[derive(Debug, Clone, Copy, PartialEq, Eq, Structural)]
pub struct TemperatureWithUnit {
    pub temp: i32,
    pub unit: TemperatureUnit,
}

/// Why a line of input was rejected.
///
/// `Format` is the one error a user can provoke with ordinary text; the
/// other two guard branches that the grammar check already rules out, and
/// `NumericParse` is additionally reported when the digit run names a value
/// outside the `i32` range.
#[derive(Debug, Clone, Copy, PartialEq, Eq, Structural)]
pub enum ParseError {
    Format,
    NumericParse,
    InvalidUnit,
}

impl ParseError {
    /// The fixed human-readable text reported for this error.
    pub fn message(&self) -> (r: &'static str)
        ensures
            *self is Format ==> r@ == (
                "Invalid input. Please be sure to enter temps in the following format: [-][digits][F/C]. Examples: -10C, 70F"
            )@,
            *self is NumericParse ==> r@ == "Failed to parse the temperature component."@,
            *self is InvalidUnit ==> r@ == "Invalid temperature unit."@,
    {
        match self {
            ParseError::Format => "Invalid input. Please be sure to enter temps in the following format: [-][digits][F/C]. Examples: -10C, 70F",
            ParseError::NumericParse => "Failed to parse the temperature component.",
            ParseError::InvalidUnit => "Invalid temperature unit.",
        }
    }
}

} // verus!
