//! Integer temperature conversion between Fahrenheit and Celsius.
//!
//! A line of text such as `-10C` or `70F` is validated and decoded by
//! [`parse::parse_input`], and the resulting reading is converted to the
//! opposite scale by [`convert::convert`] using truncating integer
//! arithmetic. All parsing and arithmetic is verified; reading lines and
//! printing results is left to the surrounding program.

pub mod convert;
pub mod parse;
pub mod reading;
