//! Temperatures as fixed-point values.

use crate::decimal::{fixed_point, parse_fixed_point};
use crate::text::chars_of;
use vstd::prelude::*;

verus! {

/// A temperature in thousandths of a degree Celsius.
///
/// Zero doubles as the mark for "nothing read yet".
#[derive(Clone, Copy, Debug, PartialEq, Eq, Structural)]
pub struct Temperature {
    pub millidegrees: i64,
}

/// Why an acquirer has no reading to give.
#[derive(Clone, Copy, Debug, PartialEq, Eq, Structural)]
pub enum Failure {
    /// The monitoring tool could not be run, or did not end well.
    ToolUnavailable,
    /// The tool's output is no UTF-8 text or no structured document.
    ToolOutputMalformed,
    /// The readings were understood, but none of them is the processor's.
    NoMatchingSensor,
    /// The sensor registry holds no reading at all.
    RegistryEmpty,
    /// The thermal-zone file could not be read.
    FileUnreadable,
    /// The thermal-zone file holds no number.
    FileUnparseable,
}

/// The temperature that a decimal literal in degrees denotes, cut off to
/// thousandths; `None` where `text` is no literal or the value is out of
/// range.
pub open spec fn degrees(text: Seq<char>) -> Option<Temperature> {
    match fixed_point(text, 3) {
        Some(m) => Some(Temperature { millidegrees: m }),
        None => None,
    }
}

/// The temperature that a decimal literal in thousandths of a degree
/// denotes, fractions of a thousandth cut off.
pub open spec fn millidegrees(text: Seq<char>) -> Option<Temperature> {
    match fixed_point(text, 0) {
        Some(m) => Some(Temperature { millidegrees: m }),
        None => None,
    }
}

impl Temperature {
    /// The mark for "nothing read yet".
    pub fn zero() -> (t: Temperature)
        ensures
            t.millidegrees == 0,
    {
        Temperature { millidegrees: 0 }
    }

    pub fn from_millidegrees(millidegrees: i64) -> (t: Temperature)
        ensures
            t.millidegrees == millidegrees,
    {
        Temperature { millidegrees }
    }

    pub fn millidegrees(&self) -> (m: i64)
        ensures
            m == self.millidegrees,
    {
        self.millidegrees
    }

    pub fn is_zero(&self) -> (zero: bool)
        ensures
            zero == (self.millidegrees == 0),
    {
        self.millidegrees == 0
    }

    /// Reads a decimal literal in degrees: `"45.5"` is 45500 thousandths.
    pub fn from_degrees(text: &[char]) -> (t: Option<Temperature>)
        ensures
            t == degrees(text@),
    {
        match parse_fixed_point(text, 3) {
            Some(m) => Some(Temperature { millidegrees: m }),
            None => None,
        }
    }

    /// Reads a decimal literal in thousandths of a degree: `"45230"` is
    /// 45230 thousandths, that is 45.23 degrees.
    pub fn from_millidegrees_text(text: &[char]) -> (t: Option<Temperature>)
        ensures
            t == millidegrees(text@),
    {
        match parse_fixed_point(text, 0) {
            Some(m) => Some(Temperature { millidegrees: m }),
            None => None,
        }
    }

    /// Reads a decimal literal in degrees from a string.
    pub fn parse_degrees(text: &str) -> (t: Option<Temperature>)
        ensures
            t == degrees(text@),
    {
        let chars: Vec<char> = chars_of(text);
        Temperature::from_degrees(chars.as_slice())
    }
}

} // verus!
