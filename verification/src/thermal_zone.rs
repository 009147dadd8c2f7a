//! The kernel's thermal-zone file: one number, in thousandths of a degree.

use crate::temperature::{millidegrees, Failure, Temperature};
use crate::text::{chars_of, trim, trimmed};
use vstd::prelude::*;

verus! {

/// What a thermal-zone file of this content says: the number that the
/// content is, blanks at either end set aside.
pub open spec fn zone_reading(content: Seq<char>) -> Option<Temperature> {
    millidegrees(trimmed(content))
}

/// The reading, or the reason why there is none.
pub open spec fn zone_outcome(content: Seq<char>) -> Result<Temperature, Failure> {
    match zone_reading(content) {
        Some(t) => Ok(t),
        None => Err(Failure::FileUnparseable),
    }
}

/// Reads the content of a thermal-zone file.
pub fn read_thermal_zone(content: &str) -> (r: Result<Temperature, Failure>)
    ensures
        r == zone_outcome(content@),
{
    let chars: Vec<char> = chars_of(content);
    match Temperature::from_millidegrees_text(trim(chars.as_slice())) {
        Some(t) => Ok(t),
        None => Err(Failure::FileUnparseable),
    }
}

} // verus!
