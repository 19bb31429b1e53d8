//! String values of the registry.
use vstd::prelude::*;

use crate::text::{trim, trimmed};
use crate::win::wide::{before_nul, read_units, units_of, utf16_text, wide_to_string};

verus! {

/// The text of a string value: UTF-16 up to a NUL, without the white space around it. A
/// value that holds no character, or an empty text, is as good as absent.
pub open spec fn value_text(data: Seq<u8>) -> Option<Seq<char>> {
    let s = trimmed(utf16_text(before_nul(units_of(data))));
    if data.len() >= 2 && s.len() > 0 {
        Some(s)
    } else {
        None
    }
}

/// The text of a string value, from the bytes that the registry holds for it. Callers treat
/// a missing value and an empty one the same way: "not recorded here".
pub fn read_hklm_string(data: &Option<Vec<u8>>) -> (r: Option<String>)
    ensures
        r.deep_view() == match data {
            Some(d) => value_text(d@),
            None => None,
        },
{
    match data {
        Some(d) => {
            if d.len() < 2 {
                return None;
            }
            let units = read_units(d.as_slice());
            let text = wide_to_string(units.as_slice());
            let s = trim(text.as_str());
            if s.as_str().is_empty() {
                None
            } else {
                Some(s)
            }
        },
        None => None,
    }
}

/// A string value is its text up to the first NUL, without the blanks around it; an empty one, or
/// one without a whole character, is none.
pub proof fn an_empty_value_is_none(data: Seq<u8>)
    ensures
        match value_text(data) {
            Some(s) => data.len() >= 2 && s.len() > 0 && s == trimmed(
                utf16_text(before_nul(units_of(data))),
            ),
            None => data.len() < 2 || trimmed(utf16_text(before_nul(units_of(data)))).len() == 0,
        },
{
}

} // verus!
