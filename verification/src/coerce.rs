//! Tolerant readers for single fields: a reading may arrive as a JSON number,
//! as a number written in a string, or as a string with unit marks around the
//! number. A value that cannot be read gives `None`, never an error.
use vstd::prelude::*;
use crate::decimal::{
    lemma_decimal_reads_back, lemma_parse_decimal_u32, parse_u32, spec_decimal, spec_parse_u32,
};
use crate::json::{Json, JsonView, NumberView};
use crate::text::{chars_of, lemma_trim_removes, spec_all_in, spec_trim, trim, CharClass};

verus! {

/// A `u64` as a `u32`, if it fits.
pub open spec fn spec_fit_u32(n: u64) -> Option<u32> {
    if n <= u32::MAX {
        Some(n as u32)
    } else {
        None
    }
}

/// The `u32` that a field value stands for. A number counts if it is a
/// non-negative integer that fits a `u32`; a string counts if, with the
/// clock marks taken from both ends, it writes a `u32` in decimal.
pub open spec fn spec_coerce_u32(value: JsonView) -> Option<u32> {
    match value {
        JsonView::Number(n) => match n.unsigned {
            Some(u) => spec_fit_u32(u),
            None => None,
        },
        JsonView::Text(s) => spec_parse_u32(spec_trim(s, CharClass::ClockMark)),
        _ => None,
    }
}

/// The text from which a floating-point reading is to be read: the decimal
/// text of a number, or the content of a string. No other value has one.
pub open spec fn spec_coerce_float_text(value: JsonView) -> Option<Seq<char>> {
    match value {
        JsonView::Number(n) => Some(n.text),
        JsonView::Text(s) => Some(s),
        _ => None,
    }
}

/// The content of an optional string.
pub open spec fn spec_opt_text(text: Option<String>) -> Option<Seq<char>> {
    match text {
        Some(s) => Some(s@),
        None => None,
    }
}

/// Narrows `n` to a `u32`; `None` where it does not fit.
pub fn fit_u32(n: u64) -> (r: Option<u32>)
    ensures
        r == spec_fit_u32(n),
{
    if n <= 0xffff_ffff {
        Some(n as u32)
    } else {
        None
    }
}

/// Reads an unsigned integer from a field value.
pub fn coerce_u32(value: &Json) -> (r: Option<u32>)
    ensures
        r == spec_coerce_u32(value@),
{
    match value {
        Json::Number(n) => match n.unsigned {
            Some(u) => fit_u32(u),
            None => None,
        },
        Json::Text(s) => {
            let chars = chars_of(s.as_str());
            let bare = trim(&chars, CharClass::ClockMark);
            parse_u32(&bare)
        },
        _ => None,
    }
}

/// Picks the text from which a floating-point reading is to be read.
pub fn coerce_float_text(value: &Json) -> (r: Option<String>)
    ensures
        spec_opt_text(r) == spec_coerce_float_text(value@),
{
    match value {
        Json::Number(n) => Some(n.text.clone()),
        Json::Text(s) => Some(s.clone()),
        _ => None,
    }
}

/// A reading gives the same number whether it arrives as a plain JSON number
/// or as a string that writes the number in decimal with clock marks around
/// it, such as `1350Mhz` or `(1350Mhz)`.
pub proof fn lemma_decorated_reads_as_plain(
    n: u32,
    before: Seq<char>,
    after: Seq<char>,
    number: NumberView,
)
    requires
        spec_all_in(before, CharClass::ClockMark),
        spec_all_in(after, CharClass::ClockMark),
        number.unsigned == Some(n as u64),
    ensures
        spec_coerce_u32(JsonView::Text(before + spec_decimal(n as nat) + after)) == Some(n),
        spec_coerce_u32(JsonView::Number(number)) == Some(n),
{
    let digits = spec_decimal(n as nat);
    lemma_decimal_reads_back(n as nat);
    lemma_parse_decimal_u32(n);
    assert(crate::decimal::spec_is_digit(digits[0]));
    assert(crate::decimal::spec_is_digit(digits.last()));
    lemma_trim_removes(before, digits, after, CharClass::ClockMark);
}

} // verus!
