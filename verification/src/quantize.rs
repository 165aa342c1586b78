//! Labels for the readings that the instrument offers in fixed steps. A
//! reading that is one of the steps is shown by the step's label; any other
//! is shown as the number it is. Nothing is rounded and nothing is refused.

use crate::decimal::{decimal, Decimal, DecimalView};
use vstd::prelude::*;
use vstd::string::*;

verus! {

/// The label of a vertical scale in volts per division: the steps from
/// 100 mV to 10 V by their names, any other value by its digits.
pub open spec fn scale_label_text(value: DecimalView) -> Seq<char> {
    if value == decimal(false, 1, -1) {
        "100mV"@
    } else if value == decimal(false, 2, -1) {
        "200mV"@
    } else if value == decimal(false, 5, -1) {
        "500mV"@
    } else if value == decimal(false, 1, 0) {
        "1V"@
    } else if value == decimal(false, 2, 0) {
        "2V"@
    } else if value == decimal(false, 5, 0) {
        "5V"@
    } else if value == decimal(false, 1, 1) {
        "10V"@
    } else {
        value.text()
    }
}

/// The label of a probe ratio: 1, 10, 100 and 1000 by their names, any
/// other value by its digits.
pub open spec fn probe_label_text(value: DecimalView) -> Seq<char> {
    if value == decimal(false, 1, 0) {
        "1"@
    } else if value == decimal(false, 1, 1) {
        "10"@
    } else if value == decimal(false, 1, 2) {
        "100"@
    } else if value == decimal(false, 1, 3) {
        "1000"@
    } else {
        value.text()
    }
}

/// The step that a reading is: its one significant digit and the power of
/// ten of that digit, where the reading is positive and has one digit.
fn step_of(value: &Decimal) -> (step: Option<(u64, i64)>)
    ensures
        match step {
            Some((digit, exponent)) => value@ == decimal(false, digit as nat, exponent as int),
            None => value@.negative || value@.mantissa > u64::MAX,
        },
{
    if value.is_negative() {
        return None;
    }
    match value.mantissa() {
        Some(digit) => Some((digit, value.exponent())),
        None => None,
    }
}

/// Shows a vertical scale by its label.
pub fn scale_label(value: &Decimal) -> (label: String)
    ensures
        label@ == scale_label_text(value@),
{
    match step_of(value) {
        Some((1, -1)) => "100mV".to_owned(),
        Some((2, -1)) => "200mV".to_owned(),
        Some((5, -1)) => "500mV".to_owned(),
        Some((1, 0)) => "1V".to_owned(),
        Some((2, 0)) => "2V".to_owned(),
        Some((5, 0)) => "5V".to_owned(),
        Some((1, 1)) => "10V".to_owned(),
        _ => value.to_text(),
    }
}

/// Shows a probe ratio by its label.
pub fn probe_label(value: &Decimal) -> (label: String)
    ensures
        label@ == probe_label_text(value@),
{
    match step_of(value) {
        Some((1, 0)) => "1".to_owned(),
        Some((1, 1)) => "10".to_owned(),
        Some((1, 2)) => "100".to_owned(),
        Some((1, 3)) => "1000".to_owned(),
        _ => value.to_text(),
    }
}

} // verus!
