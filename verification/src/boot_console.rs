//! Lines for the firmware's text console.
//!
//! The console takes NUL-terminated strings of 16-bit units. A line is
//! built in a buffer of 192 units, which leaves room for 188 bytes of text
//! before the line end; a longer text is not shown at all.

use vstd::prelude::*;
use vstd::string::StringSliceAdditionalSpecFns;
use crate::text::{digits, push_digits};

verus! {

/// Units in the buffer a line is built in.
pub const LINE_UNITS: usize = 192;

/// The longest text that is shown, in bytes.
pub const LINE_TEXT_MAX: usize = 188;

/// Each byte as a 16-bit unit.
pub open spec fn widen(text: Seq<u8>) -> Seq<u16> {
    Seq::new(text.len(), |i: int| text[i] as u16)
}

/// The units that show `text` as a line: the bytes of the text, a carriage
/// return, a line feed and the closing NUL. Nothing for a text of more than
/// 188 bytes.
pub open spec fn line_units(text: Seq<u8>) -> Seq<u16> {
    if text.len() > LINE_TEXT_MAX {
        Seq::empty()
    } else {
        widen(text) + seq![13u16, 10u16, 0u16]
    }
}

/// The text of a value line: the label, a space, `0x` and the value in
/// lower-case hexadecimal without leading zeros.
pub open spec fn hex_text(label: Seq<u8>, value: u64) -> Seq<u8> {
    label + seq![32u8, 48u8, 120u8] + digits(value as nat, true)
}

/// Builds the units that show `text` as a line.
pub fn encode_line(text: &[u8]) -> (units: Vec<u16>)
    ensures
        units@ == line_units(text@),
{
    let mut units: Vec<u16> = Vec::new();
    if text.len() > LINE_TEXT_MAX {
        return units;
    }
    let mut i: usize = 0;
    while i < text.len()
        invariant
            i <= text.len(),
            units@ == widen(text@.subrange(0, i as int)),
        decreases text.len() - i,
    {
        units.push(text[i] as u16);
        assert(units@ =~= widen(text@.subrange(0, i + 1)));
        i = i + 1;
    }
    assert(text@.subrange(0, i as int) =~= text@);
    units.push(13);
    units.push(10);
    units.push(0);
    assert(units@ =~= widen(text@) + seq![13u16, 10u16, 0u16]);
    units
}

/// The units that show `text` as a line of the console.
pub fn write_line(text: &str) -> (units: Vec<u16>)
    ensures
        units@ == line_units(text.spec_bytes()),
{
    encode_line(text.as_bytes())
}

/// The units that show `label` and `value` as a line of the console.
pub fn write_hex(label: &str, value: u64) -> (units: Vec<u16>)
    ensures
        units@ == line_units(hex_text(label.spec_bytes(), value)),
{
    let bytes = label.as_bytes();
    let mut text: Vec<u8> = Vec::new();
    let mut i: usize = 0;
    while i < bytes.len()
        invariant
            i <= bytes.len(),
            text@ == bytes@.subrange(0, i as int),
        decreases bytes.len() - i,
    {
        text.push(bytes[i]);
        assert(text@ =~= bytes@.subrange(0, i + 1));
        i = i + 1;
    }
    assert(bytes@.subrange(0, i as int) =~= bytes@);
    text.push(32);
    text.push(48);
    text.push(120);
    assert(text@ =~= bytes@ + seq![32u8, 48u8, 120u8]);
    push_digits(&mut text, value, true);
    encode_line(text.as_slice())
}

} // verus!
