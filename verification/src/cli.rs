//! Reading the packer's numeric arguments.

use vstd::prelude::*;
use vstd::string::StringSliceAdditionalSpecFns;
use crate::text::{number_in, parse_number};

verus! {

/// Whether `s` begins with `0x` or `0X`.
pub open spec fn has_hex_prefix(s: Seq<u8>) -> bool {
    s.len() >= 2 && s[0] == 48 && (s[1] == 120 || s[1] == 88)
}

/// The number that an argument writes: hexadecimal behind `0x` or `0X`,
/// else decimal. `None` where the text is no such number or the number
/// does not fit 64 bits.
pub open spec fn argument_value(s: Seq<u8>) -> Option<u64> {
    if has_hex_prefix(s) {
        number_in(s.subrange(2, s.len() as int), 16)
    } else {
        number_in(s, 10)
    }
}

/// Reads an address or a size from an argument.
pub fn parse_u64(s: &str) -> (v: Option<u64>)
    ensures
        v == argument_value(s.spec_bytes()),
{
    let bytes = s.as_bytes();
    if bytes.len() >= 2 && bytes[0] == 48 && (bytes[1] == 120 || bytes[1] == 88) {
        parse_number(vstd::slice::slice_subrange(bytes, 2, bytes.len()), 16)
    } else {
        parse_number(bytes, 10)
    }
}

/// The number that an argument for a 32-bit field writes: as
/// `argument_value`, and `None` too where the number does not fit 32 bits.
pub open spec fn argument_value_32(s: Seq<u8>) -> Option<u32> {
    match argument_value(s) {
        Some(v) => if v <= u32::MAX {
            Some(v as u32)
        } else {
            None
        },
        None => None,
    }
}

/// Reads a page size from an argument.
pub fn parse_u32(s: &str) -> (v: Option<u32>)
    ensures
        v == argument_value_32(s.spec_bytes()),
{
    match parse_u64(s) {
        Some(v) => if v <= u32::MAX as u64 {
            Some(v as u32)
        } else {
            None
        },
        None => None,
    }
}

} // verus!
