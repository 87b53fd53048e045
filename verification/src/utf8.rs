//! Validation of UTF-8, proved against the definition of well-formed
//! UTF-8: shortest forms only, no surrogates, nothing above U+10FFFF.

use vstd::prelude::*;
use vstd::utf8::{
    length_of_first_scalar, partial_valid_partial_invalid_utf8, partial_valid_utf8,
    partial_valid_utf8_extend, valid_first_scalar, valid_utf8,
};

verus! {

/// Whether `byte` continues a character: `10xxxxxx`.
fn is_continuation(byte: u8) -> (r: bool)
    ensures
        r == vstd::utf8::is_continuation_byte(byte),
{
    0x80 <= byte && byte <= 0xBF
}

/// The number of bytes of the character that starts at `at`, or 0 where
/// no well-formed character starts there.
pub fn scalar_width(data: &[u8], at: usize) -> (width: usize)
    requires
        at < data@.len(),
    ensures
        width != 0 <==> valid_first_scalar(data@.subrange(at as int, data@.len() as int)),
        width != 0 ==> width == length_of_first_scalar(
            data@.subrange(at as int, data@.len() as int),
        ),
        at + width <= data@.len(),
        width <= 4,
{
    let ghost rest = data@.subrange(at as int, data@.len() as int);
    let left = data.len() - at;
    let lead = data[at];
    assert(rest[0] == lead);
    let (width, scalar): (usize, u32) = if lead <= 0x7F {
        (1, (lead & 0x7F) as u32)
    } else if 0xC0 <= lead && lead <= 0xDF {
        if left < 2 {
            return 0;
        }
        let second = data[at + 1];
        assert(rest[1] == second);
        if !is_continuation(second) {
            return 0;
        }
        (2, (((lead & 0x1F) as u32) << 6) | ((second & 0x3F) as u32))
    } else if 0xE0 <= lead && lead <= 0xEF {
        if left < 3 {
            return 0;
        }
        let second = data[at + 1];
        let third = data[at + 2];
        assert(rest[1] == second && rest[2] == third);
        if !is_continuation(second) || !is_continuation(third) {
            return 0;
        }
        (
            3,
            (((lead & 0x0F) as u32) << 12) | (((second & 0x3F) as u32) << 6) | ((third & 0x3F)
                as u32),
        )
    } else if 0xF0 <= lead && lead <= 0xF7 {
        if left < 4 {
            return 0;
        }
        let second = data[at + 1];
        let third = data[at + 2];
        let fourth = data[at + 3];
        assert(rest[1] == second && rest[2] == third && rest[3] == fourth);
        if !is_continuation(second) || !is_continuation(third) || !is_continuation(fourth) {
            return 0;
        }
        (
            4,
            (((lead & 0x07) as u32) << 18) | (((second & 0x3F) as u32) << 12) | (((third
                & 0x3F) as u32) << 6) | ((fourth & 0x3F) as u32),
        )
    } else {
        return 0;
    };
    assert(scalar == vstd::utf8::decode_first_codepoint(rest));
    let overlong = (width == 2 && scalar < 0x80) || (width == 3 && scalar < 0x800) || (width == 4
        && (scalar < 0x10000 || scalar > 0x10FFFF));
    let surrogate = 0xD800 <= scalar && scalar <= 0xDFFF;
    if overlong || surrogate {
        0
    } else {
        width
    }
}

/// Checks whether `data` is well-formed UTF-8.
pub fn is_valid_utf8(data: &[u8]) -> (r: bool)
    ensures
        r == valid_utf8(data@),
{
    let mut at: usize = 0;
    assert(data@.subrange(0, 0) =~= Seq::<u8>::empty());
    while at < data.len()
        invariant
            partial_valid_utf8(data@, at as int),
        decreases data@.len() - at,
    {
        let width = scalar_width(data, at);
        if width == 0 {
            proof {
                let rest = data@.subrange(at as int, data@.len() as int);
                assert(rest.len() > 0);
                assert(!valid_utf8(rest));
                partial_valid_partial_invalid_utf8(data@, at as int);
            }
            return false;
        }
        proof {
            partial_valid_utf8_extend(data@, at as int);
        }
        at += width;
    }
    assert(data@.subrange(0, at as int) =~= data@);
    true
}

} // verus!
