//! The UTF-8 encoding of one character.

use vstd::prelude::*;
use vstd::utf8::{encode_scalar, encode_utf8};

verus! {

/// The bytes that encode `c` in UTF-8: between one and four of them.
pub(crate) fn encode_char(c: char) -> (res: Vec<u8>)
    ensures
        res@ == encode_scalar(c as u32),
        res@ == encode_utf8(seq![c]),
        1 <= res@.len() <= 4,
{
    let code = c as u32;
    let mut res: Vec<u8> = Vec::new();
    if code <= 0x7F {
        assert(code & 0x7F <= 0x7F) by (bit_vector);
        res.push((code & 0x7F) as u8);
    } else if code <= 0x7FF {
        assert((code >> 6) & 0x1F <= 0x1F) by (bit_vector);
        assert(code & 0x3F <= 0x3F) by (bit_vector);
        res.push(0xC0 | ((code >> 6) & 0x1F) as u8);
        res.push(0x80 | (code & 0x3F) as u8);
    } else if code <= 0xFFFF {
        assert((code >> 12) & 0x0F <= 0x0F) by (bit_vector);
        assert((code >> 6) & 0x3F <= 0x3F) by (bit_vector);
        assert(code & 0x3F <= 0x3F) by (bit_vector);
        res.push(0xE0 | ((code >> 12) & 0x0F) as u8);
        res.push(0x80 | ((code >> 6) & 0x3F) as u8);
        res.push(0x80 | (code & 0x3F) as u8);
    } else {
        assert((code >> 18) & 0x7 <= 0x7) by (bit_vector);
        assert((code >> 12) & 0x3F <= 0x3F) by (bit_vector);
        assert((code >> 6) & 0x3F <= 0x3F) by (bit_vector);
        assert(code & 0x3F <= 0x3F) by (bit_vector);
        res.push(0xF0 | ((code >> 18) & 0x7) as u8);
        res.push(0x80 | ((code >> 12) & 0x3F) as u8);
        res.push(0x80 | ((code >> 6) & 0x3F) as u8);
        res.push(0x80 | (code & 0x3F) as u8);
    }
    proof {
        reveal_with_fuel(encode_utf8, 2);
    }
    res
}

} // verus!
