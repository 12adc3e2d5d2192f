//! A UTF-8 validity check for the header bytes.
//!
//! The header of an `emlx` container must decode as text before it is
//! read as a number; a header that is not valid UTF-8 is reported with
//! its byte range.  Validity is checked here byte by byte, against the
//! UTF-8 encoding as vstd states it.
use vstd::prelude::*;

verus! {

use vstd::utf8::decode_utf8;
use vstd::utf8::decode_first_codepoint;
use vstd::utf8::length_of_first_codepoint;
use vstd::utf8::partial_valid_partial_invalid_utf8;
use vstd::utf8::partial_valid_utf8;
use vstd::utf8::partial_valid_utf8_extend;
use vstd::utf8::valid_first_scalar;
use vstd::utf8::valid_utf8;

/// Decide whether `bytes` is a valid UTF-8 encoding: every byte
/// belongs to a well-formed scalar encoding that is neither overlong
/// nor a surrogate.
pub fn check_utf8(bytes: &[u8]) -> (r: bool)
    ensures
        r == valid_utf8(bytes@),
{
    let len = bytes.len();
    let mut i: usize = 0;
    proof {
        assert(bytes@.subrange(0, 0) =~= Seq::<u8>::empty());
    }
    while i < len
        invariant
            0 <= i <= len,
            len == bytes@.len(),
            partial_valid_utf8(bytes@, i as int),
        decreases len - i,
    {
        let ghost tail = bytes@.subrange(i as int, len as int);
        let remaining = len - i;
        let byte1 = *vstd::slice::slice_index_get(bytes, i);
        proof {
            assert(tail[0] == bytes@[i as int]);
        }
        if byte1 <= 0x7f {
            proof {
                assert(byte1 & 0x7f == byte1) by (bit_vector)
                    requires
                        byte1 <= 0x7f,
                ;
                assert(valid_first_scalar(tail));
                assert(length_of_first_codepoint(tail) == 1);
                partial_valid_utf8_extend(bytes@, i as int);
            }
            i = i + 1;
        } else if 0xc0 <= byte1 && byte1 <= 0xdf {
            if remaining < 2 {
                proof {
                    assert(!valid_utf8(tail));
                    partial_valid_partial_invalid_utf8(bytes@, i as int);
                }
                return false;
            }
            let byte2 = *vstd::slice::slice_index_get(bytes, i + 1);
            proof {
                assert(tail[1] == bytes@[i + 1]);
            }
            if !(0x80 <= byte2 && byte2 <= 0xbf) {
                proof {
                    assert(!valid_utf8(tail));
                    partial_valid_partial_invalid_utf8(bytes@, i as int);
                }
                return false;
            }
            let codepoint: u32 = (((byte1 & 0x1f) as u32) << 6) | ((byte2 & 0x3f) as u32);
            proof {
                assert(codepoint == decode_first_codepoint(tail));
            }
            if codepoint < 0x80 {
                proof {
                    assert(!valid_utf8(tail));
                    partial_valid_partial_invalid_utf8(bytes@, i as int);
                }
                return false;
            }
            proof {
                assert(codepoint <= 0x7ff) by (bit_vector)
                    requires
                        codepoint == (((byte1 & 0x1f) as u32) << 6) | ((byte2 & 0x3f) as u32),
                ;
                assert(valid_first_scalar(tail));
                assert(length_of_first_codepoint(tail) == 2);
                partial_valid_utf8_extend(bytes@, i as int);
            }
            i = i + 2;
        } else if 0xe0 <= byte1 && byte1 <= 0xef {
            if remaining < 3 {
                proof {
                    assert(!valid_utf8(tail));
                    partial_valid_partial_invalid_utf8(bytes@, i as int);
                }
                return false;
            }
            let byte2 = *vstd::slice::slice_index_get(bytes, i + 1);
            let byte3 = *vstd::slice::slice_index_get(bytes, i + 2);
            proof {
                assert(tail[1] == bytes@[i + 1] && tail[2] == bytes@[i + 2]);
            }
            if !(0x80 <= byte2 && byte2 <= 0xbf) || !(0x80 <= byte3 && byte3 <= 0xbf) {
                proof {
                    assert(!valid_utf8(tail));
                    partial_valid_partial_invalid_utf8(bytes@, i as int);
                }
                return false;
            }
            let codepoint: u32 = (((byte1 & 0x0f) as u32) << 12) | (((byte2 & 0x3f) as u32) << 6)
                | ((byte3 & 0x3f) as u32);
            proof {
                assert(codepoint == decode_first_codepoint(tail));
            }
            if codepoint < 0x800 || (0xd800 <= codepoint && codepoint <= 0xdfff) {
                proof {
                    assert(!valid_utf8(tail));
                    partial_valid_partial_invalid_utf8(bytes@, i as int);
                }
                return false;
            }
            proof {
                assert(valid_first_scalar(tail));
                assert(length_of_first_codepoint(tail) == 3);
                partial_valid_utf8_extend(bytes@, i as int);
            }
            i = i + 3;
        } else if 0xf0 <= byte1 && byte1 <= 0xf7 {
            if remaining < 4 {
                proof {
                    assert(!valid_utf8(tail));
                    partial_valid_partial_invalid_utf8(bytes@, i as int);
                }
                return false;
            }
            let byte2 = *vstd::slice::slice_index_get(bytes, i + 1);
            let byte3 = *vstd::slice::slice_index_get(bytes, i + 2);
            let byte4 = *vstd::slice::slice_index_get(bytes, i + 3);
            proof {
                assert(tail[1] == bytes@[i + 1] && tail[2] == bytes@[i + 2] && tail[3] == bytes@[i
                    + 3]);
            }
            if !(0x80 <= byte2 && byte2 <= 0xbf) || !(0x80 <= byte3 && byte3 <= 0xbf) || !(0x80
                <= byte4 && byte4 <= 0xbf) {
                proof {
                    assert(!valid_utf8(tail));
                    partial_valid_partial_invalid_utf8(bytes@, i as int);
                }
                return false;
            }
            let codepoint: u32 = (((byte1 & 0x07) as u32) << 18) | (((byte2 & 0x3f) as u32) << 12)
                | (((byte3 & 0x3f) as u32) << 6) | ((byte4 & 0x3f) as u32);
            proof {
                assert(codepoint == decode_first_codepoint(tail));
            }
            if codepoint < 0x10000 || codepoint > 0x10ffff {
                proof {
                    assert(!valid_utf8(tail));
                    partial_valid_partial_invalid_utf8(bytes@, i as int);
                }
                return false;
            }
            proof {
                assert(valid_first_scalar(tail));
                assert(length_of_first_codepoint(tail) == 4);
                partial_valid_utf8_extend(bytes@, i as int);
            }
            i = i + 4;
        } else {
            // A continuation byte, or a byte no encoding uses, cannot
            // lead a scalar.
            proof {
                assert(!valid_utf8(tail));
                partial_valid_partial_invalid_utf8(bytes@, i as int);
            }
            return false;
        }
    }
    proof {
        assert(bytes@.subrange(0, len as int) =~= bytes@);
    }
    true
}

/// Relies on std::str::from_utf8: on valid UTF-8 it returns Ok, and
/// the returned text views as the bytes' decoded characters.
#[verifier::external_body]
pub fn utf8_unchecked<'a>(bytes: &'a [u8]) -> (r: &'a str)
    requires
        valid_utf8(bytes@),
    ensures
        r@ == decode_utf8(bytes@),
{
    std::str::from_utf8(bytes).unwrap_or("")
}

} // verus!
