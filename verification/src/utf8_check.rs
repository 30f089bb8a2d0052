//! A UTF-8 validator, proved against vstd's model of the encoding.
//!
//! Loading goes through this check so that bytes which are not valid UTF-8
//! are reported as a text-decoding failure, distinct from a JSON syntax
//! failure on valid text.

use vstd::prelude::*;
use vstd::utf8::*;

verus! {

/// Byte length of the scalar encoded at position `i`, or `0` when no
/// well-formed scalar encoding starts there.
fn check_scalar(b: &Vec<u8>, i: usize) -> (k: usize)
    requires
        i < b@.len(),
    ensures
        k == 0 ==> !valid_first_scalar(b@.subrange(i as int, b@.len() as int)),
        k > 0 ==> valid_first_scalar(b@.subrange(i as int, b@.len() as int)) && k
            == length_of_first_scalar(b@.subrange(i as int, b@.len() as int)) && i + k <= b@.len(),
{
    let n = b.len();
    let ghost s = b@.subrange(i as int, n as int);
    proof {
        assert(forall|j: int| 0 <= j < s.len() ==> s[j] == b@[i + j]);
    }
    let b0 = b[i];
    if b0 < 0x80 {
        proof {
            assert(b0 & 0x7F <= 0x7F) by (bit_vector);
            assert(valid_first_scalar(s));
        }
        1
    } else if 0xC0 <= b0 && b0 <= 0xDF {
        if n - i < 2 {
            return 0;
        }
        let b1 = b[i + 1];
        if !(0x80 <= b1 && b1 <= 0xBF) {
            return 0;
        }
        let cp: u32 = (((b0 & 0x1F) as u32) << 6) | ((b1 & 0x3F) as u32);
        if cp < 0x80 {
            // An overlong two-byte encoding of a one-byte value.
            return 0;
        }
        proof {
            assert((((b0 & 0x1F) as u32) << 6) | ((b1 & 0x3F) as u32) <= 0x7FF) by (bit_vector);
            assert(valid_first_scalar(s));
        }
        2
    } else if 0xE0 <= b0 && b0 <= 0xEF {
        if n - i < 3 {
            return 0;
        }
        let b1 = b[i + 1];
        let b2 = b[i + 2];
        if !(0x80 <= b1 && b1 <= 0xBF) || !(0x80 <= b2 && b2 <= 0xBF) {
            return 0;
        }
        let cp: u32 = (((b0 & 0x0F) as u32) << 12) | (((b1 & 0x3F) as u32) << 6) | ((b2
            & 0x3F) as u32);
        if cp < 0x800 {
            // An overlong three-byte encoding of a shorter value.
            return 0;
        }
        if 0xD800 <= cp && cp <= 0xDFFF {
            // A surrogate: not a Unicode scalar.
            return 0;
        }
        proof {
            assert(valid_first_scalar(s));
        }
        3
    } else if 0xF0 <= b0 && b0 <= 0xF7 {
        if n - i < 4 {
            return 0;
        }
        let b1 = b[i + 1];
        let b2 = b[i + 2];
        let b3 = b[i + 3];
        if !(0x80 <= b1 && b1 <= 0xBF) || !(0x80 <= b2 && b2 <= 0xBF) || !(0x80 <= b3 && b3
            <= 0xBF) {
            return 0;
        }
        let cp: u32 = (((b0 & 0x07) as u32) << 18) | (((b1 & 0x3F) as u32) << 12) | (((b2
            & 0x3F) as u32) << 6) | ((b3 & 0x3F) as u32);
        if cp < 0x10000 || cp > 0x10FFFF {
            // Overlong, or beyond the last Unicode scalar.
            return 0;
        }
        proof {
            assert(valid_first_scalar(s));
        }
        4
    } else {
        // A stray continuation byte, or a byte no encoding starts with.
        0
    }
}

/// Decide whether `b` is a valid UTF-8 encoding.  On failure the reported
/// index is the length of the longest prefix of whole, valid scalar
/// encodings: everything before it is valid UTF-8 on its own.
pub fn validate_utf8(b: &Vec<u8>) -> (r: Result<(), usize>)
    ensures
        r is Ok <==> valid_utf8(b@),
        r matches Err(i) ==> i <= b@.len() && !valid_utf8(b@) && valid_utf8(b@.take(i as int))
            && !valid_first_scalar(b@.subrange(i as int, b@.len() as int)),
{
    let n = b.len();
    let mut i: usize = 0;
    proof {
        assert(b@.subrange(0, 0).len() == 0);
    }
    while i < n
        invariant
            i <= n,
            n == b@.len(),
            partial_valid_utf8(b@, i as int),
        decreases n - i,
    {
        let ghost s = b@.subrange(i as int, n as int);
        let k = check_scalar(b, i);
        if k == 0 {
            proof {
                assert(s.len() > 0);
                assert(!valid_utf8(s));
                partial_valid_partial_invalid_utf8(b@, i as int);
                assert(b@.take(i as int) =~= b@.subrange(0, i as int));
            }
            return Err(i);
        }
        proof {
            partial_valid_utf8_extend(b@, i as int);
        }
        i = i + k;
    }
    proof {
        assert(b@.subrange(0, n as int) =~= b@);
    }
    Ok(())
}

} // verus!
