//! Derivation of tile coordinates from pixel positions.
//!
//! An object's position is written in pixels, possibly with a fractional
//! part; its tile coordinate is the position divided by the map's tile width
//! and truncated toward zero, saturated to the range of `u16`.

use vstd::prelude::*;
use crate::digits::{digits_value, is_digit, is_digits, parse_u64, spec_is_neg, spec_signed_body,
    MINUS, PLUS};
use crate::float_text::{find_first_of2, is_mantissa, lemma_mantissa_bytes, spec_is_mantissa};
use crate::path::DOT;

verus! {

/// The bytes of `s` before the first point.
pub open spec fn spec_before_dot(s: Seq<u8>) -> Seq<u8>
    decreases s.len(),
{
    if s.len() == 0 {
        Seq::<u8>::empty()
    } else if s[0] == DOT {
        Seq::<u8>::empty()
    } else {
        seq![s[0]] + spec_before_dot(s.drop_first())
    }
}

/// The bytes before the first point are the prefix up to it.
proof fn lemma_before_dot(s: Seq<u8>, k: int)
    requires
        0 <= k <= s.len(),
        forall|i: int| 0 <= i < k ==> s[i] != DOT,
        k == s.len() || s[k] == DOT,
    ensures
        spec_before_dot(s) =~= s.take(k),
    decreases s.len(),
{
    if s.len() == 0 {
        assert(s.take(k) =~= Seq::<u8>::empty());
    } else if k == 0 {
        assert(s.take(0) =~= Seq::<u8>::empty());
    } else {
        assert(s[0] != DOT);
        lemma_before_dot(s.drop_first(), k - 1);
        assert(s.take(k) =~= seq![s[0]] + s.drop_first().take(k - 1));
    }
}

/// Whether `s` is a well-formed pixel coordinate: an optional sign, then
/// digits around at most one point, with at least one digit. This is
/// deliberately narrower than the float grammar of property values:
/// exponent forms and the special words are not positions, and a
/// coordinate written that way is a value error.
pub open spec fn spec_valid_pixel(s: Seq<u8>) -> bool {
    spec_is_mantissa(spec_signed_body(s))
}

/// The tile coordinate of the pixel coordinate `s` on tiles `tw` pixels
/// wide: the whole pixels divided by `tw`, truncated toward zero, negative
/// positions saturating to 0 and oversized ones to the largest `u16`.
pub open spec fn spec_pixel_tile(s: Seq<u8>, tw: nat) -> u16
    recommends
        tw >= 1,
{
    if spec_is_neg(s) {
        0u16
    } else {
        let v = digits_value(spec_before_dot(spec_signed_body(s)));
        if v / tw > 65535 {
            65535u16
        } else {
            (v / tw) as u16
        }
    }
}

/// Turns a pixel coordinate into a tile coordinate, failing exactly on text
/// that is not a well-formed pixel coordinate.
pub fn pixel_to_tile(s: &[u8], tile_width: u16) -> (r: Option<u16>)
    requires
        tile_width >= 1,
    ensures
        r is Some <==> spec_valid_pixel(s@),
        r matches Some(v) ==> v == spec_pixel_tile(s@, tile_width as nat),
{
    let (neg, body) = if s.len() > 0 && (s[0] == PLUS || s[0] == MINUS) {
        (s[0] == MINUS, vstd::slice::slice_subrange(s, 1, s.len()))
    } else {
        (false, s)
    };
    proof {
        assert(body@ =~= spec_signed_body(s@));
        assert(neg == spec_is_neg(s@));
    }
    if !is_mantissa(body) {
        return None;
    }
    if neg {
        return Some(0);
    }
    let int_part = match find_first_of2(body, DOT, DOT) {
        None => {
            proof {
                lemma_before_dot(body@, body@.len() as int);
                assert(body@.take(body@.len() as int) =~= body@);
            }
            body
        },
        Some(k) => {
            proof {
                lemma_before_dot(body@, k as int);
            }
            vstd::slice::slice_subrange(body, 0, k)
        },
    };
    proof {
        assert(int_part@ =~= spec_before_dot(body@));
    }
    if int_part.len() == 0 {
        proof {
            assert(digits_value(int_part@) == 0);
            assert(0nat / (tile_width as nat) == 0);
        }
        return Some(0);
    }
    proof {
        assert forall|i: int| 0 <= i < int_part@.len() implies is_digit(#[trigger] int_part@[i]) by {
            assert(int_part@[i] == body@[i]);
            assert(body@[i] != DOT);
            lemma_mantissa_bytes(body@, i);
        }
        assert(is_digits(int_part@));
    }
    match parse_u64(int_part) {
        Some(v) => {
            let q = v / (tile_width as u64);
            if q > 65535 {
                Some(65535)
            } else {
                Some(q as u16)
            }
        },
        None => {
            proof {
                let v = digits_value(int_part@);
                assert(v > u64::MAX);
                assert(65536 * (tile_width as nat) <= 65536 * 65535) by (nonlinear_arith)
                    requires
                        1 <= tile_width <= 65535,
                ;
                assert(v >= 65536 * (tile_width as nat));
                assert(v / (tile_width as nat) >= 65536) by (nonlinear_arith)
                    requires
                        v >= 65536 * (tile_width as nat),
                        tile_width >= 1,
                ;
            }
            Some(65535)
        },
    }
}

} // verus!
