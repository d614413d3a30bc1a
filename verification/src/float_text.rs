//! Syntax of floating-point attribute values.
//!
//! Float-typed property values keep their textual form in the records, so
//! the decoder only has to decide whether a value is well-formed. The
//! grammar matched here is the one the host language documents for reading
//! an `f64` from text: an optional sign, then either digits with an optional
//! fractional part (one of the two sides of the point may be empty, not
//! both), optionally followed by an exponent with its own optional sign, or
//! one of the case-insensitive special words `inf`, `infinity`, `nan`.

use vstd::prelude::*;
use crate::digits::{is_digit, is_digits, spec_signed_body, PLUS, MINUS};
use crate::path::DOT;

verus! {

/// The `e` byte.
pub const EXP_LOWER: u8 = 101;

/// The `E` byte.
pub const EXP_UPPER: u8 = 69;

/// Whether `m` is a mantissa: all digits, or digits around one point with
/// at least one digit on some side.
pub open spec fn spec_is_mantissa(m: Seq<u8>) -> bool {
    is_digits(m) || (m.len() >= 2 && exists|k: int|
        0 <= k < m.len() && #[trigger] m[k] == DOT && (forall|i: int|
            0 <= i < k ==> is_digit(#[trigger] m[i])) && (forall|i: int|
            k < i < m.len() ==> is_digit(#[trigger] m[i])))
}

/// Whether `x` is an exponent body: an optional sign, then digits.
pub open spec fn spec_is_exponent(x: Seq<u8>) -> bool {
    is_digits(spec_signed_body(x))
}

/// Whether `b` is an unsigned float body: a mantissa, optionally followed
/// by `e` or `E` and an exponent.
pub open spec fn spec_is_float_body(b: Seq<u8>) -> bool {
    spec_is_mantissa(b) || (exists|j: int|
        0 <= j < b.len() && (#[trigger] b[j] == EXP_LOWER || b[j] == EXP_UPPER)
            && spec_is_mantissa(b.take(j)) && spec_is_exponent(b.skip(j + 1)))
}

/// `b` folded to lower case, ASCII letters only.
pub open spec fn ascii_lower(b: u8) -> u8 {
    if 65 <= b <= 90 {
        (b + 32) as u8
    } else {
        b
    }
}

/// `s` folded to lower case byte by byte.
pub open spec fn spec_lower_seq(s: Seq<u8>) -> Seq<u8> {
    s.map_values(|b: u8| ascii_lower(b))
}

/// The bytes of `inf`.
pub open spec fn spec_inf_bytes() -> Seq<u8> {
    seq![105u8, 110u8, 102u8]
}

/// The bytes of `infinity`.
pub open spec fn spec_infinity_bytes() -> Seq<u8> {
    seq![105u8, 110u8, 102u8, 105u8, 110u8, 105u8, 116u8, 121u8]
}

/// The bytes of `nan`.
pub open spec fn spec_nan_bytes() -> Seq<u8> {
    seq![110u8, 97u8, 110u8]
}

/// Whether `b` is one of the case-insensitive special words.
pub open spec fn spec_is_special(b: Seq<u8>) -> bool {
    spec_lower_seq(b) == spec_inf_bytes() || spec_lower_seq(b) == spec_infinity_bytes()
        || spec_lower_seq(b) == spec_nan_bytes()
}

/// Whether `s` is a well-formed float literal.
pub open spec fn spec_is_float_text(s: Seq<u8>) -> bool {
    spec_is_float_body(spec_signed_body(s)) || spec_is_special(spec_signed_body(s))
}

/// Every byte of a mantissa is a digit or the point.
pub(crate) proof fn lemma_mantissa_bytes(m: Seq<u8>, i: int)
    requires
        spec_is_mantissa(m),
        0 <= i < m.len(),
    ensures
        is_digit(m[i]) || m[i] == DOT,
{
}

/// Whether every byte of `s` is a decimal digit, and `s` is not empty.
fn all_digits(s: &[u8]) -> (r: bool)
    ensures
        r == is_digits(s@),
{
    if s.len() == 0 {
        return false;
    }
    let mut i: usize = 0;
    while i < s.len()
        invariant
            0 <= i <= s@.len(),
            forall|j: int| 0 <= j < i ==> is_digit(#[trigger] s@[j]),
        decreases s@.len() - i,
    {
        let b = s[i];
        if b < 48 || b > 57 {
            return false;
        }
        i = i + 1;
    }
    true
}

/// The first index of `b1` or `b2` in `s`, if any.
pub(crate) fn find_first_of2(s: &[u8], b1: u8, b2: u8) -> (r: Option<usize>)
    ensures
        match r {
            Some(j) => 0 <= j < s@.len() && (s@[j as int] == b1 || s@[j as int] == b2) && forall|
                i: int,
            | 0 <= i < j ==> s@[i] != b1 && s@[i] != b2,
            None => forall|i: int| 0 <= i < s@.len() ==> s@[i] != b1 && s@[i] != b2,
        },
{
    let mut i: usize = 0;
    while i < s.len()
        invariant
            0 <= i <= s@.len(),
            forall|j: int| 0 <= j < i ==> s@[j] != b1 && s@[j] != b2,
        decreases s@.len() - i,
    {
        if s[i] == b1 || s[i] == b2 {
            return Some(i);
        }
        i = i + 1;
    }
    None
}

/// Whether `m` is a mantissa.
pub(crate) fn is_mantissa(m: &[u8]) -> (r: bool)
    ensures
        r == spec_is_mantissa(m@),
{
    match find_first_of2(m, DOT, DOT) {
        None => {
            proof {
                if !is_digits(m@) && spec_is_mantissa(m@) {
                    let k = choose|k: int|
                        0 <= k < m@.len() && #[trigger] m@[k] == DOT && (forall|i: int|
                            0 <= i < k ==> is_digit(#[trigger] m@[i])) && (forall|i: int|
                            k < i < m@.len() ==> is_digit(#[trigger] m@[i]));
                    assert(m@[k] != DOT);
                }
            }
            all_digits(m)
        },
        Some(k) => {
            let before_ok = if k == 0 {
                true
            } else {
                let before = vstd::slice::slice_subrange(m, 0, k);
                let mut i: usize = 0;
                let mut ok = true;
                while i < before.len()
                    invariant
                        0 <= i <= before@.len(),
                        before@ == m@.take(k as int),
                        ok == forall|j: int| 0 <= j < i ==> is_digit(#[trigger] before@[j]),
                    decreases before@.len() - i,
                {
                    if before[i] < 48 || before[i] > 57 {
                        ok = false;
                        proof {
                            assert(!is_digit(before@[i as int]));
                        }
                    }
                    i = i + 1;
                }
                ok
            };
            let len = m.len();
            let mut after_ok = true;
            let mut i: usize = k + 1;
            while i < m.len()
                invariant
                    k < i <= m@.len() || (i == k + 1 && m@.len() <= k + 1),
                    after_ok == forall|j: int| k < j < i ==> is_digit(#[trigger] m@[j]),
                decreases m@.len() - i,
            {
                if m[i] < 48 || m[i] > 57 {
                    after_ok = false;
                    proof {
                        assert(!is_digit(m@[i as int]));
                    }
                }
                i = i + 1;
            }
            let r = m.len() >= 2 && before_ok && after_ok;
            proof {
                assert(!is_digit(m@[k as int]));
                if r {
                    assert(forall|j: int|
                        0 <= j < k ==> is_digit(#[trigger] m@[j])) by {
                        assert(forall|j: int|
                            0 <= j < k ==> m@[j] == m@.take(k as int)[j]);
                    }
                    assert(spec_is_mantissa(m@));
                }
                if !r && spec_is_mantissa(m@) {
                    let k2 = choose|k2: int|
                        0 <= k2 < m@.len() && #[trigger] m@[k2] == DOT && (forall|i2: int|
                            0 <= i2 < k2 ==> is_digit(#[trigger] m@[i2])) && (forall|i2: int|
                            k2 < i2 < m@.len() ==> is_digit(#[trigger] m@[i2]));
                    assert(k as int <= k2);
                    assert(k2 == k as int);
                    assert(forall|j: int|
                        0 <= j < k ==> m@.take(k as int)[j] == m@[j]);
                    assert(before_ok);
                    assert(after_ok);
                    assert(m@.len() >= 2);
                }
            }
            r
        },
    }
}

/// Whether `x` is an exponent body.
fn is_exponent(x: &[u8]) -> (r: bool)
    ensures
        r == spec_is_exponent(x@),
{
    let body = if x.len() > 0 && (x[0] == PLUS || x[0] == MINUS) {
        vstd::slice::slice_subrange(x, 1, x.len())
    } else {
        x
    };
    proof {
        assert(body@ =~= spec_signed_body(x@));
    }
    all_digits(body)
}

/// Whether `b` is an unsigned float body.
fn is_float_body(b: &[u8]) -> (r: bool)
    ensures
        r == spec_is_float_body(b@),
{
    match find_first_of2(b, EXP_LOWER, EXP_UPPER) {
        None => {
            proof {
                if !spec_is_mantissa(b@) && spec_is_float_body(b@) {
                    let j = choose|j: int|
                        0 <= j < b@.len() && (#[trigger] b@[j] == EXP_LOWER || b@[j] == EXP_UPPER)
                            && spec_is_mantissa(b@.take(j)) && spec_is_exponent(b@.skip(j + 1));
                    assert(b@[j] != EXP_LOWER && b@[j] != EXP_UPPER);
                }
            }
            is_mantissa(b)
        },
        Some(j) => {
            let len = b.len();
            let head = vstd::slice::slice_subrange(b, 0, j);
            let tail = vstd::slice::slice_subrange(b, j + 1, len);
            proof {
                assert(head@ =~= b@.take(j as int));
                assert(tail@ =~= b@.skip(j + 1));
            }
            let r = is_mantissa(head) && is_exponent(tail);
            proof {
                if spec_is_mantissa(b@) {
                    lemma_mantissa_bytes(b@, j as int);
                    assert(48 <= b@[j as int] <= 57 || b@[j as int] == DOT);
                    assert(false);
                }
                if !r && spec_is_float_body(b@) {
                    let j2 = choose|j2: int|
                        0 <= j2 < b@.len() && (#[trigger] b@[j2] == EXP_LOWER || b@[j2]
                            == EXP_UPPER) && spec_is_mantissa(b@.take(j2)) && spec_is_exponent(
                            b@.skip(j2 + 1),
                        );
                    assert(j as int <= j2);
                    if (j as int) < j2 {
                        lemma_mantissa_bytes(b@.take(j2), j as int);
                        assert(b@.take(j2)[j as int] == b@[j as int]);
                        assert(false);
                    }
                    assert(false);
                }
            }
            r
        },
    }
}

/// Folds one byte to lower case.
fn lower_byte(b: u8) -> (r: u8)
    ensures
        r == ascii_lower(b),
{
    if 65 <= b && b <= 90 {
        b + 32
    } else {
        b
    }
}

/// Whether `b` is one of the case-insensitive special words.
fn is_special(b: &[u8]) -> (r: bool)
    ensures
        r == spec_is_special(b@),
{
    proof {
        assert(spec_lower_seq(b@).len() == b@.len());
        assert(forall|i: int|
            0 <= i < b@.len() ==> #[trigger] spec_lower_seq(b@)[i] == ascii_lower(b@[i]));
    }
    if b.len() == 3 {
        let l0 = lower_byte(b[0]);
        let l1 = lower_byte(b[1]);
        let l2 = lower_byte(b[2]);
        let inf = l0 == 105 && l1 == 110 && l2 == 102;
        let nan = l0 == 110 && l1 == 97 && l2 == 110;
        proof {
            if inf {
                assert(spec_lower_seq(b@) =~= spec_inf_bytes());
            }
            if nan {
                assert(spec_lower_seq(b@) =~= spec_nan_bytes());
            }
            if !inf && !nan {
                assert(spec_lower_seq(b@) != spec_inf_bytes());
                assert(spec_lower_seq(b@) != spec_nan_bytes());
            }
        }
        inf || nan
    } else if b.len() == 8 {
        let ok = lower_byte(b[0]) == 105 && lower_byte(b[1]) == 110 && lower_byte(b[2]) == 102
            && lower_byte(b[3]) == 105 && lower_byte(b[4]) == 110 && lower_byte(b[5]) == 105
            && lower_byte(b[6]) == 116 && lower_byte(b[7]) == 121;
        proof {
            if ok {
                assert(spec_lower_seq(b@) =~= spec_infinity_bytes());
            } else {
                assert(spec_lower_seq(b@) != spec_infinity_bytes());
            }
        }
        ok
    } else {
        false
    }
}

/// Whether `s` is a well-formed float literal.
pub fn is_float_literal(s: &[u8]) -> (r: bool)
    ensures
        r == spec_is_float_text(s@),
{
    let body = if s.len() > 0 && (s[0] == PLUS || s[0] == MINUS) {
        vstd::slice::slice_subrange(s, 1, s.len())
    } else {
        s
    };
    proof {
        assert(body@ =~= spec_signed_body(s@));
    }
    is_float_body(body) || is_special(body)
}

} // verus!
