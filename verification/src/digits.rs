//! Decimal text codecs for the integer attribute values of the map format.
//!
//! Every attribute of the markup files arrives as text; these functions turn
//! decimal text into machine integers and back, with exact contracts: a parse
//! succeeds precisely on well-formed decimal text whose value fits the target
//! type, and returns precisely that value.

use vstd::prelude::*;

verus! {

/// The `+` byte.
pub const PLUS: u8 = 43;

/// The `-` byte.
pub const MINUS: u8 = 45;

/// Whether `b` is an ASCII decimal digit.
pub open spec fn is_digit(b: u8) -> bool {
    48 <= b <= 57
}

/// The numeric value of the digit byte `b`.
pub open spec fn digit_val(b: u8) -> nat {
    (b - 48) as nat
}

/// Whether `s` is one or more decimal digits and nothing else.
pub open spec fn is_digits(s: Seq<u8>) -> bool {
    s.len() > 0 && forall|i: int| 0 <= i < s.len() ==> is_digit(s[i])
}

/// The value of a digit string, most significant digit first.
pub open spec fn digits_value(s: Seq<u8>) -> nat
    decreases s.len(),
{
    if s.len() == 0 {
        0
    } else {
        digits_value(s.drop_last()) * 10 + digit_val(s.last())
    }
}

/// A longer digit string never has a smaller value than its prefix.
pub proof fn lemma_digits_value_prefix(s: Seq<u8>, k: int)
    requires
        0 <= k <= s.len(),
    ensures
        digits_value(s) >= digits_value(s.take(k)),
    decreases s.len(),
{
    if k == s.len() {
        assert(s.take(k) =~= s);
    } else {
        assert(s.drop_last().take(k) =~= s.take(k));
        lemma_digits_value_prefix(s.drop_last(), k);
    }
}

/// Parses an unsigned decimal number, failing on any non-digit byte, on the
/// empty string, and on a value above `u64::MAX`.
pub fn parse_u64(s: &[u8]) -> (r: Option<u64>)
    ensures
        r is Some <==> is_digits(s@) && digits_value(s@) <= u64::MAX,
        r is Some ==> r->0 == digits_value(s@),
{
    if s.len() == 0 {
        return None;
    }
    let mut acc: u64 = 0;
    let mut i: usize = 0;
    proof {
        assert(s@.take(0) =~= Seq::<u8>::empty());
    }
    while i < s.len()
        invariant
            0 <= i <= s@.len(),
            forall|j: int| 0 <= j < i ==> is_digit(s@[j]),
            acc == digits_value(s@.take(i as int)),
        decreases s@.len() - i,
    {
        let b = s[i];
        if b < 48 || b > 57 {
            return None;
        }
        let d: u64 = (b - 48) as u64;
        proof {
            assert(s@.take(i + 1).drop_last() =~= s@.take(i as int));
            assert(s@.take(i + 1).last() == s@[i as int]);
        }
        if acc > (u64::MAX - d) / 10 {
            proof {
                assert(digits_value(s@.take(i + 1)) == acc * 10 + d);
                assert(acc >= (u64::MAX - d) / 10 + 1);
                assert(((u64::MAX - d) / 10 + 1) * 10 == ((u64::MAX - d) / 10) * 10 + 10);
                assert(((u64::MAX - d) / 10) * 10 + 10 > u64::MAX - d);
                assert(acc * 10 >= ((u64::MAX - d) / 10 + 1) * 10) by (nonlinear_arith)
                    requires
                        acc >= (u64::MAX - d) / 10 + 1,
                ;
                assert(digits_value(s@.take(i + 1)) > u64::MAX);
                lemma_digits_value_prefix(s@, i + 1);
            }
            return None;
        }
        proof {
            assert(acc <= (u64::MAX - d) / 10);
            assert(((u64::MAX - d) / 10) * 10 <= u64::MAX - d);
            assert(acc * 10 <= ((u64::MAX - d) / 10) * 10) by (nonlinear_arith)
                requires
                    acc <= (u64::MAX - d) / 10,
            ;
        }
        acc = acc * 10 + d;
        i = i + 1;
    }
    proof {
        assert(s@.take(i as int) =~= s@);
    }
    Some(acc)
}

/// Parses an unsigned decimal number no greater than `max`.
pub fn parse_u64_max(s: &[u8], max: u64) -> (r: Option<u64>)
    ensures
        r is Some <==> is_digits(s@) && digits_value(s@) <= max,
        r is Some ==> r->0 == digits_value(s@),
{
    match parse_u64(s) {
        Some(v) => if v <= max {
            Some(v)
        } else {
            None
        },
        None => None,
    }
}

/// The digits of `s` once a single leading `+` is set aside.
pub open spec fn spec_unsigned_body(s: Seq<u8>) -> Seq<u8> {
    if s.len() > 0 && s[0] == PLUS {
        s.drop_first()
    } else {
        s
    }
}

/// Whether `s` is a well-formed unsigned decimal no greater than `max`,
/// with one optional leading `+`.
pub open spec fn spec_unsigned_ok(s: Seq<u8>, max: nat) -> bool {
    is_digits(spec_unsigned_body(s)) && digits_value(spec_unsigned_body(s)) <= max
}

/// The value of a well-formed unsigned decimal.
pub open spec fn spec_unsigned_val(s: Seq<u8>) -> nat {
    digits_value(spec_unsigned_body(s))
}

/// Parses an unsigned decimal number no greater than `max`, accepting one
/// optional leading `+`.
pub fn parse_unsigned(s: &[u8], max: u64) -> (r: Option<u64>)
    ensures
        r is Some <==> is_digits(spec_unsigned_body(s@)) && digits_value(spec_unsigned_body(s@))
            <= max,
        r is Some ==> r->0 == digits_value(spec_unsigned_body(s@)),
{
    let body = if s.len() > 0 && s[0] == PLUS {
        vstd::slice::slice_subrange(s, 1, s.len())
    } else {
        s
    };
    proof {
        assert(body@ =~= spec_unsigned_body(s@));
    }
    parse_u64_max(body, max)
}

/// The digits of `s` once a single leading `+` or `-` is set aside.
pub open spec fn spec_signed_body(s: Seq<u8>) -> Seq<u8> {
    if s.len() > 0 && (s[0] == PLUS || s[0] == MINUS) {
        s.drop_first()
    } else {
        s
    }
}

/// Whether `s` starts with a `-` sign.
pub open spec fn spec_is_neg(s: Seq<u8>) -> bool {
    s.len() > 0 && s[0] == MINUS
}

/// Whether `s` is a well-formed signed decimal number whose value fits `i64`.
pub open spec fn spec_valid_i64(s: Seq<u8>) -> bool {
    &&& is_digits(spec_signed_body(s))
    &&& if spec_is_neg(s) {
        digits_value(spec_signed_body(s)) <= 0x8000_0000_0000_0000
    } else {
        digits_value(spec_signed_body(s)) <= i64::MAX
    }
}

/// The value of a well-formed signed decimal number.
pub open spec fn spec_i64_value(s: Seq<u8>) -> int {
    if spec_is_neg(s) {
        -(digits_value(spec_signed_body(s)) as int)
    } else {
        digits_value(spec_signed_body(s)) as int
    }
}

/// Parses a signed decimal number, accepting one optional leading `+` or `-`,
/// failing on any other non-digit byte, on a bare sign or empty string, and
/// on a value outside the range of `i64`.
pub fn parse_i64(s: &[u8]) -> (r: Option<i64>)
    ensures
        r is Some <==> spec_valid_i64(s@),
        r is Some ==> r->0 == spec_i64_value(s@),
{
    let (neg, body) = if s.len() > 0 && (s[0] == PLUS || s[0] == MINUS) {
        (s[0] == MINUS, vstd::slice::slice_subrange(s, 1, s.len()))
    } else {
        (false, s)
    };
    proof {
        assert(body@ =~= spec_signed_body(s@));
    }
    match parse_u64(body) {
        None => None,
        Some(v) => {
            if neg {
                if v > 0x8000_0000_0000_0000 {
                    None
                } else if v == 0x8000_0000_0000_0000 {
                    Some(i64::MIN)
                } else {
                    Some(-(v as i64))
                }
            } else {
                if v > i64::MAX as u64 {
                    None
                } else {
                    Some(v as i64)
                }
            }
        },
    }
}

/// The canonical decimal digits of `n`, most significant first.
pub open spec fn spec_digits_of(n: nat) -> Seq<u8>
    decreases n,
{
    if n < 10 {
        seq![(48 + n) as u8]
    } else {
        spec_digits_of(n / 10).push((48 + n % 10) as u8)
    }
}

/// The canonical digits of `n` are digits and read back as `n`.
pub proof fn lemma_digits_of_value(n: nat)
    ensures
        is_digits(spec_digits_of(n)),
        digits_value(spec_digits_of(n)) == n,
    decreases n,
{
    if n < 10 {
        assert(spec_digits_of(n).drop_last() =~= Seq::<u8>::empty());
        assert(digits_value(Seq::<u8>::empty()) == 0);
        assert(digit_val((48 + n) as u8) == n);
    } else {
        lemma_digits_of_value(n / 10);
        assert(spec_digits_of(n).drop_last() =~= spec_digits_of(n / 10));
        assert(spec_digits_of(n).last() == (48 + n % 10) as u8);
        assert(digit_val((48 + n % 10) as u8) == n % 10);
        assert(digits_value(spec_digits_of(n)) == (n / 10) * 10 + n % 10);
        assert(n == (n / 10) * 10 + n % 10);
    }
}

/// Writes `n` in decimal, most significant digit first.
pub fn encode_u64(n: u64) -> (r: Vec<u8>)
    ensures
        r@ == spec_digits_of(n as nat),
    decreases n,
{
    if n < 10 {
        let mut v: Vec<u8> = Vec::new();
        v.push(48 + n as u8);
        proof {
            assert(v@ =~= spec_digits_of(n as nat));
        }
        v
    } else {
        let mut v = encode_u64(n / 10);
        v.push(48 + (n % 10) as u8);
        v
    }
}

/// The canonical signed decimal text of `n`: its digits, with a leading
/// `-` when negative.
pub open spec fn spec_encode_i64(n: int) -> Seq<u8> {
    if n >= 0 {
        spec_digits_of(n as nat)
    } else {
        seq![MINUS] + spec_digits_of((-n) as nat)
    }
}

/// Writes a signed value in decimal, with a leading `-` when negative.
pub fn encode_i64(n: i64) -> (r: Vec<u8>)
    ensures
        r@ == spec_encode_i64(n as int),
        spec_valid_i64(r@),
        spec_i64_value(r@) == n,
{
    if n >= 0 {
        let r = encode_u64(n as u64);
        proof {
            lemma_digits_of_value(n as nat);
            assert(spec_digits_of(n as nat).len() > 0);
            assert(!spec_is_neg(r@) && spec_signed_body(r@) =~= r@) by {
                assert(is_digit(spec_digits_of(n as nat)[0]));
            }
        }
        r
    } else {
        let mag: u64 = if n == i64::MIN {
            0x8000_0000_0000_0000u64
        } else {
            (-n) as u64
        };
        let digits = encode_u64(mag);
        let mut r: Vec<u8> = Vec::new();
        r.push(MINUS);
        let mut j: usize = 0;
        while j < digits.len()
            invariant
                0 <= j <= digits@.len(),
                r@ == seq![MINUS] + digits@.take(j as int),
            decreases digits@.len() - j,
        {
            r.push(digits[j]);
            proof {
                assert(seq![MINUS] + digits@.take(j + 1) =~= (seq![MINUS] + digits@.take(
                    j as int,
                )).push(digits@[j as int]));
            }
            j = j + 1;
        }
        proof {
            assert(digits@.take(digits@.len() as int) =~= digits@);
            lemma_digits_of_value(mag as nat);
            assert(spec_signed_body(r@) =~= digits@);
            assert(spec_is_neg(r@));
        }
        r
    }
}

} // verus!
