//! Small text helpers shared by the grid and property decoders.

use vstd::prelude::*;

verus! {

/// Whether `b` is an ASCII whitespace byte: space, tab, line feed, vertical
/// tab, form feed, or carriage return.
pub open spec fn is_space(b: u8) -> bool {
    b == 32 || b == 9 || b == 10 || b == 11 || b == 12 || b == 13
}

/// `s` with every whitespace byte removed.
pub open spec fn spec_strip_spaces(s: Seq<u8>) -> Seq<u8>
    decreases s.len(),
{
    if s.len() == 0 {
        Seq::<u8>::empty()
    } else if is_space(s[0]) {
        spec_strip_spaces(s.drop_first())
    } else {
        seq![s[0]] + spec_strip_spaces(s.drop_first())
    }
}

/// Removes every whitespace byte of `s`.
pub fn strip_spaces(s: &[u8]) -> (r: Vec<u8>)
    ensures
        r@ == spec_strip_spaces(s@),
{
    let mut out: Vec<u8> = Vec::new();
    let mut i: usize = 0;
    proof {
        assert(s@.skip(0) =~= s@);
    }
    while i < s.len()
        invariant
            0 <= i <= s@.len(),
            spec_strip_spaces(s@) == out@ + spec_strip_spaces(s@.skip(i as int)),
        decreases s@.len() - i,
    {
        proof {
            assert(s@.skip(i as int)[0] == s@[i as int]);
            assert(s@.skip(i as int).drop_first() =~= s@.skip(i + 1));
        }
        let b = s[i];
        if b == 32 || b == 9 || b == 10 || b == 11 || b == 12 || b == 13 {
            proof {
                assert(out@ + spec_strip_spaces(s@.skip(i as int)) =~= out@ + spec_strip_spaces(
                    s@.skip(i + 1),
                ));
            }
        } else {
            let ghost pre_out = out@;
            out.push(b);
            proof {
                assert(pre_out + (seq![s@[i as int]] + spec_strip_spaces(s@.skip(i + 1))) =~= out@
                    + spec_strip_spaces(s@.skip(i + 1)));
            }
        }
        i = i + 1;
    }
    proof {
        assert(s@.skip(i as int) =~= Seq::<u8>::empty());
        assert(out@ + Seq::<u8>::empty() =~= out@);
    }
    out
}

/// Whether two byte strings hold the same bytes.
pub fn bytes_eq(a: &[u8], b: &[u8]) -> (r: bool)
    ensures
        r == (a@ == b@),
{
    if a.len() != b.len() {
        return false;
    }
    let mut i: usize = 0;
    while i < a.len()
        invariant
            0 <= i <= a@.len(),
            a@.len() == b@.len(),
            forall|j: int| 0 <= j < i ==> a@[j] == b@[j],
        decreases a@.len() - i,
    {
        if a[i] != b[i] {
            return false;
        }
        i = i + 1;
    }
    proof {
        assert(a@ =~= b@);
    }
    true
}

/// The bytes of the strict boolean literal `true`.
pub open spec fn spec_true_bytes() -> Seq<u8> {
    seq![116u8, 114u8, 117u8, 101u8]
}

/// The bytes of the strict boolean literal `false`.
pub open spec fn spec_false_bytes() -> Seq<u8> {
    seq![102u8, 97u8, 108u8, 115u8, 101u8]
}

/// Parses a strict boolean literal: exactly `true` or `false`.
pub fn parse_bool(s: &[u8]) -> (r: Option<bool>)
    ensures
        r == Some(true) <==> s@ == spec_true_bytes(),
        r == Some(false) <==> s@ == spec_false_bytes(),
        r is None <==> s@ != spec_true_bytes() && s@ != spec_false_bytes(),
{
    if s.len() == 4 && s[0] == 116 && s[1] == 114 && s[2] == 117 && s[3] == 101 {
        proof {
            assert(s@ =~= spec_true_bytes());
        }
        Some(true)
    } else if s.len() == 5 && s[0] == 102 && s[1] == 97 && s[2] == 108 && s[3] == 115 && s[4]
        == 101 {
        proof {
            assert(s@ =~= spec_false_bytes());
        }
        Some(false)
    } else {
        proof {
            if s@ == spec_true_bytes() {
                assert(s@.len() == 4 && s@[0] == 116 && s@[1] == 114 && s@[2] == 117 && s@[3]
                    == 101);
            }
            if s@ == spec_false_bytes() {
                assert(s@.len() == 5 && s@[0] == 102 && s@[1] == 97 && s@[2] == 108 && s@[3] == 115
                    && s@[4] == 101);
            }
        }
        None
    }
}

} // verus!
