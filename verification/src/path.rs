//! Resolution of editor-relative file references into project-rooted paths.
//!
//! A map, tileset, or template file refers to other files with paths that are
//! relative to its own location, using forward slashes and `..` segments.
//! [`resolve`] turns such a reference, together with the project-rooted path
//! of the referring file, into a project-rooted path.

use vstd::prelude::*;

verus! {

/// The path separator byte, `/`.
pub const SLASH: u8 = 47;

/// The `.` byte; a segment containing it is taken for a file name.
pub const DOT: u8 = 46;

/// The segments of `s` split at every occurrence of `sep`.
///
/// Splitting never yields an empty sequence: a string without the separator
/// is one segment, and the empty string is one empty segment.
pub open spec fn spec_split(s: Seq<u8>, sep: u8) -> Seq<Seq<u8>>
    decreases s.len(),
{
    if s.len() == 0 {
        seq![Seq::<u8>::empty()]
    } else {
        let rest = spec_split(s.drop_first(), sep);
        if s[0] == sep {
            seq![Seq::<u8>::empty()] + rest
        } else {
            seq![seq![s[0]] + rest[0]] + rest.drop_first()
        }
    }
}

pub proof fn lemma_split_len(s: Seq<u8>, sep: u8)
    ensures
        spec_split(s, sep).len() >= 1,
    decreases s.len(),
{
    if s.len() > 0 {
        lemma_split_len(s.drop_first(), sep);
    }
}

/// Whether `seg` holds a `.` anywhere.
pub open spec fn spec_has_dot(seg: Seq<u8>) -> bool {
    exists|i: int| 0 <= i < seg.len() && seg[i] == DOT
}

/// One step of the walk over the relative path's segments: `..` pops the
/// directory stack (silently ignored when the stack is empty), a segment with
/// a `.` is appended verbatim as a file name, and any other segment is
/// appended as a directory followed by a separator.
pub open spec fn spec_walk(segs: Seq<Seq<u8>>, stack: Seq<Seq<u8>>, acc: Seq<u8>) -> (Seq<
    Seq<u8>,
>, Seq<u8>)
    decreases segs.len(),
{
    if segs.len() == 0 {
        (stack, acc)
    } else {
        let seg = segs[0];
        let rest = segs.drop_first();
        if seg == seq![DOT, DOT] {
            let popped = if stack.len() > 0 {
                stack.drop_last()
            } else {
                stack
            };
            spec_walk(rest, popped, acc)
        } else if spec_has_dot(seg) {
            spec_walk(rest, stack, acc + seg)
        } else {
            spec_walk(rest, stack, acc + seg + seq![SLASH])
        }
    }
}

/// The remaining directory stack written out in order, each entry followed
/// by a separator.
pub open spec fn spec_join_dirs(stack: Seq<Seq<u8>>) -> Seq<u8>
    decreases stack.len(),
{
    if stack.len() == 0 {
        Seq::<u8>::empty()
    } else {
        spec_join_dirs(stack.drop_last()) + stack.last() + seq![SLASH]
    }
}

/// The resolved project-rooted path: the directory of `source` (its segments
/// less the final file-name component) walked by the segments of `relative`,
/// then written out as directories followed by the accumulated remainder.
pub open spec fn spec_resolve(relative: Seq<u8>, source: Seq<u8>) -> Seq<u8> {
    let dirs = spec_split(source, SLASH).drop_last();
    let walked = spec_walk(spec_split(relative, SLASH), dirs, Seq::<u8>::empty());
    spec_join_dirs(walked.0) + walked.1
}

/// Splits `s` at every occurrence of `sep`.
pub fn split_bytes(s: &[u8], sep: u8) -> (r: Vec<Vec<u8>>)
    ensures
        r.deep_view() == spec_split(s@, sep),
{
    let mut done: Vec<Vec<u8>> = Vec::new();
    let mut cur: Vec<u8> = Vec::new();
    let mut i: usize = 0;
    proof {
        assert(s@.skip(0) =~= s@);
        lemma_split_len(s@, sep);
        assert(done.deep_view() + seq![cur@ + spec_split(s@, sep)[0]] + spec_split(
            s@,
            sep,
        ).drop_first() =~~= spec_split(s@, sep));
    }
    while i < s.len()
        invariant
            0 <= i <= s@.len(),
            spec_split(s@, sep) == done.deep_view() + seq![
                cur@ + spec_split(s@.skip(i as int), sep)[0],
            ] + spec_split(s@.skip(i as int), sep).drop_first(),
        decreases s@.len() - i,
    {
        proof {
            assert(s@.skip(i as int).drop_first() =~= s@.skip(i + 1));
            assert(s@.skip(i as int)[0] == s@[i as int]);
            lemma_split_len(s@.skip(i + 1), sep);
        }
        let ghost rest = spec_split(s@.skip(i + 1), sep);
        let ghost pre_done = done.deep_view();
        let ghost pre_cur = cur@;
        if s[i] == sep {
            done.push(cur);
            cur = Vec::new();
            proof {
                assert(spec_split(s@.skip(i as int), sep) =~~= seq![Seq::<u8>::empty()] + rest);
                assert(pre_cur + Seq::<u8>::empty() =~= pre_cur);
                assert(done.deep_view() =~~= pre_done + seq![pre_cur]);
                assert(done.deep_view() + seq![cur@ + rest[0]] + rest.drop_first() =~~= pre_done
                    + seq![pre_cur + spec_split(s@.skip(i as int), sep)[0]] + spec_split(
                    s@.skip(i as int),
                    sep,
                ).drop_first());
            }
        } else {
            cur.push(s[i]);
            proof {
                assert(spec_split(s@.skip(i as int), sep) =~~= seq![seq![s@[i as int]] + rest[0]]
                    + rest.drop_first());
                assert(cur@ + rest[0] =~= pre_cur + (seq![s@[i as int]] + rest[0]));
                assert(done.deep_view() + seq![cur@ + rest[0]] + rest.drop_first() =~~= pre_done
                    + seq![pre_cur + spec_split(s@.skip(i as int), sep)[0]] + spec_split(
                    s@.skip(i as int),
                    sep,
                ).drop_first());
            }
        }
        i = i + 1;
    }
    proof {
        assert(s@.skip(i as int) =~= Seq::<u8>::empty());
        assert(spec_split(s@.skip(i as int), sep) =~~= seq![Seq::<u8>::empty()]);
        assert(cur@ + Seq::<u8>::empty() =~= cur@);
    }
    let ghost pre_done = done.deep_view();
    let ghost pre_cur = cur@;
    done.push(cur);
    proof {
        assert(done.deep_view() =~~= pre_done + seq![pre_cur]);
        assert(done.deep_view() =~~= spec_split(s@, sep));
    }
    done
}

/// Whether `s` holds the byte `b` anywhere.
pub fn contains_byte(s: &[u8], b: u8) -> (r: bool)
    ensures
        r == exists|i: int| 0 <= i < s@.len() && s@[i] == b,
{
    let mut i: usize = 0;
    while i < s.len()
        invariant
            0 <= i <= s@.len(),
            forall|j: int| 0 <= j < i ==> s@[j] != b,
        decreases s@.len() - i,
    {
        if s[i] == b {
            return true;
        }
        i = i + 1;
    }
    false
}

/// Whether `seg` is exactly the parent-directory marker `..`.
fn is_dotdot(seg: &[u8]) -> (r: bool)
    ensures
        r == (seg@ == seq![DOT, DOT]),
{
    if seg.len() == 2 && seg[0] == DOT && seg[1] == DOT {
        proof {
            assert(seg@ =~= seq![DOT, DOT]);
        }
        true
    } else {
        proof {
            if seg@ == seq![DOT, DOT] {
                assert(seg@.len() == 2);
                assert(seg@[0] == DOT && seg@[1] == DOT);
            }
        }
        false
    }
}

/// Appends every byte of `src` to `dst`.
fn push_all(dst: &mut Vec<u8>, src: &[u8])
    ensures
        final(dst)@ == old(dst)@ + src@,
{
    let mut j: usize = 0;
    while j < src.len()
        invariant
            0 <= j <= src@.len(),
            dst@ == old(dst)@ + src@.take(j as int),
        decreases src@.len() - j,
    {
        dst.push(src[j]);
        proof {
            assert(old(dst)@ + src@.take(j + 1) =~= (old(dst)@ + src@.take(j as int)).push(
                src@[j as int],
            ));
        }
        j = j + 1;
    }
    proof {
        assert(src@.take(src@.len() as int) =~= src@);
    }
}

/// Resolves the relative reference `relative`, found inside the file whose
/// project-rooted path is `source`, into a project-rooted path.
///
/// The directory of `source` is taken as the starting stack; each `..`
/// segment of `relative` pops one directory (popping past the root is
/// silently ignored); a segment containing a `.` is appended verbatim as a
/// file name; any other segment is appended as a directory. No check is made
/// that the result names an existing file.
pub fn resolve(relative: &[u8], source: &[u8]) -> (r: Vec<u8>)
    ensures
        r@ == spec_resolve(relative@, source@),
{
    let ghost dirs0 = spec_split(source@, SLASH).drop_last();
    let mut stack = split_bytes(source, SLASH);
    proof {
        lemma_split_len(source@, SLASH);
    }
    let ghost pre_stack0 = stack.deep_view();
    stack.pop();
    proof {
        assert(stack.deep_view() =~~= pre_stack0.drop_last());
    }
    let segs = split_bytes(relative, SLASH);
    let mut acc: Vec<u8> = Vec::new();
    let ghost all_segs = segs.deep_view();
    let mut i: usize = 0;
    proof {
        assert(all_segs.skip(0) =~~= all_segs);
        assert(acc@ =~= Seq::<u8>::empty());
    }
    while i < segs.len()
        invariant
            0 <= i <= segs@.len(),
            all_segs == segs.deep_view(),
            all_segs.len() == segs@.len(),
            spec_walk(all_segs, dirs0, Seq::<u8>::empty()) == spec_walk(
                all_segs.skip(i as int),
                stack.deep_view(),
                acc@,
            ),
        decreases segs@.len() - i,
    {
        proof {
            assert(all_segs.skip(i as int)[0] == segs@[i as int].deep_view());
            assert(all_segs.skip(i as int).drop_first() =~~= all_segs.skip(i + 1));
        }
        let ghost pre_stack = stack.deep_view();
        let ghost pre_acc = acc@;
        let seg = &segs[i];
        proof {
            assert(seg.deep_view() =~= seg@);
        }
        if is_dotdot(seg.as_slice()) {
            if stack.len() > 0 {
                let ghost prev = stack.deep_view();
                stack.pop();
                proof {
                    assert(stack.deep_view() =~~= prev.drop_last());
                }
            }
            proof {
                assert(spec_walk(all_segs.skip(i as int), pre_stack, pre_acc) == spec_walk(
                    all_segs.skip(i + 1),
                    stack.deep_view(),
                    acc@,
                ));
            }
        } else if contains_byte(seg.as_slice(), DOT) {
            push_all(&mut acc, seg.as_slice());
            proof {
                assert(spec_walk(all_segs.skip(i as int), pre_stack, pre_acc) == spec_walk(
                    all_segs.skip(i + 1),
                    stack.deep_view(),
                    acc@,
                ));
            }
        } else {
            push_all(&mut acc, seg.as_slice());
            acc.push(SLASH);
            proof {
                assert(acc@ =~= pre_acc + seg@ + seq![SLASH]);
                assert(spec_walk(all_segs.skip(i as int), pre_stack, pre_acc) == spec_walk(
                    all_segs.skip(i + 1),
                    stack.deep_view(),
                    acc@,
                ));
            }
        }
        i = i + 1;
    }
    proof {
        assert(all_segs.skip(i as int) =~~= Seq::<Seq<u8>>::empty());
    }
    let ghost walked = spec_walk(spec_split(relative@, SLASH), dirs0, Seq::<u8>::empty());
    proof {
        assert(walked.0 == stack.deep_view() && walked.1 == acc@);
    }
    let mut out: Vec<u8> = Vec::new();
    let mut k: usize = 0;
    proof {
        assert(stack.deep_view().take(0) =~~= Seq::<Seq<u8>>::empty());
    }
    while k < stack.len()
        invariant
            0 <= k <= stack@.len(),
            stack.deep_view().len() == stack@.len(),
            out@ == spec_join_dirs(stack.deep_view().take(k as int)),
        decreases stack@.len() - k,
    {
        let dir = &stack[k];
        let ghost pre_out = out@;
        push_all(&mut out, dir.as_slice());
        out.push(SLASH);
        proof {
            let taken = stack.deep_view().take(k + 1);
            assert(taken.drop_last() =~~= stack.deep_view().take(k as int));
            assert(taken.last() == stack.deep_view()[k as int]);
            assert(stack.deep_view()[k as int] =~= dir@);
            assert(out@ =~= spec_join_dirs(taken.drop_last()) + taken.last() + seq![SLASH]);
        }
        k = k + 1;
    }
    proof {
        assert(stack.deep_view().take(stack@.len() as int) =~~= stack.deep_view());
    }
    push_all(&mut out, acc.as_slice());
    proof {
        assert(out@ =~= spec_resolve(relative@, source@));
    }
    out
}

} // verus!
