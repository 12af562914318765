//! Absolute paths as byte strings, read component by component.
//!
//! A path is the byte string that the operating system hands out, with `/`
//! between its components. Two paths are compared by their components, never
//! by their bytes: `/base2` does not lie below `/base`, and `/base/` names the
//! same place as `/base`.

use crate::bytes::bytes_equal;
use crate::bytes::count_until;
use crate::bytes::find_byte;
use crate::bytes::lemma_bytes_deep_view;
use crate::bytes::lemma_count_until_facts;
use crate::bytes::lemma_count_until_is;
use vstd::prelude::*;
use vstd::slice::slice_subrange;
use vstd::slice::slice_to_vec;

verus! {

/// The byte that separates components.
pub const SEPARATOR: u8 = 0x2f;

/// The byte `.`: a component of this byte alone names the directory it stands in.
pub const DOT: u8 = 0x2e;

/// A path is absolute when it begins at the root.
pub open spec fn is_absolute(path: Seq<u8>) -> bool {
    path.len() > 0 && path[0] == SEPARATOR
}

/// A stretch between two separators that is no component: the empty one, and `.`.
pub open spec fn is_skipped(segment: Seq<u8>) -> bool {
    segment.len() == 0 || (segment.len() == 1 && segment[0] == DOT)
}

/// The component `..`, which names the parent of the directory it stands in.
pub open spec fn is_parent_link(segment: Seq<u8>) -> bool {
    segment.len() == 2 && segment[0] == DOT && segment[1] == DOT
}

/// The components of a path, in order: the stretches between separators,
/// without the empty ones and without `.`.
pub open spec fn components(path: Seq<u8>) -> Seq<Seq<u8>>
    decreases path.len(),
{
    if path.len() == 0 {
        seq![]
    } else {
        let n = count_until(path, SEPARATOR) as int;
        let head = path.subrange(0, n);
        let rest = if n < path.len() {
            components(path.subrange(n + 1, path.len() as int))
        } else {
            seq![]
        };
        if is_skipped(head) {
            rest
        } else {
            seq![head] + rest
        }
    }
}

/// `path` lies at or below `base`: both are absolute, and the components of
/// `base` are the first components of `path`.
pub open spec fn is_within(base: Seq<u8>, path: Seq<u8>) -> bool {
    &&& is_absolute(base)
    &&& is_absolute(path)
    &&& components(base).is_prefix_of(components(path))
}

/// Two absolute paths with the same components.
pub open spec fn same_place(a: Seq<u8>, b: Seq<u8>) -> bool {
    &&& is_absolute(a)
    &&& is_absolute(b)
    &&& components(a) == components(b)
}

/// An absolute path without components: the root, which has no parent.
pub open spec fn is_root(path: Seq<u8>) -> bool {
    is_absolute(path) && components(path).len() == 0
}

/// The last component of a path, unless there is none or it is `..`.
pub open spec fn file_name_of(path: Seq<u8>) -> Option<Seq<u8>> {
    let parts = components(path);
    if parts.len() == 0 || is_parent_link(parts.last()) {
        None
    } else {
        Some(parts.last())
    }
}

/// `base` with `rel` below it: one separator is put between the two unless
/// `base` already ends in one.
pub open spec fn joined(base: Seq<u8>, rel: Seq<u8>) -> Seq<u8> {
    if base.len() > 0 && base.last() == SEPARATOR {
        base + rel
    } else {
        base + seq![SEPARATOR] + rel
    }
}

/// The components of two paths with a separator between them are the
/// components of the first, then those of the second.
pub proof fn lemma_components_across_separator(front: Seq<u8>, back: Seq<u8>)
    ensures
        components(front + seq![SEPARATOR] + back) == components(front) + components(back),
    decreases front.len(),
{
    let whole = front + seq![SEPARATOR] + back;
    if front.len() == 0 {
        assert(whole.subrange(0, 0) =~= Seq::<u8>::empty());
        assert(whole.subrange(1, whole.len() as int) =~= back);
        assert(components(front) + components(back) =~= components(back));
    } else {
        let n = count_until(front, SEPARATOR) as int;
        lemma_count_until_facts(front, SEPARATOR);
        assert forall|k: int| 0 <= k < n implies whole[k] != SEPARATOR by {
            assert(whole[k] == front[k]);
        }
        assert(whole[n] == SEPARATOR) by {
            if n < front.len() {
                assert(whole[n] == front[n]);
            }
        }
        lemma_count_until_is(whole, SEPARATOR, n);
        let head = front.subrange(0, n);
        assert(whole.subrange(0, n) =~= head);
        if n < front.len() {
            let rest = front.subrange(n + 1, front.len() as int);
            assert(whole.subrange(n + 1, whole.len() as int) =~= rest + seq![SEPARATOR] + back);
            lemma_components_across_separator(rest, back);
            assert(components(whole) =~= components(front) + components(back));
        } else {
            assert(whole.subrange(n + 1, whole.len() as int) =~= back);
            assert(components(whole) =~= components(front) + components(back));
        }
    }
}

/// A joined path has the components of the base, then those of what was put
/// below it: read by its components, it lies below the base.
pub proof fn lemma_joined_components(base: Seq<u8>, rel: Seq<u8>)
    ensures
        components(joined(base, rel)) == components(base) + components(rel),
        base.is_prefix_of(joined(base, rel)),
        is_absolute(base) ==> is_within(base, joined(base, rel)),
{
    let whole = joined(base, rel);
    if base.len() > 0 && base.last() == SEPARATOR {
        let front = base.drop_last();
        assert(base =~= front + seq![SEPARATOR] + Seq::<u8>::empty());
        assert(whole =~= front + seq![SEPARATOR] + rel);
        lemma_components_across_separator(front, Seq::<u8>::empty());
        lemma_components_across_separator(front, rel);
        assert(components(base) =~= components(front));
    } else {
        lemma_components_across_separator(base, rel);
    }
    assert(base =~= whole.subrange(0, base.len() as int));
    assert(components(base) =~= components(whole).subrange(0, components(base).len() as int));
}

/// Splits a path into its components.
pub fn split_components(path: &[u8]) -> (out: Vec<Vec<u8>>)
    ensures
        out.deep_view() == components(path@),
{
    let mut out: Vec<Vec<u8>> = Vec::new();
    let mut i: usize = 0;
    assert(path@.subrange(0, path@.len() as int) =~= path@);
    assert(out.deep_view() =~= Seq::<Seq<u8>>::empty());
    while i < path.len()
        invariant
            i <= path.len(),
            components(path@) == out.deep_view() + components(
                path@.subrange(i as int, path@.len() as int),
            ),
        decreases path.len() - i,
    {
        let ghost rest = path@.subrange(i as int, path@.len() as int);
        let ghost before = out.deep_view();
        let len: usize = find_byte(slice_subrange(path, i, path.len()), SEPARATOR);
        let j: usize = i + len;
        proof {
            assert(rest.subrange(0, j - i) =~= path@.subrange(i as int, j as int));
            if j < path.len() {
                assert(rest.subrange(j - i + 1, rest.len() as int) =~= path@.subrange(
                    j + 1,
                    path@.len() as int,
                ));
            }
        }
        let segment = slice_to_vec(slice_subrange(path, i, j));
        let skipped = segment.len() == 0 || (segment.len() == 1 && segment[0] == DOT);
        if !skipped {
            out.push(segment);
            proof {
                lemma_bytes_deep_view(segment);
                assert(out@.last() == segment);
                assert(out.deep_view() =~= before + seq![segment@]);
            }
        }
        if j < path.len() {
            i = j + 1;
        } else {
            i = j;
            assert(components(path@.subrange(i as int, path@.len() as int)) =~= seq![]);
        }
    }
    assert(components(path@.subrange(i as int, path@.len() as int)) =~= seq![]);
    out
}

/// Whether a path begins at the root.
pub fn begins_at_root(path: &[u8]) -> (out: bool)
    ensures
        out == is_absolute(path@),
{
    path.len() > 0 && path[0] == SEPARATOR
}

/// Whether the components in `prefix` are the first components in `parts`.
fn parts_start_with(parts: &Vec<Vec<u8>>, prefix: &Vec<Vec<u8>>) -> (out: bool)
    ensures
        out == prefix.deep_view().is_prefix_of(parts.deep_view()),
{
    if prefix.len() > parts.len() {
        return false;
    }
    let mut i: usize = 0;
    while i < prefix.len()
        invariant
            i <= prefix.len() <= parts.len(),
            forall|k: int| 0 <= k < i ==> prefix@[k]@ == parts@[k]@,
        decreases prefix.len() - i,
    {
        proof {
            lemma_bytes_deep_view(prefix@[i as int]);
            lemma_bytes_deep_view(parts@[i as int]);
        }
        if !bytes_equal(prefix[i].as_slice(), parts[i].as_slice()) {
            assert(prefix.deep_view()[i as int] != parts.deep_view().subrange(
                0,
                prefix.len() as int,
            )[i as int]);
            return false;
        }
        i = i + 1;
    }
    proof {
        assert forall|k: int| 0 <= k < prefix.len() implies prefix.deep_view()[k]
            == parts.deep_view().subrange(0, prefix.len() as int)[k] by {
            lemma_bytes_deep_view(prefix@[k]);
            lemma_bytes_deep_view(parts@[k]);
        }
        assert(prefix.deep_view() =~= parts.deep_view().subrange(0, prefix.len() as int));
    }
    true
}

/// Whether `path` lies at or below `base`, component by component.
pub fn starts_with(path: &[u8], base: &[u8]) -> (out: bool)
    ensures
        out == is_within(base@, path@),
{
    if !begins_at_root(base) || !begins_at_root(path) {
        return false;
    }
    let base_parts = split_components(base);
    let path_parts = split_components(path);
    parts_start_with(&path_parts, &base_parts)
}

/// Whether two absolute paths name the same place, component by component.
pub fn same_path(a: &[u8], b: &[u8]) -> (out: bool)
    ensures
        out == same_place(a@, b@),
{
    if !begins_at_root(a) || !begins_at_root(b) {
        return false;
    }
    let a_parts = split_components(a);
    let b_parts = split_components(b);
    if a_parts.len() != b_parts.len() {
        assert(a_parts.deep_view().len() != b_parts.deep_view().len());
        return false;
    }
    let same = parts_start_with(&a_parts, &b_parts);
    proof {
        let x = a_parts.deep_view();
        let y = b_parts.deep_view();
        assert(x.subrange(0, x.len() as int) =~= x);
        if same {
            assert(x =~= y);
        }
    }
    same
}

/// Whether an absolute path is the root, which has no parent.
pub fn has_no_parent(path: &[u8]) -> (out: bool)
    ensures
        out == is_root(path@),
{
    if !begins_at_root(path) {
        return false;
    }
    let parts = split_components(path);
    parts.len() == 0
}

/// The last component of a path; `None` where there is none or it is `..`.
pub fn file_name(path: &[u8]) -> (out: Option<Vec<u8>>)
    ensures
        out.is_some() == file_name_of(path@).is_some(),
        out.is_some() ==> out.unwrap()@ == file_name_of(path@).unwrap(),
{
    let mut parts = split_components(path);
    let ghost all = parts.deep_view();
    match parts.pop() {
        None => None,
        Some(last) => {
            proof {
                lemma_bytes_deep_view(last);
                assert(all.last() == last@);
            }
            if last.len() == 2 && last[0] == DOT && last[1] == DOT {
                None
            } else {
                Some(last)
            }
        },
    }
}

/// Puts `rel` below `base`. The result always begins with `base`, whatever
/// `rel` holds.
pub fn join(base: &[u8], rel: &[u8]) -> (out: Vec<u8>)
    ensures
        out@ == joined(base@, rel@),
        base@.is_prefix_of(out@),
        components(out@) == components(base@) + components(rel@),
{
    proof {
        lemma_joined_components(base@, rel@);
    }
    let mut out = slice_to_vec(base);
    if !(base.len() > 0 && base[base.len() - 1] == SEPARATOR) {
        out.push(SEPARATOR);
    }
    out.extend_from_slice(rel);
    assert(out@ =~= joined(base@, rel@));
    assert(base@ =~= out@.subrange(0, base@.len() as int));
    out
}

} // verus!
