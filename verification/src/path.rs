//! Paths: sequences of names that address a place in the object tree.
//!
//! In text a path is written with its segments separated by `/`, as in
//! `atom/movable/var/bound_x`. The model of a path is a `Seq<Seq<char>>`.

use vstd::prelude::*;

verus! {

/// The character that separates the segments of a path in text.
pub const DELIMITER: char = '/';

/// The segments of a path written as text.
///
/// Every delimiter ends one segment and starts the next, so a text with `n`
/// delimiters has `n + 1` segments, some of which may be empty.
pub open spec fn split(text: Seq<char>) -> Seq<Seq<char>>
    decreases text.len(),
{
    if text.len() == 0 {
        seq![Seq::<char>::empty()]
    } else {
        let before = split(text.drop_last());
        if text.last() == DELIMITER {
            before.push(Seq::<char>::empty())
        } else {
            before.update(before.len() - 1, before.last().push(text.last()))
        }
    }
}

/// Whether every segment of the path has at least one character.
pub open spec fn valid_segments(path: Seq<Seq<char>>) -> bool {
    forall|i: int| 0 <= i < path.len() ==> (#[trigger] path[i]).len() > 0
}

/// Whether `prefix` is an initial part of `path`, the whole of it included.
pub open spec fn is_prefix(prefix: Seq<Seq<char>>, path: Seq<Seq<char>>) -> bool {
    prefix.len() <= path.len() && prefix == path.take(prefix.len() as int)
}

/// A text always splits into at least one segment.
pub proof fn lemma_split_nonempty(text: Seq<char>)
    ensures
        split(text).len() >= 1,
    decreases text.len(),
{
    if text.len() > 0 {
        lemma_split_nonempty(text.drop_last());
    }
}

/// No segment of a split text holds the delimiter.
pub proof fn lemma_split_segments_hold_no_delimiter(text: Seq<char>)
    ensures
        forall|i: int, j: int|
            0 <= i < split(text).len() && 0 <= j < split(text)[i].len() ==> split(text)[i][j]
                != DELIMITER,
    decreases text.len(),
{
    if text.len() > 0 {
        lemma_split_nonempty(text.drop_last());
        lemma_split_segments_hold_no_delimiter(text.drop_last());
    }
}

/// A text without a delimiter is its own single segment.
pub proof fn lemma_split_single(text: Seq<char>)
    requires
        forall|j: int| 0 <= j < text.len() ==> text[j] != DELIMITER,
    ensures
        split(text) == seq![text],
    decreases text.len(),
{
    if text.len() == 0 {
        assert(text =~= Seq::<char>::empty());
    } else {
        let before = split(text.drop_last());
        lemma_split_single(text.drop_last());
        assert(before.len() == 1 && before[0] == text.drop_last());
        assert(text.drop_last().push(text.last()) =~= text);
        assert(before.update(0, before.last().push(text.last())) =~= seq![text]);
    }
}

/// Splits a path written as text into its segments.
pub fn split_path(text: &str) -> (segments: Vec<String>)
    ensures
        segments.deep_view() == split(text@),
{
    let n = text.unicode_len();
    let mut segments: Vec<String> = Vec::new();
    let mut start: usize = 0;
    let mut i: usize = 0;
    proof {
        assert(text@.take(0) =~= Seq::<char>::empty());
        assert(text@.subrange(0, 0) =~= Seq::<char>::empty());
        assert(segments.deep_view().push(text@.subrange(0, 0)) =~= seq![Seq::<char>::empty()]);
    }
    while i < n
        invariant
            n == text@.len(),
            start <= i <= n,
            split(text@.take(i as int)) == segments.deep_view().push(
                text@.subrange(start as int, i as int),
            ),
        decreases n - i,
    {
        let ghost done = segments.deep_view();
        let ghost current = text@.subrange(start as int, i as int);
        proof {
            assert(text@.take(i + 1).drop_last() =~= text@.take(i as int));
            assert(text@.take(i + 1).last() == text@[i as int]);
        }
        let c = text.get_char(i);
        if c == DELIMITER {
            segments.push(String::from_str(text.substring_char(start, i)));
            start = i + 1;
            proof {
                assert(segments.deep_view() =~= done.push(current));
                assert(text@.subrange(start as int, i + 1) =~= Seq::<char>::empty());
            }
        } else {
            proof {
                assert(done.push(current).update(
                    done.push(current).len() - 1,
                    done.push(current).last().push(c),
                ) =~= done.push(current.push(c)));
                assert(current.push(c) =~= text@.subrange(start as int, i + 1));
            }
        }
        i += 1;
    }
    let ghost done = segments.deep_view();
    segments.push(String::from_str(text.substring_char(start, n)));
    proof {
        assert(text@.take(n as int) =~= text@);
        assert(segments.deep_view() =~= done.push(text@.subrange(start as int, n as int)));
    }
    segments
}

/// Whether every segment of the path has at least one character.
pub fn segments_valid(path: &[String]) -> (ok: bool)
    ensures
        ok == valid_segments(path.deep_view()),
{
    let mut i: usize = 0;
    while i < path.len()
        invariant
            i <= path.len(),
            forall|k: int| 0 <= k < i ==> (#[trigger] path.deep_view()[k]).len() > 0,
        decreases path.len() - i,
    {
        if path[i].as_str().is_empty() {
            assert(path.deep_view()[i as int].len() == 0);
            return false;
        }
        i += 1;
    }
    true
}

/// An owned copy of the segments of a path from index `from` up to, not
/// including, index `to`.
pub fn clone_range(path: &[String], from: usize, to: usize) -> (copy: Vec<String>)
    requires
        from <= to <= path.len(),
    ensures
        copy.deep_view() == path.deep_view().subrange(from as int, to as int),
{
    let mut copy: Vec<String> = Vec::new();
    let mut i: usize = from;
    while i < to
        invariant
            from <= i <= to <= path.len(),
            copy.deep_view() == path.deep_view().subrange(from as int, i as int),
        decreases to - i,
    {
        let ghost before = copy.deep_view();
        copy.push(path[i].clone());
        proof {
            assert(copy.deep_view() =~= before.push(path.deep_view()[i as int]));
            assert(path.deep_view().subrange(from as int, i + 1) =~= before.push(
                path.deep_view()[i as int],
            ));
        }
        i += 1;
    }
    copy
}

/// An owned copy of a path.
pub fn clone_path(path: &[String]) -> (copy: Vec<String>)
    ensures
        copy.deep_view() == path.deep_view(),
{
    let copy = clone_range(path, 0, path.len());
    proof {
        assert(path.deep_view().subrange(0, path.len() as int) =~= path.deep_view());
    }
    copy
}

} // verus!
