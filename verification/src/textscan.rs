//! Finding one piece of text inside another, by characters.
//!
//! The placeholder scanner and the template renderer both rest on
//! `find_seq`: the position of the first occurrence of a delimiter at or
//! after a starting point.

use vstd::prelude::*;

verus! {

/// True when `needle` occurs in `hay` starting at position `at`.
pub open spec fn occurs_at(hay: Seq<char>, needle: Seq<char>, at: int) -> bool {
    0 <= at && at + needle.len() <= hay.len() && hay.subrange(at, at + needle.len() as int)
        == needle
}

/// True when `needle` occurs somewhere in `hay`.
pub open spec fn contains_seq(hay: Seq<char>, needle: Seq<char>) -> bool {
    exists|at: int| occurs_at(hay, needle, at)
}

/// The position of the first occurrence of `needle` in `hay` at or
/// after `from`, if there is one.
pub open spec fn find_seq(hay: Seq<char>, needle: Seq<char>, from: int) -> Option<int>
    decreases hay.len() + 1 - from,
{
    if from < 0 || from + needle.len() > hay.len() {
        None
    } else if occurs_at(hay, needle, from) {
        Some(from)
    } else {
        find_seq(hay, needle, from + 1)
    }
}

/// A found position is the first one: nothing matches before it.
pub proof fn lemma_find_seq_first(hay: Seq<char>, needle: Seq<char>, from: int, target: int)
    requires
        0 <= from <= target,
        occurs_at(hay, needle, target),
        forall|j: int| from <= j < target ==> !occurs_at(hay, needle, j),
    ensures
        find_seq(hay, needle, from) == Some(target),
    decreases target - from,
{
    if from < target {
        lemma_find_seq_first(hay, needle, from + 1, target);
    }
}

/// Where nothing matches at or after `from`, nothing is found.
pub proof fn lemma_find_seq_none(hay: Seq<char>, needle: Seq<char>, from: int)
    requires
        0 <= from,
        forall|j: int| from <= j ==> !occurs_at(hay, needle, j),
    ensures
        find_seq(hay, needle, from) is None,
    decreases hay.len() + 1 - from,
{
    if from + needle.len() <= hay.len() {
        lemma_find_seq_none(hay, needle, from + 1);
    }
}

/// Whether `needle` stands at position `at` of `hay`.
pub fn matches_at(hay: &str, needle: &str, at: usize) -> (r: bool)
    ensures
        r == occurs_at(hay@, needle@, at as int),
{
    let hn = hay.unicode_len();
    let nn = needle.unicode_len();
    if nn > hn || at > hn - nn {
        return false;
    }
    let mut j: usize = 0;
    while j < nn
        invariant
            j <= nn,
            at + nn <= hn,
            hn == hay@.len(),
            nn == needle@.len(),
            forall|k: int| 0 <= k < j ==> hay@[at + k] == needle@[k],
        decreases nn - j,
    {
        let hc = hay.get_char(at + j);
        let nc = needle.get_char(j);
        if hc != nc {
            proof {
                assert(hay@.subrange(at as int, at + nn as int)[j as int] == hay@[at + j]);
                assert(!occurs_at(hay@, needle@, at as int));
            }
            return false;
        }
        j += 1;
    }
    proof {
        assert(hay@.subrange(at as int, at + nn as int) =~= needle@);
    }
    true
}

/// Whether two pieces of text read the same.
pub fn str_eq(a: &str, b: &str) -> (r: bool)
    ensures
        r == (a@ == b@),
{
    let an = a.unicode_len();
    let bn = b.unicode_len();
    if an != bn {
        return false;
    }
    let m = matches_at(a, b, 0);
    proof {
        assert(a@.subrange(0, an as int) =~= a@);
    }
    m
}

/// The position of the first occurrence of `needle` in `hay` at or
/// after `from`, if there is one.
pub fn find_str(hay: &str, needle: &str, from: usize) -> (r: Option<usize>)
    ensures
        match r {
            Some(i) => find_seq(hay@, needle@, from as int) == Some(i as int) && from <= i && i
                + needle@.len() <= hay@.len(),
            None => find_seq(hay@, needle@, from as int) is None,
        },
{
    let hn = hay.unicode_len();
    let nn = needle.unicode_len();
    if nn > hn || from > hn - nn {
        proof {
            lemma_find_seq_none(hay@, needle@, from as int);
        }
        return None;
    }
    if nn == 0 {
        proof {
            assert(hay@.subrange(from as int, from as int) =~= needle@);
            lemma_find_seq_first(hay@, needle@, from as int, from as int);
        }
        return Some(from);
    }
    let mut i: usize = from;
    while i <= hn - nn
        invariant
            from <= i,
            1 <= nn <= hn,
            i <= hn - nn + 1,
            hn == hay@.len(),
            nn == needle@.len(),
            forall|j: int| from <= j < i ==> !occurs_at(hay@, needle@, j),
        decreases hn - nn + 1 - i,
    {
        if matches_at(hay, needle, i) {
            proof {
                lemma_find_seq_first(hay@, needle@, from as int, i as int);
            }
            return Some(i);
        }
        i += 1;
    }
    proof {
        assert forall|j: int| from <= j implies !occurs_at(hay@, needle@, j) by {
            if j < i {
            } else {
                assert(j + nn > hn);
            }
        }
        lemma_find_seq_none(hay@, needle@, from as int);
    }
    None
}

} // verus!
