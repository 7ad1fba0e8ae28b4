//! Searching and splitting character sequences on a multi-character
//! separator.
//!
//! Both the listing's field separator and the course configuration's list
//! separator are short literal strings, so the listing format and the
//! configuration rules are stated over one shared notion: the first
//! occurrence of a pattern in a sequence, and the segments between
//! consecutive occurrences.

use vstd::prelude::*;

verus! {

/// True when `pat` occurs in `s` starting at index `i`.
pub open spec fn occurs_at(s: Seq<char>, pat: Seq<char>, i: int) -> bool {
    &&& 0 <= i
    &&& i + pat.len() <= s.len()
    &&& s.subrange(i, i + pat.len() as int) == pat
}

/// True when `pat` occurs nowhere in `s`.
pub open spec fn free_of(s: Seq<char>, pat: Seq<char>) -> bool {
    forall|i: int| !occurs_at(s, pat, i)
}

/// Index of the first occurrence of `pat` in `s` at or after `from`, if any.
pub open spec fn first_occurrence(s: Seq<char>, pat: Seq<char>, from: int) -> Option<int>
    decreases s.len() - from
    when from <= s.len()
{
    if from < 0 || pat.len() == 0 || from + pat.len() > s.len() {
        None
    } else if occurs_at(s, pat, from) {
        Some(from)
    } else {
        first_occurrence(s, pat, from + 1)
    }
}

/// The segments of `s` between consecutive occurrences of `pat`, in order.
/// A sequence without an occurrence is a single segment, so the result is
/// never empty; `pat.len() >= 1` is assumed wherever this is used.
pub open spec fn split_on(s: Seq<char>, pat: Seq<char>) -> Seq<Seq<char>>
    decreases s.len()
{
    match first_occurrence(s, pat, 0) {
        None => seq![s],
        Some(i) => if 0 <= i && 1 <= pat.len() && i + pat.len() <= s.len() {
            seq![s.subrange(0, i)] + split_on(s.skip(i + pat.len() as int), pat)
        } else {
            seq![s]
        },
    }
}

/// A found occurrence lies within bounds, at or after the starting point.
pub proof fn lemma_first_occurrence_bounds(s: Seq<char>, pat: Seq<char>, from: int)
    requires
        0 <= from <= s.len(),
    ensures
        first_occurrence(s, pat, from) matches Some(i) ==> from <= i && occurs_at(s, pat, i)
            && pat.len() >= 1,
    decreases s.len() - from,
{
    if from < 0 || pat.len() == 0 || from + pat.len() > s.len() {
    } else if occurs_at(s, pat, from) {
    } else {
        lemma_first_occurrence_bounds(s, pat, from + 1);
    }
}

/// Without an occurrence at or after `from`, the search finds none.
pub proof fn lemma_first_occurrence_none(s: Seq<char>, pat: Seq<char>, from: int)
    requires
        0 <= from <= s.len(),
        pat.len() >= 1,
        forall|j: int| from <= j ==> !occurs_at(s, pat, j),
    ensures
        first_occurrence(s, pat, from) == None::<int>,
    decreases s.len() - from,
{
    if from + pat.len() > s.len() {
    } else {
        lemma_first_occurrence_none(s, pat, from + 1);
    }
}

/// An occurrence at `i` with none between `from` and `i` is the first one.
pub proof fn lemma_first_occurrence_at(s: Seq<char>, pat: Seq<char>, from: int, i: int)
    requires
        0 <= from <= i,
        pat.len() >= 1,
        occurs_at(s, pat, i),
        forall|j: int| from <= j < i ==> !occurs_at(s, pat, j),
    ensures
        first_occurrence(s, pat, from) == Some(i),
    decreases i - from,
{
    if from == i {
    } else {
        lemma_first_occurrence_at(s, pat, from + 1, i);
    }
}

/// Searching at or after `base` is the same search in the suffix `s.skip(base)`,
/// with indices shifted by `base`.
pub proof fn lemma_first_occurrence_shift(s: Seq<char>, pat: Seq<char>, base: int, from: int)
    requires
        0 <= base <= from <= s.len(),
        pat.len() >= 1,
    ensures
        first_occurrence(s, pat, from) == (match first_occurrence(
            s.skip(base),
            pat,
            from - base,
        ) {
            None => None::<int>,
            Some(i) => Some(i + base),
        }),
    decreases s.len() - from,
{
    let suffix = s.skip(base);
    if from + pat.len() <= s.len() {
        assert(s.subrange(from, from + pat.len() as int) =~= suffix.subrange(
            from - base,
            from - base + pat.len() as int,
        ));
        assert(occurs_at(s, pat, from) == occurs_at(suffix, pat, from - base));
        if !occurs_at(s, pat, from) {
            lemma_first_occurrence_shift(s, pat, base, from + 1);
        }
    }
}

/// Whether `pat` starts at index `i` of `s`. `s_len` is the character length
/// of `s`, precomputed by the caller.
fn pattern_at(s: &str, pat: &str, i: usize, s_len: usize) -> (r: bool)
    requires
        s_len == s@.len(),
        i + pat@.len() <= s@.len(),
    ensures
        r == occurs_at(s@, pat@, i as int),
{
    let pat_len = pat.unicode_len();
    let mut j: usize = 0;
    while j < pat_len
        invariant
            j <= pat_len,
            s_len == s@.len(),
            pat_len == pat@.len(),
            i + pat_len <= s_len,
            forall|k: int| 0 <= k < j ==> s@[i + k] == pat@[k],
        decreases pat_len - j,
    {
        if s.get_char(i + j) != pat.get_char(j) {
            proof {
                let window = s@.subrange(i as int, i + pat@.len() as int);
                assert(window[j as int] == s@[i + j]);
            }
            return false;
        }
        j += 1;
    }
    proof {
        assert(s@.subrange(i as int, i + pat@.len() as int) =~= pat@);
    }
    true
}

/// Index of the first occurrence of `pat` in `s` at or after `from`, if any.
pub fn find_in(s: &str, pat: &str, from: usize) -> (r: Option<usize>)
    requires
        pat@.len() >= 1,
        from <= s@.len(),
    ensures
        first_occurrence(s@, pat@, from as int) == (match r {
            None => None::<int>,
            Some(i) => Some(i as int),
        }),
{
    let s_len = s.unicode_len();
    let pat_len = pat.unicode_len();
    if pat_len > s_len {
        return None;
    }
    let limit = s_len - pat_len;
    if from > limit {
        return None;
    }
    let mut i: usize = from;
    while i <= limit
        invariant
            from <= i,
            i <= limit + 1,
            limit == s_len - pat_len,
            s_len == s@.len(),
            pat_len == pat@.len(),
            1 <= pat_len <= s_len,
            first_occurrence(s@, pat@, from as int) == first_occurrence(s@, pat@, i as int),
        decreases limit + 1 - i,
    {
        if pattern_at(s, pat, i, s_len) {
            return Some(i);
        }
        i += 1;
    }
    None
}

/// The segments of `s` between consecutive occurrences of `pat`, in order.
pub fn split_on_str(s: &str, pat: &str) -> (r: Vec<String>)
    requires
        pat@.len() >= 1,
    ensures
        r.deep_view() == split_on(s@, pat@),
{
    let s_len = s.unicode_len();
    let pat_len = pat.unicode_len();
    let mut parts: Vec<String> = Vec::new();
    let mut pos: usize = 0;
    proof {
        assert(s@.skip(0) =~= s@);
        assert(parts.deep_view() + split_on(s@, pat@) =~= split_on(s@, pat@));
    }
    loop
        invariant
            pos <= s_len,
            s_len == s@.len(),
            pat_len == pat@.len(),
            pat_len >= 1,
            split_on(s@, pat@) == parts.deep_view() + split_on(s@.skip(pos as int), pat@),
        decreases s@.len() - pos,
    {
        let ghost old_parts = parts.deep_view();
        let ghost suffix = s@.skip(pos as int);
        match find_in(s, pat, pos) {
            None => {
                let piece = s.substring_char(pos, s_len).to_owned();
                parts.push(piece);
                proof {
                    lemma_first_occurrence_shift(s@, pat@, pos as int, pos as int);
                    assert(split_on(suffix, pat@) =~= seq![suffix]);
                    assert(suffix =~= s@.subrange(pos as int, s_len as int));
                    assert(parts.deep_view() =~= old_parts + seq![suffix]);
                }
                return parts;
            },
            Some(i) => {
                proof {
                    lemma_first_occurrence_bounds(s@, pat@, pos as int);
                }
                let piece = s.substring_char(pos, i).to_owned();
                parts.push(piece);
                proof {
                    lemma_first_occurrence_bounds(s@, pat@, pos as int);
                    lemma_first_occurrence_shift(s@, pat@, pos as int, pos as int);
                    let rel = i - pos;
                    assert(first_occurrence(suffix, pat@, 0) == Some(rel));
                    assert(suffix.subrange(0, rel) =~= s@.subrange(pos as int, i as int));
                    assert(suffix.skip(rel + pat@.len() as int) =~= s@.skip(
                        i + pat@.len() as int,
                    ));
                    assert(split_on(suffix, pat@) == seq![suffix.subrange(0, rel)] + split_on(
                        suffix.skip(rel + pat@.len() as int),
                        pat@,
                    ));
                    assert(parts.deep_view() =~= old_parts + seq![s@.subrange(
                        pos as int,
                        i as int,
                    )]);
                    assert(parts.deep_view() + split_on(s@.skip(i + pat@.len() as int), pat@)
                        =~= old_parts + split_on(suffix, pat@));
                }
                pos = i + pat_len;
            },
        }
    }
}

/// Character-for-character equality of two string slices.
pub fn str_eq(a: &str, b: &str) -> (r: bool)
    ensures
        r == (a@ == b@),
{
    let a_len = a.unicode_len();
    let b_len = b.unicode_len();
    if a_len != b_len {
        return false;
    }
    let mut i: usize = 0;
    while i < a_len
        invariant
            i <= a_len,
            a_len == a@.len(),
            a_len == b@.len(),
            forall|k: int| 0 <= k < i ==> a@[k] == b@[k],
        decreases a_len - i,
    {
        if a.get_char(i) != b.get_char(i) {
            return false;
        }
        i += 1;
    }
    proof {
        assert(a@ =~= b@);
    }
    true
}

} // verus!
