//! Character-level text utilities: conversions between `str`/`String`
//! and character vectors, field splitting, substring search, and
//! trailing-newline trimming.

use vstd::prelude::*;

verus! {

/// Relies on `str::chars` and `Iterator::collect`: the characters of a
/// string slice, in order.
#[verifier::external_body]
pub fn str_to_chars(s: &str) -> (v: Vec<char>)
    ensures
        v@ == s@,
{
    s.chars().collect()
}

/// Relies on `Iterator::collect` for `String`: builds the string with
/// exactly the given characters, in order.
#[verifier::external_body]
pub fn chars_to_string(v: &Vec<char>) -> (s: String)
    ensures
        s@ == v@,
{
    v.iter().collect()
}

/// Copies the characters of `v` in positions `a..b`.
pub fn subrange_chars(v: &Vec<char>, a: usize, b: usize) -> (r: Vec<char>)
    requires
        a <= b <= v@.len(),
    ensures
        r@ == v@.subrange(a as int, b as int),
{
    let mut r: Vec<char> = Vec::new();
    let mut i: usize = a;
    while i < b
        invariant
            a <= i <= b <= v@.len(),
            r@ =~= v@.subrange(a as int, i as int),
        decreases b - i,
    {
        r.push(v[i]);
        assert(r@ =~= v@.subrange(a as int, i + 1));
        i = i + 1;
    }
    r
}

/// True when `a` and `b` hold the same characters.
pub fn eq_chars(a: &Vec<char>, b: &Vec<char>) -> (r: bool)
    ensures
        r <==> a@ == b@,
{
    if a.len() != b.len() {
        return false;
    }
    let mut i: usize = 0;
    while i < a.len()
        invariant
            a@.len() == b@.len(),
            0 <= i <= a@.len(),
            forall|j: int| 0 <= j < i ==> a@[j] == b@[j],
        decreases a@.len() - i,
    {
        if a[i] != b[i] {
            return false;
        }
        i = i + 1;
    }
    proof {
        assert(a@ =~= b@);
    }
    true
}

/// Splitting on `sep`: one field more than there are separators, fields
/// in order, each holding the characters between two separators.
pub open spec fn spec_split(s: Seq<char>, sep: char) -> Seq<Seq<char>>
    decreases s.len(),
{
    if s.len() == 0 {
        seq![Seq::<char>::empty()]
    } else {
        let prev = spec_split(s.drop_last(), sep);
        if s.last() == sep {
            prev.push(Seq::<char>::empty())
        } else {
            prev.update(prev.len() - 1, prev.last().push(s.last()))
        }
    }
}

/// The split of any text has at least one field.
pub proof fn lemma_split_len(s: Seq<char>, sep: char)
    ensures
        spec_split(s, sep).len() >= 1,
    decreases s.len(),
{
    if s.len() > 0 {
        lemma_split_len(s.drop_last(), sep);
    }
}

/// Splits `v` on the separator `sep`.
pub fn split_chars(v: &Vec<char>, sep: char) -> (r: Vec<Vec<char>>)
    ensures
        r.deep_view() == spec_split(v@, sep),
        r@.len() >= 1,
{
    let mut r: Vec<Vec<char>> = Vec::new();
    let mut cur: Vec<char> = Vec::new();
    let mut i: usize = 0;
    while i < v.len()
        invariant
            0 <= i <= v@.len(),
            spec_split(v@.take(i as int), sep) =~~= r.deep_view().push(cur@),
        decreases v@.len() - i,
    {
        let ghost prev_r = r.deep_view();
        let ghost prev_cur = cur@;
        let c = v[i];
        if c == sep {
            r.push(cur);
            cur = Vec::new();
            proof {
                assert(r.deep_view() =~~= prev_r.push(prev_cur));
            }
        } else {
            cur.push(c);
        }
        proof {
            assert(v@.take(i + 1).drop_last() =~= v@.take(i as int));
            assert(v@.take(i + 1).last() == v@[i as int]);
            lemma_split_len(v@.take(i as int), sep);
            if c == sep {
                assert(spec_split(v@.take(i + 1), sep) =~~= r.deep_view().push(cur@));
            } else {
                assert(spec_split(v@.take(i + 1), sep) =~~= r.deep_view().push(cur@));
            }
        }
        i = i + 1;
    }
    proof {
        assert(v@.take(v@.len() as int) =~= v@);
    }
    let ghost prev_r = r.deep_view();
    let ghost prev_cur = cur@;
    r.push(cur);
    proof {
        assert(r.deep_view() =~~= prev_r.push(prev_cur));
        lemma_split_len(v@, sep);
    }
    r
}

/// `needle` occurs as a contiguous substring of `hay`.
pub open spec fn spec_contains_sub(hay: Seq<char>, needle: Seq<char>) -> bool {
    exists|i: int|
        0 <= i && i + needle.len() <= hay.len() && #[trigger] hay.subrange(
            i,
            i + needle.len() as int,
        ) == needle
}

/// Substring search, as exact containment of `needle` in `hay`.
pub fn contains_sub(hay: &Vec<char>, needle: &Vec<char>) -> (r: bool)
    ensures
        r <==> spec_contains_sub(hay@, needle@),
{
    if needle.len() > hay.len() {
        assert(!spec_contains_sub(hay@, needle@));
        return false;
    }
    if needle.len() == 0 {
        proof {
            assert(hay@.subrange(0, 0 + needle@.len() as int) =~= needle@);
        }
        return true;
    }
    let mut i: usize = 0;
    while i <= hay.len() - needle.len()
        invariant
            0 < needle@.len() <= hay@.len(),
            0 <= i <= hay@.len() - needle@.len() + 1,
            forall|k: int|
                0 <= k < i && k + needle@.len() <= hay@.len() ==> #[trigger] hay@.subrange(
                    k,
                    k + needle@.len() as int,
                ) != needle@,
        decreases hay@.len() - needle@.len() - i + 1,
    {
        let mut j: usize = 0;
        let mut matched = true;
        while j < needle.len()
            invariant
                0 <= j <= needle@.len(),
                i + needle@.len() <= hay@.len() <= usize::MAX,
                matched ==> (forall|t: int| 0 <= t < j ==> hay@[i + t] == needle@[t]),
                !matched ==> hay@.subrange(i as int, i + needle@.len() as int) != needle@,
            decreases needle@.len() - j,
        {
            if hay[i + j] != needle[j] {
                proof {
                    assert(hay@.subrange(i as int, i + needle@.len() as int)[j as int]
                        == hay@[i + j as int]);
                }
                matched = false;
                j = needle.len();
            } else {
                j = j + 1;
            }
        }
        if matched {
            proof {
                assert(hay@.subrange(i as int, i + needle@.len() as int) =~= needle@);
            }
            return true;
        }
        i = i + 1;
    }
    proof {
        assert forall|k: int|
            0 <= k && k + needle@.len() <= hay@.len() implies #[trigger] hay@.subrange(
            k,
            k + needle@.len() as int,
        ) != needle@ by {
            assert(k < i || k + needle@.len() > hay@.len());
        }
    }
    false
}

/// The text with every trailing newline removed.
pub open spec fn spec_trim_newlines(s: Seq<char>) -> Seq<char>
    decreases s.len(),
{
    if s.len() > 0 && s.last() == '\n' {
        spec_trim_newlines(s.drop_last())
    } else {
        s
    }
}

/// Removes every trailing newline character.
pub fn trim_newlines(v: &Vec<char>) -> (r: Vec<char>)
    ensures
        r@ == spec_trim_newlines(v@),
{
    let mut end: usize = v.len();
    proof {
        assert(v@.take(v@.len() as int) =~= v@);
    }
    while end > 0 && v[end - 1] == '\n'
        invariant
            0 <= end <= v@.len(),
            spec_trim_newlines(v@) == spec_trim_newlines(v@.take(end as int)),
        decreases end,
    {
        proof {
            assert(v@.take(end as int).last() == v@[end - 1]);
            assert(v@.take(end as int).drop_last() =~= v@.take(end - 1));
        }
        end = end - 1;
    }
    proof {
        assert(v@.take(v@.len() as int) =~= v@);
        assert(spec_trim_newlines(v@.take(end as int)) == v@.take(end as int));
    }
    subrange_chars(v, 0, end)
}

/// A text without the separator splits into itself alone.
pub proof fn lemma_split_single(f: Seq<char>, sep: char)
    requires
        forall|i: int| 0 <= i < f.len() ==> f[i] != sep,
    ensures
        spec_split(f, sep) == seq![f],
    decreases f.len(),
{
    if f.len() == 0 {
        assert(spec_split(f, sep) =~~= seq![f]);
    } else {
        lemma_split_single(f.drop_last(), sep);
        assert(spec_split(f, sep) =~~= seq![f]);
    }
}

/// Appending a separator and a separator-free field appends one field
/// to the split.
pub proof fn lemma_split_append(s: Seq<char>, f: Seq<char>, sep: char)
    requires
        forall|i: int| 0 <= i < f.len() ==> f[i] != sep,
    ensures
        spec_split(s + seq![sep] + f, sep) == spec_split(s, sep).push(f),
    decreases f.len(),
{
    if f.len() == 0 {
        assert((s + seq![sep] + f).drop_last() =~= s);
        assert((s + seq![sep] + f).last() == sep);
        assert(spec_split(s + seq![sep] + f, sep) =~~= spec_split(s, sep).push(f));
    } else {
        lemma_split_append(s, f.drop_last(), sep);
        lemma_split_len(s, sep);
        assert((s + seq![sep] + f).drop_last() =~= s + seq![sep] + f.drop_last());
        assert((s + seq![sep] + f).last() == f.last());
        assert(f.drop_last().push(f.last()) =~= f);
        assert(spec_split(s + seq![sep] + f, sep) =~~= spec_split(s, sep).push(f));
    }
}

} // verus!
