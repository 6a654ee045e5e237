//! Character-level predicates over phrases: whether a character occurs,
//! how often it occurs, and whether a phrase is well spaced (no leading,
//! trailing or doubled space), with the lemmas that carry these facts
//! through concatenation.

use vstd::prelude::*;

verus! {

/// `c` occurs somewhere in `s`.
pub open spec fn contains_char(s: Seq<char>, c: char) -> bool {
    exists|i: int| 0 <= i < s.len() && s[i] == c
}

/// How many positions of `s` hold `c`.
pub open spec fn count_char(s: Seq<char>, c: char) -> nat
    decreases s.len(),
{
    if s.len() == 0 {
        0
    } else {
        count_char(s.drop_last(), c) + (if s.last() == c {
            1nat
        } else {
            0nat
        })
    }
}

/// A single word of the lexicon: non-empty and free of spaces, hyphens
/// and the letter 'z' (which occurs only in "zero").
pub open spec fn plain_word(s: Seq<char>) -> bool {
    &&& s.len() > 0
    &&& !contains_char(s, ' ')
    &&& !contains_char(s, 'z')
    &&& !contains_char(s, '-')
}

/// `s` neither starts nor ends with a space and never holds two spaces in
/// a row: the shape of a phrase whose non-empty parts were joined with
/// single separators.
pub open spec fn well_spaced(s: Seq<char>) -> bool {
    &&& s.len() > 0 ==> s[0] != ' ' && s[s.len() - 1] != ' '
    &&& forall|i: int| 0 <= i < s.len() - 1 ==> !((#[trigger] s[i]) == ' ' && s[i + 1] == ' ')
}

/// A character occurs in a concatenation exactly when it occurs in one of
/// the parts.
pub proof fn lemma_contains_char_concat(a: Seq<char>, b: Seq<char>, c: char)
    ensures
        contains_char(a + b, c) <==> (contains_char(a, c) || contains_char(b, c)),
{
    if contains_char(a + b, c) {
        let i = choose|i: int| 0 <= i < (a + b).len() && (a + b)[i] == c;
        if i < a.len() {
            assert(a[i] == c);
        } else {
            assert(b[i - a.len()] == c);
        }
    }
    if contains_char(a, c) {
        let i = choose|i: int| 0 <= i < a.len() && a[i] == c;
        assert((a + b)[i] == c);
    }
    if contains_char(b, c) {
        let i = choose|i: int| 0 <= i < b.len() && b[i] == c;
        assert((a + b)[a.len() + i] == c);
    }
}

/// Occurrences add up over a concatenation.
pub proof fn lemma_count_char_concat(a: Seq<char>, b: Seq<char>, c: char)
    ensures
        count_char(a + b, c) == count_char(a, c) + count_char(b, c),
    decreases b.len(),
{
    if b.len() == 0 {
        assert(a + b =~= a);
    } else {
        lemma_count_char_concat(a, b.drop_last(), c);
        assert((a + b).drop_last() =~= a + b.drop_last());
        assert((a + b).last() == b.last());
    }
}

/// A character that occurs nowhere is counted zero times, and conversely.
pub proof fn lemma_count_char_zero(s: Seq<char>, c: char)
    ensures
        (count_char(s, c) == 0) <==> !contains_char(s, c),
    decreases s.len(),
{
    if s.len() > 0 {
        lemma_count_char_zero(s.drop_last(), c);
        if contains_char(s, c) {
            let i = choose|i: int| 0 <= i < s.len() && s[i] == c;
            if i < s.len() - 1 {
                assert(s.drop_last()[i] == c);
            }
        }
        if contains_char(s.drop_last(), c) {
            let i = choose|i: int| 0 <= i < s.drop_last().len() && s.drop_last()[i] == c;
            assert(s[i] == c);
        }
    }
}

/// A non-empty phrase with no space at all is trivially well spaced.
pub proof fn lemma_spaceless_well_spaced(s: Seq<char>)
    requires
        !contains_char(s, ' '),
    ensures
        well_spaced(s),
{
    assert forall|i: int| 0 <= i < s.len() implies s[i] != ' ' by {
        assert(!contains_char(s, ' '));
    }
}

/// Joining two non-empty well-spaced phrases with a single space yields a
/// well-spaced phrase.
pub proof fn lemma_well_spaced_join(a: Seq<char>, b: Seq<char>)
    requires
        well_spaced(a),
        well_spaced(b),
        a.len() > 0,
        b.len() > 0,
    ensures
        well_spaced(a + " "@ + b),
{
    reveal_strlit(" ");
    let s = a + " "@ + b;
    assert(s.len() == a.len() + 1 + b.len());
    assert forall|i: int| 0 <= i < s.len() implies s[i] == (if i < a.len() {
        a[i]
    } else if i == a.len() {
        ' '
    } else {
        b[i - a.len() - 1]
    }) by {
        if i < a.len() {
            assert((a + " "@)[i] == a[i]);
        } else if i == a.len() {
            assert((a + " "@)[i] == " "@[0]);
        }
    }
    assert forall|i: int| 0 <= i < s.len() - 1 implies !((#[trigger] s[i]) == ' ' && s[i + 1]
        == ' ') by {
        if i + 1 < a.len() {
        } else if i + 1 == a.len() {
            assert(s[i] == a[a.len() - 1]);
        } else if i == a.len() {
            assert(s[i + 1] == b[0]);
        } else if i > a.len() {
            assert(s[i] == b[i - a.len() - 1] && s[i + 1] == b[i - a.len()]);
        }
    }
    assert(s[0] == a[0]);
    assert(s[s.len() - 1] == b[b.len() - 1]);
}

} // verus!
