//! The fixed English lexicon: words for single digits, the irregular words
//! for ten through nineteen, the multiples of ten, and the short-scale
//! magnitude words, each given once as a spec function and once as an
//! executable lookup proved against it.

use vstd::prelude::*;
use crate::text::plain_word;

verus! {

/// The word for a single digit in the ones or hundreds position; the empty
/// sequence for zero, which never appears in a rendered phrase.
pub open spec fn unit_word(d: nat) -> Seq<char> {
    if d == 1 {
        "one"@
    } else if d == 2 {
        "two"@
    } else if d == 3 {
        "three"@
    } else if d == 4 {
        "four"@
    } else if d == 5 {
        "five"@
    } else if d == 6 {
        "six"@
    } else if d == 7 {
        "seven"@
    } else if d == 8 {
        "eight"@
    } else if d == 9 {
        "nine"@
    } else {
        Seq::empty()
    }
}

/// The irregular word for ten plus `d`, indexed by the ones digit.
pub open spec fn teen_word(d: nat) -> Seq<char> {
    if d == 0 {
        "ten"@
    } else if d == 1 {
        "eleven"@
    } else if d == 2 {
        "twelve"@
    } else if d == 3 {
        "thirteen"@
    } else if d == 4 {
        "fourteen"@
    } else if d == 5 {
        "fifteen"@
    } else if d == 6 {
        "sixteen"@
    } else if d == 7 {
        "seventeen"@
    } else if d == 8 {
        "eighteen"@
    } else if d == 9 {
        "nineteen"@
    } else {
        Seq::empty()
    }
}

/// The word for a multiple of ten, indexed by the tens digit; defined only
/// for digits two through nine (ten through nineteen use the teen words).
pub open spec fn tens_word(d: nat) -> Seq<char> {
    if d == 2 {
        "twenty"@
    } else if d == 3 {
        "thirty"@
    } else if d == 4 {
        "forty"@
    } else if d == 5 {
        "fifty"@
    } else if d == 6 {
        "sixty"@
    } else if d == 7 {
        "seventy"@
    } else if d == 8 {
        "eighty"@
    } else if d == 9 {
        "ninety"@
    } else {
        Seq::empty()
    }
}

/// The short-scale magnitude word for the triplet at base-1000 position
/// `i`: the units group at position zero has no scale word.
pub open spec fn scale_word(i: nat) -> Seq<char> {
    if i == 1 {
        "thousand"@
    } else if i == 2 {
        "million"@
    } else if i == 3 {
        "billion"@
    } else if i == 4 {
        "trillion"@
    } else if i == 5 {
        "quadrillion"@
    } else if i == 6 {
        "quintillion"@
    } else if i == 7 {
        "sextillion"@
    } else {
        Seq::empty()
    }
}

/// The word for a non-zero digit is non-empty and free of spaces,
/// hyphens and the letter 'z'.
pub proof fn lemma_unit_word_plain(d: nat)
    requires
        1 <= d <= 9,
    ensures
        plain_word(unit_word(d)),
{
    reveal_strlit("one");
    reveal_strlit("two");
    reveal_strlit("three");
    reveal_strlit("four");
    reveal_strlit("five");
    reveal_strlit("six");
    reveal_strlit("seven");
    reveal_strlit("eight");
    reveal_strlit("nine");
}

/// Every teen word is non-empty and free of spaces, hyphens and 'z'.
pub proof fn lemma_teen_word_plain(d: nat)
    requires
        d <= 9,
    ensures
        plain_word(teen_word(d)),
{
    reveal_strlit("ten");
    reveal_strlit("eleven");
    reveal_strlit("twelve");
    reveal_strlit("thirteen");
    reveal_strlit("fourteen");
    reveal_strlit("fifteen");
    reveal_strlit("sixteen");
    reveal_strlit("seventeen");
    reveal_strlit("eighteen");
    reveal_strlit("nineteen");
}

/// The word for a tens digit of at least two is non-empty and free of
/// spaces, hyphens and 'z'.
pub proof fn lemma_tens_word_plain(d: nat)
    requires
        2 <= d <= 9,
    ensures
        plain_word(tens_word(d)),
{
    reveal_strlit("twenty");
    reveal_strlit("thirty");
    reveal_strlit("forty");
    reveal_strlit("fifty");
    reveal_strlit("sixty");
    reveal_strlit("seventy");
    reveal_strlit("eighty");
    reveal_strlit("ninety");
}

/// Every scale word of a scaled position is non-empty and free of
/// spaces, hyphens and 'z'.
pub proof fn lemma_scale_word_plain(i: nat)
    requires
        1 <= i <= 7,
    ensures
        plain_word(scale_word(i)),
{
    reveal_strlit("thousand");
    reveal_strlit("million");
    reveal_strlit("billion");
    reveal_strlit("trillion");
    reveal_strlit("quadrillion");
    reveal_strlit("quintillion");
    reveal_strlit("sextillion");
}

/// Executable lookup for `unit_word` on a non-zero digit.
pub(crate) fn unit_str(d: usize) -> (r: &'static str)
    requires
        1 <= d <= 9,
    ensures
        r@ == unit_word(d as nat),
{
    if d == 1 {
        "one"
    } else if d == 2 {
        "two"
    } else if d == 3 {
        "three"
    } else if d == 4 {
        "four"
    } else if d == 5 {
        "five"
    } else if d == 6 {
        "six"
    } else if d == 7 {
        "seven"
    } else if d == 8 {
        "eight"
    } else {
        "nine"
    }
}

/// Executable lookup for `teen_word`.
pub(crate) fn teen_str(d: usize) -> (r: &'static str)
    requires
        d <= 9,
    ensures
        r@ == teen_word(d as nat),
{
    if d == 0 {
        "ten"
    } else if d == 1 {
        "eleven"
    } else if d == 2 {
        "twelve"
    } else if d == 3 {
        "thirteen"
    } else if d == 4 {
        "fourteen"
    } else if d == 5 {
        "fifteen"
    } else if d == 6 {
        "sixteen"
    } else if d == 7 {
        "seventeen"
    } else if d == 8 {
        "eighteen"
    } else {
        "nineteen"
    }
}

/// Executable lookup for `tens_word` on a tens digit of at least two.
pub(crate) fn tens_str(d: usize) -> (r: &'static str)
    requires
        2 <= d <= 9,
    ensures
        r@ == tens_word(d as nat),
{
    if d == 2 {
        "twenty"
    } else if d == 3 {
        "thirty"
    } else if d == 4 {
        "forty"
    } else if d == 5 {
        "fifty"
    } else if d == 6 {
        "sixty"
    } else if d == 7 {
        "seventy"
    } else if d == 8 {
        "eighty"
    } else {
        "ninety"
    }
}

/// Executable lookup for `scale_word` on a scaled group position.
pub(crate) fn scale_str(i: usize) -> (r: &'static str)
    requires
        1 <= i <= 7,
    ensures
        r@ == scale_word(i as nat),
{
    if i == 1 {
        "thousand"
    } else if i == 2 {
        "million"
    } else if i == 3 {
        "billion"
    } else if i == 4 {
        "trillion"
    } else if i == 5 {
        "quadrillion"
    } else if i == 6 {
        "quintillion"
    } else {
        "sextillion"
    }
}

} // verus!
