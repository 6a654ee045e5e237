//! Rendering one base-1000 triplet (a value in 0..=999) as an English
//! phrase: a hundreds clause, then a remainder clause for the last two
//! digits, joined with a single space.

use vstd::prelude::*;
use crate::lexicon::{unit_word, teen_word, tens_word};
use crate::lexicon::{unit_str, teen_str, tens_str};
use crate::lexicon::{lemma_unit_word_plain, lemma_teen_word_plain, lemma_tens_word_plain};
use crate::text::{contains_char, count_char, well_spaced};
use crate::text::{
    lemma_contains_char_concat,
    lemma_count_char_concat,
    lemma_count_char_zero,
    lemma_spaceless_well_spaced,
    lemma_well_spaced_join,
};

verus! {

/// The phrase for the last two digits of a triplet, when at least one of
/// them is non-zero: a unit word alone, an irregular teen word, a tens
/// word alone, or a hyphenated tens-unit pair.
pub open spec fn remainder_phrase(tens: nat, ones: nat) -> Seq<char> {
    if tens == 0 {
        unit_word(ones)
    } else if tens == 1 {
        teen_word(ones)
    } else if ones == 0 {
        tens_word(tens)
    } else {
        tens_word(tens) + "-"@ + unit_word(ones)
    }
}

/// The English phrase for a triplet `n` in 0..=999: the empty sequence for
/// zero, otherwise the hundreds clause and the remainder clause, joined
/// with a single space where both are present.
pub open spec fn triplet_phrase(n: nat) -> Seq<char> {
    let hundreds: nat = n / 100;
    let tens: nat = (n % 100) / 10;
    let ones: nat = n % 10;
    if hundreds > 0 && (tens > 0 || ones > 0) {
        unit_word(hundreds) + " hundred"@ + " "@ + remainder_phrase(tens, ones)
    } else if hundreds > 0 {
        unit_word(hundreds) + " hundred"@
    } else if tens > 0 || ones > 0 {
        remainder_phrase(tens, ones)
    } else {
        Seq::empty()
    }
}

/// The remainder clause for a non-zero pair of last digits is non-empty,
/// holds no space and no 'z', and holds exactly one hyphen when it joins
/// a tens word to a unit word and none otherwise.
proof fn lemma_remainder_phrase_wf(tens: nat, ones: nat)
    requires
        tens <= 9,
        ones <= 9,
        tens > 0 || ones > 0,
    ensures
        remainder_phrase(tens, ones).len() > 0,
        !contains_char(remainder_phrase(tens, ones), ' '),
        !contains_char(remainder_phrase(tens, ones), 'z'),
        count_char(remainder_phrase(tens, ones), '-') == (if tens >= 2 && ones > 0 {
            1nat
        } else {
            0nat
        }),
{
    reveal_strlit("-");
    if tens == 0 {
        lemma_unit_word_plain(ones);
        lemma_count_char_zero(remainder_phrase(tens, ones), '-');
    } else if tens == 1 {
        lemma_teen_word_plain(ones);
        lemma_count_char_zero(remainder_phrase(tens, ones), '-');
    } else if ones == 0 {
        lemma_tens_word_plain(tens);
        lemma_count_char_zero(remainder_phrase(tens, ones), '-');
    } else {
        lemma_tens_word_plain(tens);
        lemma_unit_word_plain(ones);
        let t = tens_word(tens);
        let u = unit_word(ones);
        lemma_contains_char_concat(t, "-"@, ' ');
        lemma_contains_char_concat(t + "-"@, u, ' ');
        lemma_contains_char_concat(t, "-"@, 'z');
        lemma_contains_char_concat(t + "-"@, u, 'z');
        lemma_count_char_concat(t, "-"@, '-');
        lemma_count_char_concat(t + "-"@, u, '-');
        lemma_count_char_zero(t, '-');
        lemma_count_char_zero(u, '-');
        assert("-"@.drop_last() =~= Seq::<char>::empty());
        assert("-"@.last() == '-');
        assert(count_char(Seq::<char>::empty(), '-') == 0);
        assert(count_char("-"@, '-') == 1);
    }
}

/// The phrase of a non-zero triplet is non-empty, well spaced, and free
/// of the letter 'z'.
pub proof fn lemma_triplet_phrase_wf(n: nat)
    requires
        1 <= n <= 999,
    ensures
        triplet_phrase(n).len() > 0,
        well_spaced(triplet_phrase(n)),
        !contains_char(triplet_phrase(n), 'z'),
{
    let hundreds: nat = n / 100;
    let tens: nat = (n % 100) / 10;
    let ones: nat = n % 10;
    reveal_strlit(" hundred");
    reveal_strlit(" ");
    reveal_strlit("hundred");
    assert(" hundred"@ =~= " "@ + "hundred"@);
    if hundreds > 0 {
        lemma_unit_word_plain(hundreds);
        lemma_spaceless_well_spaced(unit_word(hundreds));
        lemma_spaceless_well_spaced("hundred"@);
        lemma_well_spaced_join(unit_word(hundreds), "hundred"@);
        lemma_contains_char_concat(unit_word(hundreds), " "@, 'z');
        lemma_contains_char_concat(unit_word(hundreds) + " "@, "hundred"@, 'z');
        let clause = unit_word(hundreds) + " "@ + "hundred"@;
        assert(unit_word(hundreds) + " hundred"@ =~= clause);
        if tens > 0 || ones > 0 {
            lemma_remainder_phrase_wf(tens, ones);
            lemma_spaceless_well_spaced(remainder_phrase(tens, ones));
            lemma_well_spaced_join(clause, remainder_phrase(tens, ones));
            lemma_contains_char_concat(clause, " "@, 'z');
            lemma_contains_char_concat(clause + " "@, remainder_phrase(tens, ones), 'z');
            assert(triplet_phrase(n) =~= clause + " "@ + remainder_phrase(tens, ones));
        } else {
            assert(triplet_phrase(n) =~= clause);
        }
    } else {
        lemma_remainder_phrase_wf(tens, ones);
        lemma_spaceless_well_spaced(remainder_phrase(tens, ones));
    }
}

/// For a triplet whose tens digit is at least two and whose ones digit is
/// non-zero, the rendered phrase holds exactly one hyphen, the one that
/// joins the tens word to the unit word; for a tens digit of one it uses
/// the irregular teen word, with no hyphen at all.
pub proof fn lemma_hyphenation(n: nat)
    requires
        n <= 999,
    ensures
        (n % 100) / 10 >= 2 && n % 10 > 0 ==> count_char(triplet_phrase(n), '-') == 1,
        (n % 100) / 10 == 1 ==> count_char(triplet_phrase(n), '-') == 0,
{
    let hundreds: nat = n / 100;
    let tens: nat = (n % 100) / 10;
    let ones: nat = n % 10;
    reveal_strlit(" hundred");
    reveal_strlit(" ");
    if tens >= 1 {
        lemma_remainder_phrase_wf(tens, ones);
        if hundreds > 0 {
            lemma_unit_word_plain(hundreds);
            let clause = unit_word(hundreds) + " hundred"@;
            lemma_contains_char_concat(unit_word(hundreds), " hundred"@, '-');
            lemma_count_char_zero(clause, '-');
            lemma_count_char_concat(clause, " "@, '-');
            lemma_count_char_zero(" "@, '-');
            lemma_count_char_concat(clause + " "@, remainder_phrase(tens, ones), '-');
        }
    }
}

/// Splits a triplet into its hundreds, tens and ones digits.
pub fn split_digits(n: u64) -> (r: (usize, usize, usize))
    requires
        n <= 999,
    ensures
        r.0 == n as int / 100,
        r.1 == (n as int % 100) / 10,
        r.2 == n as int % 10,
{
    ((n / 100) as usize, (n % 100 / 10) as usize, (n % 10) as usize)
}

/// Renders a triplet in 0..=999 as its English phrase; the result is empty
/// only for zero, which callers filter out beforehand.
pub fn convert_triplet_to_phrase(n: u64) -> (r: String)
    requires
        n <= 999,
    ensures
        r@ == triplet_phrase(n as nat),
{
    let (hundreds, tens, ones) = split_digits(n);
    let mut phrase = String::new();
    if hundreds > 0 {
        phrase.append(unit_str(hundreds));
        phrase.append(" hundred");
    }
    if tens > 0 || ones > 0 {
        if hundreds > 0 {
            phrase.append(" ");
        }
        if tens == 0 {
            phrase.append(unit_str(ones));
        } else if tens == 1 {
            phrase.append(teen_str(ones));
        } else if ones == 0 {
            phrase.append(tens_str(tens));
        } else {
            phrase.append(tens_str(tens));
            phrase.append("-");
            phrase.append(unit_str(ones));
        }
    }
    proof {
        assert(phrase@ =~= triplet_phrase(n as nat));
    }
    phrase
}

} // verus!
