//! Assembling the full phrase for a number: the number is split into
//! base-1000 triplets, each non-zero triplet is rendered with the scale
//! word of its position, zero triplets are elided, and the parts are
//! joined most-significant first with single spaces.

use vstd::prelude::*;
use vstd::arithmetic::div_mod::{
    lemma_div_decreases,
    lemma_div_is_ordered,
    lemma_div_multiples_vanish_fancy,
    lemma_hoist_over_denominator,
    lemma_mod_bound,
    lemma_mod_multiples_vanish,
    lemma_small_div_converse,
    lemma_small_mod,
};
use vstd::arithmetic::mul::{
    lemma_mul_is_associative,
    lemma_mul_is_commutative,
    lemma_mul_strictly_positive,
};
use crate::lexicon::{scale_word, scale_str, lemma_scale_word_plain};
use crate::triplet::{triplet_phrase, convert_triplet_to_phrase, lemma_triplet_phrase_wf};
use crate::text::{contains_char, well_spaced};
use crate::text::{
    lemma_contains_char_concat,
    lemma_spaceless_well_spaced,
    lemma_well_spaced_join,
};

verus! {

/// The base-1000 digit groups of `n`, least significant first; empty for
/// zero, so the last triplet of a positive number is always non-zero.
pub open spec fn triplets_of(n: nat) -> Seq<nat>
    decreases n,
{
    if n == 0 {
        Seq::empty()
    } else {
        seq![n % 1000] + triplets_of(n / 1000)
    }
}

/// How many base-1000 triplets `n` splits into.
pub open spec fn triplet_count(n: nat) -> nat
    decreases n,
{
    if n == 0 {
        0
    } else {
        1 + triplet_count(n / 1000)
    }
}

/// The `k`-th power of 1000: the least number with more than `k` triplets.
pub open spec fn pow1000(k: nat) -> nat
    decreases k,
{
    if k == 0 {
        1
    } else {
        1000 * pow1000((k - 1) as nat)
    }
}

/// One rendered group: the phrase of a triplet, followed by the scale word
/// of its position when that position carries one.
pub open spec fn group_phrase(triplet: nat, position: nat) -> Seq<char> {
    if position == 0 {
        triplet_phrase(triplet)
    } else {
        triplet_phrase(triplet) + " "@ + scale_word(position)
    }
}

/// The phrase for a positive number `n` whose least significant triplet
/// sits at base-1000 position `position`: the groups are rendered most
/// significant first, zero triplets contribute nothing, and consecutive
/// rendered groups are separated by a single space.
pub open spec fn scaled_phrase(n: nat, position: nat) -> Seq<char>
    decreases n,
{
    let triplet = n % 1000;
    let high = n / 1000;
    if high == 0 {
        group_phrase(triplet, position)
    } else if triplet == 0 {
        scaled_phrase(high, position + 1)
    } else {
        scaled_phrase(high, position + 1) + " "@ + group_phrase(triplet, position)
    }
}

/// The English phrase for `n`: the word "zero" for zero, otherwise the
/// joined phrases of its non-zero triplets with their scale words.
pub open spec fn number_words(n: nat) -> Seq<char> {
    if n == 0 {
        "zero"@
    } else {
        scaled_phrase(n, 0)
    }
}

/// A number below the `k`-th power of 1000 has at most `k` triplets.
proof fn lemma_triplet_count_bound(n: nat, k: nat)
    requires
        n < pow1000(k),
    ensures
        triplet_count(n) <= k,
    decreases k,
{
    if n > 0 {
        assert(k > 0);
        assert(n / 1000 < pow1000((k - 1) as nat)) by (nonlinear_arith)
            requires
                n < 1000 * pow1000((k - 1) as nat),
        ;
        lemma_triplet_count_bound(n / 1000, (k - 1) as nat);
    }
}

/// Every 64-bit number fits in seven triplets, so every scaled group
/// position it uses has a scale word in the lexicon.
proof fn lemma_u64_triplet_count(n: nat)
    requires
        n < 0x1_0000_0000_0000_0000,
    ensures
        triplet_count(n) <= 7,
{
    reveal_with_fuel(pow1000, 8);
    assert(pow1000(7) == 1_000_000_000_000_000_000_000);
    lemma_triplet_count_bound(n, 7);
}

/// A rendered group is non-empty, well spaced and free of 'z'.
proof fn lemma_group_phrase_wf(triplet: nat, position: nat)
    requires
        1 <= triplet <= 999,
        position <= 7,
    ensures
        group_phrase(triplet, position).len() > 0,
        well_spaced(group_phrase(triplet, position)),
        !contains_char(group_phrase(triplet, position), 'z'),
{
    lemma_triplet_phrase_wf(triplet);
    if position >= 1 {
        reveal_strlit(" ");
        lemma_scale_word_plain(position);
        lemma_spaceless_well_spaced(scale_word(position));
        lemma_well_spaced_join(triplet_phrase(triplet), scale_word(position));
        lemma_contains_char_concat(triplet_phrase(triplet), " "@, 'z');
        lemma_contains_char_concat(triplet_phrase(triplet) + " "@, scale_word(position), 'z');
    }
}

/// The joined phrase of a positive number is non-empty, well spaced and
/// free of 'z', as long as every group position it uses has a scale word.
proof fn lemma_scaled_phrase_wf(n: nat, position: nat)
    requires
        1 <= n,
        triplet_count(n) + position <= 8,
    ensures
        scaled_phrase(n, position).len() > 0,
        well_spaced(scaled_phrase(n, position)),
        !contains_char(scaled_phrase(n, position), 'z'),
    decreases n,
{
    let triplet = n % 1000;
    let high = n / 1000;
    lemma_mod_bound(n as int, 1000);
    if high == 0 {
        lemma_small_div_converse(n as int, 1000);
        lemma_small_mod(n, 1000);
        lemma_group_phrase_wf(triplet, position);
    } else {
        lemma_div_decreases(n as int, 1000);
        lemma_scaled_phrase_wf(high, position + 1);
        if triplet != 0 {
            reveal_strlit(" ");
            lemma_group_phrase_wf(triplet, position);
            lemma_well_spaced_join(scaled_phrase(high, position + 1), group_phrase(triplet, position));
            lemma_contains_char_concat(scaled_phrase(high, position + 1), " "@, 'z');
            lemma_contains_char_concat(
                scaled_phrase(high, position + 1) + " "@,
                group_phrase(triplet, position),
                'z',
            );
        }
    }
}

/// No stray zero groups. The phrase of a positive number in the
/// supported range never holds the letter 'z', so the word "zero" never
/// stands beside a scale word; and the phrase is non-empty, never starts
/// or ends with a space, and never holds two spaces in a row, so every
/// scale word is preceded by the non-empty phrase of its own non-zero
/// triplet and elided groups leave no gap behind.
pub proof fn lemma_no_stray_zero_groups(n: nat)
    requires
        1 <= n < pow1000(8),
    ensures
        number_words(n).len() > 0,
        well_spaced(number_words(n)),
        !contains_char(number_words(n), 'z'),
{
    lemma_triplet_count_bound(n, 8);
    lemma_scaled_phrase_wf(n, 0);
}

/// The heart of the magnitude law, generalised over the base position:
/// putting a new non-zero leading triplet `t` at `k` base-1000 positions
/// above a remainder `n` prepends exactly the phrase of `t` and the one
/// scale word of its position to the phrase of `n`.
proof fn lemma_scaled_leading(t: nat, k: nat, n: nat, position: nat)
    requires
        1 <= t <= 999,
        1 <= k,
        n < pow1000(k),
    ensures
        n == 0 ==> scaled_phrase(t * pow1000(k) + n, position) == group_phrase(
            t,
            position + k,
        ),
        n >= 1 ==> scaled_phrase(t * pow1000(k) + n, position) == group_phrase(t, position + k)
            + " "@ + scaled_phrase(n, position),
    decreases k,
{
    let q = pow1000((k - 1) as nat);
    let m = t * pow1000(k) + n;
    assert(pow1000(k) == 1000 * q);
    lemma_mul_is_associative(t as int, 1000, q as int);
    lemma_mul_is_commutative(t as int, 1000);
    lemma_mul_is_associative(1000, t as int, q as int);
    assert(m == 1000 * (t * q) + n);
    lemma_mul_strictly_positive(t as int, q as int);
    lemma_mod_multiples_vanish((t * q) as int, n as int, 1000);
    assert(m % 1000 == n % 1000);
    lemma_hoist_over_denominator(n as int, (t * q) as int, 1000);
    assert(m / 1000 == t * q + n / 1000);
    lemma_div_is_ordered(n as int, 1000 * q - 1, 1000);
    lemma_div_multiples_vanish_fancy(q as int - 1, 999, 1000);
    assert(n / 1000 < q);
    if k == 1 {
        assert(q == 1);
        lemma_small_mod(n, 1000);
        lemma_small_mod(t, 1000);
        lemma_small_div_converse(t as int, 1000);
        assert(n / 1000 == 0);
        assert(m / 1000 == t);
        assert(t / 1000 == 0) by {
            lemma_div_is_ordered(t as int, 999, 1000);
        }
        assert(scaled_phrase(t, position + 1) == group_phrase(t, position + 1));
        if n >= 1 {
            assert(scaled_phrase(n, position) == group_phrase(n, position));
        }
    } else {
        lemma_scaled_leading(t, (k - 1) as nat, n / 1000, position + 1);
        let high = m / 1000;
        assert(high == t * q + n / 1000);
        if n % 1000 == 0 {
            if n == 0 {
                assert(n / 1000 == 0);
                assert(scaled_phrase(m, position) == scaled_phrase(high, position + 1));
            } else {
                if n / 1000 == 0 {
                    lemma_small_div_converse(n as int, 1000);
                    lemma_small_mod(n, 1000);
                }
                assert(n / 1000 >= 1);
                assert(scaled_phrase(m, position) == scaled_phrase(high, position + 1));
                assert(scaled_phrase(n, position) == scaled_phrase(n / 1000, position + 1));
            }
        } else {
            assert(n >= 1);
            if n / 1000 == 0 {
                lemma_small_div_converse(n as int, 1000);
                lemma_small_mod(n, 1000);
                assert(scaled_phrase(n, position) == group_phrase(n, position));
                assert(scaled_phrase(m, position) == scaled_phrase(high, position + 1) + " "@
                    + group_phrase(n % 1000, position));
            } else {
                assert(scaled_phrase(m, position) =~= group_phrase(t, position + k) + " "@
                    + scaled_phrase(n, position));
            }
        }
    }
}

/// The word-count / magnitude law: introducing a new non-zero leading
/// triplet `t`, `k` base-1000 magnitude groups up, prepends exactly the
/// phrase of `t` and the single scale word of position `k` to the
/// phrase; the rest of the phrase is unchanged.
pub proof fn lemma_leading_group(t: nat, k: nat, n: nat)
    requires
        1 <= t <= 999,
        1 <= k,
        n < pow1000(k),
    ensures
        n == 0 ==> number_words(t * pow1000(k) + n) == triplet_phrase(t) + " "@ + scale_word(k),
        n >= 1 ==> number_words(t * pow1000(k) + n) == triplet_phrase(t) + " "@ + scale_word(k)
            + " "@ + number_words(n),
{
    lemma_mul_strictly_positive(t as int, pow1000(k) as int);
    lemma_scaled_leading(t, k, n, 0);
}

/// Splits a number into its base-1000 triplets, least significant first;
/// the result is empty only for zero, and every element is below 1000.
pub fn split_number_into_triplets(number: u64) -> (r: Vec<u64>)
    ensures
        r@.map_values(|t: u64| t as nat) == triplets_of(number as nat),
        forall|i: int| 0 <= i < r@.len() ==> r@[i] < 1000,
{
    let mut triplets: Vec<u64> = Vec::new();
    let mut remaining = number;
    while remaining > 0
        invariant
            triplets_of(number as nat) == triplets@.map_values(|t: u64| t as nat)
                + triplets_of(remaining as nat),
            forall|i: int| 0 <= i < triplets@.len() ==> triplets@[i] < 1000,
        decreases remaining,
    {
        let ghost before = triplets@;
        triplets.push(remaining % 1000);
        proof {
            assert(triplets@.map_values(|t: u64| t as nat) =~= before.map_values(
                |t: u64| t as nat,
            ) + seq![(remaining % 1000) as nat]);
            assert(triplets_of(number as nat) =~= triplets@.map_values(|t: u64| t as nat)
                + triplets_of((remaining / 1000) as nat));
        }
        remaining = remaining / 1000;
    }
    proof {
        assert(triplets_of(number as nat) =~= triplets@.map_values(|t: u64| t as nat));
    }
    triplets
}

/// Renders the phrase of a positive `n` whose least significant triplet
/// sits at base-1000 position `position`.
fn render_scaled(n: u64, position: usize) -> (r: String)
    requires
        1 <= n,
        position + triplet_count(n as nat) <= 8,
    ensures
        r@ == scaled_phrase(n as nat, position as nat),
    decreases n,
{
    let triplet = n % 1000;
    let high = n / 1000;
    if high == 0 {
        if position == 0 {
            convert_triplet_to_phrase(triplet)
        } else {
            let mut part = convert_triplet_to_phrase(triplet);
            part.append(" ");
            part.append(scale_str(position));
            proof {
                assert(part@ =~= scaled_phrase(n as nat, position as nat));
            }
            part
        }
    } else if triplet == 0 {
        render_scaled(high, position + 1)
    } else {
        let mut phrase = render_scaled(high, position + 1);
        phrase.append(" ");
        phrase.append(convert_triplet_to_phrase(triplet).as_str());
        if position > 0 {
            phrase.append(" ");
            phrase.append(scale_str(position));
        }
        proof {
            assert(phrase@ =~= scaled_phrase(n as nat, position as nat));
        }
        phrase
    }
}

/// Turns a non-negative number into its English word phrase: "zero" for
/// zero, otherwise the phrases of its non-zero base-1000 triplets, each
/// with the scale word of its position, joined most significant first
/// with single spaces. Negative input is outside the defined domain and
/// is rejected by contract rather than reinterpreted.
pub fn number_to_words(number: i64) -> (r: String)
    requires
        number >= 0,
    ensures
        r@ == number_words(number as nat),
{
    if number == 0 {
        "zero".to_owned()
    } else {
        let n = number as u64;
        proof {
            lemma_u64_triplet_count(n as nat);
        }
        render_scaled(n, 0)
    }
}

} // verus!
